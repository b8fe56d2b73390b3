use cawa::alias::AliasEntry;
use cawa::config::Config;
use cawa::order::str_lt;
use cawa::store::AliasMap;

fn strings(v: &[&str]) -> Vec<String> {
    v.iter().map(|s| s.to_string()).collect()
}

fn rows(v: &[(&str, &str)]) -> Vec<(String, String)> {
    v.iter().map(|(a, b)| (a.to_string(), b.to_string())).collect()
}

#[test]
fn add_list_remove_round_trip() {
    let mut config = Config::new();
    let shown = config.add_alias("build".to_string(), false, &strings(&["echo a &&", "echo b"]));
    assert_eq!(shown, "echo a && echo b");
    match config.aliases.get("build") {
        Some(AliasEntry::Single(s)) => assert_eq!(s, "echo a && echo b"),
        _ => panic!("build should be stored as one command line"),
    }
    assert_eq!(config.aliases.listing(), rows(&[("build", "echo a && echo b")]));
    assert!(config.remove_alias("build"));
    assert!(config.aliases.listing().is_empty());
    assert!(config.aliases.get("build").is_none());
}

#[test]
fn removing_an_absent_alias_reports_false() {
    let mut config = Config::new();
    config.add_alias("a".to_string(), false, &strings(&["true"]));
    assert!(!config.remove_alias("b"));
    assert_eq!(config.aliases.len(), 1);
}

#[test]
fn parallel_add_displays_bracketed_group() {
    let mut config = Config::new();
    let shown = config.add_alias("ci".to_string(), true, &strings(&["lint", "test"]));
    assert_eq!(shown, "[lint, test]");
    match config.aliases.get("ci") {
        Some(AliasEntry::Parallel(v)) => assert_eq!(v, &strings(&["lint", "test"])),
        _ => panic!("ci should be stored as a parallel group"),
    }
}

#[test]
fn listing_is_sorted_by_name() {
    let mut m = AliasMap::new();
    m.insert("zeta".to_string(), AliasEntry::Single("z".to_string()));
    m.insert("alpha".to_string(), AliasEntry::Single("a".to_string()));
    m.insert("mid".to_string(), AliasEntry::Parallel(strings(&["x", "y"])));
    m.insert("al".to_string(), AliasEntry::Single("p".to_string()));
    assert_eq!(
        m.listing(),
        rows(&[("al", "p"), ("alpha", "a"), ("mid", "[x, y]"), ("zeta", "z")])
    );
    assert_eq!(m.len(), 4);
}

#[test]
fn insert_replaces_existing_alias() {
    let mut m = AliasMap::new();
    m.insert("k".to_string(), AliasEntry::Single("old".to_string()));
    m.insert("k".to_string(), AliasEntry::Single("new".to_string()));
    assert_eq!(m.len(), 1);
    assert_eq!(m.listing(), rows(&[("k", "new")]));
}

#[test]
fn empty_map_has_no_rows() {
    let m = AliasMap::new();
    assert!(m.is_empty());
    assert!(m.listing().is_empty());
}

#[test]
fn timing_is_off_unless_enabled() {
    let mut config = Config::new();
    assert!(!config.timing_enabled());
    config.enable_timing = Some(false);
    assert!(!config.timing_enabled());
    config.enable_timing = Some(true);
    assert!(config.timing_enabled());
}

#[test]
fn lexicographic_order() {
    assert!(str_lt("a", "b"));
    assert!(str_lt("ab", "abc"));
    assert!(!str_lt("abc", "ab"));
    assert!(!str_lt("same", "same"));
    assert!(str_lt("", "x"));
    assert!(str_lt("B", "a"));
}
