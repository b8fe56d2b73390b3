use cawa::alias::AliasEntry;
use cawa::notice::{notice_body, notice_title};
use cawa::selector::{row_line, Key, Selector, Step, EMPTY_HELP, NAVIGATION_HELP};
use cawa::store::AliasMap;

fn three() -> Selector {
    let mut m = AliasMap::new();
    m.insert("c".to_string(), AliasEntry::Single("cc".to_string()));
    m.insert("a".to_string(), AliasEntry::Single("aa".to_string()));
    m.insert("b".to_string(), AliasEntry::Single("bb".to_string()));
    Selector::new(&m)
}

#[test]
fn selector_starts_on_first_row() {
    let s = three();
    assert_eq!(s.len(), 3);
    assert_eq!(s.selected(), Some(0));
    assert_eq!(s.row(0), ("a", "aa"));
    assert_eq!(s.help_text(), NAVIGATION_HELP);
}

#[test]
fn down_from_last_wraps_to_first() {
    let mut s = three();
    s.handle(Key::Down);
    s.handle(Key::Down);
    assert_eq!(s.selected(), Some(2));
    assert!(matches!(s.handle(Key::Down), Step::Continue));
    assert_eq!(s.selected(), Some(0));
}

#[test]
fn up_from_first_wraps_to_last() {
    let mut s = three();
    s.previous();
    assert_eq!(s.selected(), Some(2));
    s.next();
    assert_eq!(s.selected(), Some(0));
}

#[test]
fn confirm_selects_name_under_cursor() {
    let mut s = three();
    s.handle(Key::Down);
    match s.handle(Key::Confirm) {
        Step::Selected(name) => assert_eq!(name, "b"),
        _ => panic!("confirm on a row selects it"),
    }
}

#[test]
fn cancel_and_other_keys() {
    let mut s = three();
    assert!(matches!(s.handle(Key::Other), Step::Continue));
    assert_eq!(s.selected(), Some(0));
    assert!(matches!(s.handle(Key::Cancel), Step::Cancelled));
}

#[test]
fn empty_selector_has_no_cursor_and_confirm_does_nothing() {
    let m = AliasMap::new();
    let mut s = Selector::new(&m);
    assert_eq!(s.selected(), None);
    assert_eq!(s.help_text(), EMPTY_HELP);
    assert!(matches!(s.handle(Key::Down), Step::Continue));
    assert!(matches!(s.handle(Key::Up), Step::Continue));
    assert_eq!(s.selected(), None);
    assert!(matches!(s.handle(Key::Confirm), Step::Continue));
    assert!(matches!(s.handle(Key::Cancel), Step::Cancelled));
}

#[test]
fn row_line_shows_name_arrow_and_command() {
    assert_eq!(row_line("greet", "echo hi"), "greet  ➜  echo hi");
}

#[test]
fn notice_texts() {
    assert_eq!(notice_body(true, Some("b")), "Alias 'b' finished successfully.");
    assert_eq!(notice_body(false, Some("b")), "Alias 'b' failed.");
    assert_eq!(notice_body(true, None), "Command finished successfully.");
    assert_eq!(notice_body(false, None), "Command failed.");
    assert_eq!(notice_title("cs"), "🐙 cs");
}
