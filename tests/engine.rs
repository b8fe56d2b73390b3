use cawa::alias::{final_command, join_strings, AliasEntry};
use cawa::invocation::{all_succeeded, plan_named, plan_selected, resolve, Invocation};
use cawa::config::Config;

fn strings(v: &[&str]) -> Vec<String> {
    v.iter().map(|s| s.to_string()).collect()
}

#[test]
fn single_command_without_extra_args_is_unchanged() {
    assert_eq!(final_command("cargo test", &Vec::new()), "cargo test");
}

#[test]
fn single_command_appends_extra_args_after_one_space() {
    let extra = strings(&["--filter=foo", "-v"]);
    assert_eq!(final_command("cargo test", &extra), "cargo test --filter=foo -v");
}

#[test]
fn join_strings_puts_separator_between_neighbours() {
    assert_eq!(join_strings(&strings(&["a", "b", "c"]), ", "), "a, b, c");
    assert_eq!(join_strings(&strings(&["a"]), ", "), "a");
    assert_eq!(join_strings(&Vec::new(), ", "), "");
}

#[test]
fn parallel_alias_ignores_extra_args() {
    let entry = AliasEntry::Parallel(strings(&["make a", "make b"]));
    let with = entry.command_lines(&strings(&["x", "y"]));
    let without = entry.command_lines(&Vec::new());
    assert_eq!(with, strings(&["make a", "make b"]));
    assert_eq!(with, without);
    assert!(entry.ignores_args(&strings(&["x"])));
    assert!(!entry.ignores_args(&Vec::new()));
}

#[test]
fn single_alias_runs_one_line() {
    let entry = AliasEntry::Single("ls".to_string());
    assert_eq!(entry.command_lines(&strings(&["-la"])), strings(&["ls -la"]));
    assert!(!entry.ignores_args(&strings(&["-la"])));
}

#[test]
fn overall_success_all_pass() {
    assert!(all_succeeded(&vec![true, true, true]));
}

#[test]
fn overall_success_all_fail() {
    assert!(!all_succeeded(&vec![false, false]));
}

#[test]
fn overall_success_mixed() {
    assert!(!all_succeeded(&vec![true, false, true]));
    assert!(!all_succeeded(&vec![false, true]));
}

#[test]
fn overall_success_of_no_unit() {
    assert!(all_succeeded(&Vec::new()));
}

#[test]
fn greet_with_extra_argument_runs_echo_hi_there() {
    let mut config = Config::new();
    config.add_alias("greet".to_string(), false, &strings(&["echo hi"]));
    let inv = plan_named(&config, &strings(&["greet", "there"]));
    match &inv {
        Invocation::Run(plan) => {
            assert_eq!(plan.alias, "greet");
            assert_eq!(plan.lines, strings(&["echo hi there"]));
            assert!(!plan.parallel);
            assert!(!plan.ignored_args);
        }
        _ => panic!("greet should resolve to a run"),
    }
    assert_eq!(inv.exit_code(&vec![true]), 0);
}

#[test]
fn jobs_with_one_failing_unit_fails_with_status_one() {
    let mut config = Config::new();
    config.add_alias("jobs".to_string(), true, &strings(&["exit 0", "exit 1"]));
    let inv = plan_named(&config, &strings(&["jobs"]));
    match &inv {
        Invocation::Run(plan) => {
            assert_eq!(plan.lines, strings(&["exit 0", "exit 1"]));
            assert!(plan.parallel);
        }
        _ => panic!("jobs should resolve to a run"),
    }
    assert!(!all_succeeded(&vec![true, false]));
    assert_eq!(inv.exit_code(&vec![true, false]), 1);
}

#[test]
fn unknown_alias_fails() {
    let config = Config::new();
    let inv = resolve(&config, "nope", &Vec::new());
    match &inv {
        Invocation::Unknown(name) => assert_eq!(name, "nope"),
        _ => panic!("an absent alias is unknown"),
    }
    assert_eq!(inv.exit_code(&Vec::new()), 1);
}

#[test]
fn no_words_shows_help() {
    let config = Config::new();
    let inv = plan_named(&config, &Vec::new());
    assert!(matches!(inv, Invocation::Help));
    assert_eq!(inv.exit_code(&Vec::new()), 0);
}

#[test]
fn parallel_run_with_args_reports_them_ignored() {
    let mut config = Config::new();
    config.add_alias("both".to_string(), true, &strings(&["a", "b"]));
    match plan_named(&config, &strings(&["both", "x"])) {
        Invocation::Run(plan) => {
            assert!(plan.ignored_args);
            assert_eq!(plan.lines, strings(&["a", "b"]));
        }
        _ => panic!("both should resolve to a run"),
    }
}

#[test]
fn cancelled_selection_runs_nothing_and_succeeds() {
    let config = Config::new();
    let inv = plan_selected(&config, &None);
    assert!(matches!(inv, Invocation::Nothing));
    assert_eq!(inv.exit_code(&Vec::new()), 0);
}

#[test]
fn chosen_alias_runs_without_extra_args() {
    let mut config = Config::new();
    config.add_alias("greet".to_string(), false, &strings(&["echo hi"]));
    match plan_selected(&config, &Some("greet".to_string())) {
        Invocation::Run(plan) => assert_eq!(plan.lines, strings(&["echo hi"])),
        _ => panic!("greet should resolve to a run"),
    }
}
