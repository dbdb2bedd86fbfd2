use procs::column::{Command, ProcessSnapshot};
use procs::config::{ConfigSearchCase, ConfigSearchLogic};
use procs::search::{classify, find_exact, find_partial, KeywordClass};

fn one_column(pid: i32, value: &str) -> Vec<Command> {
    let mut col = Command::new(None, false, None);
    col.add(&ProcessSnapshot {
        pid,
        args: vec![value.to_string()],
        raw_command: None,
        short_name: String::new(),
    });
    vec![col]
}

fn kw(words: &[&str]) -> Vec<String> {
    words.iter().map(|w| w.to_string()).collect()
}

#[test]
fn insensitive_or_search_matches_across_case() {
    let columns = one_column(1, "XABCY");
    assert!(find_partial(
        &columns,
        1,
        &kw(&["abc"]),
        &ConfigSearchLogic::Or,
        &ConfigSearchCase::Insensitive,
    ));
}

#[test]
fn sensitive_or_search_respects_case() {
    let columns = one_column(1, "XABCY");
    assert!(!find_partial(
        &columns,
        1,
        &kw(&["abc"]),
        &ConfigSearchLogic::Or,
        &ConfigSearchCase::Sensitive,
    ));
    assert!(find_partial(
        &columns,
        1,
        &kw(&["ABC"]),
        &ConfigSearchLogic::Or,
        &ConfigSearchCase::Sensitive,
    ));
}

#[test]
fn smart_case_folds_all_lowercase_keywords_only() {
    let columns = one_column(1, "XABCY");
    assert!(find_partial(
        &columns,
        1,
        &kw(&["abc"]),
        &ConfigSearchLogic::Or,
        &ConfigSearchCase::Smart,
    ));
    assert!(!find_partial(
        &columns,
        1,
        &kw(&["Abc"]),
        &ConfigSearchLogic::Or,
        &ConfigSearchCase::Smart,
    ));
}

#[test]
fn and_requires_every_keyword_and_nand_computes_identically() {
    let columns = one_column(1, "alpha beta");
    let both = kw(&["alpha", "beta"]);
    let one_misses = kw(&["alpha", "gamma"]);
    for logic in [ConfigSearchLogic::And, ConfigSearchLogic::Nand] {
        assert!(find_partial(&columns, 1, &both, &logic, &ConfigSearchCase::Sensitive));
        assert!(!find_partial(&columns, 1, &one_misses, &logic, &ConfigSearchCase::Sensitive));
    }
}

#[test]
fn or_requires_some_keyword_and_nor_computes_identically() {
    let columns = one_column(1, "alpha beta");
    let one_hits = kw(&["gamma", "beta"]);
    let none_hits = kw(&["gamma", "delta"]);
    for logic in [ConfigSearchLogic::Or, ConfigSearchLogic::Nor] {
        assert!(find_partial(&columns, 1, &one_hits, &logic, &ConfigSearchCase::Sensitive));
        assert!(!find_partial(&columns, 1, &none_hits, &logic, &ConfigSearchCase::Sensitive));
    }
}

#[test]
fn empty_keyword_list_returns_the_accumulator_seed() {
    let columns = one_column(1, "alpha");
    let none = kw(&[]);
    assert!(find_partial(&columns, 1, &none, &ConfigSearchLogic::And, &ConfigSearchCase::Smart));
    assert!(!find_partial(&columns, 1, &none, &ConfigSearchLogic::Or, &ConfigSearchCase::Smart));
}

#[test]
fn exact_search_needs_the_whole_value() {
    let columns = one_column(1, "XABCY");
    assert!(!find_exact(
        &columns,
        1,
        &kw(&["abc"]),
        &ConfigSearchLogic::Or,
        &ConfigSearchCase::Insensitive,
    ));
    assert!(find_exact(
        &columns,
        1,
        &kw(&["xabcy"]),
        &ConfigSearchLogic::Or,
        &ConfigSearchCase::Insensitive,
    ));
    assert!(!find_exact(
        &columns,
        1,
        &kw(&["xabcy"]),
        &ConfigSearchLogic::Or,
        &ConfigSearchCase::Sensitive,
    ));
}

#[test]
fn search_for_an_unknown_pid_misses() {
    let columns = one_column(1, "alpha");
    assert!(!find_partial(
        &columns,
        2,
        &kw(&["alpha"]),
        &ConfigSearchLogic::Or,
        &ConfigSearchCase::Sensitive,
    ));
}

#[test]
fn classify_accepts_signed_integers_in_range() {
    assert_eq!(classify("123"), KeywordClass::Numeric);
    assert_eq!(classify("+5"), KeywordClass::Numeric);
    assert_eq!(classify("-5"), KeywordClass::Numeric);
    assert_eq!(classify("0"), KeywordClass::Numeric);
    assert_eq!(classify("-9223372036854775808"), KeywordClass::Numeric);
    assert_eq!(classify("9223372036854775807"), KeywordClass::Numeric);
}

#[test]
fn classify_rejects_everything_else() {
    assert_eq!(classify(""), KeywordClass::NonNumeric);
    assert_eq!(classify("-"), KeywordClass::NonNumeric);
    assert_eq!(classify("+"), KeywordClass::NonNumeric);
    assert_eq!(classify("12a"), KeywordClass::NonNumeric);
    assert_eq!(classify("1 2"), KeywordClass::NonNumeric);
    assert_eq!(classify("9223372036854775808"), KeywordClass::NonNumeric);
    assert_eq!(classify("-9223372036854775809"), KeywordClass::NonNumeric);
    assert_eq!(classify("12.5"), KeywordClass::NonNumeric);
}

#[test]
fn search_runs_on_raw_values_even_when_display_is_abbreviated() {
    let mut col = Command::new(None, true, Some("/home/u".to_string()));
    col.add(&ProcessSnapshot {
        pid: 1,
        args: vec!["/home/u/bin/tool".to_string()],
        raw_command: None,
        short_name: String::new(),
    });
    let columns = vec![col];
    assert!(find_partial(
        &columns,
        1,
        &kw(&["/home/u/bin"]),
        &ConfigSearchLogic::Or,
        &ConfigSearchCase::Sensitive,
    ));
}
