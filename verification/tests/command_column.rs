use procs::column::{Column, Command, ProcessSnapshot};

fn snapshot(pid: i32, args: &[&str], raw: Option<&str>, short: &str) -> ProcessSnapshot {
    ProcessSnapshot {
        pid,
        args: args.iter().map(|a| a.to_string()).collect(),
        raw_command: raw.map(|r| r.to_string()),
        short_name: short.to_string(),
    }
}

#[test]
fn empty_argument_list_falls_back_to_bracketed_short_name() {
    let mut col = Command::new(None, false, None);
    col.add(&snapshot(1, &[], None, "sh"));
    assert_eq!(col.raw_content(1).unwrap(), "[sh]");
    assert_eq!(col.fmt_content(1).unwrap(), "[sh]");
}

#[test]
fn arguments_join_with_single_spaces_and_keep_internal_whitespace() {
    let mut col = Command::new(None, false, None);
    col.add(&snapshot(1, &["a", "b c"], None, "sh"));
    assert_eq!(col.raw_content(1).unwrap(), "a b c");
    assert_eq!(col.fmt_content(1).unwrap(), "a b c");
}

#[test]
fn newlines_and_tabs_become_plain_spaces() {
    let mut col = Command::new(None, false, None);
    col.add(&snapshot(1, &["a\nb", "c\td"], None, "sh"));
    assert_eq!(col.raw_content(1).unwrap(), "a b c d");
}

#[test]
fn raw_command_text_is_used_when_the_argument_list_is_empty() {
    let mut col = Command::new(None, false, None);
    col.add(&snapshot(1, &[], Some("kworker/0:1"), "kworker"));
    assert_eq!(col.raw_content(1).unwrap(), "kworker/0:1");
}

#[test]
fn abbreviation_touches_the_formatted_value_only() {
    let mut col = Command::new(None, true, Some("/home/alice".to_string()));
    col.add(&snapshot(7, &["/home/alice/bin/tool", "arg"], None, "tool"));
    assert_eq!(col.raw_content(7).unwrap(), "/home/alice/bin/tool arg");
    assert_eq!(col.fmt_content(7).unwrap(), "~/bin/tool arg");
}

#[test]
fn header_defaults_and_overrides() {
    let col = Command::new(None, false, None);
    assert_eq!(col.header(), "Command");
    assert_eq!(col.unit(), "");
    let named = Command::new(Some("CMD".to_string()), false, None);
    assert_eq!(named.header(), "CMD");
}

#[test]
fn width_tracks_the_widest_formatted_value() {
    let mut col = Command::new(None, false, None);
    assert_eq!(col.max_width(), 0);
    col.add(&snapshot(1, &["ab"], None, "s"));
    assert_eq!(col.max_width(), 2);
    col.add(&snapshot(2, &["abcdef"], None, "s"));
    assert_eq!(col.max_width(), 6);
    col.add(&snapshot(3, &["x"], None, "s"));
    assert_eq!(col.max_width(), 6);
}

#[test]
fn a_later_add_for_the_same_pid_overwrites() {
    let mut col = Command::new(None, false, None);
    col.add(&snapshot(1, &["first"], None, "s"));
    col.add(&snapshot(1, &["second"], None, "s"));
    assert_eq!(col.raw_content(1).unwrap(), "second");
}

#[test]
fn column_partial_search_folds_both_sides_when_asked() {
    let mut col = Command::new(None, false, None);
    col.add(&snapshot(1, &["XABCY"], None, "s"));
    assert!(col.find_partial(1, "abc", true));
    assert!(!col.find_partial(1, "abc", false));
    assert!(col.find_partial(1, "ABC", false));
    assert!(!col.find_partial(2, "abc", true));
}

#[test]
fn column_exact_search_compares_whole_values() {
    let mut col = Command::new(None, false, None);
    col.add(&snapshot(1, &["XABCY"], None, "s"));
    assert!(col.find_exact(1, "xabcy", true));
    assert!(col.find_exact(1, "XABCY", false));
    assert!(!col.find_exact(1, "XABC", false));
}
