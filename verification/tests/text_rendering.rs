use procs::config::ConfigColumnAlign;
use procs::render::{adjust, truncate};

#[test]
fn adjust_pads_left() {
    assert_eq!(adjust("ab", 5, &ConfigColumnAlign::Left), "ab   ");
}

#[test]
fn adjust_pads_right() {
    assert_eq!(adjust("ab", 5, &ConfigColumnAlign::Right), "   ab");
}

#[test]
fn adjust_centers_with_odd_leftover_on_the_right() {
    assert_eq!(adjust("ab", 5, &ConfigColumnAlign::Center), " ab  ");
}

#[test]
fn adjust_exact_width_needs_no_padding() {
    assert_eq!(adjust("abcde", 5, &ConfigColumnAlign::Left), "abcde");
    assert_eq!(adjust("abcde", 5, &ConfigColumnAlign::Right), "abcde");
    assert_eq!(adjust("abcde", 5, &ConfigColumnAlign::Center), "abcde");
}

#[test]
fn adjust_truncates_when_too_wide() {
    assert_eq!(adjust("hello", 3, &ConfigColumnAlign::Left), "hel");
    assert_eq!(adjust("hello", 3, &ConfigColumnAlign::Right), "hel");
}

#[test]
fn truncate_returns_short_text_unchanged() {
    assert_eq!(truncate("abc", 5), "abc");
    assert_eq!(truncate("abc", 3), "abc");
    assert_eq!(truncate("", 0), "");
}

#[test]
fn truncate_cuts_at_the_width() {
    assert_eq!(truncate("abcdef", 4), "abcd");
    assert_eq!(truncate("abcdef", 0), "");
}

#[test]
fn truncate_keeps_escape_sequences_and_counts_only_visible_width() {
    let s = "\u{1b}[31mABCDEFGHIJ\u{1b}[0m";
    let cut = truncate(s, 5);
    assert_eq!(cut, "\u{1b}[31mABCDE");
    let visible: String = {
        let mut out = String::new();
        let mut in_escape = false;
        for c in cut.chars() {
            if c == '\u{1b}' {
                in_escape = true;
            }
            if in_escape {
                if c == 'm' {
                    in_escape = false;
                }
                continue;
            }
            out.push(c);
        }
        out
    };
    assert_eq!(unicode_width::UnicodeWidthStr::width(visible.as_str()), 5);
}

#[test]
fn truncate_counts_wide_characters_as_two_columns() {
    assert_eq!(truncate("\u{65e5}\u{672c}\u{8a9e}", 4), "\u{65e5}\u{672c}");
    assert_eq!(truncate("\u{65e5}\u{672c}\u{8a9e}", 5), "\u{65e5}\u{672c}");
    assert_eq!(truncate("\u{65e5}\u{672c}\u{8a9e}", 6), "\u{65e5}\u{672c}\u{8a9e}");
}

#[test]
fn truncate_is_idempotent_on_sample_inputs() {
    let samples = [
        "plain text",
        "\u{1b}[31mABCDEFGHIJ\u{1b}[0m",
        "\u{65e5}\u{672c}\u{8a9e} mixed in",
        "",
    ];
    for s in samples {
        for w in 0..12usize {
            let once = truncate(s, w);
            let twice = truncate(once.as_str(), w);
            assert_eq!(twice, once);
        }
    }
}
