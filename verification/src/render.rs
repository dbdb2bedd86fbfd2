//! Width-aware rendering of one cell: truncation that respects terminal
//! escape sequences and wide characters, and padding to an alignment.
use vstd::prelude::*;
use crate::config::ConfigColumnAlign;
use crate::text::{chars_to_string, str_to_chars};
use crate::width::{char_width, str_width, str_width_of, visible_width};

verus! {

/// One step of the truncation automaton, as a function from a position and a
/// state to the number of leading characters that are kept. The scan starts
/// at `i` with `in_esc` telling whether it stands inside an escape sequence
/// and `used` the display width consumed so far. Escape-sequence characters
/// are kept without consuming width; a sequence ends at `'m'`. A visible
/// character is kept only while the consumed width stays within `width`;
/// the first character that would exceed it ends the scan.
pub open spec fn scan_keep(s: Seq<char>, width: int, i: int, in_esc: bool, used: int) -> int
    decreases s.len() - i,
{
    if i < 0 || i >= s.len() {
        i
    } else {
        let c = s[i];
        if c == '\u{1b}' {
            scan_keep(s, width, i + 1, true, used)
        } else if in_esc {
            scan_keep(s, width, i + 1, c != 'm', used)
        } else if used + visible_width(c) > width {
            i
        } else {
            scan_keep(s, width, i + 1, false, used + visible_width(c))
        }
    }
}

/// How many leading characters `truncate` keeps.
pub open spec fn trunc_len(s: Seq<char>, width: int) -> int {
    scan_keep(s, width, 0, false, 0)
}

/// What `truncate` returns: the kept prefix.
pub open spec fn spec_truncate(s: Seq<char>, width: int) -> Seq<char> {
    s.take(trunc_len(s, width))
}

proof fn lemma_scan_bounds(s: Seq<char>, width: int, i: int, in_esc: bool, used: int)
    requires
        0 <= i <= s.len(),
    ensures
        i <= scan_keep(s, width, i, in_esc, used) <= s.len(),
    decreases s.len() - i,
{
    if i < s.len() {
        let c = s[i];
        if c == '\u{1b}' {
            lemma_scan_bounds(s, width, i + 1, true, used);
        } else if in_esc {
            lemma_scan_bounds(s, width, i + 1, c != 'm', used);
        } else if used + visible_width(c) > width {
        } else {
            lemma_scan_bounds(s, width, i + 1, false, used + visible_width(c));
        }
    }
}

/// A scan that stops at `k` behaves the same on the kept prefix alone, where
/// it reaches the end without ever exceeding the width.
proof fn lemma_scan_prefix(s: Seq<char>, width: int, i: int, in_esc: bool, used: int, k: int)
    requires
        0 <= i <= k <= s.len(),
        scan_keep(s, width, i, in_esc, used) == k,
    ensures
        scan_keep(s.take(k), width, i, in_esc, used) == k,
    decreases k - i,
{
    let t = s.take(k);
    if i == k {
    } else {
        let c = s[i];
        assert(t[i] == c);
        if c == '\u{1b}' {
            lemma_scan_prefix(s, width, i + 1, true, used, k);
        } else if in_esc {
            lemma_scan_prefix(s, width, i + 1, c != 'm', used, k);
        } else {
            assert(used + visible_width(c) <= width);
            lemma_scan_prefix(s, width, i + 1, false, used + visible_width(c), k);
        }
    }
}

/// Truncation is idempotent: cutting an already cut string to the same width
/// changes nothing.
pub proof fn lemma_truncate_idempotent(s: Seq<char>, width: int)
    ensures
        spec_truncate(spec_truncate(s, width), width) == spec_truncate(s, width),
{
    lemma_scan_bounds(s, width, 0, false, 0);
    let k = trunc_len(s, width);
    lemma_scan_prefix(s, width, 0, false, 0, k);
    assert(s.take(k).take(k) =~= s.take(k));
}

/// Cut `s` down to at most `width` display columns. Escape sequences are
/// copied through without counting toward the width; the first visible
/// character that would push the consumed width past `width` ends the
/// result. A string that fits is returned whole.
pub fn truncate(s: &str, width: usize) -> (r: String)
    ensures
        r@ == spec_truncate(s@, width as int),
{
    let chars = str_to_chars(s);
    let n = chars.len();
    let mut buf: Vec<char> = Vec::new();
    let mut in_escape = false;
    let mut used: usize = 0;
    let mut i: usize = 0;
    while i < n
        invariant
            chars@ == s@,
            n == chars@.len(),
            i <= n,
            used <= width,
            buf@ == s@.take(i as int),
            scan_keep(s@, width as int, i as int, in_escape, used as int) == trunc_len(
                s@,
                width as int,
            ),
        decreases n - i,
    {
        let c = chars[i];
        if c == '\u{1b}' {
            in_escape = true;
        } else if in_escape {
            if c == 'm' {
                in_escape = false;
            }
        } else {
            let w: usize = match char_width(c) {
                Some(x) => x,
                None => 0,
            };
            if w > width - used {
                proof {
                    assert(scan_keep(s@, width as int, i as int, false, used as int) == i);
                }
                return chars_to_string(&buf);
            }
            used = used + w;
        }
        buf.push(c);
        i = i + 1;
        proof {
            assert(buf@ =~= s@.take(i as int));
        }
    }
    proof {
        assert(s@.take(n as int) =~= s@);
    }
    chars_to_string(&buf)
}

/// A run of `n` spaces.
pub open spec fn spec_spaces(n: int) -> Seq<char> {
    Seq::new(n as nat, |i: int| ' ')
}

fn spaces(n: usize) -> (r: Vec<char>)
    ensures
        r@ == spec_spaces(n as int),
{
    let mut r: Vec<char> = Vec::new();
    let mut i: usize = 0;
    while i < n
        invariant
            i <= n,
            r@.len() == i,
            forall|j: int| 0 <= j < i ==> r@[j] == ' ',
        decreases n - i,
    {
        r.push(' ');
        i = i + 1;
    }
    proof {
        assert(r@ =~= spec_spaces(n as int));
    }
    r
}

/// What `adjust` returns: the truncation of a too-wide string, otherwise the
/// string padded with spaces to `len` columns. Left alignment pads on the
/// right, right alignment on the left, and centering splits the padding with
/// the odd leftover space on the right.
pub open spec fn spec_adjust(s: Seq<char>, len: int, align: ConfigColumnAlign) -> Seq<char> {
    let w = str_width_of(s) as int;
    if len < w {
        spec_truncate(s, len)
    } else {
        match align {
            ConfigColumnAlign::Left => s + spec_spaces(len - w),
            ConfigColumnAlign::Right => spec_spaces(len - w) + s,
            ConfigColumnAlign::Center => spec_spaces((len - w) / 2) + s + spec_spaces(
                len - w - (len - w) / 2,
            ),
        }
    }
}

/// Fit `x` into a cell of `len` display columns: truncate when too wide,
/// otherwise pad per the alignment.
pub fn adjust(x: &str, len: usize, align: &ConfigColumnAlign) -> (r: String)
    ensures
        r@ == spec_adjust(x@, len as int, *align),
{
    let w = str_width(x);
    if len < w {
        truncate(x, len)
    } else {
        let space = len - w;
        match align {
            ConfigColumnAlign::Left => {
                let mut v = str_to_chars(x);
                let mut pad = spaces(space);
                v.append(&mut pad);
                chars_to_string(&v)
            },
            ConfigColumnAlign::Right => {
                let mut v = spaces(space);
                let mut body = str_to_chars(x);
                v.append(&mut body);
                chars_to_string(&v)
            },
            ConfigColumnAlign::Center => {
                let left = space / 2;
                let right = space - left;
                let mut v = spaces(left);
                let mut body = str_to_chars(x);
                let mut pad = spaces(right);
                v.append(&mut body);
                v.append(&mut pad);
                chars_to_string(&v)
            },
        }
    }
}

} // verus!
