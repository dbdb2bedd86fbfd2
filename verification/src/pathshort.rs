//! Command-path abbreviation: an ordered pipeline of pure string
//! transforms that shortens package-store paths and home-directory
//! prefixes in a command line.
use vstd::prelude::*;
use crate::text::{chars_start_with, copy_range, match_at, str_to_chars, chars_to_string, chars_eq};

verus! {

/// The fixed package-store root that the shortening recognises.
pub open spec fn spec_store_root() -> Seq<char> {
    "/nix/store/"@
}

/// The path segment that separates a package prefix from its command.
pub open spec fn spec_bin_sep() -> Seq<char> {
    "/bin/"@
}

/// `s` with every trailing `'/'` removed.
pub open spec fn rtrim_slash(s: Seq<char>) -> Seq<char>
    decreases s.len(),
{
    if s.len() > 0 && s[s.len() - 1] == '/' {
        rtrim_slash(s.drop_last())
    } else {
        s
    }
}

/// The position just after the last `'/'` in `s`, or `0` when `s` holds
/// none.
pub open spec fn after_last_slash(s: Seq<char>) -> int
    decreases s.len(),
{
    if s.len() == 0 {
        0
    } else if s[s.len() - 1] == '/' {
        s.len() as int
    } else {
        after_last_slash(s.drop_last())
    }
}

/// The start of the last occurrence of `pat` in `s`, or `-1` when `s`
/// holds none.
pub open spec fn spec_last_match(s: Seq<char>, pat: Seq<char>) -> int
    decreases s.len(),
{
    if pat.len() == 0 || pat.len() > s.len() {
        -1
    } else if match_at(s, pat, s.len() - pat.len()) {
        s.len() - pat.len()
    } else {
        spec_last_match(s.drop_last(), pat)
    }
}

/// Whitespace as the token splitting understands it.
pub open spec fn is_space(c: char) -> bool {
    c == ' ' || c == '\t' || c == '\n' || c == '\r' || c == '\u{b}' || c == '\u{c}'
}

/// The end of the run of whitespace that starts at `i`.
pub open spec fn skip_spaces(s: Seq<char>, i: int) -> int
    decreases s.len() - i,
{
    if i < 0 || i >= s.len() {
        s.len() as int
    } else if is_space(s[i]) {
        skip_spaces(s, i + 1)
    } else {
        i
    }
}

/// The end of the run of non-whitespace that starts at `i`.
pub open spec fn token_end(s: Seq<char>, i: int) -> int
    decreases s.len() - i,
{
    if i < 0 || i >= s.len() {
        s.len() as int
    } else if is_space(s[i]) {
        i
    } else {
        token_end(s, i + 1)
    }
}

/// The first whitespace-delimited token of `s`; `s` itself when `s` is
/// empty or all whitespace.
pub open spec fn spec_first_token(s: Seq<char>) -> Seq<char> {
    let a = skip_spaces(s, 0);
    if a >= s.len() {
        s
    } else {
        s.subrange(a, token_end(s, a))
    }
}

/// Store-path shortening. A text whose leading path matches the store root
/// and that holds at least two further path components is rendered as the
/// store root, an ellipsis and the final component; any other text passes
/// through unchanged. The final component additionally has its last
/// hyphen-split and `/bin/`-split applied, each keeping the leading part
/// joined with the first whitespace-delimited token of the trailing part,
/// before the component test falls back to the ellipsis rendering.
pub open spec fn spec_nix_shorten(s: Seq<char>) -> Seq<char> {
    let root = spec_store_root();
    if s.len() < root.len() || s.take(root.len() as int) != root {
        s
    } else {
        let rest = s.skip(root.len() as int);
        let t = rtrim_slash(rest);
        let a = after_last_slash(t);
        if t.len() == 0 || !(exists|j: int| 0 <= j < a && t[j] != '/') {
            s
        } else {
            let filename = t.skip(a);
            let h = spec_last_match(filename, seq!['-']);
            let inner = if h >= 0 {
                filename.take(h) + spec_first_token(filename.skip(h + 1))
            } else {
                filename
            };
            let b = spec_last_match(inner, spec_bin_sep());
            if b >= 0 {
                inner.take(b) + spec_first_token(inner.skip(b + spec_bin_sep().len()))
            } else {
                root + "..."@ + filename
            }
        }
    }
}

/// Home-directory shortening: a text that starts with the given home
/// directory, at a path-component boundary, has that prefix replaced by
/// `~/`; any other text passes through unchanged.
pub open spec fn spec_home_shorten(s: Seq<char>, home: Option<Seq<char>>) -> Seq<char> {
    match home {
        Option::None => s,
        Option::Some(h) => {
            if h.len() == 0 {
                s
            } else if s == h {
                "~/"@
            } else if h.len() < s.len() && s.take(h.len() as int) == h && (h[h.len() - 1] == '/'
                || s[h.len() as int] == '/') {
                let rest = s.skip(h.len() as int);
                let tail = if rest.len() > 0 && rest[0] == '/' {
                    rest.skip(1)
                } else {
                    rest
                };
                "~/"@ + tail
            } else {
                s
            }
        },
    }
}

/// The sequences held by an optional string.
pub open spec fn opt_str_view(o: &Option<String>) -> Option<Seq<char>> {
    match o {
        Option::Some(h) => Option::Some(h@),
        Option::None => Option::None,
    }
}

/// What `format_command` returns: the text unchanged, or, when
/// abbreviation was requested, the store-path shortening followed by the
/// home-directory shortening.
pub open spec fn spec_format_command(s: Seq<char>, abbr: bool, home: Option<Seq<char>>) -> Seq<
    char,
> {
    if abbr {
        spec_home_shorten(spec_nix_shorten(s), home)
    } else {
        s
    }
}

/// How many characters of `v` remain once trailing `'/'` are removed.
fn rtrim_end(v: &Vec<char>) -> (k: usize)
    ensures
        k <= v@.len(),
        v@.take(k as int) == rtrim_slash(v@),
{
    let mut k = v.len();
    proof {
        assert(v@.take(k as int) =~= v@);
    }
    loop
        invariant
            k <= v@.len(),
            rtrim_slash(v@.take(k as int)) == rtrim_slash(v@),
        decreases k,
    {
        if k == 0 {
            proof {
                assert(v@.take(0) =~= Seq::<char>::empty());
            }
            return 0;
        }
        if v[k - 1] != '/' {
            return k;
        }
        k = k - 1;
        proof {
            assert(v@.take(k + 1).drop_last() =~= v@.take(k as int));
        }
    }
}

/// The position just after the last `'/'` in `v`.
fn find_after_last_slash(v: &Vec<char>) -> (a: usize)
    ensures
        a <= v@.len(),
        a == after_last_slash(v@),
{
    let mut k = v.len();
    proof {
        assert(v@.take(k as int) =~= v@);
    }
    loop
        invariant
            k <= v@.len(),
            after_last_slash(v@.take(k as int)) == after_last_slash(v@),
        decreases k,
    {
        if k == 0 {
            proof {
                assert(v@.take(0) =~= Seq::<char>::empty());
            }
            return 0;
        }
        if v[k - 1] == '/' {
            proof {
                assert(after_last_slash(v@.take(k as int)) == k);
            }
            return k;
        }
        k = k - 1;
        proof {
            assert(v@.take(k + 1).drop_last() =~= v@.take(k as int));
        }
    }
}

/// The start of the last occurrence of `pat` in `s`.
fn last_match(s: &Vec<char>, pat: &Vec<char>) -> (r: Option<usize>)
    requires
        pat@.len() > 0,
    ensures
        match r {
            Option::Some(i) => spec_last_match(s@, pat@) == i && i + pat@.len() <= s@.len(),
            Option::None => spec_last_match(s@, pat@) == -1,
        },
{
    if pat.len() > s.len() {
        return None;
    }
    let plen = pat.len();
    let mut i = s.len() - plen;
    proof {
        assert(s@.take(i + plen) =~= s@);
    }
    loop
        invariant
            0 < plen,
            plen == pat@.len() <= s@.len(),
            i + plen <= s@.len(),
            spec_last_match(s@.take(i + plen), pat@) == spec_last_match(s@, pat@),
        decreases i,
    {
        let ghost t = s@.take(i + plen);
        proof {
            assert(t.len() == i + plen);
            assert(t.subrange(i as int, i + plen) =~= s@.subrange(i as int, i + plen));
        }
        if crate::text::match_here(s, pat, i) {
            proof {
                assert(match_at(t, pat@, t.len() - pat@.len()));
                assert(spec_last_match(t, pat@) == i);
            }
            return Some(i);
        }
        if i == 0 {
            proof {
                assert(!match_at(t, pat@, t.len() - pat@.len()));
                assert(spec_last_match(t, pat@) == spec_last_match(t.drop_last(), pat@));
                assert(t.drop_last().len() < plen);
            }
            return None;
        }
        i = i - 1;
        proof {
            assert(!match_at(t, pat@, t.len() - pat@.len()));
            assert(spec_last_match(t, pat@) == spec_last_match(t.drop_last(), pat@));
            assert(t.drop_last() =~= s@.take(i + plen));
        }
    }
}

/// The first whitespace-delimited token of `v`, or `v` itself when it has
/// none.
fn first_token(v: &Vec<char>) -> (r: Vec<char>)
    ensures
        r@ == spec_first_token(v@),
{
    let n = v.len();
    let mut a: usize = 0;
    loop
        invariant
            a <= n,
            n == v@.len(),
            skip_spaces(v@, a as int) == skip_spaces(v@, 0),
        ensures
            a <= n,
            n == v@.len(),
            a == skip_spaces(v@, 0),
        decreases n - a,
    {
        if a == n {
            proof {
                assert(skip_spaces(v@, a as int) == n);
            }
            break;
        }
        let c = v[a];
        if !(c == ' ' || c == '\t' || c == '\n' || c == '\r' || c == '\u{b}' || c == '\u{c}') {
            proof {
                assert(!is_space(v@[a as int]));
                assert(skip_spaces(v@, a as int) == a);
            }
            break;
        }
        a = a + 1;
    }
    if a == n {
        proof {
            assert(v@.subrange(0, n as int) =~= v@);
        }
        return copy_range(v, 0, n);
    }
    let mut b: usize = a;
    loop
        invariant
            a <= b <= n,
            n == v@.len(),
            token_end(v@, b as int) == token_end(v@, a as int),
        ensures
            a <= b <= n,
            b == token_end(v@, a as int),
        decreases n - b,
    {
        if b == n {
            proof {
                assert(token_end(v@, b as int) == n);
            }
            break;
        }
        let c = v[b];
        if c == ' ' || c == '\t' || c == '\n' || c == '\r' || c == '\u{b}' || c == '\u{c}' {
            proof {
                assert(is_space(v@[b as int]));
                assert(token_end(v@, b as int) == b);
            }
            break;
        }
        proof {
            assert(token_end(v@, b as int) == token_end(v@, b + 1));
        }
        b = b + 1;
    }
    copy_range(v, a, b)
}

/// Shorten a package-store path to the store root, an ellipsis and the
/// final path component, as `spec_nix_shorten` states; other texts pass
/// through unchanged.
pub fn truncate_nix_store_path(input: String) -> (r: String)
    ensures
        r@ == spec_nix_shorten(input@),
{
    let chars = str_to_chars(input.as_str());
    let root = str_to_chars("/nix/store/");
    if !chars_start_with(&chars, &root) {
        return input;
    }
    let rest = copy_range(&chars, root.len(), chars.len());
    proof {
        assert(rest@ =~= input@.skip(spec_store_root().len() as int));
    }
    let k = rtrim_end(&rest);
    let t = copy_range(&rest, 0, k);
    let a = find_after_last_slash(&t);
    let mut seen_component = false;
    let mut j: usize = 0;
    while j < a
        invariant
            a <= t@.len(),
            j <= a,
            seen_component == exists|q: int| 0 <= q < j && t@[q] != '/',
        decreases a - j,
    {
        if t[j] != '/' {
            seen_component = true;
        }
        j = j + 1;
    }
    if t.len() == 0 || !seen_component {
        return input;
    }
    let filename = copy_range(&t, a, t.len());
    let hyphen = vec!['-'];
    proof {
        assert(hyphen@ =~= seq!['-']);
    }
    let flen = filename.len();
    let inner: Vec<char> = match last_match(&filename, &hyphen) {
        Some(h) => {
            let mut before = copy_range(&filename, 0, h);
            let after = copy_range(&filename, h + 1, flen);
            let mut tok = first_token(&after);
            proof {
                assert(after@ =~= filename@.skip(h + 1));
                assert(before@ =~= filename@.take(h as int));
            }
            before.append(&mut tok);
            before
        },
        None => copy_range(&filename, 0, flen),
    };
    proof {
        assert(filename@.subrange(0, filename@.len() as int) =~= filename@);
    }
    let bin = str_to_chars("/bin/");
    proof {
        reveal_strlit("/bin/");
    }
    let ilen = inner.len();
    match last_match(&inner, &bin) {
        Some(b) => {
            let mut out = copy_range(&inner, 0, b);
            let after = copy_range(&inner, b + bin.len(), ilen);
            let mut tok = first_token(&after);
            proof {
                assert(after@ =~= inner@.skip(b + spec_bin_sep().len()));
                assert(out@ =~= inner@.take(b as int));
            }
            out.append(&mut tok);
            chars_to_string(&out)
        },
        None => {
            let mut out = str_to_chars("/nix/store/...");
            let mut tail = copy_range(&filename, 0, flen);
            out.append(&mut tail);
            proof {
                assert(out@ =~= spec_store_root() + "..."@ + filename@) by {
                    reveal_strlit("/nix/store/...");
                    reveal_strlit("/nix/store/");
                    reveal_strlit("...");
                }
            }
            chars_to_string(&out)
        },
    }
}

/// Replace a leading home-directory path by `~/`, as `spec_home_shorten`
/// states; other texts pass through unchanged.
pub fn truncate_home_path(input: String, home: &Option<String>) -> (r: String)
    ensures
        r@ == spec_home_shorten(input@, opt_str_view(home)),
{
    match home {
        None => input,
        Some(h) => {
            let hc = str_to_chars(h.as_str());
            if hc.len() == 0 {
                return input;
            }
            let ic = str_to_chars(input.as_str());
            if chars_eq(&ic, &hc) {
                let tilde = str_to_chars("~/");
                return chars_to_string(&tilde);
            }
            if hc.len() < ic.len() && chars_start_with(&ic, &hc) && (hc[hc.len() - 1] == '/'
                || ic[hc.len()] == '/') {
                let rest = copy_range(&ic, hc.len(), ic.len());
                proof {
                    assert(rest@ =~= input@.skip(h@.len() as int));
                }
                let start: usize = if rest.len() > 0 && rest[0] == '/' {
                    1
                } else {
                    0
                };
                let tail = copy_range(&rest, start, rest.len());
                proof {
                    if start == 1 {
                        assert(tail@ =~= rest@.skip(1));
                    } else {
                        assert(tail@ =~= rest@);
                    }
                }
                let mut out = str_to_chars("~/");
                let mut t = tail;
                out.append(&mut t);
                chars_to_string(&out)
            } else {
                input
            }
        },
    }
}

/// The whole abbreviation pipeline: store-path shortening, then
/// home-directory shortening.
pub fn truncate_command_path(input: String, home: &Option<String>) -> (r: String)
    ensures
        r@ == spec_home_shorten(spec_nix_shorten(input@), opt_str_view(home)),
{
    let ret = truncate_nix_store_path(input);
    truncate_home_path(ret, home)
}

/// Abbreviate a command line when asked to; return it unchanged otherwise.
pub fn format_command(cmd: String, abbr: bool, home: &Option<String>) -> (r: String)
    ensures
        r@ == spec_format_command(cmd@, abbr, opt_str_view(home)),
{
    if abbr {
        truncate_command_path(cmd, home)
    } else {
        cmd
    }
}

} // verus!
