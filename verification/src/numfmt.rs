//! Numeric formatting helpers: decimal rendering, elapsed time, security
//! identifiers, byte counts and endianness swapping.
use vstd::prelude::*;
use crate::text::{chars_to_string, str_to_chars};

verus! {

/// The digit character for a value in `0..=9`.
pub open spec fn spec_digit_char(d: int) -> char {
    (48 + d) as char
}

/// The decimal rendering of a non-negative integer, without padding.
pub open spec fn spec_dec(n: int) -> Seq<char>
    decreases n,
{
    if n < 10 {
        seq![spec_digit_char(n)]
    } else {
        spec_dec(n / 10) + seq![spec_digit_char(n % 10)]
    }
}

/// The decimal rendering padded with `'0'` to at least two digits.
pub open spec fn spec_two_digits(n: int) -> Seq<char> {
    if n < 10 {
        seq!['0'] + spec_dec(n)
    } else {
        spec_dec(n)
    }
}

/// Append the decimal rendering of `n` to `out`.
fn push_dec(n: u128, out: &mut Vec<char>)
    ensures
        final(out)@ == old(out)@ + spec_dec(n as int),
    decreases n,
{
    if n < 10 {
        out.push(((48 + n) as u8) as char);
        proof {
            assert(out@ =~= old(out)@ + spec_dec(n as int));
        }
    } else {
        push_dec(n / 10, out);
        out.push(((48 + (n % 10)) as u8) as char);
        proof {
            assert(out@ =~= old(out)@ + spec_dec(n as int));
        }
    }
}

/// Append the two-digit zero-padded rendering of `n` to `out`.
fn push_two_digits(n: u64, out: &mut Vec<char>)
    ensures
        final(out)@ == old(out)@ + spec_two_digits(n as int),
{
    if n < 10 {
        out.push('0');
    }
    push_dec(n as u128, out);
    proof {
        assert(out@ =~= old(out)@ + spec_two_digits(n as int));
    }
}

/// `num / den` rounded to the nearest integer, ties to even.
pub open spec fn spec_round_div(num: int, den: int) -> int {
    let q = num / den;
    let r = num % den;
    if 2 * r > den {
        q + 1
    } else if 2 * r < den {
        q
    } else if q % 2 == 1 {
        q + 1
    } else {
        q
    }
}

/// What `parse_time` returns for a duration of `x` whole seconds: years to
/// one decimal when at least a year, days to one decimal when at least a
/// day, and zero-padded `HH:MM:SS` otherwise. The decimal is the true
/// ratio rounded to the nearest tenth, ties to even.
pub open spec fn spec_parse_time(x: int) -> Seq<char> {
    if x >= 31536000 {
        let tenths = spec_round_div(10 * x, 31536000);
        spec_dec(tenths / 10) + seq!['.'] + spec_dec(tenths % 10) + "years"@
    } else if x >= 86400 {
        let tenths = spec_round_div(10 * x, 86400);
        spec_dec(tenths / 10) + seq!['.'] + spec_dec(tenths % 10) + "days"@
    } else {
        spec_two_digits(x / 3600) + seq![':'] + spec_two_digits((x / 60) % 60) + seq![':']
            + spec_two_digits(x % 60)
    }
}

/// Tenths of the ratio `num10 / den`, rounded to nearest with ties to
/// even, in executable form.
fn round_div_u128(num: u128, den: u128) -> (r: u128)
    requires
        0 < den < 0x100000000,
        num < 0xffffffffffffffffffffffffffffffffu128,
    ensures
        r == spec_round_div(num as int, den as int),
{
    let q = num / den;
    let rem = num % den;
    proof {
        vstd::arithmetic::div_mod::lemma_div_basics_5(num as int, den as int);
    }
    let double = 2 * rem;
    if double > den {
        q + 1
    } else if double < den {
        q
    } else if q % 2 == 1 {
        q + 1
    } else {
        q
    }
}

/// Render a duration of `x` whole seconds the way the process table shows
/// elapsed time.
pub fn parse_time(x: u64) -> (r: String)
    ensures
        r@ == spec_parse_time(x as int),
{
    let mut out: Vec<char> = Vec::new();
    if x >= 31536000 {
        let tenths = round_div_u128(10 * (x as u128), 31536000);
        push_dec(tenths / 10, &mut out);
        out.push('.');
        push_dec(tenths % 10, &mut out);
        let mut suffix = str_to_chars("years");
        out.append(&mut suffix);
        proof {
            assert(out@ =~= spec_parse_time(x as int));
        }
    } else if x >= 86400 {
        let tenths = round_div_u128(10 * (x as u128), 86400);
        push_dec(tenths / 10, &mut out);
        out.push('.');
        push_dec(tenths % 10, &mut out);
        let mut suffix = str_to_chars("days");
        out.append(&mut suffix);
        proof {
            assert(out@ =~= spec_parse_time(x as int));
        }
    } else {
        push_two_digits(x / 3600, &mut out);
        out.push(':');
        push_two_digits((x / 60) % 60, &mut out);
        out.push(':');
        push_two_digits(x % 60, &mut out);
        proof {
            assert(out@ =~= spec_parse_time(x as int));
        }
    }
    chars_to_string(&out)
}

/// The tail of a rendered security identifier from position `i` on: one
/// `-`-prefixed decimal sub-authority per element.
pub open spec fn spec_sid_tail(sid: Seq<u64>, i: int) -> Seq<char>
    decreases sid.len() - i,
{
    if i < 0 || i >= sid.len() {
        Seq::empty()
    } else {
        seq!['-'] + spec_dec(sid[i] as int) + spec_sid_tail(sid, i + 1)
    }
}

/// What `format_sid` returns: `S-` and the first three sub-authorities,
/// then either every further one, or, abbreviated, an ellipsis and the
/// last one alone.
pub open spec fn spec_format_sid(sid: Seq<u64>, abbr: bool) -> Seq<char> {
    let head = "S-"@ + spec_dec(sid[0] as int) + seq!['-'] + spec_dec(sid[1] as int) + seq!['-']
        + spec_dec(sid[2] as int);
    if sid.len() > 3 {
        if abbr {
            head + "-...-"@ + spec_dec(sid.last() as int)
        } else {
            head + spec_sid_tail(sid, 3)
        }
    } else {
        head
    }
}

/// Render a security identifier, abbreviating the middle sub-authorities
/// when asked to.
pub fn format_sid(sid: &[u64], abbr: bool) -> (r: String)
    requires
        sid@.len() >= 3,
    ensures
        r@ == spec_format_sid(sid@, abbr),
{
    let n = sid.len();
    let mut out = str_to_chars("S-");
    push_dec(sid[0] as u128, &mut out);
    out.push('-');
    push_dec(sid[1] as u128, &mut out);
    out.push('-');
    push_dec(sid[2] as u128, &mut out);
    let ghost head = "S-"@ + spec_dec(sid@[0] as int) + seq!['-'] + spec_dec(sid@[1] as int)
        + seq!['-'] + spec_dec(sid@[2] as int);
    proof {
        assert(out@ =~= head);
    }
    if n > 3 {
        if abbr {
            let mut mid = str_to_chars("-...-");
            out.append(&mut mid);
            push_dec(sid[n - 1] as u128, &mut out);
            proof {
                assert(out@ =~= spec_format_sid(sid@, abbr));
            }
        } else {
            let mut i: usize = 3;
            while i < n
                invariant
                    3 <= i <= n,
                    n == sid@.len(),
                    out@ + spec_sid_tail(sid@, i as int) == head + spec_sid_tail(sid@, 3),
                decreases n - i,
            {
                out.push('-');
                push_dec(sid[i] as u128, &mut out);
                i = i + 1;
                proof {
                    assert(out@ + spec_sid_tail(sid@, i as int) =~= head + spec_sid_tail(sid@, 3));
                }
            }
            proof {
                assert(out@ =~= out@ + spec_sid_tail(sid@, n as int));
                assert(out@ =~= spec_format_sid(sid@, abbr));
            }
        }
    }
    chars_to_string(&out)
}

/// Swap the byte order of a 32-bit value. Each ensures clause states where
/// one byte of the input reappears.
pub fn change_endian(val: u32) -> (r: u32)
    ensures
        r & 0xff == (val >> 24) & 0xff,
        (r >> 8) & 0xff == (val >> 16) & 0xff,
        (r >> 16) & 0xff == (val >> 8) & 0xff,
        (r >> 24) & 0xff == val & 0xff,
{
    let ret = (val >> 24 & 0x000000ff) | (val >> 8 & 0x0000ff00) | (val << 8 & 0x00ff0000) | (val
        << 24 & 0xff000000);
    proof {
        assert({
            let r = (val >> 24 & 0x000000ff) | (val >> 8 & 0x0000ff00) | (val << 8 & 0x00ff0000)
                | (val << 24 & 0xff000000);
            &&& r & 0xff == (val >> 24) & 0xff
            &&& (r >> 8) & 0xff == (val >> 16) & 0xff
            &&& (r >> 16) & 0xff == (val >> 8) & 0xff
            &&& (r >> 24) & 0xff == val & 0xff
        }) by (bit_vector);
    }
    ret
}

/// What the byte-count formatter of the `byte_unit` crate renders for a
/// byte count: the scaled value to three decimals and the binary unit, as
/// `AdjustedByte`'s display writes it.
pub uninterp spec fn binary_unit_text(x: u64) -> Seq<char>;

/// Relies on `byte_unit::Byte::from_u64` and
/// `byte_unit::Byte::get_appropriate_unit` with the binary unit type,
/// rendered through `AdjustedByte`'s `Display` at a precision of three:
/// the text depends on the byte count alone.
#[verifier::external_body]
fn bytify_raw(x: u64) -> (r: String)
    ensures
        r@ == binary_unit_text(x),
{
    let byte = byte_unit::Byte::from_u64(x);
    let adjusted = byte.get_appropriate_unit(byte_unit::UnitType::Binary);
    format!("{:.3}", adjusted)
}

/// The compact form of a rendered byte count: spaces and the characters
/// `B` and `i` of the unit are stripped.
pub open spec fn spec_strip_unit(s: Seq<char>) -> Seq<char> {
    s.filter(|c: char| c != ' ' && c != 'B' && c != 'i')
}

/// Render a byte count as a human-scaled binary-unit string in compact
/// form.
pub fn bytify(x: u64) -> (r: String)
    ensures
        r@ == spec_strip_unit(binary_unit_text(x)),
{
    let raw = bytify_raw(x);
    let chars = str_to_chars(raw.as_str());
    let n = chars.len();
    let mut out: Vec<char> = Vec::new();
    proof {
        reveal(Seq::filter);
        assert(chars@.take(0).len() == 0);
    }
    let mut i: usize = 0;
    while i < n
        invariant
            n == chars@.len(),
            i <= n,
            out@ == spec_strip_unit(chars@.take(i as int)),
        decreases n - i,
    {
        let c = chars[i];
        if !(c == ' ' || c == 'B' || c == 'i') {
            out.push(c);
        }
        i = i + 1;
        proof {
            reveal(Seq::filter);
            let pre = chars@.take(i - 1);
            let cur = chars@.take(i as int);
            assert(cur.drop_last() =~= pre);
            assert(cur.last() == chars@[i - 1]);
            assert(spec_strip_unit(cur) == if c != ' ' && c != 'B' && c != 'i' {
                spec_strip_unit(pre).push(c)
            } else {
                spec_strip_unit(pre)
            });
        }
    }
    proof {
        assert(chars@.take(n as int) =~= chars@);
    }
    chars_to_string(&out)
}

} // verus!
