//! The keyword search engine: multi-keyword boolean queries over a set of
//! columns, with case-sensitivity negotiation, and keyword
//! classification.
use vstd::prelude::*;
use crate::column::{Column, spec_column_find_partial, spec_column_find_exact};
use crate::config::{ConfigSearchCase, ConfigSearchLogic};
use crate::text::{ascii_lower, chars_eq, lower_chars, str_to_chars};

verus! {

/// What a keyword is: text that parses as a 64-bit signed integer is
/// numeric, everything else is not.
#[derive(Copy, Clone, Debug, PartialEq, Eq, Structural)]
pub enum KeywordClass {
    Numeric,
    NonNumeric,
}

/// Whether a keyword is matched with case folding under the given case
/// mode: always under `Insensitive`, never under `Sensitive`, and under
/// `Smart` exactly when the keyword has no uppercase ASCII letter.
pub open spec fn spec_fold_keyword(kw: Seq<char>, case: ConfigSearchCase) -> bool {
    match case {
        ConfigSearchCase::Smart => kw == ascii_lower(kw),
        ConfigSearchCase::Insensitive => true,
        ConfigSearchCase::Sensitive => false,
    }
}

/// Some column of the set matches the keyword as a substring of its raw
/// value for `pid`.
pub open spec fn spec_hit_partial<C: Column>(
    columns: Seq<C>,
    pid: i32,
    kw: Seq<char>,
    case: ConfigSearchCase,
) -> bool {
    exists|j: int|
        0 <= j < columns.len() && spec_column_find_partial(
            #[trigger] columns[j].raw_view(),
            pid,
            kw,
            spec_fold_keyword(kw, case),
        )
}

/// Some column of the set matches the keyword exactly as its raw value
/// for `pid`.
pub open spec fn spec_hit_exact<C: Column>(
    columns: Seq<C>,
    pid: i32,
    kw: Seq<char>,
    case: ConfigSearchCase,
) -> bool {
    exists|j: int|
        0 <= j < columns.len() && spec_column_find_exact(
            #[trigger] columns[j].raw_view(),
            pid,
            kw,
            spec_fold_keyword(kw, case),
        )
}

/// What the partial search returns: under `And` and `Nand`, every keyword
/// hits some column; under `Or` and `Nor`, some keyword does. No
/// combinator negates at this layer.
pub open spec fn spec_search_partial<C: Column>(
    columns: Seq<C>,
    pid: i32,
    kws: Seq<Seq<char>>,
    logic: ConfigSearchLogic,
    case: ConfigSearchCase,
) -> bool {
    match logic {
        ConfigSearchLogic::And | ConfigSearchLogic::Nand => forall|i: int|
            0 <= i < kws.len() ==> spec_hit_partial(columns, pid, #[trigger] kws[i], case),
        ConfigSearchLogic::Or | ConfigSearchLogic::Nor => exists|i: int|
            0 <= i < kws.len() && spec_hit_partial(columns, pid, #[trigger] kws[i], case),
    }
}

/// What the exact search returns, shaped as the partial one.
pub open spec fn spec_search_exact<C: Column>(
    columns: Seq<C>,
    pid: i32,
    kws: Seq<Seq<char>>,
    logic: ConfigSearchLogic,
    case: ConfigSearchCase,
) -> bool {
    match logic {
        ConfigSearchLogic::And | ConfigSearchLogic::Nand => forall|i: int|
            0 <= i < kws.len() ==> spec_hit_exact(columns, pid, #[trigger] kws[i], case),
        ConfigSearchLogic::Or | ConfigSearchLogic::Nor => exists|i: int|
            0 <= i < kws.len() && spec_hit_exact(columns, pid, #[trigger] kws[i], case),
    }
}

/// Whether this keyword is matched with folding, executable form.
fn fold_for(kw: &String, case: &ConfigSearchCase) -> (r: bool)
    ensures
        r == spec_fold_keyword(kw@, *case),
{
    match case {
        ConfigSearchCase::Smart => {
            let kc = str_to_chars(kw.as_str());
            let low = lower_chars(&kc);
            chars_eq(&kc, &low)
        },
        ConfigSearchCase::Insensitive => true,
        ConfigSearchCase::Sensitive => false,
    }
}

/// Match one process against every keyword by substring search across the
/// columns, folding the hits with the boolean combinator.
pub fn find_partial<C: Column>(
    columns: &Vec<C>,
    pid: i32,
    keyword: &Vec<String>,
    logic: &ConfigSearchLogic,
    case: &ConfigSearchCase,
) -> (r: bool)
    ensures
        r == spec_search_partial(columns@, pid, keyword.deep_view(), *logic, *case),
{
    let ghost kws = keyword.deep_view();
    let mut ret = match logic {
        ConfigSearchLogic::And => true,
        ConfigSearchLogic::Or => false,
        ConfigSearchLogic::Nand => true,
        ConfigSearchLogic::Nor => false,
    };
    let n = keyword.len();
    let mut i: usize = 0;
    while i < n
        invariant
            n == keyword@.len(),
            kws == keyword.deep_view(),
            kws.len() == n,
            i <= n,
            ret == (match *logic {
                ConfigSearchLogic::And | ConfigSearchLogic::Nand => forall|q: int|
                    0 <= q < i ==> spec_hit_partial(columns@, pid, #[trigger] kws[q], *case),
                ConfigSearchLogic::Or | ConfigSearchLogic::Nor => exists|q: int|
                    0 <= q < i && spec_hit_partial(columns@, pid, #[trigger] kws[q], *case),
            }),
        decreases n - i,
    {
        let w = &keyword[i];
        let fold = fold_for(w, case);
        let mut hit = false;
        let m = columns.len();
        let mut j: usize = 0;
        while j < m
            invariant
                m == columns@.len(),
                kws == keyword.deep_view(),
                i < kws.len() == keyword@.len(),
                w == &keyword@[i as int],
                fold == spec_fold_keyword(kws[i as int], *case),
                j <= m,
                hit == exists|q: int|
                    0 <= q < j && spec_column_find_partial(
                        #[trigger] columns@[q].raw_view(),
                        pid,
                        kws[i as int],
                        fold,
                    ),
            decreases m - j,
        {
            if !hit {
                if columns[j].find_partial(pid, w.as_str(), fold) {
                    hit = true;
                }
            }
            j = j + 1;
        }
        proof {
            assert(hit == spec_hit_partial(columns@, pid, kws[i as int], *case));
        }
        ret = match logic {
            ConfigSearchLogic::And => ret && hit,
            ConfigSearchLogic::Or => ret || hit,
            ConfigSearchLogic::Nand => ret && hit,
            ConfigSearchLogic::Nor => ret || hit,
        };
        i = i + 1;
    }
    ret
}

/// Match one process against every keyword by exact comparison across the
/// columns, folding the hits with the boolean combinator.
pub fn find_exact<C: Column>(
    columns: &Vec<C>,
    pid: i32,
    keyword: &Vec<String>,
    logic: &ConfigSearchLogic,
    case: &ConfigSearchCase,
) -> (r: bool)
    ensures
        r == spec_search_exact(columns@, pid, keyword.deep_view(), *logic, *case),
{
    let ghost kws = keyword.deep_view();
    let mut ret = match logic {
        ConfigSearchLogic::And => true,
        ConfigSearchLogic::Or => false,
        ConfigSearchLogic::Nand => true,
        ConfigSearchLogic::Nor => false,
    };
    let n = keyword.len();
    let mut i: usize = 0;
    while i < n
        invariant
            n == keyword@.len(),
            kws == keyword.deep_view(),
            kws.len() == n,
            i <= n,
            ret == (match *logic {
                ConfigSearchLogic::And | ConfigSearchLogic::Nand => forall|q: int|
                    0 <= q < i ==> spec_hit_exact(columns@, pid, #[trigger] kws[q], *case),
                ConfigSearchLogic::Or | ConfigSearchLogic::Nor => exists|q: int|
                    0 <= q < i && spec_hit_exact(columns@, pid, #[trigger] kws[q], *case),
            }),
        decreases n - i,
    {
        let w = &keyword[i];
        let fold = fold_for(w, case);
        let mut hit = false;
        let m = columns.len();
        let mut j: usize = 0;
        while j < m
            invariant
                m == columns@.len(),
                kws == keyword.deep_view(),
                i < kws.len() == keyword@.len(),
                w == &keyword@[i as int],
                fold == spec_fold_keyword(kws[i as int], *case),
                j <= m,
                hit == exists|q: int|
                    0 <= q < j && spec_column_find_exact(
                        #[trigger] columns@[q].raw_view(),
                        pid,
                        kws[i as int],
                        fold,
                    ),
            decreases m - j,
        {
            if !hit {
                if columns[j].find_exact(pid, w.as_str(), fold) {
                    hit = true;
                }
            }
            j = j + 1;
        }
        proof {
            assert(hit == spec_hit_exact(columns@, pid, kws[i as int], *case));
        }
        ret = match logic {
            ConfigSearchLogic::And => ret && hit,
            ConfigSearchLogic::Or => ret || hit,
            ConfigSearchLogic::Nand => ret && hit,
            ConfigSearchLogic::Nor => ret || hit,
        };
        i = i + 1;
    }
    ret
}

/// The value of a digit sequence read in base ten.
pub open spec fn spec_digits_val(s: Seq<char>) -> int
    decreases s.len(),
{
    if s.len() == 0 {
        0
    } else {
        spec_digits_val(s.drop_last()) * 10 + (s.last() as u32 - 48)
    }
}

/// Every character of `s` is an ASCII digit.
pub open spec fn spec_all_digits(s: Seq<char>) -> bool {
    forall|i: int| 0 <= i < s.len() ==> 48 <= (#[trigger] s[i]) as u32 <= 57
}

/// `s` parses as a 64-bit signed integer: an optional sign, at least one
/// digit, nothing else, and a value within the type's range.
pub open spec fn spec_is_i64(s: Seq<char>) -> bool {
    let digits = if s.len() > 0 && (s[0] == '+' || s[0] == '-') {
        s.drop_first()
    } else {
        s
    };
    let neg = s.len() > 0 && s[0] == '-';
    &&& digits.len() > 0
    &&& spec_all_digits(digits)
    &&& (if neg {
        spec_digits_val(digits) <= 0x8000000000000000
    } else {
        spec_digits_val(digits) < 0x8000000000000000
    })
}

/// Classify a search keyword: numeric iff it parses as a 64-bit signed
/// integer.
pub fn classify(keyword: &str) -> (r: KeywordClass)
    ensures
        r == KeywordClass::Numeric <==> spec_is_i64(keyword@),
{
    let chars = str_to_chars(keyword);
    let n = chars.len();
    let mut start: usize = 0;
    if n > 0 && (chars[0] == '+' || chars[0] == '-') {
        start = 1;
    }
    let neg = n > 0 && chars[0] == '-';
    if n == start {
        return KeywordClass::NonNumeric;
    }
    let ghost digits = chars@.skip(start as int);
    proof {
        if start == 0 {
            assert(digits =~= chars@);
        }
    }
    let mut acc: u128 = 0;
    let mut i = start;
    while i < n
        invariant
            start <= i <= n,
            n == chars@.len(),
            chars@ == keyword@,
            start <= 1,
            n > start,
            (start == 1) == (n > 0 && (chars@[0] == '+' || chars@[0] == '-')),
            digits == chars@.skip(start as int),
            digits.len() == n - start,
            spec_all_digits(chars@.subrange(start as int, i as int)),
            spec_digits_val(chars@.subrange(start as int, i as int)) >= 0,
            acc == (if spec_digits_val(chars@.subrange(start as int, i as int))
                < 0x10000000000000000 {
                spec_digits_val(chars@.subrange(start as int, i as int))
            } else {
                0x10000000000000000int
            }),
        decreases n - i,
    {
        let c = chars[i];
        let u = c as u32;
        if u < 48 || u > 57 {
            proof {
                assert(digits[i - start] == chars@[i as int]);
                assert(!spec_all_digits(digits));
                if start == 1 {
                    assert(digits =~= keyword@.drop_first());
                }
            }
            return KeywordClass::NonNumeric;
        }
        let d = (u - 48) as u128;
        let t = acc * 10 + (d as u128);
        let capped = if t > 0x10000000000000000 {
            0x10000000000000000u128
        } else {
            t
        };
        proof {
            let pre = chars@.subrange(start as int, i as int);
            let cur = chars@.subrange(start as int, i + 1);
            assert(cur.drop_last() =~= pre);
            assert(cur.last() == chars@[i as int]);
            assert(spec_digits_val(cur) == spec_digits_val(pre) * 10 + (c as u32 - 48));
            if spec_digits_val(pre) >= 0x10000000000000000 {
                assert(spec_digits_val(pre) * 10 + (c as u32 - 48) >= 0x10000000000000000)
                    by (nonlinear_arith)
                    requires
                        spec_digits_val(pre) >= 0x10000000000000000,
                        48 <= c as u32 <= 57,
                ;
            }
        }
        acc = capped;
        i = i + 1;
    }
    proof {
        assert(chars@.subrange(start as int, n as int) =~= digits);
    }
    let fits = if neg {
        acc <= 0x8000000000000000
    } else {
        acc < 0x8000000000000000
    };
    if fits {
        proof {
            if start == 1 {
                assert(digits =~= chars@.drop_first());
            }
        }
        KeywordClass::Numeric
    } else {
        proof {
            if start == 1 {
                assert(digits =~= chars@.drop_first());
            }
        }
        KeywordClass::NonNumeric
    }
}

} // verus!
