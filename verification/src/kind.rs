//! Column-kind name resolution: free text to a known column kind, by exact
//! case-insensitive match first and substring match second.
use vstd::prelude::*;
use crate::text::{ascii_lower, seq_contains, chars_contain, chars_eq, lower_chars, str_to_chars};

verus! {

/// The column kinds this core knows by name.
#[derive(Copy, Clone, Debug, PartialEq, Eq, Structural)]
pub enum ConfigColumnKind {
    Command,
    Cpu,
    Memory,
    Pid,
    User,
}

/// The display name of a column kind.
pub open spec fn spec_kind_name(k: ConfigColumnKind) -> Seq<char> {
    match k {
        ConfigColumnKind::Command => "command"@,
        ConfigColumnKind::Cpu => "cpu"@,
        ConfigColumnKind::Memory => "mem"@,
        ConfigColumnKind::Pid => "pid"@,
        ConfigColumnKind::User => "user"@,
    }
}

/// The known kinds, in the order the resolver scans them.
pub open spec fn spec_kind_list() -> Seq<ConfigColumnKind> {
    seq![
        ConfigColumnKind::Command,
        ConfigColumnKind::Cpu,
        ConfigColumnKind::Memory,
        ConfigColumnKind::Pid,
        ConfigColumnKind::User,
    ]
}

/// The first kind of `list` whose folded display name equals `pat`.
pub open spec fn spec_first_exact(list: Seq<ConfigColumnKind>, pat: Seq<char>) -> Option<
    ConfigColumnKind,
>
    decreases list.len(),
{
    if list.len() == 0 {
        Option::None
    } else if ascii_lower(spec_kind_name(list[0])) == pat {
        Option::Some(list[0])
    } else {
        spec_first_exact(list.drop_first(), pat)
    }
}

/// The first kind of `list` whose folded display name holds `pat` as a
/// substring.
pub open spec fn spec_first_substring(list: Seq<ConfigColumnKind>, pat: Seq<char>) -> Option<
    ConfigColumnKind,
>
    decreases list.len(),
{
    if list.len() == 0 {
        Option::None
    } else if seq_contains(ascii_lower(spec_kind_name(list[0])), pat) {
        Option::Some(list[0])
    } else {
        spec_first_substring(list.drop_first(), pat)
    }
}

/// What `find_column_kind` returns: the first exact case-insensitive match
/// of the display names, then the first substring match, then nothing.
pub open spec fn spec_find_column_kind(pat: Seq<char>) -> Option<ConfigColumnKind> {
    let p = ascii_lower(pat);
    match spec_first_exact(spec_kind_list(), p) {
        Option::Some(k) => Option::Some(k),
        Option::None => spec_first_substring(spec_kind_list(), p),
    }
}

/// The display name of a column kind, executable form.
pub fn kind_name(k: &ConfigColumnKind) -> (r: &'static str)
    ensures
        r@ == spec_kind_name(*k),
{
    match k {
        ConfigColumnKind::Command => "command",
        ConfigColumnKind::Cpu => "cpu",
        ConfigColumnKind::Memory => "mem",
        ConfigColumnKind::Pid => "pid",
        ConfigColumnKind::User => "user",
    }
}

/// Resolve free text to a column kind: a case-insensitive exact match
/// against every display name is tried before any substring match; text
/// that matches nothing resolves to `None`, which the caller reports and
/// survives.
pub fn find_column_kind(pat: &str) -> (r: Option<ConfigColumnKind>)
    ensures
        r == spec_find_column_kind(pat@),
{
    let pc = str_to_chars(pat);
    let p = lower_chars(&pc);
    let kinds = vec![
        ConfigColumnKind::Command,
        ConfigColumnKind::Cpu,
        ConfigColumnKind::Memory,
        ConfigColumnKind::Pid,
        ConfigColumnKind::User,
    ];
    proof {
        assert(kinds@ =~= spec_kind_list());
        assert(spec_kind_list().skip(0) =~= spec_kind_list());
    }
    let n = kinds.len();
    let mut i: usize = 0;
    while i < n
        invariant
            n == kinds@.len(),
            kinds@ == spec_kind_list(),
            i <= n,
            p@ == ascii_lower(pat@),
            spec_first_exact(spec_kind_list().skip(i as int), p@) == spec_first_exact(
                spec_kind_list(),
                p@,
            ),
        decreases n - i,
    {
        let name = kind_name(&kinds[i]);
        let nf = lower_chars(&str_to_chars(name));
        proof {
            assert(spec_kind_list().skip(i as int)[0] == spec_kind_list()[i as int]);
        }
        if chars_eq(&nf, &p) {
            return Some(kinds[i]);
        }
        proof {
            assert(spec_kind_list().skip(i as int).drop_first() =~= spec_kind_list().skip(
                i + 1,
            ));
        }
        i = i + 1;
    }
    proof {
        assert(spec_first_exact(spec_kind_list().skip(n as int), p@) is None);
        assert(spec_kind_list().skip(0) =~= spec_kind_list());
    }
    let mut i: usize = 0;
    while i < n
        invariant
            n == kinds@.len(),
            kinds@ == spec_kind_list(),
            i <= n,
            p@ == ascii_lower(pat@),
            spec_first_exact(spec_kind_list(), p@) is None,
            spec_first_substring(spec_kind_list().skip(i as int), p@) == spec_first_substring(
                spec_kind_list(),
                p@,
            ),
        decreases n - i,
    {
        let name = kind_name(&kinds[i]);
        let nf = lower_chars(&str_to_chars(name));
        proof {
            assert(spec_kind_list().skip(i as int)[0] == spec_kind_list()[i as int]);
        }
        if chars_contain(&nf, &p) {
            return Some(kinds[i]);
        }
        proof {
            assert(spec_kind_list().skip(i as int).drop_first() =~= spec_kind_list().skip(
                i + 1,
            ));
        }
        i = i + 1;
    }
    proof {
        assert(spec_first_substring(spec_kind_list().skip(n as int), p@) is None);
    }
    None
}

} // verus!
