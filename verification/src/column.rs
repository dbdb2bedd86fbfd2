//! The column protocol and the command column: per-process formatted and
//! raw values, searched by substring or equality.
use vstd::prelude::*;
use std::collections::HashMap;
use crate::text::{
    ascii_lower,
    seq_contains,
    chars_contain,
    chars_eq,
    lower_chars,
    str_to_chars,
    chars_to_string,
};
use crate::width::{str_width, str_width_of};
use crate::pathshort::{format_command, spec_format_command, opt_str_view};
use crate::kind::ConfigColumnKind;

verus! {

broadcast use vstd::std_specs::hash::group_hash_axioms;

/// One process's data as the snapshot supplier hands it over: the argument
/// list (empty when none could be read), the raw command text where the
/// platform offers one, and the short process name as the last fallback.
pub struct ProcessSnapshot {
    pub pid: i32,
    pub args: Vec<String>,
    pub raw_command: Option<String>,
    pub short_name: String,
}

/// `s` folded when `fold` is set, unchanged otherwise.
pub open spec fn folded(s: Seq<char>, fold: bool) -> Seq<char> {
    if fold {
        ascii_lower(s)
    } else {
        s
    }
}

/// A column's partial search: the stored raw value of `pid` holds the
/// keyword as a substring, both sides case-folded when `fold` is set.
pub open spec fn spec_column_find_partial(
    m: Map<i32, Seq<char>>,
    pid: i32,
    kw: Seq<char>,
    fold: bool,
) -> bool {
    m.contains_key(pid) && seq_contains(folded(m[pid], fold), folded(kw, fold))
}

/// A column's exact search: the stored raw value of `pid` equals the
/// keyword, both sides case-folded when `fold` is set.
pub open spec fn spec_column_find_exact(
    m: Map<i32, Seq<char>>,
    pid: i32,
    kw: Seq<char>,
    fold: bool,
) -> bool {
    m.contains_key(pid) && folded(m[pid], fold) == folded(kw, fold)
}

/// How any column stores and searches per-process values: a raw value per
/// process identifier, searched by substring or equality.
pub trait Column {
    /// The raw values the column currently stores, keyed by process
    /// identifier.
    spec fn raw_view(&self) -> Map<i32, Seq<char>>;

    /// True iff the raw value for `pid` holds `keyword` as a substring,
    /// case-folding both sides when `fold` is set.
    fn find_partial(&self, pid: i32, keyword: &str, fold: bool) -> (r: bool)
        ensures
            r == spec_column_find_partial(self.raw_view(), pid, keyword@, fold),
    ;

    /// True iff the raw value for `pid` equals `keyword`, case-folding
    /// both sides when `fold` is set.
    fn find_exact(&self, pid: i32, keyword: &str, fold: bool) -> (r: bool)
        ensures
            r == spec_column_find_exact(self.raw_view(), pid, keyword@, fold),
    ;
}

/// The abstract state of the command column.
pub struct CommandState {
    pub header: Seq<char>,
    pub unit: Seq<char>,
    pub fmt: Map<i32, Seq<char>>,
    pub raw: Map<i32, Seq<char>>,
    pub width: usize,
    pub abbr_path: bool,
    pub home: Option<Seq<char>>,
}

impl CommandState {
    /// Well-formedness: formatted and raw values cover the same process
    /// identifiers, and the width bounds the display width of every
    /// stored formatted value.
    pub open spec fn wf(self) -> bool {
        &&& self.fmt.dom() == self.raw.dom()
        &&& forall|pid: i32|
            self.fmt.contains_key(pid) ==> str_width_of(#[trigger] self.fmt[pid]) <= self.width
    }
}

/// The arguments joined with single spaces.
pub open spec fn spec_join_args(args: Seq<Seq<char>>) -> Seq<char>
    decreases args.len(),
{
    if args.len() == 0 {
        Seq::empty()
    } else if args.len() == 1 {
        args[0]
    } else {
        spec_join_args(args.drop_last()) + seq![' '] + args.last()
    }
}

/// A newline or tab reads as a plain space; everything else is unchanged.
pub open spec fn clean_char(c: char) -> char {
    if c == '\n' || c == '\t' {
        ' '
    } else {
        c
    }
}

/// `s` with every newline and tab replaced by a space.
pub open spec fn spec_clean(s: Seq<char>) -> Seq<char> {
    s.map_values(|c: char| clean_char(c))
}

/// The canonical command text of a snapshot: the cleaned space-joined
/// argument list when one is present; else the raw command text where the
/// platform offers one; else the bracketed short name.
pub open spec fn spec_base_command(
    args: Seq<Seq<char>>,
    raw: Option<Seq<char>>,
    short: Seq<char>,
) -> Seq<char> {
    if args.len() > 0 {
        spec_clean(spec_join_args(args))
    } else {
        match raw {
            Option::Some(r) => r,
            Option::None => "["@ + short + "]"@,
        }
    }
}

/// The command column: per process, a raw command line for search and a
/// formatted one for display, the latter abbreviated when configured so.
pub struct Command {
    header: String,
    unit: String,
    fmt_contents: HashMap<i32, String>,
    raw_contents: HashMap<i32, String>,
    width: usize,
    abbr_path: bool,
    home: Option<String>,
}

impl View for Command {
    type V = CommandState;

    closed spec fn view(&self) -> CommandState {
        CommandState {
            header: self.header@,
            unit: self.unit@,
            fmt: self.fmt_contents@.map_values(|v: String| v@),
            raw: self.raw_contents@.map_values(|v: String| v@),
            width: self.width,
            abbr_path: self.abbr_path,
            home: opt_str_view(&self.home),
        }
    }
}

impl Command {
    /// A fresh, empty command column. The header falls back to `Command`;
    /// `home` is the home directory that path abbreviation consults.
    pub fn new(header: Option<String>, abbr_path: bool, home: Option<String>) -> (r: Self)
        ensures
            r@.header == (match header {
                Option::Some(h) => h@,
                Option::None => "Command"@,
            }),
            r@.unit == Seq::<char>::empty(),
            r@.fmt == Map::<i32, Seq<char>>::empty(),
            r@.raw == Map::<i32, Seq<char>>::empty(),
            r@.width == 0,
            r@.abbr_path == abbr_path,
            r@.home == opt_str_view(&home),
            r@.wf(),
    {
        let header = match header {
            Some(h) => h,
            None => String::from_str("Command"),
        };
        let r = Self {
            fmt_contents: HashMap::new(),
            raw_contents: HashMap::new(),
            width: 0,
            header,
            unit: String::new(),
            abbr_path,
            home,
        };
        proof {
            assert(r@.fmt =~= Map::<i32, Seq<char>>::empty());
            assert(r@.raw =~= Map::<i32, Seq<char>>::empty());
        }
        r
    }

    /// The joined, cleaned argument list of `args`.
    fn join_args(args: &Vec<String>) -> (r: Vec<char>)
        ensures
            r@ == spec_clean(spec_join_args(args.deep_view())),
    {
        let ghost dv = args.deep_view();
        let n = args.len();
        let mut joined: Vec<char> = Vec::new();
        let mut i: usize = 0;
        while i < n
            invariant
                n == args@.len(),
                dv == args.deep_view(),
                dv.len() == n,
                i <= n,
                joined@ == spec_join_args(dv.take(i as int)),
            decreases n - i,
        {
            if i > 0 {
                joined.push(' ');
            }
            let mut a = str_to_chars(args[i].as_str());
            joined.append(&mut a);
            proof {
                assert(dv[i as int] == args@[i as int]@);
                assert(dv.take(i + 1).drop_last() =~= dv.take(i as int));
                assert(dv.take(i + 1).last() == dv[i as int]);
                if i == 0 {
                    assert(joined@ =~= spec_join_args(dv.take(1)));
                }
            }
            i = i + 1;
        }
        proof {
            assert(dv.take(n as int) =~= dv);
        }
        let m = joined.len();
        let mut out: Vec<char> = Vec::new();
        let mut j: usize = 0;
        while j < m
            invariant
                m == joined@.len(),
                j <= m,
                out@.len() == j,
                forall|q: int| 0 <= q < j ==> out@[q] == clean_char(joined@[q]),
            decreases m - j,
        {
            let c = joined[j];
            if c == '\n' || c == '\t' {
                out.push(' ');
            } else {
                out.push(c);
            }
            j = j + 1;
        }
        proof {
            assert(out@ =~= spec_clean(joined@));
        }
        out
    }

    /// Ingest one snapshot: store its raw command text and the formatted
    /// text, and widen the column to the widest formatted value seen so
    /// far. A later call for the same identifier overwrites.
    pub fn add(&mut self, proc: &ProcessSnapshot)
        ensures
            ({
                let base = spec_base_command(
                    proc.args.deep_view(),
                    opt_str_view(&proc.raw_command),
                    proc.short_name@,
                );
                let fmtv = spec_format_command(base, old(self)@.abbr_path, old(self)@.home);
                &&& final(self)@.raw == old(self)@.raw.insert(proc.pid, base)
                &&& final(self)@.fmt == old(self)@.fmt.insert(proc.pid, fmtv)
                &&& final(self)@.width == (if str_width_of(fmtv) > old(self)@.width {
                    str_width_of(fmtv)
                } else {
                    old(self)@.width
                })
            }),
            final(self)@.header == old(self)@.header,
            final(self)@.unit == old(self)@.unit,
            final(self)@.abbr_path == old(self)@.abbr_path,
            final(self)@.home == old(self)@.home,
            old(self)@.wf() ==> final(self)@.wf(),
    {
        let base_chars: Vec<char>;
        if proc.args.len() > 0 {
            base_chars = Self::join_args(&proc.args);
        } else {
            match &proc.raw_command {
                Some(rc) => {
                    base_chars = str_to_chars(rc.as_str());
                },
                None => {
                    let mut b = str_to_chars("[");
                    let mut s = str_to_chars(proc.short_name.as_str());
                    let mut e = str_to_chars("]");
                    b.append(&mut s);
                    b.append(&mut e);
                    base_chars = b;
                },
            }
        }
        let raw_content = chars_to_string(&base_chars);
        let fmt_content = format_command(chars_to_string(&base_chars), self.abbr_path, &self.home);
        let w = str_width(fmt_content.as_str());
        if w > self.width {
            self.width = w;
        }
        let ghost old_fmt = self.fmt_contents@;
        let ghost old_raw = self.raw_contents@;
        self.fmt_contents.insert(proc.pid, fmt_content);
        self.raw_contents.insert(proc.pid, raw_content);
        proof {
            assert(final(self)@.raw =~= old(self)@.raw.insert(
                proc.pid,
                spec_base_command(
                    proc.args.deep_view(),
                    opt_str_view(&proc.raw_command),
                    proc.short_name@,
                ),
            ));
            assert(final(self)@.fmt =~= old(self)@.fmt.insert(
                proc.pid,
                spec_format_command(
                    spec_base_command(
                        proc.args.deep_view(),
                        opt_str_view(&proc.raw_command),
                        proc.short_name@,
                    ),
                    old(self)@.abbr_path,
                    old(self)@.home,
                ),
            ));
        }
    }

    /// The column's header text.
    pub fn header(&self) -> (r: &String)
        ensures
            r@ == self@.header,
    {
        &self.header
    }

    /// The column's unit label.
    pub fn unit(&self) -> (r: &String)
        ensures
            r@ == self@.unit,
    {
        &self.unit
    }

    /// The widest display width among the formatted values stored so far.
    pub fn max_width(&self) -> (r: usize)
        ensures
            r == self@.width,
    {
        self.width
    }

    /// The column kind this column renders.
    pub fn kind(&self) -> (r: ConfigColumnKind)
        ensures
            r == ConfigColumnKind::Command,
    {
        ConfigColumnKind::Command
    }

    /// The stored formatted value for `pid`, for the renderer.
    pub fn fmt_content(&self, pid: i32) -> (r: Option<&String>)
        ensures
            match r {
                Option::Some(v) => self@.fmt.contains_key(pid) && v@ == self@.fmt[pid],
                Option::None => !self@.fmt.contains_key(pid),
            },
    {
        self.fmt_contents.get(&pid)
    }

    /// The stored raw value for `pid`, for search and export.
    pub fn raw_content(&self, pid: i32) -> (r: Option<&String>)
        ensures
            match r {
                Option::Some(v) => self@.raw.contains_key(pid) && v@ == self@.raw[pid],
                Option::None => !self@.raw.contains_key(pid),
            },
    {
        self.raw_contents.get(&pid)
    }
}

impl Column for Command {
    open spec fn raw_view(&self) -> Map<i32, Seq<char>> {
        self@.raw
    }

    fn find_partial(&self, pid: i32, keyword: &str, fold: bool) -> (r: bool)
        ensures
            r == spec_column_find_partial(self.raw_view(), pid, keyword@, fold),
    {
        match self.raw_contents.get(&pid) {
            None => false,
            Some(content) => {
                let cc = str_to_chars(content.as_str());
                let kc = str_to_chars(keyword);
                if fold {
                    let cf = lower_chars(&cc);
                    let kf = lower_chars(&kc);
                    chars_contain(&cf, &kf)
                } else {
                    chars_contain(&cc, &kc)
                }
            },
        }
    }

    fn find_exact(&self, pid: i32, keyword: &str, fold: bool) -> (r: bool)
        ensures
            r == spec_column_find_exact(self.raw_view(), pid, keyword@, fold),
    {
        match self.raw_contents.get(&pid) {
            None => false,
            Some(content) => {
                let cc = str_to_chars(content.as_str());
                let kc = str_to_chars(keyword);
                if fold {
                    let cf = lower_chars(&cc);
                    let kf = lower_chars(&kc);
                    chars_eq(&cf, &kf)
                } else {
                    chars_eq(&cc, &kc)
                }
            },
        }
    }
}

} // verus!
