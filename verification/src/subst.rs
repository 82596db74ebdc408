//! The argument parser: turns the text of an attribute argument list such as
//! `T = i32, U = 'static` into an ordered substitution list.
//!
//! Grammar, with whitespace allowed between tokens:
//!   list  :=  [ entry (',' entry)* [',']? ]?
//!   entry :=  tol '=' tol
//!   tol   :=  lifetime | identifier
//! A lifetime is a tick followed by an identifier; an identifier is a letter
//! or underscore followed by letters, digits and underscores.
//!
//! The spec functions below define the grammar once, by recursive descent over
//! a character sequence; the executable parser is proved to return exactly
//! their value.  No name is checked against any parameter here: that is the
//! matching pass's job.

use vstd::prelude::*;
use vstd::string::StrSliceExecFns;
use crate::ast::SubstEntry;
use crate::ast::SubstEntryView;
use crate::ast::TypeOrLifetime;
use crate::ast::TypeOrLifetimeView;
use crate::ast::entries_view;

verus! {

/// Whitespace accepted between tokens of a substitution list.
pub open spec fn is_ws(c: char) -> bool {
    c == ' ' || c == '\t' || c == '\n' || c == '\r'
}

/// First character of an identifier: a letter or an underscore.
pub open spec fn is_ident_start(c: char) -> bool {
    (97 <= c as u32 && c as u32 <= 122)  // 'a' ..= 'z'
    || (65 <= c as u32 && c as u32 <= 90)  // 'A' ..= 'Z'
    || c == '_'
}

/// Later character of an identifier: additionally a digit.
pub open spec fn is_ident_char(c: char) -> bool {
    is_ident_start(c) || (48 <= c as u32 && c as u32 <= 57)  // '0' ..= '9'
}

/// Position of the first non-whitespace character at or after `i`.
pub open spec fn skip_ws(s: Seq<char>, i: int) -> int
    decreases s.len() - i when 0 <= i <= s.len()
{
    if i < s.len() && is_ws(s[i]) {
        skip_ws(s, i + 1)
    } else {
        i
    }
}

/// Position right after the identifier characters running from `i`.
pub open spec fn ident_end(s: Seq<char>, i: int) -> int
    decreases s.len() - i when 0 <= i <= s.len()
{
    if i < s.len() && is_ident_char(s[i]) {
        ident_end(s, i + 1)
    } else {
        i
    }
}

pub proof fn lemma_skip_ws_bounds(s: Seq<char>, i: int)
    requires
        0 <= i <= s.len(),
    ensures
        i <= skip_ws(s, i) <= s.len(),
    decreases s.len() - i,
{
    if i < s.len() && is_ws(s[i]) {
        lemma_skip_ws_bounds(s, i + 1);
    }
}

pub proof fn lemma_ident_end_bounds(s: Seq<char>, i: int)
    requires
        0 <= i <= s.len(),
    ensures
        i <= ident_end(s, i) <= s.len(),
    decreases s.len() - i,
{
    if i < s.len() && is_ident_char(s[i]) {
        lemma_ident_end_bounds(s, i + 1);
    }
}

/// One type identifier or lifetime read at position `i` (no leading
/// whitespace), with the position right after it.
pub open spec fn parse_tol_at(s: Seq<char>, i: int) -> Option<(TypeOrLifetimeView, int)>
    recommends
        0 <= i <= s.len(),
{
    if i < s.len() && s[i] == '\'' {
        if i + 1 < s.len() && is_ident_start(s[i + 1]) {
            let e = ident_end(s, i + 2);
            Some((TypeOrLifetimeView::LifetimeName(s.subrange(i + 1, e)), e))
        } else {
            None
        }
    } else if i < s.len() && is_ident_start(s[i]) {
        let e = ident_end(s, i + 1);
        Some((TypeOrLifetimeView::TypeName(s.subrange(i, e)), e))
    } else {
        None
    }
}

pub proof fn lemma_parse_tol_advances(s: Seq<char>, i: int)
    requires
        0 <= i <= s.len(),
    ensures
        parse_tol_at(s, i) matches Some(tj) ==> i < tj.1 <= s.len(),
{
    if i < s.len() && s[i] == '\'' {
        if i + 1 < s.len() && is_ident_start(s[i + 1]) {
            lemma_ident_end_bounds(s, i + 2);
        }
    } else if i < s.len() && is_ident_start(s[i]) {
        lemma_ident_end_bounds(s, i + 1);
    }
}

/// One `name = value` entry beginning at position `i` (leading whitespace
/// allowed), with the position right after its value.
pub open spec fn parse_entry_at(s: Seq<char>, i: int) -> Option<(SubstEntryView, int)>
    recommends
        0 <= i <= s.len(),
{
    match parse_tol_at(s, skip_ws(s, i)) {
        None => None,
        Some((name, j)) => {
            let k = skip_ws(s, j);
            if k < s.len() && s[k] == '=' {
                match parse_tol_at(s, skip_ws(s, k + 1)) {
                    None => None,
                    Some((value, m)) => Some((SubstEntryView { name, value }, m)),
                }
            } else {
                None
            }
        }
    }
}

pub proof fn lemma_parse_entry_advances(s: Seq<char>, i: int)
    requires
        0 <= i <= s.len(),
    ensures
        parse_entry_at(s, i) matches Some(em) ==> i < em.1 <= s.len(),
{
    lemma_skip_ws_bounds(s, i);
    let j0 = skip_ws(s, i);
    lemma_parse_tol_advances(s, j0);
    match parse_tol_at(s, j0) {
        None => {},
        Some((name, j)) => {
            lemma_skip_ws_bounds(s, j);
            let k = skip_ws(s, j);
            if k < s.len() && s[k] == '=' {
                lemma_skip_ws_bounds(s, k + 1);
                lemma_parse_tol_advances(s, skip_ws(s, k + 1));
            }
        },
    }
}

/// One or more comma-separated entries beginning at position `i`, a trailing
/// comma allowed, with the position right after what was consumed.
pub open spec fn parse_entries_at(s: Seq<char>, i: int) -> Option<(Seq<SubstEntryView>, int)>
    decreases s.len() - i when 0 <= i <= s.len() via parse_entries_at_decreases
{
    match parse_entry_at(s, i) {
        None => None,
        Some((e, j)) => {
            let k = skip_ws(s, j);
            if k < s.len() && s[k] == ',' {
                let n = skip_ws(s, k + 1);
                if n == s.len() {
                    Some((seq![e], n))
                } else {
                    match parse_entries_at(s, n) {
                        None => None,
                        Some((rest, end)) => Some((seq![e] + rest, end)),
                    }
                }
            } else {
                Some((seq![e], k))
            }
        }
    }
}

#[via_fn]
proof fn parse_entries_at_decreases(s: Seq<char>, i: int) {
    lemma_parse_entry_advances(s, i);
    match parse_entry_at(s, i) {
        None => {},
        Some((e, j)) => {
            lemma_skip_ws_bounds(s, j);
            let k = skip_ws(s, j);
            if k < s.len() && s[k] == ',' {
                lemma_skip_ws_bounds(s, k + 1);
            }
        },
    }
}

/// The whole substitution list: the entries of `s`, or `None` where `s` is
/// not in the grammar.  A blank or empty `s` is the empty list.
pub open spec fn parse_substitutions(s: Seq<char>) -> Option<Seq<SubstEntryView>> {
    if skip_ws(s, 0) == s.len() {
        Some(Seq::empty())
    } else {
        match parse_entries_at(s, 0) {
            None => None,
            Some((es, end)) => {
                if skip_ws(s, end) == s.len() {
                    Some(es)
                } else {
                    None
                }
            },
        }
    }
}

/// A well-formed name: a nonempty identifier, exactly the shape the grammar
/// reads.
pub open spec fn wf_name(n: Seq<char>) -> bool {
    &&& n.len() > 0
    &&& is_ident_start(n[0])
    &&& forall|k: int| 0 <= k < n.len() ==> is_ident_char(#[trigger] n[k])
}

/// A well-formed argument: its name, under either tag, is an identifier.
pub open spec fn wf_tol(a: TypeOrLifetimeView) -> bool {
    match a {
        TypeOrLifetimeView::TypeName(n) => wf_name(n),
        TypeOrLifetimeView::LifetimeName(n) => wf_name(n),
    }
}

/// Every name and value of the list is well formed.
pub open spec fn wf_entries(es: Seq<SubstEntryView>) -> bool {
    forall|i: int|
        0 <= i < es.len() ==> wf_tol((#[trigger] es[i]).name) && wf_tol(es[i].value)
}

/// Every argument of the list is well formed.
pub open spec fn wf_args(args: Seq<TypeOrLifetimeView>) -> bool {
    forall|i: int| 0 <= i < args.len() ==> wf_tol(#[trigger] args[i])
}

proof fn lemma_ident_end_chars(s: Seq<char>, i: int)
    requires
        0 <= i <= s.len(),
    ensures
        forall|k: int| i <= k < ident_end(s, i) ==> is_ident_char(#[trigger] s[k]),
    decreases s.len() - i,
{
    if i < s.len() && is_ident_char(s[i]) {
        lemma_ident_end_chars(s, i + 1);
    }
}

proof fn lemma_parse_tol_wf(s: Seq<char>, i: int)
    requires
        0 <= i <= s.len(),
    ensures
        parse_tol_at(s, i) matches Some(tj) ==> wf_tol(tj.0),
{
    if i < s.len() && s[i] == '\'' {
        if i + 1 < s.len() && is_ident_start(s[i + 1]) {
            let e = ident_end(s, i + 2);
            lemma_ident_end_bounds(s, i + 2);
            lemma_ident_end_chars(s, i + 2);
            let n = s.subrange(i + 1, e);
            assert(n[0] == s[i + 1]);
            assert forall|k: int| 0 <= k < n.len() implies is_ident_char(n[k]) by {
                assert(n[k] == s[i + 1 + k]);
            }
        }
    } else if i < s.len() && is_ident_start(s[i]) {
        let e = ident_end(s, i + 1);
        lemma_ident_end_bounds(s, i + 1);
        lemma_ident_end_chars(s, i + 1);
        let n = s.subrange(i, e);
        assert(n[0] == s[i]);
        assert forall|k: int| 0 <= k < n.len() implies is_ident_char(n[k]) by {
            assert(n[k] == s[i + k]);
        }
    }
}

proof fn lemma_parse_entry_wf(s: Seq<char>, i: int)
    requires
        0 <= i <= s.len(),
    ensures
        parse_entry_at(s, i) matches Some(em) ==> wf_tol(em.0.name) && wf_tol(em.0.value),
{
    lemma_skip_ws_bounds(s, i);
    let j0 = skip_ws(s, i);
    lemma_parse_tol_wf(s, j0);
    lemma_parse_tol_advances(s, j0);
    match parse_tol_at(s, j0) {
        None => {},
        Some((name, j)) => {
            lemma_skip_ws_bounds(s, j);
            let k = skip_ws(s, j);
            if k < s.len() && s[k] == '=' {
                lemma_skip_ws_bounds(s, k + 1);
                lemma_parse_tol_wf(s, skip_ws(s, k + 1));
            }
        },
    }
}

proof fn lemma_parse_entries_wf(s: Seq<char>, i: int)
    requires
        0 <= i <= s.len(),
    ensures
        parse_entries_at(s, i) matches Some(ve) ==> wf_entries(ve.0),
    decreases s.len() - i,
{
    lemma_parse_entry_wf(s, i);
    lemma_parse_entry_advances(s, i);
    match parse_entry_at(s, i) {
        None => {},
        Some((e, j)) => {
            lemma_skip_ws_bounds(s, j);
            let k = skip_ws(s, j);
            if k < s.len() && s[k] == ',' {
                lemma_skip_ws_bounds(s, k + 1);
                let n = skip_ws(s, k + 1);
                if n != s.len() {
                    lemma_parse_entries_wf(s, n);
                    match parse_entries_at(s, n) {
                        None => {},
                        Some((rest, end)) => {
                            assert forall|q: int|
                                0 <= q < (seq![e] + rest).len() implies wf_tol(
                                (#[trigger] (seq![e] + rest)[q]).name,
                            ) && wf_tol((seq![e] + rest)[q].value) by {
                                if q > 0 {
                                    assert((seq![e] + rest)[q] == rest[q - 1]);
                                }
                            }
                        },
                    }
                }
            }
        },
    }
}

/// What the argument parser accepts is made of identifiers: every name and
/// value of a parsed substitution list is well formed.
pub proof fn lemma_parse_substitutions_wf(s: Seq<char>)
    ensures
        parse_substitutions(s) matches Some(es) ==> wf_entries(es),
{
    lemma_parse_entries_wf(s, 0);
}

fn ws_char(c: char) -> (b: bool)
    ensures
        b == is_ws(c),
{
    c == ' ' || c == '\t' || c == '\n' || c == '\r'
}

fn ident_start_char(c: char) -> (b: bool)
    ensures
        b == is_ident_start(c),
{
    let u = c as u32;
    (97 <= u && u <= 122) || (65 <= u && u <= 90) || c == '_'
}

fn ident_char(c: char) -> (b: bool)
    ensures
        b == is_ident_char(c),
{
    let u = c as u32;
    ident_start_char(c) || (48 <= u && u <= 57)
}

fn skip_ws_x(s: &str, n: usize, i: usize) -> (r: usize)
    requires
        n == s@.len(),
        i <= n,
    ensures
        r as int == skip_ws(s@, i as int),
        i <= r <= n,
    decreases n - i,
{
    if i < n && ws_char(s.get_char(i)) {
        skip_ws_x(s, n, i + 1)
    } else {
        i
    }
}

fn ident_end_x(s: &str, n: usize, i: usize) -> (r: usize)
    requires
        n == s@.len(),
        i <= n,
    ensures
        r as int == ident_end(s@, i as int),
        i <= r <= n,
    decreases n - i,
{
    if i < n && ident_char(s.get_char(i)) {
        ident_end_x(s, n, i + 1)
    } else {
        i
    }
}

fn parse_tol_x(s: &str, n: usize, i: usize) -> (r: Option<(TypeOrLifetime, usize)>)
    requires
        n == s@.len(),
        i <= n,
    ensures
        r is Some <==> parse_tol_at(s@, i as int) is Some,
        r matches Some((t, j)) ==> parse_tol_at(s@, i as int) == Some((t@, j as int)) && i < j <= n,
{
    if i < n && s.get_char(i) == '\'' {
        if i + 1 < n && ident_start_char(s.get_char(i + 1)) {
            let e = ident_end_x(s, n, i + 2);
            let name = s.substring_char(i + 1, e).to_owned();
            Some((TypeOrLifetime::LifetimeName(name), e))
        } else {
            None
        }
    } else if i < n && ident_start_char(s.get_char(i)) {
        let e = ident_end_x(s, n, i + 1);
        let name = s.substring_char(i, e).to_owned();
        Some((TypeOrLifetime::TypeName(name), e))
    } else {
        None
    }
}

fn parse_entry_x(s: &str, n: usize, i: usize) -> (r: Option<(SubstEntry, usize)>)
    requires
        n == s@.len(),
        i <= n,
    ensures
        r is Some <==> parse_entry_at(s@, i as int) is Some,
        r matches Some((e, m)) ==> parse_entry_at(s@, i as int) == Some((e@, m as int)) && i < m
            <= n,
{
    let j0 = skip_ws_x(s, n, i);
    match parse_tol_x(s, n, j0) {
        None => None,
        Some((name, j)) => {
            let k = skip_ws_x(s, n, j);
            if k < n && s.get_char(k) == '=' {
                let m0 = skip_ws_x(s, n, k + 1);
                match parse_tol_x(s, n, m0) {
                    None => None,
                    Some((value, m)) => Some((SubstEntry { name, value }, m)),
                }
            } else {
                None
            }
        },
    }
}

fn parse_entries_x(s: &str, n: usize, i: usize) -> (r: Option<(Vec<SubstEntry>, usize)>)
    requires
        n == s@.len(),
        i <= n,
    ensures
        r is Some <==> parse_entries_at(s@, i as int) is Some,
        r matches Some((v, end)) ==> parse_entries_at(s@, i as int) == Some(
            (entries_view(v@), end as int),
        ) && i < end <= n,
    decreases n - i,
{
    match parse_entry_x(s, n, i) {
        None => None,
        Some((e, j)) => {
            let k = skip_ws_x(s, n, j);
            if k < n && s.get_char(k) == ',' {
                let m = skip_ws_x(s, n, k + 1);
                if m == n {
                    let mut v: Vec<SubstEntry> = Vec::new();
                    let ghost ev = e@;
                    v.push(e);
                    proof {
                        assert(entries_view(v@) =~= seq![ev]);
                    }
                    Some((v, m))
                } else {
                    match parse_entries_x(s, n, m) {
                        None => None,
                        Some((rest, end)) => {
                            let ghost restv = entries_view(rest@);
                            let ghost ev = e@;
                            let mut v = rest;
                            v.insert(0, e);
                            proof {
                                assert(entries_view(v@) =~= seq![ev] + restv);
                            }
                            Some((v, end))
                        },
                    }
                }
            } else {
                let mut v: Vec<SubstEntry> = Vec::new();
                let ghost ev = e@;
                v.push(e);
                proof {
                    assert(entries_view(v@) =~= seq![ev]);
                }
                Some((v, k))
            }
        },
    }
}

/// Parses an attribute argument list into its substitution entries, in the
/// order written.  Returns `None` exactly where the text is outside the
/// grammar; a blank list is accepted and empty.
pub fn parse_substitution_list(attr: &str) -> (r: Option<Vec<SubstEntry>>)
    ensures
        r is Some <==> parse_substitutions(attr@) is Some,
        r matches Some(v) ==> parse_substitutions(attr@) == Some(entries_view(v@)),
{
    let n = attr.unicode_len();
    let i = skip_ws_x(attr, n, 0);
    if i == n {
        let v: Vec<SubstEntry> = Vec::new();
        proof {
            assert(entries_view(v@) =~= Seq::<SubstEntryView>::empty());
        }
        Some(v)
    } else {
        match parse_entries_x(attr, n, 0) {
            None => None,
            Some((v, end)) => {
                let k = skip_ws_x(attr, n, end);
                if k == n {
                    Some(v)
                } else {
                    None
                }
            },
        }
    }
}

} // verus!
