//! Token-level helpers that every section parser shares: a literal keyword
//! or punctuation mark preceded by trivia, an identifier preceded by trivia,
//! and the body of a quoted string.

use crate::text::{extract, find, find_char, match_at, run_end, scan, Cc};
use crate::trivia::{skip_trivia, spec_skip_trivia};
use vstd::prelude::*;
use vstd::string::StrSliceExecFns;

verus! {

/// The position after the literal `pat` when it stands at the first
/// non-trivia position at or after `pos`.
pub open spec fn spec_tok(t: Seq<char>, pos: int, pat: Seq<char>) -> Option<int> {
    let q = spec_skip_trivia(t, pos);
    if match_at(t, q, pat) {
        Some(q + pat.len())
    } else {
        None
    }
}

/// Consumes trivia, then the literal `pat`.
pub fn tok(t: &Vec<char>, pos: usize, pat: &str) -> (r: Option<usize>)
    requires
        pos <= t.len(),
    ensures
        match r {
            Some(p) => spec_tok(t@, pos as int, pat@) == Some(p as int) && pos <= p <= t.len(),
            None => spec_tok(t@, pos as int, pat@) is None,
        },
{
    let q = skip_trivia(t, pos);
    if crate::text::tag_at(t, q, pat) {
        Some(q + pat.unicode_len())
    } else {
        None
    }
}

/// Extra whitespace ahead of a token changes nothing: the token read from
/// anywhere inside a whitespace run is the token read after it.
pub proof fn lemma_tok_whitespace_insensitive(t: Seq<char>, pos: int, mid: int, pat: Seq<char>)
    requires
        0 <= pos <= mid <= t.len(),
        forall|j: int| pos <= j < mid ==> crate::text::is_ws(t[j]),
    ensures
        spec_tok(t, pos, pat) == spec_tok(t, mid, pat),
{
    crate::trivia::lemma_whitespace_prefix_skipped(t, pos, mid);
}

/// A comment ahead of a token changes nothing: the token read from the
/// start of a complete comment is the token read after it.
pub proof fn lemma_tok_comment_insensitive(t: Seq<char>, pos: int, c: int, pat: Seq<char>)
    requires
        0 <= pos <= t.len(),
        crate::trivia::spec_comment_end(t, pos) == Some(c),
    ensures
        spec_tok(t, pos, pat) == spec_tok(t, c, pat),
{
    crate::trivia::lemma_comment_prefix_skipped(t, pos, c);
}

/// The identifier (a nonempty run of identifier characters) that stands at
/// the first non-trivia position at or after `pos`: its start and its end.
pub open spec fn spec_ident(t: Seq<char>, pos: int) -> Option<(int, int)> {
    let q = spec_skip_trivia(t, pos);
    let e = run_end(t, q, Cc::Ident);
    if e > q {
        Some((q, e))
    } else {
        None
    }
}

/// Consumes trivia, then a nonempty identifier, returning its bounds.
pub fn ident(t: &Vec<char>, pos: usize) -> (r: Option<(usize, usize)>)
    requires
        pos <= t.len(),
    ensures
        match r {
            Some((a, b)) => spec_ident(t@, pos as int) == Some((a as int, b as int)) && pos <= a
                <= b <= t.len(),
            None => spec_ident(t@, pos as int) is None,
        },
{
    let q = skip_trivia(t, pos);
    let e = scan(t, q, Cc::Ident);
    if e > q {
        Some((q, e))
    } else {
        None
    }
}

/// Consumes trivia, then a nonempty identifier, returning it as a string
/// with the position after it.
pub fn ident_string(t: &Vec<char>, pos: usize) -> (r: Option<(usize, String)>)
    requires
        pos <= t.len(),
    ensures
        match r {
            Some((p, s)) => {
                &&& spec_ident(t@, pos as int) matches Some((a, b))
                &&& p as int == b
                &&& s@ == t@.subrange(a, b)
                &&& pos <= p <= t.len()
            },
            None => spec_ident(t@, pos as int) is None,
        },
{
    match ident(t, pos) {
        None => None,
        Some((a, b)) => {
            let s = extract(t, a, b);
            Some((b, s))
        },
    }
}

/// A duration in milliseconds: a decimal literal (digits with an optional
/// dot) followed by the unit word `ms`.
pub open spec fn spec_duration(t: Seq<char>, pos: int) -> Option<(int, crate::decimal::LdfNumber)> {
    let a = spec_skip_trivia(t, pos);
    let b = run_end(t, a, Cc::NumDot);
    match crate::decimal::spec_parse_decimal(t, a, b) {
        None => None,
        Some(d) => match spec_tok(t, b, "ms"@) {
            None => None,
            Some(p) => Some((p, d)),
        },
    }
}

/// Consumes trivia, a decimal literal and the unit word `ms`.
pub fn duration(t: &Vec<char>, pos: usize) -> (r: Option<(usize, crate::decimal::LdfNumber)>)
    requires
        pos <= t.len(),
    ensures
        match r {
            Some((p, d)) => spec_duration(t@, pos as int) == Some((p as int, d)) && pos <= p
                <= t.len() && crate::decimal::dec_wf(d),
            None => spec_duration(t@, pos as int) is None,
        },
{
    let a = skip_trivia(t, pos);
    let b = scan(t, a, Cc::NumDot);
    let d = match crate::decimal::parse_decimal(t, a, b) {
        None => return None,
        Some(d) => d,
    };
    match tok(t, b, "ms") {
        None => None,
        Some(p) => Some((p, d)),
    }
}

/// A whole-number duration in milliseconds: digits only, then `ms`.
pub open spec fn spec_int_duration(t: Seq<char>, pos: int) -> Option<
    (int, crate::decimal::LdfNumber),
> {
    let a = spec_skip_trivia(t, pos);
    let b = run_end(t, a, Cc::Digit);
    match crate::decimal::spec_parse_decimal(t, a, b) {
        None => None,
        Some(d) => match spec_tok(t, b, "ms"@) {
            None => None,
            Some(p) => Some((p, d)),
        },
    }
}

/// Consumes trivia, a run of digits and the unit word `ms`.
pub fn int_duration(t: &Vec<char>, pos: usize) -> (r: Option<(usize, crate::decimal::LdfNumber)>)
    requires
        pos <= t.len(),
    ensures
        match r {
            Some((p, d)) => spec_int_duration(t@, pos as int) == Some((p as int, d)) && pos <= p
                <= t.len() && crate::decimal::dec_wf(d),
            None => spec_int_duration(t@, pos as int) is None,
        },
{
    let a = skip_trivia(t, pos);
    let b = scan(t, a, Cc::Digit);
    let d = match crate::decimal::parse_decimal(t, a, b) {
        None => return None,
        Some(d) => d,
    };
    match tok(t, b, "ms") {
        None => None,
        Some(p) => Some((p, d)),
    }
}

/// A comma-separated name list running up to the next semicolon: the text
/// from the first non-trivia position to the `;` is split on commas and each
/// piece is trimmed. The semicolon is consumed.
pub open spec fn spec_name_list(t: Seq<char>, pos: int) -> Option<(int, Seq<Seq<char>>)> {
    let q = spec_skip_trivia(t, pos);
    match find_char(t, q, ';') {
        None => None,
        Some(k) => Some((k + 1, crate::text::spec_split_trim(t, q, k))),
    }
}

/// Consumes trivia, then everything up to a semicolon as a comma-separated
/// list of trimmed names, then the semicolon.
pub fn name_list(t: &Vec<char>, pos: usize) -> (r: Option<(usize, Vec<String>)>)
    requires
        pos <= t.len(),
    ensures
        match r {
            Some((p, v)) => {
                &&& spec_name_list(t@, pos as int) matches Some((pp, names))
                &&& pp == p as int
                &&& v.deep_view() == names
                &&& pos <= p <= t.len()
            },
            None => spec_name_list(t@, pos as int) is None,
        },
{
    let q = skip_trivia(t, pos);
    match find(t, q, ';') {
        None => None,
        Some(k) => {
            let v = crate::text::split_trimmed(t, q, k);
            Some((k + 1, v))
        },
    }
}

/// The body of a quoted string whose opening quote has been consumed:
/// everything up to the next quote, with no escape processing, and the
/// position after the closing quote.
pub open spec fn spec_qstring(t: Seq<char>, pos: int) -> Option<(int, Seq<char>)> {
    match find_char(t, pos, '"') {
        None => None,
        Some(e) => Some((e + 1, t.subrange(pos, e))),
    }
}

/// Consumes the body of a quoted string and its closing quote.
pub fn qstring(t: &Vec<char>, pos: usize) -> (r: Option<(usize, String)>)
    requires
        pos <= t.len(),
    ensures
        match r {
            Some((p, s)) => {
                &&& spec_qstring(t@, pos as int) matches Some((q, body))
                &&& p as int == q
                &&& s@ == body
                &&& pos <= p <= t.len()
            },
            None => spec_qstring(t@, pos as int) is None,
        },
{
    match find(t, pos, '"') {
        None => None,
        Some(e) => {
            let s = extract(t, pos, e);
            Some((e + 1, s))
        },
    }
}

} // verus!
