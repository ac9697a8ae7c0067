//! The lexical trivia skipper: every token of the grammar may be preceded by
//! any mixture of whitespace, block comments and line comments, and the
//! skipper consumes exactly that mixture. Zero trivia is success, never an
//! error.

use crate::text::{cc_holds, find, find_char, find_pair, find_pair_at, is_ws, lemma_find_char,
    lemma_find_pair, lemma_run_end, run_end, scan, str_chars, Cc};
use vstd::prelude::*;

verus! {

/// The position after one complete comment that starts exactly at `pos`, if
/// one does. A block comment runs to the first `*/`; one that never closes
/// is not a comment. A line comment runs past the next newline, or to the
/// end of the input when no newline follows.
pub open spec fn spec_comment_end(t: Seq<char>, pos: int) -> Option<int> {
    if pos + 2 <= t.len() && t[pos] == '/' && t[pos + 1] == '*' {
        match find_pair_at(t, pos + 2, '*', '/') {
            Some(e) => Some(e + 2),
            None => None,
        }
    } else if pos + 2 <= t.len() && t[pos] == '/' && t[pos + 1] == '/' {
        match find_char(t, pos + 2, '\n') {
            Some(e) => Some(e + 1),
            None => Some(t.len() as int),
        }
    } else {
        None
    }
}

fn comment_end(t: &Vec<char>, pos: usize) -> (r: Option<usize>)
    requires
        pos <= t.len(),
    ensures
        match r {
            Some(e) => spec_comment_end(t@, pos as int) == Some(e as int) && pos < e <= t.len(),
            None => spec_comment_end(t@, pos as int) is None,
        },
{
    if t.len() - pos >= 2 && t[pos] == '/' && t[pos + 1] == '*' {
        match find_pair(t, pos + 2, '*', '/') {
            Some(e) => Some(e + 2),
            None => None,
        }
    } else if t.len() - pos >= 2 && t[pos] == '/' && t[pos + 1] == '/' {
        match find(t, pos + 2, '\n') {
            Some(e) => Some(e + 1),
            None => Some(t.len()),
        }
    } else {
        None
    }
}

/// The position reached from `pos` by repeatedly consuming one comment and
/// the whitespace after it, for as long as a comment starts there.
pub open spec fn spec_after_comments(t: Seq<char>, pos: int) -> int
    decreases t.len() - pos,
    when 0 <= pos <= t.len()
{
    match spec_comment_end(t, pos) {
        None => pos,
        Some(e) => {
            let n = run_end(t, e, Cc::Ws);
            if pos < n <= t.len() {
                spec_after_comments(t, n)
            } else {
                pos
            }
        },
    }
}

fn after_comments(t: &Vec<char>, pos: usize) -> (r: usize)
    requires
        pos <= t.len(),
    ensures
        r as int == spec_after_comments(t@, pos as int),
        pos <= r <= t.len(),
    decreases t.len() - pos,
{
    match comment_end(t, pos) {
        None => pos,
        Some(e) => {
            let n = scan(t, e, Cc::Ws);
            if pos < n {
                after_comments(t, n)
            } else {
                pos
            }
        },
    }
}

/// The position of the first character after the trivia that begins at
/// `pos`: leading whitespace, then comments each followed by whitespace.
pub open spec fn spec_skip_trivia(t: Seq<char>, pos: int) -> int {
    spec_after_comments(t, run_end(t, pos, Cc::Ws))
}

/// Skips whitespace and comments. Total: zero trivia leaves `pos` unchanged.
pub fn skip_trivia(t: &Vec<char>, pos: usize) -> (r: usize)
    requires
        pos <= t.len(),
    ensures
        r as int == spec_skip_trivia(t@, pos as int),
        pos <= r <= t.len(),
{
    let w = scan(t, pos, Cc::Ws);
    after_comments(t, w)
}

/// Skips whitespace and comments at the start of the text, returning the
/// index of the first character that belongs to neither.
pub fn skip_whitespace(s: &str) -> (n: usize)
    ensures
        n as int == spec_skip_trivia(s@, 0),
        n <= s@.len(),
{
    let t = str_chars(s);
    assert(t@ == s@);
    skip_trivia(&t, 0)
}

proof fn lemma_run_end_through(t: Seq<char>, pos: int, mid: int, k: Cc)
    requires
        0 <= pos <= mid <= t.len(),
        forall|j: int| pos <= j < mid ==> cc_holds(k, t[j]),
    ensures
        run_end(t, pos, k) == run_end(t, mid, k),
    decreases mid - pos,
{
    if pos < mid {
        lemma_run_end_through(t, pos + 1, mid, k);
    }
}

/// Extra whitespace in front of trivia changes nothing: skipping from
/// anywhere inside a whitespace run lands at the same position. With
/// `lemma_comment_prefix_skipped` this is why inserting extra whitespace or
/// comments between two tokens never changes what the parser sees next.
pub proof fn lemma_whitespace_prefix_skipped(t: Seq<char>, pos: int, mid: int)
    requires
        0 <= pos <= mid <= t.len(),
        forall|j: int| pos <= j < mid ==> is_ws(t[j]),
    ensures
        spec_skip_trivia(t, pos) == spec_skip_trivia(t, mid),
{
    lemma_run_end_through(t, pos, mid, Cc::Ws);
}

/// A comment in front of trivia changes nothing: skipping from the start of
/// a complete comment lands where skipping from just after it lands.
pub proof fn lemma_comment_prefix_skipped(t: Seq<char>, pos: int, c: int)
    requires
        0 <= pos <= t.len(),
        spec_comment_end(t, pos) == Some(c),
    ensures
        spec_skip_trivia(t, pos) == spec_skip_trivia(t, c),
{
    assert(t[pos] == '/');
    assert(!is_ws(t[pos]));
    assert(run_end(t, pos, Cc::Ws) == pos);
    assert(pos + 2 <= c <= t.len()) by {
        match spec_comment_end(t, pos) {
            Some(_) => {
                if pos + 2 <= t.len() && t[pos] == '/' && t[pos + 1] == '*' {
                    lemma_find_pair(t, pos + 2, '*', '/');
                } else {
                    lemma_find_char(t, pos + 2, '\n');
                }
            },
            None => {},
        }
    }
    lemma_run_end(t, c, Cc::Ws);
    let n = run_end(t, c, Cc::Ws);
    assert(spec_after_comments(t, pos) == spec_after_comments(t, n));
    assert(spec_skip_trivia(t, c) == spec_after_comments(t, n));
}

proof fn lemma_after_comments_fixed(t: Seq<char>, pos: int)
    requires
        0 <= pos <= t.len(),
        run_end(t, pos, Cc::Ws) == pos,
    ensures
        spec_skip_trivia(t, spec_after_comments(t, pos)) == spec_after_comments(t, pos),
    decreases t.len() - pos,
{
    match spec_comment_end(t, pos) {
        None => {
            assert(spec_after_comments(t, pos) == pos);
        },
        Some(e) => {
            assert(pos + 2 <= e <= t.len()) by {
                if pos + 2 <= t.len() && t[pos] == '/' && t[pos + 1] == '*' {
                    lemma_find_pair(t, pos + 2, '*', '/');
                } else {
                    lemma_find_char(t, pos + 2, '\n');
                }
            }
            lemma_run_end(t, e, Cc::Ws);
            let n = run_end(t, e, Cc::Ws);
            lemma_run_end(t, n, Cc::Ws);
            assert(run_end(t, n, Cc::Ws) == n);
            lemma_after_comments_fixed(t, n);
        },
    }
}

/// Trivia skipping is maximal: it consumes every bit of trivia, so skipping
/// a second time moves nothing.
pub proof fn lemma_skip_trivia_idempotent(t: Seq<char>, pos: int)
    requires
        0 <= pos <= t.len(),
    ensures
        spec_skip_trivia(t, spec_skip_trivia(t, pos)) == spec_skip_trivia(t, pos),
{
    let w = run_end(t, pos, Cc::Ws);
    lemma_run_end(t, pos, Cc::Ws);
    lemma_run_end(t, w, Cc::Ws);
    assert(run_end(t, w, Cc::Ws) == w);
    lemma_after_comments_fixed(t, w);
}

/// Trivia skipping never skips past a character that is neither whitespace
/// nor the start of a comment: on trivia-free input the cursor stands still.
pub proof fn lemma_skip_trivia_no_trivia(t: Seq<char>, pos: int)
    requires
        0 <= pos <= t.len(),
        pos < t.len() ==> !is_ws(t[pos]) && t[pos] != '/',
    ensures
        spec_skip_trivia(t, pos) == pos,
{
    assert(run_end(t, pos, Cc::Ws) == pos);
    assert(spec_comment_end(t, pos) is None);
    assert(spec_after_comments(t, pos) == pos);
}

} // verus!
