//! Character-level scanning primitives shared by every section parser:
//! character classes, runs, searches, and substring extraction.

use vstd::prelude::*;
use vstd::string::StrSliceExecFns;

verus! {

/// Whitespace as the grammar understands it: the ASCII blank characters.
pub open spec fn is_ws(c: char) -> bool {
    c == ' ' || c == '\t' || c == '\n' || c == '\r' || c == '\x0b' || c == '\x0c'
}

/// Identifier characters: ASCII letters, digits and underscore.
pub open spec fn is_ident_char(c: char) -> bool {
    ('a' <= c && c <= 'z') || ('A' <= c && c <= 'Z') || is_digit(c) || c == '_'
}

pub open spec fn is_digit(c: char) -> bool {
    '0' <= c && c <= '9'
}

pub open spec fn is_hex_digit(c: char) -> bool {
    is_digit(c) || ('a' <= c && c <= 'f') || ('A' <= c && c <= 'F')
}

/// The character classes that the token scanners take runs of.
#[derive(Clone, Copy)]
pub enum Cc {
    /// Whitespace.
    Ws,
    /// Identifier characters.
    Ident,
    /// Decimal digits.
    Digit,
    /// Decimal digits or a dot (unsigned decimal literals).
    NumDot,
    /// Hexadecimal digits or `x` (hex literals and flexible ids).
    HexX,
    /// Decimal digits or a minus sign (signed integers).
    NumDash,
    /// Decimal digits, dot or minus sign (signed decimal literals).
    NumDotDash,
    /// Decimal digits, dot, minus sign or exponent marker (scientific literals).
    Sci,
    /// Anything but a space or an opening brace.
    NotSpaceBrace,
    /// Anything but a colon or an opening brace.
    NotColonBrace,
    /// Anything but a comma or a semicolon.
    NotCommaSemi,
}

pub open spec fn cc_holds(k: Cc, c: char) -> bool {
    match k {
        Cc::Ws => is_ws(c),
        Cc::Ident => is_ident_char(c),
        Cc::Digit => is_digit(c),
        Cc::NumDot => is_digit(c) || c == '.',
        Cc::HexX => is_hex_digit(c) || c == 'x',
        Cc::NumDash => is_digit(c) || c == '-',
        Cc::NumDotDash => is_digit(c) || c == '.' || c == '-',
        Cc::Sci => is_digit(c) || c == '.' || c == '-' || c == 'e' || c == 'E',
        Cc::NotSpaceBrace => c != ' ' && c != '{',
        Cc::NotColonBrace => c != ':' && c != '{',
        Cc::NotCommaSemi => c != ',' && c != ';',
    }
}

fn cc_check(k: Cc, c: char) -> (r: bool)
    ensures
        r == cc_holds(k, c),
{
    match k {
        Cc::Ws => c == ' ' || c == '\t' || c == '\n' || c == '\r' || c == '\x0b' || c == '\x0c',
        Cc::Ident => ('a' <= c && c <= 'z') || ('A' <= c && c <= 'Z') || ('0' <= c && c <= '9')
            || c == '_',
        Cc::Digit => '0' <= c && c <= '9',
        Cc::NumDot => ('0' <= c && c <= '9') || c == '.',
        Cc::HexX => ('0' <= c && c <= '9') || ('a' <= c && c <= 'f') || ('A' <= c && c <= 'F')
            || c == 'x',
        Cc::NumDash => ('0' <= c && c <= '9') || c == '-',
        Cc::NumDotDash => ('0' <= c && c <= '9') || c == '.' || c == '-',
        Cc::Sci => ('0' <= c && c <= '9') || c == '.' || c == '-' || c == 'e' || c == 'E',
        Cc::NotSpaceBrace => c != ' ' && c != '{',
        Cc::NotColonBrace => c != ':' && c != '{',
        Cc::NotCommaSemi => c != ',' && c != ';',
    }
}

/// Where the run of class `k` characters that begins at `pos` ends.
pub open spec fn run_end(t: Seq<char>, pos: int, k: Cc) -> int
    decreases t.len() - pos,
    when 0 <= pos <= t.len()
{
    if pos < t.len() && cc_holds(k, t[pos]) {
        run_end(t, pos + 1, k)
    } else {
        pos
    }
}

pub proof fn lemma_run_end(t: Seq<char>, pos: int, k: Cc)
    requires
        0 <= pos <= t.len(),
    ensures
        pos <= run_end(t, pos, k) <= t.len(),
        forall|i: int| pos <= i < run_end(t, pos, k) ==> cc_holds(k, t[i]),
        run_end(t, pos, k) < t.len() ==> !cc_holds(k, t[run_end(t, pos, k)]),
    decreases t.len() - pos,
{
    if pos < t.len() && cc_holds(k, t[pos]) {
        lemma_run_end(t, pos + 1, k);
    }
}

/// Scans past the run of class `k` characters that begins at `pos`.
pub fn scan(t: &Vec<char>, pos: usize, k: Cc) -> (r: usize)
    requires
        pos <= t.len(),
    ensures
        r as int == run_end(t@, pos as int, k),
        pos <= r <= t.len(),
{
    let mut i: usize = pos;
    while i < t.len() && cc_check(k, t[i])
        invariant
            pos <= i <= t.len(),
            run_end(t@, pos as int, k) == run_end(t@, i as int, k),
        decreases t.len() - i,
    {
        i = i + 1;
    }
    i
}

/// The first occurrence of `c` at or after `pos`.
pub open spec fn find_char(t: Seq<char>, pos: int, c: char) -> Option<int>
    decreases t.len() - pos,
    when 0 <= pos <= t.len()
{
    if pos >= t.len() {
        None
    } else if t[pos] == c {
        Some(pos)
    } else {
        find_char(t, pos + 1, c)
    }
}

pub proof fn lemma_find_char(t: Seq<char>, pos: int, c: char)
    requires
        0 <= pos <= t.len(),
    ensures
        match find_char(t, pos, c) {
            Some(i) => pos <= i < t.len() && t[i] == c && (forall|j: int|
                pos <= j < i ==> t[j] != c),
            None => forall|j: int| pos <= j < t.len() ==> t[j] != c,
        },
    decreases t.len() - pos,
{
    if pos < t.len() && t[pos] != c {
        lemma_find_char(t, pos + 1, c);
    }
}

/// Finds the first occurrence of `c` at or after `pos`.
pub fn find(t: &Vec<char>, pos: usize, c: char) -> (r: Option<usize>)
    requires
        pos <= t.len(),
    ensures
        match r {
            Some(i) => find_char(t@, pos as int, c) == Some(i as int) && pos <= i < t.len(),
            None => find_char(t@, pos as int, c) is None,
        },
{
    let mut i: usize = pos;
    while i < t.len()
        invariant
            pos <= i <= t.len(),
            find_char(t@, pos as int, c) == find_char(t@, i as int, c),
        decreases t.len() - i,
    {
        if t[i] == c {
            return Some(i);
        }
        i = i + 1;
    }
    None
}

/// Whether the pattern `pat` occurs in `t` starting exactly at `pos`.
pub open spec fn match_at(t: Seq<char>, pos: int, pat: Seq<char>) -> bool {
    &&& 0 <= pos
    &&& pos + pat.len() <= t.len()
    &&& (forall|j: int| 0 <= j < pat.len() ==> t[pos + j] == pat[j])
}

/// Whether the literal `pat` occurs in `t` starting exactly at `pos`.
pub fn tag_at(t: &Vec<char>, pos: usize, pat: &str) -> (r: bool)
    requires
        pos <= t.len(),
    ensures
        r == match_at(t@, pos as int, pat@),
{
    let m = pat.unicode_len();
    if m > t.len() - pos {
        return false;
    }
    let mut j: usize = 0;
    while j < m
        invariant
            0 <= j <= m,
            m == pat@.len(),
            pos + m <= t.len(),
            forall|i: int| 0 <= i < j ==> t@[pos + i] == pat@[i],
        decreases m - j,
    {
        if t[pos + j] != pat.get_char(j) {
            assert(t@[pos + j] != pat@[j as int]);
            return false;
        }
        j = j + 1;
    }
    true
}

/// The first position at or after `pos` where `pat` occurs.
pub open spec fn find_str(t: Seq<char>, pos: int, pat: Seq<char>) -> Option<int>
    decreases t.len() - pos,
    when 0 <= pos <= t.len()
{
    if pos + pat.len() > t.len() {
        None
    } else if match_at(t, pos, pat) {
        Some(pos)
    } else {
        find_str(t, pos + 1, pat)
    }
}

pub proof fn lemma_find_str(t: Seq<char>, pos: int, pat: Seq<char>)
    requires
        0 <= pos <= t.len(),
    ensures
        match find_str(t, pos, pat) {
            Some(i) => pos <= i && i + pat.len() <= t.len() && match_at(t, i, pat) && (forall|
                j: int,
            |
                pos <= j < i ==> !match_at(t, j, pat)),
            None => forall|j: int| pos <= j ==> !match_at(t, j, pat),
        },
    decreases t.len() - pos,
{
    if pos + pat.len() > t.len() {
        assert forall|j: int| pos <= j implies !match_at(t, j, pat) by {}
    } else if !match_at(t, pos, pat) {
        lemma_find_str(t, pos + 1, pat);
    }
}

/// Finds the first position at or after `pos` where the literal `pat` occurs.
pub fn find_sub(t: &Vec<char>, pos: usize, pat: &str) -> (r: Option<usize>)
    requires
        pos <= t.len(),
    ensures
        match r {
            Some(i) => find_str(t@, pos as int, pat@) == Some(i as int) && pos <= i && i
                + pat@.len() <= t.len(),
            None => find_str(t@, pos as int, pat@) is None,
        },
{
    let m = pat.unicode_len();
    if m == 0 {
        assert(match_at(t@, pos as int, pat@));
        return Some(pos);
    }
    if m > t.len() || pos > t.len() - m {
        proof {
            lemma_find_str_short(t@, pos as int, pat@);
        }
        return None;
    }
    let limit = t.len() - m;
    let mut i: usize = pos;
    while i <= limit
        invariant
            pos <= i <= limit + 1,
            limit + m == t.len(),
            m == pat@.len(),
            1 <= m,
            find_str(t@, pos as int, pat@) == find_str(t@, i as int, pat@),
        decreases limit + 1 - i,
    {
        if tag_at(t, i, pat) {
            return Some(i);
        }
        i = i + 1;
    }
    None
}

proof fn lemma_find_str_short(t: Seq<char>, pos: int, pat: Seq<char>)
    requires
        0 <= pos <= t.len(),
        pos + pat.len() > t.len(),
    ensures
        find_str(t, pos, pat) is None,
{
}

/// The first position at or after `pos` where the character `a` is
/// immediately followed by `b`.
pub open spec fn find_pair_at(t: Seq<char>, pos: int, a: char, b: char) -> Option<int>
    decreases t.len() - pos,
    when 0 <= pos <= t.len()
{
    if pos + 2 > t.len() {
        None
    } else if t[pos] == a && t[pos + 1] == b {
        Some(pos)
    } else {
        find_pair_at(t, pos + 1, a, b)
    }
}

pub proof fn lemma_find_pair(t: Seq<char>, pos: int, a: char, b: char)
    requires
        0 <= pos <= t.len(),
    ensures
        match find_pair_at(t, pos, a, b) {
            Some(i) => pos <= i && i + 2 <= t.len() && t[i] == a && t[i + 1] == b,
            None => true,
        },
    decreases t.len() - pos,
{
    if pos + 2 <= t.len() && !(t[pos] == a && t[pos + 1] == b) {
        lemma_find_pair(t, pos + 1, a, b);
    }
}

/// Finds the first position at or after `pos` where `a` is immediately
/// followed by `b`.
pub fn find_pair(t: &Vec<char>, pos: usize, a: char, b: char) -> (r: Option<usize>)
    requires
        pos <= t.len(),
    ensures
        match r {
            Some(i) => find_pair_at(t@, pos as int, a, b) == Some(i as int) && pos <= i && i + 2
                <= t.len(),
            None => find_pair_at(t@, pos as int, a, b) is None,
        },
{
    if t.len() < 2 || pos > t.len() - 2 {
        return None;
    }
    let limit = t.len() - 2;
    let mut i: usize = pos;
    while i <= limit
        invariant
            pos <= i <= limit + 1,
            limit + 2 == t.len(),
            find_pair_at(t@, pos as int, a, b) == find_pair_at(t@, i as int, a, b),
        decreases limit + 1 - i,
    {
        if t[i] == a && t[i + 1] == b {
            return Some(i);
        }
        i = i + 1;
    }
    None
}

/// The length of a literal, counted in characters.
pub fn tag_len(pat: &str) -> (n: usize)
    ensures
        n == pat@.len(),
{
    pat.unicode_len()
}

/// The deep view of a vector, element by element.
pub proof fn lemma_vec_deep_view<T: DeepView>(v: &Vec<T>)
    ensures
        v.deep_view().len() == v@.len(),
        forall|i: int| 0 <= i < v@.len() ==> v.deep_view()[i] == v@[i].deep_view(),
{
}

/// Inserting at the front of a vector puts one element before the deep view
/// of the rest.
pub proof fn lemma_deep_view_insert0<T: DeepView>(v0: Vec<T>, v1: Vec<T>, x: T)
    requires
        v1@ == v0@.insert(0, x),
    ensures
        v1.deep_view() =~= seq![x.deep_view()] + v0.deep_view(),
{
    lemma_vec_deep_view(&v0);
    lemma_vec_deep_view(&v1);
    assert(v1@.len() == v0@.len() + 1);
    assert forall|k: int| 0 <= k < v1@.len() implies v1.deep_view()[k] == (seq![x.deep_view()]
        + v0.deep_view())[k] by {
        if k == 0 {
            assert(v1@[0] == x);
        } else {
            assert(v1@[k] == v0@[k - 1]);
        }
    }
}

/// Relies on String::push: appends exactly the given character.
#[verifier::external_body]
fn push_char(s: &mut String, c: char)
    ensures
        final(s)@ == old(s)@.push(c),
{
    s.push(c);
}

/// Copies the characters in `[from, to)` into a fresh string.
pub fn extract(t: &Vec<char>, from: usize, to: usize) -> (s: String)
    requires
        from <= to <= t.len(),
    ensures
        s@ =~= t@.subrange(from as int, to as int),
{
    let mut s = String::new();
    let mut i: usize = from;
    while i < to
        invariant
            from <= i <= to <= t.len(),
            s@ =~= t@.subrange(from as int, i as int),
        decreases to - i,
    {
        push_char(&mut s, t[i]);
        i = i + 1;
        assert(s@ =~= t@.subrange(from as int, i as int));
    }
    s
}

/// Where trailing whitespace of the range `[from, to)` begins.
pub open spec fn back_ws_end(t: Seq<char>, from: int, to: int) -> int
    decreases to - from,
    when 0 <= from <= to <= t.len()
{
    if to > from && is_ws(t[to - 1]) {
        back_ws_end(t, from, to - 1)
    } else {
        to
    }
}

/// Where leading whitespace of the range `[from, to)` ends.
pub open spec fn fwd_ws_end(t: Seq<char>, from: int, to: int) -> int
    decreases to - from,
    when 0 <= from <= to <= t.len()
{
    if from < to && is_ws(t[from]) {
        fwd_ws_end(t, from + 1, to)
    } else {
        from
    }
}

/// The range `[from, to)` with leading and trailing whitespace removed.
pub open spec fn spec_trim(t: Seq<char>, from: int, to: int) -> Seq<char> {
    let b = back_ws_end(t, from, to);
    let a = fwd_ws_end(t, from, b);
    t.subrange(a, b)
}

pub proof fn lemma_ws_ends(t: Seq<char>, from: int, to: int)
    requires
        0 <= from <= to <= t.len(),
    ensures
        from <= back_ws_end(t, from, to) <= to,
        from <= fwd_ws_end(t, from, to) <= to,
    decreases to - from,
{
    if to > from && is_ws(t[to - 1]) {
        lemma_ws_ends(t, from, to - 1);
    }
    if from < to && is_ws(t[from]) {
        lemma_ws_ends(t, from + 1, to);
    }
}

/// Copies the characters in `[from, to)` into a fresh string, dropping
/// leading and trailing whitespace.
pub fn extract_trimmed(t: &Vec<char>, from: usize, to: usize) -> (s: String)
    requires
        from <= to <= t.len(),
    ensures
        s@ =~= spec_trim(t@, from as int, to as int),
{
    let mut b: usize = to;
    while b > from && cc_check(Cc::Ws, t[b - 1])
        invariant
            from <= b <= to <= t.len(),
            back_ws_end(t@, from as int, to as int) == back_ws_end(t@, from as int, b as int),
        decreases b - from,
    {
        b = b - 1;
    }
    assert(back_ws_end(t@, from as int, b as int) == b as int);
    let mut a: usize = from;
    while a < b && cc_check(Cc::Ws, t[a])
        invariant
            from <= a <= b <= t.len(),
            fwd_ws_end(t@, from as int, b as int) == fwd_ws_end(t@, a as int, b as int),
        decreases b - a,
    {
        a = a + 1;
    }
    assert(fwd_ws_end(t@, a as int, b as int) == a as int);
    extract(t, a, b)
}

/// The ranges between commas in `[from, to)`, each trimmed: splitting an
/// empty range yields one empty element, as splitting a text on a separator
/// does.
pub open spec fn spec_split_trim(t: Seq<char>, from: int, to: int) -> Seq<Seq<char>>
    decreases to - from,
    when 0 <= from <= to <= t.len()
{
    match find_char_in(t, from, to, ',') {
        None => seq![spec_trim(t, from, to)],
        Some(i) => if from <= i < to {
            seq![spec_trim(t, from, i)] + spec_split_trim(t, i + 1, to)
        } else {
            seq![]
        },
    }
}

/// The first occurrence of `c` in `[from, to)`.
pub open spec fn find_char_in(t: Seq<char>, from: int, to: int, c: char) -> Option<int>
    decreases to - from,
    when 0 <= from <= to <= t.len()
{
    if from >= to {
        None
    } else if t[from] == c {
        Some(from)
    } else {
        find_char_in(t, from + 1, to, c)
    }
}

pub proof fn lemma_find_char_in(t: Seq<char>, from: int, to: int, c: char)
    requires
        0 <= from <= to <= t.len(),
    ensures
        match find_char_in(t, from, to, c) {
            Some(i) => from <= i < to && t[i] == c && (forall|j: int|
                from <= j < i ==> t[j] != c),
            None => forall|j: int| from <= j < to ==> t[j] != c,
        },
    decreases to - from,
{
    if from < to && t[from] != c {
        lemma_find_char_in(t, from + 1, to, c);
    }
}

pub fn find_in(t: &Vec<char>, from: usize, to: usize, c: char) -> (r: Option<usize>)
    requires
        from <= to <= t.len(),
    ensures
        match r {
            Some(i) => find_char_in(t@, from as int, to as int, c) == Some(i as int) && from <= i
                < to,
            None => find_char_in(t@, from as int, to as int, c) is None,
        },
{
    let mut i: usize = from;
    while i < to
        invariant
            from <= i <= to <= t.len(),
            find_char_in(t@, from as int, to as int, c) == find_char_in(t@, i as int, to as int, c),
        decreases to - i,
    {
        if t[i] == c {
            return Some(i);
        }
        i = i + 1;
    }
    None
}

/// Splits the range `[from, to)` on commas and trims each piece.
pub fn split_trimmed(t: &Vec<char>, from: usize, to: usize) -> (v: Vec<String>)
    requires
        from <= to <= t.len(),
    ensures
        v.deep_view() =~= spec_split_trim(t@, from as int, to as int),
    decreases to - from,
{
    match find_in(t, from, to, ',') {
        None => {
            let mut v: Vec<String> = Vec::new();
            let piece = extract_trimmed(t, from, to);
            v.push(piece);
            proof {
                lemma_vec_deep_view(&v);
                assert(v.deep_view() =~= seq![spec_trim(t@, from as int, to as int)]);
            }
            v
        },
        Some(i) => {
            let piece = extract_trimmed(t, from, i);
            let mut v: Vec<String> = Vec::new();
            v.push(piece);
            let rest = split_trimmed(t, i + 1, to);
            let mut j: usize = 0;
            let rest_len = rest.len();
            proof {
                lemma_vec_deep_view(&v);
                lemma_vec_deep_view(&rest);
            }
            while j < rest_len
                invariant
                    0 <= j <= rest_len,
                    rest_len == rest.len(),
                    from <= i < to <= t.len(),
                    v.len() == 1 + j,
                    rest.deep_view() =~= spec_split_trim(t@, i + 1, to as int),
                    v.deep_view() =~= seq![spec_trim(t@, from as int, i as int)]
                        + rest.deep_view().subrange(0, j as int),
                decreases rest_len - j,
            {
                let s = rest[j].clone();
                proof {
                    lemma_vec_deep_view(&rest);
                    assert(s@ == rest.deep_view()[j as int]);
                }
                let ghost v0 = v;
                v.push(s);
                j = j + 1;
                proof {
                    let head = seq![spec_trim(t@, from as int, i as int)];
                    let jj = j as int;
                    lemma_vec_deep_view(&v);
                    lemma_vec_deep_view(&v0);
                    lemma_vec_deep_view(&rest);
                    assert(v@ == v0@.push(s));
                    assert(v.deep_view().len() == 1 + jj);
                    assert forall|m: int| 0 <= m < 1 + jj implies v.deep_view()[m] == (head
                        + rest.deep_view().subrange(0, jj))[m] by {
                        if m == jj {
                            assert(v@[m] == s);
                            assert((head + rest.deep_view().subrange(0, jj))[m]
                                == rest.deep_view()[jj - 1]);
                        } else {
                            assert(v@[m] == v0@[m]);
                            assert(v.deep_view()[m] == v0.deep_view()[m]);
                            if m >= 1 {
                                assert(v0.deep_view()[m] == rest.deep_view()[m - 1]);
                                assert((head + rest.deep_view().subrange(0, jj))[m]
                                    == rest.deep_view()[m - 1]);
                            }
                        }
                    }
                    assert(v.deep_view() =~= head + rest.deep_view().subrange(0, jj));
                }
            }
            proof {
                assert(rest.deep_view().subrange(0, rest_len as int) =~= rest.deep_view());
                assert(v.deep_view() =~= seq![spec_trim(t@, from as int, i as int)]
                    + spec_split_trim(t@, i + 1, to as int));
            }
            v
        },
    }
}

proof fn lemma_find_char_in_first(t: Seq<char>, from: int, to: int, k: int, c: char)
    requires
        0 <= from <= k < to <= t.len(),
        t[k] == c,
        forall|j: int| from <= j < k ==> t[j] != c,
    ensures
        find_char_in(t, from, to, c) == Some(k),
    decreases k - from,
{
    if from < k {
        lemma_find_char_in_first(t, from + 1, to, k, c);
    }
}

proof fn lemma_back_ws_frame(t1: Seq<char>, f1: int, t2: Seq<char>, f2: int, len: int)
    requires
        0 <= f1,
        0 <= f2,
        0 <= len,
        f1 + len <= t1.len(),
        f2 + len <= t2.len(),
        forall|d: int| 0 <= d < len ==> #[trigger] t1[f1 + d] == t2[f2 + d],
    ensures
        back_ws_end(t1, f1, f1 + len) - f1 == back_ws_end(t2, f2, f2 + len) - f2,
    decreases len,
{
    if len > 0 {
        assert(t1[f1 + (len - 1)] == t2[f2 + (len - 1)]);
    }
    if len > 0 && is_ws(t1[f1 + len - 1]) {
        lemma_back_ws_frame(t1, f1, t2, f2, len - 1);
    }
}

proof fn lemma_fwd_ws_frame(t1: Seq<char>, f1: int, t2: Seq<char>, f2: int, len: int)
    requires
        0 <= f1,
        0 <= f2,
        0 <= len,
        f1 + len <= t1.len(),
        f2 + len <= t2.len(),
        forall|d: int| 0 <= d < len ==> #[trigger] t1[f1 + d] == t2[f2 + d],
    ensures
        fwd_ws_end(t1, f1, f1 + len) - f1 == fwd_ws_end(t2, f2, f2 + len) - f2,
    decreases len,
{
    if len > 0 {
        assert(t1[f1 + 0] == t2[f2 + 0]);
    }
    if len > 0 && is_ws(t1[f1]) {
        assert forall|d: int| 0 <= d < len - 1 implies #[trigger] t1[f1 + 1 + d] == t2[f2 + 1
            + d] by {
            assert(t1[f1 + (d + 1)] == t2[f2 + (d + 1)]);
        }
        lemma_fwd_ws_frame(t1, f1 + 1, t2, f2 + 1, len - 1);
    }
}

/// Trimming reads only the characters of the range: equal text trims
/// equally wherever it stands.
pub proof fn lemma_trim_frame(t1: Seq<char>, f1: int, t2: Seq<char>, f2: int, len: int)
    requires
        0 <= f1,
        0 <= f2,
        0 <= len,
        f1 + len <= t1.len(),
        f2 + len <= t2.len(),
        forall|d: int| 0 <= d < len ==> #[trigger] t1[f1 + d] == t2[f2 + d],
    ensures
        spec_trim(t1, f1, f1 + len) =~= spec_trim(t2, f2, f2 + len),
{
    lemma_back_ws_frame(t1, f1, t2, f2, len);
    lemma_ws_ends(t1, f1, f1 + len);
    lemma_ws_ends(t2, f2, f2 + len);
    let blen = back_ws_end(t1, f1, f1 + len) - f1;
    assert(back_ws_end(t2, f2, f2 + len) == f2 + blen);
    lemma_fwd_ws_frame(t1, f1, t2, f2, blen);
    lemma_ws_ends(t1, f1, f1 + blen);
    lemma_ws_ends(t2, f2, f2 + blen);
    let a = fwd_ws_end(t1, f1, f1 + blen) - f1;
    assert(fwd_ws_end(t2, f2, f2 + blen) == f2 + a);
    assert forall|d: int| 0 <= d < blen - a implies #[trigger] t1.subrange(f1 + a, f1 + blen)[d]
        == t2.subrange(f2 + a, f2 + blen)[d] by {
        assert(t1[f1 + (a + d)] == t2[f2 + (a + d)]);
    }
    assert(t1.subrange(f1 + a, f1 + blen) =~= t2.subrange(f2 + a, f2 + blen));
}

proof fn lemma_find_char_in_frame(t1: Seq<char>, f1: int, t2: Seq<char>, f2: int, len: int, c: char)
    requires
        0 <= f1,
        0 <= f2,
        0 <= len,
        f1 + len <= t1.len(),
        f2 + len <= t2.len(),
        forall|d: int| 0 <= d < len ==> #[trigger] t1[f1 + d] == t2[f2 + d],
    ensures
        match find_char_in(t1, f1, f1 + len, c) {
            None => find_char_in(t2, f2, f2 + len, c) is None,
            Some(i) => find_char_in(t2, f2, f2 + len, c) == Some(f2 + (i - f1)),
        },
    decreases len,
{
    if len > 0 {
        assert(t1[f1 + 0] == t2[f2 + 0]);
    }
    if len > 0 && t1[f1] != c {
        assert forall|d: int| 0 <= d < len - 1 implies #[trigger] t1[f1 + 1 + d] == t2[f2 + 1
            + d] by {
            assert(t1[f1 + (d + 1)] == t2[f2 + (d + 1)]);
        }
        lemma_find_char_in_frame(t1, f1 + 1, t2, f2 + 1, len - 1, c);
    }
}

/// Splitting reads only the characters of the range: equal text splits
/// equally wherever it stands.
pub proof fn lemma_split_frame(t1: Seq<char>, f1: int, t2: Seq<char>, f2: int, len: int)
    requires
        0 <= f1,
        0 <= f2,
        0 <= len,
        f1 + len <= t1.len(),
        f2 + len <= t2.len(),
        forall|d: int| 0 <= d < len ==> #[trigger] t1[f1 + d] == t2[f2 + d],
    ensures
        spec_split_trim(t1, f1, f1 + len) =~= spec_split_trim(t2, f2, f2 + len),
    decreases len,
{
    lemma_find_char_in_frame(t1, f1, t2, f2, len, ',');
    lemma_find_char_in(t1, f1, f1 + len, ',');
    match find_char_in(t1, f1, f1 + len, ',') {
        None => {
            lemma_trim_frame(t1, f1, t2, f2, len);
        },
        Some(i) => {
            lemma_trim_frame(t1, f1, t2, f2, i - f1);
            assert forall|d: int| 0 <= d < len - (i - f1) - 1 implies #[trigger] t1[i + 1 + d]
                == t2[f2 + (i - f1) + 1 + d] by {
                assert(t1[f1 + (i - f1 + 1 + d)] == t2[f2 + (i - f1 + 1 + d)]);
            }
            lemma_split_frame(t1, i + 1, t2, f2 + (i - f1) + 1, len - (i - f1) - 1);
        },
    }
}

/// The text of `parts` joined with single commas.
pub open spec fn join_commas(parts: Seq<Seq<char>>) -> Seq<char>
    decreases parts.len(),
{
    if parts.len() == 0 {
        Seq::empty()
    } else if parts.len() == 1 {
        parts[0]
    } else {
        parts[0] + seq![','] + join_commas(parts.drop_first())
    }
}

/// A comma-separated list survives its split whatever its length: joining
/// comma-free names with commas and splitting the result on commas yields
/// exactly those names, each trimmed of surrounding whitespace.
pub proof fn lemma_split_join(parts: Seq<Seq<char>>)
    requires
        parts.len() >= 1,
        forall|i: int, j: int|
            0 <= i < parts.len() && 0 <= j < parts[i].len() ==> parts[i][j] != ',',
    ensures
        ({
            let t = join_commas(parts);
            spec_split_trim(t, 0, t.len() as int) =~= parts.map_values(
                |p: Seq<char>| spec_trim(p, 0, p.len() as int),
            )
        }),
    decreases parts.len(),
{
    let t = join_commas(parts);
    let n = t.len() as int;
    if parts.len() == 1 {
        assert(t == parts[0]);
        lemma_find_char_in(t, 0, n, ',');
        match find_char_in(t, 0, n, ',') {
            Some(i) => {
                assert(t[i] == ',');
                assert(parts[0][i] != ',');
                assert(false);
            },
            None => {},
        }
        assert(spec_split_trim(t, 0, n) =~= seq![spec_trim(t, 0, n)]);
        assert(parts.map_values(|p: Seq<char>| spec_trim(p, 0, p.len() as int)) =~= seq![
            spec_trim(parts[0], 0, parts[0].len() as int),
        ]);
    } else {
        let rest = parts.drop_first();
        let k = parts[0].len() as int;
        assert(t == parts[0] + seq![','] + join_commas(rest));
        assert(t[k] == ',');
        assert(forall|j: int| 0 <= j < k ==> t[j] == parts[0][j]);
        lemma_find_char_in_first(t, 0, n, k, ',');
        lemma_trim_frame(t, 0, parts[0], 0, k);
        assert(forall|d: int| 0 <= d < n - k - 1 ==> #[trigger] t[k + 1 + d] == join_commas(rest)[d]);
        lemma_split_frame(t, k + 1, join_commas(rest), 0, n - k - 1);
        assert(forall|i: int, j: int|
            0 <= i < rest.len() && 0 <= j < rest[i].len() ==> rest[i][j] != ',');
        lemma_split_join(rest);
        let mapped = parts.map_values(|p: Seq<char>| spec_trim(p, 0, p.len() as int));
        assert(spec_split_trim(t, 0, n) =~= seq![spec_trim(t, 0, k)] + spec_split_trim(
            t,
            k + 1,
            n,
        ));
        assert(spec_split_trim(t, 0, n) =~= mapped);
    }
}

/// Converts the text into its sequence of characters.
pub fn str_chars(s: &str) -> (t: Vec<char>)
    ensures
        t@ =~= s@,
{
    let n = s.unicode_len();
    let mut t: Vec<char> = Vec::new();
    let mut i: usize = 0;
    while i < n
        invariant
            0 <= i <= n,
            n == s@.len(),
            t@ =~= s@.subrange(0, i as int),
        decreases n - i,
    {
        t.push(s.get_char(i));
        i = i + 1;
        assert(t@ =~= s@.subrange(0, i as int));
    }
    assert(t@ =~= s@);
    t
}

} // verus!
