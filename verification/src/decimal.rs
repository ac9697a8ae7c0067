//! Numeric literals: decimal and hexadecimal integers, and decimal numbers
//! with optional fraction and scientific-notation exponent, held exactly as a
//! sign, an integer mantissa and a power of ten.

use crate::text::{find_char_in, is_digit, is_hex_digit};
use vstd::arithmetic::div_mod::lemma_fundamental_div_mod;
use vstd::prelude::*;

verus! {

/// The value of one decimal digit.
pub open spec fn digit_int(c: char) -> int {
    c as int - '0' as int
}

/// The value of one hexadecimal digit.
pub open spec fn hex_digit_int(c: char) -> int {
    if is_digit(c) {
        c as int - '0' as int
    } else if 'a' <= c && c <= 'f' {
        c as int - 'a' as int + 10
    } else {
        c as int - 'A' as int + 10
    }
}

/// The value of a sequence of decimal digits, most significant first.
pub open spec fn dec_val(s: Seq<char>) -> int
    decreases s.len(),
{
    if s.len() == 0 {
        0
    } else {
        dec_val(s.drop_last()) * 10 + digit_int(s.last())
    }
}

/// The value of a sequence of hexadecimal digits, most significant first.
pub open spec fn hex_val(s: Seq<char>) -> int
    decreases s.len(),
{
    if s.len() == 0 {
        0
    } else {
        hex_val(s.drop_last()) * 16 + hex_digit_int(s.last())
    }
}

/// Every character in `[from, to)` is a decimal digit.
pub open spec fn digits_in(t: Seq<char>, from: int, to: int) -> bool {
    forall|i: int| from <= i < to ==> is_digit(t[i])
}

/// Every character in `[from, to)` is a hexadecimal digit.
pub open spec fn hex_digits_in(t: Seq<char>, from: int, to: int) -> bool {
    forall|i: int| from <= i < to ==> is_hex_digit(t[i])
}

pub proof fn lemma_dec_val_nonneg(s: Seq<char>)
    requires
        forall|i: int| 0 <= i < s.len() ==> is_digit(s[i]),
    ensures
        dec_val(s) >= 0,
    decreases s.len(),
{
    if s.len() > 0 {
        assert(forall|i: int| 0 <= i < s.drop_last().len() ==> is_digit(s.drop_last()[i]));
        lemma_dec_val_nonneg(s.drop_last());
    }
}

pub proof fn lemma_hex_val_nonneg(s: Seq<char>)
    requires
        forall|i: int| 0 <= i < s.len() ==> is_hex_digit(s[i]),
    ensures
        hex_val(s) >= 0,
    decreases s.len(),
{
    if s.len() > 0 {
        assert(forall|i: int| 0 <= i < s.drop_last().len() ==> is_hex_digit(s.drop_last()[i]));
        lemma_hex_val_nonneg(s.drop_last());
    }
}

/// Reading more digits never lowers the value: a prefix of a digit string is
/// worth at most the whole.
pub proof fn lemma_dec_val_prefix(s: Seq<char>, k: int)
    requires
        0 <= k <= s.len(),
        forall|i: int| 0 <= i < s.len() ==> is_digit(s[i]),
    ensures
        dec_val(s.subrange(0, k)) <= dec_val(s),
    decreases s.len() - k,
{
    if k < s.len() {
        let p = s.subrange(0, k + 1);
        assert(p.drop_last() =~= s.subrange(0, k));
        assert(forall|i: int| 0 <= i < p.drop_last().len() ==> is_digit(p.drop_last()[i]));
        lemma_dec_val_nonneg(p.drop_last());
        assert(is_digit(p.last()));
        assert(digit_int(p.last()) >= 0);
        assert(dec_val(s.subrange(0, k)) <= dec_val(p));
        lemma_dec_val_prefix(s, k + 1);
    } else {
        assert(s.subrange(0, k) =~= s);
    }
}

pub proof fn lemma_hex_val_prefix(s: Seq<char>, k: int)
    requires
        0 <= k <= s.len(),
        forall|i: int| 0 <= i < s.len() ==> is_hex_digit(s[i]),
    ensures
        hex_val(s.subrange(0, k)) <= hex_val(s),
    decreases s.len() - k,
{
    if k < s.len() {
        let p = s.subrange(0, k + 1);
        assert(p.drop_last() =~= s.subrange(0, k));
        assert(forall|i: int| 0 <= i < p.drop_last().len() ==> is_hex_digit(p.drop_last()[i]));
        lemma_hex_val_nonneg(p.drop_last());
        assert(is_hex_digit(p.last()));
        assert(hex_digit_int(p.last()) >= 0);
        assert(hex_val(s.subrange(0, k)) <= hex_val(p));
        lemma_hex_val_prefix(s, k + 1);
    } else {
        assert(s.subrange(0, k) =~= s);
    }
}

proof fn lemma_acc_step(acc: u64, d: u64, max: u64, base: u64)
    requires
        d <= max,
        acc <= max,
        base == 10 || base == 16,
    ensures
        acc as int <= (max - d) as int / base as int ==> acc as int * base as int + d as int
            <= max as int,
        acc as int > (max - d) as int / base as int ==> acc as int * base as int + d as int
            > max as int,
{
    lemma_fundamental_div_mod((max - d) as int, base as int);
}

/// Evaluates the decimal digits of `[f1, t1)` followed by those of
/// `[f2, t2)` as one number, most significant first. `None` exactly when the
/// value exceeds `max`.
pub fn dec_digits_value(
    t: &Vec<char>,
    f1: usize,
    t1: usize,
    f2: usize,
    t2: usize,
    max: u64,
) -> (r: Option<u64>)
    requires
        f1 <= t1 <= t.len(),
        f2 <= t2 <= t.len(),
        digits_in(t@, f1 as int, t1 as int),
        digits_in(t@, f2 as int, t2 as int),
    ensures
        ({
            let s = t@.subrange(f1 as int, t1 as int) + t@.subrange(f2 as int, t2 as int);
            match r {
                Some(v) => v as int == dec_val(s) && v <= max,
                None => dec_val(s) > max,
            }
        }),
{
    let ghost s = t@.subrange(f1 as int, t1 as int) + t@.subrange(f2 as int, t2 as int);
    proof {
        assert(forall|i: int| 0 <= i < s.len() ==> is_digit(s[i]));
    }
    let mut acc: u64 = 0;
    let mut i: usize = f1;
    while i < t1
        invariant
            f1 <= i <= t1 <= t.len(),
            f2 <= t2 <= t.len(),
            digits_in(t@, f1 as int, t1 as int),
            digits_in(t@, f2 as int, t2 as int),
            s == t@.subrange(f1 as int, t1 as int) + t@.subrange(f2 as int, t2 as int),
            forall|k: int| 0 <= k < s.len() ==> is_digit(s[k]),
            acc <= max,
            acc as int == dec_val(t@.subrange(f1 as int, i as int)),
        decreases t1 - i,
    {
        let c = t[i];
        assert(is_digit(c));
        let d: u64 = (c as u32 - '0' as u32) as u64;
        proof {
            let prev = t@.subrange(f1 as int, i as int);
            let cur = t@.subrange(f1 as int, i + 1);
            assert(cur.drop_last() =~= prev);
            assert(cur.last() == c);
            assert(dec_val(cur) == dec_val(prev) * 10 + digit_int(c));
        }
        if d > max || acc > (max - d) / 10 {
            proof {
                if d <= max {
                    lemma_acc_step(acc, d, max, 10);
                }
                let cur = t@.subrange(f1 as int, i + 1);
                assert(dec_val(cur) > max);
                assert(s.subrange(0, (i + 1 - f1) as int) =~= cur);
                lemma_dec_val_prefix(s, (i + 1 - f1) as int);
            }
            return None;
        }
        proof {
            lemma_acc_step(acc, d, max, 10);
        }
        acc = acc * 10 + d;
        i = i + 1;
    }
    let mut j: usize = f2;
    while j < t2
        invariant
            f2 <= j <= t2 <= t.len(),
            f1 <= t1 <= t.len(),
            digits_in(t@, f1 as int, t1 as int),
            digits_in(t@, f2 as int, t2 as int),
            s == t@.subrange(f1 as int, t1 as int) + t@.subrange(f2 as int, t2 as int),
            forall|k: int| 0 <= k < s.len() ==> is_digit(s[k]),
            acc <= max,
            acc as int == dec_val(
                t@.subrange(f1 as int, t1 as int) + t@.subrange(f2 as int, j as int),
            ),
        decreases t2 - j,
    {
        let c = t[j];
        assert(is_digit(c));
        let d: u64 = (c as u32 - '0' as u32) as u64;
        proof {
            let prev = t@.subrange(f1 as int, t1 as int) + t@.subrange(f2 as int, j as int);
            let cur = t@.subrange(f1 as int, t1 as int) + t@.subrange(f2 as int, j + 1);
            assert(cur.drop_last() =~= prev);
            assert(cur.last() == c);
            assert(dec_val(cur) == dec_val(prev) * 10 + digit_int(c));
        }
        if d > max || acc > (max - d) / 10 {
            proof {
                if d <= max {
                    lemma_acc_step(acc, d, max, 10);
                }
                let cur = t@.subrange(f1 as int, t1 as int) + t@.subrange(f2 as int, j + 1);
                assert(dec_val(cur) > max);
                assert(s.subrange(0, (t1 - f1) + (j + 1 - f2)) =~= cur);
                lemma_dec_val_prefix(s, (t1 - f1) + (j + 1 - f2));
            }
            return None;
        }
        proof {
            lemma_acc_step(acc, d, max, 10);
        }
        acc = acc * 10 + d;
        j = j + 1;
    }
    proof {
        assert(t@.subrange(f2 as int, t2 as int) =~= t@.subrange(f2 as int, j as int));
    }
    Some(acc)
}

/// Evaluates the hexadecimal digits of `[from, to)`, most significant first.
/// `None` exactly when the value exceeds `max`.
pub fn hex_digits_value(t: &Vec<char>, from: usize, to: usize, max: u64) -> (r: Option<u64>)
    requires
        from <= to <= t.len(),
        hex_digits_in(t@, from as int, to as int),
    ensures
        ({
            let s = t@.subrange(from as int, to as int);
            match r {
                Some(v) => v as int == hex_val(s) && v <= max,
                None => hex_val(s) > max,
            }
        }),
{
    let ghost s = t@.subrange(from as int, to as int);
    proof {
        assert(forall|i: int| 0 <= i < s.len() ==> is_hex_digit(s[i]));
    }
    let mut acc: u64 = 0;
    let mut i: usize = from;
    while i < to
        invariant
            from <= i <= to <= t.len(),
            hex_digits_in(t@, from as int, to as int),
            s == t@.subrange(from as int, to as int),
            forall|k: int| 0 <= k < s.len() ==> is_hex_digit(s[k]),
            acc <= max,
            acc as int == hex_val(t@.subrange(from as int, i as int)),
        decreases to - i,
    {
        let c = t[i];
        assert(is_hex_digit(c));
        let d: u64 = if '0' <= c && c <= '9' {
            (c as u32 - '0' as u32) as u64
        } else if 'a' <= c && c <= 'f' {
            (c as u32 - 'a' as u32 + 10) as u64
        } else {
            (c as u32 - 'A' as u32 + 10) as u64
        };
        assert(d as int == hex_digit_int(c));
        proof {
            let prev = t@.subrange(from as int, i as int);
            let cur = t@.subrange(from as int, i + 1);
            assert(cur.drop_last() =~= prev);
            assert(cur.last() == c);
            assert(hex_val(cur) == hex_val(prev) * 16 + hex_digit_int(c));
        }
        if d > max || acc > (max - d) / 16 {
            proof {
                if d <= max {
                    lemma_acc_step(acc, d, max, 16);
                }
                let cur = t@.subrange(from as int, i + 1);
                assert(hex_val(cur) > max);
                assert(s.subrange(0, i + 1 - from) =~= cur);
                lemma_hex_val_prefix(s, i + 1 - from);
            }
            return None;
        }
        proof {
            lemma_acc_step(acc, d, max, 16);
        }
        acc = acc * 16 + d;
        i = i + 1;
    }
    Some(acc)
}

/// Ten to the power `k`.
pub open spec fn pow10(k: nat) -> int
    decreases k,
{
    if k == 0 {
        1
    } else {
        10 * pow10((k - 1) as nat)
    }
}

pub proof fn lemma_pow10_pos(k: nat)
    ensures
        pow10(k) >= 1,
    decreases k,
{
    if k > 0 {
        lemma_pow10_pos((k - 1) as nat);
    }
}

pub proof fn lemma_pow10_mono(j: nat, k: nat)
    requires
        j <= k,
    ensures
        pow10(j) <= pow10(k),
    decreases k,
{
    if j < k {
        lemma_pow10_mono(j, (k - 1) as nat);
        lemma_pow10_pos((k - 1) as nat);
    }
}

pub proof fn lemma_pow10_add(a: nat, b: nat)
    ensures
        pow10(a + b) == pow10(a) * pow10(b),
    decreases a,
{
    if a == 0 {
    } else {
        lemma_pow10_add((a - 1) as nat, b);
        assert((a + b) == ((a - 1) as nat + b) + 1);
        assert(pow10(a + b) == 10 * pow10((a - 1) as nat + b));
        assert(10 * (pow10((a - 1) as nat) * pow10(b)) == (10 * pow10((a - 1) as nat)) * pow10(
            b,
        )) by (nonlinear_arith);
    }
}

/// A decimal number held exactly: `mantissa` times ten to `exp10`, negated
/// when `negative` holds. Always kept normalized: zero is stored as
/// `(false, 0, 0)`, and a nonzero mantissa never ends in a zero digit, so
/// two equal numbers are structurally equal.
#[derive(Debug, Clone, Copy, PartialEq, Eq)]
pub struct LdfNumber {
    pub negative: bool,
    pub mantissa: u64,
    pub exp10: i32,
}

/// The normalization invariant of `LdfNumber`.
pub open spec fn dec_wf(d: LdfNumber) -> bool {
    if d.mantissa == 0 {
        !d.negative && d.exp10 == 0
    } else {
        d.mantissa % 10 != 0
    }
}

/// The normal form of the number `m` times ten to `e`, negated when `neg`.
pub open spec fn spec_norm(neg: bool, m: nat, e: int) -> LdfNumber
    decreases m,
{
    if m == 0 {
        LdfNumber { negative: false, mantissa: 0, exp10: 0 }
    } else if m % 10 == 0 {
        spec_norm(neg, m / 10, e + 1)
    } else {
        LdfNumber { negative: neg, mantissa: m as u64, exp10: e as i32 }
    }
}

/// Builds the normalized decimal for `m` times ten to `e`.
fn norm_decimal(neg: bool, m: u64, e: i64) -> (d: LdfNumber)
    requires
        -0x0400_0000 <= e <= 0x0400_0000,
    ensures
        d == spec_norm(neg, m as nat, e as int),
        dec_wf(d),
{
    let mut mm: u64 = m;
    let mut ee: i64 = e;
    while mm != 0 && mm % 10 == 0
        invariant
            -0x0400_0000 <= e <= 0x0400_0000,
            e <= ee,
            spec_norm(neg, m as nat, e as int) == spec_norm(neg, mm as nat, ee as int),
            mm as int * pow10((ee - e) as nat) == m as int,
        decreases mm,
    {
        proof {
            if ee - e >= 20 {
                reveal_with_fuel(pow10, 21);
                lemma_pow10_mono(20, (ee - e) as nat);
                assert(mm as int * pow10((ee - e) as nat) >= pow10((ee - e) as nat))
                    by (nonlinear_arith)
                    requires
                        mm as int >= 1,
                        pow10((ee - e) as nat) >= 1,
                ;
                assert(false);
            }
            lemma_fundamental_div_mod(mm as int, 10);
            let q = mm as int / 10;
            let p = pow10((ee - e) as nat);
            assert(pow10((ee + 1 - e) as nat) == 10 * p);
            assert(q * (10 * p) == (q * 10) * p) by (nonlinear_arith);
        }
        mm = mm / 10;
        ee = ee + 1;
    }
    proof {
        if mm != 0 && ee - e >= 20 {
            reveal_with_fuel(pow10, 21);
            lemma_pow10_mono(20, (ee - e) as nat);
            assert(mm as int * pow10((ee - e) as nat) >= pow10((ee - e) as nat))
                by (nonlinear_arith)
                requires
                    mm as int >= 1,
                    pow10((ee - e) as nat) >= 1,
            ;
            assert(false);
        }
    }
    if mm == 0 {
        LdfNumber { negative: false, mantissa: 0, exp10: 0 }
    } else {
        LdfNumber { negative: neg, mantissa: mm, exp10: ee as i32 }
    }
}

/// The magnitude of `d` in bits per second when `d` is read as a count of
/// kilobits per second: the exact product with 1000, rounded down.
pub open spec fn spec_speed_bps(d: LdfNumber) -> int {
    if d.exp10 + 3 >= 0 {
        d.mantissa as int * pow10((d.exp10 + 3) as nat)
    } else {
        d.mantissa as int / pow10((-(d.exp10 + 3)) as nat)
    }
}

/// `spec_speed_bps` capped at the largest 16-bit value, as the header's
/// speed field holds it.
pub open spec fn spec_speed_u16(d: LdfNumber) -> u16 {
    if spec_speed_bps(d) > 0xffff {
        0xffff
    } else {
        spec_speed_bps(d) as u16
    }
}

/// Converts a kilobits-per-second reading to bits per second.
pub fn speed_bps(d: &LdfNumber) -> (r: u16)
    ensures
        r == spec_speed_u16(*d),
{
    let e3: i64 = d.exp10 as i64 + 3;
    if e3 >= 0 {
        let mut acc: u64 = d.mantissa;
        let mut k: i64 = 0;
        while k < e3
            invariant
                0 <= k <= e3,
                e3 == d.exp10 as int + 3,
                acc as int == d.mantissa as int * pow10(k as nat),
            decreases e3 - k,
        {
            if acc > 0xffff {
                proof {
                    lemma_pow10_add(k as nat, (e3 - k) as nat);
                    lemma_pow10_pos((e3 - k) as nat);
                    assert(d.mantissa as int * pow10(e3 as nat) == acc as int * pow10(
                        (e3 - k) as nat,
                    )) by (nonlinear_arith)
                        requires
                            pow10(e3 as nat) == pow10(k as nat) * pow10((e3 - k) as nat),
                            acc as int == d.mantissa as int * pow10(k as nat),
                    ;
                    assert(acc as int * pow10((e3 - k) as nat) >= acc as int) by (nonlinear_arith)
                        requires
                            acc as int > 0xffff,
                            pow10((e3 - k) as nat) >= 1,
                    ;
                }
                return 0xffff;
            }
            proof {
                assert(pow10((k + 1) as nat) == 10 * pow10(k as nat));
                assert((d.mantissa as int * pow10(k as nat)) * 10 == d.mantissa as int * (10
                    * pow10(k as nat))) by (nonlinear_arith);
            }
            acc = acc * 10;
            k = k + 1;
        }
        if acc > 0xffff {
            0xffff
        } else {
            acc as u16
        }
    } else {
        let steps: i64 = -e3;
        let mut acc: u64 = d.mantissa;
        let mut k: i64 = 0;
        while k < steps
            invariant
                0 <= k <= steps,
                e3 == d.exp10 as int + 3,
                steps == -e3,
                acc as int == d.mantissa as int / pow10(k as nat),
            decreases steps - k,
        {
            if acc == 0 {
                proof {
                    lemma_pow10_pos(k as nat);
                    lemma_fundamental_div_mod(d.mantissa as int, pow10(k as nat));
                    vstd::arithmetic::div_mod::lemma_mod_bound(
                        d.mantissa as int,
                        pow10(k as nat),
                    );
                    assert((d.mantissa as int) < pow10(k as nat));
                    lemma_pow10_mono(k as nat, steps as nat);
                    vstd::arithmetic::div_mod::lemma_basic_div(
                        d.mantissa as int,
                        pow10(steps as nat),
                    );
                }
                return 0u16;
            }
            proof {
                lemma_pow10_pos(k as nat);
                vstd::arithmetic::div_mod::lemma_div_denominator(
                    d.mantissa as int,
                    pow10(k as nat),
                    10,
                );
                assert(pow10((k + 1) as nat) == 10 * pow10(k as nat));
            }
            acc = acc / 10;
            k = k + 1;
        }
        if acc > 0xffff {
            0xffff
        } else {
            acc as u16
        }
    }
}

/// The first exponent marker (`e` or `E`) in `[from, to)`.
pub open spec fn find_e_in(t: Seq<char>, from: int, to: int) -> Option<int>
    decreases to - from,
    when 0 <= from <= to <= t.len()
{
    if from >= to {
        None
    } else if t[from] == 'e' || t[from] == 'E' {
        Some(from)
    } else {
        find_e_in(t, from + 1, to)
    }
}

pub proof fn lemma_find_e_in(t: Seq<char>, from: int, to: int)
    requires
        0 <= from <= to <= t.len(),
    ensures
        match find_e_in(t, from, to) {
            Some(i) => from <= i < to && (t[i] == 'e' || t[i] == 'E') && (forall|j: int|
                from <= j < i ==> t[j] != 'e' && t[j] != 'E'),
            None => forall|j: int| from <= j < to ==> t[j] != 'e' && t[j] != 'E',
        },
    decreases to - from,
{
    if from < to && t[from] != 'e' && t[from] != 'E' {
        lemma_find_e_in(t, from + 1, to);
    }
}

fn find_e(t: &Vec<char>, from: usize, to: usize) -> (r: Option<usize>)
    requires
        from <= to <= t.len(),
    ensures
        match r {
            Some(i) => find_e_in(t@, from as int, to as int) == Some(i as int) && from <= i < to,
            None => find_e_in(t@, from as int, to as int) is None,
        },
{
    let mut i: usize = from;
    while i < to
        invariant
            from <= i <= to <= t.len(),
            find_e_in(t@, from as int, to as int) == find_e_in(t@, i as int, to as int),
        decreases to - i,
    {
        if t[i] == 'e' || t[i] == 'E' {
            return Some(i);
        }
        i = i + 1;
    }
    None
}

/// Whether every character of `[from, to)` is a decimal digit.
pub fn check_digits(t: &Vec<char>, from: usize, to: usize) -> (r: bool)
    requires
        from <= to <= t.len(),
    ensures
        r == digits_in(t@, from as int, to as int),
{
    let mut i: usize = from;
    while i < to
        invariant
            from <= i <= to <= t.len(),
            digits_in(t@, from as int, i as int),
        decreases to - i,
    {
        let c = t[i];
        if !('0' <= c && c <= '9') {
            return false;
        }
        i = i + 1;
    }
    true
}

fn check_hex_digits(t: &Vec<char>, from: usize, to: usize) -> (r: bool)
    requires
        from <= to <= t.len(),
    ensures
        r == hex_digits_in(t@, from as int, to as int),
{
    let mut i: usize = from;
    while i < to
        invariant
            from <= i <= to <= t.len(),
            hex_digits_in(t@, from as int, i as int),
        decreases to - i,
    {
        let c = t[i];
        if !(('0' <= c && c <= '9') || ('a' <= c && c <= 'f') || ('A' <= c && c <= 'F')) {
            return false;
        }
        i = i + 1;
    }
    true
}

/// The value of an exponent clause: an optional minus sign, then digits.
/// Magnitudes above one million are refused.
pub open spec fn spec_exp_val(t: Seq<char>, from: int, to: int) -> Option<int> {
    if from >= to {
        None
    } else {
        let eneg = t[from] == '-';
        let a = if eneg {
            from + 1
        } else {
            from
        };
        if a >= to || !digits_in(t, a, to) {
            None
        } else {
            let v = dec_val(t.subrange(a, to));
            if v > 1000000 {
                None
            } else {
                Some(
                    if eneg {
                        -v
                    } else {
                        v
                    },
                )
            }
        }
    }
}

fn exp_val(t: &Vec<char>, from: usize, to: usize) -> (r: Option<i64>)
    requires
        from <= to <= t.len(),
    ensures
        match r {
            Some(v) => spec_exp_val(t@, from as int, to as int) == Some(v as int) && -1000000 <= v
                <= 1000000,
            None => spec_exp_val(t@, from as int, to as int) is None,
        },
{
    if from >= to {
        return None;
    }
    let eneg = t[from] == '-';
    let a: usize = if eneg {
        from + 1
    } else {
        from
    };
    if a >= to {
        return None;
    }
    if !check_digits(t, a, to) {
        return None;
    }
    match dec_digits_value(t, a, to, a, a, 1000000) {
        None => {
            proof {
                assert(t@.subrange(a as int, to as int) + t@.subrange(a as int, a as int)
                    =~= t@.subrange(a as int, to as int));
            }
            None
        },
        Some(v) => {
            proof {
                assert(t@.subrange(a as int, to as int) + t@.subrange(a as int, a as int)
                    =~= t@.subrange(a as int, to as int));
            }
            Some(
                if eneg {
                    -(v as i64)
                } else {
                    v as i64
                },
            )
        },
    }
}

/// The decimal denoted by a mantissa range `[from, to)` (digits with at most
/// one dot) scaled by ten to `ev`.
pub open spec fn spec_from_parts(t: Seq<char>, neg: bool, from: int, to: int, ev: int) -> Option<
    LdfNumber,
> {
    let dot = find_char_in(t, from, to, '.');
    let ib = match dot {
        None => to,
        Some(k) => k,
    };
    let fa = match dot {
        None => to,
        Some(k) => k + 1,
    };
    if !digits_in(t, from, ib) || !digits_in(t, fa, to) || (ib - from) + (to - fa) == 0 {
        None
    } else {
        let mval = dec_val(t.subrange(from, ib) + t.subrange(fa, to));
        if mval > u64::MAX {
            None
        } else {
            Some(spec_norm(neg, mval as nat, ev - (to - fa)))
        }
    }
}

fn from_parts(t: &Vec<char>, neg: bool, from: usize, to: usize, ev: i64) -> (r: Option<LdfNumber>)
    requires
        from <= to <= t.len(),
        to - from <= 0x0100_0000,
        -1000000 <= ev <= 1000000,
    ensures
        r == spec_from_parts(t@, neg, from as int, to as int, ev as int),
        r matches Some(d) ==> dec_wf(d),
{
    let (ib, fa): (usize, usize) = match crate::text::find_in(t, from, to, '.') {
        None => (to, to),
        Some(k) => (k, k + 1),
    };
    proof {
        crate::text::lemma_find_char_in(t@, from as int, to as int, '.');
    }
    if !check_digits(t, from, ib) {
        return None;
    }
    if !check_digits(t, fa, to) {
        return None;
    }
    if (ib - from) + (to - fa) == 0 {
        return None;
    }
    match dec_digits_value(t, from, ib, fa, to, u64::MAX) {
        None => None,
        Some(m) => {
            proof {
                lemma_dec_val_nonneg(t@.subrange(from as int, ib as int) + t@.subrange(
                    fa as int,
                    to as int,
                ));
            }
            let d = norm_decimal(neg, m, ev - (to - fa) as i64);
            Some(d)
        },
    }
}

/// The decimal number denoted by `[from, to)`: an optional minus sign,
/// digits with at most one dot, and an optional exponent clause. This is the
/// exact value that the grammar's scaling factors, offsets and durations
/// carry. Literals longer than two to the twenty-fourth characters are
/// refused, which keeps every exponent inside machine range.
pub open spec fn spec_parse_decimal(t: Seq<char>, from: int, to: int) -> Option<LdfNumber> {
    if from >= to || to - from > 0x0100_0000 {
        None
    } else {
        let neg = t[from] == '-';
        let start = if neg {
            from + 1
        } else {
            from
        };
        match find_e_in(t, start, to) {
            None => spec_from_parts(t, neg, start, to, 0),
            Some(k) => match spec_exp_val(t, k + 1, to) {
                None => None,
                Some(ev) => spec_from_parts(t, neg, start, k, ev),
            },
        }
    }
}

/// Reads the decimal number written in `[from, to)`.
pub fn parse_decimal(t: &Vec<char>, from: usize, to: usize) -> (r: Option<LdfNumber>)
    requires
        from <= to <= t.len(),
    ensures
        r == spec_parse_decimal(t@, from as int, to as int),
        r matches Some(d) ==> dec_wf(d),
{
    if to == from || to - from > 0x0100_0000 {
        return None;
    }
    let neg = t[from] == '-';
    let start: usize = if neg {
        from + 1
    } else {
        from
    };
    match find_e(t, start, to) {
        None => from_parts(t, neg, start, to, 0),
        Some(k) => {
            match exp_val(t, k + 1, to) {
                None => None,
                Some(v) => from_parts(t, neg, start, k, v),
            }
        },
    }
}

/// The count of decimal digits of `m` (zero for zero).
pub open spec fn num10(m: nat) -> nat
    decreases m,
{
    if m == 0 {
        0
    } else {
        1 + num10(m / 10)
    }
}

proof fn lemma_num10_le(m: nat, k: nat)
    requires
        m < pow10(k),
    ensures
        num10(m) <= k,
    decreases m,
{
    if m > 0 {
        if k == 0 {
            assert(pow10(0) == 1);
        }
        assert(k >= 1);
        assert(pow10(k) == 10 * pow10((k - 1) as nat));
        lemma_fundamental_div_mod(m as int, 10);
        assert(((m / 10) as int) < pow10((k - 1) as nat));
        lemma_num10_le(m / 10, (k - 1) as nat);
    }
}

proof fn lemma_num10_u64(m: nat)
    requires
        m <= u64::MAX,
    ensures
        num10(m) <= 20,
{
    assert(pow10(20) > u64::MAX as int) by {
        reveal_with_fuel(pow10, 21);
    }
    lemma_num10_le(m, 20);
}

/// Normalization commutes with shifting the exponent: scaling a number by
/// ten to `x` only moves its normalized exponent by `x`.
pub proof fn lemma_norm_shift(neg: bool, m: nat, e: int, x: int)
    requires
        m <= u64::MAX,
        -0x4000_0000 <= e,
        e + num10(m) <= 0x4000_0000,
    ensures
        spec_norm(neg, m, e + x) == ({
            let d = spec_norm(neg, m, e);
            spec_norm(d.negative, d.mantissa as nat, d.exp10 + x)
        }),
    decreases m,
{
    if m == 0 {
    } else if m % 10 == 0 {
        lemma_fundamental_div_mod(m as int, 10);
        lemma_norm_shift(neg, m / 10, e + 1, x);
    } else {
        assert(num10(m) >= 1);
        let d = spec_norm(neg, m, e);
        assert(d == LdfNumber { negative: neg, mantissa: m as u64, exp10: e as i32 });
        assert(d.mantissa as nat == m);
        assert(d.exp10 as int == e);
    }
}

/// A helper for scientific-notation reasoning: the first exponent marker of
/// a range that is clean up to `k` and marked at `k` is `k` itself.
proof fn lemma_find_e_in_first(t: Seq<char>, from: int, to: int, k: int)
    requires
        0 <= from <= k < to <= t.len(),
        t[k] == 'e' || t[k] == 'E',
        forall|j: int| from <= j < k ==> t[j] != 'e' && t[j] != 'E',
    ensures
        find_e_in(t, from, to) == Some(k),
    decreases k - from,
{
    if from < k {
        lemma_find_e_in_first(t, from + 1, to, k);
    }
}

/// Scientific notation scales the plain mantissa by a power of ten and
/// nothing else: a literal `<mantissa>E<exp>` denotes the mantissa's value
/// with the exponent added onto its power of ten. In particular `1E-05`
/// equals `0.00001` and `1.5E-05` equals `0.000015`.
pub proof fn lemma_scientific_scaling(t: Seq<char>, from: int, to: int, k: int, d: LdfNumber, ev: int)
    requires
        0 <= from < k < to <= t.len(),
        to - from <= 0x0100_0000,
        t[k] == 'e' || t[k] == 'E',
        spec_parse_decimal(t, from, k) == Some(d),
        ({
            let start = if t[from] == '-' {
                from + 1
            } else {
                from
            };
            find_e_in(t, start, k) is None
        }),
        spec_exp_val(t, k + 1, to) == Some(ev),
    ensures
        spec_parse_decimal(t, from, to) == Some(
            spec_norm(d.negative, d.mantissa as nat, d.exp10 + ev),
        ),
{
    let neg = t[from] == '-';
    let start = if neg {
        from + 1
    } else {
        from
    };
    lemma_find_e_in(t, start, k);
    assert(forall|j: int| start <= j < k ==> t[j] != 'e' && t[j] != 'E');
    lemma_find_e_in_first(t, start, to, k);
    assert(find_e_in(t, start, to) == Some(k));
    // Both parses reduce to the same mantissa decomposition; only the
    // exponent handed to normalization differs.
    assert(spec_parse_decimal(t, from, k) == spec_from_parts(t, neg, start, k, 0));
    assert(spec_parse_decimal(t, from, to) == spec_from_parts(t, neg, start, k, ev));
    let dot = find_char_in(t, start, k, '.');
    crate::text::lemma_find_char_in(t, start, k, '.');
    let ib = match dot {
        None => k,
        Some(kk) => kk,
    };
    let fa = match dot {
        None => k,
        Some(kk) => kk + 1,
    };
    assert(start <= ib <= fa <= k);
    let mseq = t.subrange(start, ib) + t.subrange(fa, k);
    assert(digits_in(t, start, ib) && digits_in(t, fa, k));
    let mval = dec_val(mseq);
    assert(mval <= u64::MAX);
    assert(d == spec_norm(neg, mval as nat, 0 - (k - fa)));
    assert forall|i: int| 0 <= i < mseq.len() implies is_digit(mseq[i]) by {
        if i < ib - start {
            assert(mseq[i] == t[start + i]);
        } else {
            assert(mseq[i] == t[fa + (i - (ib - start))]);
        }
    }
    lemma_dec_val_nonneg(mseq);
    lemma_num10_u64(mval as nat);
    lemma_norm_shift(neg, mval as nat, 0 - (k - fa), ev);
    assert(spec_norm(neg, mval as nat, 0 - (k - fa) + ev) == spec_norm(
        d.negative,
        d.mantissa as nat,
        d.exp10 + ev,
    ));
}

/// Hexadecimal and decimal spellings of the same number read as the same
/// value wherever the grammar accepts either: `0x16` and `22` are the same
/// field.
pub proof fn lemma_hex_decimal_agree(
    s1: Seq<char>,
    a1: int,
    b1: int,
    s2: Seq<char>,
    a2: int,
    b2: int,
    max: int,
)
    requires
        0 <= a1,
        a1 + 2 < b1 <= s1.len(),
        s1[a1] == '0',
        s1[a1 + 1] == 'x',
        hex_digits_in(s1, a1 + 2, b1),
        0 <= a2 < b2 <= s2.len(),
        digits_in(s2, a2, b2),
        hex_val(s1.subrange(a1 + 2, b1)) == dec_val(s2.subrange(a2, b2)),
    ensures
        spec_flex_field(s1, a1, b1, max) == spec_flex_field(s2, a2, b2, max),
{
    assert(spec_flex_field(s1, a1, b1, max) == spec_hex_field(s1, a1 + 2, b1, max));
    if b2 - a2 >= 2 {
        assert(is_digit(s2[a2 + 1]));
        assert(s2[a2 + 1] != 'x');
    }
    assert(spec_flex_field(s2, a2, b2, max) == spec_dec_field(s2, a2, b2, max));
}

/// The value of a nonempty run of decimal digits, when it is at most `max`.
pub open spec fn spec_dec_field(t: Seq<char>, from: int, to: int, max: int) -> Option<int> {
    if from >= to || !digits_in(t, from, to) {
        None
    } else {
        let v = dec_val(t.subrange(from, to));
        if v > max {
            None
        } else {
            Some(v)
        }
    }
}

/// The value of a nonempty run of hexadecimal digits, when it is at most
/// `max`.
pub open spec fn spec_hex_field(t: Seq<char>, from: int, to: int, max: int) -> Option<int> {
    if from >= to || !hex_digits_in(t, from, to) {
        None
    } else {
        let v = hex_val(t.subrange(from, to));
        if v > max {
            None
        } else {
            Some(v)
        }
    }
}

/// A number written either in decimal or with a `0x` prefix in hexadecimal,
/// decided by the prefix.
pub open spec fn spec_flex_field(t: Seq<char>, from: int, to: int, max: int) -> Option<int> {
    if to - from >= 2 && t[from] == '0' && t[from + 1] == 'x' {
        spec_hex_field(t, from + 2, to, max)
    } else {
        spec_dec_field(t, from, to, max)
    }
}

/// A hexadecimal number whose `0x` prefix is mandatory.
pub open spec fn spec_prefixed_hex_field(t: Seq<char>, from: int, to: int, max: int) -> Option<
    int,
> {
    if to - from >= 2 && t[from] == '0' && t[from + 1] == 'x' {
        spec_hex_field(t, from + 2, to, max)
    } else {
        None
    }
}

/// A signed decimal integer that fits a 32-bit value.
pub open spec fn spec_int_field(t: Seq<char>, from: int, to: int) -> Option<int> {
    if from >= to {
        None
    } else {
        let neg = t[from] == '-';
        let a = if neg {
            from + 1
        } else {
            from
        };
        if a >= to || !digits_in(t, a, to) {
            None
        } else {
            let v = dec_val(t.subrange(a, to));
            if neg {
                if v > 0x8000_0000 {
                    None
                } else {
                    Some(-v)
                }
            } else {
                if v > 0x7fff_ffff {
                    None
                } else {
                    Some(v)
                }
            }
        }
    }
}

/// Reads a nonempty decimal digit run as a number of at most `max`.
pub fn dec_field(t: &Vec<char>, from: usize, to: usize, max: u64) -> (r: Option<u64>)
    requires
        from <= to <= t.len(),
    ensures
        match r {
            Some(v) => spec_dec_field(t@, from as int, to as int, max as int) == Some(v as int)
                && v <= max,
            None => spec_dec_field(t@, from as int, to as int, max as int) is None,
        },
{
    if from >= to {
        return None;
    }
    if !check_digits(t, from, to) {
        return None;
    }
    proof {
        assert(t@.subrange(from as int, to as int) + t@.subrange(from as int, from as int)
            =~= t@.subrange(from as int, to as int));
    }
    dec_digits_value(t, from, to, from, from, max)
}

/// Reads a nonempty hexadecimal digit run as a number of at most `max`.
pub fn hex_field(t: &Vec<char>, from: usize, to: usize, max: u64) -> (r: Option<u64>)
    requires
        from <= to <= t.len(),
    ensures
        match r {
            Some(v) => spec_hex_field(t@, from as int, to as int, max as int) == Some(v as int)
                && v <= max,
            None => spec_hex_field(t@, from as int, to as int, max as int) is None,
        },
{
    if from >= to {
        return None;
    }
    if !check_hex_digits(t, from, to) {
        return None;
    }
    hex_digits_value(t, from, to, max)
}

/// Reads a decimal or `0x`-prefixed hexadecimal number of at most `max`.
pub fn flex_field(t: &Vec<char>, from: usize, to: usize, max: u64) -> (r: Option<u64>)
    requires
        from <= to <= t.len(),
    ensures
        match r {
            Some(v) => spec_flex_field(t@, from as int, to as int, max as int) == Some(v as int)
                && v <= max,
            None => spec_flex_field(t@, from as int, to as int, max as int) is None,
        },
{
    if to - from >= 2 && t[from] == '0' && t[from + 1] == 'x' {
        hex_field(t, from + 2, to, max)
    } else {
        dec_field(t, from, to, max)
    }
}

/// Reads a hexadecimal number whose `0x` prefix is mandatory.
pub fn prefixed_hex_field(t: &Vec<char>, from: usize, to: usize, max: u64) -> (r: Option<u64>)
    requires
        from <= to <= t.len(),
    ensures
        match r {
            Some(v) => spec_prefixed_hex_field(t@, from as int, to as int, max as int) == Some(
                v as int,
            ) && v <= max,
            None => spec_prefixed_hex_field(t@, from as int, to as int, max as int) is None,
        },
{
    if to - from >= 2 && t[from] == '0' && t[from + 1] == 'x' {
        hex_field(t, from + 2, to, max)
    } else {
        None
    }
}

/// Reads a signed decimal integer into a 32-bit value.
pub fn int_field(t: &Vec<char>, from: usize, to: usize) -> (r: Option<i32>)
    requires
        from <= to <= t.len(),
    ensures
        match r {
            Some(v) => spec_int_field(t@, from as int, to as int) == Some(v as int),
            None => spec_int_field(t@, from as int, to as int) is None,
        },
{
    if from >= to {
        return None;
    }
    let neg = t[from] == '-';
    let a: usize = if neg {
        from + 1
    } else {
        from
    };
    if a >= to {
        return None;
    }
    if !check_digits(t, a, to) {
        return None;
    }
    proof {
        assert(t@.subrange(a as int, to as int) + t@.subrange(a as int, a as int) =~= t@.subrange(
            a as int,
            to as int,
        ));
    }
    let cap: u64 = if neg {
        0x8000_0000
    } else {
        0x7fff_ffff
    };
    match dec_digits_value(t, a, to, a, a, cap) {
        None => None,
        Some(v) => {
            if neg {
                Some((-(v as i64)) as i32)
            } else {
                Some(v as i32)
            }
        },
    }
}

} // verus!
