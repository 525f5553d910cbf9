//! Decimal numbers with a fraction, read exactly: the value times a scale,
//! rounded down, without floating point.

use vstd::prelude::*;
use vstd::arithmetic::div_mod::{lemma_div_denominator, lemma_hoist_over_denominator};
use crate::text::{decimal, digit_value, is_digit, lemma_decimal_grows, slice_of, unsigned_part};

verus! {

/// Ten to the power of `n`.
pub open spec fn pow10(n: nat) -> nat
    decreases n,
{
    if n == 0 {
        1
    } else {
        10 * pow10((n - 1) as nat)
    }
}

/// True where every character of `s` is a decimal digit; `s` may be empty.
pub open spec fn digits_only(s: Seq<char>) -> bool {
    forall|i: int| 0 <= i < s.len() ==> is_digit(#[trigger] s[i])
}

/// The first position at or after `i` that holds a decimal point, or the
/// length of `s`.
pub open spec fn point_at(s: Seq<char>, i: int) -> int
    decreases s.len() - i,
{
    if 0 <= i < s.len() && s[i] != '.' {
        point_at(s, i + 1)
    } else {
        i
    }
}

/// The digits before the decimal point, after an optional plus sign.
pub open spec fn whole_part(s: Seq<char>) -> Seq<char> {
    let body = unsigned_part(s);
    body.subrange(0, point_at(body, 0))
}

/// The digits after the decimal point; empty where there is no point.
pub open spec fn fraction_part(s: Seq<char>) -> Seq<char> {
    let body = unsigned_part(s);
    let point = point_at(body, 0);
    if point < body.len() {
        body.subrange(point + 1, body.len() as int)
    } else {
        Seq::empty()
    }
}

/// True where `s` is a decimal number: an optional plus sign, digits, and
/// optionally a point and more digits, with at least one digit in all. A
/// minus sign, an exponent or any other character makes it no number.
pub open spec fn is_number(s: Seq<char>) -> bool {
    &&& digits_only(whole_part(s))
    &&& digits_only(fraction_part(s))
    &&& whole_part(s).len() + fraction_part(s).len() > 0
}

/// The value of the decimal number `s` times `scale`, rounded down; zero
/// where `s` is no number.
pub open spec fn scaled_floor(s: Seq<char>, scale: nat) -> nat {
    if is_number(s) {
        decimal(whole_part(s)) * scale + decimal(fraction_part(s)) * scale / pow10(
            fraction_part(s).len(),
        )
    } else {
        0
    }
}

/// `n`, held at the largest 64-bit number.
pub open spec fn clipped(n: nat) -> u64 {
    if n > u64::MAX {
        u64::MAX
    } else {
        n as u64
    }
}

proof fn lemma_pow10_positive(n: nat)
    ensures
        pow10(n) > 0,
    decreases n,
{
    if n > 0 {
        lemma_pow10_positive((n - 1) as nat);
    }
}

proof fn lemma_decimal_prepend(c: char, t: Seq<char>)
    ensures
        decimal(seq![c] + t) == digit_value(c) * pow10(t.len()) + decimal(t),
    decreases t.len(),
{
    let whole = seq![c] + t;
    if t.len() == 0 {
        assert(whole.drop_last() =~= Seq::<char>::empty());
        assert(whole.last() == c);
        assert(decimal(whole.drop_last()) == 0);
        assert(decimal(whole) == digit_value(c));
        assert(decimal(t) == 0);
        assert(digit_value(c) * pow10(t.len()) == digit_value(c)) by (nonlinear_arith)
            requires
                pow10(t.len()) == 1,
        ;
    } else {
        lemma_decimal_prepend(c, t.drop_last());
        assert(whole.drop_last() =~= seq![c] + t.drop_last());
        assert(whole.last() == t.last());
        let a = digit_value(c);
        let p = pow10((t.len() - 1) as nat);
        let b = decimal(t.drop_last());
        assert(pow10(t.len()) == 10 * p);
        assert(decimal(whole) == (a * p + b) * 10 + digit_value(t.last()));
        assert(decimal(t) == b * 10 + digit_value(t.last()));
        assert((a * p + b) * 10 == a * pow10(t.len()) + b * 10) by (nonlinear_arith)
            requires
                pow10(t.len()) == 10 * p,
        ;
    }
}

proof fn lemma_fraction_step(digit: nat, rest: nat, scale: nat, power: nat)
    requires
        power > 0,
    ensures
        (scale * digit + rest * scale / power) / 10 == ((digit * power + rest) * scale) / (10
            * power),
{
    let x = (rest * scale) as int;
    let j = (scale * digit) as int;
    lemma_hoist_over_denominator(x, j, power);
    assert(x + j * power == (digit * power + rest) * scale) by (nonlinear_arith)
        requires
            x == rest * scale,
            j == scale * digit,
    ;
    let y = ((digit * power + rest) * scale) as int;
    lemma_div_denominator(y, power as int, 10);
    assert(power * 10 == 10 * power);
}

fn only_digits(v: &Vec<char>) -> (b: bool)
    ensures
        b == digits_only(v@),
{
    let mut i: usize = 0;
    while i < v.len()
        invariant
            i <= v.len(),
            forall|k: int| 0 <= k < i ==> is_digit(#[trigger] v@[k]),
        decreases v.len() - i,
    {
        let c = v[i];
        if !('0' <= c && c <= '9') {
            return false;
        }
        i += 1;
    }
    true
}

fn digit_of(c: char) -> (d: u64)
    requires
        is_digit(c),
    ensures
        d == digit_value(c),
        d <= 9,
{
    (c as u32 - '0' as u32) as u64
}

fn whole_times(v: &Vec<char>, scale: u64) -> (r: u64)
    requires
        digits_only(v@),
    ensures
        r == clipped(decimal(v@) * (scale as nat)),
{
    let mut acc: u64 = 0;
    let mut over = false;
    let mut i: usize = 0;
    assert(v@.take(0) =~= Seq::<char>::empty());
    while i < v.len()
        invariant
            i <= v.len(),
            digits_only(v@),
            !over ==> acc == decimal(v@.take(i as int)),
            over ==> decimal(v@.take(i as int)) > u64::MAX,
        decreases v.len() - i,
    {
        let d = digit_of(v[i]);
        proof {
            assert(v@.take(i + 1).drop_last() =~= v@.take(i as int));
            assert(v@.take(i + 1).last() == v@[i as int]);
        }
        if !over {
            if acc > (u64::MAX - d) / 10 {
                over = true;
            } else {
                acc = acc * 10 + d;
            }
        }
        i += 1;
    }
    assert(v@.take(i as int) =~= v@);
    if scale == 0 {
        assert(decimal(v@) * 0 == 0);
        0
    } else if over {
        assert(decimal(v@) * (scale as nat) > u64::MAX) by (nonlinear_arith)
            requires
                decimal(v@) > u64::MAX,
                scale >= 1,
        ;
        u64::MAX
    } else {
        assert(acc * scale <= u64::MAX * u64::MAX) by (nonlinear_arith)
            requires
                acc <= u64::MAX,
                scale <= u64::MAX,
        ;
        let product: u128 = acc as u128 * scale as u128;
        if product > u64::MAX as u128 {
            u64::MAX
        } else {
            product as u64
        }
    }
}

fn fraction_times(v: &Vec<char>, scale: u64) -> (r: u64)
    requires
        digits_only(v@),
    ensures
        r == decimal(v@) * (scale as nat) / pow10(v@.len()),
{
    let n = v.len();
    let mut acc: u64 = 0;
    let mut j: usize = n;
    proof {
        assert(v@.subrange(n as int, n as int) =~= Seq::<char>::empty());
        assert(0int * scale / 1 == 0) by (nonlinear_arith);
    }
    while j > 0
        invariant
            j <= n,
            n == v.len(),
            digits_only(v@),
            acc == decimal(v@.subrange(j as int, n as int)) * (scale as nat) / pow10(
                (n - j) as nat,
            ),
            acc <= scale,
        decreases j,
    {
        let d = digit_of(v[j - 1]);
        proof {
            let rest = v@.subrange(j as int, n as int);
            assert(v@.subrange(j - 1, n as int) =~= seq![v@[j - 1]] + rest);
            lemma_decimal_prepend(v@[j - 1], rest);
            lemma_pow10_positive((n - j) as nat);
            lemma_fraction_step(d as nat, decimal(rest), scale as nat, pow10((n - j) as nat));
            assert(scale * d <= u64::MAX * 9) by (nonlinear_arith)
                requires
                    scale <= u64::MAX,
                    d <= 9,
            ;
            assert((scale * d + acc) / 10 <= scale) by (nonlinear_arith)
                requires
                    d <= 9,
                    acc <= scale,
            ;
        }
        let sum: u128 = scale as u128 * d as u128 + acc as u128;
        acc = (sum / 10) as u64;
        j -= 1;
    }
    assert(v@.subrange(0, n as int) =~= v@);
    acc
}

/// Reads the decimal number `v` and returns its value times `scale`,
/// rounded down and held at the largest 64-bit number. Text that is no
/// number gives zero.
pub fn scaled(v: &Vec<char>, scale: u64) -> (r: u64)
    ensures
        r == clipped(scaled_floor(v@, scale as nat)),
{
    let start: usize = if v.len() > 0 && v[0] == '+' {
        1
    } else {
        0
    };
    let ghost body = unsigned_part(v@);
    assert(body =~= v@.subrange(start as int, v.len() as int));
    let mut point: usize = start;
    while point < v.len() && v[point] != '.'
        invariant
            start <= point <= v.len(),
            body == v@.subrange(start as int, v.len() as int),
            point_at(body, point - start) == point_at(body, 0),
        decreases v.len() - point,
    {
        point += 1;
    }
    assert(point_at(body, 0) == point - start);
    let whole = slice_of(v, start, point);
    let fraction = if point < v.len() {
        slice_of(v, point + 1, v.len())
    } else {
        Vec::new()
    };
    assert(whole@ =~= whole_part(v@));
    assert(fraction@ =~= fraction_part(v@));
    if whole.len() + fraction.len() == 0 || !only_digits(&whole) || !only_digits(&fraction) {
        return 0;
    }
    let high = whole_times(&whole, scale);
    let low = fraction_times(&fraction, scale);
    high.saturating_add(low)
}

} // verus!
