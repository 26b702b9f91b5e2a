//! Facts about decimal digits and integer rounding.
use vstd::arithmetic::div_mod::{
    lemma_div_denominator, lemma_fundamental_div_mod, lemma_fundamental_div_mod_converse_div,
};
use vstd::prelude::*;

use crate::text::{all_digits, digit_of, digits_value, is_digit};

verus! {

pub open spec fn pow10(n: nat) -> nat
    decreases n,
{
    if n == 0 {
        1
    } else {
        10 * pow10((n - 1) as nat)
    }
}

pub proof fn lemma_pow10_pos(n: nat)
    ensures
        pow10(n) >= 1,
    decreases n,
{
    if n > 0 {
        lemma_pow10_pos((n - 1) as nat);
    }
}

pub proof fn lemma_pow10_add(a: nat, b: nat)
    ensures
        pow10(a + b) == pow10(a) * pow10(b),
    decreases b,
{
    if b > 0 {
        let b1 = (b - 1) as nat;
        lemma_pow10_add(a, b1);
        assert(((a + b) - 1) as nat == a + b1);
        assert(pow10(a + b) == 10 * pow10(a + b1));
        assert(pow10(b) == 10 * pow10(b1));
        let x = pow10(a);
        let y = pow10(b1);
        assert(x * (10 * y) == 10 * (x * y)) by (nonlinear_arith);
    } else {
        assert(pow10(0) == 1);
        assert(a + b == a);
    }
}

pub proof fn lemma_pow10_mono(a: nat, b: nat)
    requires
        a <= b,
    ensures
        pow10(a) <= pow10(b),
    decreases b,
{
    if a < b {
        lemma_pow10_mono(a, (b - 1) as nat);
        lemma_pow10_pos((b - 1) as nat);
    }
}

/// `n` zero digits.
pub open spec fn zeros(n: nat) -> Seq<char> {
    Seq::new(n, |i: int| '0')
}

/// The value of digits written one run after another.
#[verifier::spinoff_prover]
pub proof fn lemma_digits_concat(a: Seq<char>, b: Seq<char>)
    ensures
        digits_value(a + b) == digits_value(a) * pow10(b.len()) + digits_value(b),
    decreases b.len(),
{
    if b.len() == 0 {
        assert(a + b =~= a);
        assert(pow10(0) == 1);
        assert(digits_value(a) * 1 == digits_value(a));
    } else {
        let b1 = b.drop_last();
        assert((a + b).len() > 0);
        assert(digits_value(a + b) == digits_value((a + b).drop_last()) * 10 + digit_of((a + b).last()));
        assert(digits_value(b) == digits_value(b1) * 10 + digit_of(b.last()));
        lemma_digits_concat(a, b1);
        assert((a + b).drop_last() =~= a + b1);
        assert((a + b).last() == b.last());
        let x = digits_value(a);
        let p = pow10(b1.len());
        assert(pow10(b.len()) == 10 * p);
        assert((x * p + digits_value(b1)) * 10 + digit_of(b.last()) == x * (10 * p) + (
            digits_value(b1) * 10 + digit_of(b.last()))) by (nonlinear_arith);
    }
}

pub proof fn lemma_zeros(n: nat)
    ensures
        digits_value(zeros(n)) == 0,
        all_digits(zeros(n)),
        zeros(n).len() == n,
    decreases n,
{
    if n > 0 {
        lemma_zeros((n - 1) as nat);
        assert(zeros(n).drop_last() =~= zeros((n - 1) as nat));
        assert(zeros(n).last() == '0');
    }
}

pub proof fn lemma_digits_lt_pow10(s: Seq<char>)
    requires
        all_digits(s),
    ensures
        digits_value(s) < pow10(s.len()),
    decreases s.len(),
{
    if s.len() > 0 {
        let t = s.drop_last();
        assert(all_digits(t)) by {
            assert forall|i: int| 0 <= i < t.len() implies is_digit(#[trigger] t[i]) by {
                assert(t[i] == s[i]);
            }
        }
        lemma_digits_lt_pow10(t);
        assert(is_digit(s[s.len() - 1]));
        assert(digit_of(s.last()) < 10);
        assert(pow10(s.len()) == 10 * pow10(t.len()));
    }
}

/// A digit string splits into its first digit and the rest.
#[verifier::spinoff_prover]
pub proof fn lemma_digits_front(s: Seq<char>)
    requires
        s.len() >= 1,
    ensures
        digits_value(s) == digit_of(s[0]) * pow10((s.len() - 1) as nat) + digits_value(
            s.drop_first(),
        ),
{
    let h = seq![s[0]];
    assert(s =~= h + s.drop_first());
    lemma_digits_concat(h, s.drop_first());
    assert(h.drop_last() =~= Seq::<char>::empty());
    assert(digits_value(Seq::<char>::empty()) == 0);
    assert(digits_value(h) == digits_value(h.drop_last()) * 10 + digit_of(h.last()));
    assert(digits_value(h) == digit_of(s[0]));
}

/// `floor(value(fs) * k / 10^len)`, computed from the last digit towards
/// the first with a carry below `k`.
pub open spec fn carry(fs: Seq<char>, k: nat) -> nat
    decreases fs.len(),
{
    if fs.len() == 0 {
        0
    } else {
        (digit_of(fs[0]) * k + carry(fs.drop_first(), k)) / 10
    }
}

pub proof fn lemma_carry(fs: Seq<char>, k: nat)
    ensures
        carry(fs, k) == digits_value(fs) * k / pow10(fs.len()),
    decreases fs.len(),
{
    if fs.len() > 0 {
        let rest = fs.drop_first();
        lemma_carry(rest, k);
        lemma_digits_front(fs);
        lemma_pow10_pos(rest.len());
        let p = pow10(rest.len()) as int;
        let a = digit_of(fs[0]) as int;
        let v = digits_value(rest) as int;
        let kk = k as int;
        let x = a * kk * p + v * kk;
        // (a*k*p + v*k) / p == a*k + (v*k)/p
        lemma_fundamental_div_mod(v * kk, p);
        assert(v * kk == p * ((v * kk) / p) + (v * kk) % p);
        assert(x == (a * kk + (v * kk) / p) * p + (v * kk) % p) by (nonlinear_arith)
            requires
                v * kk == p * ((v * kk) / p) + (v * kk) % p,
                x == a * kk * p + v * kk,
        ;
        assert(0 <= (v * kk) % p < p) by {
            vstd::arithmetic::div_mod::lemma_mod_bound(v * kk, p);
        }
        lemma_fundamental_div_mod_converse_div(x, p, a * kk + (v * kk) / p, (v * kk) % p);
        assert(x >= 0) by (nonlinear_arith)
            requires
                a >= 0,
                kk >= 0,
                p >= 1,
                v >= 0,
                x == a * kk * p + v * kk,
        ;
        lemma_div_denominator(x, p, 10);
        assert(pow10(fs.len()) == 10 * p);
        assert(carry(rest, k) == (v * kk) / p);
        assert(carry(fs, k) == (a * kk + carry(rest, k)) / 10);
        assert(carry(fs, k) == (x / p) / 10);
        assert(carry(fs, k) == x / (10 * p));
        assert(digits_value(fs) * k == x) by (nonlinear_arith)
            requires
                digits_value(fs) == a * p + v,
                x == a * kk * p + v * kk,
                kk == k,
        ;
        assert(p * 10 == 10 * p);
    } else {
        assert(digits_value(fs) == 0);
        assert(pow10(0) == 1);
        assert(0 * k / 1 == 0) by (nonlinear_arith);
    }
}

/// Rounding half up of `n / (1024 d)` where `n = i * d + f` and `f < d`
/// depends on `i` alone.
pub proof fn lemma_round_kibi(i: nat, f: nat, d: nat)
    requires
        d > 0,
        f < d,
    ensures
        (2 * (i * d + f) + 1024 * d) / (2048 * d) == (i + 512) / 1024,
{
    let x = (2 * (i * d + f) + 1024 * d) as int;
    let dd = 2 * d as int;
    assert(x == (i + 512) * dd + 2 * f) by (nonlinear_arith)
        requires
            x == 2 * (i * d + f) + 1024 * d,
            dd == 2 * d,
    ;
    lemma_fundamental_div_mod_converse_div(x, dd, (i + 512) as int, (2 * f) as int);
    lemma_div_denominator(x, dd, 1024);
    assert(dd * 1024 == 2048 * d);
}

/// Rounding half up of `n * m / d` where `n = i * d + f` and `f < d`.
pub proof fn lemma_round_scaled(i: nat, f: nat, d: nat, m: nat)
    requires
        d > 0,
        f < d,
    ensures
        (2 * (i * d + f) * m + d) / (2 * d) == i * m + ((2 * f * m) / d + 1) / 2,
{
    let y = (2 * f * m + d) as int;
    let x = (2 * (i * d + f) * m + d) as int;
    let dd = 2 * d as int;
    lemma_fundamental_div_mod(y, dd);
    assert(0 <= y % dd < dd) by {
        vstd::arithmetic::div_mod::lemma_mod_bound(y, dd);
    }
    assert(x == (i * m + y / dd) * dd + y % dd) by (nonlinear_arith)
        requires
            y == dd * (y / dd) + y % dd,
            x == 2 * (i * d + f) * m + d,
            y == 2 * f * m + d,
            dd == 2 * d,
    ;
    lemma_fundamental_div_mod_converse_div(x, dd, i * m + y / dd, y % dd);
    // y / (2d) == (y / d) / 2 and y / d == (2 f m) / d + 1
    lemma_div_denominator(y, d as int, 2);
    assert(d * 2 == dd);
    let z = (2 * f * m) as int;
    lemma_fundamental_div_mod(z, d as int);
    assert(0 <= z % (d as int) < d) by {
        vstd::arithmetic::div_mod::lemma_mod_bound(z, d as int);
    }
    assert(y == (z / (d as int) + 1) * d + z % (d as int)) by (nonlinear_arith)
        requires
            z == d * (z / (d as int)) + z % (d as int),
            y == z + d,
    ;
    lemma_fundamental_div_mod_converse_div(y, d as int, z / (d as int) + 1, z % (d as int));
}

} // verus!
