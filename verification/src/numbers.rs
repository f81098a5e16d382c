//! Decimal rendering of machine integers, used for dedup suffixes (`_1`),
//! table names (`t1`, `t2`, ...) and record labels in vertical output.

use vstd::prelude::*;

verus! {

/// The ten decimal digits in value order.
pub open spec fn dec_digits() -> Seq<char> {
    seq!['0', '1', '2', '3', '4', '5', '6', '7', '8', '9']
}

/// Decimal representation of a natural number, most significant digit first.
pub open spec fn dec_spec(n: nat) -> Seq<char>
    decreases n,
{
    if n < 10 {
        seq![dec_digits()[n as int]]
    } else {
        dec_spec(n / 10) + seq![dec_digits()[(n % 10) as int]]
    }
}

fn dec_digit(d: u64) -> (c: char)
    requires
        d < 10,
    ensures
        c == dec_digits()[d as int],
{
    if d == 0 {
        '0'
    } else if d == 1 {
        '1'
    } else if d == 2 {
        '2'
    } else if d == 3 {
        '3'
    } else if d == 4 {
        '4'
    } else if d == 5 {
        '5'
    } else if d == 6 {
        '6'
    } else if d == 7 {
        '7'
    } else if d == 8 {
        '8'
    } else {
        '9'
    }
}

/// Decimal digits of `n`, most significant first.
pub fn u64_to_dec_chars(n: u64) -> (r: Vec<char>)
    ensures
        r@ == dec_spec(n as nat),
    decreases n,
{
    if n < 10 {
        let mut v: Vec<char> = Vec::new();
        v.push(dec_digit(n));
        assert(v@ =~= dec_spec(n as nat));
        v
    } else {
        let mut v = u64_to_dec_chars(n / 10);
        v.push(dec_digit(n % 10));
        assert(v@ =~= dec_spec(n as nat));
        v
    }
}

/// Decimal representation of a signed number: a leading minus sign for
/// negative values.
pub open spec fn dec_i64_spec(v: int) -> Seq<char> {
    if v < 0 {
        seq!['-'] + dec_spec((-v) as nat)
    } else {
        dec_spec(v as nat)
    }
}

/// Decimal digits of `v`, with a minus sign when negative.
pub fn i64_to_dec_chars(v: i64) -> (r: Vec<char>)
    ensures
        r@ == dec_i64_spec(v as int),
{
    if v >= 0 {
        let r = u64_to_dec_chars(v as u64);
        return r;
    }
    let mag: u64 = if v == i64::MIN {
        9223372036854775808
    } else {
        (-v) as u64
    };
    assert(mag as nat == -(v as int));
    let digits = u64_to_dec_chars(mag);
    let mut r: Vec<char> = Vec::new();
    r.push('-');
    let n = digits.len();
    for i in 0..n
        invariant
            n == digits@.len(),
            r@ =~= seq!['-'] + digits@.take(i as int),
    {
        r.push(digits[i]);
        assert(r@ =~= seq!['-'] + digits@.take(i + 1));
    }
    assert(r@ =~= seq!['-'] + digits@);
    r
}

pub proof fn lemma_dec_spec_nonempty(n: nat)
    ensures
        dec_spec(n).len() >= 1,
    decreases n,
{
    if n >= 10 {
        lemma_dec_spec_nonempty(n / 10);
    }
}

/// Distinct numbers have distinct decimal representations.
pub proof fn lemma_dec_spec_injective(a: nat, b: nat)
    requires
        dec_spec(a) == dec_spec(b),
    ensures
        a == b,
    decreases a + b,
{
    if a < 10 && b < 10 {
        assert(dec_spec(a)[0] == dec_digits()[a as int]);
        assert(dec_spec(b)[0] == dec_digits()[b as int]);
        assert(a == b);
    } else if a < 10 && b >= 10 {
        lemma_dec_spec_nonempty(b / 10);
        assert(dec_spec(a).len() == 1);
        assert(dec_spec(b).len() >= 2);
    } else if a >= 10 && b < 10 {
        lemma_dec_spec_nonempty(a / 10);
        assert(dec_spec(a).len() >= 2);
        assert(dec_spec(b).len() == 1);
    } else {
        lemma_dec_spec_nonempty(a / 10);
        lemma_dec_spec_nonempty(b / 10);
        let la = dec_spec(a).len();
        assert(dec_spec(a).last() == dec_digits()[(a % 10) as int]);
        assert(dec_spec(b).last() == dec_digits()[(b % 10) as int]);
        assert(a % 10 == b % 10);
        assert(dec_spec(a).take(la - 1) =~= dec_spec(a / 10));
        assert(dec_spec(b).take(la - 1) =~= dec_spec(b / 10));
        lemma_dec_spec_injective(a / 10, b / 10);
        assert(a == 10 * (a / 10) + a % 10) by (nonlinear_arith);
        assert(b == 10 * (b / 10) + b % 10) by (nonlinear_arith);
    }
}

} // verus!
