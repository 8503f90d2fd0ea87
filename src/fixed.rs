//! Exact fixed-point products: `floor(a * y / d)` for a 128-bit `a` and a
//! 64-bit `y`, without the intermediate product having to fit in 128 bits.
use vstd::prelude::*;
use vstd::arithmetic::div_mod::{lemma_div_denominator, lemma_fundamental_div_mod, lemma_fundamental_div_mod_converse};

verus! {

pub open spec fn pow2(n: nat) -> nat
    decreases n,
{
    if n == 0 {
        1
    } else {
        2 * pow2((n - 1) as nat)
    }
}

proof fn lemma_pow2_64()
    ensures
        pow2(64) == 0x1_0000_0000_0000_0000,
{
    reveal_with_fuel(pow2, 65);
}

/// `(q, rem)` with `r * y == q * d + rem` and `rem < d`, for `r < d`.
fn mul_rem(r: u128, y: u64, d: u128) -> (res: (u128, u128))
    requires
        r < d,
    ensures
        (r as int) * (y as int) == res.0 * d + res.1,
        res.1 < d,
{
    let mut q: u128 = 0;
    let mut rem: u128 = 0;
    let mut prefix: u128 = 0;
    let mut unit: u128 = 0x1_0000_0000_0000_0000;
    let ghost mut i: nat = 64;
    proof {
        lemma_pow2_64();
        assert((y as nat) / pow2(64) == 0) by (nonlinear_arith)
            requires
                pow2(64) == 0x1_0000_0000_0000_0000,
                0 <= y < 0x1_0000_0000_0000_0000,
        ;
    }
    while unit > 1
        invariant
            r < d,
            unit == pow2(i),
            prefix == (y as nat) / pow2(i),
            r * prefix == q * d + rem,
            rem < d,
            q <= prefix,
            prefix <= y,
            i <= 64,
        decreases i,
    {
        assert(i > 0) by {
            if i == 0 {
                assert(pow2(0) == 1);
            }
        }
        let ghost old_prefix = prefix;
        let ghost old_q = q;
        let ghost old_rem = rem;
        unit = unit / 2;
        proof {
            i = (i - 1) as nat;
            assert(pow2(i + 1) == 2 * pow2(i));
            lemma_div_denominator(y as int, pow2(i) as int, 2);
            lemma_fundamental_div_mod(((y as nat) / pow2(i)) as int, 2);
            assert((y as nat) / pow2(i) <= y) by (nonlinear_arith)
                requires
                    pow2(i) >= 1,
            ;
        }
        prefix = (y as u128) / unit;
        let bit = prefix % 2;
        assert(prefix == 2 * old_prefix + bit);
        if rem >= d - rem {
            rem = rem - (d - rem);
            q = 2 * q + 1;
        } else {
            rem = 2 * rem;
            q = 2 * q;
        }
        let ghost q1 = q;
        let ghost rem1 = rem;
        assert(2 * (old_q * d + old_rem) == q1 * d + rem1) by (nonlinear_arith)
            requires
                (q1 == 2 * old_q + 1 && rem1 == 2 * old_rem - d) || (q1 == 2 * old_q && rem1 == 2
                    * old_rem),
        ;
        if bit == 1 {
            if rem >= d - r {
                rem = rem - (d - r);
                q = q + 1;
            } else {
                rem = rem + r;
            }
        }
        assert(q1 * d + rem1 + bit * r == q * d + rem) by (nonlinear_arith)
            requires
                (bit == 1 && ((q == q1 + 1 && rem == rem1 + r - d) || (q == q1 && rem == rem1 + r)))
                    || (bit == 0 && q == q1 && rem == rem1),
        ;
        assert(r * prefix == q * d + rem) by (nonlinear_arith)
            requires
                prefix == 2 * old_prefix + bit,
                r * old_prefix == old_q * d + old_rem,
                2 * (old_q * d + old_rem) == q1 * d + rem1,
                q1 * d + rem1 + bit * r == q * d + rem,
        ;
        assert(q <= prefix) by (nonlinear_arith)
            requires
                r * prefix == q * d + rem,
                r < d,
                rem >= 0,
                prefix >= 0,
                q >= 0,
        ;
    }
    assert(i == 0) by {
        if i > 0 {
            lemma_pow2_ge_2(i);
        }
    }
    assert(pow2(0) == 1);
    assert(prefix == y);
    (q, rem)
}

proof fn lemma_pow2_ge_2(n: nat)
    requires
        n > 0,
    ensures
        pow2(n) >= 2,
    decreases n,
{
    reveal_with_fuel(pow2, 2);
    if n > 1 {
        lemma_pow2_ge_2((n - 1) as nat);
    }
}

/// `floor(a * y / d)`, or `None` when that does not fit in 128 bits.
pub fn mul_div(a: u128, y: u64, d: u128) -> (r: Option<u128>)
    requires
        d > 0,
    ensures
        r is Some <==> (a as int) * (y as int) / (d as int) <= u128::MAX,
        r is Some ==> r->0 == (a as int) * (y as int) / (d as int),
{
    let q = a / d;
    let rem = a % d;
    proof {
        lemma_fundamental_div_mod(a as int, d as int);
    }
    let (hq, hr) = mul_rem(rem, y, d);
    proof {
        assert((a as int) * (y as int) == (q * (y as int) + hq) * d + hr) by (nonlinear_arith)
            requires
                a == d * q + rem,
                rem * (y as int) == hq * d + hr,
        ;
        lemma_fundamental_div_mod_converse((a as int) * (y as int), d as int, q * (y as int) + hq, hr as int);
    }
    match q.checked_mul(y as u128) {
        None => None,
        Some(v) => v.checked_add(hq),
    }
}

} // verus!
