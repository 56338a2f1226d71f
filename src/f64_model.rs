//! Exact integer model of the few `f64` operations that interval growth
//! performs. A double of at least 1 is held as an integer count of 2^-52, so
//! every such double is a whole number of units and products and quotients of
//! doubles are exact rationals over these units.

use vstd::prelude::*;
use vstd::arithmetic::power2::{pow2, lemma_pow2_unfold, lemma_pow2_adds, lemma2_to64, lemma2_to64_rest};

verus! {

/// 2^52: the number of units in 1.0.
pub const UNIT: i128 = 4503599627370496;

/// The double nearest to 1.2, in units.
pub const F64_1_2: i128 = 5404319552844595;

/// The double nearest to 1.3, in units.
pub const F64_1_3: i128 = 5854679515581645;

/// 2^110: bound on the numerators handed to `round_f64_units`.
pub const NUM_BOUND: i128 = 1298074214633706907132624082305024;

/// The exponent of the spacing of doubles around `n / d` units: the least
/// `k >= k0` (at most 128) with `n < 2^(k + 53) * d`.
pub open spec fn ulp_exp(n: int, d: int, k: nat) -> nat
    decreases 128 - k,
{
    if k >= 128 || n < pow2(k + 53) * d {
        k
    } else {
        ulp_exp(n, d, k + 1)
    }
}

/// The double nearest to `n / d` units, ties to even, in units; for a value
/// of at least 1 (`n >= UNIT * d`), where doubles are spaced `2^k` units apart
/// with `2^(k + 52) <= n / d < 2^(k + 53)`.
pub open spec fn round_f64(n: int, d: int) -> int {
    let k = ulp_exp(n, d, 0);
    let t = d * pow2(k);
    let q = n / t;
    let r = n % t;
    let q2 = if 2 * r > t || (2 * r == t && q % 2 == 1) {
        q + 1
    } else {
        q
    };
    q2 * pow2(k)
}

proof fn lemma_ulp_exp_step(n: int, d: int, k: nat)
    requires
        k < 128,
        n >= pow2(k + 53) * d,
    ensures
        ulp_exp(n, d, k) == ulp_exp(n, d, k + 1),
{
}

proof fn lemma_ulp_exp_stop(n: int, d: int, k: nat)
    requires
        k >= 128 || n < pow2(k + 53) * d,
    ensures
        ulp_exp(n, d, k) == k,
{
}

/// What the search of `ulp_exp` finds.
pub proof fn lemma_ulp_exp(n: int, d: int, k0: nat)
    requires
        k0 <= 128,
        k0 == 0 || pow2(k0 + 52) * d <= n,
    ensures
        ulp_exp(n, d, k0) <= 128,
        ulp_exp(n, d, k0) == 0 || pow2(ulp_exp(n, d, k0) + 52) * d <= n,
        ulp_exp(n, d, k0) >= 128 || n < pow2(ulp_exp(n, d, k0) + 53) * d,
    decreases 128 - k0,
{
    if !(k0 >= 128 || n < pow2(k0 + 53) * d) {
        lemma_ulp_exp(n, d, k0 + 1);
    }
}

/// A value of at least 1 rounds to a double of at least 1.
pub proof fn lemma_round_f64_at_least_one(n: int, d: int)
    requires
        d >= 1,
        n >= UNIT * d,
    ensures
        round_f64(n, d) >= UNIT,
{
    lemma_ulp_exp(n, d, 0);
    let k = ulp_exp(n, d, 0);
    let pw = pow2(k) as int;
    let t = d * pw;
    lemma2_to64();
    lemma2_to64_rest();
    lemma_pow2_adds(k, 52);
    assert(pw >= 1) by {
        vstd::arithmetic::power2::lemma_pow2_pos(k);
    }
    let a = pow2(k + 52) as int;
    assert(t >= 1) by (nonlinear_arith)
        requires
            t == d * pw,
            d >= 1,
            pw >= 1,
    ;
    if k == 0 {
        assert(pw == 1);
        assert(t == d) by (nonlinear_arith)
            requires
                t == d * pw,
                pw == 1,
        ;
    } else {
        assert(UNIT * t == a * d) by (nonlinear_arith)
            requires
                a == pw * UNIT,
                t == d * pw,
        ;
    }
    assert(n >= UNIT * t);
    assert(n / t >= UNIT) by (nonlinear_arith)
        requires
            n >= UNIT * t,
            t >= 1,
    ;
    assert((n / t) * pw >= UNIT) by (nonlinear_arith)
        requires
            n / t >= UNIT,
            pw >= 1,
    ;
    assert(((n / t) + 1) * pw >= UNIT) by (nonlinear_arith)
        requires
            n / t >= UNIT,
            pw >= 1,
    ;
}

/// The double nearest to `n / d` units, computed; see `round_f64`.
pub fn round_f64_units(n: i128, d: i128) -> (r: i128)
    requires
        0 <= n < NUM_BOUND,
        1 <= d <= UNIT,
    ensures
        r == round_f64(n as int, d as int),
        0 <= r,
        r * d <= 2 * n + d,
{
    proof {
        lemma2_to64();
        lemma2_to64_rest();
        lemma_pow2_adds(0, 53);
    }
    let ghost n_i = n as int;
    let ghost d_i = d as int;
    let mut k: u32 = 0;
    let mut pw: i128 = 1;
    let mut t: i128 = d;
    let mut p: i128 = d * 9007199254740992;
    assert(p == pow2(53) * d) by (nonlinear_arith)
        requires
            p == d * 9007199254740992,
            pow2(53) == 9007199254740992,
    ;
    while k < 128 && p <= n
        invariant
            0 <= n < NUM_BOUND,
            1 <= d <= UNIT,
            n_i == n,
            d_i == d,
            k <= 128,
            pw == pow2(k as nat),
            1 <= pw <= t <= p,
            t == d * pw,
            p == t * 9007199254740992,
            pow2(k as nat + 53) == pw * 9007199254740992,
            p == pow2(k as nat + 53) * d,
            ulp_exp(n_i, d_i, 0) == ulp_exp(n_i, d_i, k as nat),
            k == 0 || p <= 2 * n,
        decreases 128 - k,
    {
        proof {
            lemma_pow2_unfold(k as nat + 1);
            lemma_pow2_unfold(k as nat + 54);
        }
        proof {
            lemma_ulp_exp_step(n_i, d_i, k as nat);
        }
        let ghost (pw0, t0, p0) = (pw as int, t as int, p as int);
        pw = pw * 2;
        t = t * 2;
        p = p * 2;
        k = k + 1;
        assert(t == d * pw && p == pow2(k as nat + 53) * d) by (nonlinear_arith)
            requires
                t0 == d * pw0,
                t == 2 * t0,
                pw == 2 * pw0,
                p == 2 * p0,
                p0 == pow2((k - 1) as nat + 53) * d,
                pow2(k as nat + 53) == 2 * pow2((k - 1) as nat + 53),
        ;
    }
    proof {
        lemma_ulp_exp_stop(n_i, d_i, k as nat);
    }
    if k == 0 {
        proof {
            lemma2_to64();
            assert(pow2(k as nat) == pow2(0));
        }
        assert(pw == 1);
        assert(t == d) by (nonlinear_arith)
            requires
                t == d * pw,
                pw == 1,
        ;
    } else {
        assert(t <= n) by (nonlinear_arith)
            requires
                p <= 2 * n,
                p == t * 9007199254740992,
                n >= 0,
        ;
    }
    let q = n / t;
    let rem = n % t;
    assert(q * t <= n && q >= 0 && 0 <= rem < t && n == q * t + rem) by (nonlinear_arith)
        requires
            t >= 1,
            n >= 0,
            q == n / t,
            rem == n % t,
    ;
    let q2 = if 2 * rem > t || (2 * rem == t && q % 2 == 1) {
        q + 1
    } else {
        q
    };
    assert(q2 * pw * d <= 2 * n + d && q2 * pw <= 2 * n + 1) by (nonlinear_arith)
        requires
            q2 <= q + 1,
            q * t <= n,
            t <= n || t == d,
            t == d * pw,
            d >= 1,
            pw >= 1,
            q >= 0,
    ;
    q2 * pw
}

} // verus!
