use vstd::arithmetic::power2::{lemma2_to64, lemma2_to64_rest, lemma_pow2_adds, lemma_pow2_pos, lemma_pow2_unfold, pow2};
use vstd::arithmetic::mul::lemma_mul_strict_inequality;
use vstd::prelude::*;

verus! {

/// The position of the highest set bit of `n` (0 for 0 and 1).
pub open spec fn top_bit(n: nat) -> nat
    decreases n,
{
    if n < 2 {
        0
    } else {
        1 + top_bit(n / 2)
    }
}

/// The 53-bit significand of `n`, whose highest bit is `e`: exact where
/// `n` has at most 53 significant bits, else rounded to the nearest, ties
/// to the even one.
pub open spec fn rounded_significand(n: nat, e: nat) -> nat {
    if e <= 52 {
        n * pow2((52 - e) as nat)
    } else {
        let d = pow2((e - 52) as nat);
        let m = n / d;
        let r = n % d;
        if r > d / 2 || (r == d / 2 && m % 2 == 1) {
            m + 1
        } else {
            m
        }
    }
}

/// The IEEE-754 binary64 bit pattern of the double nearest to `n` (ties to
/// even), as a conversion of an unsigned integer to `f64` gives it.
pub open spec fn double_bits(n: nat) -> nat {
    if n == 0 {
        0
    } else {
        let e = top_bit(n);
        ((1023 + e) * pow2(52) + rounded_significand(n, e) - pow2(52)) as nat
    }
}

proof fn lemma_top_bit(n: nat, e: nat)
    requires
        pow2(e) <= n < pow2(e + 1),
    ensures
        top_bit(n) == e,
    decreases e,
{
    lemma_pow2_unfold(e + 1);
    if e == 0 {
        lemma2_to64();
        lemma2_to64_rest();
    } else {
        lemma_pow2_unfold(e);
        lemma_top_bit(n / 2, (e - 1) as nat);
    }
}

/// The bit pattern of the double nearest to `n`.
pub fn double_bits_of(n: u64) -> (b: u64)
    ensures
        b as nat == double_bits(n as nat),
{
    if n == 0 {
        return 0;
    }
    let mut e: u64 = 0;
    let mut p: u64 = 1;
    proof {
        lemma2_to64();
        lemma2_to64_rest();
    }
    while p <= n / 2
        invariant
            1 <= p <= n,
            p as nat == pow2(e as nat),
            e < 64,
        decreases n - p,
    {
        proof {
            lemma_pow2_unfold((e + 1) as nat);
        }
        p = p * 2;
        e = e + 1;
        proof {
            if e == 64 {
                lemma2_to64_rest();
            }
        }
    }
    proof {
        lemma_pow2_unfold((e + 1) as nat);
        lemma_top_bit(n as nat, e as nat);
        lemma2_to64();
        lemma2_to64_rest();
    }
    let two52: u64 = 0x10_0000_0000_0000;
    if e <= 52 {
        proof {
            lemma_pow2_adds(e as nat, (52 - e) as nat);
            lemma_pow2_pos((52 - e) as nat);
        }
        let q = two52 / p;
        proof {
            assert(q as nat == pow2((52 - e) as nat) && (p as nat) * (q as nat) == two52) by (nonlinear_arith)
                requires
                    two52 as nat == (p as nat) * pow2((52 - e) as nat),
                    q == two52 / p,
                    p > 0,
            ;
        }
        proof {
            assert((n as nat) < 2 * (p as nat));
            lemma_mul_strict_inequality(n as int, 2 * (p as int), q as int);
            assert((2 * (p as int)) * (q as int) == 2 * ((p as int) * (q as int))) by (nonlinear_arith);
            assert((n as nat) * (q as nat) >= two52) by (nonlinear_arith)
                requires
                    (n as nat) >= (p as nat),
                    (p as nat) * (q as nat) == two52,
            ;
        }
        let m = n * q;
        (1023 + e) * two52 + (m - two52)
    } else {
        let d = p / two52;
        proof {
            lemma_pow2_adds((e - 52) as nat, 52);
            lemma_pow2_pos((e - 52) as nat);
            assert(d as nat == pow2((e - 52) as nat)) by (nonlinear_arith)
                requires
                    p as nat == pow2((e - 52) as nat) * two52,
                    d == p / two52,
                    two52 > 0,
            ;
        }
        let m = n / d;
        let r = n % d;
        proof {
            assert(m >= two52 && m < 2 * two52) by (nonlinear_arith)
                requires
                    p <= n < 2 * p,
                    p == d * two52,
                    m == n / d,
                    d > 0,
            ;
        }
        let m2 = if r > d / 2 || (r == d / 2 && m % 2 == 1) {
            m + 1
        } else {
            m
        };
        (1023 + e) * two52 + (m2 - two52)
    }
}

} // verus!
