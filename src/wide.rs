use vstd::prelude::*;
use vstd::arithmetic::div_mod::{
    lemma_fundamental_div_mod, lemma_fundamental_div_mod_converse_div, lemma_mod_breakdown, lemma_mod_pos_bound, lemma_small_mod,
};
use vstd::arithmetic::power2::{lemma2_to64, lemma_pow2_adds, lemma_pow2_pos, lemma_pow2_unfold, pow2};

verus! {

/// 2^64, one half-word of a `u128`.
pub const HALF: u128 = 0x1_0000_0000_0000_0000;

/// An unsigned 256-bit integer as two 128-bit words.
#[derive(Clone, Copy)]
pub struct U256 {
    pub hi: u128,
    pub lo: u128,
}

/// 2^128, the weight of the high word.
pub open spec fn word_size() -> int {
    (HALF as int) * (HALF as int)
}

proof fn lemma_word_size()
    ensures
        word_size() == u128::MAX + 1,
{
    assert((HALF as int) * (HALF as int) == u128::MAX + 1) by (nonlinear_arith);
}

impl U256 {
    pub open spec fn value(self) -> int {
        self.hi * word_size() + self.lo
    }
}

/// The exact product of two 128-bit integers.
pub fn mul_full(a: u128, b: u128) -> (r: U256)
    ensures
        r.value() == a * b,
{
    let a0 = a % HALF;
    let a1 = a / HALF;
    let b0 = b % HALF;
    let b1 = b / HALF;
    assert(a0 * b0 < HALF * HALF && a0 * b1 < HALF * HALF && a1 * b0 < HALF * HALF && a1 * b1 < HALF
        * HALF) by (nonlinear_arith)
        requires a0 < HALF, a1 < HALF, b0 < HALF, b1 < HALF, a0 >= 0, a1 >= 0, b0 >= 0, b1 >= 0;
    let p00 = a0 * b0;
    let p01 = a0 * b1;
    let p10 = a1 * b0;
    let p11 = a1 * b1;
    let mid = p00 / HALF + p01 % HALF + p10 % HALF;
    let ghost bb: int = HALF * HALF;
    assert(a * b == p11 * bb + (p01 + p10) * HALF + p00) by (nonlinear_arith)
        requires
            a == a1 * HALF + a0,
            b == b1 * HALF + b0,
            p00 == a0 * b0,
            p01 == a0 * b1,
            p10 == a1 * b0,
            p11 == a1 * b1,
            bb == HALF * HALF,
    ;
    let ghost hi_int: int = p11 + p01 / HALF + p10 / HALF + mid / HALF;
    let ghost lo_int: int = p00 % HALF + (mid % HALF) * HALF;
    assert(a * b == hi_int * bb + lo_int) by (nonlinear_arith)
        requires
            a * b == p11 * bb + (p01 + p10) * HALF + p00,
            p00 == (p00 / HALF) * HALF + p00 % HALF,
            p01 == (p01 / HALF) * HALF + p01 % HALF,
            p10 == (p10 / HALF) * HALF + p10 % HALF,
            mid == (mid / HALF) * HALF + mid % HALF,
            mid == p00 / HALF + p01 % HALF + p10 % HALF,
            hi_int == p11 + p01 / HALF + p10 / HALF + mid / HALF,
            lo_int == p00 % HALF + (mid % HALF) * HALF,
            bb == HALF * HALF,
    ;
    assert(a * b < bb * bb) by (nonlinear_arith)
        requires 0 <= a < bb, 0 <= b < bb;
    assert(0 <= lo_int < bb) by (nonlinear_arith)
        requires lo_int == p00 % HALF + (mid % HALF) * HALF, 0 <= p00 % HALF < HALF, 0 <= mid % HALF < HALF,
            bb == HALF * HALF;
    assert(hi_int < bb) by (nonlinear_arith)
        requires a * b == hi_int * bb + lo_int, a * b < bb * bb, lo_int >= 0, bb > 0;
    let lo = p00 % HALF + (mid % HALF) * HALF;
    let hi = p11 + p01 / HALF + p10 / HALF + mid / HALF;
    U256 { hi, lo }
}

/// Whether `x >= y`.
pub fn ge(x: U256, y: U256) -> (r: bool)
    ensures
        r == (x.value() >= y.value()),
{
    proof {
        lemma_word_size();
        assert(x.value() >= y.value() <==> (x.hi > y.hi || (x.hi == y.hi && x.lo >= y.lo))) by (nonlinear_arith)
            requires
                x.value() == x.hi * word_size() + x.lo,
                y.value() == y.hi * word_size() + y.lo,
                word_size() == u128::MAX + 1,
                0 <= x.lo <= u128::MAX,
                0 <= y.lo <= u128::MAX,
                0 <= x.hi,
                0 <= y.hi,
        ;
    }
    if x.hi != y.hi {
        x.hi > y.hi
    } else {
        x.lo >= y.lo
    }
}

/// `a * b / c` rounded down; see `mul_add_div`.
pub fn mul_div(a: u128, b: u128, c: u128) -> (r: Option<u128>)
    ensures
        r matches Some(q) ==> c > 0 && q as int == (a as int * b as int) / (c as int),
{
    mul_add_div(a, b, 0, c)
}

/// `(a * b + e) / c` rounded down, by long division of the 256-bit
/// dividend; fails where `c` takes more than 127 bits or the quotient more
/// than 128.
pub fn mul_add_div(a: u128, b: u128, e: u128, c: u128) -> (r: Option<u128>)
    ensures
        r matches Some(q) ==> c > 0 && q as int == (a as int * b as int + e as int) / (c as int),
{
    if c == 0 || c >= 0x8000_0000_0000_0000_0000_0000_0000_0000 {
        return None;
    }
    let prod = mul_full(a, b);
    let p = if e > u128::MAX - prod.lo {
        if prod.hi == u128::MAX {
            return None;
        }
        U256 { hi: prod.hi + 1, lo: e - (u128::MAX - prod.lo) - 1 }
    } else {
        U256 { hi: prod.hi, lo: prod.lo + e }
    };
    proof {
        lemma_word_size();
        assert(p.value() == prod.value() + e) by (nonlinear_arith)
            requires
                p.value() == p.hi * word_size() + p.lo,
                prod.value() == prod.hi * word_size() + prod.lo,
                word_size() == u128::MAX + 1,
                (p.hi == prod.hi + 1 && p.lo == prod.lo + e - word_size()) || (p.hi == prod.hi && p.lo
                    == prod.lo + e),
        ;
    }
    if p.hi >= c {
        return None;
    }
    let ghost v: int = p.value();
    let ghost word: int = word_size();
    let low: u128 = p.lo;
    let ghost lowi: int = low as int;
    let mut rem: u128 = p.hi;
    let mut q: u128 = 0;
    let mut m: u128 = 0x8000_0000_0000_0000_0000_0000_0000_0000;
    let ghost mut big_m: int = word;
    proof {
        lemma2_to64();
        lemma_pow2_adds(64, 64);
        assert(pow2(128) == word);
        assert(lowi % word == low) by {
            lemma_small_mod(low as nat, word as nat);
        }
        assert(v < c * word) by (nonlinear_arith)
            requires v == p.hi * word + lowi, p.hi < c, 0 <= lowi < word;
    }
    let mut i: u32 = 0;
    while i < 128
        invariant
            0 < c < 0x8000_0000_0000_0000_0000_0000_0000_0000,
            rem < c,
            i <= 128,
            big_m == pow2((128 - i) as nat),
            i < 128 ==> big_m == 2 * m,
            v == (q * c + rem) * big_m + lowi % big_m,
            v < c * word,
            word == word_size(),
            lowi == low as int,
        decreases 128 - i,
    {
        proof {
            lemma_pow2_unfold((128 - i) as nat);
            lemma_pow2_pos((127 - i) as nat);
            lemma_pow2_pos((128 - i) as nat);
            lemma_mod_breakdown(lowi, m as int, 2);
            lemma_fundamental_div_mod(lowi, big_m);
            assert(lowi % big_m >= 0) by {
                lemma_mod_pos_bound(lowi, big_m);
            }
            assert(q * c * big_m <= v) by (nonlinear_arith)
                requires v == (q * c + rem) * big_m + lowi % big_m, rem >= 0, big_m > 0, lowi % big_m >= 0;
            assert(q * big_m < word) by (nonlinear_arith)
                requires q * c * big_m <= v, v < c * word, c > 0;
            assert(q * 2 < word) by (nonlinear_arith)
                requires q * big_m < word, big_m >= 2, q >= 0;
        }
        let bit: u128 = (low / m) % 2;
        let ghost mi: int = m as int;
        let ghost old_q: int = q as int;
        let ghost old_rem: int = rem as int;
        rem = rem * 2 + bit;
        q = q * 2;
        if rem >= c {
            rem = rem - c;
            q = q + 1;
        }
        proof {
            assert(q * c + rem == (old_q * c + old_rem) * 2 + bit) by (nonlinear_arith)
                requires
                    (q == old_q * 2 && rem == old_rem * 2 + bit) || (q == old_q * 2 + 1 && rem == old_rem * 2
                        + bit - c),
            ;
            assert(lowi % big_m == mi * bit + lowi % mi);
            assert(v == (q * c + rem) * mi + lowi % mi) by (nonlinear_arith)
                requires
                    v == (old_q * c + old_rem) * big_m + lowi % big_m,
                    big_m == 2 * mi,
                    lowi % big_m == mi * bit + lowi % mi,
                    q * c + rem == (old_q * c + old_rem) * 2 + bit,
            ;
        }
        proof {
            big_m = m as int;
        }
        m = m / 2;
        i = i + 1;
        proof {
            if i < 128 {
                lemma_pow2_unfold((128 - i) as nat);
            }
        }
    }
    proof {
        assert(big_m == 1) by {
            lemma2_to64();
        }
        assert(lowi % 1 == 0);
        assert(v == q * c + rem) by (nonlinear_arith)
            requires v == (q * c + rem) * big_m + lowi % big_m, big_m == 1, lowi % big_m == 0;
        lemma_fundamental_div_mod_converse_div(v, c as int, q as int, rem as int);
    }
    Some(q)
}

} // verus!
