//! What a sale brings, priced in IEEE 754 double precision.
//!
//! A sale of base value `b` with `t` rebirth tokens brings `b · (1 + t · 0.1)`
//! coins, where the base value, `t · 0.1`, the sum and the product are each
//! rounded to the nearest double (ties to even), and the result is rounded
//! half away from zero to whole coins and capped at `u64::MAX`. A double is
//! written here as a significand and a power-of-two exponent; every value that
//! occurs is a normal double, so rounding keeps 53 significant bits.
use vstd::prelude::*;

use crate::game::saturate;

verus! {

/// `2^k`.
pub open spec fn two_to(k: nat) -> nat
    decreases k,
{
    if k == 0 {
        1
    } else {
        2 * two_to((k - 1) as nat)
    }
}

/// `2^53`: significands stay below it.
pub const SIGNIFICAND_LIMIT: u128 = 9_007_199_254_740_992;

/// The double nearest to 0.1 is `TENTH_SIGNIFICAND · 2^-56`.
pub const TENTH_SIGNIFICAND: u128 = 7_205_759_403_792_794;

/// How many low bits `n` loses when it is cut to 53 significant bits.
pub open spec fn excess_bits(n: nat) -> nat
    decreases n,
{
    if n < SIGNIFICAND_LIMIT {
        0
    } else {
        1 + excess_bits(n / 2)
    }
}

/// `n / d` rounded to the nearest whole number, ties to the even one.
pub open spec fn div_nearest_even(n: nat, d: nat) -> nat {
    let q = n / d;
    let r = n % d;
    if 2 * r > d || (2 * r == d && q % 2 == 1) {
        q + 1
    } else {
        q
    }
}

/// The double nearest to `n · 2^e`, ties to even, as a significand below
/// `2^53` and an exponent.
pub open spec fn nearest_double(n: nat, e: int) -> (nat, int) {
    let s = excess_bits(n);
    let q = div_nearest_even(n, two_to(s));
    if q == SIGNIFICAND_LIMIT {
        ((SIGNIFICAND_LIMIT / 2) as nat, e + s + 1)
    } else {
        (q, e + s)
    }
}

/// The sale multiplier `1 + t · 0.1` as a double: `t · 0.1` is rounded, then
/// the sum.
pub open spec fn bonus_multiplier(tokens: u32) -> (nat, int) {
    let (a, ea) = nearest_double((tokens * TENTH_SIGNIFICAND) as nat, -56);
    if ea >= 0 {
        nearest_double(1 + a * two_to(ea as nat), 0)
    } else {
        nearest_double(two_to((-ea) as nat) + a, ea)
    }
}

/// `q · 2^e` rounded half up to a whole number; the value is never negative,
/// so half up is half away from zero.
pub open spec fn round_half_up(q: nat, e: int) -> nat {
    if e >= 0 {
        q * two_to(e as nat)
    } else {
        (q + two_to((-e - 1) as nat)) / two_to((-e) as nat)
    }
}

/// What a sale of base value `base` brings with `tokens` rebirth tokens: the
/// base as a double times the multiplier, rounded to a double, then to whole
/// coins.
pub open spec fn sale_amount(base: u64, tokens: u32) -> u64 {
    let (m, em) = bonus_multiplier(tokens);
    let (b, eb) = nearest_double(base as nat, 0);
    let (p, ep) = nearest_double(b * m, eb + em);
    saturate(round_half_up(p, ep) as int)
}

proof fn lemma_two_to_monotone(i: nat, j: nat)
    requires
        i <= j,
    ensures
        two_to(i) <= two_to(j),
    decreases j,
{
    if i < j {
        lemma_two_to_monotone(i, (j - 1) as nat);
    }
}

proof fn lemma_two_to_positive(k: nat)
    ensures
        two_to(k) >= 1,
    decreases k,
{
    if k > 0 {
        lemma_two_to_positive((k - 1) as nat);
    }
}

proof fn lemma_two_to_add(a: nat, b: nat)
    ensures
        two_to(a + b) == two_to(a) * two_to(b),
    decreases b,
{
    if b > 0 {
        let c = (b - 1) as nat;
        lemma_two_to_add(a, c);
        assert(two_to(a + b) == 2 * two_to(a + c));
        assert(two_to(b) == 2 * two_to(c));
        let x = two_to(a);
        let y = two_to(c);
        assert(x * (2 * y) == 2 * (x * y)) by (nonlinear_arith);
        assert(two_to(a) * two_to(b) == x * (2 * y));
    } else {
        assert(two_to(0) == 1);
        assert(a + b == a);
        assert(two_to(a) * 1 == two_to(a));
    }
}

proof fn lemma_two_to_product(a: nat, b: nat, x: nat, y: nat)
    requires
        two_to(a) == x,
        two_to(b) == y,
    ensures
        two_to(a + b) == x * y,
{
    lemma_two_to_add(a, b);
}

proof fn lemma_two_to_values()
    ensures
        two_to(48) == 281_474_976_710_656,
        two_to(53) == SIGNIFICAND_LIMIT,
        two_to(56) == 72_057_594_037_927_936,
        two_to(57) == 144_115_188_075_855_872,
        two_to(64) == 18_446_744_073_709_551_616,
        two_to(85) == 38_685_626_227_668_133_590_597_632,
        two_to(106) == 81_129_638_414_606_681_695_789_005_144_064,
        two_to(110) == 1_298_074_214_633_706_907_132_624_082_305_024,
        two_to(120) == 1_329_227_995_784_915_872_903_807_060_280_344_576,
{
    reveal_with_fuel(two_to, 14);
    assert(two_to(10) == 1024);
    assert(two_to(13) == 8192);
    assert(two_to(8) == 256);
    assert(two_to(4) == 16);
    assert(two_to(3) == 8);
    assert(two_to(1) == 2);
    lemma_two_to_product(10, 10, 1024, 1024);
    lemma_two_to_product(20, 20, 1_048_576, 1_048_576);
    lemma_two_to_product(40, 8, 1_099_511_627_776, 256);
    lemma_two_to_product(40, 13, 1_099_511_627_776, 8192);
    lemma_two_to_product(53, 3, 9_007_199_254_740_992, 8);
    lemma_two_to_product(56, 1, 72_057_594_037_927_936, 2);
    lemma_two_to_product(56, 8, 72_057_594_037_927_936, 256);
    lemma_two_to_product(64, 10, 18_446_744_073_709_551_616, 1024);
    lemma_two_to_product(74, 10, 18_889_465_931_478_580_854_784, 1024);
    lemma_two_to_product(84, 1, 19_342_813_113_834_066_795_298_816, 2);
    lemma_two_to_product(53, 53, 9_007_199_254_740_992, 9_007_199_254_740_992);
    lemma_two_to_product(106, 4, 81_129_638_414_606_681_695_789_005_144_064, 16);
    lemma_two_to_product(110, 10, 1_298_074_214_633_706_907_132_624_082_305_024, 1024);
}

/// A number below `2^(53 + k)` loses at most `k` bits.
proof fn lemma_excess_bits_bound(n: nat, k: nat)
    requires
        n < two_to(53 + k),
    ensures
        excess_bits(n) <= k,
    decreases k,
{
    lemma_two_to_values();
    if n >= SIGNIFICAND_LIMIT {
        if k == 0 {
            assert(false);
        } else {
            assert(two_to(53 + k) == 2 * two_to((53 + k - 1) as nat));
            lemma_excess_bits_bound(n / 2, (k - 1) as nat);
        }
    }
}

/// `2^k` as a machine number.
fn two_power(k: u32) -> (res: u128)
    requires
        k <= 120,
    ensures
        res == two_to(k as nat),
{
    proof {
        lemma_two_to_values();
    }
    let mut res: u128 = 1;
    let mut i: u32 = 0;
    while i < k
        invariant
            i <= k <= 120,
            res == two_to(i as nat),
            two_to(120) == 1_329_227_995_784_915_872_903_807_060_280_344_576,
        decreases k - i,
    {
        proof {
            lemma_two_to_monotone(i as nat, 119);
            assert(two_to(120) == 2 * two_to(119));
        }
        res = res * 2;
        i = i + 1;
    }
    res
}

/// The double nearest to `n · 2^e`, as `nearest_double` describes it.
fn nearest_double_of(n: u128, e: i64) -> (res: (u128, i64))
    requires
        n < two_to(110),
        -1000 <= e <= 1000,
    ensures
        res.0 as nat == nearest_double(n as nat, e as int).0,
        res.1 as int == nearest_double(n as nat, e as int).1,
        res.0 < SIGNIFICAND_LIMIT,
        e <= res.1 <= e + excess_bits(n as nat) + 1,
{
    proof {
        lemma_two_to_values();
    }
    let mut m: u128 = n;
    let mut p: u128 = 1;
    let mut s: i64 = 0;
    while m >= SIGNIFICAND_LIMIT
        invariant
            0 <= s <= 57,
            p == two_to(s as nat),
            1 <= p <= 144_115_188_075_855_872,
            m as nat == n as nat / p as nat,
            excess_bits(n as nat) == s + excess_bits(m as nat),
            n < two_to(110),
            two_to(53) == SIGNIFICAND_LIMIT,
            two_to(57) == 144_115_188_075_855_872,
            two_to(110) == 1_298_074_214_633_706_907_132_624_082_305_024,
        decreases m,
    {
        proof {
            assert(p * m <= n) by (nonlinear_arith)
                requires
                    m as nat == n as nat / p as nat,
                    p > 0,
            ;
            assert(p * SIGNIFICAND_LIMIT <= p * m) by (nonlinear_arith)
                requires
                    m >= SIGNIFICAND_LIMIT,
            ;
            assert(p < 144_115_188_075_855_872) by (nonlinear_arith)
                requires
                    p * SIGNIFICAND_LIMIT <= n,
                    n < 1_298_074_214_633_706_907_132_624_082_305_024,
                    SIGNIFICAND_LIMIT == 9_007_199_254_740_992,
            ;
            if s >= 57 {
                lemma_two_to_monotone(57, s as nat);
            }
            assert(p * 2 <= 144_115_188_075_855_872) by {
                lemma_two_to_monotone((s + 1) as nat, 57);
                assert(two_to((s + 1) as nat) == 2 * two_to(s as nat));
            }
            vstd::arithmetic::div_mod::lemma_div_denominator(n as int, p as int, 2);
        }
        m = m / 2;
        p = p * 2;
        s = s + 1;
    }
    let r = n % p;
    let q = m;
    let rounded: u128 = if 2 * r > p || (2 * r == p && q % 2 == 1) {
        q + 1
    } else {
        q
    };
    if rounded == SIGNIFICAND_LIMIT {
        (SIGNIFICAND_LIMIT / 2, e + s + 1)
    } else {
        (rounded, e + s)
    }
}

/// What a sale of base value `base` brings with `tokens` rebirth tokens.
pub fn sale_amount_of(base: u64, tokens: u32) -> (res: u64)
    ensures
        res == sale_amount(base, tokens),
{
    proof {
        lemma_two_to_values();
    }
    let scaled_tenth: u128 = tokens as u128 * TENTH_SIGNIFICAND;
    proof {
        assert(scaled_tenth < two_to(53 + 32)) by {
        }
        lemma_excess_bits_bound(scaled_tenth as nat, 32);
        lemma_two_to_monotone(85, 110);
    }
    let (a, ea) = nearest_double_of(scaled_tenth, -56);
    let k: u32 = (-ea) as u32;
    let whole_part = two_power(k);
    proof {
        lemma_two_to_monotone(k as nat, 56);
        assert(whole_part + a < two_to(53 + 4)) by {
            assert(two_to(57) == 144_115_188_075_855_872);
        }
        lemma_excess_bits_bound((whole_part + a) as nat, 4);
        lemma_two_to_monotone(57, 110);
    }
    let (m, em) = nearest_double_of(whole_part + a, ea);
    proof {
        assert(base < two_to(53 + 11)) by {
        }
        lemma_excess_bits_bound(base as nat, 11);
        lemma_two_to_monotone(64, 110);
    }
    let (b, eb) = nearest_double_of(base as u128, 0);
    proof {
        assert(b * m < SIGNIFICAND_LIMIT * SIGNIFICAND_LIMIT) by (nonlinear_arith)
            requires
                b < SIGNIFICAND_LIMIT,
                m < SIGNIFICAND_LIMIT,
        ;
        assert(SIGNIFICAND_LIMIT * SIGNIFICAND_LIMIT == two_to(53 + 53)) by {
        }
        lemma_excess_bits_bound((b * m) as nat, 53);
        lemma_two_to_monotone(106, 110);
    }
    let (p, ep) = nearest_double_of(b * m, eb + em);
    let whole: u128 = if ep >= 0 {
        let shift = two_power(ep as u32);
        proof {
            lemma_two_to_monotone(ep as nat, 48);
            assert(p * shift <= SIGNIFICAND_LIMIT * 281_474_976_710_656) by (nonlinear_arith)
                requires
                    p < SIGNIFICAND_LIMIT,
                    shift <= 281_474_976_710_656,
            ;
        }
        p * shift
    } else {
        let k: u32 = (-ep) as u32;
        let half = two_power(k - 1);
        let unit = two_power(k);
        proof {
            lemma_two_to_positive(k as nat);
            lemma_two_to_monotone((k - 1) as nat, 56);
        }
        (p + half) / unit
    };
    if whole > u64::MAX as u128 {
        u64::MAX
    } else {
        whole as u64
    }
}

} // verus!
