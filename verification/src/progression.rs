//! Progression: experience accumulation, level-ups on an exponential
//! threshold curve, and the derived combat statistics.
//!
//! The level-up threshold at level `l` is `ceil(1.5^l * 100)`
//! experience points; stat curves scale by `1.2^l`.  Both ratios are
//! held as exact integer fractions (`3/2` and `6/5`), so every value
//! here is an exact integer and the multi-level-up loop is proved to
//! settle at the first level whose threshold exceeds the accumulated
//! experience.

use crate::health::{health_wf, Health, HEALTH_LIM};
use vstd::arithmetic::div_mod::{
    lemma_div_by_multiple, lemma_div_is_ordered, lemma_div_multiples_vanish_fancy,
    lemma_fundamental_div_mod,
};
use vstd::arithmetic::mul::lemma_mul_inequality;
use vstd::arithmetic::power::{
    lemma_pow0, lemma_pow1, lemma_pow_adds, lemma_pow_distributes, lemma_pow_increases,
    lemma_pow_multiplies, lemma_pow_positive, pow,
};
use vstd::arithmetic::power2::{lemma2_to64, lemma2_to64_rest, lemma_pow2};
use vstd::prelude::*;

verus! {

/// Highest level the progression model reaches; experience is capped
/// so that this level's threshold can never be met.
pub const LEVEL_CAP: u32 = 40;

/// Experience saturates here; the threshold of `LEVEL_CAP` lies
/// strictly above it.
pub const EXP_CAP: u64 = 100_000_000;

/// Largest base value (milli-hit-points or milli-damage) a stat
/// curve may start from.
pub const STAT_BASE_LIM: u64 = 10_000_000;

/// Level, accumulated experience, and the growth curve of the
/// owner's maximum health (an exact fraction `exp_num / exp_den`
/// applied per level to `max_health_base`).
#[derive(Clone, Copy, Debug, PartialEq, Eq, Structural)]
pub struct Progression {
    pub level: u32,
    pub exp: u64,
    pub max_health_base: u64,
    pub exp_num: u32,
    pub exp_den: u32,
}

/// Well-formed progression state: level and experience within the
/// model's caps, and a health curve whose ratio lies in `(1, 2]` so
/// that every derived value fits the health range.
pub open spec fn progression_wf(p: Progression) -> bool {
    &&& p.level <= LEVEL_CAP
    &&& p.exp <= EXP_CAP
    &&& 0 < p.max_health_base <= STAT_BASE_LIM
    &&& 1 <= p.exp_den <= p.exp_num <= 6
    &&& p.exp_num <= 2 * p.exp_den
}

/// Whether accumulated experience `exp` meets the level-up threshold
/// of `level`: `exp >= ceil(1.5^level * 100)`, stated without
/// division as `exp * 2^level >= 100 * 3^level`.
pub open spec fn threshold_reached(exp: int, level: nat) -> bool {
    exp * pow(2, level) >= 100 * pow(3, level)
}

/// The level-up threshold of `level` as a value:
/// `ceil(100 * 3^level / 2^level)`.
pub open spec fn threshold_of(level: nat) -> int {
    (100 * pow(3, level) + pow(2, level) - 1) / pow(2, level)
}

/// The maximum health granted at `level` by a curve with base
/// `base` milli-hit-points and ratio `num / den`: the ceiling of
/// `base * (num/den)^level` taken at whole-hit-point granularity,
/// expressed back in milli-hit-points.
pub open spec fn max_health_of(base: int, num: int, den: int, level: nat) -> int {
    ((base * pow(num, level) + 1000 * pow(den, level) - 1) / (1000 * pow(den, level))) * 1000
}

/// A combat stat scaled by `1.2^level`, rounded down:
/// `floor(base * 6^level / 5^level)`.
pub open spec fn scaled_stat_of(base: int, level: nat) -> int {
    base * pow(6, level) / pow(5, level)
}

/// Powers with a smaller base stay below powers with a larger base.
proof fn lemma_pow_base_le(a: int, b: int, e: nat)
    requires
        1 <= a <= b,
    ensures
        pow(a, e) <= pow(b, e),
    decreases e,
{
    reveal(pow);
    if e > 0 {
        lemma_pow_base_le(a, b, (e - 1) as nat);
        lemma_pow_positive(a, (e - 1) as nat);
        lemma_pow_positive(b, (e - 1) as nat);
        assert(a * pow(a, (e - 1) as nat) <= b * pow(b, (e - 1) as nat)) by (nonlinear_arith)
            requires
                1 <= a <= b,
                0 < pow(a, (e - 1) as nat) <= pow(b, (e - 1) as nat),
        ;
    }
}

/// Small powers written out.
proof fn lemma_small_pows()
    ensures
        pow(2, 2) == 4,
        pow(2, 3) == 8,
        pow(3, 2) == 9,
{
    reveal(pow);
    lemma_pow1(2);
    lemma_pow1(3);
    assert(pow(2, 2) == 2 * pow(2, 1));
    assert(pow(2, 3) == 2 * pow(2, 2));
    assert(pow(3, 2) == 3 * pow(3, 1));
}

/// The powers of two this module leans on, as plain numbers.
proof fn lemma_pow2_values()
    ensures
        pow(2, 20) == 0x100000,
        pow(2, 40) == 0x10000000000,
        pow(2, 60) == 0x1000000000000000,
{
    lemma_pow2(20);
    lemma_pow2(40);
    lemma_pow2(60);
    lemma2_to64();
    lemma2_to64_rest();
}

/// Every power with base at most 6 and exponent at most `LEVEL_CAP`
/// stays below `2^104`, leaving room for a `STAT_BASE_LIM` factor in
/// `u128`.
proof fn lemma_pow_cap(b: int, l: nat)
    requires
        1 <= b <= 6,
        l <= LEVEL_CAP,
    ensures
        1 <= pow(b, l) <= 0x10000000000000 * 0x10000000000000,
{
    reveal(pow);
    lemma_pow_positive(b, l);
    lemma_pow_base_le(b, 6, l);
    lemma_pow_increases(6, l, LEVEL_CAP as nat);
    // 6^40 == (6^5)^8 <= (2^13)^8 == 2^104
    lemma_pow1(6);
    assert(pow(6, 2) == 6 * pow(6, 1));
    assert(pow(6, 3) == 6 * pow(6, 2));
    assert(pow(6, 4) == 6 * pow(6, 3));
    assert(pow(6, 5) == 6 * pow(6, 4));
    lemma_pow_multiplies(6, 5, 8);
    lemma_pow_base_le(7776, 8192, 8);
    lemma_pow2(13);
    lemma_pow2(52);
    lemma2_to64();
    lemma2_to64_rest();
    lemma_pow_multiplies(2, 13, 8);
    lemma_pow_adds(2, 52, 52);
    assert(pow(6, 5) == 7776);
    assert(pow(6, LEVEL_CAP as nat) == pow(pow(6, 5), 8));
    assert(pow(pow(6, 5), 8) <= pow(8192, 8));
    assert(pow(2, 13) == 8192);
    assert(pow(8192, 8) == pow(pow(2, 13), 8));
    assert(pow(pow(2, 13), 8) == pow(2, 104));
    assert(pow(2, 104) == pow(2, 52) * pow(2, 52));
    assert(pow(2, 52) == 0x10000000000000);
}

/// Meeting the threshold predicate is the same as reaching the
/// threshold value.
pub proof fn lemma_threshold_value(exp: int, level: nat)
    requires
        0 <= exp,
    ensures
        threshold_reached(exp, level) <==> exp >= threshold_of(level),
{
    let n = 100 * pow(3, level);
    let d = pow(2, level);
    lemma_pow_positive(3, level);
    lemma_pow_positive(2, level);
    let t = threshold_of(level);
    lemma_fundamental_div_mod(n + d - 1, d);
    let r = (n + d - 1) % d;
    assert(n + d - 1 == d * t + r);
    if exp * d >= n {
        if exp <= t - 1 {
            lemma_mul_inequality(exp, t - 1, d);
            assert((t - 1) * d == d * t - d) by (nonlinear_arith);
            assert(d * t - d == n - 1 - r);
            assert(exp * d <= n - 1 - r);
            assert(false);
        }
    } else {
        if exp >= t {
            lemma_mul_inequality(t, exp, d);
            assert(t * d == d * t) by (nonlinear_arith);
            assert(d * t == n + d - 1 - r);
            assert(exp * d >= n + d - 1 - r);
            assert(exp * d >= n);
            assert(false);
        }
    }
}

/// Raise `b` to the `e`-th power exactly.
fn pow_u128(b: u64, e: u32) -> (r: u128)
    requires
        1 <= b,
        pow(b as int, e as nat) <= u128::MAX,
    ensures
        r as int == pow(b as int, e as nat),
        r >= 1,
{
    proof {
        lemma_pow0(b as int);
    }
    let mut r: u128 = 1;
    let mut i: u32 = 0;
    while i < e
        invariant
            i <= e,
            1 <= b,
            r as int == pow(b as int, i as nat),
            r >= 1,
            pow(b as int, e as nat) <= u128::MAX,
        decreases e - i,
    {
        proof {
            reveal(pow);
            lemma_pow_positive(b as int, i as nat);
            lemma_pow_positive(b as int, (i + 1) as nat);
            assert(pow(b as int, (i + 1) as nat) == b * pow(b as int, i as nat));
            lemma_pow_increases(b as nat, (i + 1) as nat, e as nat);
            assert(pow(b as int, (i + 1) as nat) <= u128::MAX);
            assert((r as int) * (b as int) == pow(b as int, (i + 1) as nat))
                by (nonlinear_arith)
                requires
                    r as int == pow(b as int, i as nat),
                    pow(b as int, (i + 1) as nat) == b * pow(b as int, i as nat),
            ;
        }
        r = r * (b as u128);
        i = i + 1;
    }
    r
}

/// The threshold value of `level`, in experience points.
pub fn level_threshold(level: u32) -> (t: u64)
    requires
        level <= LEVEL_CAP,
    ensures
        t as int == threshold_of(level as nat),
        t >= 100,
{
    proof {
        lemma_pow_cap(3, level as nat);
        lemma_pow_cap(2, level as nat);
    }
    let p3: u128 = pow_u128(3, level);
    let p2: u128 = pow_u128(2, level);
    let num: u128 = 100 * p3 + p2 - 1;
    let t: u128 = num / p2;
    proof {
        let l = level as nat;
        let p2i = pow(2, l);
        let p3i = pow(3, l);
        assert(p3i <= p2i * p2i) by {
            lemma_pow_base_le(3, 4, l);
            lemma_small_pows();
            lemma_pow_distributes(2, 2, l);
            assert(pow(4, l) == p2i * p2i);
        }
        assert(100 * p3i + p2i - 1 <= p2i * (100 * p2i) + (p2i - 1)) by (nonlinear_arith)
            requires
                p3i <= p2i * p2i,
                p2i >= 1,
        ;
        lemma_div_is_ordered(100 * p3i + p2i - 1, p2i * (100 * p2i) + (p2i - 1), p2i);
        lemma_div_multiples_vanish_fancy(100 * p2i, p2i - 1, p2i);
        assert(100 * p2i <= 100 * pow(2, LEVEL_CAP as nat)) by {
            lemma_pow_increases(2, l, LEVEL_CAP as nat);
        }
        lemma_pow2_values();
        assert(p3i >= p2i) by {
            lemma_pow_base_le(2, 3, l);
        }
        assert(100 * p3i + p2i - 1 >= p2i * 100 + (p2i - 1)) by (nonlinear_arith)
            requires
                p3i >= p2i >= 1,
        ;
        lemma_div_is_ordered(p2i * 100 + (p2i - 1), 100 * p3i + p2i - 1, p2i);
        lemma_div_multiples_vanish_fancy(100, p2i - 1, p2i);
    }
    t as u64
}

/// The experience cap lies strictly below the threshold of the level
/// cap, so a capped experience pool can never meet it.
pub proof fn lemma_cap_settles(exp: int)
    requires
        0 <= exp <= EXP_CAP,
    ensures
        !threshold_reached(exp, LEVEL_CAP as nat),
{
    let p40 = pow(2, 40);
    lemma_small_pows();
    // 3^40 == 9^20 >= 8^20 == 2^60 == 2^20 * 2^40
    lemma_pow_multiplies(3, 2, 20);
    lemma_pow_base_le(8, 9, 20);
    lemma_pow_multiplies(2, 3, 20);
    lemma_pow_adds(2, 20, 40);
    lemma_pow2_values();
    lemma_pow_positive(2, 40);
    assert(pow(3, LEVEL_CAP as nat) >= 0x100000 * p40);
    assert(exp * p40 < 100 * (0x100000 * p40)) by (nonlinear_arith)
        requires
            0 <= exp <= EXP_CAP,
            p40 >= 1,
    ;
    assert(100 * (0x100000 * p40) <= 100 * pow(3, LEVEL_CAP as nat)) by (nonlinear_arith)
        requires
            0x100000 * p40 <= pow(3, LEVEL_CAP as nat),
    ;
}

/// Maximum health granted at `level` by the curve `(base, num, den)`,
/// in milli-hit-points.
pub fn curve_max_health(base: u64, num: u32, den: u32, level: u32) -> (r: u64)
    requires
        0 < base <= STAT_BASE_LIM,
        1 <= den <= num <= 6,
        num <= 2 * den,
        level <= LEVEL_CAP,
    ensures
        r as int == max_health_of(base as int, num as int, den as int, level as nat),
        0 < r <= HEALTH_LIM,
{
    proof {
        lemma_pow_cap(num as int, level as nat);
        lemma_pow_cap(den as int, level as nat);
    }
    let pn: u128 = pow_u128(num as u64, level);
    let pd: u128 = pow_u128(den as u64, level);
    proof {
        let l = level as nat;
        let pni = pow(num as int, l);
        let pdi = pow(den as int, l);
        let p2i = pow(2, l);
        assert(pni <= p2i * pdi) by {
            lemma_pow_base_le(num as int, 2 * (den as int), l);
            lemma_pow_distributes(2, den as int, l);
        }
        assert((base as int) * pni <= (base as int) * (p2i * pdi)) by (nonlinear_arith)
            requires
                pni <= p2i * pdi,
                base >= 1,
        ;
        assert((base as int) * (p2i * pdi) == pdi * ((base as int) * p2i)) by (nonlinear_arith);
        lemma_pow_increases(2, l, LEVEL_CAP as nat);
        lemma_pow_positive(2, l);
        assert((base as int) * p2i <= (STAT_BASE_LIM as int) * pow(2, LEVEL_CAP as nat))
            by (nonlinear_arith)
            requires
                0 < base <= STAT_BASE_LIM,
                0 < p2i <= pow(2, LEVEL_CAP as nat),
        ;
        lemma_pow2_values();
        assert((base as int) * pni <= (STAT_BASE_LIM as int) * (0x10000000000000
            * 0x10000000000000)) by (nonlinear_arith)
            requires
                0 <= pni <= 0x10000000000000 * 0x10000000000000,
                0 < base <= STAT_BASE_LIM,
        ;
    }
    let d: u128 = 1000 * pd;
    let t: u128 = (base as u128) * pn + d - 1;
    let hp: u128 = t / d;
    proof {
        let l = level as nat;
        let pni = pow(num as int, l);
        let pdi = pow(den as int, l);
        let p2i = pow(2, l);
        let cap = (base as int) * p2i;
        let di = 1000 * pdi;
        let q = cap / 1000;
        lemma_fundamental_div_mod(cap, 1000);
        vstd::arithmetic::div_mod::lemma_mod_division_less_than_divisor(cap, 1000);
        let rm = cap % 1000;
        assert(pdi * cap <= di * q + di) by (nonlinear_arith)
            requires
                di == 1000 * pdi,
                cap == 1000 * q + rm,
                0 <= rm < 1000,
                pdi >= 1,
        ;
        assert(di * (q + 1) == di * q + di) by (nonlinear_arith);
        assert(t as int <= di * (q + 1) + (di - 1));
        lemma_div_is_ordered(t as int, di * (q + 1) + (di - 1), di);
        lemma_div_multiples_vanish_fancy(q + 1, di - 1, di);
        assert(hp as int <= q + 1);
        assert(1000 * q <= cap);
        // lower bound: the curve never shrinks the base
        assert(pni >= pdi) by {
            lemma_pow_base_le(den as int, num as int, l);
        }
        assert((base as int) * pni >= 1 * pdi) by (nonlinear_arith)
            requires
                base >= 1,
                pni >= pdi >= 1,
        ;
        assert(t as int >= di);
        lemma_div_is_ordered(di, t as int, di);
        lemma_div_by_multiple(1, di);
        assert(hp >= 1);
    }
    let r: u128 = hp * 1000;
    r as u64
}

/// A combat stat with base value `base` (milli-units) scaled by
/// `1.2^level`, rounded down.
pub fn scaled_stat(base: u64, level: u32) -> (r: u64)
    requires
        0 < base <= STAT_BASE_LIM,
        level <= LEVEL_CAP,
    ensures
        r as int == scaled_stat_of(base as int, level as nat),
        base <= r,
        r <= HEALTH_LIM,
{
    proof {
        lemma_pow_cap(6, level as nat);
        lemma_pow_cap(5, level as nat);
    }
    let p6: u128 = pow_u128(6, level);
    let p5: u128 = pow_u128(5, level);
    proof {
        let l = level as nat;
        let p6i = pow(6, l);
        let p5i = pow(5, l);
        let p2i = pow(2, l);
        assert(p6i <= p2i * p5i) by {
            lemma_pow_base_le(6, 10, l);
            lemma_pow_distributes(2, 5, l);
        }
        assert((base as int) * p6i <= (base as int) * (p2i * p5i)) by (nonlinear_arith)
            requires
                p6i <= p2i * p5i,
                base >= 1,
        ;
        lemma_pow_increases(2, l, LEVEL_CAP as nat);
        lemma_pow_positive(2, l);
        lemma_pow_positive(5, l);
        lemma_pow_positive(6, l);
        assert((base as int) * p2i <= (STAT_BASE_LIM as int) * pow(2, LEVEL_CAP as nat))
            by (nonlinear_arith)
            requires
                0 < base <= STAT_BASE_LIM,
                0 < p2i <= pow(2, LEVEL_CAP as nat),
        ;
        lemma_pow2_values();
        assert((base as int) * p6i <= (STAT_BASE_LIM as int) * (0x10000000000000
            * 0x10000000000000)) by (nonlinear_arith)
            requires
                0 <= p6i <= 0x10000000000000 * 0x10000000000000,
                0 < base <= STAT_BASE_LIM,
        ;
    }
    let t: u128 = (base as u128) * p6;
    let r: u128 = t / p5;
    proof {
        let l = level as nat;
        let p6i = pow(6, l);
        let p5i = pow(5, l);
        let p2i = pow(2, l);
        let cap = (base as int) * p2i;
        assert((base as int) * (p2i * p5i) == ((base as int) * p2i) * p5i) by (nonlinear_arith);
        lemma_div_is_ordered(t as int, cap * p5i, p5i);
        lemma_div_by_multiple(cap, p5i);
        // lower bound
        assert(p6i >= p5i) by {
            lemma_pow_base_le(5, 6, l);
        }
        assert((base as int) * p6i >= (base as int) * p5i) by (nonlinear_arith)
            requires
                base >= 1,
                p6i >= p5i >= 1,
        ;
        lemma_div_is_ordered((base as int) * p5i, t as int, p5i);
        lemma_div_by_multiple(base as int, p5i);
    }
    r as u64
}

impl Progression {
    /// A fresh progression at level zero on the default health curve
    /// (base 10 hit-points, ratio 1.2 per level).
    pub fn new() -> (r: Progression)
        ensures
            r.level == 0 && r.exp == 0,
            r.max_health_base == 10_000 && r.exp_num == 6 && r.exp_den == 5,
            progression_wf(r),
    {
        Progression { level: 0, exp: 0, max_health_base: 10_000, exp_num: 6, exp_den: 5 }
    }

    /// The maximum health granted by the owner's current level.
    pub fn max_health(&self) -> (r: u64)
        requires
            progression_wf(*self),
        ensures
            r as int == max_health_of(
                self.max_health_base as int,
                self.exp_num as int,
                self.exp_den as int,
                self.level as nat,
            ),
            0 < r <= HEALTH_LIM,
    {
        curve_max_health(self.max_health_base, self.exp_num, self.exp_den, self.level)
    }

    /// Add experience (saturating at the cap) and raise the level
    /// while the accumulated experience meets each successive
    /// threshold; on any level gain the health pool is rebuilt at the
    /// new maximum and fully restored.
    pub fn gain(&mut self, hp: &mut Health, amount: u64)
        requires
            progression_wf(*old(self)),
        ensures
            progression_wf(*final(self)),
            final(self).max_health_base == old(self).max_health_base,
            final(self).exp_num == old(self).exp_num,
            final(self).exp_den == old(self).exp_den,
            final(self).exp == if old(self).exp + amount >= EXP_CAP {
                EXP_CAP as int
            } else {
                old(self).exp + amount
            },
            final(self).level >= old(self).level,
            !threshold_reached(final(self).exp as int, final(self).level as nat),
            forall|l: nat|
                old(self).level <= l < final(self).level ==> threshold_reached(
                    final(self).exp as int,
                    l,
                ),
            final(self).level > old(self).level ==> final(hp).max == max_health_of(
                old(self).max_health_base as int,
                old(self).exp_num as int,
                old(self).exp_den as int,
                final(self).level as nat,
            ) && final(hp).val == final(hp).max && health_wf(*final(hp)),
            final(self).level == old(self).level ==> *final(hp) == *old(hp),
    {
        let new_exp: u64 = if amount >= EXP_CAP {
            EXP_CAP
        } else if self.exp + amount >= EXP_CAP {
            EXP_CAP
        } else {
            self.exp + amount
        };
        self.exp = new_exp;
        proof {
            lemma_pow_cap(3, self.level as nat);
            lemma_pow_cap(2, self.level as nat);
            lemma_pow_increases(3, self.level as nat, LEVEL_CAP as nat);
            lemma_pow_increases(2, self.level as nat, LEVEL_CAP as nat);
            lemma_pow_cap(3, LEVEL_CAP as nat);
            lemma_pow2_values();
        }
        let mut p3: u128 = pow_u128(3, self.level);
        let mut p2: u128 = pow_u128(2, self.level);
        let start: u32 = self.level;
        let mut level: u32 = self.level;
        proof {
            assert((new_exp as int) * (p2 as int) <= 100_000_000 * 0x10000000000)
                by (nonlinear_arith)
                requires
                    0 <= new_exp <= 100_000_000,
                    0 <= p2 <= 0x10000000000,
            ;
        }
        while (new_exp as u128) * p2 >= 100 * p3
            invariant
                start <= level <= LEVEL_CAP,
                new_exp <= EXP_CAP,
                p3 as int == pow(3, level as nat),
                p2 as int == pow(2, level as nat),
                p3 as int <= pow(3, LEVEL_CAP as nat),
                p2 <= 0x10000000000,
                (new_exp as int) * (p2 as int) <= 100_000_000 * 0x10000000000,
                pow(3, LEVEL_CAP as nat) <= 0x10000000000000 * 0x10000000000000,
                forall|l: nat| start <= l < level ==> threshold_reached(new_exp as int, l),
            decreases LEVEL_CAP - level,
        {
            proof {
                reveal(pow);
                assert(threshold_reached(new_exp as int, level as nat));
                lemma_cap_settles(new_exp as int);
                assert(level < LEVEL_CAP);
                assert(pow(3, (level + 1) as nat) == 3 * pow(3, level as nat));
                assert(pow(2, (level + 1) as nat) == 2 * pow(2, level as nat));
                lemma_pow_increases(3, (level + 1) as nat, LEVEL_CAP as nat);
                lemma_pow_increases(2, (level + 1) as nat, LEVEL_CAP as nat);
                lemma_pow2_values();
            }
            level = level + 1;
            p3 = p3 * 3;
            p2 = p2 * 2;
            proof {
                assert((new_exp as int) * (p2 as int) <= 100_000_000 * 0x10000000000)
                    by (nonlinear_arith)
                    requires
                        0 <= new_exp <= 100_000_000,
                        0 <= p2 <= 0x10000000000,
                ;
            }
        }
        self.level = level;
        if level > start {
            let mh = self.max_health();
            hp.max = mh;
            hp.val = mh;
        }
    }
}

} // verus!
