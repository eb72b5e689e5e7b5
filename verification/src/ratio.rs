//! Compact ratios: the share of a context window at which a conversation is
//! compacted.
//!
//! A ratio is an IEEE 754 binary64 number, held as its bit pattern. A window times
//! a ratio is computed in integers, rounded twice as binary64 arithmetic rounds:
//! once for the window and once for the product.

use vstd::prelude::*;

verus! {

/// A binary64 number, as its bit pattern.
#[derive(Debug, Clone, Copy, PartialEq, Eq, Structural)]
pub struct Ratio {
    pub bits: u64,
}

/// The bit pattern of 0.2, the lowest ratio that is taken.
pub const LOWEST_RATIO_BITS: u64 = 0x3fc9_9999_9999_999a;

/// The bit pattern of 0.95, the highest ratio that is taken and the default.
pub const HIGHEST_RATIO_BITS: u64 = 0x3fee_6666_6666_6666;

const TWO_52: u64 = 0x10_0000_0000_0000;

const TWO_53: u128 = 0x20_0000_0000_0000;

impl Ratio {
    /// Whether this is a number from 0.2 to 0.95. The patterns of positive numbers
    /// are ordered as the numbers are.
    pub open spec fn valid(self) -> bool {
        LOWEST_RATIO_BITS <= self.bits <= HIGHEST_RATIO_BITS
    }

    /// This ratio, or 0.95 in place of one that is not valid.
    pub open spec fn or_default(self) -> Ratio {
        if self.valid() {
            self
        } else {
            Ratio { bits: HIGHEST_RATIO_BITS }
        }
    }

    /// A valid ratio is [`significand`](Self::significand) over [`scale`](Self::scale).
    pub open spec fn significand(self) -> nat {
        (self.bits % 0x10_0000_0000_0000 + 0x10_0000_0000_0000) as nat
    }

    /// The power of two under a valid ratio's fraction, by its exponent.
    pub open spec fn scale(self) -> nat {
        let exponent = self.bits / 0x10_0000_0000_0000;
        if exponent == 0x3fc {
            0x80_0000_0000_0000
        } else if exponent == 0x3fd {
            0x40_0000_0000_0000
        } else {
            0x20_0000_0000_0000
        }
    }

    /// Whether this is a number from 0.2 to 0.95.
    pub fn is_valid(&self) -> (result: bool)
        ensures
            result == self.valid(),
    {
        LOWEST_RATIO_BITS <= self.bits && self.bits <= HIGHEST_RATIO_BITS
    }
}

/// The distance between neighbours among the numbers of 53 significant bits, where
/// `x` lies.
pub open spec fn spacing(x: nat) -> nat
    decreases x,
{
    if x < 0x20_0000_0000_0000 {
        1
    } else {
        2 * spacing(x / 2)
    }
}

/// The number of 53 significant bits that is nearest to `x`; of two that are
/// equally near, the even one.
pub open spec fn rounded(x: nat) -> nat {
    let unit = spacing(x);
    let below = x / unit;
    let rest = x % unit;
    if 2 * rest < unit || 2 * rest == unit && below % 2 == 0 {
        below * unit
    } else {
        (below + 1) * unit
    }
}

/// The whole part of a window times a ratio, in binary64 arithmetic.
pub open spec fn share(window: u64, ratio: Ratio) -> nat {
    rounded(rounded(window as nat) * ratio.significand()) / ratio.scale()
}

fn spacing_of(x: u128) -> (unit: u128)
    requires
        x < 0x100_0000_0000_0000_0000_0000_0000_0000,
    ensures
        unit == spacing(x as nat),
        unit >= 1,
        unit == 1 || unit * TWO_52 <= x,
    decreases x,
{
    if x < TWO_53 {
        1
    } else {
        let half: u128 = spacing_of(x / 2);
        2 * half
    }
}

fn round_to_53_bits(x: u128) -> (result: u128)
    requires
        x < 0x100_0000_0000_0000_0000_0000_0000_0000,
    ensures
        result == rounded(x as nat),
{
    let unit: u128 = spacing_of(x);
    let below: u128 = x / unit;
    let rest: u128 = x % unit;
    proof {
        vstd::arithmetic::div_mod::lemma_fundamental_div_mod(x as int, unit as int);
        assert(below * unit == unit * below) by (nonlinear_arith);
        assert((below + 1) * unit == below * unit + unit) by (nonlinear_arith);
    }
    if 2 * rest < unit || (2 * rest == unit && below % 2 == 0) {
        below * unit
    } else {
        (below + 1) * unit
    }
}

/// How far rounding can raise a number.
proof fn lemma_rounded_bound(x: nat)
    requires
        x < 0x100_0000_0000_0000_0000_0000_0000_0000,
    ensures
        rounded(x) * TWO_52 <= x * (TWO_52 + 1),
{
    lemma_spacing_bound(x);
    let unit = spacing(x);
    let below = x / unit;
    let rest = x % unit;
    vstd::arithmetic::div_mod::lemma_fundamental_div_mod(x as int, unit as int);
    assert(below * unit == unit * below) by (nonlinear_arith);
    assert((below + 1) * unit == below * unit + unit) by (nonlinear_arith);
    if unit == 1 {
        assert(rounded(x) == x);
    } else {
        assert(rounded(x) <= x + unit);
    }
}

proof fn lemma_spacing_bound(x: nat)
    ensures
        spacing(x) >= 1,
        spacing(x) == 1 || spacing(x) * TWO_52 <= x,
    decreases x,
{
    if x >= 0x20_0000_0000_0000 {
        lemma_spacing_bound(x / 2);
    }
}

/// Law: a share of a window never exceeds the window.
pub proof fn law_share_within_window(window: u64, ratio: Ratio)
    requires
        ratio.valid(),
    ensures
        share(window, ratio) <= window,
{
    let w = window as int;
    let m = ratio.significand() as int;
    let scale = ratio.scale() as int;
    let first = rounded(window as nat) as int;
    let product = first * m;
    lemma_rounded_bound(window as nat);
    assert(0 <= m < 0x20_0000_0000_0000);
    assert(first * TWO_52 <= w * (TWO_52 + 1));
    assert(first <= 2 * w);
    assert(product == rounded(window as nat) * ratio.significand());
    assert(0 <= product <= 2 * w * m) by (nonlinear_arith)
        requires
            0 <= first <= 2 * w,
            0 <= m,
            product == first * m,
    ;
    assert(2 * w * m <= 2 * w * 0x20_0000_0000_0000) by (nonlinear_arith)
        requires
            0 <= w,
            0 <= m < 0x20_0000_0000_0000,
    ;
    lemma_rounded_bound(product as nat);
    let second = rounded(product as nat) as int;
    assert(second * TWO_52 <= product * (TWO_52 + 1));
    // Both roundings together raise the product by less than the ratio lies below 1.
    assert(m * 20 <= scale * 19 + 20);
    let k: int = TWO_52 as int;
    assert(k * k == 0x100_0000_0000_0000_0000_0000_0000) by (nonlinear_arith)
        requires
            k == 0x10_0000_0000_0000,
    ;
    assert((k + 1) * (k + 1) == k * k + 2 * k + 1) by (nonlinear_arith);
    let up: int = (k + 1) * (k + 1);
    let down: int = k * k;
    assert(m * up <= scale * down) by (nonlinear_arith)
        requires
            up == 0x100_0000_0000_0020_0000_0000_0001,
            down == 0x100_0000_0000_0000_0000_0000_0000,
            m * 20 <= scale * 19 + 20,
            0x20_0000_0000_0000 <= scale,
    ;
    assert(second * (k * k) <= w * scale * (k * k)) by (nonlinear_arith)
        requires
            second * k <= product * (k + 1),
            product == first * m,
            first * k <= w * (k + 1),
            0 <= w,
            0 <= m,
            m * ((k + 1) * (k + 1)) <= scale * (k * k),
            k > 0,
    ;
    assert(second <= w * scale) by (nonlinear_arith)
        requires
            second * (k * k) <= w * scale * (k * k),
            k > 0,
    ;
    vstd::arithmetic::div_mod::lemma_div_is_ordered(second, w * scale, scale);
    vstd::arithmetic::div_mod::lemma_div_multiples_vanish(w, scale);
    assert(w * scale == scale * w) by (nonlinear_arith);
}

/// The whole part of a window times a valid ratio.
pub fn share_of(window: u64, ratio: Ratio) -> (result: u64)
    requires
        ratio.valid(),
    ensures
        result == share(window, ratio),
{
    let exponent: u64 = ratio.bits / TWO_52;
    let significand: u64 = ratio.bits % TWO_52 + TWO_52;
    let scale: u128 = if exponent == 0x3fc {
        0x80_0000_0000_0000
    } else if exponent == 0x3fd {
        0x40_0000_0000_0000
    } else {
        0x20_0000_0000_0000
    };
    let first: u128 = round_to_53_bits(window as u128);
    proof {
        lemma_rounded_bound(window as nat);
        assert(first <= 0x2_0000_0000_0000_0000);
        assert(first * significand < 0x100_0000_0000_0000_0000_0000_0000_0000) by (nonlinear_arith)
            requires
                0 <= first <= 0x2_0000_0000_0000_0000,
                0 <= significand < 0x20_0000_0000_0000,
        ;
    }
    let second: u128 = round_to_53_bits(first * significand as u128);
    proof {
        law_share_within_window(window, ratio);
    }
    (second / scale) as u64
}

/// Law: a ratio from 0.2 to 0.95 counts as it is, and 0.95 counts in place of any other.
pub proof fn law_ratio_or_default(ratio: Ratio)
    ensures
        0x3fc9_9999_9999_999a <= ratio.bits <= 0x3fee_6666_6666_6666 ==> ratio.or_default()
            == ratio,
        !(0x3fc9_9999_9999_999a <= ratio.bits <= 0x3fee_6666_6666_6666)
            ==> ratio.or_default().bits == 0x3fee_6666_6666_6666,
{
}

/// Law: a valid ratio is its fraction bits, with the leading one, over a power of two: the one
/// with 53 zeros from a half on, twice that from a quarter on, and four times that below.
pub proof fn law_ratio_as_fraction(ratio: Ratio)
    requires
        ratio.valid(),
    ensures
        ratio.bits >= 0x3fe0_0000_0000_0000 ==> ratio.scale() == 0x20_0000_0000_0000
            && ratio.significand() == ratio.bits - 0x3fd0_0000_0000_0000,
        0x3fd0_0000_0000_0000 <= ratio.bits < 0x3fe0_0000_0000_0000 ==> ratio.scale()
            == 0x40_0000_0000_0000 && ratio.significand() == ratio.bits - 0x3fc0_0000_0000_0000,
        ratio.bits < 0x3fd0_0000_0000_0000 ==> ratio.scale() == 0x80_0000_0000_0000
            && ratio.significand() == ratio.bits - 0x3fb0_0000_0000_0000,
{
}

/// Law: the share of a window is the whole part of the window times the ratio, but for the
/// rounding of the product, which moves it by less than one.
pub proof fn law_share_is_window_times_ratio(window: u64, ratio: Ratio)
    requires
        ratio.valid(),
        window < 0x20_0000_0000_0000,
    ensures
        share(window, ratio) * ratio.scale() <= window * ratio.significand() + window,
        window * ratio.significand() < (share(window, ratio) + 1) * ratio.scale() + window,
{
    let w = window as int;
    let m = ratio.significand() as int;
    let scale = ratio.scale() as int;
    assert(spacing(window as nat) == 1);
    assert(rounded(window as nat) == window);
    let product = w * m;
    assert(0 <= product <= w * 0x20_0000_0000_0000) by (nonlinear_arith)
        requires
            product == w * m,
            0 <= w,
            0 <= m < 0x20_0000_0000_0000,
    ;
    lemma_rounded_is_near(product as nat);
    lemma_spacing_bound(product as nat);
    let unit = spacing(product as nat) as int;
    assert(unit == 1 || unit <= 2 * w);
    let second = rounded(product as nat) as int;
    let part = second / scale;
    vstd::arithmetic::div_mod::lemma_fundamental_div_mod(second, scale);
    vstd::arithmetic::div_mod::lemma_mod_bound(second, scale);
    assert(part * scale == scale * part) by (nonlinear_arith);
    assert((part + 1) * scale == scale * part + scale) by (nonlinear_arith);
    if unit == 1 {
        assert(rounded(product as nat) == product);
    }
}

/// Rounding moves a number by no more than half the distance between neighbours.
proof fn lemma_rounded_is_near(x: nat)
    ensures
        2 * rounded(x) <= 2 * x + spacing(x),
        2 * x <= 2 * rounded(x) + spacing(x),
{
    lemma_spacing_bound(x);
    let unit = spacing(x);
    let below = x / unit;
    vstd::arithmetic::div_mod::lemma_fundamental_div_mod(x as int, unit as int);
    vstd::arithmetic::div_mod::lemma_mod_bound(x as int, unit as int);
    assert(below * unit == unit * below) by (nonlinear_arith);
    assert((below + 1) * unit == below * unit + unit) by (nonlinear_arith);
}

/// Law: a number is rounded to the nearest of its neighbours, and of two that are equally near to
/// the one whose last bit is zero. The neighbours are the multiples of a power of two that leaves
/// the number 53 bits, and no smaller one does.
pub proof fn law_rounded_to_nearest(x: nat)
    ensures
        x < 0x20_0000_0000_0000 ==> rounded(x) == x,
        ({
            let unit = spacing(x);
            let count = rounded(x) / unit;
            &&& unit >= 1
            &&& unit == 1 || unit * 0x10_0000_0000_0000 <= x
            &&& x < unit * 0x20_0000_0000_0000
            &&& rounded(x) == count * unit
            &&& 2 * rounded(x) <= 2 * x + unit
            &&& 2 * x <= 2 * rounded(x) + unit
            &&& 2 * rounded(x) == 2 * x + unit || 2 * x == 2 * rounded(x) + unit ==> count % 2 == 0
        }),
{
    lemma_rounded_is_near(x);
    lemma_spacing_bound(x);
    lemma_spacing_leaves_53_bits(x);
    let unit = spacing(x) as int;
    let below = x as int / unit;
    let rest = x as int % unit;
    vstd::arithmetic::div_mod::lemma_fundamental_div_mod(x as int, unit);
    vstd::arithmetic::div_mod::lemma_mod_bound(x as int, unit);
    vstd::arithmetic::div_mod::lemma_div_multiples_vanish(below, unit);
    vstd::arithmetic::div_mod::lemma_div_multiples_vanish(below + 1, unit);
    assert(below * unit == unit * below) by (nonlinear_arith);
    assert((below + 1) * unit == unit * (below + 1)) by (nonlinear_arith);
    assert(unit * (below + 1) == unit * below + unit) by (nonlinear_arith);
}

proof fn lemma_spacing_leaves_53_bits(x: nat)
    ensures
        x < spacing(x) * 0x20_0000_0000_0000,
    decreases x,
{
    if x >= 0x20_0000_0000_0000 {
        lemma_spacing_leaves_53_bits(x / 2);
    }
}

} // verus!
