//! Byte counts in human units, with two decimals, computed on integers.
//!
//! A scaled count is the quotient of the byte count by the unit, taken to the
//! nearest binary floating-point number of a given precision and then written
//! with two decimals, a half going to the even neighbour. Both roundings are
//! stated here over integers.

use crate::text::{decimal, decimal_text, digit_char, digit_str};
use vstd::prelude::*;
use vstd::string::*;

verus! {

/// Two to the power of one less than the precision of a double-precision number.
pub const DOUBLE_HALF: u128 = 0x10_0000_0000_0000;

/// Two to the power of one less than the precision of a single-precision number.
pub const SINGLE_HALF: u128 = 0x80_0000;

/// The power of two below which the quotient of `num` by a unit lies within
/// a factor of two: `p` is doubled, together with `unit_p`, the unit taken
/// `p` times, until `num` is less than twice `unit_p`.
pub open spec fn binade(num: nat, unit_p: nat, p: nat) -> nat
    decreases num - unit_p,
{
    if unit_p == 0 || num < 2 * unit_p {
        p
    } else {
        binade(num, 2 * unit_p, 2 * p)
    }
}

/// Where the nearest floating-point number lies relative to `num / den`:
/// 1 above, -1 below, 0 on it. `half` is two to the power of one less than the
/// precision; a quotient halfway between two numbers goes to the even one.
pub open spec fn float_side(num: nat, den: nat, half: nat) -> int {
    let scale = half / binade(num, den, 1);
    let scaled = num * scale;
    let m = scaled / den;
    let r = scaled % den;
    if r == 0 {
        0
    } else if 2 * r > den || (2 * r == den && m % 2 == 1) {
        1
    } else {
        -1
    }
}

/// `num / den` in hundredths: the quotient is rounded to a floating-point
/// number first, and that number to two decimals, a half going to the even
/// hundredth.
pub open spec fn hundredths(num: nat, den: nat, half: nat) -> nat {
    let k = (100 * num) / den;
    let rem = (100 * num) % den;
    if 2 * rem < den {
        k
    } else if 2 * rem > den {
        k + 1
    } else {
        let side = float_side(num, den, half);
        if side > 0 {
            k + 1
        } else if side < 0 {
            k
        } else if k % 2 == 0 {
            k
        } else {
            k + 1
        }
    }
}

/// The hundredths lie as near to the quotient as hundredths can: at most
/// half a hundredth from it.
pub proof fn lemma_hundredths_nearest(num: nat, den: nat, half: nat)
    requires
        den > 0,
    ensures
        -(den as int) <= 2 * (100 * num - hundredths(num, den, half) * den) <= den,
{
    let k = (100 * num) / den;
    let rem = (100 * num) % den;
    assert(100 * num == k * den + rem && 0 <= rem < den) by (nonlinear_arith)
        requires
            den > 0,
            k == (100 * num) / den,
            rem == (100 * num) % den,
    ;
    let h = hundredths(num, den, half);
    assert(h == k || h == k + 1);
    if h == k {
        assert(2 * rem <= den);
    } else {
        assert(2 * rem >= den);
        assert((k + 1) * den == k * den + den) by (nonlinear_arith);
    }
}

/// A count of hundredths written with a point and two decimals.
pub open spec fn scaled_text(h: nat) -> Seq<char> {
    decimal(h / 100) + "."@ + seq![digit_char(h % 100 / 10)] + seq![digit_char(h % 10)]
}

/// A byte count in human units. From 1073741824 on it is written in GiB,
/// the count divided by 1073741824; from 1000000 on in MiB, divided by
/// 1000000; from 1000 on in KiB, divided by 1000; below that in bytes.
pub open spec fn size_text(bytes: u32) -> Seq<char> {
    if bytes >= 1073741824 {
        scaled_text(hundredths(bytes as nat, 1073741824, DOUBLE_HALF as nat)) + " GiB"@
    } else if bytes >= 1000000 {
        scaled_text(hundredths(bytes as nat, 1000000, DOUBLE_HALF as nat)) + " MiB"@
    } else if bytes >= 1000 {
        scaled_text(hundredths(bytes as nat, 1000, SINGLE_HALF as nat)) + " KiB"@
    } else {
        decimal(bytes as nat) + " B"@
    }
}

fn float_side_exec(num: u128, den: u128, half: u128) -> (side: i8)
    requires
        0 < den <= num < 0x1_0000_0000,
        0 < half <= DOUBLE_HALF,
    ensures
        side == float_side(num as nat, den as nat, half as nat),
{
    let mut p: u128 = 1;
    let mut unit_p: u128 = den;
    while num >= 2 * unit_p
        invariant
            0 < unit_p <= num < 0x1_0000_0000,
            0 < p <= unit_p,
            binade(num as nat, den as nat, 1) == binade(num as nat, unit_p as nat, p as nat),
        decreases num - unit_p,
    {
        p = 2 * p;
        unit_p = 2 * unit_p;
    }
    let scale: u128 = half / p;
    assert(scale <= half);
    assert(num * scale <= 0x1_0000_0000 * 0x10_0000_0000_0000) by (nonlinear_arith)
        requires
            num < 0x1_0000_0000,
            scale <= 0x10_0000_0000_0000,
    ;
    let scaled: u128 = num * scale;
    let m: u128 = scaled / den;
    let r: u128 = scaled % den;
    if r == 0 {
        0
    } else if 2 * r > den || (2 * r == den && m % 2 == 1) {
        1
    } else {
        -1
    }
}

fn hundredths_exec(num: u128, den: u128, half: u128) -> (h: u128)
    requires
        0 < den <= num < 0x1_0000_0000,
        0 < half <= DOUBLE_HALF,
    ensures
        h == hundredths(num as nat, den as nat, half as nat),
        h <= 100 * num + 1,
{
    let k: u128 = (100 * num) / den;
    let rem: u128 = (100 * num) % den;
    assert(k <= 100 * num) by (nonlinear_arith)
        requires
            k == (100 * num) / (den as int),
            den > 0,
    ;
    if 2 * rem < den {
        k
    } else if 2 * rem > den {
        k + 1
    } else {
        let side: i8 = float_side_exec(num, den, half);
        if side > 0 {
            k + 1
        } else if side < 0 {
            k
        } else if k % 2 == 0 {
            k
        } else {
            k + 1
        }
    }
}

fn scaled_string(h: u64) -> (r: String)
    ensures
        r@ == scaled_text(h as nat),
{
    let mut s = decimal_text(h / 100);
    s.append(".");
    s.append(digit_str(h % 100 / 10));
    s.append(digit_str(h % 10));
    s
}

/// Writes a byte count in human units.
pub fn format_size(bytes: u32) -> (r: String)
    ensures
        r@ == size_text(bytes),
{
    if bytes >= 1073741824 {
        let h: u128 = hundredths_exec(bytes as u128, 1073741824, DOUBLE_HALF);
        let mut s = scaled_string(h as u64);
        s.append(" GiB");
        s
    } else if bytes >= 1000000 {
        let h: u128 = hundredths_exec(bytes as u128, 1000000, DOUBLE_HALF);
        let mut s = scaled_string(h as u64);
        s.append(" MiB");
        s
    } else if bytes >= 1000 {
        let h: u128 = hundredths_exec(bytes as u128, 1000, SINGLE_HALF);
        let mut s = scaled_string(h as u64);
        s.append(" KiB");
        s
    } else {
        let mut s = decimal_text(bytes as u64);
        s.append(" B");
        s
    }
}

} // verus!
