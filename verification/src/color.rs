//! Colours with 8-bit channels, and the arithmetic that composes them.

use crate::distance::INFINITY;
use crate::scale::{
    binary_exponent, exact_den, exact_num, excess, excess_bounds, power_of_two,
    round_to_precision, rounded, rounded_bounds, significand, Scale, FRACTION, PRECISION,
};
use vstd::arithmetic::div_mod::{lemma_fundamental_div_mod, lemma_mod_bound};
use vstd::arithmetic::power2::{
    lemma2_to64, lemma2_to64_rest, lemma_pow2_adds, lemma_pow2_pos,
    lemma_pow2_strictly_increases, pow2,
};
use vstd::prelude::*;
use vstd::string::StringSliceAdditionalSpecFns;

verus! {

/// A colour of four 8-bit channels: red, green, blue and alpha.
#[derive(Clone, Copy, Debug, PartialEq, Eq, Structural)]
pub struct Color {
    pub r: u8,
    pub g: u8,
    pub b: u8,
    pub a: u8,
}

/// Why a string is not the hexadecimal notation of a colour.
#[derive(Clone, Copy, Debug, PartialEq, Eq, Structural)]
pub enum ColorError {
    /// The string is neither seven nor nine bytes long.
    InvalidLength,
    /// A pair of bytes after the first does not denote a channel value.
    InvalidDigit,
}

impl ColorError {
    /// A short description of the error.
    pub fn describe(&self) -> (text: &'static str)
        ensures
            *self == ColorError::InvalidLength ==> text@ == "invalid hex string length"@,
            *self == ColorError::InvalidDigit ==> text@ == "invalid digit found in string"@,
    {
        match self {
            ColorError::InvalidLength => "invalid hex string length",
            ColorError::InvalidDigit => "invalid digit found in string",
        }
    }
}

/// The value of a byte read as a hexadecimal digit, in either case.
pub open spec fn hex_digit(byte: u8) -> Option<int> {
    if 0x30 <= byte <= 0x39 {
        Some(byte - 0x30)
    } else if 0x61 <= byte <= 0x66 {
        Some(byte - 0x61 + 10)
    } else if 0x41 <= byte <= 0x46 {
        Some(byte - 0x41 + 10)
    } else {
        None
    }
}

/// The channel value that two bytes denote, where both are hexadecimal
/// digits.
pub open spec fn hex_pair(first: u8, second: u8) -> Option<int> {
    match (hex_digit(first), hex_digit(second)) {
        (Some(high), Some(low)) => Some(16 * high + low),
        _ => None,
    }
}

/// The colour that a string of the given bytes denotes. The first byte is a
/// marker and is not examined. Three pairs after it give red, green and blue
/// with full alpha; a fourth pair gives the alpha.
pub open spec fn spec_color_from_hex(bytes: Seq<u8>) -> Result<Color, ColorError> {
    if bytes.len() == 7 {
        match (hex_pair(bytes[1], bytes[2]), hex_pair(bytes[3], bytes[4]), hex_pair(
            bytes[5],
            bytes[6],
        )) {
            (Some(r), Some(g), Some(b)) => Ok(Color { r: r as u8, g: g as u8, b: b as u8, a: 255 }),
            _ => Err(ColorError::InvalidDigit),
        }
    } else if bytes.len() == 9 {
        match (
            hex_pair(bytes[1], bytes[2]),
            hex_pair(bytes[3], bytes[4]),
            hex_pair(bytes[5], bytes[6]),
            hex_pair(bytes[7], bytes[8]),
        ) {
            (Some(r), Some(g), Some(b), Some(a)) => Ok(
                Color { r: r as u8, g: g as u8, b: b as u8, a: a as u8 },
            ),
            _ => Err(ColorError::InvalidDigit),
        }
    } else {
        Err(ColorError::InvalidLength)
    }
}

/// The sum of two channel values, held at the ceiling of 255.
pub open spec fn channel_sum(x: int, y: int) -> int {
    if x + y >= 255 {
        255
    } else {
        x + y
    }
}

/// The product of two channel values, taken as fractions of 255.
pub open spec fn channel_product(x: int, y: int) -> int {
    x * y / 255
}

/// The colour that `color_add` gives: each of red, green and blue summed and
/// held at 255, with full alpha.
pub open spec fn spec_color_add(lhs: Color, rhs: Color) -> Color {
    Color {
        r: channel_sum(lhs.r as int, rhs.r as int) as u8,
        g: channel_sum(lhs.g as int, rhs.g as int) as u8,
        b: channel_sum(lhs.b as int, rhs.b as int) as u8,
        a: 255,
    }
}

/// The colour that `color_multiply` gives: each of red, green and blue
/// multiplied and divided by 255, with full alpha.
pub open spec fn spec_color_multiply(lhs: Color, rhs: Color) -> Color {
    Color {
        r: channel_product(lhs.r as int, rhs.r as int) as u8,
        g: channel_product(lhs.g as int, rhs.g as int) as u8,
        b: channel_product(lhs.b as int, rhs.b as int) as u8,
        a: 255,
    }
}

/// A channel value multiplied by a coefficient, as arithmetic in double
/// precision multiplies: the product is rounded to fifty-three significant
/// bits, ties to even, then its fraction is dropped and what is left is held
/// at the ceiling of 255. A coefficient that is no number, or not above zero,
/// leaves nothing; an infinite one holds every channel but zero at 255.
pub open spec fn channel_scaled(c: int, bits: u64) -> int {
    if bits > INFINITY || bits == 0 || c <= 0 {
        0
    } else if bits == INFINITY {
        255
    } else {
        let product = rounded((c * significand(bits)) as nat);
        let whole = if binary_exponent(bits) >= 0 {
            product * pow2(binary_exponent(bits) as nat)
        } else {
            product / pow2((-binary_exponent(bits)) as nat)
        };
        if whole >= 255 {
            255
        } else {
            whole as int
        }
    }
}

/// A channel value multiplied by the ratio `num / den` without any rounding
/// of the product: nothing where the ratio is not above zero, else the product
/// with its fraction dropped, held at the ceiling of 255.
pub open spec fn channel_exact(c: int, num: int, den: int) -> int {
    if num <= 0 || den <= 0 {
        0
    } else if c * num / den >= 255 {
        255
    } else {
        c * num / den
    }
}

/// The colour that `color_scale` gives for the coefficient of the given
/// pattern: each of red, green and blue scaled, with full alpha.
pub open spec fn spec_color_scale(color: Color, bits: u64) -> Color {
    Color {
        r: channel_scaled(color.r as int, bits) as u8,
        g: channel_scaled(color.g as int, bits) as u8,
        b: channel_scaled(color.b as int, bits) as u8,
        a: 255,
    }
}

fn parse_hex_digit(byte: u8) -> (value: Option<u8>)
    ensures
        value is Some <==> hex_digit(byte) is Some,
        value matches Some(v) ==> hex_digit(byte) == Some(v as int) && v < 16,
{
    if 0x30 <= byte && byte <= 0x39 {
        Some(byte - 0x30)
    } else if 0x61 <= byte && byte <= 0x66 {
        Some(byte - 0x61 + 10)
    } else if 0x41 <= byte && byte <= 0x46 {
        Some(byte - 0x41 + 10)
    } else {
        None
    }
}

fn parse_hex_pair(first: u8, second: u8) -> (value: Option<u8>)
    ensures
        value is Some <==> hex_pair(first, second) is Some,
        value matches Some(v) ==> hex_pair(first, second) == Some(v as int),
{
    match (parse_hex_digit(first), parse_hex_digit(second)) {
        (Some(high), Some(low)) => Some(16 * high + low),
        _ => None,
    }
}

fn add_channel(x: u8, y: u8) -> (sum: u8)
    ensures
        sum == channel_sum(x as int, y as int),
{
    let total: u16 = x as u16 + y as u16;
    if total >= 255 {
        255
    } else {
        total as u8
    }
}

fn multiply_channel(x: u8, y: u8) -> (product: u8)
    ensures
        product == channel_product(x as int, y as int),
{
    assert(x as int * y as int <= 255 * 255) by (nonlinear_arith)
        requires
            0 <= x <= 255,
            0 <= y <= 255,
    ;
    let wide: u32 = x as u32 * y as u32;
    (wide / 255) as u8
}

fn scale_channel(c: u8, factor: Scale) -> (scaled: u8)
    ensures
        scaled == channel_scaled(c as int, factor.bits),
{
    let bits: u64 = factor.bits;
    if bits > INFINITY || bits == 0 || c == 0 {
        return 0;
    }
    if bits == INFINITY {
        return 255;
    }
    let exponent: u64 = bits / FRACTION;
    let fraction: u64 = bits % FRACTION;
    let whole: u64 = if exponent == 0 {
        fraction
    } else {
        FRACTION + fraction
    };
    assert(c as int * whole as int <= 255 * 0x1f_ffff_ffff_ffff) by (nonlinear_arith)
        requires
            0 <= c <= 255,
            0 <= whole <= 0x1f_ffff_ffff_ffff,
    ;
    let product: u64 = round_to_precision(c as u64 * whole);
    if exponent >= 1075 {
        proof {
            let shift = (exponent - 1075) as nat;
            lemma_pow2_pos(shift);
            assert(c as int * whole as int >= 0x10_0000_0000_0000) by (nonlinear_arith)
                requires
                    c >= 1,
                    whole >= 0x10_0000_0000_0000,
            ;
            assert(product * pow2(shift) >= 255) by (nonlinear_arith)
                requires
                    product >= 0x8_0000_0000_0000,
                    pow2(shift) >= 1,
            ;
        }
        255
    } else {
        let shift: u64 = if exponent == 0 {
            1074
        } else {
            1075 - exponent
        };
        if shift >= 62 {
            proof {
                lemma2_to64_rest();
                if shift > 62 {
                    lemma_pow2_strictly_increases(62, shift as nat);
                }
                assert(product as nat / pow2(shift as nat) == 0) by (nonlinear_arith)
                    requires
                        0 <= product <= 0x2000_0000_0000_0000,
                        pow2(shift as nat) >= 0x4000_0000_0000_0000,
                ;
            }
            0
        } else {
            let quotient: u64 = product / power_of_two(shift);
            if quotient >= 255 {
                255
            } else {
                quotient as u8
            }
        }
    }
}

/// Adds two colours channel by channel. A channel whose sum reaches 255 stays
/// at 255; the result is fully opaque whatever the alpha of the operands.
pub fn color_add(lhs: &Color, rhs: &Color) -> (sum: Color)
    ensures
        sum == spec_color_add(*lhs, *rhs),
        lhs.r + rhs.r >= 255 ==> sum.r == 255,
        lhs.g + rhs.g >= 255 ==> sum.g == 255,
        lhs.b + rhs.b >= 255 ==> sum.b == 255,
        lhs.r + rhs.r < 255 ==> sum.r == lhs.r + rhs.r,
        lhs.g + rhs.g < 255 ==> sum.g == lhs.g + rhs.g,
        lhs.b + rhs.b < 255 ==> sum.b == lhs.b + rhs.b,
        sum.a == 255,
{
    Color {
        r: add_channel(lhs.r, rhs.r),
        g: add_channel(lhs.g, rhs.g),
        b: add_channel(lhs.b, rhs.b),
        a: 255,
    }
}

/// Multiplies two colours channel by channel, each channel read as a fraction
/// of 255, so that white leaves the other colour unchanged and the product
/// never leaves the range of a channel. The result is fully opaque.
pub fn color_multiply(lhs: &Color, rhs: &Color) -> (product: Color)
    ensures
        product == spec_color_multiply(*lhs, *rhs),
        product.r == lhs.r * rhs.r / 255,
        product.g == lhs.g * rhs.g / 255,
        product.b == lhs.b * rhs.b / 255,
        product.a == 255,
{
    Color {
        r: multiply_channel(lhs.r, rhs.r),
        g: multiply_channel(lhs.g, rhs.g),
        b: multiply_channel(lhs.b, rhs.b),
        a: 255,
    }
}

/// Scales a colour by a coefficient, as arithmetic in double precision does:
/// each of red, green and blue is multiplied by the coefficient, the product is
/// rounded to fifty-three significant bits, its fraction is dropped, and a
/// product of 255 or more stays at 255. A coefficient that is no number, or not
/// above zero, gives black. The result is fully opaque.
pub fn color_scale(color: &Color, factor: Scale) -> (scaled: Color)
    ensures
        scaled == spec_color_scale(*color, factor.bits),
        factor.bits > INFINITY || factor.bits == 0 ==> scaled.r == 0 && scaled.g == 0 && scaled.b
            == 0,
        scaled.a == 255,
{
    Color {
        r: scale_channel(color.r, factor),
        g: scale_channel(color.g, factor),
        b: scale_channel(color.b, factor),
        a: 255,
    }
}

/// Reads a colour from its hexadecimal notation: a marker byte, then two
/// hexadecimal digits each for red, green and blue, and optionally two more for
/// alpha. Without them the colour is fully opaque. A string of any other
/// length, or one with anything but a hexadecimal digit after the marker, is
/// refused.
pub fn color_from_hex(hex_string: &str) -> (parsed: Result<Color, ColorError>)
    ensures
        parsed == spec_color_from_hex(hex_string.spec_bytes()),
{
    let bytes = hex_string.as_bytes();
    let length: usize = bytes.len();
    if length != 7 && length != 9 {
        return Err(ColorError::InvalidLength);
    }
    let r = parse_hex_pair(bytes[1], bytes[2]);
    let g = parse_hex_pair(bytes[3], bytes[4]);
    let b = parse_hex_pair(bytes[5], bytes[6]);
    let a = if length == 9 {
        parse_hex_pair(bytes[7], bytes[8])
    } else {
        Some(255)
    };
    match (r, g, b, a) {
        (Some(r), Some(g), Some(b), Some(a)) => Ok(Color { r, g, b, a }),
        _ => Err(ColorError::InvalidDigit),
    }
}

proof fn quotient_bounds(x: int, d: int)
    requires
        d > 0,
    ensures
        d * (x / d) <= x < d * (x / d) + d,
{
    lemma_fundamental_div_mod(x, d);
    lemma_mod_bound(x, d);
}

/// The least whole number that is not below the ratio `num / den`, or zero
/// where the ratio is not above zero.
pub open spec fn coefficient_ceiling(num: int, den: int) -> int {
    if num <= 0 || den <= 0 {
        0
    } else {
        (num + den - 1) / den
    }
}

proof fn channel_exact_range(c: int, num: int, den: int)
    requires
        0 <= c <= 255,
    ensures
        0 <= channel_exact(c, num, den) <= 255,
{
    if num > 0 && den > 0 {
        quotient_bounds(c * num, den);
        assert(c * num / den >= 0) by (nonlinear_arith)
            requires
                c >= 0,
                num > 0,
                den > 0,
                c * num < den * (c * num / den) + den,
        ;
    }
}

proof fn exact_twice_upper(c: int, n1: int, d1: int, n2: int, d2: int)
    requires
        0 <= c <= 255,
        d1 > 0,
        d2 > 0,
    ensures
        channel_exact(channel_exact(c, n1, d1), n2, d2) <= channel_exact(
            c,
            n1 * n2,
            d1 * d2,
        ),
{
    let first = channel_exact(c, n1, d1);
    assert(d1 * d2 > 0) by (nonlinear_arith)
        requires
            d1 > 0,
            d2 > 0,
    ;
    if n1 <= 0 || n2 <= 0 {
        if n2 > 0 {
            assert(first == 0);
            assert(0 * n2 == 0);
            quotient_bounds(0, d2);
            assert(0int / d2 == 0) by (nonlinear_arith)
                requires
                    d2 > 0,
                    d2 * (0int / d2) <= 0 < d2 * (0int / d2) + d2,
            ;
        }
        if n1 * n2 > 0 {
            let product = c * (n1 * n2);
            assert(product >= 0) by (nonlinear_arith)
                requires
                    c >= 0,
                    n1 * n2 > 0,
                    product == c * (n1 * n2),
            ;
            quotient_bounds(product, d1 * d2);
            assert(product / (d1 * d2) >= 0) by (nonlinear_arith)
                requires
                    d1 * d2 > 0,
                    product >= 0,
                    product < (d1 * d2) * (product / (d1 * d2)) + d1 * d2,
            ;
        }
    } else {
        let a = c * n1;
        let q1 = a / d1;
        quotient_bounds(a, d1);
        assert(a >= 0) by (nonlinear_arith)
            requires
                c >= 0,
                n1 > 0,
                a == c * n1,
        ;
        assert(q1 >= 0) by (nonlinear_arith)
            requires
                d1 > 0,
                a >= 0,
                a < d1 * q1 + d1,
        ;
        assert(0 <= first <= q1);
        let low = first * n2 / d2;
        quotient_bounds(first * n2, d2);
        let product = c * (n1 * n2);
        let high = product / (d1 * d2);
        quotient_bounds(product, d1 * d2);
        assert(product == a * n2) by (nonlinear_arith)
            requires
                product == c * (n1 * n2),
                a == c * n1,
        ;
        assert(low <= high) by (nonlinear_arith)
            requires
                d1 > 0,
                d2 > 0,
                n2 > 0,
                0 <= first <= q1,
                d1 * q1 <= a,
                d2 * low <= first * n2,
                a * n2 < (d1 * d2) * high + d1 * d2,
        {
            if high + 1 <= low {
                assert((high + 1) * (d1 * d2) <= low * (d1 * d2));
                assert(low * (d1 * d2) == (d2 * low) * d1);
                assert((d2 * low) * d1 <= (first * n2) * d1);
                assert(first * n2 <= q1 * n2);
                assert((first * n2) * d1 <= (q1 * n2) * d1);
                assert((q1 * n2) * d1 == (d1 * q1) * n2);
                assert((d1 * q1) * n2 <= a * n2);
                assert((high + 1) * (d1 * d2) == (d1 * d2) * high + d1 * d2);
            }
        }
    }
}

proof fn exact_twice_lower(c: int, n1: int, d1: int, n2: int, d2: int)
    requires
        0 <= c <= 255,
        d1 > 0,
        d2 > 0,
        n1 >= 0 || n2 >= 0,
        n1 > 0 ==> c * n1 / d1 <= 255,
    ensures
        channel_exact(c, n1 * n2, d1 * d2) <= channel_exact(channel_exact(c, n1, d1), n2, d2)
            + coefficient_ceiling(n2, d2),
{
    let first = channel_exact(c, n1, d1);
    assert(d1 * d2 > 0) by (nonlinear_arith)
        requires
            d1 > 0,
            d2 > 0,
    ;
    if n1 <= 0 || n2 <= 0 {
        assert(n1 * n2 <= 0) by (nonlinear_arith)
            requires
                n1 <= 0 || n2 <= 0,
                n1 >= 0 || n2 >= 0,
        ;
        if n2 > 0 {
            quotient_bounds(n2 + d2 - 1, d2);
            assert((n2 + d2 - 1) / d2 >= 0) by (nonlinear_arith)
                requires
                    d2 > 0,
                    n2 > 0,
                    n2 + d2 - 1 < d2 * ((n2 + d2 - 1) / d2) + d2,
            ;
            assert(first == 0);
            assert(0 * n2 == 0);
            quotient_bounds(0, d2);
            assert(0int / d2 == 0) by (nonlinear_arith)
                requires
                    d2 > 0,
                    d2 * (0int / d2) <= 0 < d2 * (0int / d2) + d2,
            ;
        }
    } else {
        let a = c * n1;
        let q1 = a / d1;
        quotient_bounds(a, d1);
        assert(first == q1);
        let low = q1 * n2 / d2;
        quotient_bounds(q1 * n2, d2);
        let product = c * (n1 * n2);
        let high = product / (d1 * d2);
        quotient_bounds(product, d1 * d2);
        let k = (n2 + d2 - 1) / d2;
        quotient_bounds(n2 + d2 - 1, d2);
        assert(n1 * n2 > 0) by (nonlinear_arith)
            requires
                n1 > 0,
                n2 > 0,
        ;
        assert(product == a * n2) by (nonlinear_arith)
            requires
                product == c * (n1 * n2),
                a == c * n1,
        ;
        assert(high <= low + k) by (nonlinear_arith)
            requires
                d1 > 0,
                d2 > 0,
                n2 > 0,
                a < d1 * q1 + d1,
                q1 * n2 < d2 * low + d2,
                (d1 * d2) * high <= a * n2,
                n2 + d2 - 1 < d2 * k + d2,
        {
            if high >= low + k + 1 {
                assert((d1 * d2) * high >= (d1 * d2) * (low + k + 1));
                assert((d1 * d2) * (low + k + 1) == (d2 * low + d2) * d1 + (d2 * k) * d1);
                assert((d2 * low + d2) * d1 >= (q1 * n2 + 1) * d1);
                assert((d2 * k) * d1 >= n2 * d1);
                assert((q1 * n2 + 1) * d1 + n2 * d1 == (d1 * q1 + d1) * n2 + d1);
                assert((d1 * q1 + d1) * n2 >= (a + 1) * n2);
                assert((a + 1) * n2 == a * n2 + n2);
            }
        }
    }
}

proof fn exact_grows_with_channel(a: int, b: int, num: int, den: int)
    requires
        0 <= a <= b,
        den > 0,
    ensures
        channel_exact(a, num, den) <= channel_exact(b, num, den),
{
    if num > 0 {
        assert(a * num <= b * num) by (nonlinear_arith)
            requires
                a <= b,
                num > 0,
        ;
        vstd::arithmetic::div_mod::lemma_div_is_ordered(a * num, b * num, den);
    }
}

proof fn exact_step(a: int, num: int, den: int)
    requires
        0 <= a,
        den > 0,
    ensures
        channel_exact(a + 1, num, den) <= channel_exact(a, num, den) + coefficient_ceiling(
            num,
            den,
        ),
{
    if num > 0 {
        let k = (num + den - 1) / den;
        quotient_bounds(num + den - 1, den);
        quotient_bounds(a * num, den);
        quotient_bounds((a + 1) * num, den);
        let q = a * num / den;
        let next = (a + 1) * num / den;
        assert((a + 1) * num == a * num + num) by (nonlinear_arith);
        assert(a * num >= 0) by (nonlinear_arith)
            requires
                a >= 0,
                num > 0,
        ;
        assert(k >= 0) by (nonlinear_arith)
            requires
                den > 0,
                num > 0,
                num + den - 1 < den * k + den,
        ;
        assert(q >= 0) by (nonlinear_arith)
            requires
                den > 0,
                a * num >= 0,
                a * num < den * q + den,
        ;
        assert(next <= q + k) by (nonlinear_arith)
            requires
                den > 0,
                (a + 1) * num == a * num + num,
                a * num < den * q + den,
                num + den - 1 < den * k + den,
                den * next <= (a + 1) * num,
        {
            if next >= q + k + 1 {
                assert(den * next >= den * (q + k + 1));
                assert(den * (q + k + 1) == den * q + den + den * k);
            }
        }
    }
}

/// Rounding the product gains at most one: the channel that `color_scale`
/// gives is the one that the unrounded product would give, or the next above
/// it, and never one below.
pub proof fn rounding_gains_at_most_one(c: int, bits: u64)
    requires
        0 <= c <= 255,
        0 < bits < INFINITY,
    ensures
        channel_exact(c, exact_num(bits), exact_den(bits)) <= channel_scaled(c, bits)
            <= channel_exact(c, exact_num(bits), exact_den(bits)) + 1,
{
    let sig = significand(bits);
    let be = binary_exponent(bits);
    let num = exact_num(bits);
    let den = exact_den(bits);
    lemma2_to64();
    lemma2_to64_rest();
    assert(0 <= (bits % FRACTION) < FRACTION);
    assert(0 < sig < PRECISION);
    if c == 0 {
        assert(c * num == 0);
        if be < 0 {
            lemma_pow2_pos((-be) as nat);
        }
        assert(0int / den == 0) by (nonlinear_arith)
            requires
                den > 0,
        ;
    } else {
        let m = (c * sig) as nat;
        assert(1 <= c * sig < 0x2000_0000_0000_0000) by (nonlinear_arith)
            requires
                1 <= c <= 255,
                0 < sig < 0x20_0000_0000_0000,
        ;
        rounded_bounds(m);
        excess_bounds(m);
        let shift = excess(m);
        let unit = pow2(shift);
        let quotient = m / unit;
        let kept = rounded(m);
        if shift > 9 {
            lemma_pow2_strictly_increases(9, shift);
        }
        assert(shift <= 8) by (nonlinear_arith)
            requires
                shift > 8 ==> unit >= 512,
                shift > 0 ==> unit * 0x10_0000_0000_0000 <= m,
                m < 0x2000_0000_0000_0000,
        ;
        if be >= 0 {
            lemma_pow2_pos(be as nat);
            assert(sig >= FRACTION);
            assert(m >= FRACTION) by (nonlinear_arith)
                requires
                    m == c * sig,
                    c >= 1,
                    sig >= FRACTION,
            ;
            assert(kept >= FRACTION) by (nonlinear_arith)
                requires
                    shift == 0 ==> kept == m,
                    shift > 0 ==> quotient >= FRACTION,
                    kept == quotient * unit || kept == (quotient + 1) * unit,
                    unit >= 1,
                    m >= FRACTION,
            ;
            assert(kept * pow2(be as nat) >= 255) by (nonlinear_arith)
                requires
                    kept >= FRACTION,
                    pow2(be as nat) >= 1,
            ;
            assert(num >= FRACTION) by (nonlinear_arith)
                requires
                    num == sig * pow2(be as nat),
                    sig >= FRACTION,
                    pow2(be as nat) >= 1,
            ;
            assert(c * num / 1 >= 255) by (nonlinear_arith)
                requires
                    num >= 0x10_0000_0000_0000,
                    c >= 1,
            ;
        } else {
            let k = (-be) as nat;
            let p = pow2(k);
            lemma_pow2_pos(k);
            quotient_bounds(m as int, p as int);
            quotient_bounds(kept as int, p as int);
            let low = m / p;
            let high = kept / p;
            assert(c * num == m);
            if shift == 0 {
                assert(kept == m);
            } else if k <= shift + 44 {
                lemma_pow2_adds(shift, 52);
                lemma_pow2_adds(k, 8);
                if k + 8 < shift + 52 {
                    lemma_pow2_strictly_increases(k + 8, shift + 52);
                }
                assert(quotient * unit >= 256 * p) by (nonlinear_arith)
                    requires
                        quotient >= FRACTION,
                        unit * 0x10_0000_0000_0000 == pow2(shift + 52),
                        pow2(k + 8) == p * 256,
                        pow2(k + 8) <= pow2(shift + 52),
                        unit >= 1,
                ;
                assert(low >= 256) by (nonlinear_arith)
                    requires
                        m >= quotient * unit,
                        quotient * unit >= 256 * p,
                        m < p * low + p,
                        p > 0,
                ;
                assert(high >= 256) by (nonlinear_arith)
                    requires
                        kept >= quotient * unit,
                        quotient * unit >= 256 * p,
                        kept < p * high + p,
                        p > 0,
                ;
            } else {
                let w = pow2((k - shift) as nat);
                lemma_pow2_adds(shift, (k - shift) as nat);
                lemma_pow2_pos((k - shift) as nat);
                assert(p == unit * w);
                assert(low * w <= quotient) by (nonlinear_arith)
                    requires
                        p == unit * w,
                        p * low <= m,
                        m < (quotient + 1) * unit,
                        unit >= 1,
                        w >= 1,
                {
                    assert((low * w) * unit <= m);
                    if low * w >= quotient + 1 {
                        assert((low * w) * unit >= (quotient + 1) * unit);
                    }
                }
                assert(quotient + 1 <= (low + 1) * w) by (nonlinear_arith)
                    requires
                        p == unit * w,
                        m < p * low + p,
                        quotient * unit <= m,
                        unit >= 1,
                        w >= 1,
                {
                    assert(((low + 1) * w) * unit == p * low + p);
                    if quotient >= (low + 1) * w {
                        assert(quotient * unit >= ((low + 1) * w) * unit);
                    }
                }
                assert(low * p <= kept <= (low + 1) * p) by (nonlinear_arith)
                    requires
                        kept == quotient * unit || kept == (quotient + 1) * unit,
                        low * w <= quotient,
                        quotient + 1 <= (low + 1) * w,
                        p == unit * w,
                        unit >= 1,
                {
                    assert((low * w) * unit <= quotient * unit);
                    assert((quotient + 1) * unit <= ((low + 1) * w) * unit);
                    assert((low * w) * unit == low * p);
                    assert(((low + 1) * w) * unit == (low + 1) * p);
                }
                assert(low <= high <= low + 1) by (nonlinear_arith)
                    requires
                        low * p <= kept <= (low + 1) * p,
                        p * high <= kept < p * high + p,
                        p > 0,
                {
                    if high < low {
                        assert(p * high + p <= p * low);
                    }
                    if high > low + 1 {
                        assert(p * high >= p * (low + 2));
                    }
                }
            }
        }
    }
}

/// Whether the ratio `n1 / d1` lies as near to `n2 / d2` as a number of
/// fifty-three bits lies to what was rounded to it: within one part in two to
/// the fifty-third.
pub open spec fn within_rounding(n1: int, d1: int, n2: int, d2: int) -> bool {
    &&& (n2 * d1 - n1 * d2) * PRECISION <= n2 * d1
    &&& (n1 * d2 - n2 * d1) * PRECISION <= n2 * d1
}

proof fn exact_of_near_ratios(x: int, n1: int, d1: int, n2: int, d2: int)
    requires
        0 <= x <= 255,
        n1 > 0,
        n2 > 0,
        d1 > 0,
        d2 > 0,
        within_rounding(n1, d1, n2, d2),
    ensures
        channel_exact(x, n2, d2) - 1 <= channel_exact(x, n1, d1) <= channel_exact(x, n2, d2) + 1,
{
    let q = x * n1 / d1;
    let r = x * n2 / d2;
    quotient_bounds(x * n1, d1);
    quotient_bounds(x * n2, d2);
    let a = x * n1;
    let b = x * n2;
    let cross = n2 * d1;
    assert(a * d2 == x * (n1 * d2) && b * d1 == x * cross) by (nonlinear_arith)
        requires
            a == x * n1,
            b == x * n2,
            cross == n2 * d1,
    ;
    assert(cross > 0) by (nonlinear_arith)
        requires
            cross == n2 * d1,
            n2 > 0,
            d1 > 0,
    ;
    // The two products differ by at most the 2^53rd part of the second.
    assert((b * d1 - a * d2) * PRECISION <= b * d1 && (a * d2 - b * d1) * PRECISION <= b * d1)
        by (nonlinear_arith)
        requires
            0 <= x,
            a * d2 == x * (n1 * d2),
            b * d1 == x * cross,
            (cross - n1 * d2) * PRECISION <= cross,
            (n1 * d2 - cross) * PRECISION <= cross,
    {
        assert(x * ((cross - n1 * d2) * PRECISION) <= x * cross);
        assert(x * ((n1 * d2 - cross) * PRECISION) <= x * cross);
        assert(x * ((cross - n1 * d2) * PRECISION) == (x * cross - x * (n1 * d2)) * PRECISION);
        assert(x * ((n1 * d2 - cross) * PRECISION) == (x * (n1 * d2) - x * cross) * PRECISION);
    }
    let whole = d1 * d2;
    assert(whole > 0) by (nonlinear_arith)
        requires
            whole == d1 * d2,
            d1 > 0,
            d2 > 0,
    ;
    assert(whole * r <= b * d1 < whole * r + whole) by (nonlinear_arith)
        requires
            whole == d1 * d2,
            d1 > 0,
            d2 * r <= b < d2 * r + d2,
    ;
    assert(whole * q <= a * d2 < whole * q + whole) by (nonlinear_arith)
        requires
            whole == d1 * d2,
            d2 > 0,
            d1 * q <= a < d1 * q + d1,
    ;
    let left = a * d2;
    let right = b * d1;
    if r >= 256 {
        assert(q >= 255) by (nonlinear_arith)
            requires
                whole > 0,
                whole * r <= right,
                r >= 256,
                left < whole * q + whole,
                (right - left) * 0x20_0000_0000_0000 <= right,
        {
            if q < 255 {
                assert(whole * q + whole <= whole * 255);
                assert(right >= whole * 256);
                assert(right * 0x20_0000_0000_0000 - right <= left * 0x20_0000_0000_0000);
                assert(right * 0x1f_ffff_ffff_ffff >= (whole * 256) * 0x1f_ffff_ffff_ffff);
                assert((whole * 256) * 0x1f_ffff_ffff_ffff >= (whole * 255) * 0x20_0000_0000_0000);
            }
        }
    } else {
        assert(r - 1 <= q <= r + 1) by (nonlinear_arith)
            requires
                whole > 0,
                whole * r <= right < whole * r + whole,
                whole * q <= left < whole * q + whole,
                r < 256,
                (right - left) * 0x20_0000_0000_0000 <= right,
                (left - right) * 0x20_0000_0000_0000 <= right,
        {
            assert(right < whole * 256);
            assert(right <= whole * 0x20_0000_0000_0000);
            if q > r + 1 {
                assert(whole * q >= whole * (r + 2));
                assert(left - right > whole);
                assert((left - right) * 0x20_0000_0000_0000 > whole * 0x20_0000_0000_0000);
            }
            if q < r - 1 {
                assert(whole * q + whole <= whole * (r - 1));
                assert(right - left > whole);
                assert((right - left) * 0x20_0000_0000_0000 > whole * 0x20_0000_0000_0000);
            }
        }
    }
}

proof fn exact_is_positive(bits: u64)
    requires
        0 < bits < INFINITY,
    ensures
        exact_num(bits) > 0,
        exact_den(bits) > 0,
{
    let sig = significand(bits);
    let be = binary_exponent(bits);
    assert(0 <= (bits % FRACTION) < FRACTION);
    assert(sig > 0);
    if be >= 0 {
        lemma_pow2_pos(be as nat);
        assert(sig * pow2(be as nat) > 0) by (nonlinear_arith)
            requires
                sig > 0,
                pow2(be as nat) > 0,
        ;
    } else {
        lemma_pow2_pos((-be) as nat);
    }
}

proof fn channel_twice_within_rounding(c: int, f: u64, g: u64, h: u64)
    requires
        0 <= c <= 255,
        0 < f < INFINITY,
        0 < g < INFINITY,
        0 < h < INFINITY,
        within_rounding(
            exact_num(h),
            exact_den(h),
            exact_num(f) * exact_num(g),
            exact_den(f) * exact_den(g),
        ),
        c * exact_num(f) / exact_den(f) <= 255,
    ensures
        ({
            let twice = channel_scaled(channel_scaled(c, f), g);
            let once = channel_scaled(c, h);
            let slack = coefficient_ceiling(exact_num(g), exact_den(g)) + 2;
            once - slack <= twice <= once + slack
        }),
{
    let nf = exact_num(f);
    let df = exact_den(f);
    let ng = exact_num(g);
    let dg = exact_den(g);
    let nh = exact_num(h);
    let dh = exact_den(h);
    exact_is_positive(f);
    exact_is_positive(g);
    exact_is_positive(h);
    assert(nf * ng > 0 && df * dg > 0) by (nonlinear_arith)
        requires
            nf > 0,
            ng > 0,
            df > 0,
            dg > 0,
    ;
    let first_exact = channel_exact(c, nf, df);
    let first = channel_scaled(c, f);
    rounding_gains_at_most_one(c, f);
    channel_exact_range(c, nf, df);
    assert(0 <= first <= 255);
    rounding_gains_at_most_one(first, g);
    rounding_gains_at_most_one(c, h);
    exact_grows_with_channel(first_exact, first, ng, dg);
    exact_grows_with_channel(first, first_exact + 1, ng, dg);
    exact_step(first_exact, ng, dg);
    exact_twice_upper(c, nf, df, ng, dg);
    exact_twice_lower(c, nf, df, ng, dg);
    exact_of_near_ratios(c, nh, dh, nf * ng, df * dg);
}

/// Scaling a colour twice agrees with scaling it once by the product of the
/// two coefficients, within the rounding of the steps. Let the coefficients
/// `f`, `g` and `h` be numbers above zero, `h` the product of `f` and `g` or
/// the number of fifty-three bits that the product was rounded to, and let the
/// first scaling hold no channel at 255. Then each channel of the one result
/// differs from the same channel of the other by no more than `g` rounded up
/// to a whole number, and two: by at most three for a second coefficient of at
/// most one.
pub proof fn scale_twice_within_rounding(color: Color, f: u64, g: u64, h: u64)
    requires
        0 < f < INFINITY,
        0 < g < INFINITY,
        0 < h < INFINITY,
        within_rounding(
            exact_num(h),
            exact_den(h),
            exact_num(f) * exact_num(g),
            exact_den(f) * exact_den(g),
        ),
        color.r * exact_num(f) / exact_den(f) <= 255,
        color.g * exact_num(f) / exact_den(f) <= 255,
        color.b * exact_num(f) / exact_den(f) <= 255,
    ensures
        ({
            let twice = spec_color_scale(spec_color_scale(color, f), g);
            let once = spec_color_scale(color, h);
            let slack = coefficient_ceiling(exact_num(g), exact_den(g)) + 2;
            &&& once.r - slack <= twice.r <= once.r + slack
            &&& once.g - slack <= twice.g <= once.g + slack
            &&& once.b - slack <= twice.b <= once.b + slack
            &&& twice.a == once.a
        }),
{
    channel_twice_within_rounding(color.r as int, f, g, h);
    channel_twice_within_rounding(color.g as int, f, g, h);
    channel_twice_within_rounding(color.b as int, f, g, h);
    channel_scaled_range(color.r as int, f);
    channel_scaled_range(color.g as int, f);
    channel_scaled_range(color.b as int, f);
    channel_scaled_range(color.r as int, h);
    channel_scaled_range(color.g as int, h);
    channel_scaled_range(color.b as int, h);
    let first = spec_color_scale(color, f);
    channel_scaled_range(first.r as int, g);
    channel_scaled_range(first.g as int, g);
    channel_scaled_range(first.b as int, g);
}

proof fn channel_scaled_range(c: int, bits: u64)
    ensures
        0 <= channel_scaled(c, bits) <= 255,
{
    if 0 < bits < INFINITY && c > 0 {
        let kept = rounded((c * significand(bits)) as nat);
        let be = binary_exponent(bits);
        if be >= 0 {
            assert(kept * pow2(be as nat) >= 0) by (nonlinear_arith)
                requires
                    kept >= 0,
                    pow2(be as nat) >= 0,
            ;
        } else {
            let p = pow2((-be) as nat);
            lemma_pow2_pos((-be) as nat);
            quotient_bounds(kept as int, p as int);
            assert(kept as int / p as int >= 0) by (nonlinear_arith)
                requires
                    p > 0,
                    kept >= 0,
                    kept < p * (kept as int / p as int) + p,
            ;
        }
    }
}

} // verus!
