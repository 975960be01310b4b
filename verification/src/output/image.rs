//! The plain PPM format: a header, then one line for each pixel.
//!
//! The header is a line with the name of the format, a line with the width
//! and the height, and a line with the largest value that a channel can have. Each pixel is a line
//! of three numbers: red, green and blue. All numbers are written in decimal.

use vstd::prelude::*;
use vstd::arithmetic::div_mod::lemma_fundamental_div_mod;
use vstd::arithmetic::power2::{
    lemma2_to64,
    lemma_pow2_adds,
    lemma_pow2_pos,
    lemma_pow2_strictly_increases,
    pow2,
};
use vstd::bits::lemma_u64_shr_is_div;
use crate::math::ordinal::{
    clamp,
    clamped,
    exponent_field,
    fraction_field,
    lemma_magnitude_bounds,
    lemma_order_is_order_of_values,
    lemma_value_of_one,
    value_in_units,
    FRACTION_SPAN,
    ONE,
    ZERO,
};
use crate::math::vec3::Color;

verus! {

/// The ordinal of 0.999, the brightest that a channel is written as.
pub const BRIGHTEST: i64 = 0x3FEF_F7CE_D916_872B;

/// The exponent field of 1/256, the smallest double at level one.
pub const DARKEST_EXPONENT: i64 = 1015;

/// The byte of a space.
pub const SPACE: u8 = 32;

/// The byte that ends a line.
pub const NEWLINE: u8 = 10;

/// The byte of a minus sign.
pub const MINUS: u8 = 45;

/// The byte of the digit zero.
pub const DIGIT_ZERO: u8 = 48;

/// The decimal digits of a natural number, the first digit first and
/// without leading zeros.
pub open spec fn digits(number: nat) -> Seq<u8>
    decreases number,
{
    if number < 10 {
        seq![(DIGIT_ZERO + number) as u8]
    } else {
        digits(number / 10).push((DIGIT_ZERO + number % 10) as u8)
    }
}

/// The natural number that a run of decimal digits stands for.
pub open spec fn number_of(text: Seq<u8>) -> nat
    decreases text.len(),
{
    if text.len() == 0 {
        0
    } else {
        (number_of(text.drop_last()) * 10 + (text.last() - DIGIT_ZERO)) as nat
    }
}

/// A whole number in decimal, with a minus sign before it where it is
/// negative.
pub open spec fn decimal(number: int) -> Seq<u8> {
    if number < 0 {
        seq![MINUS] + digits((-number) as nat)
    } else {
        digits(number as nat)
    }
}

/// The header of an image.
pub open spec fn header_text(image_width: int, image_height: int, max_color: int) -> Seq<u8> {
    seq![80u8, 51u8, NEWLINE] + decimal(image_width) + seq![SPACE] + decimal(image_height)
        + seq![NEWLINE] + decimal(max_color) + seq![NEWLINE]
}

/// The line of one pixel.
pub open spec fn pixel_text(red: int, green: int, blue: int) -> Seq<u8> {
    decimal(red) + seq![SPACE] + decimal(green) + seq![SPACE] + decimal(blue) + seq![NEWLINE]
}

/// The level of a channel between zero and one: 256 times its value, cut
/// off to a whole number. A double with the exponent field `e` is its
/// fraction field behind a leading one, 53 bits in all, times two to the
/// power of `e - 1075`; 256 times that cuts the lowest `1067 - e` bits off.
pub open spec fn level(channel: i64) -> int {
    if exponent_field(channel) < DARKEST_EXPONENT {
        0
    } else {
        (FRACTION_SPAN + fraction_field(channel)) / (pow2(
            (1067 - exponent_field(channel)) as nat,
        ) as int)
    }
}

/// The level that a channel is written as: that of the channel held between
/// zero and 0.999.
pub open spec fn written_level(channel: i64) -> int {
    level(clamped(channel, ZERO, BRIGHTEST))
}

/// The line of a pixel whose channels are given by their ordinals.
pub open spec fn color_text(pixel_color: Color) -> Seq<u8> {
    pixel_text(
        written_level(pixel_color.x),
        written_level(pixel_color.y),
        written_level(pixel_color.z),
    )
}

/// The lines of the pixels, one after the other.
pub open spec fn batch_text(pixels: Seq<Color>) -> Seq<u8>
    decreases pixels.len(),
{
    if pixels.len() == 0 {
        Seq::empty()
    } else {
        batch_text(pixels.drop_last()) + color_text(pixels.last())
    }
}

/// The digits of a number are decimal digits, as few as can be, and they
/// stand for the number: there is at least one, the first is a zero only
/// where the number is zero, and reading them gives the number back.
pub proof fn lemma_digits_stand_for_number(number: nat)
    ensures
        digits(number).len() >= 1,
        forall|i: int|
            0 <= i < digits(number).len() ==> DIGIT_ZERO <= #[trigger] digits(number)[i]
                <= DIGIT_ZERO + 9,
        digits(number)[0] == DIGIT_ZERO <==> number == 0,
        number_of(digits(number)) == number,
    decreases number,
{
    if number < 10 {
        assert(digits(number).drop_last() =~= Seq::<u8>::empty());
        assert(number_of(digits(number).drop_last()) == 0);
    } else {
        lemma_digits_stand_for_number(number / 10);
        let front = digits(number / 10);
        assert(digits(number).drop_last() =~= front);
        assert(digits(number)[0] == front[0]);
    }
}

/// The level of a channel is the whole part of 256 times its value: a
/// channel at level `k` is at least `k / 256` and below `(k + 1) / 256`.
/// In units of two to the power of -1074, a 256th is two to the power of
/// 1066. A channel below one has a level below 256.
pub proof fn lemma_level_brackets_value(channel: i64)
    requires
        ZERO <= channel < ONE,
    ensures
        0 <= level(channel) <= 255,
        level(channel) * pow2(1066) <= value_in_units(channel) < (level(channel) + 1) * pow2(
            1066,
        ),
{
    let e = exponent_field(channel);
    let f = fraction_field(channel);
    let unit = pow2(1066) as int;
    lemma_magnitude_bounds(channel);
    lemma_order_is_order_of_values(channel, ONE);
    lemma_value_of_one();
    lemma2_to64();
    lemma_pow2_adds(8, 1066);
    assert(value_in_units(channel) < 256 * unit);
    lemma_pow2_pos(1066);
    if e < DARKEST_EXPONENT {
        if e > 0 {
            if 52 + e < 1066 {
                lemma_pow2_strictly_increases((52 + e) as nat, 1066);
            }
        } else {
            lemma_pow2_strictly_increases(52, 1066);
        }
    } else {
        assert(e <= 1022);
        let cut = pow2((1067 - e) as nat) as int;
        let scale = pow2((e - 1) as nat) as int;
        let significand = FRACTION_SPAN + f;
        let k = significand / cut;
        lemma_pow2_pos((1067 - e) as nat);
        lemma_pow2_pos((e - 1) as nat);
        lemma_pow2_adds((1067 - e) as nat, (e - 1) as nat);
        assert(cut * scale == unit);
        lemma_fundamental_div_mod(significand, cut);
        assert(0 <= significand % cut < cut);
        assert(k * unit <= significand * scale < (k + 1) * unit) by (nonlinear_arith)
            requires
                significand == cut * k + significand % cut,
                0 <= significand % cut < cut,
                cut * scale == unit,
                scale > 0,
        ;
        assert(0 <= k) by (nonlinear_arith)
            requires
                significand == cut * k + significand % cut,
                0 <= significand % cut < cut,
                significand >= 0,
                cut > 0,
        ;
        assert(k < 256) by (nonlinear_arith)
            requires
                k * unit < 256 * unit,
                unit > 0,
        ;
    }
}

/// The level that a channel is written as: the channel is held between
/// zero and 0.999, multiplied by 256 and cut off to a whole number.
pub fn quantize(channel: i64) -> (written: i32)
    ensures
        written == written_level(channel),
        0 <= written <= 255,
{
    let held: i64 = clamp(channel, ZERO, BRIGHTEST);
    proof {
        lemma_level_brackets_value(held);
    }
    let exponent: i64 = held / FRACTION_SPAN;
    let fraction: i64 = held % FRACTION_SPAN;
    if exponent < DARKEST_EXPONENT {
        0
    } else {
        let shift: u64 = (1067 - exponent) as u64;
        let significand: u64 = (FRACTION_SPAN + fraction) as u64;
        proof {
            lemma_u64_shr_is_div(significand, shift);
        }
        (significand >> shift) as i32
    }
}

fn push_digits(text: &mut Vec<u8>, number: u64)
    ensures
        final(text)@ == old(text)@ + digits(number as nat),
    decreases number,
{
    if number < 10 {
        text.push(DIGIT_ZERO + number as u8);
        assert(text@ == old(text)@ + digits(number as nat));
    } else {
        push_digits(text, number / 10);
        text.push(DIGIT_ZERO + (number % 10) as u8);
        assert(text@ == old(text)@ + digits(number as nat));
    }
}

fn push_decimal(text: &mut Vec<u8>, number: i64)
    ensures
        final(text)@ == old(text)@ + decimal(number as int),
{
    if number < 0 {
        text.push(MINUS);
        let magnitude: u64 = if number == i64::MIN {
            0x8000_0000_0000_0000
        } else {
            (0 - number) as u64
        };
        push_digits(text, magnitude);
        assert(text@ == old(text)@ + decimal(number as int));
    } else {
        push_digits(text, number as u64);
    }
}

/// The header of an image of the given size whose channels go up to
/// `max_color`.
pub fn write_header(image_width: usize, image_height: usize, max_color: i32) -> (text: Vec<u8>)
    ensures
        text@ == header_text(image_width as int, image_height as int, max_color as int),
{
    let mut text: Vec<u8> = Vec::new();
    text.push(80);
    text.push(51);
    text.push(NEWLINE);
    assert(text@ == seq![80u8, 51u8, NEWLINE]);
    push_digits(&mut text, image_width as u64);
    text.push(SPACE);
    push_digits(&mut text, image_height as u64);
    text.push(NEWLINE);
    push_decimal(&mut text, max_color as i64);
    text.push(NEWLINE);
    assert(text@ == header_text(image_width as int, image_height as int, max_color as int));
    text
}

/// The line of a pixel with the given channels.
pub fn write_pixel(red: i32, green: i32, blue: i32) -> (text: Vec<u8>)
    ensures
        text@ == pixel_text(red as int, green as int, blue as int),
{
    let mut text: Vec<u8> = Vec::new();
    push_decimal(&mut text, red as i64);
    text.push(SPACE);
    push_decimal(&mut text, green as i64);
    text.push(SPACE);
    push_decimal(&mut text, blue as i64);
    text.push(NEWLINE);
    assert(text@ == pixel_text(red as int, green as int, blue as int));
    text
}

/// The line of a pixel whose channels are given by the ordinals of their
/// values, averaged over the samples and corrected for gamma.
pub fn write_color_multisample(pixel_color: Color) -> (text: Vec<u8>)
    ensures
        text@ == color_text(pixel_color),
{
    let clamped_red: i32 = quantize(pixel_color.x);
    let clamped_green: i32 = quantize(pixel_color.y);
    let clamped_blue: i32 = quantize(pixel_color.z);
    write_pixel(clamped_red, clamped_green, clamped_blue)
}

/// The lines of many pixels, in the order in which they are given.
pub fn write_color_multisample_batch(pixels: &Vec<Color>) -> (text: Vec<u8>)
    ensures
        text@ == batch_text(pixels@),
{
    let mut text: Vec<u8> = Vec::new();
    let mut written: usize = 0;
    while written < pixels.len()
        invariant
            written <= pixels@.len(),
            text@ == batch_text(pixels@.take(written as int)),
        decreases pixels@.len() - written,
    {
        let mut line: Vec<u8> = write_color_multisample(pixels[written]);
        proof {
            assert(pixels@.take(written + 1).drop_last() == pixels@.take(written as int));
        }
        text.append(&mut line);
        written = written + 1;
    }
    proof {
        assert(pixels@.take(written as int) == pixels@);
    }
    text
}

} // verus!
