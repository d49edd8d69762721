//! The image as text: the header of a plain PPM file and one line for each pixel.

use vstd::prelude::*;
use crate::fixed::{Fixed, ONE_RAW, lemma_fx_sqrt_bounds};
use crate::util::{clamp, spec_clamp};
use crate::vector3::Vector3;

verus! {

/// The raw value of the brightest channel value before it is scaled to a
/// byte (about `0.999`).
pub const BRIGHTEST_RAW: i64 = 4290672328;

/// The decimal digits of `n`, in ASCII.
pub open spec fn decimal(n: nat) -> Seq<u8>
    decreases n,
{
    if n < 10 {
        seq![(48 + n) as u8]
    } else {
        decimal(n / 10).push((48 + n % 10) as u8)
    }
}

/// The byte for one channel of a pixel: the mean of the samples, its
/// square root for a gamma of two, held to `[0, 0.999]` and scaled to `0..=255`.
pub open spec fn channel_byte(sum: Fixed, samples_per_pixel: u16) -> u8 {
    let mean = sum.spec_divided_by(Fixed::of(samples_per_pixel * ONE_RAW));
    let gamma = if mean@ < 0 {
        Fixed::of(0)
    } else {
        mean.spec_sqrt()
    };
    let held = spec_clamp(gamma, Fixed::of(0), Fixed::of(BRIGHTEST_RAW as int));
    ((held@ * 256) / (ONE_RAW as int)) as u8
}

/// The line of a pixel: its three channel values in decimal, with a space
/// between them and a line feed at the end.
pub open spec fn pixel_line(red: u8, green: u8, blue: u8) -> Seq<u8> {
    decimal(red as nat) + seq![32u8] + decimal(green as nat) + seq![32u8] + decimal(blue as nat)
        + seq![10u8]
}

/// The header of a plain PPM image: the format's magic number, the width
/// and the height, and the largest channel value, 255.
pub open spec fn header(width: u32, height: u32) -> Seq<u8> {
    seq![80u8, 51u8, 10u8] + decimal(width as nat) + seq![32u8] + decimal(height as nat) + seq![
        10u8,
        50u8,
        53u8,
        53u8,
        10u8,
    ]
}

/// Appends the decimal digits of `n`.
pub fn push_decimal(out: &mut Vec<u8>, n: u32)
    ensures
        final(out)@ == old(out)@ + decimal(n as nat),
    decreases n,
{
    if n >= 10 {
        push_decimal(out, n / 10);
    }
    out.push(48 + (n % 10) as u8);
    assert(final(out)@ =~= old(out)@ + decimal(n as nat));
}

/// The byte for one channel of a pixel.
pub fn quantize(sum: Fixed, samples_per_pixel: u16) -> (b: u8)
    requires
        samples_per_pixel > 0,
    ensures
        b == channel_byte(sum, samples_per_pixel),
{
    // Divide the color by the number of samples and gamma-correct for gamma=2.0.
    let mean = sum.divided_by(Fixed::from_int(samples_per_pixel as i32));
    let gamma = if mean.lt(Fixed::zero()) {
        Fixed::zero()
    } else {
        proof {
            lemma_fx_sqrt_bounds(mean@);
        }
        mean.sqrt()
    };
    let held = clamp(gamma, Fixed::zero(), Fixed::from_raw(BRIGHTEST_RAW));
    ((held.raw * 256) / ONE_RAW) as u8
}

/// Appends the header of a plain PPM image.
pub fn write_header(out: &mut Vec<u8>, width: u32, height: u32)
    ensures
        final(out)@ == old(out)@ + header(width, height),
{
    out.push(80);
    out.push(51);
    out.push(10);
    push_decimal(out, width);
    out.push(32);
    push_decimal(out, height);
    out.push(10);
    out.push(50);
    out.push(53);
    out.push(53);
    out.push(10);
    assert(final(out)@ =~= old(out)@ + header(width, height));
}

/// Appends the line of one pixel, given the sum of the colours of its samples.
pub fn write_color(out: &mut Vec<u8>, pixel_color: Vector3, samples_per_pixel: u16)
    requires
        samples_per_pixel > 0,
    ensures
        final(out)@ == old(out)@ + pixel_line(
            channel_byte(pixel_color.x, samples_per_pixel),
            channel_byte(pixel_color.y, samples_per_pixel),
            channel_byte(pixel_color.z, samples_per_pixel),
        ),
{
    let r = quantize(pixel_color.x, samples_per_pixel);
    let g = quantize(pixel_color.y, samples_per_pixel);
    let b = quantize(pixel_color.z, samples_per_pixel);
    push_decimal(out, r as u32);
    out.push(32);
    push_decimal(out, g as u32);
    out.push(32);
    push_decimal(out, b as u32);
    out.push(10);
    assert(final(out)@ =~= old(out)@ + pixel_line(r, g, b));
}

} // verus!
