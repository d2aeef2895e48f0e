//! The resizer: scales an image down to fit given bounds, keeping its
//! aspect ratio, and leaves an image that already fits alone.

use vstd::prelude::*;
use crate::pixel::{size_fits, PixelBuffer};

verus! {

/// `a / b` rounded to the nearest integer, halves rounded up.
pub open spec fn round_div(a: int, b: int) -> int {
    (2 * a + b) / (2 * b)
}

/// `value`, but at least 1.
pub open spec fn at_least_one(value: int) -> int {
    if value < 1 {
        1
    } else {
        value
    }
}

/// Whether the width-to-bound ratio is the smaller of the two scale factors
/// `max_width / width` and `max_height / height`.
pub open spec fn width_limits(width: int, height: int, max_width: int, max_height: int) -> bool {
    max_width * height <= max_height * width
}

/// The size of an image of `width` by `height` after it is made to fit
/// within `max_width` by `max_height`.
///
/// An image within the bounds keeps its size. Otherwise both dimensions are
/// multiplied by the smaller of `max_width / width` and `max_height /
/// height` and rounded to the nearest integer; a result of 0 becomes 1, so
/// that no empty image comes out.
pub open spec fn fitted_size(width: int, height: int, max_width: int, max_height: int) -> (
    int,
    int,
) {
    if width <= max_width && height <= max_height {
        (width, height)
    } else if width_limits(width, height, max_width, max_height) {
        (at_least_one(max_width), at_least_one(round_div(height * max_width, width)))
    } else {
        (at_least_one(round_div(width * max_height, height)), at_least_one(max_height))
    }
}

/// Rounded division is within one half of the exact quotient.
pub proof fn lemma_round_div(a: int, b: int)
    requires
        0 <= a,
        0 < b,
    ensures
        0 <= round_div(a, b),
        2 * a - b < 2 * b * round_div(a, b) <= 2 * a + b,
{
    let q = round_div(a, b);
    vstd::arithmetic::div_mod::lemma_fundamental_div_mod(2 * a + b, 2 * b);
    vstd::arithmetic::div_mod::lemma_div_pos_is_pos(2 * a + b, 2 * b);
    vstd::arithmetic::div_mod::lemma_mod_bound(2 * a + b, 2 * b);
    assert(2 * b * q == (2 * b) * ((2 * a + b) / (2 * b)));
}

/// Scaling by a factor below one and rounding never grows a dimension, and
/// never passes the bound that set the factor.
pub proof fn lemma_round_div_scaled(side: int, bound: int, other: int)
    requires
        1 <= side,
        0 <= bound < other,
    ensures
        0 <= round_div(side * bound, other) <= side,
{
    let a = side * bound;
    assert(0 <= a && a <= side * (other - 1) && side * (other - 1) == side * other - side && side
        * other == other * side) by (nonlinear_arith)
        requires
            1 <= side,
            0 <= bound <= other - 1,
            a == side * bound,
    ;
    lemma_round_div(a, other);
    let q = round_div(a, other);
    if q > side {
        assert(2 * other * q >= 2 * other * (side + 1) && 2 * other * (side + 1) == 2 * (other
            * side) + 2 * other) by (nonlinear_arith)
            requires
                q >= side + 1,
                other > 0,
        ;
    }
}

/// When the image is too large and the width sets the scale, the width is
/// what exceeds its bound, and the scaled height stays within its bound.
pub proof fn lemma_width_limited(width: int, height: int, max_width: int, max_height: int)
    requires
        1 <= width,
        1 <= height,
        0 <= max_width,
        0 <= max_height,
        !(width <= max_width && height <= max_height),
        width_limits(width, height, max_width, max_height),
    ensures
        max_width < width,
        0 <= round_div(height * max_width, width) <= height,
        round_div(height * max_width, width) <= at_least_one(max_height),
{
    if width <= max_width {
        assert(max_width * height > max_height * width) by (nonlinear_arith)
            requires
                width <= max_width,
                height > max_height,
                1 <= width,
                0 <= max_height,
        ;
    }
    lemma_round_div_scaled(height, max_width, width);
    let a = height * max_width;
    let q = round_div(a, width);
    lemma_round_div(a, width);
    assert(a == max_width * height) by (nonlinear_arith)
        requires
            a == height * max_width,
    ;
    if q > max_height && q > 1 {
        assert(2 * width * q >= 2 * (max_height * width) + 2 * width) by (nonlinear_arith)
            requires
                q >= max_height + 1,
                width > 0,
        ;
    }
}

/// The same with the roles of width and height exchanged.
pub proof fn lemma_height_limited(width: int, height: int, max_width: int, max_height: int)
    requires
        1 <= width,
        1 <= height,
        0 <= max_width,
        0 <= max_height,
        !(width <= max_width && height <= max_height),
        !width_limits(width, height, max_width, max_height),
    ensures
        max_height < height,
        0 <= round_div(width * max_height, height) <= width,
        round_div(width * max_height, height) <= at_least_one(max_width),
{
    if height <= max_height {
        assert(max_width * height <= max_height * width) by (nonlinear_arith)
            requires
                height <= max_height,
                width > max_width,
                1 <= height,
                0 <= max_width,
        ;
    }
    lemma_round_div_scaled(width, max_height, height);
    let a = width * max_height;
    let q = round_div(a, height);
    lemma_round_div(a, height);
    assert(a == max_height * width) by (nonlinear_arith)
        requires
            a == width * max_height,
    ;
    if q > max_width && q > 1 {
        assert(2 * height * q >= 2 * (max_width * height) + 2 * height) by (nonlinear_arith)
            requires
                q >= max_width + 1,
                height > 0,
        ;
    }
}

/// An image within the bounds keeps its size.
pub proof fn lemma_fit_keeps_small_images(width: int, height: int, max_width: int, max_height: int)
    requires
        width <= max_width,
        height <= max_height,
    ensures
        fitted_size(width, height, max_width, max_height) == (width, height),
{
}

/// Fitting never enlarges an image and never gives an empty one; with
/// bounds of at least one pixel the result lies within the bounds.
pub proof fn lemma_fit_respects_bounds(width: int, height: int, max_width: int, max_height: int)
    requires
        1 <= width,
        1 <= height,
        0 <= max_width,
        0 <= max_height,
    ensures
        1 <= fitted_size(width, height, max_width, max_height).0 <= width,
        1 <= fitted_size(width, height, max_width, max_height).1 <= height,
        max_width >= 1 && max_height >= 1 ==> fitted_size(width, height, max_width, max_height).0
            <= max_width && fitted_size(width, height, max_width, max_height).1 <= max_height,
{
    if !(width <= max_width && height <= max_height) {
        if width_limits(width, height, max_width, max_height) {
            lemma_width_limited(width, height, max_width, max_height);
        } else {
            lemma_height_limited(width, height, max_width, max_height);
        }
    }
}

/// Fitting keeps the aspect ratio within rounding: the side that sets the
/// scale lands exactly on its bound, and the other side is within one half
/// of its exactly scaled length, or is the single pixel that stands for a
/// length that rounds to zero.
pub proof fn lemma_fit_keeps_aspect_ratio(width: int, height: int, max_width: int, max_height: int)
    requires
        1 <= width,
        1 <= height,
        1 <= max_width,
        1 <= max_height,
        !(width <= max_width && height <= max_height),
    ensures
        ({
            let (w, h) = fitted_size(width, height, max_width, max_height);
            if width_limits(width, height, max_width, max_height) {
                &&& w == max_width
                &&& (-width < 2 * (h * width - height * max_width) <= width || (h == 1 && 2 * (
                height * max_width) < width))
            } else {
                &&& h == max_height
                &&& (-height < 2 * (w * height - width * max_height) <= height || (w == 1 && 2 * (
                width * max_height) < height))
            }
        }),
{
    if width_limits(width, height, max_width, max_height) {
        let a = height * max_width;
        assert(0 <= a) by (nonlinear_arith)
            requires
                a == height * max_width,
                1 <= height,
                1 <= max_width,
        ;
        lemma_round_div(a, width);
        let q = round_div(a, width);
        assert(2 * width * q == 2 * (q * width)) by (nonlinear_arith);
        if q < 1 {
            assert(q == 0);
            assert(2 * width * q == 0) by (nonlinear_arith)
                requires
                    q == 0,
            ;
        }
    } else {
        let a = width * max_height;
        assert(0 <= a) by (nonlinear_arith)
            requires
                a == width * max_height,
                1 <= width,
                1 <= max_height,
        ;
        lemma_round_div(a, height);
        let q = round_div(a, height);
        assert(2 * height * q == 2 * (q * height)) by (nonlinear_arith);
        if q < 1 {
            assert(q == 0);
            assert(2 * height * q == 0) by (nonlinear_arith)
                requires
                    q == 0,
            ;
        }
    }
}

/// `side * bound / other`, rounded to the nearest integer.
fn scale_side(side: u32, bound: u32, other: u32) -> (scaled: u32)
    requires
        1 <= side,
        bound < other,
    ensures
        scaled == round_div(side * bound, other as int),
{
    proof {
        lemma_round_div_scaled(side as int, bound as int, other as int);
        assert(0 <= side * bound <= 0xFFFF_FFFF * 0xFFFF_FFFF) by (nonlinear_arith)
            requires
                0 <= side <= 0xFFFF_FFFF,
                0 <= bound <= 0xFFFF_FFFF,
        ;
    }
    let product: u128 = (side as u128) * (bound as u128);
    let scaled: u128 = (2 * product + other as u128) / (2 * (other as u128));
    scaled as u32
}

/// Computes the size to which an image is made to fit.
pub fn fit_dimensions(width: u32, height: u32, max_width: u32, max_height: u32) -> (size: (u32, u32))
    requires
        width >= 1,
        height >= 1,
    ensures
        (size.0 as int, size.1 as int) == fitted_size(
            width as int,
            height as int,
            max_width as int,
            max_height as int,
        ),
{
    if width <= max_width && height <= max_height {
        return (width, height);
    }
    proof {
        assert(0 <= max_width * height <= 0xFFFF_FFFF * 0xFFFF_FFFF && 0 <= max_height * width
            <= 0xFFFF_FFFF * 0xFFFF_FFFF) by (nonlinear_arith)
            requires
                0 <= width <= 0xFFFF_FFFF,
                0 <= height <= 0xFFFF_FFFF,
                0 <= max_width <= 0xFFFF_FFFF,
                0 <= max_height <= 0xFFFF_FFFF,
        ;
    }
    let by_width = (max_width as u64) * (height as u64) <= (max_height as u64) * (width as u64);
    if by_width {
        proof {
            lemma_width_limited(width as int, height as int, max_width as int, max_height as int);
        }
        let scaled = scale_side(height, max_width, width);
        (if max_width < 1 { 1 } else { max_width }, if scaled < 1 { 1 } else { scaled })
    } else {
        proof {
            lemma_height_limited(width as int, height as int, max_width as int, max_height as int);
        }
        let scaled = scale_side(width, max_height, height);
        (if scaled < 1 { 1 } else { scaled }, if max_height < 1 { 1 } else { max_height })
    }
}

/// Resamples raw RGBA bytes to a new size with the `image` crate's
/// `imageops::resize` and its Lanczos3 filter.
///
/// Trusted: the result holds four bytes for each pixel of the new size.
/// Nothing is claimed of the resampled colours. The preconditions keep away
/// the inputs on which the outside code would fail to build its buffers.
#[verifier::external_body]
fn resample_lanczos3(
    width: u32,
    height: u32,
    data: &Vec<u8>,
    new_width: u32,
    new_height: u32,
) -> (resampled: Vec<u8>)
    requires
        width >= 1,
        height >= 1,
        data.len() == 4 * width * height,
        new_width >= 1,
        new_height >= 1,
        size_fits(width as int, new_height as int),
        size_fits(new_width as int, new_height as int),
    ensures
        resampled.len() == 4 * new_width * new_height,
{
    let source: image::ImageBuffer<image::Rgba<u8>, &[u8]> =
        image::ImageBuffer::from_raw(width, height, data.as_slice()).unwrap();
    image::imageops::resize(&source, new_width, new_height, image::imageops::FilterType::Lanczos3)
        .into_raw()
}

/// Makes an image fit within `max_width` by `max_height`.
///
/// An image already within the bounds comes back unchanged, pixel for
/// pixel. A larger one is resampled with a Lanczos filter to `fitted_size`:
/// scaled by one factor on both axes, never enlarged, never empty.
pub fn resize_image(image: &PixelBuffer, max_width: u32, max_height: u32) -> (resized: PixelBuffer)
    ensures
        resized@.wf(),
        (resized@.width as int, resized@.height as int) == fitted_size(
            image@.width as int,
            image@.height as int,
            max_width as int,
            max_height as int,
        ),
        image@.width <= max_width && image@.height <= max_height ==> resized@ == image@,
{
    let width = image.width();
    let height = image.height();
    if width <= max_width && height <= max_height {
        return image.clone();
    }
    let (new_width, new_height) = fit_dimensions(width, height, max_width, max_height);
    let data = image.as_raw();
    proof {
        lemma_fit_respects_bounds(width as int, height as int, max_width as int, max_height as int);
        assert(data@.len() == data.len());
        assert(4 * width * new_height <= 4 * width * height && 4 * new_width * new_height <= 4
            * width * height) by (nonlinear_arith)
            requires
                1 <= new_width <= width,
                1 <= new_height <= height,
        ;
    }
    let resampled = resample_lanczos3(width, height, data, new_width, new_height);
    let resized = PixelBuffer::from_raw(new_width, new_height, resampled);
    resized.unwrap()
}

} // verus!
