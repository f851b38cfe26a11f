//! The support rules of the observation noise models.
//!
//! A pixel of a noisy image is drawn around the true pixel from a normal
//! distribution truncated to an interval. The rules here say which
//! parameters such a distribution accepts, which observations it supports
//! and which of them have a density that no formula gives.

use vstd::prelude::*;
use crate::config::AREA;
use crate::scalar::{
    eq, is_zero, le, lemma_constants, less, less64, less_eq, lt, lt64, same, zero, ONE, ZERO,
};

verus! {

/// Values of a pixel of a depth image.
pub const DEPTH_CHANNELS: usize = 1;

/// Values of a pixel of a color image.
pub const COLOR_CHANNELS: usize = 3;

/// Why a noise model refuses its input.
#[derive(Clone, Copy, Debug, PartialEq, Eq, Structural)]
pub enum ModelError {
    /// A noise level outside `[0, 1]`, a deviation below zero, or bounds
    /// that enclose no interval.
    UnsupportedParameter,
    /// An image that does not hold exactly one frame.
    ShapeMismatch,
}

/// What the logarithm of a density is at an observation.
#[derive(Clone, Copy, Debug, PartialEq, Eq, Structural)]
pub enum LogDensity {
    /// Negative infinity: the observation cannot occur.
    NegInfinity,
    /// Positive infinity: the distribution has no spread and the observation
    /// is its one value.
    PosInfinity,
    /// The value of the truncated normal's formula.
    Formula,
}

/// A noise level is a number in `[0, 1]`.
pub open spec fn noise_ok(noise: u32) -> bool {
    less_eq(ZERO, noise) && less_eq(noise, ONE)
}

/// A truncated normal needs a deviation that is not below zero and bounds
/// with `a < b`.
pub open spec fn truncation_ok(sigma: u32, a: u32, b: u32) -> bool {
    less_eq(ZERO, sigma) && less(a, b)
}

/// The observation lies in `[a, b]`.
pub open spec fn in_support(x: u32, a: u32, b: u32) -> bool {
    less_eq(a, x) && less_eq(x, b)
}

/// The logarithm of the truncated normal's density at `x`, as far as the
/// parameters alone decide it.
pub open spec fn log_density_of(x: u32, mu: u32, sigma: u32, a: u32, b: u32) -> LogDensity {
    if !in_support(x, a, b) {
        LogDensity::NegInfinity
    } else if !is_zero(sigma) {
        LogDensity::Formula
    } else if same(x, mu) {
        LogDensity::PosInfinity
    } else {
        LogDensity::NegInfinity
    }
}

/// The class of the pixel at place `i` of a noisy image.
pub open spec fn pixel_class(noisy: Seq<u32>, truth: Seq<u32>, noise: u32, i: int) -> LogDensity {
    log_density_of(noisy[i], truth[i], noise, ZERO, ONE)
}

/// Whether some pixel of a noisy image has the given class.
pub open spec fn some_pixel_is(
    noisy: Seq<u32>,
    truth: Seq<u32>,
    noise: u32,
    class: LogDensity,
) -> bool {
    exists|i: int| 0 <= i < noisy.len() && #[trigger] pixel_class(noisy, truth, noise, i) == class
}

/// The class of the sum over the pixels of a noisy image: negative infinity
/// as soon as one pixel cannot occur, else positive infinity as soon as one
/// pixel is certain, else the sum of the formula's values.
pub open spec fn image_class(noisy: Seq<u32>, truth: Seq<u32>, noise: u32) -> LogDensity {
    if some_pixel_is(noisy, truth, noise, LogDensity::NegInfinity) {
        LogDensity::NegInfinity
    } else if some_pixel_is(noisy, truth, noise, LogDensity::PosInfinity) {
        LogDensity::PosInfinity
    } else {
        LogDensity::Formula
    }
}

/// Accepts a noise level in `[0, 1]` and refuses any other.
pub fn check_noise(noise: u32) -> (r: Result<(), ModelError>)
    ensures
        r is Ok <==> noise_ok(noise),
        r is Err ==> r->Err_0 == ModelError::UnsupportedParameter,
{
    if le(ZERO, noise) && le(noise, ONE) {
        Ok(())
    } else {
        Err(ModelError::UnsupportedParameter)
    }
}

/// Accepts an image of one frame, with the given number of values for each
/// pixel, and refuses any other.
pub fn check_shape(len: usize, channels: usize) -> (r: Result<(), ModelError>)
    ensures
        r is Ok <==> len == channels * AREA,
        r is Err ==> r->Err_0 == ModelError::ShapeMismatch,
{
    match channels.checked_mul(AREA) {
        Some(frame) if len == frame => Ok(()),
        _ => Err(ModelError::ShapeMismatch),
    }
}

/// Checks what a noisy image is drawn from: the noise level first, then the
/// true image, which must hold one frame with the given number of values
/// for each pixel.
pub fn check_image(len: usize, noise: u32, channels: usize) -> (r: Result<(), ModelError>)
    ensures
        match r {
            Ok(()) => noise_ok(noise) && len == channels * AREA,
            Err(ModelError::UnsupportedParameter) => !noise_ok(noise),
            Err(ModelError::ShapeMismatch) => noise_ok(noise) && len != channels * AREA,
        },
{
    match check_noise(noise) {
        Err(e) => Err(e),
        Ok(()) => check_shape(len, channels),
    }
}

/// Accepts the deviation and the bounds of a truncated normal where the
/// deviation is not below zero and `a < b`, and refuses any other.
pub fn check_truncation(sigma: u32, a: u32, b: u32) -> (r: Result<(), ModelError>)
    ensures
        r is Ok <==> truncation_ok(sigma, a, b),
        r is Err ==> r->Err_0 == ModelError::UnsupportedParameter,
{
    if le(ZERO, sigma) && lt(a, b) {
        Ok(())
    } else {
        Err(ModelError::UnsupportedParameter)
    }
}

/// Decides from which component of the mixture a value of a noisy image is
/// drawn: from the uniform one where a uniform draw falls below the noise
/// level, else from the truncated normal. Both arguments are in double
/// precision.
pub fn draws_uniform(u: u64, noise: u64) -> (r: bool)
    ensures
        r == less64(u, noise),
{
    lt64(u, noise)
}

/// Decides whether a draw from the untruncated normal is kept: the sampler
/// draws again until this holds.
pub fn accepts(x: u32, a: u32, b: u32) -> (r: bool)
    ensures
        r == in_support(x, a, b),
{
    le(a, x) && le(x, b)
}

/// Classifies the logarithm of the density of a normal around `mu` with
/// deviation `sigma`, truncated to `[a, b]`, at the observation `x`.
///
/// Outside `[a, b]` it is negative infinity. Inside, a positive deviation
/// leaves it to the formula. A deviation of zero is the limit of ever
/// narrower distributions: positive infinity at `mu` and negative infinity
/// elsewhere.
pub fn log_density(x: u32, mu: u32, sigma: u32, a: u32, b: u32) -> (r: Result<
    LogDensity,
    ModelError,
>)
    ensures
        r is Ok <==> truncation_ok(sigma, a, b),
        r is Ok ==> r->Ok_0 == log_density_of(x, mu, sigma, a, b),
        r is Err ==> r->Err_0 == ModelError::UnsupportedParameter,
        r is Ok && !in_support(x, a, b) ==> r->Ok_0 == LogDensity::NegInfinity,
        r is Ok && in_support(x, a, b) && less(ZERO, sigma) ==> r->Ok_0 == LogDensity::Formula,
{
    if check_truncation(sigma, a, b).is_err() {
        return Err(ModelError::UnsupportedParameter);
    }
    proof {
        lemma_constants();
    }
    if !accepts(x, a, b) {
        Ok(LogDensity::NegInfinity)
    } else if !zero(sigma) {
        Ok(LogDensity::Formula)
    } else if eq(x, mu) {
        Ok(LogDensity::PosInfinity)
    } else {
        Ok(LogDensity::NegInfinity)
    }
}

/// Classifies the logarithm of the density of one noisy pixel around its
/// true value: a normal with the noise level as its deviation, truncated to
/// `[0, 1]`.
pub fn pixel_log_density(noisy: u32, truth: u32, noise: u32) -> (r: Result<LogDensity, ModelError>)
    ensures
        r is Ok <==> noise_ok(noise),
        r is Ok ==> r->Ok_0 == log_density_of(noisy, truth, noise, ZERO, ONE),
        r is Err ==> r->Err_0 == ModelError::UnsupportedParameter,
        r is Ok && is_zero(noise) ==> r->Ok_0 == (if in_support(noisy, ZERO, ONE) && same(
            noisy,
            truth,
        ) {
            LogDensity::PosInfinity
        } else {
            LogDensity::NegInfinity
        }),
{
    match check_noise(noise) {
        Err(e) => Err(e),
        Ok(()) => {
            proof {
                lemma_constants();
            }
            log_density(noisy, truth, noise, ZERO, ONE)
        },
    }
}

/// Classifies the logarithm of the density of a noisy image around the
/// true image: the sum over all values of all pixels.
///
/// A noise level outside `[0, 1]` is refused first, then a true or a noisy
/// image that does not hold one frame of `channels` values for each pixel.
/// Only where the class is `Formula` is there a sum for the caller to
/// compute.
pub fn image_log_density(noisy: &Vec<u32>, truth: &Vec<u32>, noise: u32, channels: usize) -> (r:
    Result<LogDensity, ModelError>)
    ensures
        match r {
            Ok(class) => noise_ok(noise) && noisy.len() == channels * AREA && truth.len()
                == channels * AREA && class == image_class(noisy@, truth@, noise),
            Err(ModelError::UnsupportedParameter) => !noise_ok(noise),
            Err(ModelError::ShapeMismatch) => noise_ok(noise) && !(noisy.len() == channels * AREA
                && truth.len() == channels * AREA),
        },
{
    match check_image(truth.len(), noise, channels) {
        Err(e) => {
            return Err(e);
        },
        Ok(()) => {},
    }
    if check_shape(noisy.len(), channels).is_err() {
        return Err(ModelError::ShapeMismatch);
    }
    let mut certain: bool = false;
    let mut i: usize = 0;
    while i < noisy.len()
        invariant
            i <= noisy.len(),
            noisy.len() == channels * AREA,
            truth.len() == channels * AREA,
            noise_ok(noise),
            forall|j: int|
                0 <= j < i ==> #[trigger] pixel_class(noisy@, truth@, noise, j)
                    != LogDensity::NegInfinity,
            certain <==> exists|j: int|
                0 <= j < i && #[trigger] pixel_class(noisy@, truth@, noise, j)
                    == LogDensity::PosInfinity,
        decreases noisy.len() - i,
    {
        match pixel_log_density(noisy[i], truth[i], noise) {
            Ok(LogDensity::NegInfinity) => {
                assert(pixel_class(noisy@, truth@, noise, i as int) == LogDensity::NegInfinity);
                return Ok(LogDensity::NegInfinity);
            },
            Ok(LogDensity::PosInfinity) => {
                assert(pixel_class(noisy@, truth@, noise, i as int) == LogDensity::PosInfinity);
                certain = true;
            },
            Ok(LogDensity::Formula) => {
                assert(pixel_class(noisy@, truth@, noise, i as int) == LogDensity::Formula);
            },
            Err(_) => {},
        }
        i += 1;
    }
    if certain {
        Ok(LogDensity::PosInfinity)
    } else {
        Ok(LogDensity::Formula)
    }
}

} // verus!
