//! The integer part of a camera's configuration: image size, sample count
//! and bounce budget, with their defaults, validated when built.
use vstd::prelude::*;

verus! {

/// Samples drawn per pixel when the caller names no count.
pub const DEFAULT_SAMPLES_PER_PIXEL: usize = 100;

/// Bounces followed per path when the caller names no depth.
pub const DEFAULT_MAX_DEPTH: usize = 10;

/// Why a configuration was refused.
#[derive(Clone, Copy, Debug, PartialEq, Eq, Structural)]
pub enum ConfigError {
    /// The image width or height is zero.
    ZeroDimension,
}

/// Image size, samples per pixel and maximal path depth of a render.
#[derive(Clone, Copy, Debug, PartialEq, Eq, Structural)]
pub struct RenderSettings {
    pub image_width: u32,
    pub image_height: u32,
    pub samples_per_pixel: usize,
    pub max_depth: usize,
}

/// The value of an optional setting, or its default.
pub open spec fn or_default(v: Option<usize>, default: usize) -> usize {
    match v {
        Some(x) => x,
        None => default,
    }
}

fn value_or(v: Option<usize>, default: usize) -> (r: usize)
    ensures
        r == or_default(v, default),
{
    match v {
        Some(x) => x,
        None => default,
    }
}

impl RenderSettings {
    /// Both image dimensions are positive.
    pub open spec fn wf(&self) -> bool {
        self.image_width > 0 && self.image_height > 0
    }

    /// Builds the settings from an image size `(width, height)` and the
    /// optional sample count and depth, which default to 100 and 10. A zero
    /// width or height is refused.
    pub fn new(
        image_size: (u32, u32),
        samples_per_pixel: Option<usize>,
        max_depth: Option<usize>,
    ) -> (r: Result<RenderSettings, ConfigError>)
        ensures
            (image_size.0 == 0 || image_size.1 == 0) <==> r == Err::<RenderSettings, ConfigError>(
                ConfigError::ZeroDimension,
            ),
            !(image_size.0 == 0 || image_size.1 == 0) ==> r is Ok,
            r is Ok ==> r->Ok_0 == (RenderSettings {
                image_width: image_size.0,
                image_height: image_size.1,
                samples_per_pixel: or_default(samples_per_pixel, DEFAULT_SAMPLES_PER_PIXEL),
                max_depth: or_default(max_depth, DEFAULT_MAX_DEPTH),
            }),
            r is Ok ==> r->Ok_0.wf(),
    {
        let (image_width, image_height) = image_size;
        if image_width == 0 || image_height == 0 {
            return Err(ConfigError::ZeroDimension);
        }
        Ok(RenderSettings {
            image_width,
            image_height,
            samples_per_pixel: value_or(samples_per_pixel, DEFAULT_SAMPLES_PER_PIXEL),
            max_depth: value_or(max_depth, DEFAULT_MAX_DEPTH),
        })
    }
}

} // verus!
