//! The settings of a render.

use vstd::prelude::*;

verus! {

/// The settings of a render.
#[derive(Debug, Clone, Copy, PartialEq, Eq, Structural)]
pub struct Args {
    /// Number of direct samples per pixel.
    pub samples: i32,
    /// Number of indirect bounces per direct ray.
    pub diffuse_bounces: i32,
    /// Image height in pixels.
    pub height: usize,
    /// Image width in pixels.
    pub width: usize,
}

impl Default for Args {
    /// 50 samples for each pixel and 20 bounces for each sample, in an image
    /// 1920 wide and 1080 high.
    fn default() -> (args: Args)
        ensures
            args == (Args { samples: 50, diffuse_bounces: 20, height: 1080, width: 1920 }),
    {
        Args { samples: 50, diffuse_bounces: 20, height: 1080, width: 1920 }
    }
}

} // verus!
