//! The skybox: what the renderer needs to fade from one sky to the next.

use vstd::prelude::*;

verus! {

/// Fade from one sky to another.
#[derive(Clone, Copy, Debug, PartialEq, Eq)]
pub struct SkyboxCustomMaterial {
    /// When the fade begins, in microseconds on the renderer's clock.
    pub time_t0: u64,
    /// Asset of the sky that fades in.
    pub sky_texture1: &'static str,
    /// Asset of the sky that fades out.
    pub sky_texture2: &'static str,
}

impl SkyboxCustomMaterial {
    /// The fade that begins at `time_t0`, from `sky_texture2` to
    /// `sky_texture1`.
    pub fn new(time_t0: u64, sky_texture1: &'static str, sky_texture2: &'static str) -> (m: Self)
        ensures
            m == (SkyboxCustomMaterial { time_t0, sky_texture1, sky_texture2 }),
    {
        SkyboxCustomMaterial { time_t0, sky_texture1, sky_texture2 }
    }
}

} // verus!
