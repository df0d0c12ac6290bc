//! Anti-aliasing.
//!
//! Two kinds, chosen with [`AntiAliasing`]: temporal (the view shifts by a fraction of a pixel
//! every frame and the frames are blended), which needs the wgpu backend and is the default, and
//! the engine's FXAA, one pass over the finished frame.

use vstd::prelude::*;

verus! {

/// Which anti-aliasing the renderer should use.
#[derive(Debug, Clone, Copy, PartialEq, Eq, Structural)]
pub struct AntiAliasing {
    /// Blend across edges found in the finished frame (FXAA).
    pub fxaa: bool,
    /// Blend each frame with the ones before it, each drawn with the view shifted by a different
    /// fraction of a pixel.
    pub temporal: bool,
}

impl Default for AntiAliasing {
    /// Temporal anti-aliasing, with FXAA off: FXAA on top would only blur the blended frames.
    fn default() -> (aa: Self)
        ensures
            aa == (AntiAliasing { fxaa: false, temporal: true }),
    {
        AntiAliasing { fxaa: false, temporal: true }
    }
}

impl AntiAliasing {
    /// No anti-aliasing at all.
    pub fn off() -> (aa: Self)
        ensures
            aa == (AntiAliasing { fxaa: false, temporal: false }),
    {
        AntiAliasing { fxaa: false, temporal: false }
    }

    /// The engine's FXAA alone.
    pub fn fxaa() -> (aa: Self)
        ensures
            aa == (AntiAliasing { fxaa: true, temporal: false }),
    {
        AntiAliasing { fxaa: true, temporal: false }
    }

    /// What the renderer can do of this setting: temporal anti-aliasing has a wgpu shader only,
    /// so on an engine built with OpenGL the engine's FXAA stands in for it.
    pub fn on_engine(self, engine_uses_wgsl: bool) -> (aa: Self)
        ensures
            aa == (if self.temporal && !engine_uses_wgsl {
                AntiAliasing { fxaa: true, temporal: false }
            } else {
                self
            }),
    {
        if self.temporal && !engine_uses_wgsl {
            Self::fxaa()
        } else {
            self
        }
    }
}

} // verus!
