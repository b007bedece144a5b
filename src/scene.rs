//! The scenes that can be rendered.

use vstd::prelude::*;

verus! {

/// Which built-in scene a render request asks for.
#[derive(Clone, Copy, Debug, PartialEq, Eq, Hash, Structural)]
pub enum RenderScene {
    ThreeBody,
    ManyBalls,
    CheckersColliding,
    PerlinNoise,
    EarthGlobe,
    LightDemo,
    CornelBox,
}

impl Default for RenderScene {
    fn default() -> (r: Self)
        ensures
            r == RenderScene::ThreeBody,
    {
        RenderScene::ThreeBody
    }
}

} // verus!
