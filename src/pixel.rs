//! Output pixels.

use vstd::prelude::*;

verus! {

/// An 8-bit RGB pixel of the rendered image.
#[derive(Clone, Copy, Debug, PartialEq, Eq, Structural)]
pub struct Rgb8 {
    pub r: u8,
    pub g: u8,
    pub b: u8,
}

impl Rgb8 {
    pub open spec fn black() -> Rgb8 {
        Rgb8 { r: 0, g: 0, b: 0 }
    }
}

} // verus!
