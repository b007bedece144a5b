//! Lookup of texels in a decoded bitmap.

use vstd::prelude::*;

use crate::pixel::Rgb8;

verus! {

/// A decoded bitmap used as a texture, stored row by row from the top.
#[derive(Debug)]
pub struct ImageTexture {
    data: Vec<Rgb8>,
    width: usize,
    height: usize,
}

/// The nearest valid coordinate to `i` in `0..size`.
pub open spec fn clamp_index(i: nat, size: nat) -> nat {
    if i >= size {
        (size - 1) as nat
    } else {
        i
    }
}

impl ImageTexture {
    #[verifier::type_invariant]
    spec fn data_matches_size(self) -> bool {
        &&& self.width > 0
        &&& self.height > 0
        &&& self.data@.len() == self.width * self.height
    }

    pub closed spec fn spec_width(self) -> nat {
        self.width as nat
    }

    pub closed spec fn spec_height(self) -> nat {
        self.height as nat
    }

    pub closed spec fn spec_data(self) -> Seq<Rgb8> {
        self.data@
    }

    /// A texture of a `width` by `height` bitmap; `None` unless both sides are
    /// positive and `data` holds exactly one pixel per position.
    pub fn new(data: Vec<Rgb8>, width: usize, height: usize) -> (r: Option<ImageTexture>)
        ensures
            r is Some <==> (width > 0 && height > 0 && data@.len() == width * height),
            r matches Some(t) ==> t.spec_width() == width && t.spec_height() == height
                && t.spec_data() == data@,
    {
        if width == 0 || height == 0 {
            return None;
        }
        if data.len() / width != height || data.len() % width != 0 {
            proof {
                if data@.len() == width * height {
                    vstd::arithmetic::div_mod::lemma_div_multiples_vanish(height as int, width as int);
                    vstd::arithmetic::div_mod::lemma_mod_multiples_basic(height as int, width as int);
                    assert(width * height == height * width) by (nonlinear_arith);
                }
            }
            return None;
        }
        proof {
            vstd::arithmetic::div_mod::lemma_fundamental_div_mod(data@.len() as int, width as int);
            assert(width * height == height * width) by (nonlinear_arith);
        }
        Some(ImageTexture { data, width, height })
    }

    pub fn width(&self) -> (r: usize)
        ensures
            r == self.spec_width(),
            self.spec_width() > 0,
            self.spec_height() > 0,
            self.spec_data().len() == self.spec_width() * self.spec_height(),
    {
        proof {
            use_type_invariant(self);
        }
        self.width
    }

    pub fn height(&self) -> (r: usize)
        ensures
            r == self.spec_height(),
            self.spec_width() > 0,
            self.spec_height() > 0,
            self.spec_data().len() == self.spec_width() * self.spec_height(),
    {
        proof {
            use_type_invariant(self);
        }
        self.height
    }

    /// The texel in column `i` and row `j` (from the top), each clamped to the
    /// bitmap.
    pub fn texel(&self, i: usize, j: usize) -> (r: Rgb8)
        ensures
            self.spec_width() > 0,
            self.spec_height() > 0,
            self.spec_data().len() == self.spec_width() * self.spec_height(),
            clamp_index(j as nat, self.spec_height()) * self.spec_width() + clamp_index(
                i as nat,
                self.spec_width(),
            ) < self.spec_data().len(),
            r == self.spec_data()[(clamp_index(j as nat, self.spec_height()) * self.spec_width()
                + clamp_index(i as nat, self.spec_width())) as int],
    {
        proof {
            use_type_invariant(self);
        }
        let i = if i >= self.width {
            self.width - 1
        } else {
            i
        };
        let j = if j >= self.height {
            self.height - 1
        } else {
            j
        };
        let total = self.data.len();
        proof {
            assert(j * self.width + i < self.height * self.width) by (nonlinear_arith)
                requires
                    j < self.height,
                    i < self.width,
            ;
            assert(self.height * self.width == self.width * self.height) by (nonlinear_arith);
            assert(j * self.width + i < total);
        }
        self.data[j * self.width + i]
    }
}

} // verus!
