//! Reassembly of a rendered image from rows that arrive in any order.

use vstd::prelude::*;

use crate::pixel::Rgb8;
use crate::render::RenderResult;

verus! {

/// What an image under assembly holds.
pub struct ImageView {
    pub width: nat,
    pub height: nat,
    pub lines_received: nat,
    /// Pixels row by row, the top row first.
    pub pixels: Seq<Rgb8>,
}

/// Row `line_num` counts from the bottom of the image; the buffer stores rows
/// from the top. This is where that row starts in the buffer.
pub open spec fn row_offset(width: nat, height: nat, line_num: nat) -> nat {
    ((height - line_num - 1) * width) as nat
}

/// `pixels` with `line` written over the row of `line_num`.
pub open spec fn with_line(
    pixels: Seq<Rgb8>,
    width: nat,
    height: nat,
    line_num: nat,
    line: Seq<Rgb8>,
) -> Seq<Rgb8> {
    let start = row_offset(width, height, line_num) as int;
    Seq::new(
        pixels.len(),
        |i: int|
            if start <= i < start + width {
                line[i - start]
            } else {
                pixels[i]
            },
    )
}

/// An image buffer that rows of a render are stored into.
#[derive(Debug)]
pub struct RenderImage {
    width: usize,
    height: usize,
    lines_received: usize,
    pixels: Vec<Rgb8>,
}

impl View for RenderImage {
    type V = ImageView;

    closed spec fn view(&self) -> ImageView {
        ImageView {
            width: self.width as nat,
            height: self.height as nat,
            lines_received: self.lines_received as nat,
            pixels: self.pixels@,
        }
    }
}

impl RenderImage {
    #[verifier::type_invariant]
    spec fn buffer_matches_size(self) -> bool {
        &&& self.pixels@.len() == self.width * self.height
        &&& self.lines_received <= self.height
    }

    /// A black image of the given size, with no rows received.
    pub fn new(width: usize, height: usize) -> (r: RenderImage)
        requires
            width * height <= usize::MAX,
        ensures
            r@.width == width,
            r@.height == height,
            r@.lines_received == 0,
            r@.pixels == Seq::new((width * height) as nat, |i: int| Rgb8::black()),
    {
        let count = width * height;
        let mut pixels: Vec<Rgb8> = Vec::new();
        let mut i: usize = 0;
        while i < count
            invariant
                i <= count,
                pixels@ == Seq::new(i as nat, |k: int| Rgb8::black()),
            decreases count - i,
        {
            pixels.push(Rgb8 { r: 0, g: 0, b: 0 });
            assert(pixels@ =~= Seq::new((i + 1) as nat, |k: int| Rgb8::black()));
            i = i + 1;
        }
        RenderImage { width, height, lines_received: 0, pixels }
    }

    pub fn width(&self) -> (r: usize)
        ensures
            r == self@.width,
    {
        self.width
    }

    pub fn height(&self) -> (r: usize)
        ensures
            r == self@.height,
    {
        self.height
    }

    pub fn lines_received(&self) -> (r: usize)
        ensures
            r == self@.lines_received,
    {
        self.lines_received
    }

    /// The pixels, row by row from the top.
    pub fn pixels(&self) -> (r: &Vec<Rgb8>)
        ensures
            r@ == self@.pixels,
            r@.len() == self@.width * self@.height,
            self@.lines_received <= self@.height,
    {
        proof {
            use_type_invariant(self);
        }
        &self.pixels
    }

    /// Stores the row `line_num` (counted from the bottom) and counts it as
    /// received.
    pub fn store_pixel_line(&mut self, line_num: usize, line_pixels: Vec<Rgb8>)
        requires
            line_pixels@.len() == old(self)@.width,
            old(self)@.lines_received < old(self)@.height,
            line_num < old(self)@.height,
        ensures
            final(self)@.width == old(self)@.width,
            final(self)@.height == old(self)@.height,
            final(self)@.lines_received == old(self)@.lines_received + 1,
            final(self)@.pixels == with_line(
                old(self)@.pixels,
                old(self)@.width,
                old(self)@.height,
                line_num as nat,
                line_pixels@,
            ),
    {
        proof {
            use_type_invariant(&*self);
        }
        let mut taken = RenderImage { width: 0, height: 0, lines_received: 0, pixels: Vec::new() };
        core::mem::swap(self, &mut taken);
        proof {
            use_type_invariant(&taken);
        }
        let RenderImage { width, height, lines_received, mut pixels } = taken;
        let ghost before = pixels@;
        let row = height - line_num - 1;
        let total = pixels.len();
        proof {
            assert(row * width + width <= height * width) by (nonlinear_arith)
                requires
                    row < height,
            ;
            assert(height * width == width * height) by (nonlinear_arith);
            assert(row * width <= row * width + width);
        }
        let start = row * width;
        let mut i: usize = 0;
        while i < width
            invariant
                i <= width,
                width == line_pixels@.len(),
                start + width <= before.len(),
                before.len() == total,
                pixels@.len() == before.len(),
                forall|k: int|
                    0 <= k < before.len() ==> #[trigger] pixels@[k] == if start <= k < start + i {
                        line_pixels@[k - start]
                    } else {
                        before[k]
                    },
            decreases width - i,
        {
            pixels.set(start + i, line_pixels[i]);
            i = i + 1;
        }
        assert(pixels@ =~= with_line(
            before,
            width as nat,
            height as nat,
            line_num as nat,
            line_pixels@,
        ));
        *self = RenderImage { width, height, lines_received: lines_received + 1, pixels };
    }

    /// Every row of the image has been received.
    pub fn complete(&self) -> (r: bool)
        ensures
            r == (self@.lines_received == self@.height),
    {
        self.lines_received == self.height
    }
}

/// Why a render result could not be taken into the image.
#[derive(Clone, Copy, Debug, PartialEq, Eq)]
pub enum ReceiveError {
    /// A reset announced an image without pixels.
    EmptyImage,
    /// A reset announced an image with more pixels than can be addressed.
    TooLarge,
    /// A line came before any reset.
    NoImage,
    /// A line's pixel count is not the image width.
    WrongWidth,
    /// A line came after every row had been received.
    AlreadyComplete,
    /// A line's row is outside the image.
    NoSuchRow,
}

/// Takes one result of a render into the image under assembly: a reset
/// replaces it by a black image of the announced size, a line is stored in
/// its row. On an error the image is left as it was.
pub fn receive(image: &mut Option<RenderImage>, result: RenderResult) -> (r: Result<
    (),
    ReceiveError,
>)
    ensures
        r is Err ==> *final(image) == *old(image),
        match result {
            RenderResult::Reset { image_width: w, image_height: h, .. } => {
                &&& (w == 0 || h == 0) <==> r == Err::<(), ReceiveError>(ReceiveError::EmptyImage)
                &&& (w > 0 && h > 0 && w * h > usize::MAX) <==> r == Err::<(), ReceiveError>(
                    ReceiveError::TooLarge,
                )
                &&& r is Ok <==> (w > 0 && h > 0 && w * h <= usize::MAX)
                &&& r is Ok ==> (*final(image) matches Some(i) && i@.width == w && i@.height == h
                    && i@.lines_received == 0 && i@.pixels == Seq::new(
                    (w * h) as nat,
                    |k: int| Rgb8::black(),
                ))
            },
            RenderResult::ImageLine { line_num, line_pixels, .. } => match *old(image) {
                None => r == Err::<(), ReceiveError>(ReceiveError::NoImage),
                Some(i) => {
                    &&& r == Err::<(), ReceiveError>(ReceiveError::WrongWidth) <==> line_pixels@.len()
                        != i@.width
                    &&& r == Err::<(), ReceiveError>(ReceiveError::AlreadyComplete) <==> (
                    line_pixels@.len() == i@.width && i@.lines_received >= i@.height)
                    &&& r == Err::<(), ReceiveError>(ReceiveError::NoSuchRow) <==> (
                    line_pixels@.len() == i@.width && i@.lines_received < i@.height && line_num
                        >= i@.height)
                    &&& r is Ok <==> (line_pixels@.len() == i@.width && i@.lines_received < i@.height
                        && line_num < i@.height)
                    &&& r is Ok ==> (*final(image) matches Some(j) && j@.width == i@.width
                        && j@.height == i@.height && j@.lines_received == i@.lines_received + 1
                        && j@.pixels == with_line(
                        i@.pixels,
                        i@.width,
                        i@.height,
                        line_num as nat,
                        line_pixels@,
                    ))
                },
            },
        },
{
    match result {
        RenderResult::Reset { image_width, image_height, .. } => {
            if image_width == 0 || image_height == 0 {
                return Err(ReceiveError::EmptyImage);
            }
            match image_width.checked_mul(image_height) {
                None => Err(ReceiveError::TooLarge),
                Some(_) => {
                    *image = Some(RenderImage::new(image_width, image_height));
                    Ok(())
                },
            }
        },
        RenderResult::ImageLine { line_num, line_pixels, .. } => {
            match image {
                None => Err(ReceiveError::NoImage),
                Some(current) => {
                    if line_pixels.len() != current.width() {
                        Err(ReceiveError::WrongWidth)
                    } else if current.lines_received() >= current.height() {
                        Err(ReceiveError::AlreadyComplete)
                    } else if line_num >= current.height() {
                        Err(ReceiveError::NoSuchRow)
                    } else {
                        current.store_pixel_line(line_num, line_pixels);
                        Ok(())
                    }
                },
            }
        },
    }
}

} // verus!
