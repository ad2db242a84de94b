//! Image-backed texture storage and texel addressing.
//!
//! An [`ImageTexture`] wraps an already decoded RGB24 image: a row-major
//! byte buffer of three bytes per pixel.  Decoding an image file into such
//! a buffer is a collaborator's job; this module checks that the buffer
//! matches its claimed dimensions and does the nearest-pixel byte lookup,
//! clamping out-of-range pixel coordinates to the image border.

use vstd::prelude::*;

verus! {

/// Why a byte buffer was rejected as an image texture.
#[derive(Debug, Clone, Copy, PartialEq, Eq, Structural)]
pub enum ImageTextureError {
    /// The image width or height was zero.
    ZeroDimension,
    /// The buffer does not hold exactly three bytes per pixel.
    SizeMismatch,
}

/// A decoded RGB24 image: `width * height` pixels, three bytes each,
/// row-major from the top row.
pub struct ImageTexture {
    pub data: Vec<u8>,
    pub width: u32,
    pub height: u32,
}

impl ImageTexture {
    /// The buffer holds exactly the pixels the dimensions claim.
    pub open spec fn well_formed(self) -> bool {
        &&& self.width > 0
        &&& self.height > 0
        &&& self.data@.len() == self.width * self.height * 3
    }

    /// Byte offset of the first channel of the pixel nearest to `(i, j)`:
    /// coordinates at or beyond the border are clamped to the border.
    pub open spec fn texel_index(self, i: u32, j: u32) -> int {
        (min_u32(j, (self.height - 1) as u32) * self.width + min_u32(
            i,
            (self.width - 1) as u32,
        )) * 3
    }

    /// Wraps a decoded RGB24 byte buffer, rejecting one whose length does
    /// not match the claimed dimensions.
    pub fn new(data: Vec<u8>, width: u32, height: u32) -> (r: Result<
        ImageTexture,
        ImageTextureError,
    >)
        ensures
            r matches Err(ImageTextureError::ZeroDimension) <==> (width == 0 || height == 0),
            r matches Err(ImageTextureError::SizeMismatch) <==> (width > 0 && height > 0 && data@.len()
                != width * height * 3),
            r matches Ok(t) ==> {
                &&& t.well_formed()
                &&& t.data@ == data@
                &&& t.width == width
                &&& t.height == height
            },
            r is Ok <==> (width > 0 && height > 0 && data@.len() == width * height * 3),
    {
        if width == 0 || height == 0 {
            return Err(ImageTextureError::ZeroDimension);
        }
        proof {
            assert(width as int * height as int * 3 <= u128::MAX) by (nonlinear_arith)
                requires
                    width <= u32::MAX,
                    height <= u32::MAX,
            ;
        }
        let expected: u128 = (width as u128) * (height as u128) * 3;
        if (data.len() as u128) != expected {
            return Err(ImageTextureError::SizeMismatch);
        }
        Ok(ImageTexture { data, width, height })
    }

    /// The red, green and blue bytes of the pixel nearest to column `i` of
    /// row `j`.
    pub fn texel(&self, i: u32, j: u32) -> (r: (u8, u8, u8))
        requires
            self.well_formed(),
        ensures
            r.0 == self.data@[self.texel_index(i, j)],
            r.1 == self.data@[self.texel_index(i, j) + 1],
            r.2 == self.data@[self.texel_index(i, j) + 2],
    {
        let ci: u32 = if i >= self.width {
            self.width - 1
        } else {
            i
        };
        let cj: u32 = if j >= self.height {
            self.height - 1
        } else {
            j
        };
        let data_len: usize = self.data.len();
        proof {
            lemma_texel_in_data(
                ci as int,
                cj as int,
                self.width as int,
                self.height as int,
            );
            assert(self.width * self.height * 3 == data_len);
        }
        let offset: usize = ((cj as usize) * (self.width as usize) + (ci as usize)) * 3;
        (self.data[offset], self.data[offset + 1], self.data[offset + 2])
    }
}

/// The smaller of two pixel coordinates.
pub open spec fn min_u32(a: u32, b: u32) -> u32 {
    if a <= b {
        a
    } else {
        b
    }
}

/// A clamped pixel coordinate addresses three bytes inside the buffer.
proof fn lemma_texel_in_data(ci: int, cj: int, width: int, height: int) by (nonlinear_arith)
    requires
        0 <= ci < width,
        0 <= cj < height,
    ensures
        0 <= (cj * width + ci) * 3,
        (cj * width + ci) * 3 + 3 <= width * height * 3,
{
}

} // verus!
