//! The renderer's pixel buffer and tiling arithmetic.
//!
//! A [`Renderer`] owns the row-major RGB24 output buffer of a render.  The
//! radiance arriving at a pixel is computed elsewhere and tone-mapped to
//! bytes; this module accounts for where those bytes live: buffer
//! allocation, the offset of each pixel (rows flipped for presentation),
//! and the split of the image into horizontal tiles that workers render
//! independently.  Distinct pixels own disjoint byte triples and distinct
//! workers own disjoint row ranges, which is what makes the tile-parallel
//! render race-free.

use vstd::prelude::*;

verus! {

/// Why a renderer could not be constructed.
#[derive(Debug, Clone, Copy, PartialEq, Eq, Structural)]
pub enum RendererError {
    /// The image width was zero.
    ZeroWidth,
    /// The image height was zero.
    ZeroHeight,
    /// The number of samples per pixel was zero.
    ZeroSamples,
    /// The RGB24 buffer for these dimensions would not fit in memory.
    BufferTooLarge,
}

/// Output buffer and sampling parameters of one render.
pub struct Renderer {
    pub screen_width: u32,
    pub screen_height: u32,
    pub samples_per_pixel: u32,
    pub max_depth: u32,
    pub pitch: u32,
    pub buffer: Vec<u8>,
}

/// The construction parameters a renderer accepts: positive dimensions and
/// sample count, and an RGB24 buffer that fits the address space.
pub open spec fn valid_render_params(
    screen_width: u32,
    screen_height: u32,
    samples_per_pixel: u32,
) -> bool {
    &&& screen_width > 0
    &&& screen_height > 0
    &&& samples_per_pixel > 0
    &&& 3 * screen_width <= u32::MAX
    &&& screen_height * (3 * screen_width) <= usize::MAX
}

impl Renderer {
    /// The buffer has exactly one byte triple per pixel and the cached row
    /// pitch matches the width.
    pub open spec fn well_formed(self) -> bool {
        &&& self.screen_width > 0
        &&& self.screen_height > 0
        &&& self.samples_per_pixel > 0
        &&& self.pitch == 3 * self.screen_width
        &&& self.buffer@.len() == self.screen_height * self.pitch
    }

    /// Byte offset of pixel `(x, y)` in the buffer.  Rows are stored bottom
    /// row first, so the row index is flipped.
    pub open spec fn pixel_offset(self, x: u32, y: u32) -> int {
        (self.screen_height - 1 - y) * self.pitch + 3 * x
    }

    /// A zeroed output buffer for the given image parameters, or the first
    /// reason why they are malformed.
    pub fn new(
        screen_width: u32,
        screen_height: u32,
        samples_per_pixel: u32,
        max_depth: u32,
    ) -> (r: Result<Renderer, RendererError>)
        ensures
            r matches Err(RendererError::ZeroWidth) <==> screen_width == 0,
            r matches Err(RendererError::ZeroHeight) <==> (screen_width > 0 && screen_height
                == 0),
            r matches Err(RendererError::ZeroSamples) <==> (screen_width > 0 && screen_height > 0
                && samples_per_pixel == 0),
            r matches Err(RendererError::BufferTooLarge) <==> (screen_width > 0 && screen_height
                > 0 && samples_per_pixel > 0 && !valid_render_params(
                screen_width,
                screen_height,
                samples_per_pixel,
            )),
            r is Ok <==> valid_render_params(screen_width, screen_height, samples_per_pixel),
            r matches Ok(renderer) ==> {
                &&& renderer.well_formed()
                &&& renderer.screen_width == screen_width
                &&& renderer.screen_height == screen_height
                &&& renderer.samples_per_pixel == samples_per_pixel
                &&& renderer.max_depth == max_depth
                &&& renderer.buffer@ == Seq::new(
                    (screen_height * (3 * screen_width)) as nat,
                    |i: int| 0u8,
                )
            },
    {
        if screen_width == 0 {
            return Err(RendererError::ZeroWidth);
        }
        if screen_height == 0 {
            return Err(RendererError::ZeroHeight);
        }
        if samples_per_pixel == 0 {
            return Err(RendererError::ZeroSamples);
        }
        if screen_width > u32::MAX / 3 {
            return Err(RendererError::BufferTooLarge);
        }
        let pitch: u32 = 3 * screen_width;
        proof {
            assert(screen_height as int * pitch as int <= u64::MAX) by (nonlinear_arith)
                requires
                    screen_height <= u32::MAX,
                    pitch <= u32::MAX,
            ;
        }
        let total_wide: u64 = (screen_height as u64) * (pitch as u64);
        if total_wide > usize::MAX as u64 {
            return Err(RendererError::BufferTooLarge);
        }
        let total: usize = total_wide as usize;
        let buffer: Vec<u8> = vec![0u8; total];
        Ok(
            Renderer {
                screen_width,
                screen_height,
                samples_per_pixel,
                max_depth,
                pitch,
                buffer,
            },
        )
    }

    /// Stores one tone-mapped pixel: exactly the three bytes of `(x, y)`
    /// change, to the given red, green and blue values.
    pub fn write_pixel(&mut self, x: u32, y: u32, red: u8, green: u8, blue: u8)
        requires
            old(self).well_formed(),
            x < old(self).screen_width,
            y < old(self).screen_height,
        ensures
            final(self).well_formed(),
            final(self).screen_width == old(self).screen_width,
            final(self).screen_height == old(self).screen_height,
            final(self).samples_per_pixel == old(self).samples_per_pixel,
            final(self).max_depth == old(self).max_depth,
            final(self).pitch == old(self).pitch,
            final(self).buffer@ == old(self).buffer@.update(
                old(self).pixel_offset(x, y),
                red,
            ).update(old(self).pixel_offset(x, y) + 1, green).update(
                old(self).pixel_offset(x, y) + 2,
                blue,
            ),
    {
        let buffer_len: usize = self.buffer.len();
        proof {
            lemma_pixel_offset_in_buffer(
                x as int,
                y as int,
                self.screen_width as int,
                self.screen_height as int,
                self.pitch as int,
            );
            assert(self.screen_height * self.pitch == buffer_len);
        }
        let row: u32 = self.screen_height - 1 - y;
        let offset: usize = (row as usize) * (self.pitch as usize) + 3 * (x as usize);
        self.buffer[offset] = red;
        self.buffer[offset + 1] = green;
        self.buffer[offset + 2] = blue;
    }

    /// Height in pixel rows of each of `workers` horizontal tiles.
    pub open spec fn tile_height_spec(self, workers: u32) -> int {
        self.screen_height as int / workers as int
    }

    /// Bottom row of the tile that the given worker renders.  Tiles are
    /// handed out top-down: worker 0 takes the topmost tile.
    pub open spec fn tile_bottom_spec(self, worker: u32, workers: u32) -> int {
        (workers - 1 - worker) * self.tile_height_spec(workers)
    }

    /// The row range `[bottom, top)` of one worker's tile.
    pub fn tile_rows(&self, worker: u32, workers: u32) -> (r: (u32, u32))
        requires
            self.well_formed(),
            workers > 0,
            worker < workers,
        ensures
            r.0 == self.tile_bottom_spec(worker, workers),
            r.1 == r.0 + self.tile_height_spec(workers),
            r.1 <= self.screen_height,
    {
        let tile_height: u32 = self.screen_height / workers;
        proof {
            lemma_tile_in_image(
                worker as int,
                workers as int,
                tile_height as int,
                self.screen_height as int,
            );
        }
        let bottom: u32 = (workers - 1 - worker) * tile_height;
        (bottom, bottom + tile_height)
    }

    /// Two different workers render disjoint row ranges: the whole tile of
    /// the later-numbered worker lies below the earlier-numbered worker's.
    pub proof fn lemma_tiles_disjoint(self, a: u32, b: u32, workers: u32)
        requires
            workers > 0,
            a < b < workers,
        ensures
            self.tile_bottom_spec(b, workers) + self.tile_height_spec(workers)
                <= self.tile_bottom_spec(a, workers),
    {
        lemma_row_separation(
            (workers - 1 - b) as int,
            (workers - 1 - a) as int,
            self.tile_height_spec(workers),
        );
    }

    /// Every row below `workers * tile_height` lies in some worker's tile:
    /// together with their disjointness, the equal-height tiles partition
    /// that part of the image (the few rows above it are the remainder of
    /// the division and are handed out separately).
    pub proof fn lemma_tiles_cover(self, row: int, workers: u32)
        requires
            workers > 0,
            0 <= row < workers * self.tile_height_spec(workers),
        ensures
            exists|worker: u32|
                worker < workers && #[trigger] self.tile_bottom_spec(worker, workers) <= row
                    < self.tile_bottom_spec(worker, workers) + self.tile_height_spec(workers),
    {
        let th = self.tile_height_spec(workers);
        vstd::arithmetic::div_mod::lemma_fundamental_div_mod(row, th);
        vstd::arithmetic::div_mod::lemma_mod_bound(row, th);
        let q = row / th;
        assert(q * th <= row < q * th + th);
        assert(q < workers) by (nonlinear_arith)
            requires
                q * th <= row,
                row < workers * th,
                0 <= q,
                0 < th,
        ;
        let worker = (workers - 1 - q) as u32;
        assert(self.tile_bottom_spec(worker, workers) == q * th);
    }

    /// Two distinct pixels own disjoint byte triples in the buffer: writes
    /// to different pixels can never touch the same byte.
    pub proof fn lemma_pixel_regions_disjoint(self, x1: u32, y1: u32, x2: u32, y2: u32)
        requires
            self.well_formed(),
            x1 < self.screen_width,
            y1 < self.screen_height,
            x2 < self.screen_width,
            y2 < self.screen_height,
            x1 != x2 || y1 != y2,
        ensures
            self.pixel_offset(x1, y1) + 3 <= self.pixel_offset(x2, y2) || self.pixel_offset(
                x2,
                y2,
            ) + 3 <= self.pixel_offset(x1, y1),
    {
        let p = self.pitch as int;
        if y1 == y2 {
        } else if y1 < y2 {
            lemma_row_separation((self.screen_height - 1 - y2) as int, (self.screen_height - 1
                - y1) as int, p);
        } else {
            lemma_row_separation((self.screen_height - 1 - y1) as int, (self.screen_height - 1
                - y2) as int, p);
        }
    }
}

/// A pixel inside the image addresses three bytes inside the buffer.
proof fn lemma_pixel_offset_in_buffer(x: int, y: int, width: int, height: int, pitch: int) by (nonlinear_arith)
    requires
        0 <= x < width,
        0 <= y < height,
        pitch == 3 * width,
    ensures
        0 <= (height - 1 - y) * pitch + 3 * x,
        (height - 1 - y) * pitch + 3 * x + 3 <= height * pitch,
{
}

/// A full tile of `tile_height` rows starting at row `(workers-1-worker) *
/// tile_height` stays inside the image.
proof fn lemma_tile_in_image(worker: int, workers: int, tile_height: int, height: int) by (nonlinear_arith)
    requires
        0 <= worker < workers,
        0 <= height,
        tile_height == height / workers,
    ensures
        0 <= (workers - 1 - worker) * tile_height,
        (workers - 1 - worker) * tile_height + tile_height <= height,
{
}

/// Rows `a` and `b` of blocks of `size` rows are separated by at least one
/// whole block when `a < b`.
proof fn lemma_row_separation(a: int, b: int, size: int) by (nonlinear_arith)
    requires
        a < b,
        0 <= size,
    ensures
        a * size + size <= b * size,
{
}

} // verus!
