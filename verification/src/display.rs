//! The 5x5 display buffer.
//!
//! The buffer holds one brightness byte per pixel, row-major, and is all the
//! display state there is: pushing it to the hardware matrix is a rendering
//! call outside this library, fed by `frame_bits`.  Neuron firings replace
//! the whole picture — the buffer is cleared first, then exactly the listed
//! pixels are lit.

use vstd::prelude::*;
use crate::hbuf::{coord_list_coords, coord_list_contents};

verus! {

/// Pixels per side of the matrix.
pub const MATRIX_SIDE: usize = 5;

/// Pixels in the whole matrix.
pub const MATRIX_PIXELS: usize = 25;

/// Whether some listed coordinate pair names the pixel at (x, y).
pub open spec fn coords_light(cs: Seq<(u8, u8)>, x: int, y: int) -> bool {
    exists|i: int| #![trigger cs[i]] 0 <= i < cs.len() && cs[i].0 as int == x && cs[i].1 as int == y
}

/// The grid showing exactly the listed coordinates at full brightness:
/// pixel (x, y) lives at index y*5 + x.
pub open spec fn rendered(cs: Seq<(u8, u8)>) -> Seq<u8> {
    Seq::new(
        MATRIX_PIXELS as nat,
        |j: int|
            if coords_light(cs, j % 5, j / 5) {
                255u8
            } else {
                0u8
            },
    )
}

/// An all-dark grid.
pub open spec fn blank_grid() -> Seq<u8> {
    Seq::new(MATRIX_PIXELS as nat, |j: int| 0u8)
}

/// The heart glyph, row-major.
pub open spec fn spec_heart_pattern() -> Seq<u8> {
    seq![0u8, 255u8, 0u8, 255u8, 0u8,
    255u8, 255u8, 255u8, 255u8, 255u8,
    255u8, 255u8, 255u8, 255u8, 255u8,
    0u8, 255u8, 255u8, 255u8, 0u8,
    0u8, 0u8, 255u8, 0u8, 0u8]
}

/// The letter F, row-major.
pub open spec fn spec_letter_f_pattern() -> Seq<u8> {
    seq![255u8, 255u8, 255u8, 255u8, 255u8,
    255u8, 0u8, 0u8, 0u8, 0u8,
    255u8, 255u8, 255u8, 255u8, 0u8,
    255u8, 0u8, 0u8, 0u8, 0u8,
    255u8, 0u8, 0u8, 0u8, 0u8]
}

/// The letter E, row-major.
pub open spec fn spec_letter_e_pattern() -> Seq<u8> {
    seq![255u8, 255u8, 255u8, 255u8, 255u8,
    255u8, 0u8, 0u8, 0u8, 0u8,
    255u8, 255u8, 255u8, 255u8, 0u8,
    255u8, 0u8, 0u8, 0u8, 0u8,
    255u8, 255u8, 255u8, 255u8, 255u8]
}

/// The letter A, row-major.
pub open spec fn spec_letter_a_pattern() -> Seq<u8> {
    seq![0u8, 255u8, 255u8, 255u8, 0u8,
    255u8, 0u8, 0u8, 0u8, 255u8,
    255u8, 255u8, 255u8, 255u8, 255u8,
    255u8, 0u8, 0u8, 0u8, 255u8,
    255u8, 0u8, 0u8, 0u8, 255u8]
}

/// The letter G, row-major.
pub open spec fn spec_letter_g_pattern() -> Seq<u8> {
    seq![0u8, 255u8, 255u8, 255u8, 0u8,
    255u8, 0u8, 0u8, 0u8, 0u8,
    255u8, 0u8, 255u8, 255u8, 255u8,
    255u8, 0u8, 0u8, 0u8, 255u8,
    0u8, 255u8, 255u8, 255u8, 0u8]
}

/// The letter I, row-major.
pub open spec fn spec_letter_i_pattern() -> Seq<u8> {
    seq![255u8, 255u8, 255u8, 255u8, 255u8,
    0u8, 0u8, 255u8, 0u8, 0u8,
    0u8, 0u8, 255u8, 0u8, 0u8,
    0u8, 0u8, 255u8, 0u8, 0u8,
    255u8, 255u8, 255u8, 255u8, 255u8]
}

/// The upward arrow, row-major.
pub open spec fn spec_arrow_up_pattern() -> Seq<u8> {
    seq![0u8, 0u8, 255u8, 0u8, 0u8,
    0u8, 255u8, 255u8, 255u8, 0u8,
    255u8, 0u8, 255u8, 0u8, 255u8,
    0u8, 0u8, 255u8, 0u8, 0u8,
    0u8, 0u8, 255u8, 0u8, 0u8]
}

/// The checkmark, row-major.
pub open spec fn spec_checkmark_pattern() -> Seq<u8> {
    seq![0u8, 0u8, 0u8, 0u8, 0u8,
    0u8, 0u8, 0u8, 0u8, 255u8,
    0u8, 0u8, 0u8, 255u8, 0u8,
    255u8, 0u8, 255u8, 0u8, 0u8,
    0u8, 255u8, 0u8, 0u8, 0u8]
}

/// The display buffer: 25 brightness bytes, row-major.
pub struct LedDisplay {
    buffer: Vec<u8>,
}

impl LedDisplay {
    /// The brightness bytes, row-major; pixel (x, y) at index y*5 + x.
    pub closed spec fn grid(&self) -> Seq<u8> {
        self.buffer@
    }

    /// The buffer always holds exactly one byte per pixel.
    pub open spec fn wf(&self) -> bool {
        self.grid().len() == MATRIX_PIXELS
    }

    /// A dark display.
    pub fn new() -> (r: Self)
        ensures
            r.wf(),
            r.grid() == blank_grid(),
    {
        let mut buffer: Vec<u8> = Vec::new();
        let mut i: usize = 0;
        while i < MATRIX_PIXELS
            invariant
                buffer@.len() == i,
                i <= MATRIX_PIXELS,
                forall|j: int| 0 <= j < i ==> buffer@[j] == 0u8,
            decreases MATRIX_PIXELS - i,
        {
            buffer.push(0u8);
            i += 1;
        }
        proof {
            assert(buffer@ =~= blank_grid());
        }
        LedDisplay { buffer }
    }

    /// Darken every pixel.
    pub fn clear(&mut self)
        requires
            old(self).wf(),
        ensures
            final(self).wf(),
            final(self).grid() == blank_grid(),
    {
        let mut i: usize = 0;
        while i < MATRIX_PIXELS
            invariant
                self.buffer@.len() == MATRIX_PIXELS,
                i <= MATRIX_PIXELS,
                forall|j: int| 0 <= j < i ==> self.buffer@[j] == 0u8,
            decreases MATRIX_PIXELS - i,
        {
            self.buffer.set(i, 0u8);
            i += 1;
        }
        proof {
            assert(self.grid() =~= blank_grid());
        }
    }

    /// Switch one pixel fully on or off; a coordinate off the matrix changes
    /// nothing.
    pub fn set_pixel(&mut self, x: usize, y: usize, on: bool)
        requires
            old(self).wf(),
        ensures
            final(self).wf(),
            x < MATRIX_SIDE && y < MATRIX_SIDE ==> final(self).grid() == old(self).grid().update(
                y * 5 + x,
                if on {
                    255u8
                } else {
                    0u8
                },
            ),
            !(x < MATRIX_SIDE && y < MATRIX_SIDE) ==> final(self).grid() == old(self).grid(),
    {
        if x < MATRIX_SIDE && y < MATRIX_SIDE {
            self.buffer.set(y * 5 + x, if on { 255 } else { 0 });
        }
    }

    /// Set one pixel's brightness; a coordinate off the matrix changes
    /// nothing.
    pub fn set_brightness(&mut self, x: usize, y: usize, brightness: u8)
        requires
            old(self).wf(),
        ensures
            final(self).wf(),
            x < MATRIX_SIDE && y < MATRIX_SIDE ==> final(self).grid() == old(self).grid().update(
                y * 5 + x,
                brightness,
            ),
            !(x < MATRIX_SIDE && y < MATRIX_SIDE) ==> final(self).grid() == old(self).grid(),
    {
        if x < MATRIX_SIDE && y < MATRIX_SIDE {
            self.buffer.set(y * 5 + x, brightness);
        }
    }

    /// Replace the whole picture with the given row-major brightness bytes.
    pub fn set_matrix(&mut self, data: &[u8; 25])
        requires
            old(self).wf(),
        ensures
            final(self).wf(),
            final(self).grid() == data@,
    {
        let mut i: usize = 0;
        while i < MATRIX_PIXELS
            invariant
                self.buffer@.len() == MATRIX_PIXELS,
                i <= MATRIX_PIXELS,
                forall|j: int| 0 <= j < i ==> self.buffer@[j] == data@[j],
            decreases MATRIX_PIXELS - i,
        {
            self.buffer.set(i, data[i]);
            i += 1;
        }
        proof {
            assert(self.grid() =~= data@);
        }
    }

    /// Replace the picture with exactly the listed firings: clear first,
    /// then light each listed pixel that lies on the matrix.
    pub fn update_from_neurons(&mut self, coordinates: &heapless::Vec<(u8, u8), 25>)
        requires
            old(self).wf(),
        ensures
            final(self).wf(),
            final(self).grid() == rendered(coord_list_coords(*coordinates)),
    {
        let pairs: Vec<(u8, u8)> = coord_list_contents(coordinates);
        self.update_from_pairs(&pairs);
    }

    /// As `update_from_neurons`, for a coordinate list of any length.
    pub fn update_from_pairs(&mut self, pairs: &Vec<(u8, u8)>)
        requires
            old(self).wf(),
        ensures
            final(self).wf(),
            final(self).grid() == rendered(pairs@),
    {
        let ghost cs = pairs@;
        self.clear();
        let mut k: usize = 0;
        while k < pairs.len()
            invariant
                pairs@ == cs,
                self.buffer@.len() == MATRIX_PIXELS,
                k <= cs.len(),
                forall|j: int|
                    0 <= j < MATRIX_PIXELS ==> self.buffer@[j] == (if coords_light(
                        cs.take(k as int),
                        j % 5,
                        j / 5,
                    ) {
                        255u8
                    } else {
                        0u8
                    }),
            decreases pairs@.len() - k,
        {
            let (x, y) = pairs[k];
            let ghost before = self.buffer@;
            if x < 5 && y < 5 {
                let idx = (y as usize) * 5 + (x as usize);
                self.buffer.set(idx, 255);
            }
            proof {
                lemma_light_step(cs, k as int, before, self.buffer@);
            }
            k += 1;
        }
        proof {
            assert(cs.take(cs.len() as int) =~= cs);
            assert(self.grid() =~= rendered(cs));
        }
    }

    /// Show the heart glyph.
    pub fn show_heart(&mut self)
        requires
            old(self).wf(),
        ensures
            final(self).wf(),
            final(self).grid() == spec_heart_pattern(),
    {
        let pattern: [u8; 25] = [0, 255, 0, 255, 0,
        255, 255, 255, 255, 255,
        255, 255, 255, 255, 255,
        0, 255, 255, 255, 0,
        0, 0, 255, 0, 0];
        self.set_matrix(&pattern);
        proof {
            assert(pattern@ =~= spec_heart_pattern());
        }
    }

    /// Show the letter F.
    pub fn show_letter_f(&mut self)
        requires
            old(self).wf(),
        ensures
            final(self).wf(),
            final(self).grid() == spec_letter_f_pattern(),
    {
        let pattern: [u8; 25] = [255, 255, 255, 255, 255,
        255, 0, 0, 0, 0,
        255, 255, 255, 255, 0,
        255, 0, 0, 0, 0,
        255, 0, 0, 0, 0];
        self.set_matrix(&pattern);
        proof {
            assert(pattern@ =~= spec_letter_f_pattern());
        }
    }

    /// Show the letter E.
    pub fn show_letter_e(&mut self)
        requires
            old(self).wf(),
        ensures
            final(self).wf(),
            final(self).grid() == spec_letter_e_pattern(),
    {
        let pattern: [u8; 25] = [255, 255, 255, 255, 255,
        255, 0, 0, 0, 0,
        255, 255, 255, 255, 0,
        255, 0, 0, 0, 0,
        255, 255, 255, 255, 255];
        self.set_matrix(&pattern);
        proof {
            assert(pattern@ =~= spec_letter_e_pattern());
        }
    }

    /// Show the letter A.
    pub fn show_letter_a(&mut self)
        requires
            old(self).wf(),
        ensures
            final(self).wf(),
            final(self).grid() == spec_letter_a_pattern(),
    {
        let pattern: [u8; 25] = [0, 255, 255, 255, 0,
        255, 0, 0, 0, 255,
        255, 255, 255, 255, 255,
        255, 0, 0, 0, 255,
        255, 0, 0, 0, 255];
        self.set_matrix(&pattern);
        proof {
            assert(pattern@ =~= spec_letter_a_pattern());
        }
    }

    /// Show the letter G.
    pub fn show_letter_g(&mut self)
        requires
            old(self).wf(),
        ensures
            final(self).wf(),
            final(self).grid() == spec_letter_g_pattern(),
    {
        let pattern: [u8; 25] = [0, 255, 255, 255, 0,
        255, 0, 0, 0, 0,
        255, 0, 255, 255, 255,
        255, 0, 0, 0, 255,
        0, 255, 255, 255, 0];
        self.set_matrix(&pattern);
        proof {
            assert(pattern@ =~= spec_letter_g_pattern());
        }
    }

    /// Show the letter I.
    pub fn show_letter_i(&mut self)
        requires
            old(self).wf(),
        ensures
            final(self).wf(),
            final(self).grid() == spec_letter_i_pattern(),
    {
        let pattern: [u8; 25] = [255, 255, 255, 255, 255,
        0, 0, 255, 0, 0,
        0, 0, 255, 0, 0,
        0, 0, 255, 0, 0,
        255, 255, 255, 255, 255];
        self.set_matrix(&pattern);
        proof {
            assert(pattern@ =~= spec_letter_i_pattern());
        }
    }

    /// Show the upward arrow.
    pub fn show_arrow_up(&mut self)
        requires
            old(self).wf(),
        ensures
            final(self).wf(),
            final(self).grid() == spec_arrow_up_pattern(),
    {
        let pattern: [u8; 25] = [0, 0, 255, 0, 0,
        0, 255, 255, 255, 0,
        255, 0, 255, 0, 255,
        0, 0, 255, 0, 0,
        0, 0, 255, 0, 0];
        self.set_matrix(&pattern);
        proof {
            assert(pattern@ =~= spec_arrow_up_pattern());
        }
    }

    /// Show the checkmark.
    pub fn show_checkmark(&mut self)
        requires
            old(self).wf(),
        ensures
            final(self).wf(),
            final(self).grid() == spec_checkmark_pattern(),
    {
        let pattern: [u8; 25] = [0, 0, 0, 0, 0,
        0, 0, 0, 0, 255,
        0, 0, 0, 255, 0,
        255, 0, 255, 0, 0,
        0, 255, 0, 0, 0];
        self.set_matrix(&pattern);
        proof {
            assert(pattern@ =~= spec_checkmark_pattern());
        }
    }

    /// The brightness bytes as a vector, row-major.
    pub fn grid_bytes(&self) -> (r: Vec<u8>)
        ensures
            r@ == self.grid(),
    {
        let mut r: Vec<u8> = Vec::new();
        let mut i: usize = 0;
        while i < self.buffer.len()
            invariant
                i <= self.buffer@.len(),
                r@ == self.buffer@.take(i as int),
            decreases self.buffer@.len() - i,
        {
            r.push(self.buffer[i]);
            i += 1;
        }
        proof {
            assert(r@ =~= self.grid());
        }
        r
    }

    /// The picture binarized for a matrix without brightness levels: a pixel
    /// shows when its brightness exceeds 127.
    pub fn frame_bits(&self) -> (r: Vec<bool>)
        requires
            self.wf(),
        ensures
            r@.len() == MATRIX_PIXELS,
            forall|j: int| 0 <= j < MATRIX_PIXELS ==> r@[j] == (self.grid()[j] > 127),
    {
        let mut r: Vec<bool> = Vec::new();
        let mut i: usize = 0;
        while i < MATRIX_PIXELS
            invariant
                self.buffer@.len() == MATRIX_PIXELS,
                r@.len() == i,
                i <= MATRIX_PIXELS,
                forall|j: int| 0 <= j < i ==> r@[j] == (self.buffer@[j] > 127),
            decreases MATRIX_PIXELS - i,
        {
            r.push(self.buffer[i] > 127);
            i += 1;
        }
        r
    }
}

/// One step of the firing loop: lighting the k-th listed pixel (or skipping
/// it when it lies off the matrix) turns the picture for the first k pairs
/// into the picture for the first k + 1.
proof fn lemma_light_step(cs: Seq<(u8, u8)>, k: int, before: Seq<u8>, after: Seq<u8>)
    requires
        0 <= k < cs.len(),
        before.len() == MATRIX_PIXELS,
        after.len() == MATRIX_PIXELS,
        forall|j: int|
            0 <= j < MATRIX_PIXELS ==> before[j] == (if coords_light(cs.take(k), j % 5, j / 5) {
                255u8
            } else {
                0u8
            }),
        cs[k].0 < 5 && cs[k].1 < 5 ==> after == before.update(
            (cs[k].1 as int) * 5 + (cs[k].0 as int),
            255u8,
        ),
        !(cs[k].0 < 5 && cs[k].1 < 5) ==> after == before,
    ensures
        forall|j: int|
            0 <= j < MATRIX_PIXELS ==> after[j] == (if coords_light(cs.take(k + 1), j % 5, j / 5) {
                255u8
            } else {
                0u8
            }),
{
    let x = cs[k].0 as int;
    let y = cs[k].1 as int;
    assert forall|j: int| 0 <= j < MATRIX_PIXELS implies after[j] == (if coords_light(
        cs.take(k + 1),
        j % 5,
        j / 5,
    ) {
        255u8
    } else {
        0u8
    }) by {
        assert(cs.take(k + 1)[k] == cs[k]);
        assert(forall|i: int| 0 <= i < k ==> cs.take(k + 1)[i] == cs.take(k)[i]);
        if coords_light(cs.take(k + 1), j % 5, j / 5) && !coords_light(cs.take(k), j % 5, j / 5) {
            // Only the new pair can explain the new light, so it must name
            // this very pixel.
            let i = choose|i: int|
                #![trigger cs.take(k + 1)[i]]
                0 <= i < cs.take(k + 1).len() && cs.take(k + 1)[i].0 as int == j % 5 && cs.take(
                    k + 1,
                )[i].1 as int == j / 5;
            assert(i == k);
            assert(j == (j / 5) * 5 + j % 5);
        }
        if coords_light(cs.take(k), j % 5, j / 5) {
            let i = choose|i: int|
                #![trigger cs.take(k)[i]]
                0 <= i < cs.take(k).len() && cs.take(k)[i].0 as int == j % 5 && cs.take(k)[i].1
                    as int == j / 5;
            assert(cs.take(k + 1)[i] == cs.take(k)[i]);
            assert(coords_light(cs.take(k + 1), j % 5, j / 5));
        }
        if x < 5 && y < 5 && j == y * 5 + x {
            assert(j % 5 == x && j / 5 == y);
            assert(coords_light(cs.take(k + 1), j % 5, j / 5));
        }
    }
}

} // verus!
