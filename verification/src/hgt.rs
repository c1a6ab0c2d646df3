//! HGT decoder: a raw SRTM tile held as big-endian 16-bit signed samples in a
//! square grid, northernmost row first.
//!
//! A buffer of 25,934,402 bytes is a 3601 x 3601 grid (1 arc-second); one of
//! 2,884,802 bytes is a 1201 x 1201 grid (3 arc-second). Any other length is
//! rejected. The sample for grid position `(row, col)`, with row 0 the
//! southernmost, sits at byte offset `((size - row - 1) * size + col) * 2`.

use crate::types::{CellKey, ElevationError};
use vstd::prelude::*;

verus! {

/// Number of bytes in a 1 arc-second tile (3601 x 3601 samples).
pub const SRTM1_LEN: usize = 25934402;

/// Number of bytes in a 3 arc-second tile (1201 x 1201 samples).
pub const SRTM3_LEN: usize = 2884802;

/// The signed 16-bit value stored big-endian as the bytes `hi`, `lo`.
pub open spec fn be_i16(hi: u8, lo: u8) -> i16 {
    (hi as u16 * 256 + lo as u16) as i16
}

/// Byte offset of the sample at `(row, col)`; the `size - row - 1` flip
/// reflects that the buffer stores the northernmost row first.
pub open spec fn sample_offset(size: int, row: int, col: int) -> int {
    ((size - row - 1) * size + col) * 2
}

/// The grid index one step above `lo`, clamped to the last row or column so
/// that a read at the tile's far edge stays inside the grid.
pub open spec fn clamp_step(lo: int, n: int) -> int {
    if lo + 1 <= n {
        lo + 1
    } else {
        n
    }
}

/// The mathematical content of a tile: its raw bytes, its south-west cell,
/// and its grid side length.
pub ghost struct HgtView {
    pub buffer: Seq<u8>,
    pub sw: CellKey,
    pub size: int,
}

impl HgtView {
    /// The grid side length divides the buffer into `size` rows of `size`
    /// two-byte samples, and is one of the two published SRTM sizes.
    pub open spec fn wf(self) -> bool {
        &&& (self.size == 1201 || self.size == 3601)
        &&& self.buffer.len() == self.size * self.size * 2
    }

    /// The largest grid row or column index.
    pub open spec fn n(self) -> int {
        self.size - 1
    }

    /// The sample stored for grid position `(row, col)`.
    pub open spec fn sample(self, row: int, col: int) -> i16 {
        let off = sample_offset(self.size, row, col);
        be_i16(self.buffer[off], self.buffer[off + 1])
    }
}

/// An immutable decoded SRTM tile: created once, read many times.
#[derive(Debug)]
pub struct HGT {
    buffer: Vec<u8>,
    sw: CellKey,
    size: usize,
}

impl View for HGT {
    type V = HgtView;

    closed spec fn view(&self) -> HgtView {
        HgtView { buffer: self.buffer@, sw: self.sw, size: self.size as int }
    }
}

impl HGT {
    /// Validates the buffer length and derives the grid size; the south-west
    /// corner cell is recorded as given. Succeeds exactly on the two
    /// published SRTM buffer lengths.
    pub fn new(buffer: Vec<u8>, sw: CellKey) -> (r: Result<HGT, ElevationError>)
        ensures
            match r {
                Ok(h) => {
                    &&& buffer@.len() == SRTM1_LEN || buffer@.len() == SRTM3_LEN
                    &&& h@.wf()
                    &&& h@.buffer == buffer@
                    &&& h@.sw == sw
                    &&& h@.size == if buffer@.len() == SRTM1_LEN {
                        3601int
                    } else {
                        1201int
                    }
                },
                Err(e) => {
                    &&& buffer@.len() != SRTM1_LEN && buffer@.len() != SRTM3_LEN
                    &&& e == ElevationError::InvalidTileFormat
                },
            },
    {
        let size: usize = if buffer.len() == SRTM1_LEN {
            3601
        } else if buffer.len() == SRTM3_LEN {
            1201
        } else {
            return Err(ElevationError::InvalidTileFormat);
        };
        Ok(HGT { buffer, sw, size })
    }

    /// The grid side length in samples.
    pub fn size(&self) -> (r: usize)
        ensures
            r == self@.size,
    {
        self.size
    }

    /// The cell of the tile's south-west corner.
    pub fn sw(&self) -> (r: CellKey)
        ensures
            r == self@.sw,
    {
        self.sw
    }

    /// Reads the sample at `(row, col)`, row 0 being the southernmost row.
    pub fn sample(&self, row: usize, col: usize) -> (r: i16)
        requires
            self@.wf(),
            row < self@.size,
            col < self@.size,
        ensures
            r == self@.sample(row as int, col as int),
    {
        proof {
            let s = self.size as int;
            let ri = row as int;
            let ci = col as int;
            assert(0 <= (s - ri - 1) * s + ci <= s * s - 1) by (nonlinear_arith)
                requires
                    0 <= ri < s,
                    0 <= ci < s,
            ;
            assert(s * s * 2 == self.buffer@.len());
            assert(1201int * 1201 * 2 == 2884802) by (nonlinear_arith);
            assert(3601int * 3601 * 2 == 25934402) by (nonlinear_arith);
        }
        let off: usize = ((self.size - row - 1) * self.size + col) * 2;
        let hi = self.buffer[off];
        let lo = self.buffer[off + 1];
        let wide: u16 = (hi as u16) * 256 + (lo as u16);
        #[verifier::truncate] (wide as i16)
    }

    /// Reads the four samples that surround the grid cell whose low corner is
    /// `(row_lo, col_lo)`: `(low-low, low-high, high-low, high-high)`.
    ///
    /// When the low corner already sits on the last row or column, the high
    /// index is clamped to that edge, so a read at the tile's corner never
    /// leaves the buffer; an interpolation there carries a zero fraction, so
    /// the clamped sample is weighted out of the result.
    pub fn corner_samples(&self, row_lo: usize, col_lo: usize) -> (r: (i16, i16, i16, i16))
        requires
            self@.wf(),
            row_lo <= self@.n(),
            col_lo <= self@.n(),
        ensures
            ({
                let rh = clamp_step(row_lo as int, self@.n());
                let ch = clamp_step(col_lo as int, self@.n());
                &&& r.0 == self@.sample(row_lo as int, col_lo as int)
                &&& r.1 == self@.sample(row_lo as int, ch)
                &&& r.2 == self@.sample(rh, col_lo as int)
                &&& r.3 == self@.sample(rh, ch)
            }),
    {
        let n = self.size() - 1;
        let row_hi = if row_lo < n {
            row_lo + 1
        } else {
            n
        };
        let col_hi = if col_lo < n {
            col_lo + 1
        } else {
            n
        };
        let low_low = self.sample(row_lo, col_lo);
        let low_high = self.sample(row_lo, col_hi);
        let high_low = self.sample(row_hi, col_lo);
        let high_high = self.sample(row_hi, col_hi);
        (low_low, low_high, high_low, high_high)
    }
}

} // verus!
