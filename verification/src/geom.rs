//! Unit and geometry conversion: millimetre-space values from the document
//! are mapped into pixel space by a fixed device scale.
//!
//! To keep every conversion exact, lengths are carried as integers:
//! millimetre-space coordinates in micrometres (thousandths of a millimetre),
//! pixel-space coordinates in millionths of a pixel, and affine matrix
//! coefficients in thousandths. Backends divide the scales back out when they
//! execute a drawing operation.

use vstd::prelude::*;

verus! {

/// Device scale: thousandths of a pixel per millimetre (about a 96 dpi
/// display, 3.780 px/mm).
pub const PX_PER_MM_MILLI: i64 = 3780;

/// Largest magnitude, in micrometres, that a document coordinate may have.
/// Chosen so that every pixel conversion and every corner sum stays well
/// inside `i64`.
pub const MM_COORD_LIMIT: i64 = 0x1000_0000_0000;

/// Fixed-point unit of the affine matrix coefficients: a coefficient value
/// of `MATRIX_UNIT` stands for 1.0.
pub const MATRIX_UNIT: i64 = 1000;

/// True when a micrometre coordinate is within the range the engine accepts.
pub open spec fn mm_in_range(v: i64) -> bool {
    -MM_COORD_LIMIT <= v <= MM_COORD_LIMIT
}

/// The millimetre-to-pixel conversion as a mathematical function: a pure
/// magnification by the fixed device scale.
pub open spec fn spec_mm_to_px(v: int) -> int {
    v * PX_PER_MM_MILLI
}

/// Converts a millimetre length (in micrometres) to a pixel length (in
/// millionths of a pixel) by the fixed device scale.
pub fn mm_to_px(v: i64) -> (r: i64)
    requires
        mm_in_range(v),
    ensures
        r == spec_mm_to_px(v as int),
{
    v * PX_PER_MM_MILLI
}

/// The millimetre-to-pixel scale never maps a non-negative length below
/// zero.
pub proof fn lemma_mm_to_px_non_negative(v: int)
    requires
        v >= 0,
    ensures
        spec_mm_to_px(v) >= 0,
{
}

/// The millimetre-to-pixel scale is strictly increasing: distinct
/// millimetre values stay distinct in pixel space, in the same order.
pub proof fn lemma_mm_to_px_strictly_increasing(v: int, w: int)
    requires
        v < w,
    ensures
        spec_mm_to_px(v) < spec_mm_to_px(w),
{
    broadcast use vstd::arithmetic::mul::lemma_mul_strict_inequality;

}

/// An axis-aligned rectangle in document space, fields in micrometres.
#[derive(Clone, Copy, Debug, PartialEq, Eq, Structural)]
pub struct BoxMm {
    pub x: i64,
    pub y: i64,
    pub width: i64,
    pub height: i64,
}

/// An axis-aligned rectangle in device space, fields in millionths of a
/// pixel. A separate type from `BoxMm` so that a box can never be converted
/// twice.
#[derive(Clone, Copy, Debug, PartialEq, Eq, Structural)]
pub struct BoxPx {
    pub x: i64,
    pub y: i64,
    pub width: i64,
    pub height: i64,
}

impl BoxMm {
    /// All four fields are within the accepted coordinate range.
    pub open spec fn wf(self) -> bool {
        mm_in_range(self.x) && mm_in_range(self.y) && mm_in_range(self.width) && mm_in_range(
            self.height,
        )
    }

    /// The pixel image of this box: all four fields scaled independently.
    pub open spec fn spec_to_pixel(self) -> BoxPx {
        BoxPx {
            x: spec_mm_to_px(self.x as int) as i64,
            y: spec_mm_to_px(self.y as int) as i64,
            width: spec_mm_to_px(self.width as int) as i64,
            height: spec_mm_to_px(self.height as int) as i64,
        }
    }

    /// Scales all four fields independently into pixel space; a new value,
    /// the millimetre box is left as it was.
    pub fn to_pixel(&self) -> (r: BoxPx)
        requires
            self.wf(),
        ensures
            r == self.spec_to_pixel(),
            r.x == spec_mm_to_px(self.x as int),
            r.y == spec_mm_to_px(self.y as int),
            r.width == spec_mm_to_px(self.width as int),
            r.height == spec_mm_to_px(self.height as int),
    {
        BoxPx {
            x: mm_to_px(self.x),
            y: mm_to_px(self.y),
            width: mm_to_px(self.width),
            height: mm_to_px(self.height),
        }
    }
}

/// A three-component colour, one byte per channel.
#[derive(Clone, Copy, Debug, PartialEq, Eq, Structural)]
pub struct Color {
    pub r: u8,
    pub g: u8,
    pub b: u8,
}

impl Color {
    /// Direct field copy from a raw component triple; no colour-space
    /// transform is applied.
    pub fn from_triple(raw: [u8; 3]) -> (c: Color)
        ensures
            c == (Color { r: raw[0], g: raw[1], b: raw[2] }),
    {
        Color { r: raw[0], g: raw[1], b: raw[2] }
    }
}

impl Default for Color {
    /// The fill colour used when a text object supplies none: black.
    fn default() -> (c: Color)
        ensures
            c == (Color { r: 0, g: 0, b: 0 }),
    {
        Color { r: 0, g: 0, b: 0 }
    }
}

/// A six-coefficient affine transform in the convention
/// `x' = a*x + c*y + e`, `y' = b*x + d*y + f`, each coefficient in
/// thousandths (`MATRIX_UNIT` stands for 1.0).
#[derive(Clone, Copy, Debug, PartialEq, Eq, Structural)]
pub struct Matrix {
    pub a: i64,
    pub b: i64,
    pub c: i64,
    pub d: i64,
    pub e: i64,
    pub f: i64,
}

impl Matrix {
    /// The identity transform.
    pub open spec fn spec_identity() -> Matrix {
        Matrix { a: MATRIX_UNIT, b: 0, c: 0, d: MATRIX_UNIT, e: 0, f: 0 }
    }

    /// Builds the identity transform.
    pub fn identity() -> (m: Matrix)
        ensures
            m == Matrix::spec_identity(),
    {
        Matrix { a: MATRIX_UNIT, b: 0, c: 0, d: MATRIX_UNIT, e: 0, f: 0 }
    }

    /// Re-maps the six stored coefficients into the column-major order an
    /// immediate-mode vector backend expects: a to xx, b to yx, c to xy,
    /// d to yy, e to x0, f to y0.
    pub fn backend_coefficients(&self) -> (r: (i64, i64, i64, i64, i64, i64))
        ensures
            r == (self.a, self.b, self.c, self.d, self.e, self.f),
    {
        (self.a, self.b, self.c, self.d, self.e, self.f)
    }
}

} // verus!
