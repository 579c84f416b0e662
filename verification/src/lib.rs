//! Page-rendering engine for an OFD-like compound document format.
//!
//! The library walks a page's content tree (vector paths, text runs, raster
//! images, nested blocks) and turns it into a flat sequence of backend-neutral
//! drawing operations, resolving fonts and embedded images from the document's
//! resource tables and its container archive on the way. Backend adapters
//! (an immediate-mode vector canvas, a retained-mode painter) replay the
//! operation sequence; the walk itself is backend-independent.

pub mod archive;
pub mod doc;
pub mod geom;
pub mod ops;
pub mod render;
pub mod resolve;

pub use geom::mm_to_px;
pub use geom::BoxMm;
pub use geom::BoxPx;
pub use geom::Color;
pub use geom::Matrix;
pub use geom::MATRIX_UNIT;
pub use geom::MM_COORD_LIMIT;
pub use geom::PX_PER_MM_MILLI;
