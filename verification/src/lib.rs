//! Batch extraction of named rectangular regions from images.
//!
//! The library holds the verified core: parsing capture specifications,
//! converting origin-relative coordinates to absolute top-left coordinates
//! with exact bounds checking, resolving output paths, and planning the
//! per-image work. File I/O and the parallel fan-out live outside.

pub mod capture;
pub mod errors;
pub mod geometry;
pub mod numerals;
pub mod paths;
pub mod pipeline;
pub mod scan;

pub use capture::{CaptureSpec, Origin, parse_capture_spec, parse_pair, reconstruct};
pub use errors::CutoutError;
pub use geometry::convert_coordinates;
pub use paths::make_output_path;
pub use pipeline::{CroppedCapture, PlannedCapture, plan_captures, process_image};
