//! Dashed-stroke kernel: converts a continuous polyline path into an
//! alternating sequence of drawn ("dash") and skipped ("gap") sub-segments,
//! following a cyclic length pattern and a starting phase offset.
//!
//! Distances are exact integer length units (`i64`); a caller working in
//! floating-point geometry scales its lengths to units before entering the
//! kernel and interpolates the emitted split positions back into points.

pub mod cursor;
pub mod dasher;
pub mod pattern;
