//! The decoders and the pieces they are built from.
pub mod bmff;
pub mod boxes;
pub mod camera;
pub mod cr3;
pub mod craw;
pub mod cursor;
pub mod endian;
pub mod error;
pub mod tags;
