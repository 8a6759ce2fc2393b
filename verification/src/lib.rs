//! Container and codec layer for Canon CR3 raw photographs.
//!
//! A CR3 file is an ISO base media container: nested boxes, each with a
//! big-endian length and a four-byte type tag. This crate recognises the file
//! family by its brands, walks the box tree to the `CRAW` payload, parses the
//! payload's header, and reads fixed-width raw samples.
pub mod decoders;
