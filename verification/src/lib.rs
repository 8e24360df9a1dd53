//! Load-time dependency inspection for Windows executable images.
//!
//! The crate decodes PE/COFF images from raw bytes, reads the API-Set schema
//! that redirects virtual library names, and walks the import graph of an
//! image over a snapshot of the search locations.

pub mod apiset;
pub mod cli;
pub mod cursor;
pub mod pe;
pub mod search;
pub mod text;
