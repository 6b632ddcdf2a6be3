//! Decoding of USTAR tar byte streams into an in-memory archive that can be
//! queried by file name.

pub mod archive;
pub mod entry;
pub mod error;
pub mod header;
pub mod lemmas;
pub mod text;
