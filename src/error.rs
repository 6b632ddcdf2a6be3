//! Errors surfaced to the caller of the decoder and of the archive lookups.
use vstd::prelude::*;

verus! {

/// What went wrong while decoding a tar stream or looking up an entry.
#[derive(Clone, Copy, Debug, PartialEq, Eq, Structural)]
pub enum TarErrors {
    /// The buffer is shorter than one header block.
    NotATarFile,
    /// A header block is cut short, or its payload runs past the buffer.
    DamagedHeader,
    /// The size field is not a run of octal digits.
    SizeUnreadable,
    /// No entry carries the requested name.
    FileNotFound,
}

impl TarErrors {
    /// The human-readable message that goes with each error.
    pub fn message(&self) -> (r: &'static str)
        ensures
            *self == TarErrors::NotATarFile ==> r@ == "Not a tar file"@,
            *self == TarErrors::DamagedHeader ==> r@ == "File header could not be read"@,
            *self == TarErrors::SizeUnreadable ==> r@ == "Could not read file entry size"@,
            *self == TarErrors::FileNotFound ==> r@
                == "File with provided filename could not be found"@,
    {
        match self {
            TarErrors::NotATarFile => "Not a tar file",
            TarErrors::DamagedHeader => "File header could not be read",
            TarErrors::SizeUnreadable => "Could not read file entry size",
            TarErrors::FileNotFound => "File with provided filename could not be found",
        }
    }
}

} // verus!
