//! One file record of an archive.
use vstd::prelude::*;

verus! {

/// The kind of record a header announces through its type flag.
#[derive(Clone, Copy, Debug, PartialEq, Eq, Structural)]
pub enum EntryType {
    NormalFile,
    HardLink,
    SymbolicLink,
    CharacterSpecial,
    BlockSpecial,
    Directory,
    FIFO,
    ContiguousFile,
    GlobalExtendedHeader,
    NextFileExtendedHeader,
    VendorSpecific,
}

/// The kind that a type-flag byte stands for. A NUL flag is the old way of
/// writing a normal file; an unknown flag is read as a normal file too.
pub open spec fn spec_entry_type(flag: u8) -> EntryType {
    if flag == 0x31 {
        EntryType::HardLink
    } else if flag == 0x32 {
        EntryType::SymbolicLink
    } else if flag == 0x33 {
        EntryType::CharacterSpecial
    } else if flag == 0x34 {
        EntryType::BlockSpecial
    } else if flag == 0x35 {
        EntryType::Directory
    } else if flag == 0x36 {
        EntryType::FIFO
    } else if flag == 0x37 {
        EntryType::ContiguousFile
    } else if flag == 0x67 {
        EntryType::GlobalExtendedHeader
    } else if flag == 0x78 {
        EntryType::NextFileExtendedHeader
    } else if 0x41 <= flag <= 0x5a {
        EntryType::VendorSpecific
    } else {
        EntryType::NormalFile
    }
}

impl EntryType {
    /// Maps a header's type-flag byte to the kind it announces.
    pub fn from_flag(flag: u8) -> (r: EntryType)
        ensures
            r == spec_entry_type(flag),
    {
        match flag {
            0x31 => EntryType::HardLink,
            0x32 => EntryType::SymbolicLink,
            0x33 => EntryType::CharacterSpecial,
            0x34 => EntryType::BlockSpecial,
            0x35 => EntryType::Directory,
            0x36 => EntryType::FIFO,
            0x37 => EntryType::ContiguousFile,
            0x67 => EntryType::GlobalExtendedHeader,
            0x78 => EntryType::NextFileExtendedHeader,
            0x41..=0x5a => EntryType::VendorSpecific,
            _ => EntryType::NormalFile,
        }
    }
}

/// What an entry holds, as mathematical values.
pub struct EntryView {
    pub variant: EntryType,
    pub filename: Seq<char>,
    pub size: nat,
    pub payload: Seq<u8>,
}

/// A decoded file record: its kind, its name, its size and its own copy of
/// the payload bytes.
pub struct Entry {
    variant: EntryType,
    filename: String,
    size: usize,
    payload: Vec<u8>,
}

impl View for Entry {
    type V = EntryView;

    closed spec fn view(&self) -> EntryView {
        EntryView {
            variant: self.variant,
            filename: self.filename@,
            size: self.size as nat,
            payload: self.payload@,
        }
    }
}

impl Entry {
    /// A record is well formed when its payload is exactly as long as its
    /// size and its name is not empty.
    pub open spec fn wf(&self) -> bool {
        &&& self@.payload.len() == self@.size
        &&& self@.filename.len() > 0
    }

    pub(crate) fn new(variant: EntryType, filename: String, payload: Vec<u8>) -> (r: Entry)
        requires
            filename@.len() > 0,
        ensures
            r@ == (EntryView {
                variant,
                filename: filename@,
                size: payload@.len(),
                payload: payload@,
            }),
            r.wf(),
    {
        let size = payload.len();
        Entry { variant, filename, size, payload }
    }

    /// Whether the entry's name is exactly `name`.
    pub fn is_named(&self, name: &String) -> (r: bool)
        ensures
            r == (self@.filename == name@),
    {
        self.filename == *name
    }

    /// The kind the header announced.
    pub fn variant(&self) -> (r: EntryType)
        ensures
            r == self@.variant,
    {
        self.variant
    }

    /// The entry's name.
    pub fn filename(&self) -> (r: &str)
        ensures
            r@ == self@.filename,
    {
        self.filename.as_str()
    }

    /// The payload length in bytes.
    pub fn size(&self) -> (r: usize)
        ensures
            r as nat == self@.size,
    {
        self.size
    }

    /// The payload bytes.
    pub fn payload(&self) -> (r: &[u8])
        ensures
            r@ == self@.payload,
    {
        self.payload.as_slice()
    }
}

} // verus!
