//! The header scanner and the archive it builds.
use crate::entry::{spec_entry_type, Entry, EntryType, EntryView};
use crate::error::TarErrors;
use crate::header::{parse_octal, read_octal, trim_nul, trimmed_end};
use crate::text::{decode_lossy, lossy_of};
use vstd::prelude::*;
use vstd::slice::{slice_subrange, slice_to_vec};

verus! {

/// Length of a header block, and the unit that payloads are padded to.
pub const BLOCK_LEN: usize = 512;

/// Length of the file-name field at the start of a header.
pub const FILENAME_LEN: usize = 100;

/// Where the size field starts inside a header.
pub const SIZE_OFFSET: usize = 124;

/// Length of the size field.
pub const SIZE_LEN: usize = 12;

/// Where the type-flag byte sits inside a header.
pub const TYPE_FLAG_OFFSET: usize = 156;

/// The name bytes of the header at `off`, trailing NULs dropped.
pub open spec fn name_bytes(buf: Seq<u8>, off: int) -> Seq<u8> {
    trim_nul(buf.subrange(off, off + 100))
}

/// The size text of the header at `off`, trailing NULs dropped.
pub open spec fn size_bytes(buf: Seq<u8>, off: int) -> Seq<u8> {
    trim_nul(buf.subrange(off + 124, off + 136))
}

/// A payload length rounded up to a whole number of blocks.
pub open spec fn padded(size: nat) -> nat {
    ((size + 511) / 512) * 512
}

/// The entry that the header at `off` describes, given its decoded size.
pub open spec fn entry_at(buf: Seq<u8>, off: int, size: nat) -> EntryView {
    EntryView {
        variant: spec_entry_type(buf[off + 156]),
        filename: lossy_of(name_bytes(buf, off)),
        size,
        payload: buf.subrange(off + 512, off + 512 + size),
    }
}

/// Entries `es` followed by whatever the rest of a scan gave.
pub open spec fn after(es: Seq<EntryView>, r: Result<Seq<EntryView>, TarErrors>) -> Result<
    Seq<EntryView>,
    TarErrors,
> {
    match r {
        Ok(s) => Ok(es + s),
        Err(e) => Err(e),
    }
}

/// The result of scanning `buf` header by header from offset `off`.
pub open spec fn scan(buf: Seq<u8>, off: nat) -> Result<Seq<EntryView>, TarErrors>
    decreases buf.len() + 512 - off,
{
    if off >= buf.len() {
        Ok(Seq::empty())
    } else if off + 512 > buf.len() {
        Err(TarErrors::DamagedHeader)
    } else if name_bytes(buf, off as int).len() == 0 {
        Ok(Seq::empty())
    } else {
        match parse_octal(size_bytes(buf, off as int)) {
            None => Err(TarErrors::SizeUnreadable),
            Some(size) => if off + 512 + size > buf.len() {
                Err(TarErrors::DamagedHeader)
            } else {
                after(seq![entry_at(buf, off as int, size)], scan(buf, off + 512 + padded(size)))
            },
        }
    }
}

/// The result of decoding a whole tar stream.
pub open spec fn decode(buf: Seq<u8>) -> Result<Seq<EntryView>, TarErrors> {
    if buf.len() < 512 {
        Err(TarErrors::NotATarFile)
    } else {
        scan(buf, 0)
    }
}

/// Whether `i` is the first position in `es` whose name is `name`.
pub open spec fn first_named(es: Seq<EntryView>, name: Seq<char>, i: int) -> bool {
    &&& 0 <= i < es.len()
    &&& es[i].filename == name
    &&& forall|j: int| 0 <= j < i ==> es[j].filename != name
}

/// Appending one entry and then the rest equals pushing it first.
proof fn lemma_after_push(es: Seq<EntryView>, e: EntryView, r: Result<Seq<EntryView>, TarErrors>)
    ensures
        after(es, after(seq![e], r)) == after(es.push(e), r),
{
    if let Ok(s) = r {
        assert(es + (seq![e] + s) =~= es.push(e) + s);
    }
}

/// A decoded archive: its entries in the order they appear in the stream.
pub struct Tar {
    entries: Vec<Entry>,
}

impl View for Tar {
    type V = Seq<EntryView>;

    closed spec fn view(&self) -> Seq<EntryView> {
        self.entries@.map_values(|e: Entry| e@)
    }
}

impl Tar {
    /// Every entry of the archive is well formed.
    pub closed spec fn wf(&self) -> bool {
        forall|i: int| 0 <= i < self.entries@.len() ==> #[trigger] self.entries@[i].wf()
    }

    /// Each decoded entry's payload is exactly as long as its size, and its
    /// name is not empty.
    pub proof fn lemma_wf_entries(&self)
        requires
            self.wf(),
        ensures
            forall|i: int|
                0 <= i < self@.len() ==> (#[trigger] self@[i]).payload.len() == self@[i].size
                    && self@[i].filename.len() > 0,
    {
        assert forall|i: int| 0 <= i < self@.len() implies (#[trigger] self@[i]).payload.len()
            == self@[i].size && self@[i].filename.len() > 0 by {
            assert(self.entries@[i].wf());
        }
    }

    /// The entries, in stream order.
    pub fn entries(&self) -> (r: &[Entry])
        ensures
            r@.map_values(|e: Entry| e@) == self@,
    {
        self.entries.as_slice()
    }

    /// The names of all entries, in stream order, duplicates kept.
    pub fn get_filenames(&self) -> (r: Vec<String>)
        ensures
            r@.len() == self@.len(),
            forall|i: int| 0 <= i < r@.len() ==> (#[trigger] r@[i])@ == self@[i].filename,
    {
        let mut names: Vec<String> = Vec::new();
        let mut i: usize = 0;
        while i < self.entries.len()
            invariant
                i <= self.entries@.len(),
                names@.len() == i,
                forall|j: int| 0 <= j < i ==> (#[trigger] names@[j])@ == self@[j].filename,
            decreases self.entries@.len() - i,
        {
            names.push(self.entries[i].filename().to_owned());
            i = i + 1;
        }
        names
    }

    /// A copy of the payload of the first entry named `name` (exact,
    /// case-sensitive match), or `FileNotFound` when no entry has that name.
    pub fn get_payload(&self, name: &str) -> (r: Result<Vec<u8>, TarErrors>)
        ensures
            match r {
                Ok(p) => exists|i: int| first_named(self@, name@, i) && p@ == self@[i].payload,
                Err(e) => e == TarErrors::FileNotFound && forall|i: int|
                    0 <= i < self@.len() ==> (#[trigger] self@[i]).filename != name@,
            },
    {
        let wanted = name.to_owned();
        let mut i: usize = 0;
        while i < self.entries.len()
            invariant
                i <= self.entries@.len(),
                wanted@ == name@,
                forall|j: int| 0 <= j < i ==> (#[trigger] self@[j]).filename != name@,
            decreases self.entries@.len() - i,
        {
            let entry = &self.entries[i];
            if entry.is_named(&wanted) {
                assert(first_named(self@, name@, i as int));
                return Ok(slice_to_vec(entry.payload()));
            }
            i = i + 1;
        }
        Err(TarErrors::FileNotFound)
    }
}

/// Decodes a tar stream: walks it header by header, copying each entry's
/// name, size and payload, until the buffer ends or a header with an empty
/// name marks the end of the archive.
pub fn parse_tar(payload: &[u8]) -> (r: Result<Tar, TarErrors>)
    ensures
        match r {
            Ok(t) => decode(payload@) == Ok::<Seq<EntryView>, TarErrors>(t@) && t.wf(),
            Err(e) => decode(payload@) == Err::<Seq<EntryView>, TarErrors>(e),
        },
{
    let n = payload.len();
    if n < BLOCK_LEN {
        return Err(TarErrors::NotATarFile);
    }
    let mut entries: Vec<Entry> = Vec::new();
    let mut offset: usize = 0;
    loop
        invariant
            n == payload@.len(),
            n >= 512,
            decode(payload@) == after(
                entries@.map_values(|e: Entry| e@),
                scan(payload@, offset as nat),
            ),
            forall|i: int| 0 <= i < entries@.len() ==> #[trigger] entries@[i].wf(),
        ensures
            decode(payload@) == Ok::<Seq<EntryView>, TarErrors>(
                entries@.map_values(|e: Entry| e@),
            ),
            forall|i: int| 0 <= i < entries@.len() ==> #[trigger] entries@[i].wf(),
        decreases n - offset,
    {
        let ghost es = entries@.map_values(|e: Entry| e@);
        if offset >= n {
            assert(es + Seq::<EntryView>::empty() =~= es);
            break;
        }
        if n - offset < BLOCK_LEN {
            return Err(TarErrors::DamagedHeader);
        }
        let name_end = trimmed_end(payload, offset, FILENAME_LEN);
        if name_end == offset {
            assert(es + Seq::<EntryView>::empty() =~= es);
            break;
        }
        let size_start = offset + SIZE_OFFSET;
        let size_end = trimmed_end(payload, size_start, SIZE_LEN);
        let size = match read_octal(payload, size_start, size_end) {
            Some(v) => v,
            None => {
                return Err(TarErrors::SizeUnreadable);
            },
        };
        let body = offset + BLOCK_LEN;
        if size > n - body {
            return Err(TarErrors::DamagedHeader);
        }
        let filename = decode_lossy(slice_subrange(payload, offset, name_end));
        let data = slice_to_vec(slice_subrange(payload, body, body + size));
        let variant = EntryType::from_flag(payload[offset + TYPE_FLAG_OFFSET]);
        let entry = Entry::new(variant, filename, data);
        let ghost e = entry_at(payload@, offset as int, size as nat);
        assert(entry@ == e);
        entries.push(entry);
        proof {
            assert(entries@.map_values(|e: Entry| e@) =~= es.push(e));
            lemma_after_push(es, e, scan(payload@, (body + padded(size as nat)) as nat));
        }
        let pad = if size % BLOCK_LEN == 0 {
            size
        } else {
            size - size % BLOCK_LEN + BLOCK_LEN
        };
        assert(pad == padded(size as nat)) by (nonlinear_arith)
            requires
                pad == (if size % 512 == 0 { size as int } else { size - size % 512 + 512 }),
        ;
        if pad >= n - body {
            offset = n;
        } else {
            offset = body + pad;
        }
    }
    Ok(Tar { entries })
}

} // verus!
