//! Laws of the header scanner, proved over its mathematical model.
use crate::archive::{after, decode, entry_at, name_bytes, padded, scan, size_bytes};
use crate::entry::EntryView;
use crate::error::TarErrors;
use crate::header::{is_octal_digit, parse_octal, trim_nul};
use vstd::prelude::*;

verus! {

/// Dropping trailing NULs from an all-NUL sequence leaves nothing.
pub proof fn lemma_trim_all_nul(s: Seq<u8>)
    requires
        forall|i: int| 0 <= i < s.len() ==> s[i] == 0,
    ensures
        trim_nul(s).len() == 0,
    decreases s.len(),
{
    if s.len() > 0 {
        lemma_trim_all_nul(s.drop_last());
    }
}

/// One step of the scan: a header with a name, a readable size and a payload
/// inside the buffer yields its entry, and the scan goes on one header block
/// plus the payload rounded up to whole blocks further on.
pub proof fn lemma_advance(buf: Seq<u8>, off: nat, size: nat)
    requires
        off + 512 <= buf.len(),
        name_bytes(buf, off as int).len() > 0,
        parse_octal(size_bytes(buf, off as int)) == Some(size),
        off + 512 + size <= buf.len(),
    ensures
        scan(buf, off) == after(
            seq![entry_at(buf, off as int, size)],
            scan(buf, off + 512 + padded(size)),
        ),
        padded(size) % 512 == 0,
        size <= padded(size) < size + 512,
{
}

/// Positions at which each decoded entry's header stands, from a scan that
/// started at `off`: inside the buffer, increasing, and each entry is the one
/// its header describes.
proof fn lemma_scan_offsets(buf: Seq<u8>, off: nat, es: Seq<EntryView>) -> (offs: Seq<int>)
    requires
        scan(buf, off) == Ok::<Seq<EntryView>, TarErrors>(es),
    ensures
        offs.len() == es.len(),
        forall|i: int|
            0 <= i < es.len() ==> off <= #[trigger] offs[i] && offs[i] + 512 + es[i].size
                <= buf.len() && es[i] == entry_at(buf, offs[i], es[i].size),
        forall|i: int, j: int| 0 <= i < j < es.len() ==> offs[i] < offs[j],
    decreases buf.len() + 512 - off,
{
    if off >= buf.len() || off + 512 > buf.len() || name_bytes(buf, off as int).len() == 0 {
        Seq::empty()
    } else {
        let size = parse_octal(size_bytes(buf, off as int))->Some_0;
        let next = off + 512 + padded(size);
        let rest = scan(buf, next)->Ok_0;
        let tail = lemma_scan_offsets(buf, next, rest);
        let offs = seq![off as int] + tail;
        assert(es =~= seq![entry_at(buf, off as int, size)] + rest);
        assert forall|i: int|
            0 <= i < es.len() implies off <= #[trigger] offs[i] && offs[i] + 512 + es[i].size
                <= buf.len() && es[i] == entry_at(buf, offs[i], es[i].size) by {
            if i > 0 {
                assert(offs[i] == tail[i - 1]);
                assert(es[i] == rest[i - 1]);
            }
        }
        assert forall|i: int, j: int| 0 <= i < j < es.len() implies offs[i] < offs[j] by {
            assert(offs[j] == tail[j - 1]);
            if i > 0 {
                assert(offs[i] == tail[i - 1]);
            }
        }
        offs
    }
}

/// Decoded entries stand in the order of their headers in the stream: entry
/// `i` is described by the header at `offs[i]`, and these positions strictly
/// increase.
pub proof fn lemma_stream_order(buf: Seq<u8>, es: Seq<EntryView>) -> (offs: Seq<int>)
    requires
        decode(buf) == Ok::<Seq<EntryView>, TarErrors>(es),
    ensures
        offs.len() == es.len(),
        forall|i: int|
            0 <= i < es.len() ==> 0 <= #[trigger] offs[i] && offs[i] + 512 + es[i].size
                <= buf.len() && es[i] == entry_at(buf, offs[i], es[i].size),
        forall|i: int, j: int| 0 <= i < j < es.len() ==> offs[i] < offs[j],
{
    lemma_scan_offsets(buf, 0, es)
}

/// Every decoded entry's payload is exactly as long as its size.
pub proof fn lemma_payload_matches_size(buf: Seq<u8>, es: Seq<EntryView>)
    requires
        decode(buf) == Ok::<Seq<EntryView>, TarErrors>(es),
    ensures
        forall|i: int| 0 <= i < es.len() ==> (#[trigger] es[i]).payload.len() == es[i].size,
{
    let offs = lemma_stream_order(buf, es);
    assert forall|i: int| 0 <= i < es.len() implies (#[trigger] es[i]).payload.len()
        == es[i].size by {
        assert(0 <= offs[i]);
    }
}

/// A buffer whose first block is all NUL bytes is an empty archive.
pub proof fn lemma_zero_block_is_empty(buf: Seq<u8>)
    requires
        buf.len() >= 512,
        forall|i: int| 0 <= i < 512 ==> buf[i] == 0,
    ensures
        decode(buf) == Ok::<Seq<EntryView>, TarErrors>(Seq::empty()),
{
    lemma_trim_all_nul(buf.subrange(0, 100));
}

/// A buffer shorter than one block is not a tar stream.
pub proof fn lemma_short_buffer(buf: Seq<u8>)
    requires
        buf.len() < 512,
    ensures
        decode(buf) == Err::<Seq<EntryView>, TarErrors>(TarErrors::NotATarFile),
{
}

/// Where a header is expected but less than a block is left, the header is
/// damaged.
pub proof fn lemma_truncated_header(buf: Seq<u8>, off: nat)
    requires
        off < buf.len() < off + 512,
    ensures
        scan(buf, off) == Err::<Seq<EntryView>, TarErrors>(TarErrors::DamagedHeader),
{
}

/// A named header whose size text is empty or holds a byte that is not an
/// octal digit makes the scan fail with `SizeUnreadable`.
pub proof fn lemma_unreadable_size(buf: Seq<u8>, off: nat)
    requires
        off + 512 <= buf.len(),
        name_bytes(buf, off as int).len() > 0,
        size_bytes(buf, off as int).len() == 0 || exists|k: int|
            0 <= k < size_bytes(buf, off as int).len() && !is_octal_digit(
                #[trigger] size_bytes(buf, off as int)[k],
            ),
    ensures
        scan(buf, off) == Err::<Seq<EntryView>, TarErrors>(TarErrors::SizeUnreadable),
{
}

} // verus!
