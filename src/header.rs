//! Field-level decoding of a 512-byte tar header block.
use vstd::prelude::*;

verus! {

/// A byte sequence with every trailing NUL byte removed.
pub open spec fn trim_nul(s: Seq<u8>) -> Seq<u8>
    decreases s.len(),
{
    if s.len() > 0 && s.last() == 0 {
        trim_nul(s.drop_last())
    } else {
        s
    }
}

/// An ASCII digit of base 8.
pub open spec fn is_octal_digit(b: u8) -> bool {
    0x30 <= b <= 0x37
}

/// The number written by a sequence of octal digits, most significant first.
pub open spec fn octal_value(d: Seq<u8>) -> nat
    decreases d.len(),
{
    if d.len() == 0 {
        0
    } else {
        octal_value(d.drop_last()) * 8 + (d.last() - 0x30) as nat
    }
}

/// The value of a size field once its trailing NULs are gone: present only
/// when the text is a non-empty run of octal digits whose value fits a `usize`.
pub open spec fn parse_octal(d: Seq<u8>) -> Option<nat> {
    if d.len() > 0 && (forall|i: int| 0 <= i < d.len() ==> is_octal_digit(#[trigger] d[i]))
        && octal_value(d) <= usize::MAX {
        Some(octal_value(d))
    } else {
        None
    }
}

/// A longer run of digits never stands for a smaller number than its prefix.
proof fn lemma_octal_prefix_le(d: Seq<u8>, k: int)
    requires
        0 <= k <= d.len(),
    ensures
        octal_value(d.subrange(0, k)) <= octal_value(d),
    decreases d.len(),
{
    if k < d.len() {
        assert(d.drop_last() =~= d.subrange(0, d.len() - 1));
        assert(d.drop_last().subrange(0, k) =~= d.subrange(0, k));
        lemma_octal_prefix_le(d.drop_last(), k);
    } else {
        assert(d.subrange(0, k) =~= d);
    }
}

/// The end of `buf[start..start + len]` once its trailing NUL bytes are dropped.
pub fn trimmed_end(buf: &[u8], start: usize, len: usize) -> (end: usize)
    requires
        start + len <= buf@.len(),
    ensures
        start <= end <= start + len,
        buf@.subrange(start as int, end as int) == trim_nul(
            buf@.subrange(start as int, start + len),
        ),
{
    let n = buf.len();
    assert(start + len <= n);
    let mut end: usize = start + len;
    while end > start && buf[end - 1] == 0
        invariant
            start <= end <= start + len,
            start + len <= buf@.len(),
            trim_nul(buf@.subrange(start as int, end as int)) == trim_nul(
                buf@.subrange(start as int, start + len),
            ),
        decreases end,
    {
        assert(buf@.subrange(start as int, end as int).drop_last() =~= buf@.subrange(
            start as int,
            end - 1,
        ));
        end = end - 1;
    }
    end
}

/// Reads `buf[start..end]` as octal ASCII digits.
pub fn read_octal(buf: &[u8], start: usize, end: usize) -> (r: Option<usize>)
    requires
        start <= end <= buf@.len(),
    ensures
        r matches Some(v) ==> parse_octal(buf@.subrange(start as int, end as int)) == Some(
            v as nat,
        ),
        r is None ==> parse_octal(buf@.subrange(start as int, end as int)) is None,
{
    let ghost d = buf@.subrange(start as int, end as int);
    if start == end {
        return None;
    }
    let mut value: usize = 0;
    let mut i: usize = start;
    while i < end
        invariant
            start <= i <= end <= buf@.len(),
            d == buf@.subrange(start as int, end as int),
            value == octal_value(d.subrange(0, i - start)),
            forall|j: int| 0 <= j < i - start ==> is_octal_digit(#[trigger] d[j]),
        decreases end - i,
    {
        let b = buf[i];
        if b < 0x30 || b > 0x37 {
            assert(!is_octal_digit(d[i - start]));
            return None;
        }
        proof {
            assert(d.subrange(0, i + 1 - start).drop_last() =~= d.subrange(0, i - start));
        }
        match value.checked_mul(8) {
            Some(m) => match m.checked_add((b - 0x30) as usize) {
                Some(s) => {
                    value = s;
                },
                None => {
                    proof {
                        lemma_octal_prefix_le(d, i + 1 - start);
                    }
                    return None;
                },
            },
            None => {
                proof {
                    lemma_octal_prefix_le(d, i + 1 - start);
                }
                return None;
            },
        }
        i = i + 1;
    }
    proof {
        assert(d.subrange(0, end - start) =~= d);
    }
    Some(value)
}

} // verus!
