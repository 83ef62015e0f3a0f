//! The chunk walker: generic logic to scan a RIFF chunk list linearly and
//! locate a chunk by its 4-byte identifier, respecting declared chunk
//! sizes. Little-endian field readers live here as well.

use vstd::prelude::*;

verus! {

/// Little-endian 16-bit unsigned value of the two bytes at `pos`.
pub open spec fn spec_le16(d: Seq<u8>, pos: int) -> int {
    d[pos] + 256 * d[pos + 1]
}

/// Little-endian 32-bit unsigned value of the four bytes at `pos`.
pub open spec fn spec_le32(d: Seq<u8>, pos: int) -> int {
    d[pos] + 256 * d[pos + 1] + 65536 * d[pos + 2] + 16777216 * d[pos + 3]
}

/// Declared payload size of the chunk whose header starts at `pos`: the
/// little-endian 32-bit field right after the 4-byte identifier.
pub open spec fn spec_chunk_size(d: Seq<u8>, pos: int) -> int {
    spec_le32(d, pos + 4)
}

/// Whether the chunk header at `pos` carries the identifier `(t0,t1,t2,t3)`.
pub open spec fn spec_chunk_id_is(d: Seq<u8>, pos: int, t0: u8, t1: u8, t2: u8, t3: u8) -> bool {
    &&& d[pos] == t0
    &&& d[pos + 1] == t1
    &&& d[pos + 2] == t2
    &&& d[pos + 3] == t3
}

/// Measure for the chunk walk: how many bytes lie at or after `pos`.
pub open spec fn walk_measure(d: Seq<u8>, pos: int) -> int {
    if pos <= d.len() {
        d.len() - pos
    } else {
        0
    }
}

/// One linear scan of the chunk list from `pos`: read a 4-byte identifier
/// and a little-endian 32-bit size, step to `pos + 8 + size`, until either
/// the requested identifier is found or too few bytes remain for a further
/// header. With `strict_tail` the scan insists on at least one byte after
/// the 8-byte header (the format lookup's policy); without it a header
/// ending exactly at the buffer boundary still counts (the data lookup's
/// policy). The two policies differ by one byte near a truncated buffer's
/// tail and are deliberately kept distinct. No chunk size is checked
/// against the remaining buffer during the walk itself.
pub open spec fn spec_find_chunk(
    d: Seq<u8>,
    pos: int,
    t0: u8,
    t1: u8,
    t2: u8,
    t3: u8,
    strict_tail: bool,
) -> Option<int>
    decreases walk_measure(d, pos),
{
    let bound: int = if strict_tail {
        d.len() - 1
    } else {
        d.len() as int
    };
    if pos + 8 > bound {
        None
    } else if spec_chunk_id_is(d, pos, t0, t1, t2, t3) {
        Some(pos)
    } else {
        spec_find_chunk(d, pos + 8 + spec_chunk_size(d, pos), t0, t1, t2, t3, strict_tail)
    }
}

/// What a successful walk guarantees about the offset it returns: the
/// offset lies at or after the scan's start, a whole 8-byte header fits
/// before the policy's bound, and the identifier there is the requested
/// one.
pub proof fn lemma_find_chunk_some(
    d: Seq<u8>,
    pos: int,
    t0: u8,
    t1: u8,
    t2: u8,
    t3: u8,
    strict_tail: bool,
)
    ensures
        match spec_find_chunk(d, pos, t0, t1, t2, t3, strict_tail) {
            Some(p) => {
                &&& p >= pos
                &&& p + 8 <= if strict_tail {
                    d.len() - 1
                } else {
                    d.len() as int
                }
                &&& spec_chunk_id_is(d, p, t0, t1, t2, t3)
            },
            None => true,
        },
    decreases walk_measure(d, pos),
{
    let bound: int = if strict_tail {
        d.len() - 1
    } else {
        d.len() as int
    };
    if pos + 8 > bound {
    } else if spec_chunk_id_is(d, pos, t0, t1, t2, t3) {
    } else {
        lemma_find_chunk_some(d, pos + 8 + spec_chunk_size(d, pos), t0, t1, t2, t3, strict_tail);
    }
}

/// Chunk lookup is deterministic and idempotent: any two lookup results
/// obtained on the same buffer, for the same identifier and under the same
/// tail policy, are the same.
pub proof fn lemma_chunk_lookup_idempotent(
    d: Seq<u8>,
    t0: u8,
    t1: u8,
    t2: u8,
    t3: u8,
    strict_tail: bool,
    r1: Option<int>,
    r2: Option<int>,
)
    requires
        r1 == spec_find_chunk(d, 12, t0, t1, t2, t3, strict_tail),
        r2 == spec_find_chunk(d, 12, t0, t1, t2, t3, strict_tail),
    ensures
        r1 == r2,
{
}

/// Reads the little-endian 16-bit unsigned value at `pos`.
pub fn le16_at(data: &[u8], pos: usize) -> (r: u16)
    requires
        pos + 2 <= data@.len(),
    ensures
        r == spec_le16(data@, pos as int),
{
    (data[pos] as u16) + 256 * (data[pos + 1] as u16)
}

/// Reads the little-endian 32-bit unsigned value at `pos`.
pub fn le32_at(data: &[u8], pos: usize) -> (r: u32)
    requires
        pos + 4 <= data@.len(),
    ensures
        r == spec_le32(data@, pos as int),
{
    (data[pos] as u32) + 256 * (data[pos + 1] as u32) + 65536 * (data[pos + 2] as u32) + 16777216
        * (data[pos + 3] as u32)
}

/// Scans the chunk list of `data` from byte offset 12 for the identifier
/// `(t0,t1,t2,t3)` under the given tail policy, and returns the byte
/// offset of the matching chunk's header, if any.
pub fn find_chunk(data: &[u8], t0: u8, t1: u8, t2: u8, t3: u8, strict_tail: bool) -> (r: Option<
    usize,
>)
    ensures
        match r {
            Some(p) => spec_find_chunk(data@, 12, t0, t1, t2, t3, strict_tail) == Some(p as int),
            None => spec_find_chunk(data@, 12, t0, t1, t2, t3, strict_tail) is None,
        },
{
    let n = data.len();
    let mut pos: usize = 12;
    loop
        invariant
            n == data@.len(),
            12 <= pos,
            spec_find_chunk(data@, pos as int, t0, t1, t2, t3, strict_tail) == spec_find_chunk(
                data@,
                12,
                t0,
                t1,
                t2,
                t3,
                strict_tail,
            ),
        decreases walk_measure(data@, pos as int),
    {
        let header_fits = if strict_tail {
            n >= 9 && pos <= n - 9
        } else {
            n >= 8 && pos <= n - 8
        };
        if !header_fits {
            return None;
        }
        if data[pos] == t0 && data[pos + 1] == t1 && data[pos + 2] == t2 && data[pos + 3] == t3 {
            return Some(pos);
        }
        let size = le32_at(data, pos + 4);
        let after_header = pos + 8;
        if (size as usize) > n - after_header {
            // The next header would start past the buffer end, so no
            // further chunk can be read: the walk ends unsuccessfully.
            proof {
                reveal_with_fuel(spec_find_chunk, 2);
            }
            assert(spec_find_chunk(data@, pos as int, t0, t1, t2, t3, strict_tail) is None);
            return None;
        }
        pos = after_header + (size as usize);
    }
}

} // verus!
