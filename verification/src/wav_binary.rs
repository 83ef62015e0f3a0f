//! The RIFF/WAVE container: raw file bytes and the outer envelope rule,
//! together with the file-extension test that decides whether a path names
//! a WAV file at all.

use vstd::prelude::*;

verus! {

/// The raw bytes of one WAV file, immutable for the lifetime of a decode.
pub struct WavBinary {
    pub data: Vec<u8>,
}

/// The outer envelope rule: at least 12 bytes, `"RIFF"` at offset 0 and
/// `"WAVE"` at offset 8.
pub open spec fn spec_riff_check(d: Seq<u8>) -> bool {
    &&& d.len() >= 12
    &&& d[0] == 0x52
    &&& d[1] == 0x49
    &&& d[2] == 0x46
    &&& d[3] == 0x46
    &&& d[8] == 0x57
    &&& d[9] == 0x41
    &&& d[10] == 0x56
    &&& d[11] == 0x45
}

impl WavBinary {
    /// Validates the RIFF/WAVE envelope of the held bytes.
    pub fn check(&self) -> (valid: bool)
        ensures
            valid == spec_riff_check(self.data@),
    {
        self.data.len() >= 12 && self.data[0] == 0x52 && self.data[1] == 0x49
            && self.data[2] == 0x46 && self.data[3] == 0x46 && self.data[8] == 0x57
            && self.data[9] == 0x41 && self.data[10] == 0x56 && self.data[11] == 0x45
    }
}

/// ASCII lower-casing of one byte: letters `A`..`Z` map to `a`..`z`,
/// every other byte stays itself.
pub open spec fn spec_to_ascii_lower(c: u8) -> u8 {
    if 0x41 <= c <= 0x5a {
        (c + 0x20) as u8
    } else {
        c
    }
}

/// Position of the last occurrence of `c` in `p`, or -1 if there is none.
pub open spec fn spec_last_index_of(p: Seq<u8>, c: u8) -> int
    decreases p.len(),
{
    if p.len() == 0 {
        -1
    } else if p.last() == c {
        p.len() - 1
    } else {
        spec_last_index_of(p.drop_last(), c)
    }
}

/// Whether a path (as raw bytes) names a WAV file: its final component
/// (what follows the last `/`, or the whole path) consists of a nonempty
/// stem, a `.`, and an extension equal to `wav` up to ASCII case.
pub open spec fn spec_has_wav_extension(p: Seq<u8>) -> bool {
    let slash = spec_last_index_of(p, 0x2f);
    let dot = spec_last_index_of(p, 0x2e);
    &&& dot >= slash + 2
    &&& p.len() == dot + 4
    &&& spec_to_ascii_lower(p[dot + 1]) == 0x77
    &&& spec_to_ascii_lower(p[dot + 2]) == 0x61
    &&& spec_to_ascii_lower(p[dot + 3]) == 0x76
}

/// Finds the last occurrence of `c` in `p`.
fn last_index_of(p: &[u8], c: u8) -> (r: Option<usize>)
    ensures
        match r {
            Some(i) => spec_last_index_of(p@, c) == i as int,
            None => spec_last_index_of(p@, c) == -1,
        },
{
    let mut i = p.len();
    proof {
        assert(p@.subrange(0, p@.len() as int) =~= p@);
    }
    while i > 0
        invariant
            i <= p@.len(),
            spec_last_index_of(p@, c) == spec_last_index_of(p@.subrange(0, i as int), c),
        decreases i,
    {
        i = i - 1;
        if p[i] == c {
            proof {
                assert(p@.subrange(0, i + 1).last() == p@[i as int]);
            }
            return Some(i);
        }
        proof {
            assert(p@.subrange(0, i + 1).drop_last() =~= p@.subrange(0, i as int));
        }
    }
    None
}

/// ASCII lower-casing of one byte.
fn to_ascii_lower_byte(c: u8) -> (r: u8)
    ensures
        r == spec_to_ascii_lower(c),
{
    if 0x41 <= c && c <= 0x5a {
        c + 0x20
    } else {
        c
    }
}

/// Whether `path` (as raw bytes) names a file with a `.wav` extension,
/// compared case-insensitively. This test runs before any byte of the
/// file is read.
pub fn has_wav_extension(path: &[u8]) -> (r: bool)
    ensures
        r == spec_has_wav_extension(path@),
{
    let n = path.len();
    let slash = last_index_of(path, 0x2f);
    let dot = last_index_of(path, 0x2e);
    match dot {
        None => false,
        Some(d) => {
            let stem_ok = match slash {
                None => d >= 1,
                Some(s) => d >= 2 && s <= d - 2,
            };
            stem_ok && n >= 4 && d == n - 4 && to_ascii_lower_byte(path[d + 1]) == 0x77
                && to_ascii_lower_byte(path[d + 2]) == 0x61 && to_ascii_lower_byte(path[d + 3])
                == 0x76
        },
    }
}

/// Two byte strings are equal up to ASCII case.
pub open spec fn spec_ascii_case_eq(a: Seq<u8>, b: Seq<u8>) -> bool {
    &&& a.len() == b.len()
    &&& forall|i: int|
        0 <= i < a.len() ==> spec_to_ascii_lower(a[i]) == spec_to_ascii_lower(b[i])
}

/// The last-occurrence position is -1 or a valid index.
proof fn lemma_last_index_of_range(p: Seq<u8>, c: u8)
    ensures
        -1 <= spec_last_index_of(p, c) < p.len(),
    decreases p.len(),
{
    if p.len() > 0 && p.last() != c {
        lemma_last_index_of_range(p.drop_last(), c);
    }
}

/// In two byte strings equal up to ASCII case, a byte that no case change
/// can produce or destroy — one that is not a letter — occurs last at the
/// same position.
proof fn lemma_case_eq_same_last_index(a: Seq<u8>, b: Seq<u8>, c: u8)
    requires
        spec_ascii_case_eq(a, b),
        !(0x41 <= c <= 0x5a),
        !(0x61 <= c <= 0x7a),
    ensures
        spec_last_index_of(a, c) == spec_last_index_of(b, c),
    decreases a.len(),
{
    if a.len() > 0 {
        assert(spec_to_ascii_lower(a.last()) == spec_to_ascii_lower(b.last()));
        assert(a.last() == c <==> b.last() == c);
        if a.last() != c {
            assert(spec_ascii_case_eq(a.drop_last(), b.drop_last()));
            lemma_case_eq_same_last_index(a.drop_last(), b.drop_last(), c);
        }
    }
}

/// The extension check is case-insensitive: two paths equal up to ASCII
/// case are either both accepted or both rejected.
pub proof fn lemma_extension_check_case_insensitive(a: Seq<u8>, b: Seq<u8>)
    requires
        spec_ascii_case_eq(a, b),
    ensures
        spec_has_wav_extension(a) == spec_has_wav_extension(b),
{
    lemma_case_eq_same_last_index(a, b, 0x2f);
    lemma_case_eq_same_last_index(a, b, 0x2e);
    lemma_last_index_of_range(a, 0x2f);
    lemma_last_index_of_range(a, 0x2e);
    let slash = spec_last_index_of(a, 0x2f);
    let dot = spec_last_index_of(a, 0x2e);
    if dot >= slash + 2 && a.len() == dot + 4 {
        assert(spec_to_ascii_lower(a[dot + 1]) == spec_to_ascii_lower(b[dot + 1]));
        assert(spec_to_ascii_lower(a[dot + 2]) == spec_to_ascii_lower(b[dot + 2]));
        assert(spec_to_ascii_lower(a[dot + 3]) == spec_to_ascii_lower(b[dot + 3]));
    }
}

} // verus!
