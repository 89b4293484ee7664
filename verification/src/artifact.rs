//! Artifact naming: a probe snippet is materialized in the scratch
//! directory under a name derived from a hash of its contents, so repeated
//! or concurrent runs writing the same snippet reuse one file and differing
//! snippets never share one.

use vstd::prelude::*;

use crate::text::str_chars;

verus! {

pub const FNV_OFFSET: u64 = 0xcbf2_9ce4_8422_2325;

pub const FNV_PRIME: u64 = 0x0000_0100_0000_01b3;

/// The 64-bit FNV-1a hash of the characters' code points.
pub open spec fn spec_content_hash(s: Seq<char>) -> u64
    decreases s.len(),
{
    if s.len() == 0 {
        FNV_OFFSET
    } else {
        vstd::wrapping::u64_specs::wrapping_mul(
            spec_content_hash(s.drop_last()) ^ ((s.last() as u32) as u64),
            FNV_PRIME,
        )
    }
}

/// The hexadecimal digit for a value below sixteen.
pub open spec fn spec_hex_digit(n: u64) -> char {
    if n < 10 {
        ((48 + n) as u8) as char
    } else {
        ((87 + n) as u8) as char
    }
}

/// The sixteen-digit hexadecimal form of a 64-bit value, most significant
/// nibble first.
pub open spec fn spec_hex64(x: u64) -> Seq<char> {
    Seq::new(16, |i: int| spec_hex_digit((x >> ((60 - 4 * i) as u64)) & 0xf))
}

/// The content hash of a snippet text.
pub fn content_hash(s: &str) -> (r: u64)
    ensures
        r == spec_content_hash(s@),
{
    let chars = str_chars(s);
    let mut h: u64 = FNV_OFFSET;
    let mut i: usize = 0;
    while i < chars.len()
        invariant
            chars@ == s@,
            i <= chars@.len(),
            h == spec_content_hash(chars@.take(i as int)),
        decreases chars@.len() - i,
    {
        let c = chars[i];
        h = (h ^ ((c as u32) as u64)).wrapping_mul(FNV_PRIME);
        i += 1;
        proof {
            assert(chars@.take(i as int).drop_last() =~= chars@.take(i as int - 1));
            assert(chars@.take(i as int).last() == c);
        }
    }
    proof {
        assert(chars@.take(chars@.len() as int) =~= s@);
    }
    h
}

/// The file name a snippet's artifact is written under: the snippet's
/// content hash in hexadecimal, between a fixed stem and the source suffix.
pub fn artifact_name(snippet: &str) -> (r: String)
    ensures
        r@ == "probe_"@ + spec_hex64(spec_content_hash(snippet@)) + ".rs"@,
{
    let h = content_hash(snippet);
    let table = "0123456789abcdef";
    proof {
        reveal_strlit("0123456789abcdef");
    }
    let mut out = String::from_str("probe_");
    let mut i: usize = 0;
    while i < 16
        invariant
            h == spec_content_hash(snippet@),
            table@ == "0123456789abcdef"@,
            table@.len() == 16,
            forall|k: int| 0 <= k < 16 ==> table@[k] == spec_hex_digit(k as u64),
            i <= 16,
            out@ == "probe_"@ + spec_hex64(h).take(i as int),
        decreases 16 - i,
    {
        let sh = (60 - 4 * i) as u64;
        let nib = (h >> sh) & 0xf;
        proof {
            let ghost g = h >> sh;
            assert((g & 0xf) < 16) by (bit_vector);
        }
        let d = table.substring_char(nib as usize, nib as usize + 1);
        out.append(d);
        i += 1;
        proof {
            assert(d@ =~= table@.subrange(nib as int, nib as int + 1));
            assert(d@[0] == spec_hex_digit(nib));
            assert(spec_hex64(h)[i - 1] == spec_hex_digit(nib));
            assert(out@ =~= "probe_"@ + spec_hex64(h).take(i as int));
        }
    }
    proof {
        assert(spec_hex64(h).take(16) =~= spec_hex64(h));
    }
    out.append(".rs");
    proof {
        assert(out@ =~= "probe_"@ + spec_hex64(spec_content_hash(snippet@)) + ".rs"@);
    }
    out
}

} // verus!
