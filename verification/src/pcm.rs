//! Signed 16-bit PCM samples stored little-endian, two bytes each.
use vstd::prelude::*;

verus! {

/// The signed 16-bit sample whose little-endian bytes start at `at`.
pub open spec fn le_i16(b: Seq<u8>, at: int) -> int {
    let v = b[at] + b[at + 1] * 0x100;
    if v >= 0x8000 { v - 0x1_0000 } else { v }
}

/// A sample is the signed 16-bit number whose two's-complement bits are the two
/// bytes, the first one the low byte: it lies in the range of `i16` and agrees with
/// `low + 256 * high` modulo 65536.
pub proof fn lemma_sample_is_twos_complement(b: Seq<u8>, at: int)
    requires
        0 <= at && at + 1 < b.len(),
    ensures
        -0x8000 <= le_i16(b, at) < 0x8000,
        (le_i16(b, at) - (b[at] + 256 * b[at + 1])) % 0x1_0000 == 0,
{
}

fn sample_at(bytes: &[u8], at: usize) -> (s: i16)
    requires
        at + 2 <= bytes.len(),
    ensures
        s == le_i16(bytes@, at as int),
{
    let lo = bytes[at];
    let hi = bytes[at + 1];
    if hi < 0x80 {
        (hi as i16) * 0x100 + lo as i16
    } else {
        ((hi as i16) - 0x100) * 0x100 + lo as i16
    }
}

/// The samples in `bytes`, one for each complete pair of bytes; a trailing odd byte is left out.
pub fn samples_from_le_bytes(bytes: &[u8]) -> (samples: Vec<i16>)
    ensures
        samples.len() == bytes.len() / 2,
        forall|k: int| 0 <= k < samples.len() ==> #[trigger] samples[k] == le_i16(bytes@, 2 * k),
{
    let count = bytes.len() / 2;
    let mut samples: Vec<i16> = Vec::with_capacity(count);
    let mut k: usize = 0;
    while k < count
        invariant
            k <= count,
            count == bytes.len() / 2,
            samples.len() == k,
            forall|j: int| 0 <= j < k ==> #[trigger] samples[j] == le_i16(bytes@, 2 * j),
        decreases count - k,
    {
        samples.push(sample_at(bytes, 2 * k));
        k += 1;
    }
    samples
}

} // verus!
