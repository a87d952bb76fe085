//! The four-byte frame header of an MPEG-1 Layer III (`.mp3`) stream.
use vstd::prelude::*;

verus! {

/// Why a four-byte frame header was refused.
#[derive(Debug, Clone, Copy, PartialEq, Eq, Structural)]
pub enum Mp3HeaderError {
    /// The eleven most significant bits are not all set.
    InvalidSyncWord,
    /// The version bits do not name MPEG 1.
    UnsupportedVersion,
    /// The layer bits do not name Layer III.
    UnsupportedLayer,
    /// The bit-rate index is `0b0000` (free format) or `0b1111` (bad).
    InvalidBitRate,
    /// The sample-rate index is the reserved `0b11`.
    InvalidSampleRate,
    /// The emphasis bits are not `0b00`.
    EmphasisNotSupported,
}

/// The decoded fields of an MPEG-1 Layer III frame header.
#[derive(Debug)]
pub struct Mp3Header {
    pub version: String,
    pub layer: String,
    /// Bit 15 of the header: `true` when the frame carries *no* CRC.
    pub error_protection: bool,
    /// Bits per second.
    pub bit_rate: u32,
    /// Samples per second.
    pub sample_rate: u32,
    pub padding: bool,
    pub mode: String,
    pub mode_extension: u8,
    pub copyrighted: bool,
    pub original: bool,
}

/// The header bytes read as one big-endian 32-bit word.
pub open spec fn header_word(b: Seq<u8>) -> int {
    b[0] * 0x100_0000 + b[1] * 0x1_0000 + b[2] * 0x100 + b[3]
}

/// The header word is big-endian: its most significant byte is the first.
pub proof fn lemma_header_word_big_endian(b: Seq<u8>)
    requires
        b.len() == 4,
    ensures
        0 <= header_word(b) < 0x1_0000_0000,
        header_word(b) / 0x100_0000 == b[0],
        header_word(b) % 0x100 == b[3],
        (header_word(b) / 0x1_0000) % 0x100 == b[1],
        (header_word(b) / 0x100) % 0x100 == b[2],
{
}

/// The `mask`-wide field of `w` that starts `shift` bits from the least significant end.
pub open spec fn field(w: u32, shift: u32, mask: u32) -> u32 {
    (w >> shift) & mask
}

/// Bit rate, in bits per second, of an MPEG-1 Layer III frame for a bit-rate index.
pub open spec fn layer3_bit_rate(index: u32) -> Option<u32> {
    if index == 1 { Some(32_000u32) }
    else if index == 2 { Some(40_000u32) }
    else if index == 3 { Some(48_000u32) }
    else if index == 4 { Some(56_000u32) }
    else if index == 5 { Some(64_000u32) }
    else if index == 6 { Some(80_000u32) }
    else if index == 7 { Some(96_000u32) }
    else if index == 8 { Some(112_000u32) }
    else if index == 9 { Some(128_000u32) }
    else if index == 10 { Some(160_000u32) }
    else if index == 11 { Some(192_000u32) }
    else if index == 12 { Some(224_000u32) }
    else if index == 13 { Some(256_000u32) }
    else if index == 14 { Some(320_000u32) }
    else { None }
}

/// Sample rate of an MPEG-1 frame for a sample-rate index, as ISO/IEC 11172-3 gives it.
pub open spec fn mpeg1_sample_rate(index: u32) -> Option<u32> {
    if index == 0 { Some(44_100u32) }
    else if index == 1 { Some(48_000u32) }
    else if index == 2 { Some(32_000u32) }
    else { None }
}

/// Name of the channel mode for the two mode bits.
pub open spec fn mode_name(index: u32) -> Seq<char> {
    if index == 0 { "Stereo"@ }
    else if index == 1 { "Joint Stereo"@ }
    else if index == 2 { "Dual Channel"@ }
    else { "Mono"@ }
}

/// The first check that the header word `w` fails, in the order the fields are read.
pub open spec fn header_error(w: u32) -> Option<Mp3HeaderError> {
    if field(w, 21, 0x7ff) != 0x7ff {
        Some(Mp3HeaderError::InvalidSyncWord)
    } else if field(w, 19, 3) != 3 {
        Some(Mp3HeaderError::UnsupportedVersion)
    } else if field(w, 17, 3) != 1 {
        Some(Mp3HeaderError::UnsupportedLayer)
    } else if layer3_bit_rate(field(w, 12, 0xf)) is None {
        Some(Mp3HeaderError::InvalidBitRate)
    } else if mpeg1_sample_rate(field(w, 10, 3)) is None {
        Some(Mp3HeaderError::InvalidSampleRate)
    } else if field(w, 0, 3) != 0 {
        Some(Mp3HeaderError::EmphasisNotSupported)
    } else {
        None
    }
}

/// `h` holds the fields that the accepted header word `w` encodes.
pub open spec fn decodes(h: Mp3Header, w: u32) -> bool {
    &&& h.version@ == "MPEG 1"@
    &&& h.layer@ == "III"@
    &&& h.error_protection == (field(w, 16, 1) == 1)
    &&& Some(h.bit_rate) == layer3_bit_rate(field(w, 12, 0xf))
    &&& Some(h.sample_rate) == mpeg1_sample_rate(field(w, 10, 3))
    &&& h.padding == (field(w, 9, 1) == 1)
    &&& h.mode@ == mode_name(field(w, 6, 3))
    &&& h.mode_extension == field(w, 4, 3)
    &&& h.copyrighted == (field(w, 3, 1) == 1)
    &&& h.original == (field(w, 2, 1) == 1)
}

/// The MPEG-1 Layer III bit rates of ISO/IEC 11172-3: for bit-rate indices 1 to 14,
/// 32, 40, 48, 56, 64, 80, 96, 112, 128, 160, 192, 224, 256 and 320 kbit/s;
/// index 0 (free format) and index 15 (bad) have none.
pub proof fn lemma_layer3_bit_rates()
    ensures
        layer3_bit_rate(0) is None,
        layer3_bit_rate(1) == Some(32_000u32),
        layer3_bit_rate(2) == Some(40_000u32),
        layer3_bit_rate(3) == Some(48_000u32),
        layer3_bit_rate(4) == Some(56_000u32),
        layer3_bit_rate(5) == Some(64_000u32),
        layer3_bit_rate(6) == Some(80_000u32),
        layer3_bit_rate(7) == Some(96_000u32),
        layer3_bit_rate(8) == Some(112_000u32),
        layer3_bit_rate(9) == Some(128_000u32),
        layer3_bit_rate(10) == Some(160_000u32),
        layer3_bit_rate(11) == Some(192_000u32),
        layer3_bit_rate(12) == Some(224_000u32),
        layer3_bit_rate(13) == Some(256_000u32),
        layer3_bit_rate(14) == Some(320_000u32),
        layer3_bit_rate(15) is None,
        forall|i: u32| i > 15 ==> layer3_bit_rate(i) is None,
{
}

/// The MPEG-1 sampling frequencies of ISO/IEC 11172-3: 44.1, 48 and 32 kHz for
/// indices 0, 1 and 2; index 3 is reserved.
pub proof fn lemma_mpeg1_sample_rates()
    ensures
        mpeg1_sample_rate(0) == Some(44_100u32),
        mpeg1_sample_rate(1) == Some(48_000u32),
        mpeg1_sample_rate(2) == Some(32_000u32),
        mpeg1_sample_rate(3) is None,
{
}

/// The channel modes of the two mode bits: stereo, joint stereo, dual channel, mono.
pub proof fn lemma_mode_names()
    ensures
        mode_name(0) == "Stereo"@,
        mode_name(1) == "Joint Stereo"@,
        mode_name(2) == "Dual Channel"@,
        mode_name(3) == "Mono"@,
{
}

fn bit_rate_for(index: u32) -> (r: Option<u32>)
    ensures
        r == layer3_bit_rate(index),
{
    match index {
        1 => Some(32_000),
        2 => Some(40_000),
        3 => Some(48_000),
        4 => Some(56_000),
        5 => Some(64_000),
        6 => Some(80_000),
        7 => Some(96_000),
        8 => Some(112_000),
        9 => Some(128_000),
        10 => Some(160_000),
        11 => Some(192_000),
        12 => Some(224_000),
        13 => Some(256_000),
        14 => Some(320_000),
        _ => None,
    }
}

fn sample_rate_for(index: u32) -> (r: Option<u32>)
    ensures
        r == mpeg1_sample_rate(index),
{
    match index {
        0 => Some(44_100),
        1 => Some(48_000),
        2 => Some(32_000),
        _ => None,
    }
}

fn mode_for(index: u32) -> (s: String)
    ensures
        s@ == mode_name(index),
{
    if index == 0 {
        String::from_str("Stereo")
    } else if index == 1 {
        String::from_str("Joint Stereo")
    } else if index == 2 {
        String::from_str("Dual Channel")
    } else {
        String::from_str("Mono")
    }
}

impl Mp3Header {
    /// Decodes the four header bytes, most significant first.
    pub fn new(bytes: [u8; 4]) -> (r: Result<Mp3Header, Mp3HeaderError>)
        ensures
            ({
                let w = header_word(bytes@) as u32;
                match r {
                    Ok(h) => header_error(w) is None && decodes(h, w),
                    Err(e) => header_error(w) == Some(e),
                }
            }),
    {
        let b0 = bytes[0];
        let b1 = bytes[1];
        let b2 = bytes[2];
        let b3 = bytes[3];
        let w: u32 = ((b0 as u32) << 24) | ((b1 as u32) << 16) | ((b2 as u32) << 8) | (b3 as u32);
        assert(w == header_word(bytes@)) by {
            assert(((b0 as u32) << 24) | ((b1 as u32) << 16) | ((b2 as u32) << 8) | (b3 as u32)
                == b0 * 0x100_0000 + b1 * 0x1_0000 + b2 * 0x100 + b3) by (bit_vector);
        }
        if (w >> 21) & 0x7ff != 0x7ff {
            return Err(Mp3HeaderError::InvalidSyncWord);
        }
        if (w >> 19) & 3 != 3 {
            return Err(Mp3HeaderError::UnsupportedVersion);
        }
        if (w >> 17) & 3 != 1 {
            return Err(Mp3HeaderError::UnsupportedLayer);
        }
        let error_protection = (w >> 16) & 1 == 1;
        let bit_rate = match bit_rate_for((w >> 12) & 0xf) {
            Some(r) => r,
            None => return Err(Mp3HeaderError::InvalidBitRate),
        };
        let sample_rate = match sample_rate_for((w >> 10) & 3) {
            Some(r) => r,
            None => return Err(Mp3HeaderError::InvalidSampleRate),
        };
        let padding = (w >> 9) & 1 == 1;
        let mode = mode_for((w >> 6) & 3);
        assert(((w >> 4) & 3) < 256) by (bit_vector);
        let mode_extension = ((w >> 4) & 3) as u8;
        let copyrighted = (w >> 3) & 1 == 1;
        let original = (w >> 2) & 1 == 1;
        assert(w & 3 == (w >> 0) & 3) by (bit_vector);
        if w & 3 != 0 {
            return Err(Mp3HeaderError::EmphasisNotSupported);
        }
        Ok(Mp3Header {
            version: String::from_str("MPEG 1"),
            layer: String::from_str("III"),
            error_protection,
            bit_rate,
            sample_rate,
            padding,
            mode,
            mode_extension,
            copyrighted,
            original,
        })
    }
}

} // verus!
