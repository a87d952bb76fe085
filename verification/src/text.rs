//! Text fields of a RIFF file: bytes read as lossy UTF-8 with NUL characters dropped.
use vstd::prelude::*;
use vstd::utf8::*;

verus! {

/// The characters that `String::from_utf8_lossy` makes of a byte sequence:
/// every maximal invalid UTF-8 sequence becomes U+FFFD.
pub uninterp spec fn lossy_utf8(bytes: Seq<u8>) -> Seq<char>;

/// The text that a RIFF chunk's bytes stand for: the lossy UTF-8 reading of
/// the bytes with every NUL character removed.
pub open spec fn chunk_text(bytes: Seq<u8>) -> Seq<char> {
    lossy_utf8(bytes).filter(|c: char| c != '\0')
}

/// `s` is the text of the chunk bytes `bytes`: their lossy reading without NULs,
/// which for valid UTF-8 is the decoded characters without NULs.
pub open spec fn is_text_of(s: Seq<char>, bytes: Seq<u8>) -> bool {
    &&& s == chunk_text(bytes)
    &&& valid_utf8(bytes) ==> s == decode_utf8(bytes).filter(|c: char| c != '\0')
}

/// The text of a chunk holds no NUL character.
pub proof fn lemma_text_has_no_nul(bytes: Seq<u8>, i: int)
    requires
        0 <= i < chunk_text(bytes).len(),
    ensures
        chunk_text(bytes)[i] != '\0',
{
    lossy_utf8(bytes).lemma_filter_pred(|c: char| c != '\0', i);
}

/// Bytes below 0x80 are valid UTF-8, each decoding to the character with the
/// same code.
pub proof fn lemma_ascii_decodes(b: Seq<u8>)
    requires
        forall|i: int| 0 <= i < b.len() ==> #[trigger] b[i] < 0x80,
    ensures
        valid_utf8(b),
        decode_utf8(b) == b.map_values(|x: u8| x as char),
    decreases b.len(),
{
    if b.len() > 0 {
        let rest = b.subrange(1, b.len() as int);
        assert forall|i: int| 0 <= i < rest.len() implies #[trigger] rest[i] < 0x80 by {
            assert(rest[i] == b[i + 1]);
        }
        lemma_ascii_decodes(rest);
        let c = b[0];
        assert(c < 0x80);
        assert((c & 0x7f) as u32 == c as u32) by (bit_vector)
            requires c < 0x80;
        assert(is_leading_byte_width_1(c));
        assert(decode_first_codepoint(b) == c as u32);
        assert(length_of_first_scalar(b) == 1);
        assert(pop_first_scalar(b) =~= rest);
        assert(valid_first_scalar(b));
        assert(decode_utf8(b) =~= b.map_values(|x: u8| x as char)) by {
            assert(decode_utf8(b) == seq![decode_first_scalar(b) as char] + decode_utf8(rest));
            assert forall|i: int| 0 <= i < b.len() implies decode_utf8(b)[i] == b.map_values(|x: u8| x as char)[i] by {
                if i > 0 {
                    assert(rest[i - 1] == b[i]);
                }
            }
        }
    }
}

/// Calls `String::from_utf8_lossy`. Trusted: its result is `lossy_utf8` of the
/// bytes, and, as the std documentation says, bytes that are valid UTF-8 are
/// decoded unchanged. Nothing is stated of how invalid sequences are replaced
/// beyond the name.
#[verifier::external_body]
fn utf8_lossy(bytes: &[u8]) -> (s: String)
    ensures
        s@ == lossy_utf8(bytes@),
        valid_utf8(bytes@) ==> s@ == decode_utf8(bytes@),
{
    String::from_utf8_lossy(bytes).into_owned()
}

/// Calls `str::replace` with the pattern `"\0"` and an empty replacement.
/// Trusted: the result holds the characters of `s` in order, without the NULs.
#[verifier::external_body]
fn without_nul(s: &str) -> (r: String)
    ensures
        r@ == s@.filter(|c: char| c != '\0'),
{
    s.replace("\0", "")
}

/// Reads the bytes of a chunk as text.
pub fn text_from_bytes(bytes: &[u8]) -> (s: String)
    ensures
        is_text_of(s@, bytes@),
{
    let lossy = utf8_lossy(bytes);
    without_nul(lossy.as_str())
}

} // verus!
