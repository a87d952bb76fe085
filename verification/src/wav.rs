//! The header of a RIFF/WAVE file, read from the file's bytes.
use vstd::prelude::*;
use crate::text::{is_text_of, text_from_bytes};

verus! {

/// Why the bytes of a file were not accepted as a WAVE header.
#[derive(Debug, Clone, Copy, PartialEq, Eq, Structural)]
pub enum WavError {
    /// A field or chunk runs past the end of the file.
    UnexpectedEof,
    /// The first four bytes are not `RIFF`.
    MissingRiffTag,
    /// Bytes 8 to 11 are not `WAVE`.
    MissingWaveTag,
    /// A chunk declares the odd size `0xffff_ffff`, whose padded size does not fit in 32 bits.
    ChunkSizeOverflow,
}

/// The most relevant header data of a WAVE file.
#[derive(Debug)]
pub struct WavFile {
    /// Bytes 0-3: `RIFF`.
    pub riff: String,
    /// Bytes 4-7: the file size minus 8.
    pub file_size: u32,
    /// Bytes 8-11: `WAVE`.
    pub file_format: String,
    /// Bytes 12-15: the id of the format chunk, usually `fmt `.
    pub format_id: String,
    /// Bytes 16-19: the size of the format chunk.
    pub chunk_size: u32,
    /// Bytes 20-21: the audio format, 1 for PCM.
    pub fmt: u16,
    /// Bytes 22-23: the number of channels.
    pub channels: u16,
    /// Bytes 24-27: samples per second.
    pub sample_rate: u32,
    /// Bytes 28-31: bytes per second.
    pub byte_per_sec: u32,
    /// Bytes 32-33: bytes per sample frame.
    pub byte_per_block: u16,
    /// Bytes 34-35: bits per sample.
    pub bit_depth: u16,
    /// The id of the data chunk: `data`.
    pub data_block_id: String,
    /// The size of the data section, as its chunk header declares it.
    pub data_size: u32,
    /// The `INAM` tag, or `Untitled`.
    pub title: String,
    /// The `IART` tag, or `Unknown Artist`.
    pub artist: String,
    /// The `IPRD` tag, or `-`.
    pub album: String,
    /// Where the file was read from.
    pub path: String,
    /// The offset of the first byte of audio data.
    pub data_start: u64,
}

/// The little-endian 16-bit value at `at`.
pub open spec fn le16(b: Seq<u8>, at: int) -> int {
    b[at] + b[at + 1] * 0x100
}

/// The little-endian 32-bit value at `at`.
pub open spec fn le32(b: Seq<u8>, at: int) -> int {
    b[at] + b[at + 1] * 0x100 + b[at + 2] * 0x1_0000 + b[at + 3] * 0x100_0000
}

/// The four bytes at `at` are the chunk id `id`.
pub open spec fn has_id(b: Seq<u8>, at: int, id: Seq<u8>) -> bool {
    at + 4 <= b.len() && b.subrange(at, at + 4) == id
}

/// `RIFF`
pub open spec fn riff_id() -> Seq<u8> { seq![0x52u8, 0x49u8, 0x46u8, 0x46u8] }
/// `WAVE`
pub open spec fn wave_id() -> Seq<u8> { seq![0x57u8, 0x41u8, 0x56u8, 0x45u8] }
/// `data`
pub open spec fn data_id() -> Seq<u8> { seq![0x64u8, 0x61u8, 0x74u8, 0x61u8] }
/// `LIST`
pub open spec fn list_id() -> Seq<u8> { seq![0x4cu8, 0x49u8, 0x53u8, 0x54u8] }
/// `INFO`
pub open spec fn info_id() -> Seq<u8> { seq![0x49u8, 0x4eu8, 0x46u8, 0x4fu8] }
/// `INAM`, the title tag
pub open spec fn title_id() -> Seq<u8> { seq![0x49u8, 0x4eu8, 0x41u8, 0x4du8] }
/// `IART`, the artist tag
pub open spec fn artist_id() -> Seq<u8> { seq![0x49u8, 0x41u8, 0x52u8, 0x54u8] }
/// `IPRD`, the product (album) tag
pub open spec fn album_id() -> Seq<u8> { seq![0x49u8, 0x50u8, 0x52u8, 0x44u8] }

/// Multi-byte fields are little-endian: the first byte is the least significant.
pub proof fn lemma_fields_little_endian(b: Seq<u8>, at: int)
    requires
        0 <= at && at + 4 <= b.len(),
    ensures
        0 <= le16(b, at) < 0x1_0000,
        le16(b, at) % 0x100 == b[at],
        le16(b, at) / 0x100 == b[at + 1],
        0 <= le32(b, at) < 0x1_0000_0000,
        le32(b, at) == le16(b, at) + 0x1_0000 * le16(b, at + 2),
{
}

/// The chunk ids are the ASCII letters they are named by.
pub proof fn lemma_chunk_ids_spell_their_names()
    ensures
        riff_id() == seq!['R' as u8, 'I' as u8, 'F' as u8, 'F' as u8],
        wave_id() == seq!['W' as u8, 'A' as u8, 'V' as u8, 'E' as u8],
        data_id() == seq!['d' as u8, 'a' as u8, 't' as u8, 'a' as u8],
        list_id() == seq!['L' as u8, 'I' as u8, 'S' as u8, 'T' as u8],
        info_id() == seq!['I' as u8, 'N' as u8, 'F' as u8, 'O' as u8],
        title_id() == seq!['I' as u8, 'N' as u8, 'A' as u8, 'M' as u8],
        artist_id() == seq!['I' as u8, 'A' as u8, 'R' as u8, 'T' as u8],
        album_id() == seq!['I' as u8, 'P' as u8, 'R' as u8, 'D' as u8],
{
}

/// The bytes of the last title, artist and album tag met so far.
pub struct TagBytes {
    pub title: Option<Seq<u8>>,
    pub artist: Option<Seq<u8>>,
    pub album: Option<Seq<u8>>,
}

/// No tag met yet.
pub open spec fn no_tags() -> TagBytes {
    TagBytes { title: None, artist: None, album: None }
}

/// `s` is the text of the tag, or `default` when the tag was never met.
pub open spec fn is_tag_text(s: Seq<char>, tag: Option<Seq<u8>>, default: Seq<char>) -> bool {
    match tag {
        Some(b) => is_text_of(s, b),
        None => s == default,
    }
}

/// `b` holds one of the three tag chunks at `pos`.
pub open spec fn is_tag_chunk(b: Seq<u8>, pos: int) -> bool {
    has_id(b, pos, title_id()) || has_id(b, pos, artist_id()) || has_id(b, pos, album_id())
}

/// The tags after reading `text` from the tag chunk at `pos`: it replaces the
/// tag that the chunk id names.
pub open spec fn with_tag(b: Seq<u8>, pos: int, tags: TagBytes, text: Seq<u8>) -> TagBytes {
    if has_id(b, pos, title_id()) {
        TagBytes { title: Some(text), artist: tags.artist, album: tags.album }
    } else if has_id(b, pos, artist_id()) {
        TagBytes { title: tags.title, artist: Some(text), album: tags.album }
    } else {
        TagBytes { title: tags.title, artist: tags.artist, album: Some(text) }
    }
}

/// A chunk's size rounded up to even: RIFF pads odd chunks with one byte.
pub open spec fn padded(size: int) -> int {
    size + size % 2
}

/// How much of the file is left from `pos` on, for termination.
pub open spec fn room(len: int, pos: int) -> nat {
    if pos <= len { (len - pos + 1) as nat } else { 0 }
}

/// Walks the chunks that follow the format fields, from offset `pos`, until the
/// data chunk. Reading `n` bytes succeeds when they are all in the file; skipping
/// may move past the end, after which the next chunk header cannot be read.
/// On success: the declared size of the data chunk, the offset of its first byte,
/// and the tags met on the way.
pub open spec fn scan_chunks(b: Seq<u8>, pos: int, tags: TagBytes) -> Result<(int, int, TagBytes), WavError>
    decreases room(b.len() as int, pos),
{
    if pos + 8 > b.len() {
        Err(WavError::UnexpectedEof)
    } else if le32(b, pos + 4) == 0xffff_ffff {
        Err(WavError::ChunkSizeOverflow)
    } else {
        let size = padded(le32(b, pos + 4));
        let body = pos + 8;
        if has_id(b, pos, data_id()) {
            Ok((le32(b, pos + 4), body, tags))
        } else if has_id(b, pos, list_id()) {
            if body + 4 > b.len() {
                Err(WavError::UnexpectedEof)
            } else if has_id(b, body, info_id()) {
                scan_chunks(b, body + 4, tags)
            } else {
                scan_chunks(b, body + size, tags)
            }
        } else if is_tag_chunk(b, pos) {
            if body + size > b.len() {
                Err(WavError::UnexpectedEof)
            } else {
                let tags2 = with_tag(b, pos, tags, b.subrange(body, body + size));
                scan_chunks(b, body + size, tags2)
            }
        } else {
            scan_chunks(b, body + size, tags)
        }
    }
}

/// The outcome of reading a whole header from the file's bytes `b`: the error, or
/// what `scan_chunks` finds after the 36 bytes of fixed fields.
pub open spec fn wav_header(b: Seq<u8>) -> Result<(int, int, TagBytes), WavError> {
    if b.len() < 4 {
        Err(WavError::UnexpectedEof)
    } else if !has_id(b, 0, riff_id()) {
        Err(WavError::MissingRiffTag)
    } else if b.len() < 12 {
        Err(WavError::UnexpectedEof)
    } else if !has_id(b, 8, wave_id()) {
        Err(WavError::MissingWaveTag)
    } else if b.len() < 36 {
        Err(WavError::UnexpectedEof)
    } else {
        scan_chunks(b, 36, no_tags())
    }
}

/// The chunk walk from `pos` finds a data chunk whose size is the one its header
/// declares and whose first byte lies in the file, past the chunk header at `pos`.
proof fn lemma_scan_data_chunk(b: Seq<u8>, pos: int, tags: TagBytes)
    ensures
        scan_chunks(b, pos, tags) matches Ok((size, start, _)) ==> {
            &&& pos + 8 <= start <= b.len()
            &&& size == le32(b, start - 4)
        },
    decreases room(b.len() as int, pos),
{
    if pos + 8 <= b.len() && le32(b, pos + 4) != 0xffff_ffff {
        let size = padded(le32(b, pos + 4));
        let body = pos + 8;
        if has_id(b, pos, data_id()) {
        } else if has_id(b, pos, list_id()) {
            if body + 4 <= b.len() {
                if has_id(b, body, info_id()) {
                    lemma_scan_data_chunk(b, body + 4, tags);
                } else {
                    lemma_scan_data_chunk(b, body + size, tags);
                }
            }
        } else if is_tag_chunk(b, pos) {
            if body + size <= b.len() {
                let tags2 = with_tag(b, pos, tags, b.subrange(body, body + size));
                lemma_scan_data_chunk(b, body + size, tags2);
            }
        } else {
            lemma_scan_data_chunk(b, body + size, tags);
        }
    }
}

/// In every header that is read, the data size is the size that the four bytes
/// before the audio data declare, and the audio data starts after the 44 bytes
/// of the shortest header and no later than the end of the file.
pub proof fn lemma_data_chunk_declared_and_in_file(b: Seq<u8>)
    ensures
        wav_header(b) matches Ok((size, start, _)) ==> {
            &&& size == le32(b, start - 4)
            &&& 44 <= start <= b.len()
        },
{
    if b.len() >= 36 {
        lemma_scan_data_chunk(b, 36, no_tags());
    }
}

/// The outcome of a chunk walk with the offset of the audio data moved by `k`.
pub open spec fn shifted(r: Result<(int, int, TagBytes), WavError>, k: int) -> Result<(int, int, TagBytes), WavError> {
    match r {
        Ok((size, start, tags)) => Ok((size, start + k, tags)),
        Err(e) => Err(e),
    }
}

/// `b2` holds from `p2` on exactly the bytes that `b` holds from `p` on.
pub open spec fn same_from(b: Seq<u8>, p: int, b2: Seq<u8>, p2: int) -> bool {
    &&& 0 <= p
    &&& 0 <= p2
    &&& b2.len() - p2 == b.len() - p
    &&& forall|j: int| p <= j < b.len() ==> #[trigger] b[j] == b2[j - p + p2]
}

/// The chunk walk reads nothing before its starting offset: two files that agree
/// from there on give the same outcome, with the audio data moved by the
/// difference of the offsets.
proof fn lemma_scan_reads_only_suffix(b: Seq<u8>, p: int, b2: Seq<u8>, p2: int, tags: TagBytes)
    requires
        same_from(b, p, b2, p2),
    ensures
        scan_chunks(b2, p2, tags) == shifted(scan_chunks(b, p, tags), p2 - p),
    decreases room(b.len() as int, p),
{
    let k = p2 - p;
    if p + 8 <= b.len() {
        assert(b2[p2 + 4] == b[p + 4] && b2[p2 + 5] == b[p + 5] && b2[p2 + 6] == b[p + 6] && b2[p2 + 7] == b[p + 7]);
        assert(le32(b2, p2 + 4) == le32(b, p + 4));
        assert(b2.subrange(p2, p2 + 4) =~= b.subrange(p, p + 4));
        if le32(b, p + 4) != 0xffff_ffff {
            let size = padded(le32(b, p + 4));
            let body = p + 8;
            if has_id(b, p, data_id()) {
            } else if has_id(b, p, list_id()) {
                if body + 4 <= b.len() {
                    assert(b2.subrange(p2 + 8, p2 + 12) =~= b.subrange(body, body + 4));
                    if has_id(b, body, info_id()) {
                        lemma_scan_reads_only_suffix(b, body + 4, b2, p2 + 12, tags);
                    } else {
                        lemma_scan_reads_only_suffix(b, body + size, b2, p2 + 8 + size, tags);
                    }
                }
            } else if is_tag_chunk(b, p) {
                if body + size <= b.len() {
                    assert(b2.subrange(p2 + 8, p2 + 8 + size) =~= b.subrange(body, body + size));
                    let tags2 = with_tag(b, p, tags, b.subrange(body, body + size));
                    lemma_scan_reads_only_suffix(b, body + size, b2, p2 + 8 + size, tags2);
                }
            } else {
                lemma_scan_reads_only_suffix(b, body + size, b2, p2 + 8 + size, tags);
            }
        }
    }
}

/// A chunk whose id the walk does not know is skipped, pad byte included, with
/// no other effect: inserting one with id `id`, size field `size_field` and body
/// `body` where the walk stands at `p` leaves its outcome unchanged but for the
/// offset of the audio data, which moves by the length of the inserted chunk.
pub proof fn lemma_unknown_chunk_only_shifts(
    b: Seq<u8>,
    p: int,
    id: Seq<u8>,
    size_field: Seq<u8>,
    body: Seq<u8>,
    tags: TagBytes,
)
    requires
        0 <= p <= b.len(),
        id.len() == 4,
        id != data_id() && id != list_id() && id != title_id() && id != artist_id() && id != album_id(),
        size_field.len() == 4,
        le32(size_field, 0) != 0xffff_ffff,
        body.len() == padded(le32(size_field, 0)),
    ensures
        scan_chunks(b.take(p) + id + size_field + body + b.skip(p), p, tags)
            == shifted(scan_chunks(b, p, tags), 8 + body.len() as int),
{
    let b2 = b.take(p) + id + size_field + body + b.skip(p);
    let n = 8 + body.len();
    assert(b2.subrange(p, p + 4) =~= id);
    assert(b2[p + 4] == size_field[0] && b2[p + 5] == size_field[1] && b2[p + 6] == size_field[2] && b2[p + 7] == size_field[3]);
    assert(le32(b2, p + 4) == le32(size_field, 0));
    assert forall|j: int| p <= j < b.len() implies #[trigger] b[j] == b2[j - p + (p + n)] by {
        assert(b2[j + n] == b.skip(p)[j - p]);
    }
    lemma_scan_reads_only_suffix(b, p, b2, p + n, tags);
}

/// Where the walk goes on after the chunk at `pos`, with the tags it then holds,
/// when it neither stops nor fails at that chunk.
pub open spec fn walk_step(b: Seq<u8>, pos: int, tags: TagBytes) -> Option<(int, TagBytes)> {
    let size = padded(le32(b, pos + 4));
    let body = pos + 8;
    if pos + 8 > b.len() || le32(b, pos + 4) == 0xffff_ffff || has_id(b, pos, data_id()) {
        None
    } else if has_id(b, pos, list_id()) {
        if body + 4 > b.len() {
            None
        } else if has_id(b, body, info_id()) {
            Some((body + 4, tags))
        } else {
            Some((body + size, tags))
        }
    } else if is_tag_chunk(b, pos) {
        if body + size > b.len() {
            None
        } else {
            Some((body + size, with_tag(b, pos, tags, b.subrange(body, body + size))))
        }
    } else {
        Some((body + size, tags))
    }
}

/// The offset just past the last byte that the walk reads of the chunk at `pos`.
pub open spec fn read_end(b: Seq<u8>, pos: int) -> int {
    if has_id(b, pos, list_id()) {
        pos + 12
    } else if is_tag_chunk(b, pos) {
        pos + 8 + padded(le32(b, pos + 4))
    } else {
        pos + 8
    }
}

/// The walk from `pos` with tags `tags` comes to the chunk boundary `q` holding
/// the tags `tq`, having read only bytes before `q` on the way.
pub open spec fn reaches(b: Seq<u8>, pos: int, tags: TagBytes, q: int, tq: TagBytes) -> bool
    decreases room(b.len() as int, pos),
{
    if pos == q && tags == tq {
        true
    } else if pos + 8 > b.len() || le32(b, pos + 4) == 0xffff_ffff {
        false
    } else {
        match walk_step(b, pos, tags) {
            Some((next, tags2)) => read_end(b, pos) <= q && reaches(b, next, tags2, q, tq),
            None => false,
        }
    }
}

/// A walk that comes to a boundary ends as the walk from that boundary does.
proof fn lemma_reached_boundary_same_outcome(b: Seq<u8>, p: int, t: TagBytes, q: int, tq: TagBytes)
    requires
        reaches(b, p, t, q, tq),
    ensures
        p <= q,
        scan_chunks(b, p, t) == scan_chunks(b, q, tq),
    decreases room(b.len() as int, p),
{
    if !(p == q && t == tq) {
        let (next, t2) = walk_step(b, p, t).unwrap();
        lemma_reached_boundary_same_outcome(b, next, t2, q, tq);
    }
}

/// Whether the walk comes to a boundary depends only on the bytes before it.
proof fn lemma_reaching_reads_only_prefix(b: Seq<u8>, b2: Seq<u8>, p: int, t: TagBytes, q: int, tq: TagBytes)
    requires
        reaches(b, p, t, q, tq),
        0 <= p,
        q <= b2.len(),
        forall|j: int| 0 <= j < q ==> #[trigger] b2[j] == b[j],
    ensures
        reaches(b2, p, t, q, tq),
    decreases room(b.len() as int, p),
{
    if !(p == q && t == tq) {
        let (next, t2) = walk_step(b, p, t).unwrap();
        let size = padded(le32(b, p + 4));
        let body = p + 8;
        assert(p + 8 <= read_end(b, p) <= q);
        assert(b2[p + 4] == b[p + 4] && b2[p + 5] == b[p + 5] && b2[p + 6] == b[p + 6] && b2[p + 7] == b[p + 7]);
        assert(b2.subrange(p, p + 4) =~= b.subrange(p, p + 4));
        if has_id(b, p, list_id()) {
            assert(b2.subrange(body, body + 4) =~= b.subrange(body, body + 4));
        } else if is_tag_chunk(b, p) {
            assert(b2.subrange(body, body + size) =~= b.subrange(body, body + size));
        }
        assert(walk_step(b2, p, t) == walk_step(b, p, t));
        assert(read_end(b2, p) == read_end(b, p));
        lemma_reached_boundary_same_outcome(b, next, t2, q, tq);
        lemma_reaching_reads_only_prefix(b, b2, next, t2, q, tq);
    }
}

/// The same law for a whole file: an unknown chunk inserted at any chunk
/// boundary `q` that the walk from the end of the format fields comes to changes
/// nothing in the header read but the offset of the audio data, which moves by
/// the length of the inserted chunk.
pub proof fn lemma_unknown_chunk_in_file_only_shifts(
    b: Seq<u8>,
    q: int,
    tq: TagBytes,
    id: Seq<u8>,
    size_field: Seq<u8>,
    body: Seq<u8>,
)
    requires
        36 <= b.len(),
        q <= b.len(),
        reaches(b, 36, no_tags(), q, tq),
        id.len() == 4,
        id != data_id() && id != list_id() && id != title_id() && id != artist_id() && id != album_id(),
        size_field.len() == 4,
        le32(size_field, 0) != 0xffff_ffff,
        body.len() == padded(le32(size_field, 0)),
    ensures
        wav_header(b.take(q) + id + size_field + body + b.skip(q))
            == shifted(wav_header(b), 8 + body.len() as int),
{
    let b2 = b.take(q) + id + size_field + body + b.skip(q);
    lemma_reached_boundary_same_outcome(b, 36, no_tags(), q, tq);
    assert forall|j: int| 0 <= j < q implies #[trigger] b2[j] == b[j] by {
        assert(b2[j] == b.take(q)[j]);
    }
    lemma_reaching_reads_only_prefix(b, b2, 36, no_tags(), q, tq);
    lemma_reached_boundary_same_outcome(b2, 36, no_tags(), q, tq);
    lemma_unknown_chunk_only_shifts(b, q, id, size_field, body, tq);
    assert(b2.subrange(0, 4) =~= b.subrange(0, 4));
    assert(b2.subrange(8, 12) =~= b.subrange(8, 12));
}

/// `w` holds the fixed fields of the header in `b`.
pub open spec fn fixed_fields(w: WavFile, b: Seq<u8>) -> bool {
    &&& w.riff@ == "RIFF"@
    &&& w.file_size == le32(b, 4)
    &&& w.file_format@ == "WAVE"@
    &&& is_text_of(w.format_id@, b.subrange(12, 16))
    &&& w.chunk_size == le32(b, 16)
    &&& w.fmt == le16(b, 20)
    &&& w.channels == le16(b, 22)
    &&& w.sample_rate == le32(b, 24)
    &&& w.byte_per_sec == le32(b, 28)
    &&& w.byte_per_block == le16(b, 32)
    &&& w.bit_depth == le16(b, 34)
    &&& w.data_block_id@ == "data"@
}

/// `w` holds what the chunk walk found: data chunk and tags.
pub open spec fn chunk_fields(w: WavFile, data_size: int, data_start: int, tags: TagBytes) -> bool {
    &&& w.data_size == data_size
    &&& w.data_start == data_start
    &&& is_tag_text(w.title@, tags.title, "Untitled"@)
    &&& is_tag_text(w.artist@, tags.artist, "Unknown Artist"@)
    &&& is_tag_text(w.album@, tags.album, "-"@)
}

fn le_u16(b: &[u8], at: usize) -> (r: u16)
    requires
        at + 2 <= b.len(),
    ensures
        r == le16(b@, at as int),
{
    b[at] as u16 + (b[at + 1] as u16) * 0x100
}

fn le_u32(b: &[u8], at: usize) -> (r: u32)
    requires
        at + 4 <= b.len(),
    ensures
        r == le32(b@, at as int),
{
    b[at] as u32 + (b[at + 1] as u32) * 0x100 + (b[at + 2] as u32) * 0x1_0000
        + (b[at + 3] as u32) * 0x100_0000
}

fn id_at(b: &[u8], at: usize, c0: u8, c1: u8, c2: u8, c3: u8) -> (r: bool)
    requires
        at + 4 <= b.len(),
    ensures
        r == has_id(b@, at as int, seq![c0, c1, c2, c3]),
{
    let r = b[at] == c0 && b[at + 1] == c1 && b[at + 2] == c2 && b[at + 3] == c3;
    proof {
        let s = b@.subrange(at as int, at + 4);
        if r {
            assert(s =~= seq![c0, c1, c2, c3]);
        } else {
            assert(s.len() == 4);
            assert(s[0] == b@[at as int] && s[1] == b@[at + 1] && s[2] == b@[at + 2] && s[3] == b@[at + 3]);
            assert(s != seq![c0, c1, c2, c3]);
        }
    }
    r
}

/// What the chunk walk found.
struct ChunkInfo {
    data_size: u32,
    data_start: u64,
    title: String,
    artist: String,
    album: String,
}

/// Walks the chunks after the fixed fields, as `scan_chunks` describes.
fn read_chunks(bytes: &[u8]) -> (r: Result<ChunkInfo, WavError>)
    requires
        36 <= bytes.len(),
    ensures
        match r {
            Ok(c) => match scan_chunks(bytes@, 36, no_tags()) {
                Ok((size, start, tags)) => {
                    &&& c.data_size == size
                    &&& c.data_start == start
                    &&& is_tag_text(c.title@, tags.title, "Untitled"@)
                    &&& is_tag_text(c.artist@, tags.artist, "Unknown Artist"@)
                    &&& is_tag_text(c.album@, tags.album, "-"@)
                },
                Err(_) => false,
            },
            Err(e) => scan_chunks(bytes@, 36, no_tags()) == Err::<(int, int, TagBytes), WavError>(e),
        },
{
    let len = bytes.len();
    let ghost b = bytes@;
    let mut title = String::from_str("Untitled");
    let mut artist = String::from_str("Unknown Artist");
    let mut album = String::from_str("-");
    let ghost mut tags = no_tags();
    let mut pos: usize = 36;
    loop
        invariant
            36 <= pos <= len,
            len == b.len(),
            b == bytes@,
            scan_chunks(b, 36, no_tags()) == scan_chunks(b, pos as int, tags),
            is_tag_text(title@, tags.title, "Untitled"@),
            is_tag_text(artist@, tags.artist, "Unknown Artist"@),
            is_tag_text(album@, tags.album, "-"@),
        decreases len - pos,
    {
        if len - pos < 8 {
            return Err(WavError::UnexpectedEof);
        }
        let declared = le_u32(bytes, pos + 4);
        if declared == 0xffff_ffff {
            return Err(WavError::ChunkSizeOverflow);
        }
        let size = declared + declared % 2;
        assert(size == padded(le32(b, pos + 4)));
        let body = pos + 8;
        if id_at(bytes, pos, 0x64, 0x61, 0x74, 0x61) {
            return Ok(ChunkInfo { data_size: declared, data_start: body as u64, title, artist, album });
        }
        if id_at(bytes, pos, 0x4c, 0x49, 0x53, 0x54) {
            if len - body < 4 {
                return Err(WavError::UnexpectedEof);
            }
            if id_at(bytes, body, 0x49, 0x4e, 0x46, 0x4f) {
                pos = body + 4;
                continue;
            }
        } else {
            let is_title = id_at(bytes, pos, 0x49, 0x4e, 0x41, 0x4d);
            let is_artist = id_at(bytes, pos, 0x49, 0x41, 0x52, 0x54);
            let is_album = id_at(bytes, pos, 0x49, 0x50, 0x52, 0x44);
            if is_title || is_artist || is_album {
                if len - body < size as usize {
                    return Err(WavError::UnexpectedEof);
                }
                let end = body + size as usize;
                let text = text_from_bytes(&bytes[body..end]);
                proof {
                    tags = with_tag(b, pos as int, tags, b.subrange(body as int, end as int));
                }
                if is_title {
                    title = text;
                } else if is_artist {
                    artist = text;
                } else {
                    album = text;
                }
                pos = end;
                continue;
            }
        }
        // Skip the chunk; a skip past the end leaves no room for the next chunk header.
        if len - body < size as usize {
            assert(scan_chunks(b, body + size, tags) == Err::<(int, int, TagBytes), WavError>(WavError::UnexpectedEof));
            return Err(WavError::UnexpectedEof);
        }
        pos = body + size as usize;
    }
}

/// The play time of the data section in whole seconds: the data size divided by
/// the bytes per sample frame, divided by the sample rate.
pub open spec fn track_seconds(w: WavFile) -> int {
    (w.data_size as int / (w.channels * (w.bit_depth / 8))) / (w.sample_rate as int)
}

/// The track length is the number of whole seconds that the data section plays:
/// that many seconds of sample frames fit in the data size, one more do not.
pub proof fn lemma_track_seconds_fit(w: WavFile)
    requires
        w.channels * (w.bit_depth / 8) > 0,
        w.sample_rate > 0,
    ensures
        ({
            let per_second = w.channels * (w.bit_depth / 8) * w.sample_rate;
            &&& track_seconds(w) >= 0
            &&& track_seconds(w) * per_second <= w.data_size
            &&& w.data_size < (track_seconds(w) + 1) * per_second
        }),
{
    let f = w.channels * (w.bit_depth / 8);
    let r = w.sample_rate as int;
    let d = w.data_size as int;
    let frames = d / f;
    let t = frames / r;
    assert(0 <= t && t * (f * r) <= d && d < (t + 1) * (f * r)) by (nonlinear_arith)
        requires f > 0, r > 0, d >= 0, frames == d / f, t == frames / r;
}

impl WavFile {
    /// Whether the track holds PCM samples of 16 bits, the only kind this player sends to the device.
    pub fn is_pcm16(&self) -> (r: bool)
        ensures
            r == (self.fmt == 1 && self.bit_depth == 16),
    {
        self.fmt == 1 && self.bit_depth == 16
    }

    /// The length of the track, as minutes and seconds.
    pub fn duration(&self) -> (r: (u64, u64))
        requires
            self.channels * (self.bit_depth / 8) > 0,
            self.sample_rate > 0,
        ensures
            r.0 == track_seconds(*self) / 60,
            r.1 == track_seconds(*self) % 60,
    {
        let channels = self.channels as u64;
        let sample_bytes = self.bit_depth as u64 / 8;
        assert(channels * sample_bytes <= 0xffff * 0x2000) by (nonlinear_arith)
            requires channels <= 0xffff, sample_bytes <= 0x2000;
        let frame_bytes = channels * sample_bytes;
        let length = (self.data_size as u64 / frame_bytes) / self.sample_rate as u64;
        (length / 60, length % 60)
    }

    /// Reads the header of the WAVE file whose bytes are `bytes` and which was
    /// read from `path`.
    ///
    /// The chunk ids are compared byte for byte: a four-byte id reads as the
    /// text `RIFF` (or `WAVE`, `data`, ...) exactly when its bytes are those letters.
    pub fn new(path: &str, bytes: &[u8]) -> (r: Result<WavFile, WavError>)
        ensures
            match r {
                Ok(w) => match wav_header(bytes@) {
                    Ok((size, start, tags)) => {
                        &&& fixed_fields(w, bytes@)
                        &&& chunk_fields(w, size, start, tags)
                        &&& w.path@ == path@
                    },
                    Err(_) => false,
                },
                Err(e) => wav_header(bytes@) == Err::<(int, int, TagBytes), WavError>(e),
            },
    {
        let len = bytes.len();
        if len < 4 {
            return Err(WavError::UnexpectedEof);
        }
        if !id_at(bytes, 0, 0x52, 0x49, 0x46, 0x46) {
            return Err(WavError::MissingRiffTag);
        }
        if len < 12 {
            return Err(WavError::UnexpectedEof);
        }
        if !id_at(bytes, 8, 0x57, 0x41, 0x56, 0x45) {
            return Err(WavError::MissingWaveTag);
        }
        if len < 36 {
            return Err(WavError::UnexpectedEof);
        }
        let chunks = match read_chunks(bytes) {
            Ok(c) => c,
            Err(e) => return Err(e),
        };
        Ok(WavFile {
            riff: String::from_str("RIFF"),
            file_size: le_u32(bytes, 4),
            file_format: String::from_str("WAVE"),
            format_id: text_from_bytes(&bytes[12..16]),
            chunk_size: le_u32(bytes, 16),
            fmt: le_u16(bytes, 20),
            channels: le_u16(bytes, 22),
            sample_rate: le_u32(bytes, 24),
            byte_per_sec: le_u32(bytes, 28),
            byte_per_block: le_u16(bytes, 32),
            bit_depth: le_u16(bytes, 34),
            data_block_id: String::from_str("data"),
            data_size: chunks.data_size,
            title: chunks.title,
            artist: chunks.artist,
            album: chunks.album,
            path: String::from_str(path),
            data_start: chunks.data_start,
        })
    }
}

} // verus!
