use musicplayer::wav::{WavError, WavFile};

fn chunk(id: &[u8; 4], body: &[u8]) -> Vec<u8> {
    let mut v = id.to_vec();
    v.extend_from_slice(&(body.len() as u32).to_le_bytes());
    v.extend_from_slice(body);
    if body.len() % 2 == 1 {
        v.push(0);
    }
    v
}

fn fixed_header() -> Vec<u8> {
    let mut v = b"RIFF".to_vec();
    v.extend_from_slice(&1000u32.to_le_bytes());
    v.extend_from_slice(b"WAVE");
    v.extend_from_slice(b"fmt ");
    v.extend_from_slice(&16u32.to_le_bytes());
    v.extend_from_slice(&1u16.to_le_bytes());
    v.extend_from_slice(&2u16.to_le_bytes());
    v.extend_from_slice(&44_100u32.to_le_bytes());
    v.extend_from_slice(&176_400u32.to_le_bytes());
    v.extend_from_slice(&4u16.to_le_bytes());
    v.extend_from_slice(&16u16.to_le_bytes());
    v
}

fn with_chunks(chunks: &[Vec<u8>]) -> Vec<u8> {
    let mut v = fixed_header();
    for c in chunks {
        v.extend_from_slice(c);
    }
    v
}

#[test]
fn plain_header() {
    let mut bytes = with_chunks(&[chunk(b"data", &[1, 2, 3, 4])]);
    bytes.truncate(44);
    let w = WavFile::new("tracks/a.wav", &bytes).unwrap();
    assert_eq!(w.riff, "RIFF");
    assert_eq!(w.file_size, 1000);
    assert_eq!(w.file_format, "WAVE");
    assert_eq!(w.format_id, "fmt ");
    assert_eq!(w.chunk_size, 16);
    assert_eq!(w.fmt, 1);
    assert_eq!(w.channels, 2);
    assert_eq!(w.sample_rate, 44_100);
    assert_eq!(w.byte_per_sec, 176_400);
    assert_eq!(w.byte_per_block, 4);
    assert_eq!(w.bit_depth, 16);
    assert_eq!(w.data_block_id, "data");
    assert_eq!(w.data_size, 4);
    assert_eq!(w.data_start, 44);
    assert_eq!(w.title, "Untitled");
    assert_eq!(w.artist, "Unknown Artist");
    assert_eq!(w.album, "-");
    assert_eq!(w.path, "tracks/a.wav");
}

#[test]
fn info_tags_are_read() {
    let list_body = {
        let mut v = b"INFO".to_vec();
        v.extend(chunk(b"INAM", b"Song\0"));
        v.extend(chunk(b"IART", b"Band"));
        v.extend(chunk(b"IPRD", b"Record\0\0"));
        v
    };
    let bytes = with_chunks(&[chunk(b"LIST", &list_body), chunk(b"data", &[0; 8])]);
    let w = WavFile::new("x.wav", &bytes).unwrap();
    assert_eq!(w.title, "Song");
    assert_eq!(w.artist, "Band");
    assert_eq!(w.album, "Record");
    assert_eq!(w.data_size, 8);
    assert_eq!(w.data_start as usize, bytes.len() - 8);
}

#[test]
fn invalid_utf8_in_tag_is_replaced() {
    let bytes = with_chunks(&[chunk(b"INAM", &[0x41, 0xFF, 0x42]), chunk(b"data", &[])]);
    let w = WavFile::new("x.wav", &bytes).unwrap();
    assert_eq!(w.title, "A\u{FFFD}B");
}

#[test]
fn later_tag_wins() {
    let bytes = with_chunks(&[chunk(b"IART", b"One"), chunk(b"IART", b"Two"), chunk(b"data", &[])]);
    assert_eq!(WavFile::new("x.wav", &bytes).unwrap().artist, "Two");
}

#[test]
fn other_list_and_unknown_chunks_are_skipped() {
    let list_body = {
        let mut v = b"adtl".to_vec();
        v.extend(chunk(b"INAM", b"hidden"));
        v
    };
    let bytes = with_chunks(&[chunk(b"LIST", &list_body), chunk(b"fact", &[1, 2, 3]), chunk(b"data", &[9, 9])]);
    let w = WavFile::new("x.wav", &bytes).unwrap();
    assert_eq!(w.title, "Untitled");
    assert_eq!(w.data_size, 2);
    assert_eq!(w.data_start as usize, bytes.len() - 2);
}

#[test]
fn odd_data_size_is_kept_as_declared() {
    let mut bytes = fixed_header();
    bytes.extend_from_slice(b"data");
    bytes.extend_from_slice(&5u32.to_le_bytes());
    let w = WavFile::new("x.wav", &bytes).unwrap();
    assert_eq!(w.data_size, 5);
    assert_eq!(w.data_start, 44);
}

#[test]
fn exact_minimal_file() {
    let mut bytes = b"RIFF".to_vec();
    bytes.extend_from_slice(&40u32.to_le_bytes());
    bytes.extend_from_slice(b"WAVEfmt ");
    bytes.extend_from_slice(&16u32.to_le_bytes());
    bytes.extend_from_slice(&[1, 0, 2, 0]);
    bytes.extend_from_slice(&44100u32.to_le_bytes());
    bytes.extend_from_slice(&176400u32.to_le_bytes());
    bytes.extend_from_slice(&[4, 0, 16, 0]);
    bytes.extend_from_slice(b"data");
    bytes.extend_from_slice(&4u32.to_le_bytes());
    bytes.extend_from_slice(&[0; 4]);
    let w = WavFile::new("t.wav", &bytes).unwrap();
    assert_eq!(w.format_id, "fmt ");
    assert_eq!(w.file_size, 40);
    assert_eq!(w.data_size, 4);
    assert_eq!(w.data_start, 44);
    assert_eq!(w.path, "t.wav");
}

#[test]
fn exact_tagged_file() {
    let mut bytes = b"RIFF".to_vec();
    bytes.extend_from_slice(&78u32.to_le_bytes());
    bytes.extend_from_slice(b"WAVEfmt ");
    bytes.extend_from_slice(&16u32.to_le_bytes());
    bytes.extend_from_slice(&[1, 0, 2, 0]);
    bytes.extend_from_slice(&44100u32.to_le_bytes());
    bytes.extend_from_slice(&176400u32.to_le_bytes());
    bytes.extend_from_slice(&[4, 0, 16, 0]);
    bytes.extend_from_slice(b"LIST");
    bytes.extend_from_slice(&30u32.to_le_bytes());
    bytes.extend_from_slice(b"INFOINAM");
    bytes.extend_from_slice(&5u32.to_le_bytes());
    bytes.extend_from_slice(b"Song\0\0IART");
    bytes.extend_from_slice(&4u32.to_le_bytes());
    bytes.extend_from_slice(b"Banddata");
    bytes.extend_from_slice(&4u32.to_le_bytes());
    bytes.extend_from_slice(&[0; 4]);
    let w = WavFile::new("s.wav", &bytes).unwrap();
    assert_eq!(w.title, "Song");
    assert_eq!(w.artist, "Band");
    assert_eq!(w.album, "-");
    assert_eq!(w.data_size, 4);
    assert_eq!(w.data_start, 82);
}

#[test]
fn unknown_chunk_only_moves_the_data() {
    let base = with_chunks(&[chunk(b"IART", b"Band"), chunk(b"data", &[1, 2])]);
    let mut bigger = fixed_header();
    bigger.extend(chunk(b"junk", &[7, 7, 7]));
    bigger.extend_from_slice(&base[36..]);
    let a = WavFile::new("x", &base).unwrap();
    let b = WavFile::new("x", &bigger).unwrap();
    assert_eq!(b.data_start, a.data_start + 8 + 4);
    assert_eq!(b.data_size, a.data_size);
    assert_eq!(b.artist, a.artist);
    assert_eq!(b.title, a.title);
}

#[test]
fn not_riff() {
    let mut bytes = with_chunks(&[chunk(b"data", &[])]);
    bytes[0] = b'r';
    assert_eq!(WavFile::new("x", &bytes).unwrap_err(), WavError::MissingRiffTag);
}

#[test]
fn not_wave() {
    let mut bytes = with_chunks(&[chunk(b"data", &[])]);
    bytes[8..12].copy_from_slice(b"AVI ");
    assert_eq!(WavFile::new("x", &bytes).unwrap_err(), WavError::MissingWaveTag);
}

#[test]
fn short_files() {
    assert_eq!(WavFile::new("x", b"RI").unwrap_err(), WavError::UnexpectedEof);
    assert_eq!(WavFile::new("x", b"RIFF\0\0\0\0WA").unwrap_err(), WavError::UnexpectedEof);
    let header = fixed_header();
    assert_eq!(WavFile::new("x", &header[..30]).unwrap_err(), WavError::UnexpectedEof);
    assert_eq!(WavFile::new("x", &header).unwrap_err(), WavError::UnexpectedEof);
    let mut bytes = header.clone();
    bytes.extend_from_slice(b"data\x04\0");
    assert_eq!(WavFile::new("x", &bytes).unwrap_err(), WavError::UnexpectedEof);
}

#[test]
fn tag_longer_than_file() {
    let mut bytes = fixed_header();
    bytes.extend_from_slice(b"INAM");
    bytes.extend_from_slice(&100u32.to_le_bytes());
    bytes.extend_from_slice(b"short");
    assert_eq!(WavFile::new("x", &bytes).unwrap_err(), WavError::UnexpectedEof);
}

#[test]
fn skip_past_end() {
    let mut bytes = fixed_header();
    bytes.extend_from_slice(b"junk");
    bytes.extend_from_slice(&100u32.to_le_bytes());
    bytes.extend_from_slice(b"data\0\0\0\0");
    assert_eq!(WavFile::new("x", &bytes).unwrap_err(), WavError::UnexpectedEof);
}

#[test]
fn oversized_chunk() {
    let mut bytes = fixed_header();
    bytes.extend_from_slice(b"junk");
    bytes.extend_from_slice(&u32::MAX.to_le_bytes());
    assert_eq!(WavFile::new("x", &bytes).unwrap_err(), WavError::ChunkSizeOverflow);
}

#[test]
fn short_list_chunk_seeks_back() {
    // A LIST chunk of size 0 that is not INFO: the walk moves back over the
    // four bytes of its form type and reads them as the next chunk id.
    let mut bytes = fixed_header();
    bytes.extend_from_slice(b"LIST");
    bytes.extend_from_slice(&0u32.to_le_bytes());
    bytes.extend_from_slice(b"data");
    bytes.extend_from_slice(&2u32.to_le_bytes());
    let w = WavFile::new("x", &bytes).unwrap();
    assert_eq!(w.data_size, 2);
    assert_eq!(w.data_start, 52);
}

#[test]
fn duration_and_format_check() {
    let mut bytes = fixed_header();
    bytes.extend_from_slice(b"data");
    bytes.extend_from_slice(&(176_400u32 * 75 + 44).to_le_bytes());
    let w = WavFile::new("x", &bytes).unwrap();
    assert!(w.is_pcm16());
    assert_eq!(w.duration(), (1, 15));
    let mut bytes = fixed_header();
    bytes.extend_from_slice(b"data");
    bytes.extend_from_slice(&176_400u32.to_le_bytes());
    assert_eq!(WavFile::new("x", &bytes).unwrap().duration(), (0, 1));
    let mut bytes8 = bytes.clone();
    bytes8[34] = 8;
    assert!(!WavFile::new("x", &bytes8).unwrap().is_pcm16());
}

#[test]
fn data_size_is_declared_and_start_in_file() {
    for size in [0u32, 1, 2, 7, 100] {
        let mut bytes = fixed_header();
        bytes.extend(chunk(b"ISFT", b"x"));
        bytes.extend_from_slice(b"data");
        bytes.extend_from_slice(&size.to_le_bytes());
        let w = WavFile::new("x", &bytes).unwrap();
        let start = w.data_start as usize;
        assert_eq!(w.data_size, u32::from_le_bytes(bytes[start - 4..start].try_into().unwrap()));
        assert!(44 <= start && start <= bytes.len());
    }
}

#[test]
fn unknown_chunk_later_in_the_walk_only_moves_the_data() {
    let tail = [chunk(b"IART", b"Band"), chunk(b"data", &[1, 2])];
    let base = with_chunks(&[chunk(b"INAM", b"Song"), tail[0].clone(), tail[1].clone()]);
    let bigger = with_chunks(&[chunk(b"INAM", b"Song"), chunk(b"junk", &[7; 5]), tail[0].clone(), tail[1].clone()]);
    let a = WavFile::new("x", &base).unwrap();
    let b = WavFile::new("x", &bigger).unwrap();
    assert_eq!(b.data_start, a.data_start + 8 + 6);
    assert_eq!((b.title, b.artist, b.data_size), (a.title, a.artist, a.data_size));
}
