use musicplayer::pcm::samples_from_le_bytes;
use musicplayer::playlist::is_wav_file_name;

#[test]
fn samples_are_little_endian_signed() {
    assert_eq!(samples_from_le_bytes(&[0x01, 0x00, 0xFF, 0xFF, 0x00, 0x80, 0xFF, 0x7F]), vec![1, -1, -32768, 32767]);
    assert_eq!(samples_from_le_bytes(&[0x34, 0x12, 0x99]), vec![0x1234]);
    assert_eq!(samples_from_le_bytes(&[]), Vec::<i16>::new());
}

#[test]
fn samples_match_std() {
    let bytes: Vec<u8> = (0..=255u8).chain((0..=255u8).rev()).collect();
    let expected: Vec<i16> = bytes.chunks(2).map(|c| i16::from_le_bytes([c[0], c[1]])).collect();
    assert_eq!(samples_from_le_bytes(&bytes), expected);
}

#[test]
fn wav_names() {
    assert!(is_wav_file_name(b"song.wav"));
    assert!(is_wav_file_name(b"SONG.WAV"));
    assert!(is_wav_file_name(b"a.wAv"));
    assert!(is_wav_file_name(b"x.mp3.wav"));
    assert!(!is_wav_file_name(b".wav"));
    assert!(!is_wav_file_name(b"song.wave"));
    assert!(!is_wav_file_name(b"song.mp3"));
    assert!(!is_wav_file_name(b"songwav"));
    assert!(!is_wav_file_name(b"wav"));
}
