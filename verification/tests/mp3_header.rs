use musicplayer::mp3::{Mp3Header, Mp3HeaderError};

#[test]
fn common_joint_stereo_header() {
    let h = Mp3Header::new([0xFF, 0xFB, 0x90, 0x64]).unwrap();
    assert_eq!(h.version, "MPEG 1");
    assert_eq!(h.layer, "III");
    assert!(h.error_protection);
    assert_eq!(h.bit_rate, 128_000);
    assert_eq!(h.sample_rate, 44_100);
    assert!(!h.padding);
    assert_eq!(h.mode, "Joint Stereo");
    assert_eq!(h.mode_extension, 2);
    assert!(!h.copyrighted);
    assert!(h.original);
}

#[test]
fn every_field_set() {
    // bit rate index 14, sample rate index 2, padding, mono, extension 3, copyright, original
    let h = Mp3Header::new([0xFF, 0xFA, 0xEA, 0xFC]).unwrap();
    assert!(!h.error_protection);
    assert_eq!(h.bit_rate, 320_000);
    assert_eq!(h.sample_rate, 32_000);
    assert!(h.padding);
    assert_eq!(h.mode, "Mono");
    assert_eq!(h.mode_extension, 3);
    assert!(h.copyrighted);
    assert!(h.original);
}

#[test]
fn stereo_and_dual_channel_modes() {
    assert_eq!(Mp3Header::new([0xFF, 0xFB, 0x14, 0x00]).unwrap().mode, "Stereo");
    assert_eq!(Mp3Header::new([0xFF, 0xFB, 0x14, 0x80]).unwrap().mode, "Dual Channel");
    let h = Mp3Header::new([0xFF, 0xFB, 0x14, 0x00]).unwrap();
    assert_eq!(h.bit_rate, 32_000);
    assert_eq!(h.sample_rate, 48_000);
}

#[test]
fn bad_sync_word() {
    assert_eq!(Mp3Header::new([0xFF, 0xDB, 0x90, 0x64]).unwrap_err(), Mp3HeaderError::InvalidSyncWord);
    assert_eq!(Mp3Header::new([0x49, 0x44, 0x33, 0x04]).unwrap_err(), Mp3HeaderError::InvalidSyncWord);
}

#[test]
fn mpeg2_is_unsupported() {
    assert_eq!(Mp3Header::new([0xFF, 0xF3, 0x90, 0x64]).unwrap_err(), Mp3HeaderError::UnsupportedVersion);
}

#[test]
fn layer2_is_unsupported() {
    assert_eq!(Mp3Header::new([0xFF, 0xFD, 0x90, 0x64]).unwrap_err(), Mp3HeaderError::UnsupportedLayer);
}

#[test]
fn free_and_bad_bit_rates() {
    assert_eq!(Mp3Header::new([0xFF, 0xFB, 0x00, 0x64]).unwrap_err(), Mp3HeaderError::InvalidBitRate);
    assert_eq!(Mp3Header::new([0xFF, 0xFB, 0xF0, 0x64]).unwrap_err(), Mp3HeaderError::InvalidBitRate);
}

#[test]
fn reserved_sample_rate() {
    assert_eq!(Mp3Header::new([0xFF, 0xFB, 0x9C, 0x64]).unwrap_err(), Mp3HeaderError::InvalidSampleRate);
}

#[test]
fn emphasis_is_refused_last() {
    assert_eq!(Mp3Header::new([0xFF, 0xFB, 0x90, 0x65]).unwrap_err(), Mp3HeaderError::EmphasisNotSupported);
    // a bad bit rate is reported before the emphasis
    assert_eq!(Mp3Header::new([0xFF, 0xFB, 0x00, 0x66]).unwrap_err(), Mp3HeaderError::InvalidBitRate);
}
