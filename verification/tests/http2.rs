use colosseo_core::http2_fingerprint::{Http2Rotator, Http2Settings};
use colosseo_core::models::{PollConfig, TaskPriority};

#[test]
fn test_chrome_settings() {
    let settings = Http2Settings::chrome();
    assert!(!settings.enable_push); // Chrome disables push
    assert!(settings.initial_window_size >= 6291456);
}

#[test]
fn test_frame_bytes() {
    let settings = Http2Settings::chrome();
    let frame = settings.to_frame_bytes();

    // Frame should have at least header (9 bytes) + some settings
    assert!(frame.len() > 9);

    // First byte of type should be 0x04 (SETTINGS)
    assert_eq!(frame[3], 0x04);
}

#[test]
fn test_fingerprint_hash() {
    let settings1 = Http2Settings::chrome();
    let settings2 = Http2Settings::chrome();

    // Same settings should produce same hash
    assert_eq!(
        settings1.fingerprint_hash(),
        settings1.fingerprint_hash()
    );

    // Different settings likely produce different hashes
    // (but could theoretically collide)
    assert_ne!(
        settings1.fingerprint_hash(),
        settings2.fingerprint_hash()
    );
}

#[test]
fn test_frame_bytes_exact_layout() {
    let settings = Http2Settings {
        header_table_size: 65536,
        enable_push: false,
        max_concurrent_streams: 256,
        initial_window_size: 6291456,
        max_frame_size: 16384,
        max_header_list_size: None,
    };
    let frame = settings.to_frame_bytes();
    // 9-byte header + five 6-byte settings pairs.
    assert_eq!(frame.len(), 39);
    // Payload length 30, big-endian over 3 bytes.
    assert_eq!(&frame[0..3], &[0, 0, 30]);
    // Type SETTINGS, no flags, stream id 0.
    assert_eq!(&frame[3..9], &[4, 0, 0, 0, 0, 0]);
    // HEADER_TABLE_SIZE = 65536.
    assert_eq!(&frame[9..15], &[0, 1, 0, 1, 0, 0]);
    // ENABLE_PUSH = 0.
    assert_eq!(&frame[15..21], &[0, 2, 0, 0, 0, 0]);
    // MAX_CONCURRENT_STREAMS = 256.
    assert_eq!(&frame[21..27], &[0, 3, 0, 0, 1, 0]);
    // INITIAL_WINDOW_SIZE = 6291456 = 0x600000.
    assert_eq!(&frame[27..33], &[0, 4, 0, 96, 0, 0]);
    // MAX_FRAME_SIZE = 16384 = 0x4000.
    assert_eq!(&frame[33..39], &[0, 5, 0, 0, 64, 0]);

    // A bounded header list adds one more pair.
    let with_limit = Http2Settings {
        max_header_list_size: Some(4096),
        ..settings
    };
    let frame = with_limit.to_frame_bytes();
    assert_eq!(frame.len(), 45);
    assert_eq!(&frame[0..3], &[0, 0, 36]);
    assert_eq!(&frame[39..45], &[0, 6, 0, 0, 16, 0]);
}

#[test]
fn test_fingerprint_hash_is_hex() {
    let settings = Http2Settings::firefox();
    let hash = settings.fingerprint_hash();
    assert_eq!(hash.len(), 16);
    assert!(hash.chars().all(|c| c.is_ascii_hexdigit() && !c.is_ascii_uppercase()));
}

#[test]
fn test_browser_shapes() {
    let firefox = Http2Settings::firefox();
    assert!(firefox.enable_push);
    assert!(firefox.max_concurrent_streams <= 250);
    let safari = Http2Settings::safari();
    assert_eq!(safari.max_concurrent_streams, 100);
    assert_eq!(safari.max_frame_size, 16384);
    let any = Http2Settings::randomized();
    assert_eq!(any.max_frame_size, 16384);
    let wild = Http2Settings::fully_random();
    assert!(wild.header_table_size >= 4096);
    assert!(wild.max_concurrent_streams >= 1);
}

#[test]
fn test_rotator_cycles() {
    let mut rotator = Http2Rotator::new(3);
    let first = *rotator.current();
    let second = *rotator.rotate();
    let third = *rotator.rotate();
    let wrapped = *rotator.rotate();
    assert_eq!(first, wrapped);
    // The cursor visited each pool slot once before wrapping.
    let _ = (second, third);
}

#[test]
fn test_rotator_single_entry() {
    let mut rotator = Http2Rotator::new(1);
    let only = *rotator.current();
    assert_eq!(*rotator.rotate(), only);
    assert_eq!(*rotator.rotate(), only);
}

#[test]
fn test_semaphore_permits() {
    assert_eq!(TaskPriority::Critical.semaphore_permits(), 100);
    assert_eq!(TaskPriority::High.semaphore_permits(), 50);
    assert_eq!(TaskPriority::Normal.semaphore_permits(), 20);
    assert_eq!(TaskPriority::Low.semaphore_permits(), 10);
}

#[test]
fn test_poll_config_default() {
    let config = PollConfig::default();
    assert_eq!(config.base_interval_ms, 5000);
    assert_eq!(config.jitter_percent, 30);
    assert!(config.adaptive);
}
