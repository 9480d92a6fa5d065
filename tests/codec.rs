use ngenrs::zip::{compress, decompress, CompressionFormat};

const FORMATS: [CompressionFormat; 3] =
    [CompressionFormat::Gzip, CompressionFormat::Zlib, CompressionFormat::Raw];

#[test]
fn round_trip_in_every_format() {
    let text = b"the quick brown fox jumps over the lazy dog, again and again and again".to_vec();
    for format in FORMATS {
        for data in [Vec::new(), text.clone(), vec![0u8; 100_000]] {
            let packed = compress(&data, format).unwrap();
            assert_ne!(packed, data);
            assert_eq!(decompress(&packed, format).unwrap(), data);
        }
    }
}

#[test]
fn compression_shrinks_repetitive_input() {
    let data = vec![b'a'; 10_000];
    for format in FORMATS {
        assert!(compress(&data, format).unwrap().len() < 200);
    }
}

#[test]
fn gzip_stream_starts_with_magic() {
    let packed = compress(b"abc", CompressionFormat::Gzip).unwrap();
    assert_eq!(&packed[..2], &[0x1f, 0x8b]);
    for format in FORMATS {
        assert!(!compress(b"", format).unwrap().is_empty());
    }
    let z = compress(b"abc", CompressionFormat::Zlib).unwrap();
    assert_eq!(z[0], 0x78);
}

#[test]
fn malformed_stream_fails() {
    assert!(decompress(b"definitely not gzip", CompressionFormat::Gzip).is_err());
    assert!(decompress(b"definitely not zlib", CompressionFormat::Zlib).is_err());
}

#[test]
fn format_codes() {
    assert_eq!(CompressionFormat::from_code(0), Some(CompressionFormat::Gzip));
    assert_eq!(CompressionFormat::from_code(1), Some(CompressionFormat::Zlib));
    assert_eq!(CompressionFormat::from_code(2), Some(CompressionFormat::Raw));
    assert_eq!(CompressionFormat::from_code(3), None);
    assert_eq!(CompressionFormat::from_code(-1), None);
}
