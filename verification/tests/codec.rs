use std::io::Write;

use trek::codec::{compress, decompress};

#[test]
fn round_trip_preserves_text() {
    let text = "Package: curl\nVersion: 8.1.0\n";
    let compressed = compress(text);
    let decoded = decompress(&compressed).expect("own compression must decode");
    assert_eq!(decoded, text);
}

#[test]
fn decompress_recompress_decompress_is_identity() {
    // Compress with flate2 directly, at a non-default level, so the first
    // decompression sees a buffer the library did not produce itself.
    let original = "Package: bash\nVersion: 5.2\nArchitecture: amd64\n";
    let mut encoder =
        flate2::write::GzEncoder::new(Vec::new(), flate2::Compression::best());
    encoder.write_all(original.as_bytes()).unwrap();
    let foreign = encoder.finish().unwrap();

    let first = decompress(&foreign).expect("valid gzip text must decode");
    let recompressed = compress(&first);
    let second = decompress(&recompressed).expect("valid gzip text must decode");
    assert_eq!(first, original);
    assert_eq!(second, first);
}

#[test]
fn empty_text_round_trips() {
    let compressed = compress("");
    let decoded = decompress(&compressed).unwrap();
    assert_eq!(decoded, "");
}

#[test]
fn invalid_stream_is_rejected() {
    assert!(decompress(&vec![]).is_err());
    assert!(decompress(&vec![0x00, 0x01, 0x02, 0x03]).is_err());
    // A gzip magic number alone is not a valid stream either.
    assert!(decompress(&vec![0x1f, 0x8b]).is_err());
}

#[test]
fn non_utf8_payload_is_rejected() {
    let mut encoder =
        flate2::write::GzEncoder::new(Vec::new(), flate2::Compression::default());
    encoder.write_all(&[0xff, 0xfe, 0x80]).unwrap();
    let bytes = encoder.finish().unwrap();
    assert!(decompress(&bytes).is_err());
}
