use terminar_core::history::{
    compress_history, decompress_history, should_compress, CircularBuffer, CodecError,
    COMPRESSION_THRESHOLD, ZSTD_OUT_OF_MEMORY,
    DEFAULT_HISTORY_CAPACITY,
};

#[test]
fn test_empty_buffer() {
    let buf = CircularBuffer::new(100);
    assert!(buf.is_empty());
    assert_eq!(buf.len(), 0);
    assert_eq!(buf.to_vec(), Vec::<u8>::new());
}

#[test]
fn test_push_within_capacity() {
    let mut buf = CircularBuffer::new(100);
    buf.push(b"hello");
    assert_eq!(buf.len(), 5);
    assert_eq!(buf.to_vec(), b"hello".to_vec());
}

#[test]
fn test_push_exactly_capacity() {
    let mut buf = CircularBuffer::new(5);
    buf.push(b"hello");
    assert_eq!(buf.len(), 5);
    assert_eq!(buf.to_vec(), b"hello".to_vec());
}

#[test]
fn test_push_wrapping() {
    let mut buf = CircularBuffer::new(5);
    buf.push(b"hello");
    buf.push(b"XY");
    assert_eq!(buf.len(), 5);
    assert_eq!(buf.to_vec(), b"lloXY".to_vec());
}

#[test]
fn test_push_larger_than_capacity() {
    let mut buf = CircularBuffer::new(5);
    buf.push(b"hello world");
    assert_eq!(buf.len(), 5);
    assert_eq!(buf.to_vec(), b"world".to_vec());
}

#[test]
fn test_multiple_pushes() {
    let mut buf = CircularBuffer::new(10);
    buf.push(b"aaa");
    buf.push(b"bbb");
    buf.push(b"ccc");
    assert_eq!(buf.len(), 9);
    assert_eq!(buf.to_vec(), b"aaabbbccc".to_vec());
}

#[test]
fn test_multiple_pushes_with_wrap() {
    let mut buf = CircularBuffer::new(10);
    buf.push(b"12345");
    buf.push(b"67890");
    buf.push(b"abc");
    assert_eq!(buf.len(), 10);
    assert_eq!(buf.to_vec(), b"4567890abc".to_vec());
}

#[test]
fn test_clear() {
    let mut buf = CircularBuffer::new(100);
    buf.push(b"hello");
    buf.clear();
    assert!(buf.is_empty());
    assert_eq!(buf.len(), 0);
    assert_eq!(buf.to_vec(), Vec::<u8>::new());
}

#[test]
fn test_push_empty() {
    let mut buf = CircularBuffer::new(100);
    buf.push(b"hello");
    buf.push(b"");
    assert_eq!(buf.len(), 5);
    assert_eq!(buf.to_vec(), b"hello".to_vec());
}

#[test]
fn test_clone() {
    let mut buf = CircularBuffer::new(10);
    buf.push(b"hello");
    let cloned = buf.clone();
    assert_eq!(buf.to_vec(), cloned.to_vec());
    assert_eq!(buf.len(), cloned.len());
}

#[test]
fn test_compression_threshold_is_1mb() {
    assert_eq!(COMPRESSION_THRESHOLD, 1024 * 1024);
}

#[test]
fn test_should_compress_below_threshold() {
    assert!(!should_compress(100), "Small data should not be compressed");
    assert!(
        !should_compress(COMPRESSION_THRESHOLD),
        "Exactly threshold should not compress"
    );
}

#[test]
fn test_should_compress_above_threshold() {
    assert!(
        should_compress(COMPRESSION_THRESHOLD + 1),
        "Above threshold should compress"
    );
}

#[test]
fn test_compress_and_decompress_roundtrip() {
    let original = b"Hello, World! This is test data for compression.";
    let compressed = compress_history(original).expect("Compression should succeed");
    let decompressed = decompress_history(&compressed).expect("Decompression should succeed");
    assert_eq!(
        decompressed,
        original.to_vec(),
        "Decompressed data should match original"
    );
}

#[test]
fn test_compress_empty_data() {
    let original = b"";
    let compressed = compress_history(original).expect("Compression of empty data should succeed");
    let decompressed = decompress_history(&compressed).expect("Decompression should succeed");
    assert_eq!(decompressed, original.to_vec());
}

#[test]
fn test_compress_large_repetitive_data_is_smaller() {
    let original: Vec<u8> = "AAAA".repeat(100_000).into_bytes();
    let compressed = compress_history(&original).expect("Compression should succeed");
    assert!(
        compressed.len() < original.len(),
        "Compressed size ({}) should be less than original ({})",
        compressed.len(),
        original.len()
    );
    let decompressed = decompress_history(&compressed).expect("Decompression should succeed");
    assert_eq!(decompressed, original);
}

#[test]
fn test_decompress_invalid_data_returns_error() {
    let garbage = b"this is not valid zstd data";
    let result = decompress_history(garbage);
    assert!(
        result.is_err(),
        "Decompressing invalid data should return an error"
    );
}

#[test]
fn test_compress_history_from_circular_buffer() {
    let mut buf = CircularBuffer::new(1024);
    let data = "Terminal output data for compression test\n".repeat(20);
    buf.push(data.as_bytes());

    let history_data = buf.to_vec();
    let compressed = compress_history(&history_data).expect("Should compress buffer data");
    let decompressed = decompress_history(&compressed).expect("Should decompress");
    assert_eq!(
        decompressed, history_data,
        "Roundtrip through compress/decompress should preserve buffer content"
    );
}

#[test]
fn default_capacity_is_ten_megabytes() {
    let buf = CircularBuffer::with_default_capacity();
    assert_eq!(DEFAULT_HISTORY_CAPACITY, 10 * 1024 * 1024);
    assert_eq!(buf.capacity(), 10 * 1024 * 1024);
    assert!(buf.is_empty());
}

#[test]
fn capacity_of_one_keeps_the_last_byte() {
    let mut buf = CircularBuffer::new(1);
    buf.push(b"abc");
    assert_eq!(buf.to_vec(), b"c".to_vec());
    buf.push(b"d");
    assert_eq!(buf.to_vec(), b"d".to_vec());
    assert_eq!(buf.capacity(), 1);
}

#[test]
fn pushing_in_parts_is_pushing_at_once() {
    let text = b"the quick brown fox jumps over the lazy dog";
    let mut whole = CircularBuffer::new(7);
    whole.push(text);
    for cut in 0..text.len() {
        let mut parts = CircularBuffer::new(7);
        parts.push(&text[..cut]);
        parts.push(&text[cut..]);
        assert_eq!(parts.to_vec(), whole.to_vec());
    }
    assert_eq!(whole.to_vec(), b"azy dog".to_vec());
}

#[test]
fn a_cleared_buffer_starts_again() {
    let mut buf = CircularBuffer::new(4);
    buf.push(b"abcdef");
    buf.clear();
    buf.push(b"xyz");
    assert_eq!(buf.to_vec(), b"xyz".to_vec());
    buf.push(b"12");
    assert_eq!(buf.to_vec(), b"yz12".to_vec());
}

#[test]
fn a_clone_is_independent() {
    let mut buf = CircularBuffer::new(4);
    buf.push(b"abcdef");
    let copy = buf.clone();
    buf.push(b"zz");
    assert_eq!(copy.to_vec(), b"cdef".to_vec());
    assert_eq!(buf.to_vec(), b"efzz".to_vec());
}

#[test]
fn compressed_data_begins_with_the_frame_magic() {
    let compressed = compress_history(b"some history").unwrap();
    assert_eq!(&compressed[..4], &[0x28, 0xb5, 0x2f, 0xfd]);
    assert_ne!(compressed, b"some history".to_vec());
}

#[test]
fn a_truncated_frame_is_an_error() {
    let compressed = compress_history(b"some history that is cut off").unwrap();
    assert!(decompress_history(&compressed[..compressed.len() - 1]).is_err());
}

#[test]
fn lack_of_memory_is_told_from_bad_data() {
    let code = zstd::zstd_safe::zstd_sys::ZSTD_ErrorCode::ZSTD_error_memory_allocation as usize;
    let words = zstd::zstd_safe::get_error_name(code.wrapping_neg());
    assert_eq!(words, ZSTD_OUT_OF_MEMORY);
    assert_eq!(CodecError::of_text(words.to_string()), CodecError::OutOfMemory);
    assert_eq!(CodecError::OutOfMemory.message(), words);
    let error = decompress_history(b"no frame at all").unwrap_err();
    assert_eq!(
        error,
        CodecError::Malformed("Unknown frame descriptor".to_string())
    );
    assert_eq!(error.message(), "Unknown frame descriptor");
}
