use terminar_core::constants::PTY_READ_BUFFER_SIZE;
use terminar_core::reader::PtyReader;
use terminar_core::utf8::find_utf8_safe_boundary;

#[test]
fn complete_text_is_safe() {
    assert_eq!(find_utf8_safe_boundary(b""), 0);
    assert_eq!(find_utf8_safe_boundary(b"hello"), 5);
    let text = "aé€😀";
    assert_eq!(find_utf8_safe_boundary(text.as_bytes()), text.len());
}

#[test]
fn unfinished_characters_are_held_back() {
    for c in ['é', '߿', 'ࠀ', '€', '퟿', '\u{e000}', '\u{ffff}', '\u{10000}', '😀', '\u{10ffff}'] {
        let mut buf = [0u8; 4];
        let bytes = c.encode_utf8(&mut buf).as_bytes();
        for n in 1..bytes.len() {
            let mut data = b"ab".to_vec();
            data.extend_from_slice(&bytes[..n]);
            assert_eq!(find_utf8_safe_boundary(&data), 2, "{:?} {}", c, n);
        }
        let mut data = b"ab".to_vec();
        data.extend_from_slice(bytes);
        assert_eq!(find_utf8_safe_boundary(&data), data.len());
    }
}

#[test]
fn invalid_bytes_are_not_held_back() {
    for bytes in [
        &b"\x80"[..],
        b"\xbf\xbf",
        b"\xc0",
        b"\xc1",
        b"\xf5",
        b"\xff",
        b"\xe0\x80",
        b"\xed\xa0",
        b"\xf0\x80",
        b"\xf4\x90",
        b"\xf0\x80\x80",
        b"\xc3\x28",
        b"\xff text after it",
    ] {
        assert_eq!(find_utf8_safe_boundary(bytes), bytes.len(), "{:x?}", bytes);
    }
    assert_eq!(find_utf8_safe_boundary(b"\xff ab\xe2\x82"), 4);
    assert_eq!(find_utf8_safe_boundary(b"\xe2\xe2"), 1);
}

/// What is held back is what the standard library calls an unexpected end.
#[test]
fn the_boundary_agrees_with_the_standard_library() {
    let mut samples: Vec<Vec<u8>> = Vec::new();
    let interesting = [
        0x00u8, 0x41, 0x7f, 0x80, 0x8f, 0x90, 0x9f, 0xa0, 0xbf, 0xc0, 0xc1, 0xc2, 0xdf, 0xe0, 0xe1,
        0xec, 0xed, 0xee, 0xef, 0xf0, 0xf1, 0xf3, 0xf4, 0xf5, 0xff,
    ];
    for a in interesting {
        samples.push(vec![a]);
        for b in interesting {
            samples.push(vec![a, b]);
            for c in interesting {
                samples.push(vec![a, b, c]);
                samples.push(vec![0x41, a, b, c]);
                samples.push(vec![0xf0, a, b, c]);
            }
        }
    }
    for data in samples {
        let mut pos = 0;
        let expected = loop {
            match std::str::from_utf8(&data[pos..]) {
                Ok(_) => break data.len(),
                Err(e) => match e.error_len() {
                    Some(n) => pos += e.valid_up_to() + n,
                    None => break pos + e.valid_up_to(),
                },
            }
        };
        assert_eq!(find_utf8_safe_boundary(&data), expected, "{:x?}", data);
    }
}

#[test]
fn cutting_a_stream_makes_no_difference() {
    let stream = "naïve — 日本語 😀 end".as_bytes();
    for first in 0..=stream.len() {
        for second in first..=stream.len() {
            let mut reader = PtyReader::new();
            let mut out: Vec<u8> = Vec::new();
            for chunk in [
                &stream[..first],
                &stream[first..second],
                &stream[second..],
            ] {
                let piece = reader.accept(chunk);
                assert!(std::str::from_utf8(&piece).is_ok());
                out.extend_from_slice(&piece);
                assert!(reader.read_capacity() >= PTY_READ_BUFFER_SIZE - 3);
            }
            assert_eq!(out, stream.to_vec());
            assert_eq!(reader.read_capacity(), PTY_READ_BUFFER_SIZE);
        }
    }
}

#[test]
fn no_byte_is_lost_in_an_invalid_stream() {
    let stream = b"a\xffb\xe2\x28\xf0\x9f\x98";
    let mut reader = PtyReader::new();
    let mut out: Vec<u8> = Vec::new();
    for byte in stream {
        out.extend_from_slice(&reader.accept(&[*byte]));
    }
    assert_eq!(out, stream[..5].to_vec());
    out.extend_from_slice(&reader.accept(b"!"));
    assert_eq!(out, b"a\xffb\xe2\x28\xf0\x9f\x98!".to_vec());
}
