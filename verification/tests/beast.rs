use rs1090::beast::{BeastDecoder, BeastError, BeastFrame};

/// Build a Beast-encoded frame from raw fields.
fn encode_beast_frame(type_byte: u8, mlat: u64, signal: u8, msg: &[u8]) -> Vec<u8> {
    let mut out = Vec::new();
    out.push(0x1A);
    out.push(type_byte);

    // MLAT 6 bytes
    for i in (0..6).rev() {
        let b = ((mlat >> (i * 8)) & 0xFF) as u8;
        out.push(b);
        if b == 0x1A {
            out.push(0x1A);
        }
    }

    // Signal
    out.push(signal);
    if signal == 0x1A {
        out.push(0x1A);
    }

    // Message bytes
    for &b in msg {
        out.push(b);
        if b == 0x1A {
            out.push(0x1A);
        }
    }

    out
}

fn decode_all(bytes: &[u8]) -> Vec<BeastFrame> {
    let mut decoder = BeastDecoder::new();
    bytes.iter().filter_map(|&b| decoder.push(b)).collect()
}

const LONG_MSG: [u8; 14] = [0x8D, 0xA2, 0xC1, 0xBD, 0x58, 0x7B, 0xA2, 0xAD, 0xB3, 0x17, 0x99, 0xCB, 0x80, 0x2B];

#[test]
fn parse_beast_frame() {
    // Build a type-3 (14-byte long message) Beast frame
    let frame_bytes = encode_beast_frame(0x33, 0x123456789ABC, 0x80, &LONG_MSG);
    let expected_min_len = frame_bytes.len();
    assert!(expected_min_len >= 2 + 6 + 1 + 14);

    let frames = decode_all(&frame_bytes);
    assert_eq!(frames.len(), 1);
    assert_eq!(frames[0].mlat_timestamp, 0x123456789ABC);
    assert_eq!(frames[0].signal, 0x80);
    assert_eq!(frames[0].message, LONG_MSG.to_vec());
}

#[test]
fn encoding_escapes_1a() {
    let msg = [0x1A, 0x00, 0x00, 0x00, 0x00, 0x00, 0x00]; // 7-byte short
    let encoded = encode_beast_frame(0x32, 0, 0, &msg);
    // The 0x1A in the message should be doubled
    let count_1a = encoded.iter().filter(|&&b| b == 0x1A).count();
    // Start marker (1) + escaped 0x1A in message (2) = 3
    assert_eq!(count_1a, 3);

    let frames = decode_all(&encoded);
    assert_eq!(frames.len(), 1);
    assert_eq!(frames[0].message, msg.to_vec());
}

#[test]
fn escaped_timestamp_and_signal() {
    let msg = [0x1A, 0x1A];
    let bytes = encode_beast_frame(0x31, 0x1A1A_0000_001A, 0x1A, &msg);
    let frames = decode_all(&bytes);
    assert_eq!(frames.len(), 1);
    assert_eq!(frames[0].mlat_timestamp, 0x1A1A_0000_001A);
    assert_eq!(frames[0].signal, 0x1A);
    assert_eq!(frames[0].message, msg.to_vec());
}

#[test]
fn garbage_and_unknown_types_skipped() {
    let mut bytes = vec![0x00, 0xFF, 0x31, 0x33];
    // an unknown type byte after a marker: the frame is skipped
    bytes.extend_from_slice(&[0x1A, 0x34, 0x01, 0x02]);
    bytes.extend(encode_beast_frame(0x32, 7, 9, &[1, 2, 3, 4, 5, 6, 7]));
    bytes.extend(encode_beast_frame(0x31, 8, 10, &[0xAB, 0xCD]));
    let frames = decode_all(&bytes);
    assert_eq!(frames.len(), 2);
    assert_eq!(frames[0].mlat_timestamp, 7);
    assert_eq!(frames[0].message, vec![1, 2, 3, 4, 5, 6, 7]);
    assert_eq!(frames[1].signal, 10);
    assert_eq!(frames[1].message, vec![0xAB, 0xCD]);
}

#[test]
fn frame_split_across_pushes_completes_on_last_byte() {
    let bytes = encode_beast_frame(0x33, 1, 2, &LONG_MSG);
    let mut decoder = BeastDecoder::new();
    for &b in &bytes[..bytes.len() - 1] {
        assert!(decoder.push(b).is_none());
    }
    assert!(decoder.push(bytes[bytes.len() - 1]).is_some());
}

#[test]
fn read_failure_classification() {
    let eof = std::io::Error::from(std::io::ErrorKind::UnexpectedEof);
    assert!(matches!(BeastError::from_read_failure(eof, true), BeastError::ConnectionClosed));
    let other = std::io::Error::from(std::io::ErrorKind::ConnectionReset);
    assert!(matches!(BeastError::from_read_failure(other, false), BeastError::Io(_)));
}

#[test]
fn lone_marker_in_payload_reads_as_marker() {
    // inside a frame, a 0x1A followed by a byte other than 0x1A stands for 0x1A
    let bytes = [0x1A, 0x31, 0, 0, 0, 0, 0, 0, 5, 0x1A, 0x33, 0x44];
    let frames = decode_all(&bytes);
    assert_eq!(frames.len(), 1);
    assert_eq!(frames[0].signal, 5);
    assert_eq!(frames[0].message, vec![0x1A, 0x44]);
}

#[test]
fn escaped_marker_as_type_skips_frame() {
    // a type byte that is itself a (lone or doubled) marker names no frame type
    let mut bytes = vec![0x1A, 0x1A, 0x32, 0x1A, 0x1A, 0x1A, 0x31];
    bytes.extend(encode_beast_frame(0x31, 3, 4, &[0x10, 0x20]));
    let frames = decode_all(&bytes);
    assert_eq!(frames.len(), 1);
    assert_eq!(frames[0].mlat_timestamp, 3);
    assert_eq!(frames[0].message, vec![0x10, 0x20]);
}

#[test]
fn push_all_decodes_noise_then_frame() {
    let mut bytes = vec![0x00, 0x31, 0x7F];
    bytes.extend(encode_beast_frame(0x33, 0x123456789ABC, 0x80, &LONG_MSG));
    let mut decoder = BeastDecoder::new();
    let frames = decoder.push_all(&bytes);
    assert_eq!(frames.len(), 1);
    assert_eq!(frames[0].mlat_timestamp, 0x123456789ABC);
    assert_eq!(frames[0].signal, 0x80);
    assert_eq!(frames[0].message, LONG_MSG.to_vec());
    // the decoder is between frames again: the next frame decodes alone
    let next = decoder.push_all(&encode_beast_frame(0x31, 1, 2, &[3, 4]));
    assert_eq!(next.len(), 1);
    assert_eq!(next[0].message, vec![3, 4]);
}
