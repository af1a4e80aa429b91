use acoustic_modem::proto::frame::Frame;
use acoustic_modem::proto::frame::FrameError;
use acoustic_modem::proto::frame::MAX_PAYLOAD_SIZE;

#[test]
fn test_frame_creation() {
    let payload = b"Hello, World!";
    let frame = Frame::new(payload, 1).unwrap();
    assert_eq!(frame.sequence(), 1);
    assert_eq!(frame.payload().as_slice(), payload);
}

#[test]
fn test_frame_encoding_decoding() {
    let payload = b"Test message";
    let original_frame = Frame::new(payload, 1).unwrap();

    let frame_serial = original_frame.serialize();
    let frame_deser = Frame::deserialize(&frame_serial).unwrap().unwrap();

    assert_eq!(frame_deser.sequence(), original_frame.sequence());
    assert_eq!(frame_deser.payload().as_slice(), payload);
}

#[test]
fn test_max_payload_size() {
    let payload = vec![0u8; MAX_PAYLOAD_SIZE + 1];
    assert!(Frame::new(&payload, 1).is_err());
}

#[test]
fn oversized_payload_boundary() {
    // Exactly the maximum succeeds; one more byte fails with PayloadTooLarge.
    let exact = vec![0xABu8; 1024];
    let frame = Frame::new(&exact, 9).unwrap();
    assert_eq!(frame.payload().len(), 1024);
    let too_big = vec![0xABu8; 1025];
    assert_eq!(Frame::new(&too_big, 9).unwrap_err(), FrameError::PayloadTooLarge);
}

#[test]
fn frame_round_trip_various_payloads() {
    let payloads: Vec<Vec<u8>> = vec![
        vec![],
        vec![0],
        vec![0xFF; 3],
        (0u16..256).map(|b| b as u8).collect(),
        vec![0xAA; 1024],
    ];
    for (i, payload) in payloads.iter().enumerate() {
        let seq = (i * 37 % 256) as u8;
        let frame = Frame::new(payload, seq).unwrap();
        let bytes = frame.serialize();
        let back = Frame::deserialize(&bytes).unwrap().unwrap();
        assert_eq!(back.sequence(), seq);
        assert_eq!(back.payload().as_slice(), payload.as_slice());
        assert!(!back.is_fragment());
        assert!(!back.is_priority());
        assert!(!back.is_control());
        assert!(!back.is_retransmit());
    }
}

#[test]
fn frame_crc_is_ccitt() {
    // CRC-16/CCITT (poly 0x1021, init 0xFFFF) over version 1, sequence 7,
    // flags 0, payload "Hi".
    let frame = Frame::new(b"Hi", 7).unwrap();
    assert_eq!(frame.crc, 0x939A);
}

#[test]
fn deserialize_soft_failures_return_no_frame() {
    // Too few bytes: no frame yet.
    assert!(Frame::deserialize(&[0xAA; 10]).unwrap().is_none());
    // A garbled sync marker: no frame.
    let frame = Frame::new(b"abc", 0).unwrap();
    let mut bytes = frame.serialize();
    bytes[0] = 0x55;
    assert!(Frame::deserialize(&bytes).unwrap().is_none());
    // A declared payload overrunning the buffer: no frame yet.
    let bytes = frame.serialize();
    assert!(Frame::deserialize(&bytes[..bytes.len() - 1]).unwrap().is_none());
    // A garbled end marker: no frame.
    let mut bytes = frame.serialize();
    let last = bytes.len() - 1;
    bytes[last] = 0x00;
    assert!(Frame::deserialize(&bytes).unwrap().is_none());
}

#[test]
fn checksum_detects_every_covered_bit_flip() {
    // Flipping any single bit of the version, sequence, flags, or payload
    // region must surface as ChecksumMismatch, never a silent success.
    let frame = Frame::new(b"checksum sensitivity", 42).unwrap();
    let bytes = frame.serialize();
    let payload_len = frame.payload().len();
    let mut covered: Vec<usize> = vec![4, 7, 8];
    for i in 0..payload_len {
        covered.push(9 + i);
    }
    for &i in &covered {
        for k in 0..8 {
            let mut corrupted = bytes.clone();
            corrupted[i] ^= 1u8 << k;
            assert_eq!(
                Frame::deserialize(&corrupted).unwrap_err(),
                FrameError::ChecksumMismatch,
                "flip at byte {} bit {} went undetected",
                i,
                k
            );
        }
    }
}

#[test]
fn oversized_declared_length_is_not_a_frame() {
    // A header declaring more than the maximum payload is treated as
    // garbage to resynchronize past, not as a frame.
    let mut bytes = vec![0xAAu8; 4];
    bytes.push(1); // version
    bytes.push(0x04); // declared length 1025, big-endian
    bytes.push(0x01);
    bytes.push(0); // sequence
    bytes.push(0); // flags
    bytes.extend(vec![0u8; 1025]);
    bytes.extend([0u8, 0, 0, 0, 0, 0, 0xFF, 0xFF]);
    assert!(Frame::deserialize(&bytes).unwrap().is_none());
}
