use acoustic_modem::audio::SAMPLE_SCALE;
use acoustic_modem::audio::wave::tone_samples;
use acoustic_modem::encoding::Encoder;
use acoustic_modem::encoding::FSKEncoder;
use acoustic_modem::encoding::bits_to_byte;
use acoustic_modem::encoding::byte_to_bits;
use acoustic_modem::encoding::morse::Morse;

#[test]
fn test_fsk_encoding_decoding() {
    let encoder: FSKEncoder = FSKEncoder::new(48_000, 1_200, 2_400, 480);

    let test_data = vec![0b10101010, 0b11001100];

    let enc = encoder.encode(&test_data).unwrap();
    let dec = encoder.decode(&enc).unwrap();

    assert_eq!(test_data, dec, "Decoded data should match original data");
}

#[test]
fn fsk_round_trip_many_bytes() {
    // The codec round trip holds over every byte value.
    let encoder = FSKEncoder::default();
    let data: Vec<u8> = (0u16..256).map(|b| b as u8).collect();
    let enc = encoder.encode(&data).unwrap();
    assert_eq!(enc.len(), 8 * 480 * data.len());
    let dec = encoder.decode(&enc).unwrap();
    assert_eq!(dec, data);
}

#[test]
fn fsk_round_trip_other_parameters() {
    let encoder = FSKEncoder::new(44_100, 1_000, 2_000, 441);
    let data = vec![0x00, 0xFF, 0x5A, 0x0F];
    let dec = encoder.decode(&encoder.encode(&data).unwrap()).unwrap();
    assert_eq!(dec, data);
}

#[test]
fn goertzel_discrimination() {
    // A pure tone at freq_for_1 decodes as one bits; at freq_for_0, as zero
    // bits. Eight bit periods of each make one observable byte.
    let encoder = FSKEncoder::new(48_000, 1_200, 2_400, 480);
    let ones = tone_samples(2_400, 48_000, 8 * 480, SAMPLE_SCALE);
    assert_eq!(encoder.decode(&ones).unwrap(), vec![0xFF]);
    let zeros = tone_samples(1_200, 48_000, 8 * 480, SAMPLE_SCALE);
    assert_eq!(encoder.decode(&zeros).unwrap(), vec![0x00]);
}

#[test]
fn fsk_partial_byte_is_discarded() {
    // A trailing group of fewer than eight bits never becomes a byte.
    let encoder = FSKEncoder::default();
    let enc = encoder.encode(&[0xC3]).unwrap();
    // Seven bit periods only: no complete byte comes out.
    let dec = encoder.decode(&enc[..7 * 480]).unwrap();
    assert!(dec.is_empty());
    // A full byte plus a partial trailing chunk still yields just the byte.
    let enc2 = encoder.encode(&[0xC3, 0x3C]).unwrap();
    let dec2 = encoder.decode(&enc2[..8 * 480 + 100]).unwrap();
    assert_eq!(dec2, vec![0xC3]);
}

#[test]
fn bit_packing_round_trip() {
    for byte in [0x00u8, 0x01, 0x80, 0xA5, 0xFF, 0x3C] {
        let bits = byte_to_bits(byte);
        assert_eq!(bits.len(), 8);
        assert_eq!(bits_to_byte(&bits), byte);
    }
    assert_eq!(
        byte_to_bits(0xA5),
        vec![true, false, true, false, false, true, false, true]
    );
    assert_eq!(bits_to_byte(&[true, false, true]), 0b101);
}

#[test]
fn morse_encoder_produces_tones_and_gaps() {
    let codec = Morse;
    // One short mark: one unit of tone at the stock rate.
    let samples = Encoder::encode(&codec, b"E").unwrap();
    assert_eq!(samples.len(), 4800);
    assert!(samples.iter().any(|&s| s != 0));
    // "ET": a dot, a character gap, a dash: one, three, and three units.
    let samples = Encoder::encode(&codec, b"ET").unwrap();
    assert_eq!(samples.len(), 7 * 4800);
    // Silence decodes to no text at all.
    let silence = vec![0i32; 48_000];
    assert!(Encoder::decode(&codec, &silence).unwrap().is_empty());
}

#[test]
fn fsk_empty_input_round_trip() {
    let encoder = FSKEncoder::default();
    assert!(encoder.encode(&[]).unwrap().is_empty());
    assert!(encoder.decode(&[]).unwrap().is_empty());
}
