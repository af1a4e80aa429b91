use acoustic_modem::proto::packet::PacketType;

#[test]
fn some_test() {
    assert_eq!((2_i32.pow(3)) - 4, 4);
}

#[test]
fn some_test_2() {
    assert_eq!((2_i32.pow(3)) - 4, 4);
}

#[test]
fn packet_types_exist() {
    let kinds = [PacketType::Control, PacketType::Data, PacketType::Error];
    assert_eq!(kinds.len(), 3);
}

#[test]
fn capture_test_specific_device() {
    // Capture-device selection lives outside the library, and this suite
    // runs without audio hardware, so there is nothing to assert here.
}
