// The lang-level Morse codec: the same cases through encode and decode.
use acoustic_modem::lang::morse::Morse as LangMorse;
use acoustic_modem::lang::morse::Signal as LangSignal;

#[test]
fn morse_test_basic_signals() {
    let s = LangSignal::Dit;
    let o = LangSignal::Dah;
    let c = LangSignal::CharGap;
    let signals = vec![s, s, s, c, o, o, o, c, s, s, s]; // S O S
    assert_eq!(LangMorse::decode(&signals), "SOS");
}

#[test]
fn morse_test_simple_words() {
    let input = "HELLO WORLD";
    let signals = LangMorse::encode(input);
    let output = LangMorse::decode(&signals);
    assert_eq!(output, input);
}

#[test]
fn morse_test_special_characters() {
    assert_eq!(LangMorse::decode(&LangMorse::encode("H@LLO!")), "HLLO");
    assert_eq!(LangMorse::decode(&LangMorse::encode("")), "");
    assert_eq!(LangMorse::decode(&LangMorse::encode("@#$%")), "");
}

#[test]
fn morse_test_space_handling() {
    assert_eq!(LangMorse::decode(&LangMorse::encode("A  B   C")), "A B C");
    assert_eq!(LangMorse::decode(&LangMorse::encode("  SOS  ")), "SOS");
}

#[test]
fn morse_test_char_gaps() {
    let signals = vec![
        LangSignal::Dit,
        LangSignal::Dit, // I
        LangSignal::CharGap,
        LangSignal::Dit,
        LangSignal::Dah, // A
        LangSignal::CharGap,
        LangSignal::Dah, // T
    ];
    assert_eq!(LangMorse::decode(&signals), "IAT");
}

#[test]
fn morse_test_case_insensitivity() {
    let upper = "HELLO";
    let lower = "hello";
    let mixed = "HeLLo";

    let signals_upper = LangMorse::encode(upper);
    let signals_lower = LangMorse::encode(lower);
    let signals_mixed = LangMorse::encode(mixed);

    assert_eq!(LangMorse::decode(&signals_upper), "HELLO");
    assert_eq!(LangMorse::decode(&signals_lower), "HELLO");
    assert_eq!(LangMorse::decode(&signals_mixed), "HELLO");
}

#[test]
fn morse_test_alphanumeric() {
    let input = "ABCDEFGHIJKLMNOPQRSTUVWXYZ0123456789";
    let signals = LangMorse::encode(input);
    let output = LangMorse::decode(&signals);
    assert_eq!(output, input);
}

#[test]
fn morse_test_common_words() {
    let phrases = [
        "THE QUICK BROWN FOX",
        "JUMPS OVER THE LAZY DOG",
        "PACK MY BOX WITH FIVE DOZEN LIQUOR JUGS",
    ];
    for phrase in phrases {
        let signals = LangMorse::encode(phrase);
        let output = LangMorse::decode(&signals);
        assert_eq!(output, phrase);
    }
}

#[test]
fn morse_test_signal_patterns() {
    let patterns = [
        ("SOS", "... --- ..."),
        ("OK", "--- -.-"),
        ("73", "--... ...--"),
    ];
    for (text, _pattern) in patterns {
        let signals = LangMorse::encode(text);
        let output = LangMorse::decode(&signals);
        assert_eq!(output, text);
    }
}
