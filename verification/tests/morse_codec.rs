// The signal-level Morse codec, character patterns in and out.
use acoustic_modem::encoding::morse::Morse as CoreMorse;
use acoustic_modem::encoding::morse::Signal as CoreSignal;

#[test]
fn test_basic_signals() {
    let s = CoreSignal::Dit;
    let o = CoreSignal::Dah;
    let c = CoreSignal::CharGap;
    let signals = vec![s, s, s, c, o, o, o, c, s, s, s]; // S O S
    assert_eq!(CoreMorse::signals_to_text(&signals), "SOS");
}

#[test]
fn test_simple_words() {
    let input = "HELLO WORLD";
    let signals = CoreMorse::text_to_signals(input);
    let output = CoreMorse::signals_to_text(&signals);
    assert_eq!(output, input);
}

#[test]
fn test_special_characters() {
    assert_eq!(
        CoreMorse::signals_to_text(&CoreMorse::text_to_signals("H@LLO!")),
        "HLLO"
    );
    assert_eq!(CoreMorse::signals_to_text(&CoreMorse::text_to_signals("")), "");
    assert_eq!(CoreMorse::signals_to_text(&CoreMorse::text_to_signals("@#$%")), "");
}

#[test]
fn test_space_handling() {
    assert_eq!(
        CoreMorse::signals_to_text(&CoreMorse::text_to_signals("A  B   C")),
        "A B C"
    );
    assert_eq!(
        CoreMorse::signals_to_text(&CoreMorse::text_to_signals("  SOS  ")),
        "SOS"
    );
}

#[test]
fn test_char_gaps() {
    let signals = vec![
        CoreSignal::Dit,
        CoreSignal::Dit, // I
        CoreSignal::CharGap,
        CoreSignal::Dit,
        CoreSignal::Dah, // A
        CoreSignal::CharGap,
        CoreSignal::Dah, // T
    ];
    assert_eq!(CoreMorse::signals_to_text(&signals), "IAT");
}

#[test]
fn test_case_insensitivity() {
    let upper = "HELLO";
    let lower = "hello";
    let mixed = "HeLLo";

    let signals_upper = CoreMorse::text_to_signals(upper);
    let signals_lower = CoreMorse::text_to_signals(lower);
    let signals_mixed = CoreMorse::text_to_signals(mixed);

    assert_eq!(CoreMorse::signals_to_text(&signals_upper), "HELLO");
    assert_eq!(CoreMorse::signals_to_text(&signals_lower), "HELLO");
    assert_eq!(CoreMorse::signals_to_text(&signals_mixed), "HELLO");
}

#[test]
fn test_alphanumeric() {
    let input = "ABCDEFGHIJKLMNOPQRSTUVWXYZ0123456789";
    let signals = CoreMorse::text_to_signals(input);
    let output = CoreMorse::signals_to_text(&signals);
    assert_eq!(output, input);
}

#[test]
fn test_common_words() {
    let phrases = [
        "THE QUICK BROWN FOX",
        "JUMPS OVER THE LAZY DOG",
        "PACK MY BOX WITH FIVE DOZEN LIQUOR JUGS",
    ];
    for phrase in phrases {
        let signals = CoreMorse::text_to_signals(phrase);
        let output = CoreMorse::signals_to_text(&signals);
        assert_eq!(output, phrase);
    }
}

#[test]
fn test_signal_patterns() {
    let patterns = [
        ("SOS", "... --- ..."),
        ("OK", "--- -.-"),
        ("73", "--... ...--"),
    ];
    for (text, _pattern) in patterns {
        let signals = CoreMorse::text_to_signals(text);
        let output = CoreMorse::signals_to_text(&signals);
        assert_eq!(output, text);
    }
}
