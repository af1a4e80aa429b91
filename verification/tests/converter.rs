use acoustic_modem::morse::MorseConverter;

#[test]
fn text_to_morse_known_patterns() {
    assert_eq!(MorseConverter::text_to_morse("SOS"), "... --- ...");
    assert_eq!(MorseConverter::text_to_morse("OK"), "--- -.-");
    assert_eq!(MorseConverter::text_to_morse("73"), "--... ...--");
    // Lowercase maps the same way, and unmapped characters drop out.
    assert_eq!(MorseConverter::text_to_morse("sos"), "... --- ...");
    assert_eq!(MorseConverter::text_to_morse("S!S"), "... ...");
    // A space maps to its own code, widening the gap between words.
    assert_eq!(MorseConverter::text_to_morse("A B"), ".-   -...");
}

#[test]
fn morse_to_text_round_trips() {
    assert_eq!(MorseConverter::morse_to_text("... --- ..."), "SOS");
    assert_eq!(MorseConverter::morse_to_text("--- -.-"), "OK");
    // A double space separates words.
    assert_eq!(MorseConverter::morse_to_text("... --- ...  -.-. --.-"), "SOS CQ");
    // Unknown tokens drop out.
    assert_eq!(MorseConverter::morse_to_text(".. ......"), "I");
    assert_eq!(MorseConverter::morse_to_text(""), "");
}

#[test]
fn text_and_morse_rows_align() {
    let (text_row, morse_row) = MorseConverter::str_morse_eq("AB");
    // The widest code is four marks wide, so every column is five.
    assert_eq!(text_row, "  A    B  ");
    assert_eq!(morse_row, ".-   -... ");
    // Lowercase input is shown uppercased.
    let (text_row_lower, morse_row_lower) = MorseConverter::str_morse_eq("ab");
    assert_eq!(text_row_lower, text_row);
    assert_eq!(morse_row_lower, morse_row);
    // A character without a code shows a blank column.
    let (t, m) = MorseConverter::str_morse_eq("E!");
    assert_eq!(t, "E ! ");
    assert_eq!(m, ".   ");
}

#[test]
fn morse_audio_round_trip() {
    let samples = MorseConverter::morse_to_samples("... --- ...", 48_000);
    let heard = MorseConverter::samples_to_morse(&samples, 48_000);
    // The final mark has no trailing silence to close it, so it goes unread.
    assert_eq!(heard, "... --- ..");
}

#[test]
fn morse_to_samples_lengths() {
    let rate = 48_000;
    let unit = 4800; // 100 ms at 48 kHz
    // A dot, an element gap, a dash: one, one, and three units.
    let samples = MorseConverter::morse_to_samples(".-", rate);
    assert_eq!(samples.len(), 5 * unit);
    // A word break costs seven units, and restarts the letter cleanly.
    let with_word = MorseConverter::morse_to_samples(".   .", rate);
    assert_eq!(with_word.len(), 9 * unit);
}
