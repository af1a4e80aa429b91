use vstd::prelude::*;

verus! {

use crate::encoding::morse::Morse;
use crate::encoding::morse::Signal;
use crate::encoding::morse::chars_to_string;
use crate::encoding::morse::gap_free;
use crate::encoding::morse::spec_char_signals;
use crate::encoding::morse::spec_signals_char;

/// Converts between text and Morse code written out as pattern text: dots,
/// dashes, one space between letters, and wider space runs between words.
pub struct MorseConverter;

/// The pattern character a signal prints as.
pub open spec fn mark_char(s: Signal) -> char {
    match s {
        Signal::Dit => '.',
        Signal::Dah => '-',
        Signal::CharGap => ' ',
        Signal::WordGap => ' ',
    }
}

/// The Morse code of `c` as pattern text: dots and dashes for a letter or
/// digit of either case, a single space for a space, nothing for the rest.
pub open spec fn spec_char_code(c: char) -> Seq<char> {
    spec_char_signals(c).map_values(|s: Signal| mark_char(s))
}

/// `c` uppercased, for the ASCII letters.
pub open spec fn ascii_upper(c: char) -> char {
    if 97 <= c as u32 <= 122 {
        spec_upper_of(c)
    } else {
        c
    }
}

/// The uppercase partner of an ASCII lowercase letter.
pub open spec fn spec_upper_of(c: char) -> char {
    if c == 'a' {
        'A'
    } else if c == 'b' {
        'B'
    } else if c == 'c' {
        'C'
    } else if c == 'd' {
        'D'
    } else if c == 'e' {
        'E'
    } else if c == 'f' {
        'F'
    } else if c == 'g' {
        'G'
    } else if c == 'h' {
        'H'
    } else if c == 'i' {
        'I'
    } else if c == 'j' {
        'J'
    } else if c == 'k' {
        'K'
    } else if c == 'l' {
        'L'
    } else if c == 'm' {
        'M'
    } else if c == 'n' {
        'N'
    } else if c == 'o' {
        'O'
    } else if c == 'p' {
        'P'
    } else if c == 'q' {
        'Q'
    } else if c == 'r' {
        'R'
    } else if c == 's' {
        'S'
    } else if c == 't' {
        'T'
    } else if c == 'u' {
        'U'
    } else if c == 'v' {
        'V'
    } else if c == 'w' {
        'W'
    } else if c == 'x' {
        'X'
    } else if c == 'y' {
        'Y'
    } else if c == 'z' {
        'Z'
    } else {
        c
    }
}

/// `n` spaces.
pub open spec fn spaces(n: int) -> Seq<char> {
    Seq::new(n as nat, |i: int| ' ')
}

/// The code column a character occupies in the aligned listing: its code, or
/// a single space where the code has none.
pub open spec fn display_code(c: char) -> Seq<char> {
    if spec_char_code(c).len() > 0 {
        spec_char_code(c)
    } else {
        seq![' ']
    }
}

/// The widest display code over `text`.
pub open spec fn max_code_len(text: Seq<char>) -> int
    decreases text.len(),
{
    if text.len() == 0 {
        0
    } else {
        let rest = max_code_len(text.drop_last());
        let last = display_code(text.last()).len() as int;
        if last > rest {
            last
        } else {
            rest
        }
    }
}

/// One character's cell in the text row: the uppercased character centered
/// in width `w`, the spare space going right.
pub open spec fn cell_text(c: char, w: int) -> Seq<char> {
    spaces((w - 1) / 2) + seq![ascii_upper(c)] + spaces(w - 1 - (w - 1) / 2)
}

/// One character's cell in the code row: its display code padded to width
/// `w` on the right.
pub open spec fn cell_code(c: char, w: int) -> Seq<char> {
    display_code(c) + spaces(w - display_code(c).len())
}

/// The whole text row, cell by cell.
pub open spec fn aligned_text_row(text: Seq<char>, w: int) -> Seq<char>
    decreases text.len(),
{
    if text.len() == 0 {
        seq![]
    } else {
        aligned_text_row(text.drop_last(), w) + cell_text(text.last(), w)
    }
}

/// The whole code row, cell by cell.
pub open spec fn aligned_code_row(text: Seq<char>, w: int) -> Seq<char>
    decreases text.len(),
{
    if text.len() == 0 {
        seq![]
    } else {
        aligned_code_row(text.drop_last(), w) + cell_code(text.last(), w)
    }
}

/// The Morse codes of the mapped characters of `text`, joined by single
/// spaces.
pub open spec fn t2m_rec(text: Seq<char>, first: bool) -> Seq<char>
    decreases text.len(),
{
    if text.len() == 0 {
        seq![]
    } else {
        let code = spec_char_code(text[0]);
        if code.len() == 0 {
            t2m_rec(text.drop_first(), first)
        } else {
            (if first {
                seq![]
            } else {
                seq![' ']
            }) + code + t2m_rec(text.drop_first(), false)
        }
    }
}

/// What `text_to_morse` returns.
pub open spec fn spec_text_to_morse(text: Seq<char>) -> Seq<char> {
    t2m_rec(text, true)
}

/// The marks a pattern token stands for, when it is made of dots and dashes
/// alone.
pub open spec fn marks_of(token: Seq<char>) -> Seq<Signal> {
    token.map_values(
        |c: char|
            if c == '.' {
                Signal::Dit
            } else {
                Signal::Dah
            },
    )
}

/// Whether every character of a token is a dot or a dash.
pub open spec fn all_marks(token: Seq<char>) -> bool {
    forall|i: int| 0 <= i < token.len() ==> (token[i] == '.' || token[i] == '-')
}

/// The character a pattern token decodes to, if the code has it.
pub open spec fn spec_token_char(token: Seq<char>) -> Option<char> {
    if all_marks(token) {
        spec_signals_char(marks_of(token))
    } else {
        None
    }
}

/// The token's character as a sequence: one character, or none.
pub open spec fn token_chars(token: Seq<char>) -> Seq<char> {
    match spec_token_char(token) {
        Some(c) => seq![c],
        None => seq![],
    }
}

/// Append a finished word to the output, separated from what came before.
pub open spec fn emit_word(out: Seq<char>, w: Seq<char>, first: bool) -> Seq<char> {
    if first {
        w
    } else {
        out + seq![' '] + w
    }
}

/// The Morse-text-to-text state machine: a double space ends a word, a
/// single space ends a token, every token is looked up in the code, and
/// words join with single spaces.
pub open spec fn m2t_rec(
    s: Seq<char>,
    token: Seq<char>,
    word: Seq<char>,
    out: Seq<char>,
    first: bool,
) -> Seq<char>
    decreases s.len(),
{
    if s.len() == 0 {
        emit_word(out, word + token_chars(token), first)
    } else if s.len() >= 2 && s[0] == ' ' && s[1] == ' ' {
        m2t_rec(
            s.skip(2),
            seq![],
            seq![],
            emit_word(out, word + token_chars(token), first),
            false,
        )
    } else if s[0] == ' ' {
        m2t_rec(s.drop_first(), seq![], word + token_chars(token), out, first)
    } else {
        m2t_rec(s.drop_first(), token.push(s[0]), word, out, first)
    }
}

/// What `morse_to_text` returns.
pub open spec fn spec_morse_to_text(s: Seq<char>) -> Seq<char> {
    m2t_rec(s, seq![], seq![], seq![], true)
}

/// Every display code's width is within the text's maximum.
proof fn lemma_max_code_len_ge(text: Seq<char>, i: int)
    requires
        0 <= i < text.len(),
    ensures
        display_code(text[i]).len() <= max_code_len(text),
    decreases text.len(),
{
    if i < text.len() - 1 {
        lemma_max_code_len_ge(text.drop_last(), i);
        assert(text.drop_last()[i] == text[i]);
    }
}

// ----------------------------------------------------------------------------
// Morse pattern text as sound
// ----------------------------------------------------------------------------

/// Tone and gap durations, in milliseconds: a dot is one unit of a tenth of
/// a second, a dash three; the gap inside a letter is one unit, between
/// letters three, between words seven. The tone sits at 440 Hz.
pub const DOT_DURATION_MS: u32 = 100;
pub const DASH_DURATION_MS: u32 = 300;
pub const ELEMENT_GAP_MS: u32 = 100;
pub const LETTER_GAP_MS: u32 = 300;
pub const WORD_GAP_MS: u32 = 700;
pub const MORSE_TONE_HZ: u32 = 440;

/// The tone for one mark duration at the Morse pitch, full scale.
pub open spec fn morse_tone(duration_ms: int, rate: int) -> Seq<i32> {
    crate::audio::wave::scaled_tone_seq(
        MORSE_TONE_HZ as int,
        rate,
        crate::audio::wave::duration_samples(duration_ms, rate) as nat,
        crate::audio::SAMPLE_SCALE as int,
    )
}

/// Silence for one gap duration.
pub open spec fn morse_silence(duration_ms: int, rate: int) -> Seq<i32> {
    crate::audio::wave::silence_seq(crate::audio::wave::duration_samples(duration_ms, rate) as nat)
}

/// The pattern-text-to-samples state machine. Exactly three spaces bound
/// words, and every word bound costs one word gap; shorter space runs end
/// the letter in progress; each symbol after the first of a letter is led by
/// an element gap; a dot or dash sounds its tone and anything else stays
/// silent.
pub open spec fn m2s_rec(
    s: Seq<char>,
    rate: int,
    open: bool,
    seen: bool,
    j: int,
    out: Seq<i32>,
) -> Seq<i32>
    decreases s.len(),
{
    if s.len() == 0 {
        out
    } else if s.len() >= 3 && s[0] == ' ' && s[1] == ' ' && s[2] == ' ' {
        m2s_rec(s.skip(3), rate, false, false, 0, out + morse_silence(WORD_GAP_MS as int, rate))
    } else if s[0] == ' ' {
        m2s_rec(s.drop_first(), rate, false, seen, j, out)
    } else {
        let j1 = if open {
            j
        } else {
            0
        };
        let out1 = if !open && seen {
            out + morse_silence(LETTER_GAP_MS as int, rate)
        } else {
            out
        };
        let out2 = if j1 > 0 {
            out1 + morse_silence(ELEMENT_GAP_MS as int, rate)
        } else {
            out1
        };
        let out3 = if s[0] == '.' {
            out2 + morse_tone(DOT_DURATION_MS as int, rate)
        } else if s[0] == '-' {
            out2 + morse_tone(DASH_DURATION_MS as int, rate)
        } else {
            out2
        };
        m2s_rec(s.drop_first(), rate, true, true, j1 + 1, out3)
    }
}

/// What `morse_to_samples` returns.
pub open spec fn spec_morse_to_samples(s: Seq<char>, rate: int) -> Seq<i32> {
    m2s_rec(s, rate, false, false, 0, Seq::empty())
}

/// The magnitudes of `s` summed.
pub open spec fn abs_sum(s: Seq<i32>) -> int
    decreases s.len(),
{
    if s.len() == 0 {
        0
    } else {
        abs_sum(s.drop_last()) + crate::audio::wave::abs_val(s.last() as int)
    }
}

/// Whether a chunk's mean magnitude exceeds half of full scale.
pub open spec fn chunk_loud(c: Seq<i32>) -> bool {
    abs_sum(c) > (crate::audio::SAMPLE_SCALE as int / 2) * c.len()
}

/// The samples-to-pattern-text state machine, over chunks of a tenth of a
/// second: a loud chunk extends the symbol in progress; the first quiet
/// chunk closes it as a dot or dash by length; the third consecutive quiet
/// chunk writes a letter-separating space.
pub open spec fn s2m_rec(s: Seq<i32>, chunk: int, silence: int, cur: int, out: Seq<char>) -> Seq<
    char,
>
    recommends
        chunk >= 1,
    decreases s.len(),
{
    if s.len() == 0 {
        out
    } else {
        let take_n = if 1 <= chunk <= s.len() {
            chunk
        } else {
            s.len() as int
        };
        let c = s.take(take_n);
        let rest = s.skip(take_n);
        if chunk_loud(c) {
            s2m_rec(rest, chunk, 0, cur + 1, out)
        } else {
            let out1 = if silence + 1 == 1 {
                if cur > 1 {
                    out.push('-')
                } else if cur > 0 {
                    out.push('.')
                } else {
                    out
                }
            } else if silence + 1 == 3 {
                out.push(' ')
            } else {
                out
            };
            let cur1 = if silence + 1 == 1 {
                0
            } else {
                cur
            };
            s2m_rec(rest, chunk, silence + 1, cur1, out1)
        }
    }
}

/// What `samples_to_morse` returns.
pub open spec fn spec_samples_to_morse(s: Seq<i32>, rate: int) -> Seq<char> {
    s2m_rec(s, rate / 10, 0, 0, Seq::empty())
}

/// The uppercase form of an ASCII letter, executably.
fn upper_char(c: char) -> (r: char)
    ensures
        r == ascii_upper(c),
{
    match c {
        'a' => 'A',
        'b' => 'B',
        'c' => 'C',
        'd' => 'D',
        'e' => 'E',
        'f' => 'F',
        'g' => 'G',
        'h' => 'H',
        'i' => 'I',
        'j' => 'J',
        'k' => 'K',
        'l' => 'L',
        'm' => 'M',
        'n' => 'N',
        'o' => 'O',
        'p' => 'P',
        'q' => 'Q',
        'r' => 'R',
        's' => 'S',
        't' => 'T',
        'u' => 'U',
        'v' => 'V',
        'w' => 'W',
        'x' => 'X',
        'y' => 'Y',
        'z' => 'Z',
        _ => c,
    }
}

/// The Morse code of one character as pattern text, executably.
fn char_code(c: char) -> (r: Vec<char>)
    ensures
        r@ == spec_char_code(c),
{
    let signals = Morse::char_to_signal(c);
    let mut out: Vec<char> = Vec::new();
    let mut i: usize = 0;
    while i < signals.len()
        invariant
            i <= signals@.len(),
            signals@ == spec_char_signals(c),
            out@ == spec_char_code(c).take(i as int),
        decreases signals@.len() - i,
    {
        let m = match signals[i] {
            Signal::Dit => '.',
            Signal::Dah => '-',
            Signal::CharGap => ' ',
            Signal::WordGap => ' ',
        };
        proof {
            assert(m == mark_char(signals@[i as int]));
            assert(spec_char_code(c)[i as int] == mark_char(spec_char_signals(c)[i as int]));
        }
        out.push(m);
        proof {
            assert(out@ =~= spec_char_code(c).take(i + 1));
        }
        i = i + 1;
    }
    proof {
        assert(spec_char_code(c).take(spec_char_code(c).len() as int) =~= spec_char_code(c));
        assert(spec_char_code(c).len() == spec_char_signals(c).len());
    }
    out
}

/// The character one pattern token decodes to, executably.
fn token_char(token: &[char]) -> (r: Option<char>)
    ensures
        r == spec_token_char(token@),
{
    let mut signals: Vec<Signal> = Vec::new();
    let mut i: usize = 0;
    while i < token.len()
        invariant
            i <= token@.len(),
            all_marks(token@.take(i as int)),
            signals@ == marks_of(token@.take(i as int)),
        decreases token@.len() - i,
    {
        let c = token[i];
        if c == '.' {
            signals.push(Signal::Dit);
        } else if c == '-' {
            signals.push(Signal::Dah);
        } else {
            proof {
                assert(!(token@[i as int] == '.' || token@[i as int] == '-'));
                assert(!all_marks(token@));
            }
            return None;
        }
        proof {
            assert(signals@ =~= marks_of(token@.take(i + 1)));
        }
        i = i + 1;
    }
    proof {
        assert(token@.take(token@.len() as int) =~= token@);
        assert(marks_of(token@).len() == token@.len());
        assert(gap_free(marks_of(token@))) by {
            assert(forall|j: int|
                0 <= j < token@.len() ==> marks_of(token@)[j] == (if token@[j] == '.' {
                    Signal::Dit
                } else {
                    Signal::Dah
                }));
        }
    }
    Morse::signals_to_char(signals.as_slice())
}

impl MorseConverter {
    /// Converts text to Morse code and returns the text and the code as two
    /// column-aligned rows: each character centered over its code, every
    /// column one wider than the longest code in the text.
    pub fn str_morse_eq(text: &str) -> (r: (String, String))
        ensures
            r.0@ == aligned_text_row(text@, max_code_len(text@) + 1),
            r.1@ == aligned_code_row(text@, max_code_len(text@) + 1),
    {
        let n = text.unicode_len();
        // Pass one: the widest code.
        let mut m: usize = 0;
        let mut i: usize = 0;
        while i < n
            invariant
                n == text@.len(),
                i <= n,
                m as int == max_code_len(text@.take(i as int)),
                m <= 5,
            decreases n - i,
        {
            proof {
                assert(text@.take(i + 1).drop_last() =~= text@.take(i as int));
                assert(text@.take(i + 1).last() == text@[i as int]);
            }
            let c = text.get_char(i);
            let code = char_code(c);
            let dlen = if code.len() > 0 {
                code.len()
            } else {
                1
            };
            proof {
                assert(dlen as int == display_code(text@[i as int]).len());
                assert(spec_char_signals(text@[i as int]).len() <= 5);
            }
            if dlen > m {
                m = dlen;
            }
            i = i + 1;
        }
        proof {
            assert(text@.take(n as int) =~= text@);
        }
        let w = m + 1;
        // Pass two: the two rows.
        let mut row_text: Vec<char> = Vec::new();
        let mut row_code: Vec<char> = Vec::new();
        let mut i: usize = 0;
        while i < n
            invariant
                n == text@.len(),
                i <= n,
                w as int == max_code_len(text@) + 1,
                1 <= w <= 6,
                row_text@ == aligned_text_row(text@.take(i as int), w as int),
                row_code@ == aligned_code_row(text@.take(i as int), w as int),
            decreases n - i,
        {
            proof {
                assert(text@.take(i + 1).drop_last() =~= text@.take(i as int));
                assert(text@.take(i + 1).last() == text@[i as int]);
            }
            let c = text.get_char(i);
            proof {
                lemma_max_code_len_ge(text@, i as int);
            }
            let ghost row_text0 = row_text@;
            let ghost row_code0 = row_code@;
            // The text cell: the character centered in the column.
            let left = (w - 1) / 2;
            let right = w - 1 - left;
            let mut k: usize = 0;
            while k < left
                invariant
                    k <= left,
                    row_text@ == row_text0 + spaces(k as int),
                decreases left - k,
            {
                row_text.push(' ');
                proof {
                    assert(row_text@ =~= row_text0 + spaces(k + 1));
                }
                k = k + 1;
            }
            row_text.push(upper_char(c));
            let ghost row_text1 = row_text@;
            let mut k: usize = 0;
            while k < right
                invariant
                    k <= right,
                    row_text@ == row_text1 + spaces(k as int),
                decreases right - k,
            {
                row_text.push(' ');
                proof {
                    assert(row_text@ =~= row_text1 + spaces(k + 1));
                }
                k = k + 1;
            }
            proof {
                assert(row_text@ =~= aligned_text_row(text@.take(i + 1), w as int));
            }
            // The code cell: the code padded on the right.
            let mut code = char_code(c);
            let clen = if code.len() > 0 {
                code.len()
            } else {
                1
            };
            if code.len() == 0 {
                code.push(' ');
            }
            proof {
                assert(code@ =~= display_code(text@[i as int]));
                assert(clen as int == display_code(text@[i as int]).len());
            }
            row_code.append(&mut code);
            let ghost row_code1 = row_code@;
            let pad = w - clen;
            let mut k: usize = 0;
            while k < pad
                invariant
                    k <= pad,
                    row_code@ == row_code1 + spaces(k as int),
                decreases pad - k,
            {
                row_code.push(' ');
                proof {
                    assert(row_code@ =~= row_code1 + spaces(k + 1));
                }
                k = k + 1;
            }
            proof {
                assert(row_code@ =~= aligned_code_row(text@.take(i + 1), w as int));
            }
            i = i + 1;
        }
        proof {
            assert(text@.take(n as int) =~= text@);
        }
        (chars_to_string(&row_text), chars_to_string(&row_code))
    }

    /// Converts text to Morse code: the codes of the mapped characters,
    /// joined by single spaces, with a lone space standing in for each word
    /// break.
    pub fn text_to_morse(text: &str) -> (r: String)
        ensures
            r@ == spec_text_to_morse(text@),
    {
        let n = text.unicode_len();
        let mut out: Vec<char> = Vec::new();
        let mut first = true;
        let mut i: usize = 0;
        proof {
            assert(text@.skip(0) =~= text@);
            assert(out@ + t2m_rec(text@, true) =~= t2m_rec(text@, true));
        }
        while i < n
            invariant
                n == text@.len(),
                i <= n,
                spec_text_to_morse(text@) == out@ + t2m_rec(text@.skip(i as int), first),
            decreases n - i,
        {
            let ghost rest = text@.skip(i as int);
            let ghost out0 = out@;
            proof {
                assert(rest.drop_first() =~= text@.skip(i + 1));
                assert(rest[0] == text@[i as int]);
            }
            let c = text.get_char(i);
            let mut code = char_code(c);
            if code.len() > 0 {
                let ghost was_first = first;
                if !first {
                    out.push(' ');
                }
                out.append(&mut code);
                first = false;
                proof {
                    assert(out0 + ((if was_first {
                        Seq::<char>::empty()
                    } else {
                        seq![' ']
                    }) + spec_char_code(text@[i as int]) + t2m_rec(text@.skip(i + 1), false))
                        =~= out@ + t2m_rec(text@.skip(i + 1), false));
                }
            }
            i = i + 1;
        }
        proof {
            assert(text@.skip(n as int) =~= Seq::<char>::empty());
            assert(out@ + t2m_rec(text@.skip(n as int), first) =~= out@);
        }
        chars_to_string(&out)
    }

    /// Converts Morse code back to text: tokens of dots and dashes are
    /// looked up in the code, single spaces separate letters, double spaces
    /// separate words, and words join with single spaces.
    pub fn morse_to_text(morse: &str) -> (r: String)
        ensures
            r@ == spec_morse_to_text(morse@),
    {
        let n = morse.unicode_len();
        let mut token: Vec<char> = Vec::new();
        let mut word: Vec<char> = Vec::new();
        let mut out: Vec<char> = Vec::new();
        let mut first = true;
        let mut i: usize = 0;
        proof {
            assert(morse@.skip(0) =~= morse@);
            assert(token@ =~= Seq::<char>::empty());
            assert(word@ =~= Seq::<char>::empty());
            assert(out@ =~= Seq::<char>::empty());
        }
        while i < n
            invariant
                n == morse@.len(),
                i <= n,
                first ==> out@.len() == 0,
                spec_morse_to_text(morse@) == m2t_rec(
                    morse@.skip(i as int),
                    token@,
                    word@,
                    out@,
                    first,
                ),
            decreases n - i,
        {
            let ghost rest = morse@.skip(i as int);
            let ghost token0 = token@;
            let ghost word0 = word@;
            let ghost out0 = out@;
            let ghost first0 = first;
            proof {
                assert(rest.drop_first() =~= morse@.skip(i + 1));
                assert(rest[0] == morse@[i as int]);
            }
            let c = morse.get_char(i);
            if c == ' ' && i + 1 < n && morse.get_char(i + 1) == ' ' {
                proof {
                    assert(rest.len() >= 2 && rest[1] == morse@[i + 1]);
                    assert(rest.skip(2) =~= morse@.skip(i + 2));
                }
                // A word boundary: close the token and the word.
                match token_char(token.as_slice()) {
                    Some(t) => {
                        word.push(t);
                    },
                    None => {},
                }
                token.clear();
                if !first {
                    out.push(' ');
                }
                out.append(&mut word);
                first = false;
                proof {
                    assert(word@ =~= Seq::<char>::empty());
                    assert(token@ =~= Seq::<char>::empty());
                    assert(out@ =~= emit_word(out0, word0 + token_chars(token0), first0));
                    assert(m2t_rec(rest, token0, word0, out0, first0) == m2t_rec(
                        morse@.skip(i + 2),
                        token@,
                        word@,
                        out@,
                        false,
                    ));
                }
                i = i + 2;
            } else if c == ' ' {
                // A letter boundary: close the token into the word.
                match token_char(token.as_slice()) {
                    Some(t) => {
                        word.push(t);
                    },
                    None => {},
                }
                token.clear();
                proof {
                    assert(token@ =~= Seq::<char>::empty());
                    assert(word@ =~= word0 + token_chars(token0));
                }
                i = i + 1;
            } else {
                token.push(c);
                i = i + 1;
            }
        }
        proof {
            assert(morse@.skip(n as int) =~= Seq::<char>::empty());
        }
        match token_char(token.as_slice()) {
            Some(t) => {
                word.push(t);
            },
            None => {},
        }
        if !first {
            out.push(' ');
        }
        out.append(&mut word);
        proof {
            assert(out@ =~= spec_morse_to_text(morse@));
        }
        chars_to_string(&out)
    }
}


impl MorseConverter {
    /// One tone burst for the Morse pitch, executably.
    fn generate_tone(duration_ms: u32, frequency: u32, sample_rate: u32) -> (r: Vec<i32>)
        requires
            1 <= sample_rate <= crate::config::MAX_SAMPLE_RATE,
            1 <= frequency <= crate::config::MAX_FREQUENCY,
            duration_ms <= crate::config::MAX_DURATION_MS,
        ensures
            r@ == crate::audio::wave::scaled_tone_seq(
                frequency as int,
                sample_rate as int,
                crate::audio::wave::duration_samples(duration_ms as int, sample_rate as int) as nat,
                crate::audio::SAMPLE_SCALE as int,
            ),
    {
        let n = crate::audio::wave::duration_to_samples(duration_ms, sample_rate);
        crate::audio::wave::tone_samples(frequency, sample_rate, n, crate::audio::SAMPLE_SCALE)
    }

    /// One gap of silence, executably.
    fn generate_silence(duration_ms: u32, sample_rate: u32) -> (r: Vec<i32>)
        requires
            1 <= sample_rate <= crate::config::MAX_SAMPLE_RATE,
            duration_ms <= crate::config::MAX_DURATION_MS,
        ensures
            r@ == morse_silence(duration_ms as int, sample_rate as int),
    {
        let n = crate::audio::wave::duration_to_samples(duration_ms, sample_rate);
        crate::audio::wave::silence_samples(n)
    }

    /// Sound out Morse pattern text: dots and dashes become 440 Hz tone
    /// bursts of one and three units, with one unit of silence inside a
    /// letter, three between letters, and seven per word break.
    pub fn morse_to_samples(morse: &str, sample_rate: u32) -> (r: Vec<i32>)
        requires
            1 <= sample_rate <= crate::config::MAX_SAMPLE_RATE,
        ensures
            r@ == spec_morse_to_samples(morse@, sample_rate as int),
    {
        let n = morse.unicode_len();
        let mut samples: Vec<i32> = Vec::new();
        let mut letter_open = false;
        let mut letter_seen = false;
        let mut j: usize = 0;
        let mut i: usize = 0;
        proof {
            assert(morse@.skip(0) =~= morse@);
            assert(samples@ =~= Seq::<i32>::empty());
        }
        while i < n
            invariant
                n == morse@.len(),
                i <= n,
                j <= i,
                1 <= sample_rate <= crate::config::MAX_SAMPLE_RATE,
                spec_morse_to_samples(morse@, sample_rate as int) == m2s_rec(
                    morse@.skip(i as int),
                    sample_rate as int,
                    letter_open,
                    letter_seen,
                    j as int,
                    samples@,
                ),
            decreases n - i,
        {
            let ghost rest = morse@.skip(i as int);
            proof {
                assert(rest.drop_first() =~= morse@.skip(i + 1));
                assert(rest[0] == morse@[i as int]);
            }
            let c = morse.get_char(i);
            let ghost open0 = letter_open;
            let ghost seen0 = letter_seen;
            let ghost j0 = j as int;
            let ghost samples0 = samples@;
            if c == ' ' && n - i >= 3 && morse.get_char(i + 1) == ' ' && morse.get_char(i + 2)
                == ' ' {
                proof {
                    assert(rest.len() >= 3 && rest[1] == morse@[i + 1] && rest[2] == morse@[i + 2]);
                    assert(rest.skip(3) =~= morse@.skip(i + 3));
                }
                let mut gap = Self::generate_silence(WORD_GAP_MS, sample_rate);
                samples.append(&mut gap);
                letter_open = false;
                letter_seen = false;
                j = 0;
                proof {
                    assert(m2s_rec(rest, sample_rate as int, open0, seen0, j0, samples0)
                        == m2s_rec(
                        morse@.skip(i + 3),
                        sample_rate as int,
                        letter_open,
                        letter_seen,
                        j as int,
                        samples@,
                    ));
                }
                i = i + 3;
            } else if c == ' ' {
                letter_open = false;
                proof {
                    assert(m2s_rec(rest, sample_rate as int, open0, seen0, j0, samples0)
                        == m2s_rec(
                        morse@.skip(i + 1),
                        sample_rate as int,
                        letter_open,
                        letter_seen,
                        j as int,
                        samples@,
                    ));
                }
                i = i + 1;
            } else {
                if !letter_open {
                    if letter_seen {
                        let mut gap = Self::generate_silence(LETTER_GAP_MS, sample_rate);
                        samples.append(&mut gap);
                    }
                    j = 0;
                    letter_open = true;
                }
                letter_seen = true;
                if j > 0 {
                    let mut gap = Self::generate_silence(ELEMENT_GAP_MS, sample_rate);
                    samples.append(&mut gap);
                }
                if c == '.' {
                    let mut tone = Self::generate_tone(DOT_DURATION_MS, MORSE_TONE_HZ, sample_rate);
                    samples.append(&mut tone);
                } else if c == '-' {
                    let mut tone = Self::generate_tone(
                        DASH_DURATION_MS,
                        MORSE_TONE_HZ,
                        sample_rate,
                    );
                    samples.append(&mut tone);
                }
                j = j + 1;
                proof {
                    assert(m2s_rec(rest, sample_rate as int, open0, seen0, j0, samples0)
                        == m2s_rec(
                        morse@.skip(i + 1),
                        sample_rate as int,
                        letter_open,
                        letter_seen,
                        j as int,
                        samples@,
                    ));
                }
                i = i + 1;
            }
        }
        proof {
            assert(morse@.skip(n as int) =~= Seq::<char>::empty());
        }
        samples
    }

    /// Read Morse pattern text back out of samples: in chunks of a tenth of
    /// a second, a loud chunk extends the mark in progress, the first quiet
    /// chunk closes it as a dot or a dash, and a third consecutive quiet
    /// chunk separates letters.
    pub fn samples_to_morse(samples: &[i32], sample_rate: u32) -> (r: String)
        requires
            10 <= sample_rate <= crate::config::MAX_SAMPLE_RATE,
            samples@.len() + 100_000 <= usize::MAX,
        ensures
            r@ == spec_samples_to_morse(samples@, sample_rate as int),
    {
        let chunk: usize = (sample_rate / 10) as usize;
        let mut morse: Vec<char> = Vec::new();
        let mut silence_count: usize = 0;
        let mut cur: usize = 0;
        let mut pos: usize = 0;
        proof {
            assert(samples@.skip(0) =~= samples@);
            assert(morse@ =~= Seq::<char>::empty());
        }
        while pos < samples.len()
            invariant
                pos <= samples@.len(),
                samples@.len() + 100_000 <= usize::MAX,
                1 <= chunk <= 100_000,
                chunk == sample_rate as int / 10,
                cur <= pos,
                silence_count <= pos,
                spec_samples_to_morse(samples@, sample_rate as int) == s2m_rec(
                    samples@.skip(pos as int),
                    chunk as int,
                    silence_count as int,
                    cur as int,
                    morse@,
                ),
            decreases samples@.len() - pos,
        {
            let ghost rest = samples@.skip(pos as int);
            let end = if pos + chunk <= samples.len() {
                pos + chunk
            } else {
                samples.len()
            };
            proof {
                assert(rest.take((end - pos) as int) =~= samples@.subrange(pos as int, end as int));
                assert(rest.skip((end - pos) as int) =~= samples@.skip(end as int));
            }
            // The chunk's summed magnitude.
            let mut sum: i64 = 0;
            let mut k: usize = pos;
            while k < end
                invariant
                    pos <= k <= end,
                    end <= samples@.len(),
                    end - pos <= 100_000,
                    0 <= sum,
                    sum as int == abs_sum(samples@.subrange(pos as int, k as int)),
                    sum as int <= (k - pos) * 0x8000_0000,
                decreases end - k,
            {
                proof {
                    assert(samples@.subrange(pos as int, k + 1).drop_last() =~= samples@.subrange(
                        pos as int,
                        k as int,
                    ));
                    assert(samples@.subrange(pos as int, k + 1).last() == samples@[k as int]);
                    assert((k - pos) * 0x8000_0000 + 0x8000_0000 == (k + 1 - pos) * 0x8000_0000);
                    assert((k - pos) * 0x8000_0000 <= 100_000 * 0x8000_0000) by (nonlinear_arith)
                        requires
                            0 <= k - pos <= 100_000,
                    ;
                }
                let s = samples[k];
                let a: i64 = if s >= 0 {
                    s as i64
                } else {
                    -(s as i64)
                };
                sum = sum + a;
                k = k + 1;
            }
            let loud = sum > 8192i64 * ((end - pos) as i64);
            proof {
                assert(8192 == crate::audio::SAMPLE_SCALE as int / 2);
                assert(loud == chunk_loud(samples@.subrange(pos as int, end as int)));
                assert((end - pos) as int == (if chunk as int <= rest.len() {
                    chunk as int
                } else {
                    rest.len() as int
                }));
            }
            if loud {
                silence_count = 0;
                cur = cur + 1;
            } else {
                silence_count = silence_count + 1;
                if silence_count == 1 {
                    if cur > 1 {
                        morse.push('-');
                    } else if cur > 0 {
                        morse.push('.');
                    }
                    cur = 0;
                } else if silence_count == 3 {
                    morse.push(' ');
                }
            }
            pos = end;
        }
        proof {
            assert(samples@.skip(samples@.len() as int) =~= Seq::<i32>::empty());
        }
        chars_to_string(&morse)
    }
}

} // verus!
