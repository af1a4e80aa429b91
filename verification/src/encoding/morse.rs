use vstd::prelude::*;

verus! {

use vstd::arithmetic::power2::pow2;
use crate::encoding::Encoder;

/// One element of a Morse transmission: a short mark, a long mark, or one of
/// the two gap widths.
#[derive(Debug, Eq, Hash, PartialEq, Copy, Clone, Structural)]
pub enum Signal {
    Dit,
    Dah,
    /// Gap between characters (three units).
    CharGap,
    /// Gap between words (seven units).
    WordGap,
}

/// The text-to-Morse codec over `Signal` sequences, with its tone front-end.
pub struct Morse;

/// The Morse pattern of a character, as marks; letters map case-insensitively,
/// a space maps to a character gap, and anything else maps to nothing.
pub open spec fn spec_char_signals(c: char) -> Seq<Signal> {
    if c == 'A' || c == 'a' {
        seq![Signal::Dit, Signal::Dah]
    } else if c == 'B' || c == 'b' {
        seq![Signal::Dah, Signal::Dit, Signal::Dit, Signal::Dit]
    } else if c == 'C' || c == 'c' {
        seq![Signal::Dah, Signal::Dit, Signal::Dah, Signal::Dit]
    } else if c == 'D' || c == 'd' {
        seq![Signal::Dah, Signal::Dit, Signal::Dit]
    } else if c == 'E' || c == 'e' {
        seq![Signal::Dit]
    } else if c == 'F' || c == 'f' {
        seq![Signal::Dit, Signal::Dit, Signal::Dah, Signal::Dit]
    } else if c == 'G' || c == 'g' {
        seq![Signal::Dah, Signal::Dah, Signal::Dit]
    } else if c == 'H' || c == 'h' {
        seq![Signal::Dit, Signal::Dit, Signal::Dit, Signal::Dit]
    } else if c == 'I' || c == 'i' {
        seq![Signal::Dit, Signal::Dit]
    } else if c == 'J' || c == 'j' {
        seq![Signal::Dit, Signal::Dah, Signal::Dah, Signal::Dah]
    } else if c == 'K' || c == 'k' {
        seq![Signal::Dah, Signal::Dit, Signal::Dah]
    } else if c == 'L' || c == 'l' {
        seq![Signal::Dit, Signal::Dah, Signal::Dit, Signal::Dit]
    } else if c == 'M' || c == 'm' {
        seq![Signal::Dah, Signal::Dah]
    } else if c == 'N' || c == 'n' {
        seq![Signal::Dah, Signal::Dit]
    } else if c == 'O' || c == 'o' {
        seq![Signal::Dah, Signal::Dah, Signal::Dah]
    } else if c == 'P' || c == 'p' {
        seq![Signal::Dit, Signal::Dah, Signal::Dah, Signal::Dit]
    } else if c == 'Q' || c == 'q' {
        seq![Signal::Dah, Signal::Dah, Signal::Dit, Signal::Dah]
    } else if c == 'R' || c == 'r' {
        seq![Signal::Dit, Signal::Dah, Signal::Dit]
    } else if c == 'S' || c == 's' {
        seq![Signal::Dit, Signal::Dit, Signal::Dit]
    } else if c == 'T' || c == 't' {
        seq![Signal::Dah]
    } else if c == 'U' || c == 'u' {
        seq![Signal::Dit, Signal::Dit, Signal::Dah]
    } else if c == 'V' || c == 'v' {
        seq![Signal::Dit, Signal::Dit, Signal::Dit, Signal::Dah]
    } else if c == 'W' || c == 'w' {
        seq![Signal::Dit, Signal::Dah, Signal::Dah]
    } else if c == 'X' || c == 'x' {
        seq![Signal::Dah, Signal::Dit, Signal::Dit, Signal::Dah]
    } else if c == 'Y' || c == 'y' {
        seq![Signal::Dah, Signal::Dit, Signal::Dah, Signal::Dah]
    } else if c == 'Z' || c == 'z' {
        seq![Signal::Dah, Signal::Dah, Signal::Dit, Signal::Dit]
    } else if c == '0' {
        seq![Signal::Dah, Signal::Dah, Signal::Dah, Signal::Dah, Signal::Dah]
    } else if c == '1' {
        seq![Signal::Dit, Signal::Dah, Signal::Dah, Signal::Dah, Signal::Dah]
    } else if c == '2' {
        seq![Signal::Dit, Signal::Dit, Signal::Dah, Signal::Dah, Signal::Dah]
    } else if c == '3' {
        seq![Signal::Dit, Signal::Dit, Signal::Dit, Signal::Dah, Signal::Dah]
    } else if c == '4' {
        seq![Signal::Dit, Signal::Dit, Signal::Dit, Signal::Dit, Signal::Dah]
    } else if c == '5' {
        seq![Signal::Dit, Signal::Dit, Signal::Dit, Signal::Dit, Signal::Dit]
    } else if c == '6' {
        seq![Signal::Dah, Signal::Dit, Signal::Dit, Signal::Dit, Signal::Dit]
    } else if c == '7' {
        seq![Signal::Dah, Signal::Dah, Signal::Dit, Signal::Dit, Signal::Dit]
    } else if c == '8' {
        seq![Signal::Dah, Signal::Dah, Signal::Dah, Signal::Dit, Signal::Dit]
    } else if c == '9' {
        seq![Signal::Dah, Signal::Dah, Signal::Dah, Signal::Dah, Signal::Dit]
    } else if c == ' ' {
        seq![Signal::CharGap]
    } else {
        seq![]
    }
}

/// Whether a mark sequence holds marks only, no gaps.
pub open spec fn gap_free(signals: Seq<Signal>) -> bool {
    forall|i: int| 0 <= i < signals.len() ==> (signals[i] is Dit || signals[i] is Dah)
}

/// A mark sequence read as a binary number with a leading one: a prefix-free
/// key that tells every pattern in the code apart.
pub open spec fn spec_signal_key(signals: Seq<Signal>) -> int
    decreases signals.len(),
{
    if signals.len() == 0 {
        1
    } else {
        2 * spec_signal_key(signals.drop_last()) + (if signals.last() is Dah {
            1int
        } else {
            0int
        })
    }
}

/// The character whose pattern has key `k`, if the code has one.
pub open spec fn char_of_key(k: int) -> Option<char> {
    if k == 5 {
        Some('A')
    } else if k == 24 {
        Some('B')
    } else if k == 26 {
        Some('C')
    } else if k == 12 {
        Some('D')
    } else if k == 2 {
        Some('E')
    } else if k == 18 {
        Some('F')
    } else if k == 14 {
        Some('G')
    } else if k == 16 {
        Some('H')
    } else if k == 4 {
        Some('I')
    } else if k == 23 {
        Some('J')
    } else if k == 13 {
        Some('K')
    } else if k == 20 {
        Some('L')
    } else if k == 7 {
        Some('M')
    } else if k == 6 {
        Some('N')
    } else if k == 15 {
        Some('O')
    } else if k == 22 {
        Some('P')
    } else if k == 29 {
        Some('Q')
    } else if k == 10 {
        Some('R')
    } else if k == 8 {
        Some('S')
    } else if k == 3 {
        Some('T')
    } else if k == 9 {
        Some('U')
    } else if k == 17 {
        Some('V')
    } else if k == 11 {
        Some('W')
    } else if k == 25 {
        Some('X')
    } else if k == 27 {
        Some('Y')
    } else if k == 28 {
        Some('Z')
    } else if k == 63 {
        Some('0')
    } else if k == 47 {
        Some('1')
    } else if k == 39 {
        Some('2')
    } else if k == 35 {
        Some('3')
    } else if k == 33 {
        Some('4')
    } else if k == 32 {
        Some('5')
    } else if k == 48 {
        Some('6')
    } else if k == 56 {
        Some('7')
    } else if k == 60 {
        Some('8')
    } else if k == 62 {
        Some('9')
    } else {
        None
    }
}

/// The character a finished mark group decodes to: a lone gap reads as a
/// space, a mark pattern of at most five marks is looked up in the code, and
/// everything else decodes to nothing.
pub open spec fn spec_signals_char(signals: Seq<Signal>) -> Option<char> {
    if signals.len() == 1 && (signals[0] is CharGap || signals[0] is WordGap) {
        Some(' ')
    } else if gap_free(signals) && 1 <= signals.len() <= 5 {
        char_of_key(spec_signal_key(signals))
    } else {
        None
    }
}

/// Whether `acc` ends with a space.
pub open spec fn ends_with_space(acc: Seq<char>) -> bool {
    acc.len() > 0 && acc.last() == ' '
}

/// Close the current mark group: append the character it decodes to, if any.
pub open spec fn flush_group(acc: Seq<char>, cur: Seq<Signal>) -> Seq<char> {
    if cur.len() > 0 {
        match spec_signals_char(cur) {
            Some(c) => acc.push(c),
            None => acc,
        }
    } else {
        acc
    }
}

/// The signal-to-text state machine: marks gather into a group, a gap closes
/// the group, and a word gap additionally writes one separating space unless
/// one just went out.
pub open spec fn s2t_rec(signals: Seq<Signal>, cur: Seq<Signal>, gap: int, acc: Seq<char>) -> Seq<
    char,
>
    decreases signals.len(),
{
    if signals.len() == 0 {
        flush_group(acc, cur)
    } else {
        let s = signals[0];
        let rest = signals.drop_first();
        if s is CharGap || s is WordGap {
            let acc1 = flush_group(acc, cur);
            if s is WordGap && !ends_with_space(acc1) && gap == 0 {
                s2t_rec(rest, Seq::empty(), 1, acc1.push(' '))
            } else {
                s2t_rec(rest, Seq::empty(), gap, acc1)
            }
        } else {
            s2t_rec(rest, cur.push(s), 0, acc)
        }
    }
}

/// `s` with its leading spaces removed.
pub open spec fn trim_front(s: Seq<char>) -> Seq<char>
    decreases s.len(),
{
    if s.len() > 0 && s[0] == ' ' {
        trim_front(s.drop_first())
    } else {
        s
    }
}

/// `s` with its trailing spaces removed.
pub open spec fn trim_back(s: Seq<char>) -> Seq<char>
    decreases s.len(),
{
    if s.len() > 0 && s.last() == ' ' {
        trim_back(s.drop_last())
    } else {
        s
    }
}

/// `s` with leading and trailing spaces removed.
pub open spec fn spec_trim(s: Seq<char>) -> Seq<char> {
    trim_back(trim_front(s))
}

/// What `signals_to_text` returns.
pub open spec fn spec_signals_to_text(signals: Seq<Signal>) -> Seq<char> {
    spec_trim(s2t_rec(signals, Seq::empty(), 0, Seq::empty()))
}

/// Whether the Morse code maps `c`: an ASCII letter or digit.
pub open spec fn morse_mappable(c: char) -> bool {
    (65 <= c as u32 <= 90) || (97 <= c as u32 <= 122) || (48 <= c as u32 <= 57)
}

/// The text-to-signal state machine: a space becomes a word gap, a mapped
/// character becomes its marks with a character gap before it unless it opens
/// a word, and everything else is dropped.
pub open spec fn t2s_rec(text: Seq<char>, first: bool) -> Seq<Signal>
    decreases text.len(),
{
    if text.len() == 0 {
        seq![]
    } else {
        let c = text[0];
        let rest = text.drop_first();
        if c == ' ' {
            seq![Signal::WordGap] + t2s_rec(rest, true)
        } else if morse_mappable(c) {
            (if first {
                seq![]
            } else {
                seq![Signal::CharGap]
            }) + spec_char_signals(c) + t2s_rec(rest, false)
        } else {
            t2s_rec(rest, first)
        }
    }
}

/// What `text_to_signals` returns.
pub open spec fn spec_text_to_signals(text: Seq<char>) -> Seq<Signal> {
    t2s_rec(text, true)
}

/// Relies on `String`'s `FromIterator` over `char`: collecting characters
/// yields the string of exactly those characters in order.
#[verifier::external_body]
pub(crate) fn chars_to_string(chars: &Vec<char>) -> (r: String)
    ensures
        r@ == chars@,
{
    chars.iter().collect()
}

/// `v` with leading and trailing spaces removed.
pub(crate) fn trim_spaces(v: &Vec<char>) -> (r: Vec<char>)
    ensures
        r@ == spec_trim(v@),
{
    let mut a: usize = 0;
    proof {
        assert(v@.skip(0) =~= v@);
    }
    while a < v.len() && v[a] == ' '
        invariant
            a <= v@.len(),
            trim_front(v@) == trim_front(v@.skip(a as int)),
        decreases v@.len() - a,
    {
        proof {
            assert(v@.skip(a as int).drop_first() =~= v@.skip(a + 1));
            assert(v@.skip(a as int)[0] == v@[a as int]);
        }
        a = a + 1;
    }
    let ghost u = v@.skip(a as int);
    proof {
        assert(trim_front(v@) == u);
    }
    let mut b: usize = v.len();
    proof {
        assert(u.take((b - a) as int) =~= u);
    }
    while b > a && v[b - 1] == ' '
        invariant
            a <= b <= v@.len(),
            u == v@.skip(a as int),
            trim_back(u) == trim_back(u.take((b - a) as int)),
        decreases b,
    {
        proof {
            assert(u.take((b - a) as int).drop_last() =~= u.take((b - 1 - a) as int));
            assert(u.take((b - a) as int).last() == v@[b - 1]);
        }
        b = b - 1;
    }
    proof {
        if b > a {
            assert(u.take((b - a) as int).last() == v@[b - 1]);
        }
        assert(trim_back(u.take((b - a) as int)) == u.take((b - a) as int));
    }
    let mut out: Vec<char> = Vec::new();
    let mut i: usize = a;
    while i < b
        invariant
            a <= i <= b <= v@.len(),
            u == v@.skip(a as int),
            out@ == u.take((i - a) as int),
        decreases b - i,
    {
        let c = v[i];
        out.push(c);
        proof {
            assert(out@ =~= u.take((i + 1 - a) as int));
        }
        i = i + 1;
    }
    out
}

/// A pattern key grows at most one binary digit per mark.
proof fn lemma_signal_key_bound(signals: Seq<Signal>)
    ensures
        1 <= spec_signal_key(signals) < pow2((signals.len() + 1) as nat),
    decreases signals.len(),
{
    vstd::arithmetic::power2::lemma_pow2_unfold((signals.len() + 1) as nat);
    if signals.len() == 0 {
        vstd::arithmetic::power2::lemma2_to64();
    } else {
        lemma_signal_key_bound(signals.drop_last());
    }
}

impl Morse {
    /// The marks of one character, executably.
    pub fn char_to_signal(c: char) -> (r: Vec<Signal>)
        ensures
            r@ == spec_char_signals(c),
    {
        let r = match c {
            'A' | 'a' => vec![Signal::Dit, Signal::Dah],
            'B' | 'b' => vec![Signal::Dah, Signal::Dit, Signal::Dit, Signal::Dit],
            'C' | 'c' => vec![Signal::Dah, Signal::Dit, Signal::Dah, Signal::Dit],
            'D' | 'd' => vec![Signal::Dah, Signal::Dit, Signal::Dit],
            'E' | 'e' => vec![Signal::Dit],
            'F' | 'f' => vec![Signal::Dit, Signal::Dit, Signal::Dah, Signal::Dit],
            'G' | 'g' => vec![Signal::Dah, Signal::Dah, Signal::Dit],
            'H' | 'h' => vec![Signal::Dit, Signal::Dit, Signal::Dit, Signal::Dit],
            'I' | 'i' => vec![Signal::Dit, Signal::Dit],
            'J' | 'j' => vec![Signal::Dit, Signal::Dah, Signal::Dah, Signal::Dah],
            'K' | 'k' => vec![Signal::Dah, Signal::Dit, Signal::Dah],
            'L' | 'l' => vec![Signal::Dit, Signal::Dah, Signal::Dit, Signal::Dit],
            'M' | 'm' => vec![Signal::Dah, Signal::Dah],
            'N' | 'n' => vec![Signal::Dah, Signal::Dit],
            'O' | 'o' => vec![Signal::Dah, Signal::Dah, Signal::Dah],
            'P' | 'p' => vec![Signal::Dit, Signal::Dah, Signal::Dah, Signal::Dit],
            'Q' | 'q' => vec![Signal::Dah, Signal::Dah, Signal::Dit, Signal::Dah],
            'R' | 'r' => vec![Signal::Dit, Signal::Dah, Signal::Dit],
            'S' | 's' => vec![Signal::Dit, Signal::Dit, Signal::Dit],
            'T' | 't' => vec![Signal::Dah],
            'U' | 'u' => vec![Signal::Dit, Signal::Dit, Signal::Dah],
            'V' | 'v' => vec![Signal::Dit, Signal::Dit, Signal::Dit, Signal::Dah],
            'W' | 'w' => vec![Signal::Dit, Signal::Dah, Signal::Dah],
            'X' | 'x' => vec![Signal::Dah, Signal::Dit, Signal::Dit, Signal::Dah],
            'Y' | 'y' => vec![Signal::Dah, Signal::Dit, Signal::Dah, Signal::Dah],
            'Z' | 'z' => vec![Signal::Dah, Signal::Dah, Signal::Dit, Signal::Dit],
            '0' => vec![Signal::Dah, Signal::Dah, Signal::Dah, Signal::Dah, Signal::Dah],
            '1' => vec![Signal::Dit, Signal::Dah, Signal::Dah, Signal::Dah, Signal::Dah],
            '2' => vec![Signal::Dit, Signal::Dit, Signal::Dah, Signal::Dah, Signal::Dah],
            '3' => vec![Signal::Dit, Signal::Dit, Signal::Dit, Signal::Dah, Signal::Dah],
            '4' => vec![Signal::Dit, Signal::Dit, Signal::Dit, Signal::Dit, Signal::Dah],
            '5' => vec![Signal::Dit, Signal::Dit, Signal::Dit, Signal::Dit, Signal::Dit],
            '6' => vec![Signal::Dah, Signal::Dit, Signal::Dit, Signal::Dit, Signal::Dit],
            '7' => vec![Signal::Dah, Signal::Dah, Signal::Dit, Signal::Dit, Signal::Dit],
            '8' => vec![Signal::Dah, Signal::Dah, Signal::Dah, Signal::Dit, Signal::Dit],
            '9' => vec![Signal::Dah, Signal::Dah, Signal::Dah, Signal::Dah, Signal::Dit],
            ' ' => vec![Signal::CharGap],
            _ => Vec::new(),
        };
        proof {
            assert(r@ =~= spec_char_signals(c));
        }
        r
    }

    /// The character one finished mark group decodes to, executably.
    pub fn signals_to_char(signals: &[Signal]) -> (r: Option<char>)
        ensures
            r == spec_signals_char(signals@),
    {
        if signals.len() == 1 {
            match signals[0] {
                Signal::CharGap | Signal::WordGap => {
                    return Some(' ');
                },
                _ => {},
            }
        }
        if signals.len() == 0 || signals.len() > 5 {
            return None;
        }
        let mut key: u32 = 1;
        let mut i: usize = 0;
        proof {
            assert(signals@.take(0) =~= Seq::<Signal>::empty());
        }
        while i < signals.len()
            invariant
                i <= signals@.len(),
                1 <= signals@.len() <= 5,
                !(signals@.len() == 1 && (signals@[0] is CharGap || signals@[0] is WordGap)),
                gap_free(signals@.take(i as int)),
                key as int == spec_signal_key(signals@.take(i as int)),
            decreases signals@.len() - i,
        {
            proof {
                lemma_signal_key_bound(signals@.take(i as int));
                vstd::arithmetic::power2::lemma2_to64();
                vstd::arithmetic::power2::lemma_pow2_strictly_increases(
                    (i + 1) as nat,
                    6,
                );
                assert(key < 64);
                assert(signals@.take(i + 1).drop_last() =~= signals@.take(i as int));
            }
            match signals[i] {
                Signal::Dit => {
                    key = 2 * key;
                },
                Signal::Dah => {
                    key = 2 * key + 1;
                },
                Signal::CharGap | Signal::WordGap => {
                    proof {
                        assert(signals@[i as int] is CharGap || signals@[i as int] is WordGap);
                        assert(!(signals@[i as int] is Dit || signals@[i as int] is Dah));
                        assert(!gap_free(signals@));
                    }
                    return None;
                },
            }
            i = i + 1;
        }
        proof {
            assert(signals@.take(signals@.len() as int) =~= signals@);
        }
        match key {
            5 => Some('A'),
            24 => Some('B'),
            26 => Some('C'),
            12 => Some('D'),
            2 => Some('E'),
            18 => Some('F'),
            14 => Some('G'),
            16 => Some('H'),
            4 => Some('I'),
            23 => Some('J'),
            13 => Some('K'),
            20 => Some('L'),
            7 => Some('M'),
            6 => Some('N'),
            15 => Some('O'),
            22 => Some('P'),
            29 => Some('Q'),
            10 => Some('R'),
            8 => Some('S'),
            3 => Some('T'),
            9 => Some('U'),
            17 => Some('V'),
            11 => Some('W'),
            25 => Some('X'),
            27 => Some('Y'),
            28 => Some('Z'),
            63 => Some('0'),
            47 => Some('1'),
            39 => Some('2'),
            35 => Some('3'),
            33 => Some('4'),
            32 => Some('5'),
            48 => Some('6'),
            56 => Some('7'),
            60 => Some('8'),
            62 => Some('9'),
            _ => None,
        }
    }

    /// Convert morse signals to text: groups of marks become characters,
    /// word gaps become single separating spaces, and the ends are trimmed.
    pub fn signals_to_text(signals: &[Signal]) -> (r: String)
        ensures
            r@ == spec_signals_to_text(signals@),
    {
        let ghost goal = s2t_rec(signals@, Seq::empty(), 0, Seq::empty());
        let mut result: Vec<char> = Vec::new();
        let mut current_char: Vec<Signal> = Vec::new();
        let mut gap_count: u32 = 0;
        let mut i: usize = 0;
        proof {
            assert(signals@.skip(0) =~= signals@);
        }
        while i < signals.len()
            invariant
                i <= signals@.len(),
                gap_count == 0 || gap_count == 1,
                goal == s2t_rec(
                    signals@.skip(i as int),
                    current_char@,
                    gap_count as int,
                    result@,
                ),
            decreases signals@.len() - i,
        {
            let ghost rest = signals@.skip(i as int);
            let ghost cur0 = current_char@;
            let ghost gap0 = gap_count as int;
            let ghost acc0 = result@;
            proof {
                assert(rest.drop_first() =~= signals@.skip(i + 1));
                assert(rest[0] == signals@[i as int]);
            }
            let s = signals[i];
            match s {
                Signal::CharGap | Signal::WordGap => {
                    let ghost acc1 = flush_group(result@, current_char@);
                    if current_char.len() > 0 {
                        match Morse::signals_to_char(current_char.as_slice()) {
                            Some(c) => {
                                result.push(c);
                            },
                            None => {},
                        }
                        current_char.clear();
                    }
                    proof {
                        assert(result@ == acc1);
                    }
                    let is_word_gap = matches!(s, Signal::WordGap);
                    let ends_space = result.len() > 0 && result[result.len() - 1] == ' ';
                    proof {
                        assert(ends_space == ends_with_space(acc1));
                    }
                    if is_word_gap && !ends_space && gap_count == 0 {
                        result.push(' ');
                        gap_count = 1;
                    }
                    proof {
                        assert(current_char@ =~= Seq::<Signal>::empty());
                        assert(is_word_gap == (rest[0] is WordGap));
                        assert(s2t_rec(rest, cur0, gap0, acc0) == s2t_rec(
                            signals@.skip(i + 1),
                            current_char@,
                            gap_count as int,
                            result@,
                        ));
                    }
                },
                _ => {
                    gap_count = 0;
                    current_char.push(s);
                    proof {
                        assert(rest[0] is Dit || rest[0] is Dah);
                        assert(current_char@ == cur0.push(rest[0]));
                        assert(s2t_rec(rest, cur0, gap0, acc0) == s2t_rec(
                            signals@.skip(i + 1),
                            current_char@,
                            gap_count as int,
                            result@,
                        ));
                    }
                },
            }
            i = i + 1;
        }
        if current_char.len() > 0 {
            match Morse::signals_to_char(current_char.as_slice()) {
                Some(c) => {
                    result.push(c);
                },
                None => {},
            }
        }
        proof {
            assert(signals@.skip(signals@.len() as int) =~= Seq::<Signal>::empty());
            assert(result@ == goal);
        }
        let trimmed = trim_spaces(&result);
        chars_to_string(&trimmed)
    }

    /// Convert text to morse signals: spaces become word gaps, letters and
    /// digits (either case) become their mark patterns separated by
    /// character gaps, and every other character is dropped.
    pub fn text_to_signals(text: &str) -> (r: Vec<Signal>)
        ensures
            r@ == spec_text_to_signals(text@),
    {
        let n = text.unicode_len();
        let mut out: Vec<Signal> = Vec::new();
        let mut first = true;
        let mut i: usize = 0;
        proof {
            assert(text@.skip(0) =~= text@);
            assert(out@ + t2s_rec(text@, true) =~= t2s_rec(text@, true));
        }
        while i < n
            invariant
                n == text@.len(),
                i <= n,
                spec_text_to_signals(text@) == out@ + t2s_rec(text@.skip(i as int), first),
            decreases n - i,
        {
            let ghost rest = text@.skip(i as int);
            let ghost out0 = out@;
            proof {
                assert(rest.drop_first() =~= text@.skip(i + 1));
                assert(rest[0] == text@[i as int]);
            }
            let c = text.get_char(i);
            let u = c as u32;
            if c == ' ' {
                out.push(Signal::WordGap);
                first = true;
                proof {
                    assert(out@ =~= out0.push(Signal::WordGap));
                    assert(out0 + (seq![Signal::WordGap] + t2s_rec(text@.skip(i + 1), true))
                        =~= out@ + t2s_rec(text@.skip(i + 1), true));
                }
            } else if (65 <= u && u <= 90) || (97 <= u && u <= 122) || (48 <= u && u <= 57) {
                let ghost was_first = first;
                if !first {
                    out.push(Signal::CharGap);
                }
                let mut cs = Morse::char_to_signal(c);
                out.append(&mut cs);
                first = false;
                proof {
                    assert(out0 + ((if was_first {
                        Seq::<Signal>::empty()
                    } else {
                        seq![Signal::CharGap]
                    }) + spec_char_signals(text@[i as int]) + t2s_rec(text@.skip(i + 1), false))
                        =~= out@ + t2s_rec(text@.skip(i + 1), false));
                }
            } else {
                proof {
                    assert(!morse_mappable(text@[i as int]));
                }
            }
            i = i + 1;
        }
        proof {
            assert(text@.skip(n as int) =~= Seq::<char>::empty());
            assert(out@ + t2s_rec(text@.skip(n as int), first) =~= out@);
        }
        out
    }
}


// ----------------------------------------------------------------------------
// The Morse codec as an Encoder: text bytes out as tone pulses and back.
// ----------------------------------------------------------------------------

/// The character a payload byte stands for: ASCII bytes are themselves, the
/// rest map to the replacement character (and so to no marks).
pub open spec fn byte_char(b: u8) -> char {
    if b < 128 {
        b as char
    } else {
        '\u{FFFD}'
    }
}

/// The characters of a byte payload.
pub open spec fn bytes_chars(data: Seq<u8>) -> Seq<char> {
    data.map_values(|b: u8| byte_char(b))
}

/// The bytes of decoded (ASCII) text.
pub open spec fn ascii_bytes(text: Seq<char>) -> Seq<u8> {
    text.map_values(|c: char| c as u8)
}

/// The sound of one signal under the stock audio configuration: a one-unit
/// tone for a short mark, three for a long one, three units of silence
/// between characters and seven between words.
pub open spec fn signal_wave(s: Signal) -> Seq<i32> {
    let cfg = crate::config::AudioConfig::default_spec();
    match s {
        Signal::Dit => crate::audio::wave::scaled_tone_seq(
            cfg.base_frequency as int,
            cfg.sample_rate as int,
            crate::audio::wave::duration_samples(100, cfg.sample_rate as int) as nat,
            cfg.amplitude as int,
        ),
        Signal::Dah => crate::audio::wave::scaled_tone_seq(
            cfg.base_frequency as int,
            cfg.sample_rate as int,
            crate::audio::wave::duration_samples(300, cfg.sample_rate as int) as nat,
            cfg.amplitude as int,
        ),
        Signal::CharGap => crate::audio::wave::silence_seq(
            crate::audio::wave::duration_samples(300, cfg.sample_rate as int) as nat,
        ),
        Signal::WordGap => crate::audio::wave::silence_seq(
            crate::audio::wave::duration_samples(700, cfg.sample_rate as int) as nat,
        ),
    }
}

/// The sound of a whole signal sequence, in order.
pub open spec fn morse_wave(signals: Seq<Signal>) -> Seq<i32>
    decreases signals.len(),
{
    if signals.len() == 0 {
        Seq::empty()
    } else {
        morse_wave(signals.drop_last()) + signal_wave(signals.last())
    }
}

/// The signal a detected pulse length reads as, against the expected pulse
/// width: too short for a mark is a gap, within tolerance a short mark, and
/// longer a long mark.
pub open spec fn classify_pulse(p: int, min_pulse: int, max_pulse: int) -> Signal {
    if p < min_pulse {
        Signal::CharGap
    } else if p <= max_pulse {
        Signal::Dit
    } else {
        Signal::Dah
    }
}

/// Every detected pulse classified, in order.
pub open spec fn classified(pulses: Seq<int>, min_pulse: int, max_pulse: int) -> Seq<Signal> {
    pulses.map_values(|p: int| classify_pulse(p, min_pulse, max_pulse))
}

/// The expected base pulse width under the stock configuration, in samples.
pub open spec fn stock_base_samples() -> int {
    let cfg = crate::config::AudioConfig::default_spec();
    crate::audio::wave::duration_samples(cfg.base_duration as int, cfg.sample_rate as int)
}

impl Encoder for Morse {
    open spec fn wf(&self) -> bool {
        true
    }

    open spec fn encode_ok(&self, data: Seq<u8>) -> bool {
        true
    }

    open spec fn decode_ok(&self, samples: Seq<i32>) -> bool {
        true
    }

    /// The sound of the text's signals under the stock configuration.
    open spec fn encode_spec(&self, data: Seq<u8>) -> Seq<i32> {
        morse_wave(spec_text_to_signals(bytes_chars(data)))
    }

    /// Pulses detected at a tenth of full scale, classified against the
    /// stock pulse width, read back as text.
    open spec fn decode_spec(&self, samples: Seq<i32>) -> Seq<u8> {
        let thr = (crate::audio::SAMPLE_SCALE / 10) as int;
        let pulses = crate::audio::wave::detect_rec(samples, thr, 0);
        let signals = classified(
            pulses,
            stock_base_samples() * 4 / 5,
            stock_base_samples() * 6 / 5,
        );
        ascii_bytes(spec_signals_to_text(signals))
    }

    /// Modulate: each signal of the text becomes a tone or a gap.
    fn encode(&self, data: &[u8]) -> (r: Result<Vec<i32>, crate::error::AudioProtocolError>) {
        let mut chars: Vec<char> = Vec::new();
        let mut i: usize = 0;
        while i < data.len()
            invariant
                i <= data@.len(),
                chars@ == bytes_chars(data@.take(i as int)),
            decreases data@.len() - i,
        {
            let ghost chars0 = chars@;
            let b = data[i];
            let c = if b < 128 {
                b as char
            } else {
                '\u{FFFD}'
            };
            chars.push(c);
            proof {
                assert(bytes_chars(data@.take(i as int)).len() == i);
                assert forall|k: int| 0 <= k < i + 1 implies chars@[k] == bytes_chars(
                    data@.take(i + 1),
                )[k] by {
                    assert(bytes_chars(data@.take(i + 1))[k] == byte_char(data@.take(i + 1)[k]));
                    if k < i {
                        assert(bytes_chars(data@.take(i as int))[k] == byte_char(
                            data@.take(i as int)[k],
                        ));
                    }
                }
                assert(chars@ =~= bytes_chars(data@.take(i + 1)));
            }
            i = i + 1;
        }
        proof {
            assert(data@.take(data@.len() as int) =~= data@);
        }
        let text = chars_to_string(&chars);
        let signals = Morse::text_to_signals(text.as_str());
        let generator = crate::audio::wave::WaveGenerator::default();
        let mut audio_samples: Vec<i32> = Vec::new();
        let mut i: usize = 0;
        proof {
            assert(audio_samples@ =~= morse_wave(signals@.take(0)));
        }
        while i < signals.len()
            invariant
                i <= signals@.len(),
                generator.config == crate::config::AudioConfig::default_spec(),
                generator.config.wf(),
                audio_samples@ == morse_wave(signals@.take(i as int)),
            decreases signals@.len() - i,
        {
            proof {
                assert(signals@.take(i + 1).drop_last() =~= signals@.take(i as int));
                assert(signals@.take(i + 1).last() == signals@[i as int]);
            }
            let mut piece = match signals[i] {
                Signal::Dit => generator.generate_tone(100),
                Signal::Dah => generator.generate_tone(300),
                Signal::CharGap => generator.generate_silence(300),
                Signal::WordGap => generator.generate_silence(700),
            };
            proof {
                assert(piece@ == signal_wave(signals@[i as int]));
            }
            audio_samples.append(&mut piece);
            i = i + 1;
        }
        proof {
            assert(signals@.take(signals@.len() as int) =~= signals@);
        }
        Ok(audio_samples)
    }

    /// Demodulate: detect pulses, classify them as marks and gaps, and read
    /// the signals back as text bytes.
    fn decode(&self, samples: &[i32]) -> (r: Result<Vec<u8>, crate::error::AudioProtocolError>) {
        let detector = crate::audio::wave::PulseDetector::new(
            crate::config::AudioConfig::default(),
        );
        let pulses = detector.detect_pulses(samples);
        let ghost pulse_ints = pulses@.map_values(|x: usize| x as int);
        let ghost min_p = stock_base_samples() * 4 / 5;
        let ghost max_p = stock_base_samples() * 6 / 5;
        let mut signals: Vec<Signal> = Vec::new();
        let mut i: usize = 0;
        while i < pulses.len()
            invariant
                i <= pulses@.len(),
                pulse_ints == pulses@.map_values(|x: usize| x as int),
                detector.min_pulse_samples as int == min_p,
                detector.max_pulse_samples as int == max_p,
                signals@ == classified(pulse_ints.take(i as int), min_p, max_p),
            decreases pulses@.len() - i,
        {
            let ghost signals0 = signals@;
            let p = pulses[i];
            let s = if p < detector.min_pulse_samples {
                Signal::CharGap
            } else if p <= detector.max_pulse_samples {
                Signal::Dit
            } else {
                Signal::Dah
            };
            proof {
                assert(pulse_ints[i as int] == pulses@[i as int] as int);
                assert(s == classify_pulse(pulse_ints[i as int], min_p, max_p));
            }
            signals.push(s);
            proof {
                assert(classified(pulse_ints.take(i as int), min_p, max_p).len() == i);
                assert forall|k: int| 0 <= k < i + 1 implies signals@[k] == classified(
                    pulse_ints.take(i + 1),
                    min_p,
                    max_p,
                )[k] by {
                    assert(classified(pulse_ints.take(i + 1), min_p, max_p)[k] == classify_pulse(
                        pulse_ints.take(i + 1)[k],
                        min_p,
                        max_p,
                    ));
                    if k < i {
                        assert(classified(pulse_ints.take(i as int), min_p, max_p)[k]
                            == classify_pulse(pulse_ints.take(i as int)[k], min_p, max_p));
                    }
                }
                assert(signals@ =~= classified(pulse_ints.take(i + 1), min_p, max_p));
            }
            i = i + 1;
        }
        proof {
            assert(pulse_ints.take(pulse_ints.len() as int) =~= pulse_ints);
        }
        let text = Morse::signals_to_text(signals.as_slice());
        let text_str = text.as_str();
        let n = text_str.unicode_len();
        let mut out: Vec<u8> = Vec::new();
        let mut i: usize = 0;
        while i < n
            invariant
                i <= n,
                n == text@.len(),
                text_str@ == text@,
                out@ == ascii_bytes(text@.take(i as int)),
            decreases n - i,
        {
            let ghost out0 = out@;
            let c = text_str.get_char(i);
            out.push(c as u8);
            proof {
                assert(ascii_bytes(text@.take(i as int)).len() == i);
                assert forall|k: int| 0 <= k < i + 1 implies out@[k] == ascii_bytes(
                    text@.take(i + 1),
                )[k] by {
                    assert(ascii_bytes(text@.take(i + 1))[k] == (text@.take(i + 1)[k]) as u8);
                    if k < i {
                        assert(ascii_bytes(text@.take(i as int))[k] == (text@.take(
                            i as int,
                        )[k]) as u8);
                    }
                }
                assert(out@ =~= ascii_bytes(text@.take(i + 1)));
            }
            i = i + 1;
        }
        proof {
            assert(text@.take(text@.len() as int) =~= text@);
        }
        Ok(out)
    }
}

} // verus!
