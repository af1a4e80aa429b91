use vstd::prelude::*;

verus! {

use crate::encoding::morse::spec_signals_to_text;
use crate::encoding::morse::spec_text_to_signals;

/// One element of a Morse transmission: a short mark, a long mark, or one of
/// the two gap widths. This mirrors the signal alphabet of the signal-level
/// codec, to which the functions here delegate.
#[derive(Debug, Eq, Hash, PartialEq, Copy, Clone, Structural)]
pub enum Signal {
    Dit,
    Dah,
    /// Gap between characters (three units).
    CharGap,
    /// Gap between words (seven units).
    WordGap,
}

/// The codec-level signals a signal sequence stands for.
pub open spec fn core_signals(signals: Seq<Signal>) -> Seq<crate::encoding::morse::Signal> {
    signals.map_values(|s: Signal| core_signal(s))
}

/// The codec-level signal this signal stands for.
pub open spec fn core_signal(s: Signal) -> crate::encoding::morse::Signal {
    match s {
        Signal::Dit => crate::encoding::morse::Signal::Dit,
        Signal::Dah => crate::encoding::morse::Signal::Dah,
        Signal::CharGap => crate::encoding::morse::Signal::CharGap,
        Signal::WordGap => crate::encoding::morse::Signal::WordGap,
    }
}

/// The signal a pattern character stands for in `From`: a dot is a short
/// mark, a dash a long one, and anything else a character gap.
pub open spec fn spec_signal_of_char(c: char) -> Signal {
    if c == '.' {
        Signal::Dit
    } else if c == '-' {
        Signal::Dah
    } else {
        Signal::CharGap
    }
}

/// The pattern character a signal prints as: both gap widths print as a
/// space.
pub open spec fn spec_char_of_signal(s: Signal) -> char {
    match s {
        Signal::Dit => '.',
        Signal::Dah => '-',
        Signal::CharGap => ' ',
        Signal::WordGap => ' ',
    }
}

impl Signal {
    /// The signal a pattern character stands for, if it stands for one at
    /// all; unlike `From`, an unknown character maps to nothing.
    pub fn from_char(c: char) -> (r: Option<Signal>)
        ensures
            c == '.' || c == '-' || c == ' ' ==> r == Some(spec_signal_of_char(c)),
            !(c == '.' || c == '-' || c == ' ') ==> r is None,
    {
        match c {
            '.' => Some(Signal::Dit),
            '-' => Some(Signal::Dah),
            ' ' => Some(Signal::CharGap),
            _ => None,
        }
    }

    fn from_core(s: crate::encoding::morse::Signal) -> (r: Signal)
        ensures
            core_signal(r) == s,
    {
        match s {
            crate::encoding::morse::Signal::Dit => Signal::Dit,
            crate::encoding::morse::Signal::Dah => Signal::Dah,
            crate::encoding::morse::Signal::CharGap => Signal::CharGap,
            crate::encoding::morse::Signal::WordGap => Signal::WordGap,
        }
    }

    fn to_core(self) -> (r: crate::encoding::morse::Signal)
        ensures
            r == core_signal(self),
    {
        match self {
            Signal::Dit => crate::encoding::morse::Signal::Dit,
            Signal::Dah => crate::encoding::morse::Signal::Dah,
            Signal::CharGap => crate::encoding::morse::Signal::CharGap,
            Signal::WordGap => crate::encoding::morse::Signal::WordGap,
        }
    }
}

impl From<char> for Signal {
    fn from(c: char) -> (r: Self) {
        match c {
            '.' => Signal::Dit,
            '-' => Signal::Dah,
            _ => Signal::CharGap,
        }
    }
}

impl vstd::std_specs::convert::FromSpecImpl<char> for Signal {
    open spec fn obeys_from_spec() -> bool {
        true
    }

    open spec fn from_spec(c: char) -> Self {
        spec_signal_of_char(c)
    }
}

impl From<Signal> for char {
    fn from(s: Signal) -> (r: Self) {
        match s {
            Signal::Dit => '.',
            Signal::Dah => '-',
            Signal::CharGap => ' ',
            Signal::WordGap => ' ',
        }
    }
}

impl vstd::std_specs::convert::FromSpecImpl<Signal> for char {
    open spec fn obeys_from_spec() -> bool {
        true
    }

    open spec fn from_spec(s: Signal) -> Self {
        spec_char_of_signal(s)
    }
}

/// The text-to-Morse codec over this module's `Signal` alphabet.
pub struct Morse;

impl Morse {
    /// Convert morse signals to text.
    pub fn decode(signals: &[Signal]) -> (r: String)
        ensures
            r@ == spec_signals_to_text(core_signals(signals@)),
    {
        let mut core: Vec<crate::encoding::morse::Signal> = Vec::new();
        let mut i: usize = 0;
        while i < signals.len()
            invariant
                i <= signals@.len(),
                core@ == core_signals(signals@.take(i as int)),
            decreases signals@.len() - i,
        {
            let s = signals[i];
            core.push(s.to_core());
            proof {
                assert(core@ =~= core_signals(signals@.take(i + 1)));
            }
            i = i + 1;
        }
        proof {
            assert(signals@.take(signals@.len() as int) =~= signals@);
        }
        crate::encoding::morse::Morse::signals_to_text(core.as_slice())
    }

    /// Convert text to morse signals.
    pub fn encode(text: &str) -> (r: Vec<Signal>)
        ensures
            core_signals(r@) == spec_text_to_signals(text@),
    {
        let core = crate::encoding::morse::Morse::text_to_signals(text);
        let mut out: Vec<Signal> = Vec::new();
        let mut i: usize = 0;
        while i < core.len()
            invariant
                i <= core@.len(),
                core@ == spec_text_to_signals(text@),
                core_signals(out@) == core@.take(i as int),
            decreases core@.len() - i,
        {
            let ghost out0 = out@;
            let s = Signal::from_core(core[i]);
            out.push(s);
            proof {
                assert(core_signals(out0).len() == out0.len());
                assert(out0.len() == i);
                assert forall|j: int| 0 <= j < i + 1 implies core_signals(out@)[j] == core@[j] by {
                    assert(core_signals(out@)[j] == core_signal(out@[j]));
                    if j < i {
                        assert(out@[j] == out0[j]);
                        assert(core_signals(out0)[j] == core_signal(out0[j]));
                    } else {
                        assert(out@[j] == s);
                    }
                }
                assert(core_signals(out@) =~= core@.take(i + 1));
            }
            i = i + 1;
        }
        proof {
            assert(core@.take(core@.len() as int) =~= core@);
        }
        out
    }
}

} // verus!
