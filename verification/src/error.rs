use vstd::prelude::*;

verus! {

/// The modem's error taxonomy: device-level, codec-level, and protocol-level
/// failures, each carrying a human-readable message.
#[derive(Debug)]
pub enum AudioProtocolError {
    AudioDeviceError(String),
    EncodingError(String),
    ProtocolError(String),
}

impl AudioProtocolError {
    /// The message carried by the error, whichever variant holds it.
    pub open spec fn spec_message(&self) -> Seq<char> {
        match self {
            AudioProtocolError::AudioDeviceError(m) => m@,
            AudioProtocolError::EncodingError(m) => m@,
            AudioProtocolError::ProtocolError(m) => m@,
        }
    }

    /// The carried message, for display by callers.
    pub fn message(&self) -> (m: &String)
        ensures
            m@ == self.spec_message(),
    {
        match self {
            AudioProtocolError::AudioDeviceError(m) => m,
            AudioProtocolError::EncodingError(m) => m,
            AudioProtocolError::ProtocolError(m) => m,
        }
    }
}

} // verus!
