//! Device-side error taxonomy.
//!
//! Soft errors (connectivity, malformed server messages) are retried
//! automatically and surfaced to the user as a priority message; hard
//! errors (display I/O) are not retried. Every error renders to a short
//! text that fits one text slot, so that it can preempt the rotation.
use vstd::prelude::*;

use crate::messagebuf::TextData;
use crate::protocol;

verus! {

/// A malformed message from the server: bytes that are not valid UTF-8
/// where text was promised, or a protocol-level decode failure.
#[derive(Debug, Clone, Copy, PartialEq, Eq, Structural)]
pub enum ServerMessageError {
    Encoding,
    Protocol(protocol::Error),
}

/// Errors that are retried automatically after a delay and shown to the
/// user: anything non-local, plus missing configuration.
#[derive(Debug, Clone, Copy, PartialEq, Eq, Structural)]
pub enum SoftError {
    WifiConnect,
    WifiConfiguration,
    ServerConnect,
    Socket,
    ServerMessage(ServerMessageError),
    StaticDataError,
}

/// Errors that violate invariants of the device's physical state; logged
/// and left for manual intervention, never retried.
#[derive(Debug, Clone, Copy, PartialEq, Eq, Structural)]
pub enum HardError {
    Display,
}

impl From<protocol::Error> for SoftError {
    /// A protocol error surfaces as a malformed server message.
    fn from(value: protocol::Error) -> (r: Self) {
        SoftError::ServerMessage(ServerMessageError::Protocol(value))
    }
}

impl vstd::std_specs::convert::FromSpecImpl<protocol::Error> for SoftError {
    open spec fn obeys_from_spec() -> bool {
        true
    }

    open spec fn from_spec(v: protocol::Error) -> Self {
        SoftError::ServerMessage(ServerMessageError::Protocol(v))
    }
}

impl ServerMessageError {
    /// The user-visible description of this error.
    pub open spec fn spec_message(self) -> Seq<char> {
        match self {
            ServerMessageError::Encoding => "UTF-8 encoding error."@,
            ServerMessageError::Protocol(e) => match e {
                protocol::Error::Length { .. } => "Message length over maximum."@,
                protocol::Error::EncodeOverflow => "Encode buffer too small."@,
                protocol::Error::DecodeFailure => "Malformed server message."@,
                protocol::Error::Socket => "Socket error."@,
            },
        }
    }

    /// Appends the user-visible description to `f`.
    pub fn fmt(&self, f: &mut String)
        ensures
            final(f)@ == old(f)@ + self.spec_message(),
    {
        match *self {
            ServerMessageError::Encoding => f.append("UTF-8 encoding error."),
            ServerMessageError::Protocol(e) => match e {
                protocol::Error::Length { .. } => f.append("Message length over maximum."),
                protocol::Error::EncodeOverflow => f.append("Encode buffer too small."),
                protocol::Error::DecodeFailure => f.append("Malformed server message."),
                protocol::Error::Socket => f.append("Socket error."),
            },
        }
    }
}

impl SoftError {
    /// The user-visible description of this error.
    pub open spec fn spec_message(self) -> Seq<char> {
        match self {
            SoftError::WifiConnect => "Cannot connect to Wifi. Please check Wifi settings."@,
            SoftError::WifiConfiguration => "Wifi settings are not configured yet. Please flash uf2."@,
            SoftError::ServerConnect => "Can't connect to server. Please check Wifi connection."@,
            SoftError::Socket => "Internal socket error."@,
            SoftError::ServerMessage(e) => e.spec_message(),
            SoftError::StaticDataError => "Cannot read static data from flash memory. Please re-flash static data uf2."@,
        }
    }

    /// Appends the user-visible description to `f`.
    pub fn fmt(&self, f: &mut String)
        ensures
            final(f)@ == old(f)@ + self.spec_message(),
    {
        match *self {
            SoftError::WifiConnect => f.append(
                "Cannot connect to Wifi. Please check Wifi settings.",
            ),
            SoftError::WifiConfiguration => f.append(
                "Wifi settings are not configured yet. Please flash uf2.",
            ),
            SoftError::ServerConnect => f.append(
                "Can't connect to server. Please check Wifi connection.",
            ),
            SoftError::Socket => f.append("Internal socket error."),
            SoftError::ServerMessage(e) => e.fmt(f),
            SoftError::StaticDataError => f.append(
                "Cannot read static data from flash memory. Please re-flash static data uf2.",
            ),
        }
    }

    /// Renders this error as the text-slot content that the priority
    /// signal carries to the display.
    pub fn to_display_string(&self) -> (r: TextData)
        ensures
            r.wf(),
            r.text@ == self.spec_message(),
    {
        let mut text = String::new();
        self.fmt(&mut text);
        proof {
            broadcast use vstd::utf8::is_ascii_chars_encode_utf8;

            reveal_strlit("UTF-8 encoding error.");
            reveal_strlit("Message length over maximum.");
            reveal_strlit("Encode buffer too small.");
            reveal_strlit("Malformed server message.");
            reveal_strlit("Socket error.");
            reveal_strlit("Cannot connect to Wifi. Please check Wifi settings.");
            reveal_strlit("Wifi settings are not configured yet. Please flash uf2.");
            reveal_strlit("Can't connect to server. Please check Wifi connection.");
            reveal_strlit("Internal socket error.");
            reveal_strlit("Cannot read static data from flash memory. Please re-flash static data uf2.");
            assert(vstd::utf8::is_ascii_chars(self.spec_message()));
        }
        TextData { text }
    }
}

} // verus!
