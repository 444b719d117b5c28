//! The errors of the frame layer and of the security layer.

use vstd::prelude::*;
use crate::text;

verus! {

/// What can be wrong with a frame or its payload.
#[derive(Debug)]
pub enum CoreError {
    /// The first two bytes are not the frame magic.
    BadMagic,
    /// The version byte is another than the protocol's.
    BadVersion(u8),
    /// The payload length is over the limit.
    FrameTooLarge(u32),
    /// The stream ended inside a frame.
    Incomplete,
    /// The bytes are well framed but mean nothing.
    Codec(String),
    /// The payload is no JSON, for the given reason.
    Json(String),
}

/// A `CoreError` with its text as a sequence of characters.
pub enum CoreFault {
    BadMagic,
    BadVersion(u8),
    FrameTooLarge(u32),
    Incomplete,
    Codec(Seq<char>),
    Json(Seq<char>),
}

impl View for CoreError {
    type V = CoreFault;

    open spec fn view(&self) -> CoreFault {
        match *self {
            CoreError::BadMagic => CoreFault::BadMagic,
            CoreError::BadVersion(v) => CoreFault::BadVersion(v),
            CoreError::FrameTooLarge(n) => CoreFault::FrameTooLarge(n),
            CoreError::Incomplete => CoreFault::Incomplete,
            CoreError::Codec(m) => CoreFault::Codec(m@),
            CoreError::Json(e) => CoreFault::Json(e@),
        }
    }
}

impl CoreFault {
    /// The text that a user sees.
    pub open spec fn message(self) -> Seq<char> {
        match self {
            CoreFault::BadMagic => "invalid frame magic"@,
            CoreFault::BadVersion(v) => "unsupported protocol version "@ + text::decimal(v as nat),
            CoreFault::FrameTooLarge(n) => "frame too large: "@ + text::decimal(n as nat) + " bytes"@,
            CoreFault::Incomplete => "incomplete frame"@,
            CoreFault::Codec(m) => "codec error: "@ + m,
            CoreFault::Json(e) => "json error: "@ + e,
        }
    }
}

impl CoreError {
    /// The text that a user sees.
    pub fn to_string(&self) -> (out: String)
        ensures
            out@ == self@.message(),
    {
        match self {
            CoreError::BadMagic => String::from_str("invalid frame magic"),
            CoreError::BadVersion(v) => {
                let mut out: String = String::from_str("unsupported protocol version ");
                text::push_decimal(&mut out, *v as u64);
                out
            },
            CoreError::FrameTooLarge(n) => {
                let mut out: String = String::from_str("frame too large: ");
                text::push_decimal(&mut out, *n as u64);
                out.append(" bytes");
                out
            },
            CoreError::Incomplete => String::from_str("incomplete frame"),
            CoreError::Codec(m) => text::joined("codec error: ", m.as_str()),
            CoreError::Json(e) => text::joined("json error: ", e.as_str()),
        }
    }
}

/// What the security layer can refuse.
#[derive(Debug)]
pub enum SecurityError {
    /// The response does not answer the challenge.
    AuthFailed,
    /// The message was not sealed under this key with this associated data.
    DecryptFailed,
    /// The agent has no grant for this tool.
    AccessDenied(String),
}

/// A `SecurityError` with its text as a sequence of characters.
pub enum SecurityFault {
    AuthFailed,
    DecryptFailed,
    AccessDenied(Seq<char>),
}

impl View for SecurityError {
    type V = SecurityFault;

    open spec fn view(&self) -> SecurityFault {
        match *self {
            SecurityError::AuthFailed => SecurityFault::AuthFailed,
            SecurityError::DecryptFailed => SecurityFault::DecryptFailed,
            SecurityError::AccessDenied(tool) => SecurityFault::AccessDenied(tool@),
        }
    }
}

impl SecurityFault {
    /// The text that a user sees.
    pub open spec fn message(self) -> Seq<char> {
        match self {
            SecurityFault::AuthFailed => "authentication failed"@,
            SecurityFault::DecryptFailed => "decryption failed"@,
            SecurityFault::AccessDenied(tool) => "access denied for tool "@ + tool,
        }
    }
}

impl SecurityError {
    /// The text that a user sees.
    pub fn to_string(&self) -> (out: String)
        ensures
            out@ == self@.message(),
    {
        match self {
            SecurityError::AuthFailed => String::from_str("authentication failed"),
            SecurityError::DecryptFailed => String::from_str("decryption failed"),
            SecurityError::AccessDenied(tool) => text::joined("access denied for tool ", tool.as_str()),
        }
    }
}

/// Each fault of a frame has a text of its own, which gives what the fault is about.
pub proof fn faults_of_frames_say_what_is_wrong(e: CoreError, out: String)
    requires
        call_ensures(CoreError::to_string, (&e,), out),
    ensures
        match e {
            CoreError::BadMagic => out@ == "invalid frame magic"@,
            CoreError::BadVersion(v) => out@ == "unsupported protocol version "@ + text::decimal(
                v as nat,
            ),
            CoreError::FrameTooLarge(n) => out@ == "frame too large: "@ + text::decimal(n as nat)
                + " bytes"@,
            CoreError::Incomplete => out@ == "incomplete frame"@,
            CoreError::Codec(m) => out@ == "codec error: "@ + m@,
            CoreError::Json(m) => out@ == "json error: "@ + m@,
        },
{
}

/// Each refusal of the security layer has a text of its own; that of a tool names the
/// tool.
pub proof fn refusals_say_why(e: SecurityError, out: String)
    requires
        call_ensures(SecurityError::to_string, (&e,), out),
    ensures
        match e {
            SecurityError::AuthFailed => out@ == "authentication failed"@,
            SecurityError::DecryptFailed => out@ == "decryption failed"@,
            SecurityError::AccessDenied(tool) => out@ == "access denied for tool "@ + tool@,
        },
{
}

} // verus!
