//! Errors of the library and the text each one is shown with.

use crate::text::{chars_of, decimal, hex_chars, hex_fixed, push_str, string_from_chars};
use vstd::prelude::*;

verus! {

/// The errors the library reports.  Input/output and JSON failures carry the
/// text of the underlying error.
#[derive(Debug)]
pub enum AudioError {
    Message(String),
    Com(u32, String),
    DeviceNotFound(String),
    SessionNotFound(String),
    ProtectionAlreadyActive,
    ProtectionNotActive,
    SharedDeviceUnavailable(String),
    PhysicalDeviceUnavailable(String),
    Io(String),
    Json(String),
}

pub type Result<T> = std::result::Result<T, AudioError>;

impl Clone for AudioError {
    fn clone(&self) -> (r: Self)
        ensures
            r == *self,
    {
        match self {
            AudioError::Message(m) => AudioError::Message(m.clone()),
            AudioError::Com(c, m) => AudioError::Com(*c, m.clone()),
            AudioError::DeviceNotFound(m) => AudioError::DeviceNotFound(m.clone()),
            AudioError::SessionNotFound(m) => AudioError::SessionNotFound(m.clone()),
            AudioError::ProtectionAlreadyActive => AudioError::ProtectionAlreadyActive,
            AudioError::ProtectionNotActive => AudioError::ProtectionNotActive,
            AudioError::SharedDeviceUnavailable(m) => AudioError::SharedDeviceUnavailable(m.clone()),
            AudioError::PhysicalDeviceUnavailable(m) => AudioError::PhysicalDeviceUnavailable(m.clone()),
            AudioError::Io(m) => AudioError::Io(m.clone()),
            AudioError::Json(m) => AudioError::Json(m.clone()),
        }
    }
}

/// Eight uppercase hexadecimal digits of a 32-bit code (`{:08X}`).
pub open spec fn hex8(code: u32) -> Seq<char> {
    hex_fixed(code as nat, 8)
}

/// The text an error is shown with.
pub open spec fn error_text(e: AudioError) -> Seq<char> {
    match e {
        AudioError::Message(m) => m@,
        AudioError::Com(c, m) => "COM error 0x"@ + hex8(c) + ": "@ + m@,
        AudioError::DeviceNotFound(m) => "device not found: "@ + m@,
        AudioError::SessionNotFound(m) => "session not found: "@ + m@,
        AudioError::ProtectionAlreadyActive => "protection is already active"@,
        AudioError::ProtectionNotActive => "protection is not active"@,
        AudioError::SharedDeviceUnavailable(m) => "shared output device is not available: "@ + m@,
        AudioError::PhysicalDeviceUnavailable(m) => "physical output device is not available: "@ + m@,
        AudioError::Io(m) => "io error: "@ + m@,
        AudioError::Json(m) => "json error: "@ + m@,
    }
}

impl AudioError {
    /// An error with a free-form message.
    pub fn message(msg: String) -> (r: Self)
        ensures
            r == AudioError::Message(msg),
    {
        AudioError::Message(msg)
    }

    /// The error for a failed `HRESULT` (given as its 32-bit value) while
    /// doing `context`: the code, and the text `context (HRESULT 0xXXXXXXXX)`.
    pub fn from_hresult(hr: i32, context: &str) -> (r: Self)
        ensures
            r matches AudioError::Com(code, msg) && code == hr as u32
                && msg@ == context@ + " (HRESULT 0x"@ + hex8(hr as u32) + ")"@,
    {
        let code: u32 = hr as u32;
        let mut v = chars_of(context);
        push_str(&mut v, " (HRESULT 0x");
        let mut h = hex_chars(code as u64, 8);
        v.append(&mut h);
        push_str(&mut v, ")");
        AudioError::Com(code, string_from_chars(&v))
    }

    /// The text this error is shown with.
    pub fn describe(&self) -> (r: String)
        ensures
            r@ == error_text(*self),
    {
        let mut v: Vec<char> = Vec::new();
        match self {
            AudioError::Message(m) => {
                push_str(&mut v, m.as_str());
            },
            AudioError::Com(c, m) => {
                push_str(&mut v, "COM error 0x");
                let mut h = hex_chars(*c as u64, 8);
                v.append(&mut h);
                push_str(&mut v, ": ");
                push_str(&mut v, m.as_str());
            },
            AudioError::DeviceNotFound(m) => {
                push_str(&mut v, "device not found: ");
                push_str(&mut v, m.as_str());
            },
            AudioError::SessionNotFound(m) => {
                push_str(&mut v, "session not found: ");
                push_str(&mut v, m.as_str());
            },
            AudioError::ProtectionAlreadyActive => {
                push_str(&mut v, "protection is already active");
            },
            AudioError::ProtectionNotActive => {
                push_str(&mut v, "protection is not active");
            },
            AudioError::SharedDeviceUnavailable(m) => {
                push_str(&mut v, "shared output device is not available: ");
                push_str(&mut v, m.as_str());
            },
            AudioError::PhysicalDeviceUnavailable(m) => {
                push_str(&mut v, "physical output device is not available: ");
                push_str(&mut v, m.as_str());
            },
            AudioError::Io(m) => {
                push_str(&mut v, "io error: ");
                push_str(&mut v, m.as_str());
            },
            AudioError::Json(m) => {
                push_str(&mut v, "json error: ");
                push_str(&mut v, m.as_str());
            },
        }
        assert(v@ =~= error_text(*self));
        string_from_chars(&v)
    }
}

} // verus!
