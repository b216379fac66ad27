//! The errors of the protocol and of the codec, and the error codes that
//! ERROR frames carry.

use crate::text::{digits, message_with_number};
use vstd::prelude::*;
use vstd::string::StringExecFns;

verus! {

pub const ERR_INVALID_SETUP: u32 = 0x0000_0001;

pub const ERR_UNSUPPORTED_SETUP: u32 = 0x0000_0002;

pub const ERR_REJECT_SETUP: u32 = 0x0000_0003;

pub const ERR_REJECT_RESUME: u32 = 0x0000_0004;

pub const ERR_CONN_FAILED: u32 = 0x0000_0101;

pub const ERR_CONN_CLOSED: u32 = 0x0000_0102;

pub const ERR_APPLICATION: u32 = 0x0000_0201;

pub const ERR_REJECTED: u32 = 0x0000_0202;

pub const ERR_CANCELED: u32 = 0x0000_0203;

pub const ERR_INVALID: u32 = 0x0000_0204;

/// An error of the protocol (named after its error code) or of the codec.
#[derive(Debug)]
pub enum RSocketError {
    InvalidSetup(String),
    UnsupportedSetup(String),
    RejectedSetup(String),
    RejectedResume(String),
    ConnectionException(String),
    ConnectionClosed(String),
    ApplicationException(String),
    RequestRejected(String),
    RequestCancelled(String),
    RequestInvalid(String),
    Reserved(u32, String),
    /// A frame ended before all of its fields.
    InCompleteFrame,
    /// Any other error, with its description.
    WithDescription(String),
}

impl RSocketError {
    /// Whether this error is the one that code `code` with description
    /// `desc` names: each known code has its own variant, and every other
    /// code is `Reserved`.
    pub open spec fn is_from_code(self, code: u32, desc: Seq<char>) -> bool {
        match self {
            RSocketError::ApplicationException(s) => code == ERR_APPLICATION && s@ == desc,
            RSocketError::InvalidSetup(s) => code == ERR_INVALID_SETUP && s@ == desc,
            RSocketError::UnsupportedSetup(s) => code == ERR_UNSUPPORTED_SETUP && s@ == desc,
            RSocketError::RejectedSetup(s) => code == ERR_REJECT_SETUP && s@ == desc,
            RSocketError::RejectedResume(s) => code == ERR_REJECT_RESUME && s@ == desc,
            RSocketError::ConnectionException(s) => code == ERR_CONN_FAILED && s@ == desc,
            RSocketError::ConnectionClosed(s) => code == ERR_CONN_CLOSED && s@ == desc,
            RSocketError::RequestRejected(s) => code == ERR_REJECTED && s@ == desc,
            RSocketError::RequestCancelled(s) => code == ERR_CANCELED && s@ == desc,
            RSocketError::RequestInvalid(s) => code == ERR_INVALID && s@ == desc,
            RSocketError::Reserved(c, s) => {
                &&& c == code
                &&& s@ == desc
                &&& code != ERR_APPLICATION
                &&& code != ERR_INVALID_SETUP
                &&& code != ERR_UNSUPPORTED_SETUP
                &&& code != ERR_REJECT_SETUP
                &&& code != ERR_REJECT_RESUME
                &&& code != ERR_CONN_FAILED
                &&& code != ERR_CONN_CLOSED
                &&& code != ERR_REJECTED
                &&& code != ERR_CANCELED
                &&& code != ERR_INVALID
            },
            _ => false,
        }
    }

    /// The error that an ERROR frame with `code` and description `desc` denotes.
    pub fn must_new_from_code(code: u32, desc: String) -> (e: Self)
        ensures
            e.is_from_code(code, desc@),
    {
        if code == ERR_APPLICATION {
            RSocketError::ApplicationException(desc)
        } else if code == ERR_INVALID_SETUP {
            RSocketError::InvalidSetup(desc)
        } else if code == ERR_UNSUPPORTED_SETUP {
            RSocketError::UnsupportedSetup(desc)
        } else if code == ERR_REJECT_SETUP {
            RSocketError::RejectedSetup(desc)
        } else if code == ERR_REJECT_RESUME {
            RSocketError::RejectedResume(desc)
        } else if code == ERR_CONN_FAILED {
            RSocketError::ConnectionException(desc)
        } else if code == ERR_CONN_CLOSED {
            RSocketError::ConnectionClosed(desc)
        } else if code == ERR_REJECTED {
            RSocketError::RequestRejected(desc)
        } else if code == ERR_CANCELED {
            RSocketError::RequestCancelled(desc)
        } else if code == ERR_INVALID {
            RSocketError::RequestInvalid(desc)
        } else {
            RSocketError::Reserved(code, desc)
        }
    }
}

/// The text that describes an error: the name of its code and its
/// description, the number of a reserved code, or the description alone.
pub open spec fn error_text(e: RSocketError) -> Seq<char> {
    match e {
        RSocketError::InvalidSetup(s) => "INVALID_SETUP: "@ + s@,
        RSocketError::UnsupportedSetup(s) => "UNSUPPORTED_SETUP: "@ + s@,
        RSocketError::RejectedSetup(s) => "REJECTED_SETUP: "@ + s@,
        RSocketError::RejectedResume(s) => "REJECTED_SETUP: "@ + s@,
        RSocketError::ConnectionException(s) => "CONNECTION_ERROR: "@ + s@,
        RSocketError::ConnectionClosed(s) => "CONNECTION_CLOSE: "@ + s@,
        RSocketError::ApplicationException(s) => "APPLICATION_ERROR: "@ + s@,
        RSocketError::RequestRejected(s) => "REJECTED: "@ + s@,
        RSocketError::RequestCancelled(s) => "CANCELLED: "@ + s@,
        RSocketError::RequestInvalid(s) => "INVALID: "@ + s@,
        RSocketError::Reserved(c, s) => "RESERVED("@ + digits(c as nat, 10) + "): "@ + s@,
        RSocketError::InCompleteFrame => "this frame is incomplete"@,
        RSocketError::WithDescription(s) => s@,
    }
}

/// The name of a code followed by a description.
fn named(prefix: &str, s: &String) -> (r: String)
    ensures
        r@ == prefix@ + s@,
{
    let mut out = prefix.to_owned();
    out.append(s.as_str());
    out
}

impl RSocketError {
    /// The text that describes the error.
    pub fn to_string(&self) -> (r: String)
        ensures
            r@ == error_text(*self),
    {
        match self {
            RSocketError::InvalidSetup(s) => named("INVALID_SETUP: ", s),
            RSocketError::UnsupportedSetup(s) => named("UNSUPPORTED_SETUP: ", s),
            RSocketError::RejectedSetup(s) => named("REJECTED_SETUP: ", s),
            RSocketError::RejectedResume(s) => named("REJECTED_SETUP: ", s),
            RSocketError::ConnectionException(s) => named("CONNECTION_ERROR: ", s),
            RSocketError::ConnectionClosed(s) => named("CONNECTION_CLOSE: ", s),
            RSocketError::ApplicationException(s) => named("APPLICATION_ERROR: ", s),
            RSocketError::RequestRejected(s) => named("REJECTED: ", s),
            RSocketError::RequestCancelled(s) => named("CANCELLED: ", s),
            RSocketError::RequestInvalid(s) => named("INVALID: ", s),
            RSocketError::Reserved(c, s) => {
                let mut out = message_with_number("RESERVED(", *c as u64, 10, "): ");
                out.append(s.as_str());
                out
            },
            RSocketError::InCompleteFrame => "this frame is incomplete".to_owned(),
            RSocketError::WithDescription(s) => s.clone(),
        }
    }
}

} // verus!
