//! Refused requests.
use vstd::prelude::*;

verus! {

/// A request that is answered with an error status and a sentence.
#[derive(Debug, Clone, PartialEq, Eq)]
pub struct Refusal {
    pub status: u16,
    pub message: String,
}

/// What a [`Refusal`] stands for.
#[verifier::ext_equal]
pub struct RefusalView {
    pub status: u16,
    pub message: Seq<char>,
}

impl View for Refusal {
    type V = RefusalView;

    open spec fn view(&self) -> RefusalView {
        RefusalView { status: self.status, message: self.message@ }
    }
}

pub const OK: u16 = 200;

pub const BAD_REQUEST: u16 = 400;

pub const NOT_FOUND: u16 = 404;

pub const CONFLICT: u16 = 409;

pub const INTERNAL_SERVER_ERROR: u16 = 500;

pub const SERVICE_UNAVAILABLE: u16 = 503;

/// A refusal with a fixed sentence.
pub fn refuse(status: u16, message: &str) -> (r: Refusal)
    ensures
        r@ == (RefusalView { status, message: message@ }),
{
    Refusal { status, message: message.to_string() }
}

/// A refusal with a cause behind a fixed lead.
pub fn refuse_because(status: u16, lead: &str, cause: &str) -> (r: Refusal)
    ensures
        r@ == (RefusalView { status, message: lead@ + cause@ }),
{
    let mut message = lead.to_string();
    message.append(cause);
    Refusal { status, message }
}

} // verus!
