//! The errors of the library.
use vstd::prelude::*;

use crate::decode::borsh::{failure_text, BorshFailure, SpecBorshFailure};
use crate::text::{decimal, decimal_string};
use crate::types::pump_events::{kind_name, PumpEventKind};

verus! {

/// Declares `bs58::decode::Error` so that errors can carry it; its contents
/// stay opaque.
#[verifier::external_type_specification]
#[verifier::external_body]
pub struct ExBase58DecodeError(bs58::decode::Error);

/// What can go wrong while decoding logs and instructions.
#[derive(Debug)]
pub enum ParseError {
    /// A bonding-curve event's discriminator matched, but its Borsh body did
    /// not decode, for `reason`. `base64_prefix` is the start (at most 80
    /// characters) of the line's Base64 text.
    EventDecode {
        event: PumpEventKind,
        payload_len: usize,
        base64_prefix: String,
        reason: BorshFailure,
    },
    /// An instruction's data is not valid Base58.
    InvalidBase58(bs58::decode::Error),
}

/// The message of an event that did not decode, worded as the bonding-curve
/// decoder reports it.
pub open spec fn event_decode_message(
    event: PumpEventKind,
    payload_len: usize,
    base64_prefix: Seq<char>,
    reason: SpecBorshFailure,
) -> Seq<char> {
    "borsh decode failed for "@ + kind_name(event) + ": "@ + failure_text(reason)
        + "; payload_len="@ + decimal(payload_len as nat) + "; base64_prefix="@ + base64_prefix
}

/// The text of a Base58 decoding error, as its `Display` writes it.
#[verifier::external_body]
fn base58_error_text(e: &bs58::decode::Error) -> String {
    e.to_string()
}

impl ParseError {
    /// The error's message. For an event that did not decode:
    /// `borsh decode failed for <event>: <reason>; payload_len=<n>; base64_prefix=<text>`.
    /// For invalid instruction data: the Base58 decoder's own message.
    pub fn message(&self) -> (m: String)
        ensures
            self matches ParseError::EventDecode { event, payload_len, base64_prefix, reason }
                ==> m@ == event_decode_message(*event, *payload_len, base64_prefix@, reason@),
    {
        match self {
            ParseError::EventDecode { event, payload_len, base64_prefix, reason } => {
                let mut m = "borsh decode failed for ".to_owned();
                m.append(event.name());
                m.append(": ");
                let why = reason.text();
                m.append(why.as_str());
                m.append("; payload_len=");
                let n = decimal_string(*payload_len);
                m.append(n.as_str());
                m.append("; base64_prefix=");
                m.append(base64_prefix.as_str());
                m
            },
            ParseError::InvalidBase58(e) => base58_error_text(e),
        }
    }
}

} // verus!
