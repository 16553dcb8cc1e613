//! A verified core for an in-memory chat broadcast relay.
//!
//! The relay keeps a registry of live sessions, each with a FIFO outbound
//! queue of serialized frames, and a presence store of known users. Decoded
//! client events are routed into broadcasts that fan out to every registered
//! session. The host drives the relay with plain values (inbound frame text,
//! clock readings, session lifecycle notices) and drains each session's queue
//! onto its own transport.

pub mod events;
pub mod json_in;
pub mod json_out;
pub mod presence;
pub mod registry;
pub mod relay;
pub mod text;

use vstd::prelude::*;
use crate::text::{spec_dec, u64_to_dec};

verus! {

/// Builds the confirmation string the host surfaces once the relay's
/// listener is bound on the given port.
pub fn start_confirmation(port: u16) -> (r: String)
    ensures
        r@ == "Chat server started on port "@ + spec_dec(port as nat),
{
    let mut s = String::from_str("Chat server started on port ");
    let d = u64_to_dec(port as u64);
    s.append(d.as_str());
    s
}

/// Builds the greeting returned to the host shell for a given name.
pub fn greet(name: &str) -> (r: String)
    ensures
        r@ == "Hello, "@ + name@ + "! You've been greeted from Rust!"@,
{
    let mut s = String::from_str("Hello, ");
    s.append(name);
    s.append("! You've been greeted from Rust!");
    s
}

} // verus!
