//! The buffered-string retrieval protocol: the driver's string-returning
//! queries communicate the required buffer size through their status code,
//! so a caller probes with a zero-length buffer, reads the required size
//! back, and fetches with a buffer of exactly that size. A "buffer too
//! small" class of code after a non-zero buffer was offered (the list grew
//! between the two calls) sends the protocol back to the probe.
//!
//! [`protocol_decide`] is the decision function of that state machine: the
//! in-crate channel enumeration drives it against the driver model, and a
//! runner over the real driver can drive it with raw status codes.

use crate::status::{DAQ_ERROR_BUFFER_TOO_SMALL, DAQ_WARNING_STRING_TRUNCATED};
use vstd::prelude::*;

verus! {

/// What the protocol does next, given the size of the buffer just offered
/// and the status code the driver returned for it.
#[derive(Clone, Copy, Debug, PartialEq, Eq, Structural)]
pub enum ProtocolStep {
    /// The string did not fit the non-zero buffer: probe again from size 0.
    Restart,
    /// The probe reported the required size: fetch with exactly that size.
    Fetch { size: usize },
    /// A hard driver error: surface the code.
    Fail,
    /// The call succeeded and the buffer holds the whole string.
    Accept,
}

/// The decision rule. A positive code on a zero-length probe is the
/// required size, terminator included; the truncation warning counts as
/// "too small" only once a non-zero buffer was offered, since on a probe
/// that same positive value is a legitimate required size. Negative codes
/// other than the too-small sentinel are hard errors, and any remaining
/// non-negative code (success, or a warning folded into success) accepts
/// the buffer.
pub open spec fn protocol_decide_spec(buf_size: usize, code: i32) -> ProtocolStep {
    if code == DAQ_ERROR_BUFFER_TOO_SMALL || (buf_size > 0 && code == DAQ_WARNING_STRING_TRUNCATED) {
        ProtocolStep::Restart
    } else if code > 0 && buf_size == 0 {
        ProtocolStep::Fetch { size: code as usize }
    } else if code < 0 {
        ProtocolStep::Fail
    } else {
        ProtocolStep::Accept
    }
}

/// One decision of the protocol state machine.
pub fn protocol_decide(buf_size: usize, code: i32) -> (step: ProtocolStep)
    ensures
        step == protocol_decide_spec(buf_size, code),
{
    if code == DAQ_ERROR_BUFFER_TOO_SMALL || (buf_size > 0 && code == DAQ_WARNING_STRING_TRUNCATED) {
        ProtocolStep::Restart
    } else if code > 0 && buf_size == 0 {
        ProtocolStep::Fetch { size: code as usize }
    } else if code < 0 {
        ProtocolStep::Fail
    } else {
        ProtocolStep::Accept
    }
}

/// Against a driver whose reported size stays consistent between calls, the
/// protocol converges in at most two round-trips: the zero-size probe is
/// answered with the required size `needed` and decides to fetch exactly
/// `needed` bytes, and that fetch is answered with success and accepted, so
/// no truncated string is ever silently kept.
pub proof fn lemma_protocol_two_round_trips(needed: i32)
    requires
        1 <= needed,
    ensures
        protocol_decide_spec(0, needed) == (ProtocolStep::Fetch { size: needed as usize }),
        protocol_decide_spec(needed as usize, 0) == ProtocolStep::Accept,
{
}

} // verus!
