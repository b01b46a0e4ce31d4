//! The values that cross the C interface of the plugin.
use vstd::prelude::*;

use crate::output::{
    callback_error, worker_decision, Message, OutputStreamError, PeerConnectionState,
    WorkerAction, WorkerEvent, WorkerResult,
};

verus! {

/// The errors that OBS's error callback receives.
#[derive(Clone, Copy, Debug, PartialEq, Eq, Structural)]
pub enum OBSWebRTCWHIPOutputError {
    ConnectFailed,
    NetworkError,
}

/// The error OBS is told of for an error of the stream: a failed connection
/// as such; a network error, or a failed write of media to the connection,
/// as a network error.
pub open spec fn obs_error_of(error: OutputStreamError) -> OBSWebRTCWHIPOutputError {
    match error {
        OutputStreamError::ConnectFailed => OBSWebRTCWHIPOutputError::ConnectFailed,
        OutputStreamError::NetworkError => OBSWebRTCWHIPOutputError::NetworkError,
        OutputStreamError::WriteError(_) => OBSWebRTCWHIPOutputError::NetworkError,
    }
}

impl From<OutputStreamError> for OBSWebRTCWHIPOutputError {
    fn from(ose: OutputStreamError) -> (r: Self) {
        match ose {
            OutputStreamError::ConnectFailed => OBSWebRTCWHIPOutputError::ConnectFailed,
            OutputStreamError::NetworkError => OBSWebRTCWHIPOutputError::NetworkError,
            OutputStreamError::WriteError(_) => OBSWebRTCWHIPOutputError::NetworkError,
        }
    }
}

impl vstd::std_specs::convert::FromSpecImpl<OutputStreamError> for OBSWebRTCWHIPOutputError {
    open spec fn obeys_from_spec() -> bool {
        true
    }

    open spec fn from_spec(ose: OutputStreamError) -> Self {
        obs_error_of(ose)
    }
}

/// Law: a failed connection attempt, sent to the worker as an error
/// message, stops it with that error, which reaches OBS's callback as
/// `ConnectFailed`; and OBS hears `ConnectFailed` for no other error.
pub proof fn lemma_connect_failure_reaches_obs(state: PeerConnectionState, error: OutputStreamError)
    ensures
        worker_decision(
            WorkerEvent::Received(Some(Message::Error(OutputStreamError::ConnectFailed)), state),
        ) == WorkerAction::Stop(WorkerResult::Error(OutputStreamError::ConnectFailed)),
        callback_error(WorkerResult::Error(OutputStreamError::ConnectFailed), true) == Some(
            OutputStreamError::ConnectFailed,
        ),
        obs_error_of(OutputStreamError::ConnectFailed) == OBSWebRTCWHIPOutputError::ConnectFailed,
        obs_error_of(error) == OBSWebRTCWHIPOutputError::ConnectFailed <==> error is ConnectFailed,
{
}

/// The connected time that OBS is given, in milliseconds, from the time in
/// nanoseconds: the count of whole milliseconds, cut to the 32 bits of a C
/// `int` (it wraps past about 24 days).
pub open spec fn c_millis(nanos: u64) -> i32 {
    (nanos / 1_000_000) as i32
}

/// The connected time in whole milliseconds, as a C `int`.
pub fn connect_time_ms(nanos: u64) -> (r: i32)
    ensures
        r == c_millis(nanos),
{
    #[verifier::truncate]
    ((nanos / 1_000_000) as i32)
}

/// What the write entry point tells OBS: whether the packet was accepted.
pub fn write_accepted<E>(result: &Result<(), E>) -> (r: bool)
    ensures
        r == result is Ok,
{
    match result {
        Ok(()) => true,
        Err(_) => false,
    }
}

/// Law: up to the 32 bits of a C `int`, OBS is given the connected time in
/// whole milliseconds: the time in nanoseconds lies within the millisecond
/// that is reported.
pub proof fn lemma_whole_milliseconds(nanos: u64)
    requires
        nanos < 0x8000_0000 * 1_000_000,
    ensures
        0 <= c_millis(nanos),
        (c_millis(nanos) as int) * 1_000_000 <= nanos < (c_millis(nanos) as int + 1) * 1_000_000,
{
    let q = nanos / 1_000_000;
    assert(q * 1_000_000 <= nanos < (q + 1) * 1_000_000) by (nonlinear_arith)
        requires
            q == nanos / 1_000_000,
    ;
    assert(q < 0x8000_0000) by (nonlinear_arith)
        requires
            q == nanos / 1_000_000,
            nanos < 0x8000_0000 * 1_000_000,
    ;
}

} // verus!
