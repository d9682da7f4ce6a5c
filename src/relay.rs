//! The decisions of one relay call as a step function. The caller performs each
//! action (send the request, read the body) and hands back what happened; a
//! failure at any stage ends the call with an error outcome.
use vstd::prelude::*;
use crate::classify::{should_stream, streams};
use crate::error::RelayError;
use crate::headers::{keyed_like, well_keyed};
use crate::request::{prepare_request, prepared_as, url_accepted, OutboundRequest};
use crate::response::{assemble_response, assembled_as, received_view, response_headers};
use crate::timing::TimingMarks;
use crate::types::{HeaderSchema, Request, Response};

verus! {

/// Where a relay call stands.
#[derive(Debug)]
pub enum RelayState {
    /// Nothing has happened yet.
    Ready,
    /// The request went out; its response headers are awaited.
    AwaitingHeaders { client_timestamp: i64 },
    /// The headers came; the body is awaited.
    AwaitingBody { status: u16, headers: Vec<HeaderSchema>, client_timestamp: i64 },
    /// The outcome is known.
    Finished,
}

/// What happened since the last step.
#[derive(Debug)]
pub enum RelayEvent {
    /// The call starts, with its start in milliseconds since the epoch.
    Start { request: Request, client_timestamp: i64 },
    /// The response status and headers arrived, each value as raw bytes.
    Headers { status: u16, headers: Vec<(String, Vec<u8>)> },
    /// The whole body arrived; the marks say when each stage passed.
    Body { bytes: Vec<u8>, marks: TimingMarks },
    /// Sending or reading failed.
    Failure(RelayError),
}

/// What the caller does next.
#[derive(Debug)]
pub enum RelayAction {
    /// Send this request and wait for the response headers.
    Send(OutboundRequest),
    /// Read the body, incrementally or in one piece.
    ReadBody { incremental: bool },
    /// The call is over with this outcome.
    Complete(Result<Response, RelayError>),
}

/// The events each state takes: a start when ready, headers while they are
/// awaited, the body while it is awaited, and a failure at any stage under way.
pub open spec fn takes(state: RelayState, event: RelayEvent) -> bool {
    match (state, event) {
        (RelayState::Ready, RelayEvent::Start { .. }) => true,
        (RelayState::AwaitingHeaders { .. }, RelayEvent::Headers { .. }) => true,
        (RelayState::AwaitingBody { .. }, RelayEvent::Body { .. }) => true,
        (RelayState::AwaitingHeaders { .. }, RelayEvent::Failure(_)) => true,
        (RelayState::AwaitingBody { .. }, RelayEvent::Failure(_)) => true,
        _ => false,
    }
}

/// A state's own invariant: a header set awaiting its body is well keyed.
pub open spec fn well_formed(state: RelayState) -> bool {
    state matches RelayState::AwaitingBody { headers, .. } ==> well_keyed(headers@)
}

/// One step of a relay call.
pub fn advance(state: RelayState, event: RelayEvent) -> (r: (RelayState, RelayAction))
    requires
        well_formed(state),
        takes(state, event),
    ensures
        well_formed(r.0),
        event matches RelayEvent::Start { request, client_timestamp } ==> {
            if url_accepted(request.url@) {
                &&& r.0 == RelayState::AwaitingHeaders { client_timestamp }
                &&& r.1 matches RelayAction::Send(out) && prepared_as(request, client_timestamp, out)
            } else {
                &&& r.0 is Finished
                &&& r.1 matches RelayAction::Complete(Err(e)) && e is InvalidUrl
            }
        },
        event matches RelayEvent::Headers { status, headers } ==> {
            &&& r.0 matches RelayState::AwaitingBody { status: s, headers: hs, client_timestamp } && s
                == status && keyed_like(hs@, received_view(headers@)) && state
                == (RelayState::AwaitingHeaders { client_timestamp })
            &&& r.1 matches RelayAction::ReadBody { incremental } && incremental == streams(
                r.0->AwaitingBody_headers@,
            )
        },
        event matches RelayEvent::Body { bytes, marks } ==> {
            &&& r.0 is Finished
            &&& r.1 matches RelayAction::Complete(Ok(resp)) && state matches RelayState::AwaitingBody {
                status,
                headers,
                client_timestamp,
            } && assembled_as(status, headers@, bytes@, marks, client_timestamp, resp)
        },
        event matches RelayEvent::Failure(e) ==> r.0 is Finished && r.1 == RelayAction::Complete(
            Err(e),
        ),
{
    match (state, event) {
        (RelayState::Ready, RelayEvent::Start { request, client_timestamp }) => match prepare_request(
            &request,
            client_timestamp,
        ) {
            Ok(out) => (RelayState::AwaitingHeaders { client_timestamp }, RelayAction::Send(out)),
            Err(e) => (RelayState::Finished, RelayAction::Complete(Err(e))),
        },
        (RelayState::AwaitingHeaders { client_timestamp }, RelayEvent::Headers { status, headers }) => {
            let hs = response_headers(&headers);
            let incremental = should_stream(&hs);
            (
                RelayState::AwaitingBody { status, headers: hs, client_timestamp },
                RelayAction::ReadBody { incremental },
            )
        },
        (
            RelayState::AwaitingBody { status, headers, client_timestamp },
            RelayEvent::Body { bytes, marks },
        ) => {
            let resp = assemble_response(status, headers, bytes, &marks, client_timestamp);
            (RelayState::Finished, RelayAction::Complete(Ok(resp)))
        },
        (_, RelayEvent::Failure(e)) => (RelayState::Finished, RelayAction::Complete(Err(e))),
        // not taken: `takes` rules out every other pairing
        (_, _) => (RelayState::Finished, RelayAction::Complete(Err(RelayError::Transport(String::new())))),
    }
}

} // verus!
