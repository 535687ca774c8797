//! The decisions of one connection to the dry-run IPC endpoint: it reads a
//! request line, has the dry run performed, writes the response line, and
//! repeats until the peer closes or something fails.

use vstd::prelude::*;

use vstd::string::StringSliceAdditionalSpecFns;

use crate::request::{parse_request, spec_parse_request, IpcRequest, RequestError};

verus! {

/// Where a connection stands.
#[derive(Clone, Copy, Debug, PartialEq, Eq, Structural)]
pub enum ConnectionState {
    /// Waiting for the next request line; a connection starts here.
    Reading,
    /// Waiting for the dry run of a request.
    DryRunning,
    /// Waiting for a response line to be written.
    Writing,
    /// Done; nothing more happens on the connection.
    Closed,
}

/// What happened on a connection.
#[derive(Clone, Debug, PartialEq, Eq)]
pub enum ConnectionEvent {
    /// A line was read: `len` bytes, `line` being the text read.
    LineRead { len: usize, line: String },
    /// Reading failed.
    ReadFailed,
    /// The dry run finished, with the response serialized as JSON, or failed.
    DryRunFinished { response_json: Option<String> },
    /// Writing the response finished, successfully or not.
    WriteFinished { ok: bool },
}

/// Why a connection was given up.
#[derive(Clone, Copy, Debug, PartialEq, Eq, Structural)]
pub enum ConnectionError {
    /// Reading a line failed.
    Read,
    /// The request line was refused.
    Request(RequestError),
    /// The dry run, or serializing its response, failed.
    DryRun,
    /// Writing the response failed.
    Write,
}

/// What to do next on a connection.
#[derive(Clone, Debug, PartialEq, Eq)]
pub enum ConnectionAction {
    /// Read the next request line.
    ReadLine,
    /// Perform the dry run of this request.
    DryRun(IpcRequest),
    /// Write these bytes to the peer.
    Send(Vec<u8>),
    /// The peer closed the connection; end it without error.
    Close,
    /// End the connection with this error.
    Abort(ConnectionError),
}

/// Whether `event` is one that can happen in `state`.
pub open spec fn event_fits(state: ConnectionState, event: ConnectionEvent) -> bool {
    match state {
        ConnectionState::Reading => event is LineRead || event is ReadFailed,
        ConnectionState::DryRunning => event is DryRunFinished,
        ConnectionState::Writing => event is WriteFinished,
        ConnectionState::Closed => false,
    }
}

/// Whether `action` is what a connection in `state` is doing: reading in
/// `Reading`, dry-running in `DryRunning`, writing in `Writing`, and ending it
/// in `Closed`.
pub open spec fn action_fits(state: ConnectionState, action: ConnectionAction) -> bool {
    match state {
        ConnectionState::Reading => action is ReadLine,
        ConnectionState::DryRunning => action is DryRun,
        ConnectionState::Writing => action is Send,
        ConnectionState::Closed => action is Close || action is Abort,
    }
}

/// The bytes of the response line for a JSON response: the JSON and a newline.
pub open spec fn response_line(json: Seq<char>) -> Seq<u8> {
    vstd::utf8::encode_utf8(json).push(10u8)
}

/// The response line for `json`: its bytes followed by a newline.
pub fn frame_response(json: &str) -> (frame: Vec<u8>)
    ensures
        frame@ == response_line(json@),
{
    let bytes = json.as_bytes();
    let n = bytes.len();
    let mut frame: Vec<u8> = Vec::with_capacity(n);
    let mut i: usize = 0;
    while i < n
        invariant
            n == bytes@.len(),
            bytes@ == json.spec_bytes(),
            i <= n,
            frame@ == bytes@.take(i as int),
        decreases n - i,
    {
        frame.push(bytes[i]);
        assert(bytes@.take(i + 1) =~= bytes@.take(i as int).push(bytes@[i as int]));
        i = i + 1;
    }
    assert(bytes@.take(n as int) =~= bytes@);
    frame.push(10u8);
    frame
}

/// The next state of a connection and what to do, after `event` happened in
/// `state`.
pub fn step(state: ConnectionState, event: ConnectionEvent) -> (r: (ConnectionState, ConnectionAction))
    requires
        event_fits(state, event),
    ensures
        action_fits(r.0, r.1),
        event matches ConnectionEvent::LineRead { len, line } ==> {
            if len == 0 {
                r == (ConnectionState::Closed, ConnectionAction::Close)
            } else {
                match spec_parse_request(line@) {
                    Ok((tx, override_objects)) => {
                        &&& r.0 == ConnectionState::DryRunning
                        &&& r.1 matches ConnectionAction::DryRun(request)
                        &&& request.tx@ == tx
                        &&& request.override_objects@ == override_objects
                    },
                    Err(e) => r == (
                        ConnectionState::Closed,
                        ConnectionAction::Abort(ConnectionError::Request(e)),
                    ),
                }
            }
        },
        event is ReadFailed ==> r == (
            ConnectionState::Closed,
            ConnectionAction::Abort(ConnectionError::Read),
        ),
        event matches ConnectionEvent::DryRunFinished { response_json } ==> match response_json {
            Some(json) => {
                &&& r.0 == ConnectionState::Writing
                &&& r.1 matches ConnectionAction::Send(bytes)
                &&& bytes@ == response_line(json@)
            },
            None => r == (ConnectionState::Closed, ConnectionAction::Abort(ConnectionError::DryRun)),
        },
        event matches ConnectionEvent::WriteFinished { ok } ==> if ok {
            r == (ConnectionState::Reading, ConnectionAction::ReadLine)
        } else {
            r == (ConnectionState::Closed, ConnectionAction::Abort(ConnectionError::Write))
        },
{
    match event {
        ConnectionEvent::LineRead { len, line } => {
            if len == 0 {
                (ConnectionState::Closed, ConnectionAction::Close)
            } else {
                match parse_request(line.as_str()) {
                    Ok(request) => (ConnectionState::DryRunning, ConnectionAction::DryRun(request)),
                    Err(e) => (
                        ConnectionState::Closed,
                        ConnectionAction::Abort(ConnectionError::Request(e)),
                    ),
                }
            }
        },
        ConnectionEvent::ReadFailed => (
            ConnectionState::Closed,
            ConnectionAction::Abort(ConnectionError::Read),
        ),
        ConnectionEvent::DryRunFinished { response_json } => match response_json {
            Some(json) => (ConnectionState::Writing, ConnectionAction::Send(frame_response(json.as_str()))),
            None => (ConnectionState::Closed, ConnectionAction::Abort(ConnectionError::DryRun)),
        },
        ConnectionEvent::WriteFinished { ok } => {
            if ok {
                (ConnectionState::Reading, ConnectionAction::ReadLine)
            } else {
                (ConnectionState::Closed, ConnectionAction::Abort(ConnectionError::Write))
            }
        },
    }
}

/// Whether a node starts the dry-run IPC server: validators do not expose
/// it, and it needs a transaction orchestrator.
pub fn should_start_ipc_server(is_validator: bool, has_transaction_orchestrator: bool) -> (start:
    bool)
    ensures
        start == (!is_validator && has_transaction_orchestrator),
{
    if is_validator {
        return false;
    }
    has_transaction_orchestrator
}

} // verus!
