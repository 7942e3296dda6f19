//! The HTTP connection loop as a state machine: accept, read one request,
//! write the response, close, pause, accept again.
//!
//! One connection is handled at a time. The code that owns the socket
//! performs the action that the machine asks for and hands the outcome
//! back as the next event.

use crate::command::{angle_of, AngleCommand};
use crate::http_server::{handle_request, route_of};
use crate::text::decode_text;
use vstd::prelude::*;
use vstd::slice::slice_subrange;
use vstd::string::*;
use vstd::utf8::{decode_utf8, encode_utf8, valid_utf8};

verus! {

/// The port that the server listens on.
pub const HTTP_PORT: u16 = 80;

/// Idle timeout of a connection, in milliseconds.
pub const IDLE_TIMEOUT_MS: u64 = 10_000;

/// Pause between closing one connection and accepting the next, in
/// milliseconds.
pub const ACCEPT_PAUSE_MS: u64 = 100;

/// Number of bytes read from a connection at most.
pub const RX_BUFFER_SIZE: usize = 1024;

/// Number of bytes that the socket buffers for writing.
pub const TX_BUFFER_SIZE: usize = 1024;

/// What the server waits for.
#[derive(Clone, Copy, Debug, PartialEq, Eq, Structural)]
pub enum ServerPhase {
    /// A client to connect.
    Accepting,
    /// The request of the connected client.
    Reading,
    /// The socket to take more of the response.
    Writing,
    /// The connection to be closed and the pause to pass.
    Closing,
}

/// What the socket is seen to do.
#[derive(Clone, Copy, Debug, PartialEq, Eq)]
pub enum ServerEvent<'a> {
    /// A client connected.
    Accepted,
    /// Accepting failed or timed out.
    AcceptFailed,
    /// The client sent these bytes; none means that it hung up.
    Received(&'a [u8]),
    /// Reading failed or timed out.
    ReadFailed,
    /// The socket took this many bytes of the response.
    Written(usize),
    /// Writing failed or timed out.
    WriteFailed,
    /// The connection is closed and the pause has passed.
    Closed,
}

/// An event as a value: the bytes received, not the place they lie at.
pub enum ServerInput {
    Accepted,
    AcceptFailed,
    Received(Seq<u8>),
    ReadFailed,
    Written(nat),
    WriteFailed,
    Closed,
}

impl<'a> View for ServerEvent<'a> {
    type V = ServerInput;

    open spec fn view(&self) -> ServerInput {
        match *self {
            ServerEvent::Accepted => ServerInput::Accepted,
            ServerEvent::AcceptFailed => ServerInput::AcceptFailed,
            ServerEvent::Received(data) => ServerInput::Received(data@),
            ServerEvent::ReadFailed => ServerInput::ReadFailed,
            ServerEvent::Written(n) => ServerInput::Written(n as nat),
            ServerEvent::WriteFailed => ServerInput::WriteFailed,
            ServerEvent::Closed => ServerInput::Closed,
        }
    }
}

/// What the server asks for.
#[derive(Clone, Copy, Debug, PartialEq, Eq, Structural)]
pub enum ServerAction {
    /// Wait for a client on `port`, on a socket with the given idle
    /// timeout.
    Accept { port: u16, timeout_ms: u64 },
    /// Read once from the connection, `capacity` bytes at most.
    Read { capacity: usize },
    /// Write once from the unsent part of the response.
    Write,
    /// Close the connection, then wait for `pause_ms` milliseconds.
    Close { pause_ms: u64 },
}

/// The state of the server: its phase and, while it writes, the part of
/// the response that the socket has not taken yet.
pub struct ServerState {
    pub phase: ServerPhase,
    pub unsent: Seq<u8>,
}

/// What one step of the server yields.
pub struct ServerOutput {
    pub state: ServerState,
    pub action: ServerAction,
    pub command: Option<int>,
}

impl ServerPhase {
    /// The action whose outcome the server waits for in this phase.
    pub open spec fn awaited(self) -> ServerAction {
        match self {
            ServerPhase::Accepting => ServerAction::Accept { port: 80, timeout_ms: 10_000 },
            ServerPhase::Reading => ServerAction::Read { capacity: 1024 },
            ServerPhase::Writing => ServerAction::Write,
            ServerPhase::Closing => ServerAction::Close { pause_ms: 100 },
        }
    }
}

/// The server in `phase`, with nothing to write.
pub open spec fn waiting(phase: ServerPhase) -> ServerState {
    ServerState { phase, unsent: Seq::empty() }
}

/// The server in `phase` with nothing to write, asking for what the phase
/// waits for and publishing nothing.
pub open spec fn move_to(phase: ServerPhase) -> ServerOutput {
    ServerOutput { state: waiting(phase), action: phase.awaited(), command: None }
}

/// The bytes of the response to the request in `data`. Data that are
/// empty or not well-formed UTF-8 get no response.
pub open spec fn response_to(data: Seq<u8>) -> Option<Seq<u8>> {
    if data.len() > 0 && valid_utf8(data) {
        Some(encode_utf8(route_of(decode_utf8(data)).response()))
    } else {
        None
    }
}

/// The angle that the request in `data` publishes, if any.
pub open spec fn command_in(data: Seq<u8>) -> Option<int> {
    if data.len() > 0 && valid_utf8(data) {
        route_of(decode_utf8(data)).published()
    } else {
        None
    }
}

/// The unsent part of a response after the socket took `n` bytes of it.
pub open spec fn after_write(unsent: Seq<u8>, n: nat) -> Seq<u8> {
    if n < unsent.len() {
        unsent.skip(n as int)
    } else {
        Seq::empty()
    }
}

/// The transition function of the server. A failed accept is followed by
/// another accept; a request is answered in full, in as many writes as
/// the socket needs; any failure after the accept, and the end of the
/// response, close the connection; after the pause the next client is
/// accepted. An event that the phase does not expect changes nothing and
/// asks again for the action that the phase waits for.
pub open spec fn server_transition(state: ServerState, input: ServerInput) -> ServerOutput {
    match (state.phase, input) {
        (ServerPhase::Accepting, ServerInput::Accepted) => move_to(ServerPhase::Reading),
        (ServerPhase::Reading, ServerInput::Received(data)) => match response_to(data) {
            Some(bytes) => if bytes.len() > 0 {
                ServerOutput {
                    state: ServerState { phase: ServerPhase::Writing, unsent: bytes },
                    action: ServerAction::Write,
                    command: command_in(data),
                }
            } else {
                ServerOutput { command: command_in(data), ..move_to(ServerPhase::Closing) }
            },
            None => move_to(ServerPhase::Closing),
        },
        (ServerPhase::Reading, ServerInput::ReadFailed) => move_to(ServerPhase::Closing),
        (ServerPhase::Writing, ServerInput::Written(n)) => if after_write(state.unsent, n).len()
            > 0 {
            ServerOutput {
                state: ServerState {
                    phase: ServerPhase::Writing,
                    unsent: after_write(state.unsent, n),
                },
                action: ServerAction::Write,
                command: None,
            }
        } else {
            move_to(ServerPhase::Closing)
        },
        (ServerPhase::Writing, ServerInput::WriteFailed) => move_to(ServerPhase::Closing),
        (ServerPhase::Closing, ServerInput::Closed) => move_to(ServerPhase::Accepting),
        _ => ServerOutput { state, action: state.phase.awaited(), command: None },
    }
}

/// What the server hands back from one step.
#[derive(Clone, Copy, Debug, PartialEq, Eq)]
pub struct ServerStep {
    /// The action to perform next.
    pub action: ServerAction,
    /// The command to publish, if the step routed a request with an
    /// accepted angle.
    pub command: Option<AngleCommand>,
}

/// The HTTP server state machine.
#[derive(Debug, PartialEq, Eq)]
pub struct HttpServer {
    phase: ServerPhase,
    response: Vec<u8>,
    sent: usize,
}

impl View for HttpServer {
    type V = ServerState;

    closed spec fn view(&self) -> ServerState {
        ServerState {
            phase: self.phase,
            unsent: if self.phase == ServerPhase::Writing && self.sent <= self.response@.len() {
                self.response@.skip(self.sent as int)
            } else {
                Seq::empty()
            },
        }
    }
}

impl HttpServer {
    /// A server that waits for its first client.
    pub fn new() -> (server: Self)
        ensures
            server@ == waiting(ServerPhase::Accepting),
    {
        HttpServer { phase: ServerPhase::Accepting, response: Vec::new(), sent: 0 }
    }

    /// What the server waits for.
    pub fn phase(&self) -> (phase: ServerPhase)
        ensures
            phase == self@.phase,
    {
        self.phase
    }

    /// The action whose outcome the server waits for.
    pub fn awaited(&self) -> (action: ServerAction)
        ensures
            action == self@.phase.awaited(),
    {
        awaited_action(self.phase)
    }

    /// The part of the response that the socket has not taken yet.
    pub fn unsent(&self) -> (bytes: &[u8])
        ensures
            bytes@ == self@.unsent,
    {
        let all = self.response.as_slice();
        if self.phase == ServerPhase::Writing && self.sent <= all.len() {
            let bytes = slice_subrange(all, self.sent, all.len());
            assert(bytes@ =~= self@.unsent);
            bytes
        } else {
            let bytes = slice_subrange(all, 0, 0);
            assert(bytes@ =~= self@.unsent);
            bytes
        }
    }

    fn enter(&mut self, phase: ServerPhase) -> (step: ServerStep)
        requires
            phase != ServerPhase::Writing,
        ensures
            final(self)@ == waiting(phase),
            step.action == phase.awaited(),
            step.command is None,
    {
        self.phase = phase;
        self.response = Vec::new();
        self.sent = 0;
        ServerStep { action: awaited_action(phase), command: None }
    }

    /// Takes `event` and returns the action to perform next, with the
    /// command that the step publishes, if any.
    pub fn step(&mut self, event: ServerEvent<'_>) -> (step: ServerStep)
        ensures
            final(self)@ == server_transition(old(self)@, event@).state,
            step.action == server_transition(old(self)@, event@).action,
            angle_of(step.command) == server_transition(old(self)@, event@).command,
    {
        match (self.phase, event) {
            (ServerPhase::Accepting, ServerEvent::Accepted) => self.enter(ServerPhase::Reading),
            (ServerPhase::Reading, ServerEvent::Received(data)) => {
                if data.len() == 0 {
                    return self.enter(ServerPhase::Closing);
                }
                match decode_text(data) {
                    Some(request) => {
                        let outcome = handle_request(request);
                        let bytes = outcome.response.as_str().as_bytes_vec();
                        if bytes.len() > 0 {
                            self.phase = ServerPhase::Writing;
                            self.response = bytes;
                            self.sent = 0;
                            assert(self.response@.skip(0) =~= self.response@);
                            ServerStep { action: ServerAction::Write, command: outcome.command }
                        } else {
                            let closing = self.enter(ServerPhase::Closing);
                            ServerStep { action: closing.action, command: outcome.command }
                        }
                    },
                    None => self.enter(ServerPhase::Closing),
                }
            },
            (ServerPhase::Reading, ServerEvent::ReadFailed) => self.enter(ServerPhase::Closing),
            (ServerPhase::Writing, ServerEvent::Written(n)) => {
                let len = self.response.len();
                if self.sent < len && n < len - self.sent {
                    assert(self.response@.skip(self.sent as int).skip(n as int)
                        =~= self.response@.skip(self.sent + n));
                    self.sent = self.sent + n;
                    ServerStep { action: ServerAction::Write, command: None }
                } else {
                    self.enter(ServerPhase::Closing)
                }
            },
            (ServerPhase::Writing, ServerEvent::WriteFailed) => self.enter(ServerPhase::Closing),
            (ServerPhase::Closing, ServerEvent::Closed) => self.enter(ServerPhase::Accepting),
            (phase, _) => ServerStep { action: awaited_action(phase), command: None },
        }
    }
}

/// The action whose outcome the server waits for in `phase`.
pub fn awaited_action(phase: ServerPhase) -> (action: ServerAction)
    ensures
        action == phase.awaited(),
{
    match phase {
        ServerPhase::Accepting => ServerAction::Accept {
            port: HTTP_PORT,
            timeout_ms: IDLE_TIMEOUT_MS,
        },
        ServerPhase::Reading => ServerAction::Read { capacity: RX_BUFFER_SIZE },
        ServerPhase::Writing => ServerAction::Write,
        ServerPhase::Closing => ServerAction::Close { pause_ms: ACCEPT_PAUSE_MS },
    }
}

/// A connection that was accepted is closed before the next one is
/// accepted, whatever happens on it: no step leads from reading or
/// writing straight back to accepting. A failure while reading or writing
/// closes the connection at once, and once it is closed the server
/// accepts again.
pub proof fn lemma_connection_is_closed(state: ServerState, input: ServerInput)
    ensures
        ({
            let next = server_transition(state, input);
            &&& (state.phase == ServerPhase::Reading || state.phase == ServerPhase::Writing)
                ==> next.state.phase != ServerPhase::Accepting
            &&& state.phase == ServerPhase::Reading && input is ReadFailed ==> next.state
                == waiting(ServerPhase::Closing)
            &&& state.phase == ServerPhase::Writing && input is WriteFailed ==> next.state
                == waiting(ServerPhase::Closing)
            &&& state.phase == ServerPhase::Closing && input is Closed ==> next.state == waiting(
                ServerPhase::Accepting,
            )
            &&& next.action == next.state.phase.awaited()
        }),
{
}

/// A response leaves in order and in full: each write drops from the
/// front of the unsent part what the socket took, and the connection is
/// closed exactly when nothing is left. A command is published only by
/// the step that receives the request.
pub proof fn lemma_response_is_written_in_order(unsent: Seq<u8>, n: nat)
    requires
        unsent.len() > 0,
    ensures
        ({
            let state = ServerState { phase: ServerPhase::Writing, unsent };
            let next = server_transition(state, ServerInput::Written(n));
            &&& n < unsent.len() ==> next.state.phase == ServerPhase::Writing && next.state.unsent
                == unsent.skip(n as int)
            &&& n >= unsent.len() ==> next.state == waiting(ServerPhase::Closing)
            &&& next.command is None
        }),
{
}

} // verus!
