//! The reactor: the tables of listeners and connections behind one event
//! loop, and what it does on every event.
//!
//! The reactor here never touches a socket. It is told what happened (a
//! message in its inbox, a readiness event, bytes that were read, bytes that
//! were taken by a socket) and answers with its new state and a list of
//! [`Action`]s for the event loop to carry out. Every transition is stated
//! over the views [`ReactorView`] and [`ConnectionView`].

pub use crate::frame::{FrameState, FramedTransport, WriteBuffer};
use crate::frame::{frame_bytes, frames_in, residue, views};
use crate::result::{ThrustError, ThrustResult};
use std::collections::{HashMap, HashSet};
use vstd::prelude::*;

verus! {

/// The handle of a listener or a connection of one reactor.
#[derive(Clone, Copy, PartialEq, Eq, Debug, Hash, Structural)]
pub struct Token(pub usize);

/// The token that a `Bind` or a `Connect` was given.
#[derive(Clone, Copy, PartialEq, Eq, Debug, Structural)]
pub struct Id(pub Token);

/// What can be sent into the reactor.
#[derive(Debug, Clone, PartialEq, Eq)]
pub enum Message {
    /// A stream socket to a peer has been opened and is handed over. The
    /// frames that come in on it go to the channel that is filed under the
    /// token of the new connection.
    Connect,
    /// A server socket has been bound and is handed over. The frames that
    /// come in on the connections it accepts go to the channel that is filed
    /// under the token of the new listener.
    Bind,
    /// A payload to be sent, as one frame, on the connection of this
    /// token. A reply travels the same way as a call.
    Rpc(Token, Vec<u8>),
    /// Close the connection of this token and forget it.
    Close(Token),
    /// Stop the event loop and give up every listener and connection.
    Shutdown,
}

/// What the reactor hands to a dispatcher.
#[derive(Debug, PartialEq, Eq)]
pub enum Dispatch {
    /// A whole frame, with the token of the connection it came in on.
    Data(Token, Vec<u8>),
}

#[derive(Debug, PartialEq, Eq)]
pub enum Timeout {
    /// Time to open the socket of this connection again.
    Reconnect(Token),
}

/// The state of a connection.
#[derive(Debug, PartialEq, Eq, Clone, Copy, Structural)]
pub enum State {
    Reading,
    Writing,
    Closed,
}

/// What a socket is ready for, or what one wants to hear of.
#[derive(Debug, PartialEq, Eq, Clone, Copy, Structural)]
pub struct EventSet {
    pub readable: bool,
    pub writable: bool,
    pub hup: bool,
    pub error: bool,
}

impl EventSet {
    pub open spec fn none_spec() -> EventSet {
        EventSet { readable: false, writable: false, hup: false, error: false }
    }

    pub open spec fn readable_spec() -> EventSet {
        EventSet { readable: true, writable: false, hup: false, error: false }
    }

    pub open spec fn writable_spec() -> EventSet {
        EventSet { readable: false, writable: true, hup: false, error: false }
    }

    #[verifier::when_used_as_spec(none_spec)]
    pub fn none() -> (e: EventSet)
        ensures
            e == EventSet::none_spec(),
    {
        EventSet { readable: false, writable: false, hup: false, error: false }
    }

    #[verifier::when_used_as_spec(readable_spec)]
    pub fn readable() -> (e: EventSet)
        ensures
            e == EventSet::readable_spec(),
    {
        EventSet { readable: true, writable: false, hup: false, error: false }
    }

    #[verifier::when_used_as_spec(writable_spec)]
    pub fn writable() -> (e: EventSet)
        ensures
            e == EventSet::writable_spec(),
    {
        EventSet { readable: false, writable: true, hup: false, error: false }
    }

    pub fn is_readable(&self) -> (b: bool)
        ensures
            b == self.readable,
    {
        self.readable
    }

    pub fn is_writable(&self) -> (b: bool)
        ensures
            b == self.writable,
    {
        self.writable
    }

    pub fn is_hup(&self) -> (b: bool)
        ensures
            b == self.hup,
    {
        self.hup
    }

    pub fn is_error(&self) -> (b: bool)
        ensures
            b == self.error,
    {
        self.error
    }
}

/// How a socket is to be watched.
#[derive(Debug, PartialEq, Eq, Clone, Copy, Structural)]
pub struct PollOpt {
    /// Report a change of readiness, not readiness itself.
    pub edge: bool,
    /// Report once, then wait to be armed again.
    pub oneshot: bool,
}

/// The delay before the first attempt to open a lost connection again, in
/// milliseconds.
pub const RECONNECT_DELAY_MS: u64 = 10;

/// The longest delay between two attempts to open a lost connection again,
/// in milliseconds.
pub const RECONNECT_DELAY_MAX_MS: u64 = 10_000;

/// The delay before the attempt that follows one that was made after
/// `delay` milliseconds and failed: twice as long, up to the longest delay.
pub open spec fn next_delay_spec(delay: u64) -> u64 {
    if delay > RECONNECT_DELAY_MAX_MS / 2 {
        RECONNECT_DELAY_MAX_MS
    } else {
        (2 * delay) as u64
    }
}

/// The delay before the attempt that follows one that was made after
/// `delay` milliseconds and failed.
#[verifier::when_used_as_spec(next_delay_spec)]
pub fn next_delay(delay: u64) -> (next: u64)
    ensures
        next == next_delay_spec(delay),
        next <= RECONNECT_DELAY_MAX_MS,
{
    if delay > RECONNECT_DELAY_MAX_MS / 2 {
        RECONNECT_DELAY_MAX_MS
    } else {
        2 * delay
    }
}

/// What the event loop is to do for the reactor.
#[derive(Debug, PartialEq, Eq)]
pub enum Action {
    /// Tell whoever sent the `Bind` or the `Connect` its token.
    Assign(Id),
    /// Start to watch the socket of this token.
    Register(Token, EventSet, PollOpt),
    /// Arm the socket of this token again.
    Reregister(Token, EventSet, PollOpt),
    /// Read what the socket of this connection holds and hand it to
    /// [`Reactor::readable`].
    Read(Token),
    /// Write what [`Reactor::pending_output`] gives for this connection and
    /// report to [`Reactor::written`] how much the socket took.
    Write(Token),
    /// Accept on this listener until it would block and hand each socket
    /// to [`Reactor::accept_connection`].
    Accept(Token),
    /// Send the message on the dispatch channel that is filed under the
    /// first token.
    Dispatch(Token, Dispatch),
    /// Wake the reactor with this timeout after so many milliseconds.
    Timeout(Timeout, u64),
    /// Close the socket of this token and forget it.
    Close(Token),
    /// Close every socket and stop the event loop.
    Shutdown,
}

/// An action with the payload it carries as a plain byte sequence.
pub enum ActionView {
    Assign(Token),
    Register(Token, EventSet, PollOpt),
    Reregister(Token, EventSet, PollOpt),
    Read(Token),
    Write(Token),
    Accept(Token),
    /// Channel, connection, payload.
    Dispatch(Token, Token, Seq<u8>),
    /// Connection to open again, delay.
    Reconnect(Token, u64),
    Close(Token),
    Shutdown,
}

impl View for Action {
    type V = ActionView;

    open spec fn view(&self) -> ActionView {
        match *self {
            Action::Assign(Id(t)) => ActionView::Assign(t),
            Action::Register(t, e, o) => ActionView::Register(t, e, o),
            Action::Reregister(t, e, o) => ActionView::Reregister(t, e, o),
            Action::Read(t) => ActionView::Read(t),
            Action::Write(t) => ActionView::Write(t),
            Action::Accept(t) => ActionView::Accept(t),
            Action::Dispatch(chan, Dispatch::Data(t, buf)) => ActionView::Dispatch(chan, t, buf@),
            Action::Timeout(Timeout::Reconnect(t), ms) => ActionView::Reconnect(t, ms),
            Action::Close(t) => ActionView::Close(t),
            Action::Shutdown => ActionView::Shutdown,
        }
    }
}

/// The views of a list of actions.
pub open spec fn action_views(actions: Seq<Action>) -> Seq<ActionView> {
    Seq::new(actions.len(), |i: int| actions[i]@)
}

/// How a connection is watched: for one event at a time.
pub open spec fn oneshot_spec() -> PollOpt {
    PollOpt { edge: false, oneshot: true }
}

/// How a connection is watched at first: for one change of readiness.
pub open spec fn edge_oneshot_spec() -> PollOpt {
    PollOpt { edge: true, oneshot: true }
}

/// How a listener is watched: for every change of readiness.
pub open spec fn edge_spec() -> PollOpt {
    PollOpt { edge: true, oneshot: false }
}

/// What a connection is, apart from its socket.
pub struct ConnectionView {
    pub token: Token,
    /// The token under which the channel to its dispatcher is filed: its
    /// own for a connection that was opened by `Connect`, that of its
    /// listener for one that was accepted.
    pub chan: Token,
    /// Whether it was opened by `Connect`, so that the address of its peer
    /// is known and it can be opened again.
    pub client: bool,
    pub state: State,
    /// The bytes of an incoming frame that is not complete yet.
    pub pending: Seq<u8>,
    /// The outgoing bytes that no socket has taken yet, in the order in
    /// which they were enqueued.
    pub unsent: Seq<u8>,
    /// The delay before the latest attempt to open the connection again, in
    /// milliseconds.
    pub delay: u64,
}

impl ConnectionView {
    /// A connection that has just been made: it reads, and holds nothing.
    pub open spec fn fresh(token: Token, chan: Token, client: bool) -> ConnectionView {
        ConnectionView {
            token,
            chan,
            client,
            state: State::Reading,
            pending: Seq::empty(),
            unsent: Seq::empty(),
            delay: RECONNECT_DELAY_MS,
        }
    }

    /// The events that the connection waits for in its state.
    pub open spec fn interest(self) -> EventSet {
        match self.state {
            State::Reading => EventSet::readable_spec(),
            State::Writing => EventSet::writable_spec(),
            State::Closed => EventSet::none_spec(),
        }
    }

    /// The connection after `payload` was enqueued as one frame.
    pub open spec fn enqueue(self, payload: Seq<u8>) -> ConnectionView {
        ConnectionView { unsent: self.unsent + frame_bytes(payload), ..self }
    }

    /// The connection after `data` came in: it holds what `data` left of a
    /// frame that is not complete.
    pub open spec fn took_in(self, data: Seq<u8>) -> ConnectionView {
        ConnectionView { pending: residue(self.pending + data), ..self }
    }

    /// The connection after its socket took the first `n` unsent bytes: it
    /// reads again once nothing is left to send, and goes on writing until
    /// then.
    pub open spec fn sent(self, n: int) -> ConnectionView {
        ConnectionView {
            unsent: self.unsent.skip(n),
            state: if self.unsent.len() == n {
                State::Reading
            } else {
                State::Writing
            },
            ..self
        }
    }

    /// The connection after its peer hung up or its socket failed: closed,
    /// the frame that was not complete is dropped, what was not sent is kept.
    /// The first attempt to open it again is due after the shortest delay.
    pub open spec fn hung_up(self) -> ConnectionView {
        ConnectionView {
            state: State::Closed,
            pending: Seq::empty(),
            delay: RECONNECT_DELAY_MS,
            ..self
        }
    }

    /// The connection after an attempt to open it again failed: the next
    /// attempt is due after twice the delay, up to the longest delay.
    pub open spec fn retried(self) -> ConnectionView {
        ConnectionView { delay: next_delay_spec(self.delay), ..self }
    }

    /// The connection on a new socket: it writes if it has something to
    /// send, and reads otherwise.
    pub open spec fn reopened(self) -> ConnectionView {
        ConnectionView {
            state: if self.unsent.len() > 0 {
                State::Writing
            } else {
                State::Reading
            },
            pending: Seq::empty(),
            ..self
        }
    }

    /// What a connection answers to a readiness event: it reads when it is
    /// reading and the socket is readable, writes when it is writing and the
    /// socket is writable, and otherwise only arms its socket again.
    pub open spec fn on_ready(self, events: EventSet) -> ActionView {
        if self.state == State::Reading && events.readable {
            ActionView::Read(self.token)
        } else if self.state == State::Writing && events.writable {
            ActionView::Write(self.token)
        } else {
            ActionView::Reregister(self.token, self.interest(), oneshot_spec())
        }
    }
}

/// One stream socket of the reactor: the state of the connection, the frame
/// that is coming in and the bytes that wait to go out.
pub struct Connection {
    token: Token,
    chan: Token,
    client: bool,
    state: State,
    transport: FramedTransport,
    wbuffer: WriteBuffer,
    delay: u64,
}

impl View for Connection {
    type V = ConnectionView;

    closed spec fn view(&self) -> ConnectionView {
        ConnectionView {
            token: self.token,
            chan: self.chan,
            client: self.client,
            state: self.state,
            pending: self.transport.pending(),
            unsent: self.wbuffer.unsent(),
            delay: self.delay,
        }
    }
}

impl Connection {
    pub fn new(token: Token, chan: Token, client: bool) -> (c: Connection)
        ensures
            c@ == ConnectionView::fresh(token, chan, client),
    {
        Connection {
            token: token,
            chan: chan,
            client: client,
            state: State::Reading,
            transport: FramedTransport::new(),
            wbuffer: WriteBuffer::new(),
            delay: RECONNECT_DELAY_MS,
        }
    }

    pub fn token(&self) -> (t: Token)
        ensures
            t == self@.token,
    {
        self.token
    }

    /// The token under which the channel to the dispatcher is filed.
    pub fn chan(&self) -> (t: Token)
        ensures
            t == self@.chan,
    {
        self.chan
    }

    pub fn state(&self) -> (s: State)
        ensures
            s == self@.state,
    {
        self.state
    }

    /// Whether the connection was opened by `Connect`.
    pub fn is_client(&self) -> (b: bool)
        ensures
            b == self@.client,
    {
        self.client
    }

    /// Closes the connection after a hangup or a failure of its socket.
    /// For a connection that can be opened again, returns the timeout
    /// that is to be scheduled for it.
    pub fn reset(&mut self) -> (t: Option<Timeout>)
        ensures
            final(self)@ == old(self)@.hung_up(),
            match t {
                Some(Timeout::Reconnect(token)) => old(self)@.client && token == old(self)@.token,
                None => !old(self)@.client,
            },
    {
        self.state = State::Closed;
        self.transport.clear();
        self.delay = RECONNECT_DELAY_MS;
        if self.client {
            Some(Timeout::Reconnect(self.token))
        } else {
            None
        }
    }

    /// Records that an attempt to open the connection again failed. Returns
    /// the delay before the next attempt, in milliseconds.
    pub fn retry(&mut self) -> (delay: u64)
        ensures
            final(self)@ == old(self)@.retried(),
            delay == final(self)@.delay,
    {
        self.delay = next_delay(self.delay);
        self.delay
    }

    /// Puts the connection on a new socket.
    pub fn reopen(&mut self)
        ensures
            final(self)@ == old(self)@.reopened(),
    {
        self.transport.clear();
        if self.wbuffer.has_remaining() {
            self.state = State::Writing;
        } else {
            self.state = State::Reading;
        }
    }

    /// What is to be done on a readiness event.
    pub fn ready(&self, events: EventSet) -> (a: Action)
        ensures
            a@ == self@.on_ready(events),
    {
        match self.state {
            State::Reading => {
                if events.is_readable() {
                    return Action::Read(self.token);
                }
            },
            State::Writing => {
                if events.is_writable() {
                    return Action::Write(self.token);
                }
            },
            State::Closed => {},
        }
        self.reregister()
    }

    /// Takes bytes that were read from the socket and returns the frames
    /// that they complete. Only a connection that is reading takes bytes.
    pub fn read(&mut self, data: &[u8]) -> (r: ThrustResult<Vec<Vec<u8>>>)
        ensures
            old(self)@.state == State::Reading ==> r is Ok && views(r->Ok_0@) == frames_in(
                old(self)@.pending + data@,
            ) && final(self)@ == old(self)@.took_in(data@),
            old(self)@.state != State::Reading ==> r == Err::<Vec<Vec<u8>>, ThrustError>(
                ThrustError::Other,
            ) && final(self)@ == old(self)@,
    {
        match self.state {
            State::Reading => Ok(self.transport.read(data)),
            _ => Err(ThrustError::Other),
        }
    }

    /// Takes bytes that were read from the socket. Every frame that they
    /// complete becomes a message for the dispatcher of this connection, in
    /// order, and the socket is armed again.
    pub fn readable(&mut self, data: &[u8]) -> (r: ThrustResult<Vec<Action>>)
        ensures
            old(self)@.state == State::Reading ==> r is Ok && final(self)@ == old(self)@.took_in(
                data@,
            ) && action_views(r->Ok_0@) == deliveries(
                old(self)@.chan,
                old(self)@.token,
                frames_in(old(self)@.pending + data@),
            ).push(
                ActionView::Reregister(
                    old(self)@.token,
                    old(self)@.took_in(data@).interest(),
                    oneshot_spec(),
                ),
            ),
            old(self)@.state != State::Reading ==> r == Err::<Vec<Action>, ThrustError>(
                ThrustError::Other,
            ) && final(self)@ == old(self)@,
    {
        let mut frames = self.read(data)?;
        let ghost all = views(frames@);
        let mut actions: Vec<Action> = Vec::new();
        let token = self.token;
        let chan = self.chan;
        let n: usize = frames.len();
        let mut i: usize = 0;
        while i < n
            invariant
                i <= n,
                n == all.len(),
                frames@.len() == n,
                actions@.len() == i,
                forall|j: int| i <= j < n ==> frames@[j]@ == all[j],
                forall|j: int|
                    0 <= j < i ==> (#[trigger] actions@[j])@ == ActionView::Dispatch(
                        chan,
                        token,
                        all[j],
                    ),
            decreases n - i,
        {
            let mut frame: Vec<u8> = Vec::new();
            std::mem::swap(&mut frame, &mut frames[i]);
            actions.push(Action::Dispatch(chan, Dispatch::Data(token, frame)));
            i = i + 1;
        }
        actions.push(self.reregister());
        assert(action_views(actions@) =~= deliveries(chan, token, all).push(
            ActionView::Reregister(token, self@.interest(), oneshot_spec()),
        ));
        Ok(actions)
    }

    /// Enqueues `data` as one frame: its length, then `data` itself, in one
    /// piece behind what is already waiting. A payload that is too long for
    /// a frame is refused, and nothing is enqueued.
    pub fn write(&mut self, data: &[u8]) -> (r: ThrustResult<()>)
        ensures
            data@.len() <= u32::MAX ==> r is Ok && final(self)@ == old(self)@.enqueue(data@),
            data@.len() > u32::MAX ==> r == Err::<(), ThrustError>(ThrustError::Other)
                && final(self)@ == old(self)@,
    {
        if self.wbuffer.enqueue(data) {
            Ok(())
        } else {
            Err(ThrustError::Other)
        }
    }

    /// The bytes that are to be written to the socket next.
    pub fn pending_output(&self) -> (out: &[u8])
        ensures
            out@ == self@.unsent,
    {
        self.wbuffer.chunk()
    }

    /// Records that the socket took the first `n` of the bytes that were
    /// waiting. A connection that is closed has no socket, and no socket
    /// takes more than was waiting: both are refused.
    pub fn writable(&mut self, n: usize) -> (r: ThrustResult<()>)
        ensures
            old(self)@.state != State::Closed && n <= old(self)@.unsent.len() ==> r is Ok
                && final(self)@ == old(self)@.sent(n as int),
            old(self)@.state == State::Closed || n > old(self)@.unsent.len() ==> r == Err::<
                (),
                ThrustError,
            >(ThrustError::Other) && final(self)@ == old(self)@,
    {
        match self.state {
            State::Closed => {
                return Err(ThrustError::Other);
            },
            _ => {},
        }
        if !self.wbuffer.advance(n) {
            return Err(ThrustError::Other);
        }
        if self.wbuffer.has_remaining() {
            self.state = State::Writing;
        } else {
            self.state = State::Reading;
        }
        Ok(())
    }

    /// How the socket is to be watched at first: for becoming readable.
    pub fn register(&self) -> (a: Action)
        ensures
            a@ == ActionView::Register(self@.token, EventSet::readable_spec(), edge_oneshot_spec()),
    {
        Action::Register(self.token, EventSet::readable(), PollOpt { edge: true, oneshot: true })
    }

    /// How the socket is to be armed again: for what the connection waits
    /// for in its state.
    pub fn reregister(&self) -> (a: Action)
        ensures
            a@ == ActionView::Reregister(self@.token, self@.interest(), oneshot_spec()),
    {
        let event_set = match self.state {
            State::Reading => EventSet::readable(),
            State::Writing => EventSet::writable(),
            State::Closed => EventSet::none(),
        };
        Action::Reregister(self.token, event_set, PollOpt { edge: false, oneshot: true })
    }
}

/// What can happen to a reactor.
#[derive(Debug, PartialEq, Eq)]
pub enum Event {
    /// A message arrived in the inbox.
    Message(Message),
    /// A socket was accepted on the listener of this token.
    Accept(Token),
    /// The socket of this token is ready.
    Ready(Token, EventSet),
    /// These bytes were read from the socket of this connection.
    Readable(Token, Vec<u8>),
    /// The socket of this connection took so many of the bytes that were
    /// waiting.
    Written(Token, usize),
    /// A timeout fired. For `Reconnect`, the socket has been opened again.
    Timeout(Timeout),
    /// The socket of this connection could not be opened again.
    ReconnectFailed(Token),
}

/// The tables of a reactor.
pub struct ReactorView {
    /// Whether the event loop is still running.
    pub running: bool,
    /// The token that the next listener or connection will get.
    pub next: usize,
    pub listeners: Set<usize>,
    pub connections: Map<usize, ConnectionView>,
}

/// The frames of one read as actions: each goes to the channel `chan` with
/// the token of the connection it came in on.
pub open spec fn deliveries(chan: Token, token: Token, frames: Seq<Seq<u8>>) -> Seq<ActionView> {
    Seq::new(frames.len(), |i: int| ActionView::Dispatch(chan, token, frames[i]))
}

impl ReactorView {
    /// A reactor that has just been started.
    pub open spec fn fresh() -> ReactorView {
        ReactorView { running: true, next: 0, listeners: Set::empty(), connections: Map::empty() }
    }

    /// What holds of the tables at all times: every token in them has been
    /// given out, none stands for both a listener and a connection, each
    /// connection is filed under its own token, and a reactor that was shut
    /// down holds nothing.
    pub open spec fn wf(self) -> bool {
        &&& forall|k: usize| #[trigger]
            self.listeners.contains(k) ==> k < self.next && !self.connections.contains_key(k)
        &&& forall|k: usize| #[trigger]
            self.connections.contains_key(k) ==> k < self.next && self.connections[k].token
                == Token(k)
        &&& !self.running ==> self.listeners == Set::<usize>::empty() && self.connections
            == Map::<usize, ConnectionView>::empty()
    }

    /// Whether the token stands for a listener or a connection now.
    pub open spec fn owns(self, token: Token) -> bool {
        self.listeners.contains(token.0) || self.connections.contains_key(token.0)
    }

    /// Whether the token has been given out at some time.
    pub open spec fn issued(self, token: Token) -> bool {
        token.0 < self.next
    }

    /// The reactor after a message from its inbox, with the actions that
    /// the message asks for.
    ///
    /// `Bind` and `Connect` give out the next token. `Rpc` enqueues its
    /// payload as one frame on its connection, which is asked to write unless
    /// it is closed and waits to be opened again. `Close` forgets its
    /// connection. `Shutdown` forgets everything, and every message after it
    /// is ignored. An `Rpc` or a `Close` for a token that is no connection, or
    /// a payload too long for a frame, is an error, and so is a `Bind` or a
    /// `Connect` when no token is left.
    pub open spec fn on_message(self, msg: Message) -> (ReactorView, ThrustResult<Seq<ActionView>>) {
        if !self.running {
            (self, Ok(Seq::empty()))
        } else {
            match msg {
                Message::Rpc(id, data) => {
                    if !self.connections.contains_key(id.0) || data@.len() > u32::MAX {
                        (self, Err(ThrustError::Other))
                    } else {
                        let c = self.connections[id.0].enqueue(data@);
                        (
                            ReactorView { connections: self.connections.insert(id.0, c), ..self },
                            Ok(
                                if c.state == State::Closed {
                                    Seq::empty()
                                } else {
                                    seq![ActionView::Write(id)]
                                },
                            ),
                        )
                    }
                },
                Message::Close(id) => {
                    if !self.connections.contains_key(id.0) {
                        (self, Err(ThrustError::Other))
                    } else {
                        (
                            ReactorView { connections: self.connections.remove(id.0), ..self },
                            Ok(seq![ActionView::Close(id)]),
                        )
                    }
                },
                Message::Shutdown => (
                    ReactorView {
                        running: false,
                        listeners: Set::empty(),
                        connections: Map::empty(),
                        ..self
                    },
                    Ok(seq![ActionView::Shutdown]),
                ),
                Message::Connect => {
                    if self.next == usize::MAX {
                        (self, Err(ThrustError::Other))
                    } else {
                        let t = Token(self.next);
                        (
                            ReactorView {
                                next: (self.next + 1) as usize,
                                connections: self.connections.insert(
                                    self.next,
                                    ConnectionView::fresh(t, t, true),
                                ),
                                ..self
                            },
                            Ok(
                                seq![
                                    ActionView::Assign(t),
                                    ActionView::Register(
                                        t,
                                        EventSet::readable_spec(),
                                        edge_oneshot_spec(),
                                    ),
                                ],
                            ),
                        )
                    }
                },
                Message::Bind => {
                    if self.next == usize::MAX {
                        (self, Err(ThrustError::Other))
                    } else {
                        let t = Token(self.next);
                        (
                            ReactorView {
                                next: (self.next + 1) as usize,
                                listeners: self.listeners.insert(self.next),
                                ..self
                            },
                            Ok(
                                seq![
                                    ActionView::Assign(t),
                                    ActionView::Register(t, EventSet::readable_spec(), edge_spec()),
                                ],
                            ),
                        )
                    }
                },
            }
        }
    }

    /// The reactor after a socket was accepted on `listener`: the new
    /// connection gets the next token and the dispatch channel of its
    /// listener, and is watched for becoming readable.
    pub open spec fn on_accept(self, listener: Token) -> (ReactorView, ThrustResult<Seq<ActionView>>) {
        if !self.listeners.contains(listener.0) || self.next == usize::MAX {
            (self, Err(ThrustError::Other))
        } else {
            let t = Token(self.next);
            (
                ReactorView {
                    next: (self.next + 1) as usize,
                    connections: self.connections.insert(
                        self.next,
                        ConnectionView::fresh(t, listener, false),
                    ),
                    ..self
                },
                Ok(seq![ActionView::Register(t, EventSet::readable_spec(), edge_oneshot_spec())]),
            )
        }
    }

    /// The reactor after a readiness event. A hangup or a failure closes
    /// the connection: one that can be opened again stays in the table and
    /// gets a timeout, any other leaves the table. A listener that is
    /// readable accepts. Any other event is for the connection to answer.
    /// An event for a token that the reactor does not hold is ignored.
    pub open spec fn on_ready(self, token: Token, events: EventSet) -> (ReactorView, Seq<ActionView>) {
        let k = token.0;
        if events.hup || events.error {
            if self.connections.contains_key(k) {
                let c = self.connections[k];
                if c.client {
                    (
                        ReactorView {
                            connections: self.connections.insert(k, c.hung_up()),
                            ..self
                        },
                        seq![ActionView::Reconnect(token, RECONNECT_DELAY_MS)],
                    )
                } else {
                    (
                        ReactorView { connections: self.connections.remove(k), ..self },
                        seq![ActionView::Close(token)],
                    )
                }
            } else {
                (self, Seq::empty())
            }
        } else if events.readable && self.listeners.contains(k) {
            (self, seq![ActionView::Accept(token)])
        } else if self.connections.contains_key(k) {
            (self, seq![self.connections[k].on_ready(events)])
        } else {
            (self, Seq::empty())
        }
    }

    /// The reactor after `data` was read from the socket of `token`: every
    /// frame that `data` completes goes to the dispatcher of the connection,
    /// in order, and the socket is armed again. Bytes for a token that is no
    /// connection, or for a connection that is not reading, are an error.
    pub open spec fn on_readable(self, token: Token, data: Seq<u8>) -> (
        ReactorView,
        ThrustResult<Seq<ActionView>>,
    ) {
        let k = token.0;
        if !self.connections.contains_key(k) || self.connections[k].state != State::Reading {
            (self, Err(ThrustError::Other))
        } else {
            let c = self.connections[k];
            let after = c.took_in(data);
            (
                ReactorView { connections: self.connections.insert(k, after), ..self },
                Ok(
                    deliveries(c.chan, token, frames_in(c.pending + data)).push(
                        ActionView::Reregister(token, after.interest(), oneshot_spec()),
                    ),
                ),
            )
        }
    }

    /// The reactor after the socket of `token` took `n` bytes: the
    /// connection moves its cursor and its socket is armed again, for
    /// writing as long as bytes wait and for reading otherwise.
    pub open spec fn on_written(self, token: Token, n: usize) -> (
        ReactorView,
        ThrustResult<Seq<ActionView>>,
    ) {
        let k = token.0;
        if !self.connections.contains_key(k) || self.connections[k].state == State::Closed || n
            > self.connections[k].unsent.len() {
            (self, Err(ThrustError::Other))
        } else {
            let after = self.connections[k].sent(n as int);
            (
                ReactorView { connections: self.connections.insert(k, after), ..self },
                Ok(seq![ActionView::Reregister(token, after.interest(), oneshot_spec())]),
            )
        }
    }

    /// The reactor after the socket of a closed connection was opened
    /// again: the connection keeps its token, its channel and what it had
    /// not sent, its new socket is watched, and what waits is written.
    pub open spec fn on_timeout(self, timeout: Timeout) -> (
        ReactorView,
        ThrustResult<Seq<ActionView>>,
    ) {
        match timeout {
            Timeout::Reconnect(token) => {
                let k = token.0;
                if !self.connections.contains_key(k) || self.connections[k].state != State::Closed {
                    (self, Err(ThrustError::Other))
                } else {
                    let after = self.connections[k].reopened();
                    let watch = ActionView::Register(
                        token,
                        EventSet::readable_spec(),
                        edge_oneshot_spec(),
                    );
                    (
                        ReactorView { connections: self.connections.insert(k, after), ..self },
                        Ok(
                            if after.state == State::Writing {
                                seq![watch, ActionView::Write(token)]
                            } else {
                                seq![watch]
                            },
                        ),
                    )
                }
            },
        }
    }

    /// The reactor after an attempt to open the socket of a closed
    /// connection failed: the next attempt is scheduled after a longer delay.
    pub open spec fn on_reconnect_failed(self, token: Token) -> (
        ReactorView,
        ThrustResult<Seq<ActionView>>,
    ) {
        let k = token.0;
        if !self.connections.contains_key(k) || self.connections[k].state != State::Closed
            || !self.connections[k].client {
            (self, Err(ThrustError::Other))
        } else {
            let after = self.connections[k].retried();
            (
                ReactorView { connections: self.connections.insert(k, after), ..self },
                Ok(seq![ActionView::Reconnect(token, after.delay)]),
            )
        }
    }

    /// The reactor after any event, with the actions that it asks for.
    pub open spec fn step(self, event: Event) -> (ReactorView, ThrustResult<Seq<ActionView>>) {
        match event {
            Event::Message(msg) => self.on_message(msg),
            Event::Accept(listener) => self.on_accept(listener),
            Event::Ready(token, events) => (
                self.on_ready(token, events).0,
                Ok(self.on_ready(token, events).1),
            ),
            Event::Readable(token, data) => self.on_readable(token, data@),
            Event::Written(token, n) => self.on_written(token, n),
            Event::Timeout(timeout) => self.on_timeout(timeout),
            Event::ReconnectFailed(token) => self.on_reconnect_failed(token),
        }
    }

    /// The token that an event makes the reactor give out, if it does.
    pub open spec fn gives_out(self, event: Event) -> Option<Token> {
        if self.step(event).0.next != self.next {
            Some(Token(self.next))
        } else {
            None
        }
    }

    /// The reactor after a run of events.
    pub open spec fn after(self, events: Seq<Event>) -> ReactorView
        decreases events.len(),
    {
        if events.len() == 0 {
            self
        } else {
            self.after(events.drop_last()).step(events.last()).0
        }
    }

    /// What holds of the tables holds after every event.
    pub proof fn lemma_step_keeps_wf(self, event: Event)
        requires
            self.wf(),
        ensures
            self.step(event).0.wf(),
            self.step(event).0.next == self.next || self.step(event).0.next == self.next + 1,
            self.step(event).0.next == self.next + 1 ==> !self.owns(Token(self.next))
                && self.step(event).0.owns(Token(self.next)),
            !self.running ==> !self.step(event).0.running,
    {
        let after = self.step(event).0;
        match event {
            Event::Message(Message::Shutdown) => {
                assert(after.wf());
            },
            _ => {
                assert(after.wf());
            },
        }
    }

    /// What holds of the tables holds after bytes were read.
    pub proof fn lemma_readable_keeps_wf(self, token: Token, data: Seq<u8>)
        requires
            self.wf(),
        ensures
            self.on_readable(token, data).0.wf(),
    {
    }

    /// What holds of the tables holds after every run of events, and the
    /// next token never goes back.
    pub proof fn lemma_run_keeps_wf(self, events: Seq<Event>)
        requires
            self.wf(),
        ensures
            self.after(events).wf(),
            self.after(events).next >= self.next,
            !self.running ==> !self.after(events).running,
        decreases events.len(),
    {
        if events.len() > 0 {
            self.lemma_run_keeps_wf(events.drop_last());
            self.after(events.drop_last()).lemma_step_keeps_wf(events.last());
        }
    }

    /// No token is given out twice: of two tokens that a reactor gives
    /// out in the course of a run, the later is the larger.
    pub proof fn lemma_tokens_distinct(self, events: Seq<Event>, i: int, j: int)
        requires
            self.wf(),
            0 <= i < j < events.len(),
            self.after(events.take(i)).gives_out(events[i]) is Some,
            self.after(events.take(j)).gives_out(events[j]) is Some,
        ensures
            self.after(events.take(i)).gives_out(events[i])->Some_0.0 < self.after(
                events.take(j),
            ).gives_out(events[j])->Some_0.0,
    {
        let before_i = self.after(events.take(i));
        let mid = events.take(j).skip(i + 1);
        self.lemma_run_keeps_wf(events.take(i));
        before_i.lemma_step_keeps_wf(events[i]);
        let after_i = before_i.step(events[i]).0;
        assert(events.take(i + 1).drop_last() =~= events.take(i));
        assert(self.after(events.take(i + 1)) == after_i);
        self.lemma_run_splits(events.take(i + 1), mid);
        assert(events.take(i + 1) + mid =~= events.take(j));
        after_i.lemma_run_keeps_wf(mid);
    }

    /// A run of events can be taken in two parts.
    pub proof fn lemma_run_splits(self, first: Seq<Event>, second: Seq<Event>)
        ensures
            self.after(first + second) == self.after(first).after(second),
        decreases second.len(),
    {
        if second.len() == 0 {
            assert(first + second =~= first);
        } else {
            self.lemma_run_splits(first, second.drop_last());
            assert((first + second).drop_last() =~= first + second.drop_last());
        }
    }

    /// Whether an event can change what the reactor holds under the token
    /// with the number `k`: the token that the event names, the token that is
    /// given out next, and every token when the reactor is shut down.
    pub open spec fn touches(self, event: Event, k: usize) -> bool {
        k == self.next || match event {
            Event::Message(Message::Rpc(t, _)) => t.0 == k,
            Event::Message(Message::Close(t)) => t.0 == k,
            Event::Message(Message::Shutdown) => true,
            Event::Message(Message::Bind) => false,
            Event::Message(Message::Connect) => false,
            Event::Accept(_) => false,
            Event::Ready(t, _) => t.0 == k,
            Event::Readable(t, _) => t.0 == k,
            Event::Written(t, _) => t.0 == k,
            Event::Timeout(Timeout::Reconnect(t)) => t.0 == k,
            Event::ReconnectFailed(t) => t.0 == k,
        }
    }

    /// What happens to one connection leaves every other alone: an event
    /// changes nothing under a token that it does not touch, be it a failure,
    /// a hangup or bytes that make no frame.
    pub proof fn lemma_events_are_local(self, event: Event, k: usize)
        requires
            self.wf(),
            !self.touches(event, k),
        ensures
            self.step(event).0.listeners.contains(k) == self.listeners.contains(k),
            self.step(event).0.connections.contains_key(k) == self.connections.contains_key(k),
            self.connections.contains_key(k) ==> self.step(event).0.connections[k]
                == self.connections[k],
            self.step(event).0.running == self.running,
    {
    }

    /// After `Shutdown` a reactor does nothing: whatever happens, it stays
    /// as it is, holds no connection, and asks for no action, so that no
    /// byte is written to any socket.
    pub proof fn lemma_silent_after_shutdown(self, event: Event)
        requires
            self.wf(),
            !self.running,
        ensures
            self.step(event).0 == self,
            match self.step(event).1 {
                Ok(actions) => actions == Seq::<ActionView>::empty(),
                Err(_) => true,
            },
    {
    }

    /// `Shutdown` stops a running reactor for good.
    pub proof fn lemma_shutdown_is_final(self, events: Seq<Event>)
        requires
            self.wf(),
        ensures
            !self.on_message(Message::Shutdown).0.running,
            self.on_message(Message::Shutdown).0.after(events) == self.on_message(
                Message::Shutdown,
            ).0,
        decreases events.len(),
    {
        let down = self.on_message(Message::Shutdown).0;
        self.lemma_step_keeps_wf(Event::Message(Message::Shutdown));
        if events.len() > 0 {
            self.lemma_shutdown_is_final(events.drop_last());
            down.lemma_silent_after_shutdown(events.last());
        }
    }
}

/// The views of the connections of a table.
pub open spec fn connection_views(table: Map<usize, Connection>) -> Map<usize, ConnectionView> {
    Map::new(|k: usize| table.contains_key(k), |k: usize| table[k]@)
}

/// Whether a result of the reactor is the outcome that its view gives.
pub open spec fn is_outcome(r: ThrustResult<Vec<Action>>, outcome: ThrustResult<Seq<ActionView>>) -> bool {
    match outcome {
        Ok(actions) => r is Ok && action_views(r->Ok_0@) == actions,
        Err(e) => r is Err && r->Err_0 == e,
    }
}

/// The tables of listeners and connections behind one event loop, and the
/// counter from which their tokens come. Tokens are given out in order and
/// never taken back.
pub struct Reactor {
    listeners: HashSet<usize>,
    connections: HashMap<usize, Connection>,
    current_token: usize,
    running: bool,
}

impl View for Reactor {
    type V = ReactorView;

    closed spec fn view(&self) -> ReactorView {
        ReactorView {
            running: self.running,
            next: self.current_token,
            listeners: self.listeners@,
            connections: connection_views(self.connections@),
        }
    }
}

impl Reactor {
    #[verifier::type_invariant]
    spec fn tables_wf(self) -> bool {
        self@.wf()
    }

    pub fn new() -> (r: Reactor)
        ensures
            r@ == ReactorView::fresh(),
            r@.wf(),
    {
        let r = Reactor {
            listeners: HashSet::new(),
            connections: HashMap::new(),
            current_token: 0,
            running: true,
        };
        assert(r@.connections =~= Map::<usize, ConnectionView>::empty());
        r
    }

    /// Takes the table of connections out of the reactor, which holds none
    /// until the table is put back.
    fn take_connections(&mut self) -> (table: HashMap<usize, Connection>)
        requires
            old(self).running,
        ensures
            table@ == old(self).connections@,
            old(self)@.wf(),
            final(self).connections@ == Map::<usize, Connection>::empty(),
            final(self).listeners@ == old(self).listeners@,
            final(self).current_token == old(self).current_token,
            final(self).running == old(self).running,
    {
        proof {
            use_type_invariant(&*self);
        }
        let mut table: HashMap<usize, Connection> = HashMap::new();
        proof {
            let expect = ReactorView { connections: connection_views(table@), ..self@ };
            assert(connection_views(table@) =~= Map::<usize, ConnectionView>::empty());
            assert(expect.wf());
        }
        std::mem::swap(&mut table, &mut self.connections);
        table
    }

    /// Whether the event loop is still running.
    pub fn is_running(&self) -> (b: bool)
        ensures
            b == self@.running,
    {
        self.running
    }

    /// Handles a message from the inbox.
    pub fn incoming_msg(&mut self, msg: Message) -> (r: ThrustResult<Vec<Action>>)
        ensures
            final(self)@ == old(self)@.on_message(msg).0,
            is_outcome(r, old(self)@.on_message(msg).1),
            final(self)@.wf(),
    {
        broadcast use vstd::std_specs::hash::group_hash_axioms;

        let ghost before = self@;
        let ghost after = before.on_message(msg).0;
        proof {
            use_type_invariant(&*self);
            before.lemma_step_keeps_wf(Event::Message(msg));
        }
        if !self.running {
            let actions: Vec<Action> = Vec::new();
            assert(action_views(actions@) =~= Seq::<ActionView>::empty());
            return Ok(actions);
        }
        match msg {
            Message::Rpc(id, data) => {
                let mut table = self.take_connections();
                match table.remove(&id.0) {
                    None => {
                        assert(connection_views(table@) =~= before.connections);
                        self.connections = table;
                        Err(ThrustError::Other)
                    },
                    Some(conn) => {
                        let mut conn = conn;
                        let written = conn.write(data.as_slice());
                        let closed = match conn.state() {
                            State::Closed => true,
                            _ => false,
                        };
                        table.insert(id.0, conn);
                        assert(connection_views(table@) =~= after.connections);
                        self.connections = table;
                        match written {
                            Err(e) => Err(e),
                            Ok(()) => {
                                let mut actions: Vec<Action> = Vec::new();
                                if !closed {
                                    actions.push(Action::Write(id));
                                }
                                assert(action_views(actions@) =~= before.on_message(msg).1->Ok_0);
                                Ok(actions)
                            },
                        }
                    },
                }
            },
            Message::Close(id) => {
                let mut table = self.take_connections();
                match table.remove(&id.0) {
                    None => {
                        assert(connection_views(table@) =~= before.connections);
                        self.connections = table;
                        Err(ThrustError::Other)
                    },
                    Some(_) => {
                        assert(connection_views(table@) =~= after.connections);
                        self.connections = table;
                        let mut actions: Vec<Action> = Vec::new();
                        actions.push(Action::Close(id));
                        assert(action_views(actions@) =~= seq![ActionView::Close(id)]);
                        Ok(actions)
                    },
                }
            },
            Message::Shutdown => {
                self.listeners = HashSet::new();
                let table: HashMap<usize, Connection> = HashMap::new();
                assert(connection_views(table@) =~= Map::<usize, ConnectionView>::empty());
                self.connections = table;
                self.running = false;
                let mut actions: Vec<Action> = Vec::new();
                actions.push(Action::Shutdown);
                assert(action_views(actions@) =~= seq![ActionView::Shutdown]);
                Ok(actions)
            },
            Message::Connect => {
                if self.current_token == usize::MAX {
                    return Err(ThrustError::Other);
                }
                let token = Token(self.current_token);
                let conn = Connection::new(token, token, true);
                let mut actions: Vec<Action> = Vec::new();
                actions.push(Action::Assign(Id(token)));
                actions.push(conn.register());
                self.current_token = self.current_token + 1;
                let mut table = self.take_connections();
                table.insert(token.0, conn);
                assert(connection_views(table@) =~= after.connections);
                self.connections = table;
                assert(action_views(actions@) =~= before.on_message(msg).1->Ok_0);
                Ok(actions)
            },
            Message::Bind => {
                if self.current_token == usize::MAX {
                    return Err(ThrustError::Other);
                }
                let token = Token(self.current_token);
                let mut actions: Vec<Action> = Vec::new();
                actions.push(Action::Assign(Id(token)));
                actions.push(
                    Action::Register(
                        token,
                        EventSet::readable(),
                        PollOpt { edge: true, oneshot: false },
                    ),
                );
                self.current_token = self.current_token + 1;
                let mut listeners: HashSet<usize> = HashSet::new();
                std::mem::swap(&mut listeners, &mut self.listeners);
                listeners.insert(token.0);
                self.listeners = listeners;
                assert(action_views(actions@) =~= before.on_message(msg).1->Ok_0);
                Ok(actions)
            },
        }
    }

    /// Takes in a socket that was accepted on `listener`.
    pub fn accept_connection(&mut self, listener: Token) -> (r: ThrustResult<Vec<Action>>)
        ensures
            final(self)@ == old(self)@.on_accept(listener).0,
            is_outcome(r, old(self)@.on_accept(listener).1),
            final(self)@.wf(),
    {
        broadcast use vstd::std_specs::hash::group_hash_axioms;

        let ghost before = self@;
        let ghost after = before.on_accept(listener).0;
        proof {
            use_type_invariant(&*self);
            before.lemma_step_keeps_wf(Event::Accept(listener));
        }
        if !self.listeners.contains(&listener.0) || self.current_token == usize::MAX {
            return Err(ThrustError::Other);
        }
        let token = Token(self.current_token);
        let conn = Connection::new(token, listener, false);
        let mut actions: Vec<Action> = Vec::new();
        actions.push(conn.register());
        self.current_token = self.current_token + 1;
        let mut table = self.take_connections();
        table.insert(token.0, conn);
        assert(connection_views(table@) =~= after.connections);
        self.connections = table;
        assert(action_views(actions@) =~= before.on_accept(listener).1->Ok_0);
        Ok(actions)
    }

    /// Handles a readiness event for the socket of `token`.
    pub fn ready(&mut self, token: Token, events: EventSet) -> (actions: Vec<Action>)
        ensures
            final(self)@ == old(self)@.on_ready(token, events).0,
            action_views(actions@) == old(self)@.on_ready(token, events).1,
            final(self)@.wf(),
    {
        broadcast use vstd::std_specs::hash::group_hash_axioms;

        let ghost before = self@;
        let ghost after = before.on_ready(token, events).0;
        proof {
            use_type_invariant(&*self);
            before.lemma_step_keeps_wf(Event::Ready(token, events));
        }
        let k: usize = token.0;
        let mut actions: Vec<Action> = Vec::new();
        if events.is_hup() || events.is_error() {
            if self.connections.contains_key(&k) {
                let mut table = self.take_connections();
                match table.remove(&k) {
                    Some(conn) => {
                        let mut conn = conn;
                        match conn.reset() {
                            Some(timeout) => {
                                table.insert(k, conn);
                                actions.push(Action::Timeout(timeout, RECONNECT_DELAY_MS));
                            },
                            None => {
                                actions.push(Action::Close(token));
                            },
                        }
                    },
                    None => {},
                }
                assert(connection_views(table@) =~= after.connections);
                self.connections = table;
            }
        } else if events.is_readable() && self.listeners.contains(&k) {
            actions.push(Action::Accept(token));
        } else {
            match self.connections.get(&k) {
                Some(conn) => {
                    actions.push(conn.ready(events));
                },
                None => {},
            }
        }
        assert(action_views(actions@) =~= before.on_ready(token, events).1);
        actions
    }

    /// Takes in bytes that were read from the socket of `token`.
    pub fn readable(&mut self, token: Token, data: &[u8]) -> (r: ThrustResult<Vec<Action>>)
        ensures
            final(self)@ == old(self)@.on_readable(token, data@).0,
            is_outcome(r, old(self)@.on_readable(token, data@).1),
            final(self)@.wf(),
    {
        broadcast use vstd::std_specs::hash::group_hash_axioms;

        let ghost before = self@;
        let ghost after = before.on_readable(token, data@).0;
        proof {
            use_type_invariant(&*self);
            before.lemma_readable_keeps_wf(token, data@);
        }
        let k: usize = token.0;
        if !self.connections.contains_key(&k) {
            return Err(ThrustError::Other);
        }
        let mut table = self.take_connections();
        match table.remove(&k) {
            None => {
                assert(connection_views(table@) =~= before.connections);
                self.connections = table;
                Err(ThrustError::Other)
            },
            Some(conn) => {
                let mut conn = conn;
                let r = conn.readable(data);
                table.insert(k, conn);
                assert(connection_views(table@) =~= after.connections);
                self.connections = table;
                r
            },
        }
    }

    /// The bytes that are to be written to the socket of `token` next, if
    /// the token stands for a connection.
    pub fn pending_output(&self, token: Token) -> (out: Option<&[u8]>)
        ensures
            match out {
                Some(bytes) => self@.connections.contains_key(token.0) && bytes@
                    == self@.connections[token.0].unsent,
                None => !self@.connections.contains_key(token.0),
            },
    {
        broadcast use vstd::std_specs::hash::group_hash_axioms;

        match self.connections.get(&token.0) {
            Some(conn) => Some(conn.pending_output()),
            None => None,
        }
    }

    /// Records that the socket of `token` took `n` of the bytes that were
    /// waiting.
    pub fn written(&mut self, token: Token, n: usize) -> (r: ThrustResult<Vec<Action>>)
        ensures
            final(self)@ == old(self)@.on_written(token, n).0,
            is_outcome(r, old(self)@.on_written(token, n).1),
            final(self)@.wf(),
    {
        broadcast use vstd::std_specs::hash::group_hash_axioms;

        let ghost before = self@;
        let ghost after = before.on_written(token, n).0;
        proof {
            use_type_invariant(&*self);
            before.lemma_step_keeps_wf(Event::Written(token, n));
        }
        let k: usize = token.0;
        if !self.connections.contains_key(&k) {
            return Err(ThrustError::Other);
        }
        let mut table = self.take_connections();
        match table.remove(&k) {
            None => {
                assert(connection_views(table@) =~= before.connections);
                self.connections = table;
                Err(ThrustError::Other)
            },
            Some(conn) => {
                let mut conn = conn;
                let r = conn.writable(n);
                let rearm = conn.reregister();
                table.insert(k, conn);
                assert(connection_views(table@) =~= after.connections);
                self.connections = table;
                match r {
                    Err(e) => Err(e),
                    Ok(()) => {
                        let mut actions: Vec<Action> = Vec::new();
                        actions.push(rearm);
                        assert(action_views(actions@) =~= before.on_written(token, n).1->Ok_0);
                        Ok(actions)
                    },
                }
            },
        }
    }

    /// Handles a timeout. For `Reconnect`, the socket of the connection has
    /// been opened again.
    pub fn incoming_timeout(&mut self, timeout: Timeout) -> (r: ThrustResult<Vec<Action>>)
        ensures
            final(self)@ == old(self)@.on_timeout(timeout).0,
            is_outcome(r, old(self)@.on_timeout(timeout).1),
            final(self)@.wf(),
    {
        broadcast use vstd::std_specs::hash::group_hash_axioms;

        let ghost before = self@;
        let ghost after = before.on_timeout(timeout).0;
        proof {
            use_type_invariant(&*self);
            before.lemma_step_keeps_wf(Event::Timeout(timeout));
        }
        match timeout {
            Timeout::Reconnect(token) => {
                let k: usize = token.0;
                if !self.connections.contains_key(&k) {
                    return Err(ThrustError::Other);
                }
                let mut table = self.take_connections();
                match table.remove(&k) {
                    None => {
                        assert(connection_views(table@) =~= before.connections);
                        self.connections = table;
                        Err(ThrustError::Other)
                    },
                    Some(conn) => {
                        let mut conn = conn;
                        let closed = match conn.state() {
                            State::Closed => true,
                            _ => false,
                        };
                        if !closed {
                            table.insert(k, conn);
                            assert(connection_views(table@) =~= before.connections);
                            self.connections = table;
                            return Err(ThrustError::Other);
                        }
                        conn.reopen();
                        let mut actions: Vec<Action> = Vec::new();
                        actions.push(conn.register());
                        match conn.state() {
                            State::Writing => {
                                actions.push(Action::Write(token));
                            },
                            _ => {},
                        }
                        table.insert(k, conn);
                        assert(connection_views(table@) =~= after.connections);
                        self.connections = table;
                        assert(action_views(actions@) =~= before.on_timeout(timeout).1->Ok_0);
                        Ok(actions)
                    },
                }
            },
        }
    }

    /// Records that the socket of the closed connection `token` could not
    /// be opened again.
    pub fn reconnect_failed(&mut self, token: Token) -> (r: ThrustResult<Vec<Action>>)
        ensures
            final(self)@ == old(self)@.on_reconnect_failed(token).0,
            is_outcome(r, old(self)@.on_reconnect_failed(token).1),
            final(self)@.wf(),
    {
        broadcast use vstd::std_specs::hash::group_hash_axioms;

        let ghost before = self@;
        let ghost after = before.on_reconnect_failed(token).0;
        proof {
            use_type_invariant(&*self);
            before.lemma_step_keeps_wf(Event::ReconnectFailed(token));
        }
        let k: usize = token.0;
        if !self.connections.contains_key(&k) {
            return Err(ThrustError::Other);
        }
        let mut table = self.take_connections();
        match table.remove(&k) {
            None => {
                assert(connection_views(table@) =~= before.connections);
                self.connections = table;
                Err(ThrustError::Other)
            },
            Some(conn) => {
                let mut conn = conn;
                let closed = match conn.state() {
                    State::Closed => true,
                    _ => false,
                };
                if !closed || !conn.is_client() {
                    table.insert(k, conn);
                    assert(connection_views(table@) =~= before.connections);
                    self.connections = table;
                    return Err(ThrustError::Other);
                }
                let delay = conn.retry();
                table.insert(k, conn);
                assert(connection_views(table@) =~= after.connections);
                self.connections = table;
                let mut actions: Vec<Action> = Vec::new();
                actions.push(Action::Timeout(Timeout::Reconnect(token), delay));
                assert(action_views(actions@) =~= before.on_reconnect_failed(token).1->Ok_0);
                Ok(actions)
            },
        }
    }

    /// Handles any event: the reactor goes to its next state and returns
    /// the actions that the event asks for.
    pub fn handle(&mut self, event: Event) -> (r: ThrustResult<Vec<Action>>)
        ensures
            final(self)@ == old(self)@.step(event).0,
            is_outcome(r, old(self)@.step(event).1),
            final(self)@.wf(),
    {
        match event {
            Event::Message(msg) => self.incoming_msg(msg),
            Event::Accept(listener) => self.accept_connection(listener),
            Event::Ready(token, events) => Ok(self.ready(token, events)),
            Event::Readable(token, data) => self.readable(token, data.as_slice()),
            Event::Written(token, n) => self.written(token, n),
            Event::Timeout(timeout) => self.incoming_timeout(timeout),
            Event::ReconnectFailed(token) => self.reconnect_failed(token),
        }
    }
}

} // verus!
