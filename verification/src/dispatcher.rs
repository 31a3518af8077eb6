//! The dispatcher: what stands between the code of a client or a server and
//! the reactor.
//!
//! A dispatcher here is a state machine. It is told what arrived (a message
//! from its user, a frame from the reactor, the loss of a channel) and
//! answers with its new state and a list of [`Effect`]s for its thread to
//! carry out. A client keeps the reply channels of its calls under the names
//! of the methods that were called, one channel for each name, and hands
//! each reply to the channel that waits under the name in its header.

use crate::binary_protocol::{binary_decode, BinaryDeserializer};
use crate::protocol::{
    Deserializer, Error, Kind, ThriftDeserializer, ThriftMessage, ThriftMessageType,
};
use crate::reactor::{Dispatch, Id, Message, Token};
use crate::result::{ThrustError, ThrustResult};
use crate::text::str_eq;
use vstd::prelude::*;

verus! {

#[derive(Debug, Clone, Copy, PartialEq, Eq, Structural)]
pub enum Role {
    /// A server hands the calls that come in to a runner and sends back
    /// what the runner answers.
    Server,
    /// A client sends calls and hands each reply to whoever waits for it.
    Client,
}

impl Role {
    /// The message that asks the reactor for the socket of this role: a
    /// listener for a server, a connection for a client.
    pub fn request(&self) -> (msg: Message)
        ensures
            match *self {
                Role::Server => msg is Bind,
                Role::Client => msg is Connect,
            },
    {
        match self {
            Role::Server => Message::Bind,
            Role::Client => Message::Connect,
        }
    }
}

/// The handle of a channel on which a caller waits for a reply.
#[derive(Debug, Clone, Copy, PartialEq, Eq, Structural)]
pub struct ReplyTo(pub u64);

/// What the user of a dispatcher can send to it.
#[derive(Debug, PartialEq, Eq)]
pub enum Incoming {
    /// The name of the method, the encoded call, and where the reply is
    /// awaited, if one is.
    Call(String, Vec<u8>, Option<ReplyTo>),
    /// An encoded reply for the peer on the connection of this token.
    Reply(Token, Vec<u8>),
    Shutdown,
}

/// What can arrive at a dispatcher.
#[derive(Debug, PartialEq, Eq)]
pub enum Input {
    User(Incoming),
    Reactor(Dispatch),
    /// A channel of the dispatcher was closed on the other side.
    Disconnected,
}

/// Whether a dispatcher still runs, and why not if it does not.
#[derive(Debug, Clone, Copy, PartialEq, Eq, Structural)]
pub enum Status {
    Running,
    /// It was shut down, or lost a channel.
    Stopped,
    /// A frame came in whose header could not be read.
    Failed(Error),
}

/// What the thread of a dispatcher is to do for it.
pub enum Effect {
    /// Send `Message::Rpc` with this token and payload to the reactor.
    Rpc(Token, Vec<u8>),
    /// Send `Message::Close` with this token to the reactor.
    Close(Token),
    /// Hand the header of a reply, and the decoder that stands behind the
    /// header, to the caller that waits on this channel.
    Deliver(ReplyTo, ThriftMessage, BinaryDeserializer),
    /// Hand a frame, with the token of the connection it came in on, to
    /// the runner.
    Forward(Token, Vec<u8>),
    /// Drop this reply channel: nothing will come for it.
    Cancel(ReplyTo),
}

/// An effect with what it carries as plain values.
pub enum EffectView {
    Rpc(Token, Seq<u8>),
    Close(Token),
    /// Channel; name, type and sequence id of the header; the bytes behind
    /// the header.
    Deliver(ReplyTo, Seq<char>, ThriftMessageType, i16, Seq<u8>),
    Forward(Token, Seq<u8>),
    Cancel(ReplyTo),
}

impl View for Effect {
    type V = EffectView;

    open spec fn view(&self) -> EffectView {
        match *self {
            Effect::Rpc(t, buf) => EffectView::Rpc(t, buf@),
            Effect::Close(t) => EffectView::Close(t),
            Effect::Deliver(to, msg, de) => EffectView::Deliver(
                to,
                msg.name@,
                msg.ty,
                msg.seq,
                de.remaining(),
            ),
            Effect::Forward(t, buf) => EffectView::Forward(t, buf@),
            Effect::Cancel(to) => EffectView::Cancel(to),
        }
    }
}

/// The views of a list of effects.
pub open spec fn effect_views(effects: Seq<Effect>) -> Seq<EffectView> {
    Seq::new(effects.len(), |i: int| effects[i]@)
}

/// The calls that wait for a reply: the name of the method and the channel
/// of the caller, in the order in which the names came.
pub type Pending = Seq<(Seq<char>, ReplyTo)>;

/// Where `name` stands among the pending calls, or -1 if no call waits
/// under it.
pub open spec fn index_of(pending: Pending, name: Seq<char>) -> int
    decreases pending.len(),
{
    if pending.len() == 0 {
        -1
    } else if pending.last().0 == name {
        pending.len() - 1
    } else {
        index_of(pending.drop_last(), name)
    }
}

/// No two pending calls wait under the same name.
pub open spec fn distinct_names(pending: Pending) -> bool {
    forall|i: int, j: int|
        0 <= i < pending.len() && 0 <= j < pending.len() && i != j ==> (#[trigger] pending[i]).0
            != (#[trigger] pending[j]).0
}

/// The effects that drop the channels of all pending calls.
pub open spec fn cancels(pending: Pending) -> Seq<EffectView> {
    Seq::new(pending.len(), |i: int| EffectView::Cancel(pending[i].1))
}

/// `index_of` finds the call that waits under a name, and only that.
pub proof fn lemma_index_of(pending: Pending, name: Seq<char>)
    ensures
        -1 <= index_of(pending, name) < pending.len(),
        index_of(pending, name) >= 0 ==> pending[index_of(pending, name)].0 == name,
        index_of(pending, name) == -1 ==> forall|i: int|
            0 <= i < pending.len() ==> (#[trigger] pending[i]).0 != name,
    decreases pending.len(),
{
    if pending.len() > 0 && pending.last().0 != name {
        let head = pending.drop_last();
        lemma_index_of(head, name);
        if index_of(pending, name) == -1 {
            assert forall|i: int| 0 <= i < pending.len() implies (#[trigger] pending[i]).0
                != name by {
                if i < head.len() {
                    assert(head[i] == pending[i]);
                }
            }
        }
    }
}

/// Among distinct names, a call is found where it stands.
pub proof fn lemma_index_of_unique(pending: Pending, name: Seq<char>, i: int)
    requires
        distinct_names(pending),
        0 <= i < pending.len(),
        pending[i].0 == name,
    ensures
        index_of(pending, name) == i,
{
    lemma_index_of(pending, name);
}

/// What a dispatcher is, apart from its channels.
pub struct DispatcherView {
    pub role: Role,
    /// The token of its listener or of its connection.
    pub token: Token,
    pub pending: Pending,
    pub status: Status,
}

impl DispatcherView {
    /// A dispatcher that has just got its token.
    pub open spec fn fresh(role: Role, token: Token) -> DispatcherView {
        DispatcherView { role, token, pending: Seq::empty(), status: Status::Running }
    }

    /// What holds of a dispatcher at all times: at most one call waits
    /// under each name, and none waits once the dispatcher has stopped.
    pub open spec fn wf(self) -> bool {
        &&& distinct_names(self.pending)
        &&& self.status != Status::Running ==> self.pending.len() == 0
    }

    /// The dispatcher once it has stopped for the reason `status`: it lets
    /// go of every pending call.
    pub open spec fn halted(self, status: Status) -> DispatcherView {
        DispatcherView { pending: Seq::empty(), status, ..self }
    }

    /// The dispatcher after a message from its user.
    ///
    /// A call goes to the reactor for the own connection. If a reply is
    /// awaited, the channel is filed under the name of the method; a channel
    /// that was filed under that name before is replaced and cancelled. A
    /// reply goes to the reactor for the connection it names. `Shutdown`
    /// stops the dispatcher and cancels every pending call.
    pub open spec fn on_user(self, msg: Incoming) -> (DispatcherView, Seq<EffectView>) {
        if self.status != Status::Running {
            (self, Seq::empty())
        } else {
            match msg {
                Incoming::Call(method, buf, reply) => {
                    let rpc = EffectView::Rpc(self.token, buf@);
                    match reply {
                        None => (self, seq![rpc]),
                        Some(to) => {
                            let i = index_of(self.pending, method@);
                            if i >= 0 {
                                (
                                    DispatcherView {
                                        pending: self.pending.update(i, (method@, to)),
                                        ..self
                                    },
                                    seq![rpc, EffectView::Cancel(self.pending[i].1)],
                                )
                            } else {
                                (
                                    DispatcherView {
                                        pending: self.pending.push((method@, to)),
                                        ..self
                                    },
                                    seq![rpc],
                                )
                            }
                        },
                    }
                },
                Incoming::Reply(token, buf) => (self, seq![EffectView::Rpc(token, buf@)]),
                Incoming::Shutdown => (self.halted(Status::Stopped), cancels(self.pending)),
            }
        }
    }

    /// The dispatcher after a frame from the reactor.
    ///
    /// A server hands the frame on as it is. A client reads the header: the
    /// call that waits under the name in the header gets the header and what
    /// stands behind it, and waits no longer; a frame under a name that
    /// nobody waits for is dropped. A frame whose header cannot be read ends
    /// the dispatcher: its connection is closed and its pending calls are
    /// cancelled.
    pub open spec fn on_data(self, data: Dispatch) -> (DispatcherView, Seq<EffectView>) {
        if self.status != Status::Running {
            (self, Seq::empty())
        } else {
            match data {
                Dispatch::Data(token, buf) => match self.role {
                    Role::Server => (self, seq![EffectView::Forward(token, buf@)]),
                    Role::Client => match binary_decode(Kind::MessageBegin, buf@) {
                        Err(e) => (
                            self.halted(Status::Failed(e)),
                            seq![EffectView::Close(token)] + cancels(self.pending),
                        ),
                        Ok((item, n)) => {
                            let name = item->MessageBegin_0;
                            let i = index_of(self.pending, name);
                            if i >= 0 {
                                (
                                    DispatcherView { pending: self.pending.remove(i), ..self },
                                    seq![
                                        EffectView::Deliver(
                                            self.pending[i].1,
                                            name,
                                            item->MessageBegin_1,
                                            item->MessageBegin_2,
                                            buf@.skip(n as int),
                                        ),
                                    ],
                                )
                            } else {
                                (self, Seq::empty())
                            }
                        },
                    },
                },
            }
        }
    }

    /// The dispatcher after it lost a channel: it stops and cancels every
    /// pending call.
    pub open spec fn on_disconnected(self) -> (DispatcherView, Seq<EffectView>) {
        if self.status != Status::Running {
            (self, Seq::empty())
        } else {
            (self.halted(Status::Stopped), cancels(self.pending))
        }
    }

    /// The dispatcher after anything that can arrive, with the effects that
    /// it asks for.
    pub open spec fn step(self, input: Input) -> (DispatcherView, Seq<EffectView>) {
        match input {
            Input::User(msg) => self.on_user(msg),
            Input::Reactor(data) => self.on_data(data),
            Input::Disconnected => self.on_disconnected(),
        }
    }

    /// The dispatcher after a run of inputs, with all the effects of the
    /// run in order.
    pub open spec fn run(self, inputs: Seq<Input>) -> (DispatcherView, Seq<EffectView>)
        decreases inputs.len(),
    {
        if inputs.len() == 0 {
            (self, Seq::empty())
        } else {
            let (mid, effects) = self.run(inputs.drop_last());
            (mid.step(inputs.last()).0, effects + mid.step(inputs.last()).1)
        }
    }

    /// What the loop of the dispatcher ends with, once it has ended.
    pub open spec fn result(self) -> Option<ThrustResult<()>> {
        match self.status {
            Status::Running => None,
            Status::Stopped => Some(Ok(())),
            Status::Failed(_) => Some(Err(ThrustError::Other)),
        }
    }

    /// What holds of a dispatcher holds after everything that can arrive.
    pub proof fn lemma_step_keeps_wf(self, input: Input)
        requires
            self.wf(),
        ensures
            self.step(input).0.wf(),
            self.step(input).0.role == self.role,
            self.step(input).0.token == self.token,
            self.status != Status::Running ==> self.step(input).0 == self && self.step(input).1
                == Seq::<EffectView>::empty(),
    {
        let after = self.step(input).0;
        if self.status == Status::Running {
            match input {
                Input::User(Incoming::Call(method, buf, Some(to))) => {
                    lemma_index_of(self.pending, method@);
                },
                Input::Reactor(Dispatch::Data(token, buf)) => {
                    if self.role == Role::Client {
                        match binary_decode(Kind::MessageBegin, buf@) {
                            Ok((item, n)) => {
                                lemma_index_of(self.pending, item->MessageBegin_0);
                            },
                            Err(_) => {},
                        }
                    }
                },
                _ => {},
            }
        }
    }
}

/// Whether an effect hands something to the channel `to`, or drops it.
pub open spec fn concerns(effect: EffectView, to: ReplyTo) -> bool {
    match effect {
        EffectView::Deliver(ch, _, _, _, _) => ch == to,
        EffectView::Cancel(ch) => ch == to,
        _ => false,
    }
}

/// Whether an input leaves alone the call of a client that waits under
/// `name` on the channel `to`: it is no call that awaits its reply under the
/// same name or on the same channel, no frame under that name or with a
/// header that cannot be read, and it does not stop the dispatcher.
pub open spec fn leaves_alone(input: Input, name: Seq<char>, to: ReplyTo) -> bool {
    match input {
        Input::User(Incoming::Call(method, _, reply)) => reply matches Some(ch) ==> method@
            != name && ch != to,
        Input::User(Incoming::Reply(_, _)) => true,
        Input::User(Incoming::Shutdown) => false,
        Input::Reactor(Dispatch::Data(_, buf)) => match binary_decode(Kind::MessageBegin, buf@) {
            Ok((item, _)) => item->MessageBegin_0 != name,
            Err(_) => false,
        },
        Input::Disconnected => false,
    }
}

impl DispatcherView {
    /// Whether a call waits under `name` on the channel `to`, and `to` is
    /// filed under no other name.
    pub open spec fn awaits(self, name: Seq<char>, to: ReplyTo) -> bool {
        &&& self.status == Status::Running
        &&& index_of(self.pending, name) >= 0
        &&& forall|j: int|
            0 <= j < self.pending.len() ==> ((#[trigger] self.pending[j]).1 == to <==> j
                == index_of(self.pending, name))
    }

    /// Whether nothing is filed for the channel `to`.
    pub open spec fn unknown(self, to: ReplyTo) -> bool {
        forall|j: int| 0 <= j < self.pending.len() ==> (#[trigger] self.pending[j]).1 != to
    }

    /// A call that awaits its reply is sent to the reactor and filed under
    /// the name of its method.
    pub proof fn lemma_call_is_filed(self, method: String, buf: Vec<u8>, to: ReplyTo)
        requires
            self.wf(),
            self.status == Status::Running,
            self.unknown(to),
        ensures
            self.on_user(Incoming::Call(method, buf, Some(to))).0.wf(),
            self.on_user(Incoming::Call(method, buf, Some(to))).0.awaits(method@, to),
            self.on_user(Incoming::Call(method, buf, Some(to))).1[0] == EffectView::Rpc(
                self.token,
                buf@,
            ),
            forall|k: int|
                0 <= k < self.on_user(Incoming::Call(method, buf, Some(to))).1.len() ==> !concerns(
                    #[trigger] self.on_user(Incoming::Call(method, buf, Some(to))).1[k],
                    to,
                ),
    {
        let msg = Incoming::Call(method, buf, Some(to));
        let after = self.on_user(msg).0;
        self.lemma_step_keeps_wf(Input::User(msg));
        lemma_index_of(self.pending, method@);
        let i = index_of(self.pending, method@);
        if i >= 0 {
            lemma_index_of_unique(after.pending, method@, i);
        } else {
            lemma_index_of_unique(after.pending, method@, self.pending.len() as int);
        }
    }

    /// A call goes on waiting through every input that leaves it alone,
    /// and its channel gets nothing meanwhile.
    pub proof fn lemma_call_waits(self, input: Input, name: Seq<char>, to: ReplyTo)
        requires
            self.wf(),
            self.role == Role::Client,
            self.awaits(name, to),
            leaves_alone(input, name, to),
        ensures
            self.step(input).0.wf(),
            self.step(input).0.role == Role::Client,
            self.step(input).0.awaits(name, to),
            forall|k: int|
                0 <= k < self.step(input).1.len() ==> !concerns(
                    #[trigger] self.step(input).1[k],
                    to,
                ),
    {
        let after = self.step(input).0;
        let i = index_of(self.pending, name);
        self.lemma_step_keeps_wf(input);
        lemma_index_of(self.pending, name);
        match input {
            Input::User(Incoming::Call(method, buf, Some(ch))) => {
                lemma_index_of(self.pending, method@);
                lemma_index_of_unique(after.pending, name, i);
            },
            Input::Reactor(Dispatch::Data(token, buf)) => {
                let item = binary_decode(Kind::MessageBegin, buf@)->Ok_0.0;
                let other = item->MessageBegin_0;
                lemma_index_of(self.pending, other);
                let j = index_of(self.pending, other);
                if j >= 0 {
                    if j < i {
                        lemma_index_of_unique(after.pending, name, i - 1);
                    } else {
                        lemma_index_of_unique(after.pending, name, i);
                    }
                    let at = index_of(after.pending, name);
                    assert forall|k: int| 0 <= k < after.pending.len() implies ((
                    #[trigger] after.pending[k]).1 == to <==> k == at) by {
                        if k < j {
                            assert(after.pending[k] == self.pending[k]);
                        } else {
                            assert(after.pending[k] == self.pending[k + 1]);
                        }
                    }
                }
            },
            _ => {},
        }
    }

    /// A frame whose header names a method under which a call waits is
    /// handed to the channel of that call, with its header and what stands
    /// behind it, and to nobody else. The call then waits no longer.
    pub proof fn lemma_reply_is_delivered(self, token: Token, buf: Vec<u8>, name: Seq<char>, to: ReplyTo)
        requires
            self.wf(),
            self.role == Role::Client,
            self.awaits(name, to),
            binary_decode(Kind::MessageBegin, buf@) is Ok,
            binary_decode(Kind::MessageBegin, buf@)->Ok_0.0->MessageBegin_0 == name,
        ensures
            self.on_data(Dispatch::Data(token, buf)).1 == seq![
                EffectView::Deliver(
                    to,
                    name,
                    binary_decode(Kind::MessageBegin, buf@)->Ok_0.0->MessageBegin_1,
                    binary_decode(Kind::MessageBegin, buf@)->Ok_0.0->MessageBegin_2,
                    buf@.skip(binary_decode(Kind::MessageBegin, buf@)->Ok_0.1 as int),
                ),
            ],
            self.on_data(Dispatch::Data(token, buf)).0.wf(),
            self.on_data(Dispatch::Data(token, buf)).0.unknown(to),
            index_of(self.on_data(Dispatch::Data(token, buf)).0.pending, name) == -1,
    {
        let after = self.on_data(Dispatch::Data(token, buf)).0;
        let i = index_of(self.pending, name);
        self.lemma_step_keeps_wf(Input::Reactor(Dispatch::Data(token, buf)));
        lemma_index_of(self.pending, name);
        lemma_index_of(after.pending, name);
        assert forall|k: int| 0 <= k < after.pending.len() implies (#[trigger] after.pending[k]).1
            != to && after.pending[k].0 != name by {
            if k < i {
                assert(after.pending[k] == self.pending[k]);
            } else {
                assert(after.pending[k] == self.pending[k + 1]);
            }
        }
    }

    /// A call goes on waiting through every run of inputs that leave it
    /// alone, and its channel gets nothing meanwhile.
    pub proof fn lemma_call_waits_through(self, inputs: Seq<Input>, name: Seq<char>, to: ReplyTo)
        requires
            self.wf(),
            self.role == Role::Client,
            self.awaits(name, to),
            forall|k: int| 0 <= k < inputs.len() ==> leaves_alone(#[trigger] inputs[k], name, to),
        ensures
            self.run(inputs).0.wf(),
            self.run(inputs).0.role == Role::Client,
            self.run(inputs).0.awaits(name, to),
            forall|k: int|
                0 <= k < self.run(inputs).1.len() ==> !concerns(#[trigger] self.run(inputs).1[k], to),
        decreases inputs.len(),
    {
        if inputs.len() > 0 {
            let head = inputs.drop_last();
            assert forall|k: int| 0 <= k < head.len() implies leaves_alone(
                #[trigger] head[k],
                name,
                to,
            ) by {
                assert(head[k] == inputs[k]);
            }
            self.lemma_call_waits_through(head, name, to);
            self.run(head).0.lemma_call_waits(inputs.last(), name, to);
        }
    }

    /// Every call gets its reply, once: a client that is sent a call which
    /// awaits its reply on a channel of its own files it, keeps it through
    /// whatever leaves it alone, and hands the first frame that comes in
    /// under the name of the method to that channel. Up to then the channel
    /// has got nothing, and afterwards nothing is filed for it any more.
    pub proof fn lemma_call_gets_its_reply(
        self,
        method: String,
        call: Vec<u8>,
        to: ReplyTo,
        between: Seq<Input>,
        token: Token,
        reply: Vec<u8>,
    )
        requires
            self.wf(),
            self.role == Role::Client,
            self.status == Status::Running,
            self.unknown(to),
            forall|k: int|
                0 <= k < between.len() ==> leaves_alone(#[trigger] between[k], method@, to),
            binary_decode(Kind::MessageBegin, reply@) is Ok,
            binary_decode(Kind::MessageBegin, reply@)->Ok_0.0->MessageBegin_0 == method@,
        ensures
            ({
                let filed = self.on_user(Incoming::Call(method, call, Some(to)));
                let waited = filed.0.run(between);
                let answered = waited.0.on_data(Dispatch::Data(token, reply));
                let header = binary_decode(Kind::MessageBegin, reply@)->Ok_0;
                &&& forall|k: int| 0 <= k < filed.1.len() ==> !concerns(#[trigger] filed.1[k], to)
                &&& forall|k: int| 0 <= k < waited.1.len() ==> !concerns(#[trigger] waited.1[k], to)
                &&& answered.1 == seq![
                    EffectView::Deliver(
                        to,
                        method@,
                        header.0->MessageBegin_1,
                        header.0->MessageBegin_2,
                        reply@.skip(header.1 as int),
                    ),
                ]
                &&& answered.0.unknown(to)
            }),
    {
        let filed = self.on_user(Incoming::Call(method, call, Some(to)));
        self.lemma_call_is_filed(method, call, to);
        self.lemma_step_keeps_wf(Input::User(Incoming::Call(method, call, Some(to))));
        filed.0.lemma_call_waits_through(between, method@, to);
        filed.0.run(between).0.lemma_reply_is_delivered(token, reply, method@, to);
    }
}

/// The names and channels that a queue of pending calls holds.
pub open spec fn pending_of(queue: Seq<(String, ReplyTo)>) -> Pending {
    Seq::new(queue.len(), |i: int| (queue[i].0@, queue[i].1))
}

/// A middleman between the user of a client or a server and the reactor.
/// Each client and each server has a dispatcher of its own.
pub struct Dispatcher {
    role: Role,
    /// The token of the own listener or connection, by which the reactor
    /// knows where to send a call.
    token: Token,
    /// The reply channels of the calls that wait, each under the name of
    /// its method.
    queue: Vec<(String, ReplyTo)>,
    status: Status,
}

impl View for Dispatcher {
    type V = DispatcherView;

    closed spec fn view(&self) -> DispatcherView {
        DispatcherView {
            role: self.role,
            token: self.token,
            pending: pending_of(self.queue@),
            status: self.status,
        }
    }
}

impl Dispatcher {
    #[verifier::type_invariant]
    spec fn queue_wf(self) -> bool {
        self@.wf()
    }

    /// The dispatcher of an endpoint to which the reactor has given the
    /// token `id`.
    pub fn spawn(role: Role, id: Id) -> (d: Dispatcher)
        ensures
            d@ == DispatcherView::fresh(role, id.0),
            d@.wf(),
    {
        let d = Dispatcher { role: role, token: id.0, queue: Vec::new(), status: Status::Running };
        assert(d@.pending =~= Seq::empty());
        d
    }

    pub fn role(&self) -> (r: Role)
        ensures
            r == self@.role,
    {
        self.role
    }

    pub fn token(&self) -> (t: Token)
        ensures
            t == self@.token,
    {
        self.token
    }

    pub fn status(&self) -> (s: Status)
        ensures
            s == self@.status,
    {
        self.status
    }

    /// What the loop of the dispatcher ends with, once it has ended.
    pub fn result(&self) -> (r: Option<ThrustResult<()>>)
        ensures
            r == self@.result(),
    {
        match self.status {
            Status::Running => None,
            Status::Stopped => Some(Ok(())),
            Status::Failed(e) => Some(Err(ThrustError::from(e))),
        }
    }

    /// Takes the queue of pending calls out of the dispatcher, which holds
    /// none until the queue is put back.
    fn take_queue(&mut self) -> (queue: Vec<(String, ReplyTo)>)
        ensures
            queue@ == old(self).queue@,
            old(self)@.wf(),
            final(self).queue@ == Seq::<(String, ReplyTo)>::empty(),
            final(self).role == old(self).role,
            final(self).token == old(self).token,
            final(self).status == old(self).status,
    {
        proof {
            use_type_invariant(&*self);
        }
        let mut queue: Vec<(String, ReplyTo)> = Vec::new();
        proof {
            let expect = DispatcherView { pending: pending_of(queue@), ..self@ };
            assert(pending_of(queue@) =~= Seq::empty());
            assert(expect.wf());
        }
        std::mem::swap(&mut queue, &mut self.queue);
        queue
    }

    /// Where the call that waits under `name` stands in the queue.
    fn find(queue: &Vec<(String, ReplyTo)>, name: &str) -> (found: Option<usize>)
        requires
            distinct_names(pending_of(queue@)),
        ensures
            match found {
                Some(i) => i < queue@.len() && i == index_of(pending_of(queue@), name@),
                None => index_of(pending_of(queue@), name@) == -1,
            },
    {
        let mut i: usize = 0;
        while i < queue.len()
            invariant
                i <= queue@.len(),
                distinct_names(pending_of(queue@)),
                forall|j: int| 0 <= j < i ==> (#[trigger] pending_of(queue@)[j]).0 != name@,
            decreases queue@.len() - i,
        {
            if str_eq(queue[i].0.as_str(), name) {
                proof {
                    lemma_index_of_unique(pending_of(queue@), name@, i as int);
                }
                return Some(i);
            }
            i = i + 1;
        }
        proof {
            lemma_index_of(pending_of(queue@), name@);
        }
        None
    }

    /// Stops the dispatcher: every pending call is cancelled.
    fn halt(&mut self, status: Status, effects: &mut Vec<Effect>)
        requires
            status != Status::Running,
        ensures
            final(self)@ == old(self)@.halted(status),
            effect_views(final(effects)@) == effect_views(old(effects)@) + cancels(old(self)@.pending),
    {
        let queue = self.take_queue();
        self.status = status;
        let ghost before = effect_views(effects@);
        let mut i: usize = 0;
        while i < queue.len()
            invariant
                i <= queue@.len(),
                effect_views(effects@) == before + cancels(pending_of(queue@)).take(i as int),
            decreases queue@.len() - i,
        {
            let ghost so_far = effect_views(effects@);
            let ghost all = cancels(pending_of(queue@));
            effects.push(Effect::Cancel(queue[i].1));
            assert(effect_views(effects@) =~= so_far.push(all[i as int]));
            assert(all.take(i + 1) =~= all.take(i as int).push(all[i as int]));
            i = i + 1;
        }
        assert(cancels(pending_of(queue@)).take(i as int) =~= cancels(pending_of(queue@)));
        assert(self@.pending =~= Seq::empty());
    }

    /// Handles a message from the user.
    pub fn incoming(&mut self, msg: Incoming) -> (effects: Vec<Effect>)
        ensures
            final(self)@ == old(self)@.on_user(msg).0,
            effect_views(effects@) == old(self)@.on_user(msg).1,
            final(self)@.wf(),
    {
        let ghost before = self@;
        let ghost after = before.on_user(msg).0;
        proof {
            use_type_invariant(&*self);
            before.lemma_step_keeps_wf(Input::User(msg));
        }
        let mut effects: Vec<Effect> = Vec::new();
        assert(effect_views(effects@) =~= Seq::empty());
        match self.status {
            Status::Running => {},
            _ => {
                return effects;
            },
        }
        match msg {
            Incoming::Call(method, buf, reply) => {
                effects.push(Effect::Rpc(self.token, buf));
                match reply {
                    Some(to) => {
                        let mut queue = self.take_queue();
                        match Dispatcher::find(&queue, method.as_str()) {
                            Some(i) => {
                                effects.push(Effect::Cancel(queue[i].1));
                                queue[i] = (method, to);
                            },
                            None => {
                                queue.push((method, to));
                            },
                        }
                        assert(pending_of(queue@) =~= after.pending);
                        self.queue = queue;
                    },
                    None => {},
                }
                assert(effect_views(effects@) =~= before.on_user(msg).1);
            },
            Incoming::Reply(token, buf) => {
                effects.push(Effect::Rpc(token, buf));
                assert(effect_views(effects@) =~= before.on_user(msg).1);
            },
            Incoming::Shutdown => {
                self.halt(Status::Stopped, &mut effects);
                assert(effect_views(effects@) =~= before.on_user(msg).1);
            },
        }
        effects
    }

    /// Handles a frame from the reactor.
    pub fn data(&mut self, data: Dispatch) -> (effects: Vec<Effect>)
        ensures
            final(self)@ == old(self)@.on_data(data).0,
            effect_views(effects@) == old(self)@.on_data(data).1,
            final(self)@.wf(),
    {
        let ghost before = self@;
        let ghost after = before.on_data(data).0;
        proof {
            use_type_invariant(&*self);
            before.lemma_step_keeps_wf(Input::Reactor(data));
        }
        let mut effects: Vec<Effect> = Vec::new();
        assert(effect_views(effects@) =~= Seq::empty());
        match self.status {
            Status::Running => {},
            _ => {
                return effects;
            },
        }
        match data {
            Dispatch::Data(token, buf) => {
                match self.role {
                    Role::Server => {
                        effects.push(Effect::Forward(token, buf));
                        assert(effect_views(effects@) =~= before.on_data(data).1);
                    },
                    Role::Client => {
                        let mut de = BinaryDeserializer::new(buf);
                        match de.read_message_begin() {
                            Err(e) => {
                                effects.push(Effect::Close(token));
                                self.halt(Status::Failed(e), &mut effects);
                                assert(effect_views(effects@) =~= before.on_data(data).1);
                            },
                            Ok(msg) => {
                                let mut queue = self.take_queue();
                                match Dispatcher::find(&queue, msg.name.as_str()) {
                                    Some(i) => {
                                        let entry = queue.remove(i);
                                        effects.push(Effect::Deliver(entry.1, msg, de));
                                    },
                                    None => {},
                                }
                                assert(pending_of(queue@) =~= after.pending);
                                self.queue = queue;
                                assert(effect_views(effects@) =~= before.on_data(data).1);
                            },
                        }
                    },
                }
            },
        }
        effects
    }

    /// Handles the loss of a channel.
    pub fn disconnected(&mut self) -> (effects: Vec<Effect>)
        ensures
            final(self)@ == old(self)@.on_disconnected().0,
            effect_views(effects@) == old(self)@.on_disconnected().1,
            final(self)@.wf(),
    {
        let ghost before = self@;
        proof {
            use_type_invariant(&*self);
            before.lemma_step_keeps_wf(Input::Disconnected);
        }
        let mut effects: Vec<Effect> = Vec::new();
        assert(effect_views(effects@) =~= Seq::empty());
        match self.status {
            Status::Running => {
                self.halt(Status::Stopped, &mut effects);
            },
            _ => {},
        }
        effects
    }

    /// Handles anything that can arrive.
    pub fn handle(&mut self, input: Input) -> (effects: Vec<Effect>)
        ensures
            final(self)@ == old(self)@.step(input).0,
            effect_views(effects@) == old(self)@.step(input).1,
            final(self)@.wf(),
    {
        match input {
            Input::User(msg) => self.incoming(msg),
            Input::Reactor(data) => self.data(data),
            Input::Disconnected => self.disconnected(),
        }
    }

    /// Handles a batch of inputs in the order in which they arrived, and
    /// returns all that is to be done for them. Whatever arrives after the
    /// dispatcher has stopped is ignored.
    pub fn run(&mut self, inputs: Vec<Input>) -> (effects: Vec<Effect>)
        ensures
            final(self)@ == old(self)@.run(inputs@).0,
            effect_views(effects@) == old(self)@.run(inputs@).1,
            final(self)@.wf(),
    {
        let ghost start = self@;
        let ghost all = inputs@;
        let mut effects: Vec<Effect> = Vec::new();
        assert(effect_views(effects@) =~= Seq::empty());
        proof {
            use_type_invariant(&*self);
        }
        for input in it: inputs
            invariant
                it.seq() == all,
                self@ == start.run(all.take(it.index() as int)).0,
                effect_views(effects@) == start.run(all.take(it.index() as int)).1,
                self@.wf(),
        {
            let ghost i = it.index() as int;
            let ghost so_far = effect_views(effects@);
            let mut more = self.handle(input);
            let ghost added = effect_views(more@);
            effects.append(&mut more);
            proof {
                assert(all.take(i + 1).drop_last() =~= all.take(i));
                assert(all.take(i + 1).last() == all[i]);
                assert(effect_views(effects@) =~= so_far + added);
            }
        }
        assert(all.take(all.len() as int) =~= all);
        effects
    }
}

} // verus!
