use crate::binary_protocol::{binary_decode, BinaryDeserializer};
use crate::dispatcher::Incoming;
use crate::protocol::{Error, Kind, ThriftDeserializer};
use crate::reactor::{Dispatch, Token};
use crate::runner::Runner;
use tangle::Future;
use vstd::prelude::*;

verus! {

/// Takes the calls that a server dispatcher forwards, has a runner carry
/// them out, and says how each reply goes back.
pub struct Server<R: Runner> {
    runner: R,
}

impl<R: Runner> Server<R> {
    /// The runner of the server.
    pub closed spec fn runner(&self) -> R {
        self.runner
    }

    pub fn new(runner: R) -> (server: Server<R>)
        ensures
            server.runner() == runner,
    {
        Server { runner: runner }
    }

    /// Whether the server can hand the frame `buf` to its runner: if the
    /// header of the frame can be read, the runner takes what it announces.
    pub open spec fn accepts(&self, buf: Seq<u8>) -> bool {
        binary_decode(Kind::MessageBegin, buf) matches Ok((item, _)) ==> self.runner().takes(
            item->MessageBegin_0,
            item->MessageBegin_1,
            item->MessageBegin_2,
        )
    }

    /// Takes a frame from the dispatcher: reads its header and has the
    /// runner carry out the call. Returns the token of the connection that
    /// the frame came in on, to which the reply is owed, and the future of
    /// the encoded reply. Where the header cannot be read, the runner is not
    /// asked, and the error of the header is returned.
    pub fn call(&mut self, data: Dispatch) -> (r: Result<(Token, Future<Vec<u8>>), Error>)
        requires
            data matches Dispatch::Data(_, buf) && old(self).accepts(buf@),
        ensures
            data matches Dispatch::Data(token, buf) && (match binary_decode(
                Kind::MessageBegin,
                buf@,
            ) {
                Err(e) => r is Err && r->Err_0 == e,
                Ok(_) => r matches Ok(pair) ==> pair.0 == token,
            }),
    {
        match data {
            Dispatch::Data(token, buf) => {
                let mut de = BinaryDeserializer::new(buf);
                let msg = de.read_message_begin()?;
                let reply = self.runner.run(&mut de, msg)?;
                Ok((token, reply))
            },
        }
    }

    /// What the server sends to its dispatcher once the future of a reply
    /// has resolved to `bytes`: the reply, for the connection that the call
    /// came in on.
    pub fn reply(token: Token, bytes: Vec<u8>) -> (msg: Incoming)
        ensures
            msg matches Incoming::Reply(t, buf) && t == token && buf@ == bytes@,
    {
        Incoming::Reply(token, bytes)
    }
}

} // verus!
