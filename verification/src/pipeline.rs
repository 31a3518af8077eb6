use crate::protocol::{
    lemma_moved_on_twice, moved_on, Deserializer, Error, Kind, ThriftDeserializer,
    ThriftMessageType,
};
use crate::runner::Runner;
use tangle::Future;
use vstd::prelude::*;

verus! {

/// Reads the header of an incoming message and hands the call to a runner.
pub struct MessagePipeline<D> {
    de: D,
}

impl<D> MessagePipeline<D> where D: Deserializer + ThriftDeserializer {
    /// The input that the pipeline has not read yet.
    pub closed spec fn remaining(&self) -> Seq<u8> {
        self.de.remaining()
    }

    /// Whether the message at the head of `input` can go through the
    /// pipeline to `runner`: if its header can be read, it announces a call,
    /// and one that the runner takes.
    pub open spec fn accepts<R: Runner>(input: Seq<u8>, runner: &R) -> bool {
        D::decode(Kind::MessageBegin, input) matches Ok((item, _)) ==> item->MessageBegin_1
            == ThriftMessageType::Call && runner.takes(
            item->MessageBegin_0,
            item->MessageBegin_1,
            item->MessageBegin_2,
        )
    }

    pub fn new(de: D) -> (p: MessagePipeline<D>)
        ensures
            p.remaining() == de.remaining(),
    {
        MessagePipeline { de: de }
    }

    /// Reads the header of the message and has the runner carry out the
    /// call. Where the header cannot be read, the runner is not asked, and
    /// the error of the header is returned. What comes back otherwise is up
    /// to the runner.
    pub fn run<R: Runner>(&mut self, runner: &mut R) -> (r: Result<Future<Vec<u8>>, Error>)
        requires
            Self::accepts(old(self).remaining(), old(runner)),
        ensures
            D::decode(Kind::MessageBegin, old(self).remaining()) matches Err(e) ==> r is Err
                && r->Err_0 == e && final(self).remaining() == old(self).remaining(),
            moved_on(old(self).remaining(), final(self).remaining()),
    {
        let ghost start = self.de.remaining();
        proof {
            crate::protocol::lemma_stayed(start);
        }
        let msg = self.de.read_message_begin()?;
        let ghost behind_header = self.de.remaining();
        match msg.ty {
            ThriftMessageType::Call => {
                let r = runner.run(&mut self.de, msg);
                proof {
                    lemma_moved_on_twice(start, behind_header, self.de.remaining());
                }
                r
            },
            _ => vstd::pervasive::unreached(),
        }
    }
}

} // verus!
