//! Frames: a payload behind its length, a 32-bit big-endian word.
//!
//! `frames_in` and `residue` say what a byte stream holds: the payloads of
//! the whole frames at its head, and the bytes behind them that do not make
//! a whole frame yet. The reader and the write buffer below are specified by
//! them, and the laws in between show that cutting a stream into chunks
//! changes neither, and that what is written comes out as it went in.

use crate::wire::{
    be_u32, lemma_u32_layout_of_bytes, lemma_u32_round_trip, push_u32, u32_at, u32_of,
};
use bytes::Buf;
use vstd::prelude::*;

verus! {

/// The bytes of the frame that carries `payload`.
pub open spec fn frame_bytes(payload: Seq<u8>) -> Seq<u8>
    recommends
        payload.len() <= u32::MAX,
{
    be_u32(payload.len() as u32) + payload
}

/// The length that the first four bytes of `s` announce.
pub open spec fn announced(s: Seq<u8>) -> int
    recommends
        s.len() >= 4,
{
    u32_of(s) as int
}

/// Whether `s` starts with a whole frame.
pub open spec fn has_frame(s: Seq<u8>) -> bool {
    s.len() >= 4 && s.len() >= 4 + announced(s)
}

/// The payloads of the whole frames at the head of `s`, in order.
pub open spec fn frames_in(s: Seq<u8>) -> Seq<Seq<u8>>
    decreases s.len(),
{
    if has_frame(s) {
        seq![s.subrange(4, 4 + announced(s))] + frames_in(s.skip(4 + announced(s)))
    } else {
        Seq::empty()
    }
}

/// What is left of `s` behind its whole frames: the start of a frame that
/// is not complete, or nothing.
pub open spec fn residue(s: Seq<u8>) -> Seq<u8>
    decreases s.len(),
{
    if has_frame(s) {
        residue(s.skip(4 + announced(s)))
    } else {
        s
    }
}

/// The bytes of the frames that carry `payloads`, one after the other.
pub open spec fn stream_of(payloads: Seq<Seq<u8>>) -> Seq<u8>
    decreases payloads.len(),
{
    if payloads.len() == 0 {
        Seq::empty()
    } else {
        stream_of(payloads.drop_last()) + frame_bytes(payloads.last())
    }
}

/// The chunks of a stream put together again.
pub open spec fn joined(chunks: Seq<Seq<u8>>) -> Seq<u8>
    decreases chunks.len(),
{
    if chunks.len() == 0 {
        Seq::empty()
    } else {
        joined(chunks.drop_last()) + chunks.last()
    }
}

/// What a reader that holds `pending` gives when it is fed `chunks` one by
/// one: all the frames that came out, and what it holds in the end.
pub open spec fn fed(pending: Seq<u8>, chunks: Seq<Seq<u8>>) -> (Seq<Seq<u8>>, Seq<u8>)
    decreases chunks.len(),
{
    if chunks.len() == 0 {
        (Seq::empty(), pending)
    } else {
        let (frames, held) = fed(pending, chunks.drop_last());
        (frames + frames_in(held + chunks.last()), residue(held + chunks.last()))
    }
}

/// What is left behind the whole frames never starts with a whole frame.
pub proof fn lemma_residue_incomplete(s: Seq<u8>)
    ensures
        !has_frame(residue(s)),
        frames_in(residue(s)) == Seq::<Seq<u8>>::empty(),
        residue(residue(s)) == residue(s),
    decreases s.len(),
{
    if has_frame(s) {
        lemma_residue_incomplete(s.skip(4 + announced(s)));
    }
}

/// Bytes that arrive later do not change the frames that are already
/// whole: the frames of `a + b` are those of `a`, then those of what `a`
/// left behind together with `b`.
pub proof fn lemma_frames_append(a: Seq<u8>, b: Seq<u8>)
    ensures
        frames_in(a + b) == frames_in(a) + frames_in(residue(a) + b),
        residue(a + b) == residue(residue(a) + b),
    decreases a.len(),
{
    if has_frame(a) {
        let k = 4 + announced(a);
        assert(u32_of(a + b) == u32_of(a));
        assert(has_frame(a + b));
        assert((a + b).subrange(4, k as int) =~= a.subrange(4, k as int));
        assert((a + b).skip(k as int) =~= a.skip(k as int) + b);
        lemma_frames_append(a.skip(k as int), b);
        assert(frames_in(a + b) =~= frames_in(a) + frames_in(residue(a) + b));
    } else {
        assert(frames_in(a) + frames_in(a + b) =~= frames_in(a + b));
    }
}

/// A stream cut into chunks gives a reader the frames of the whole stream,
/// and leaves it with what the whole stream leaves behind. (A reader never
/// holds a whole frame: it has given it out.)
pub proof fn lemma_chunks_do_not_matter(pending: Seq<u8>, chunks: Seq<Seq<u8>>)
    requires
        !has_frame(pending),
    ensures
        fed(pending, chunks) == (
            frames_in(pending + joined(chunks)),
            residue(pending + joined(chunks)),
        ),
    decreases chunks.len(),
{
    if chunks.len() == 0 {
        assert(pending + joined(chunks) =~= pending);
    } else {
        let head = chunks.drop_last();
        let last = chunks.last();
        lemma_chunks_do_not_matter(pending, head);
        let so_far = pending + joined(head);
        lemma_frames_append(so_far, last);
        assert(so_far + last =~= pending + joined(chunks));
    }
}

/// One frame, delivered in any number of chunks of any sizes to a reader
/// that holds nothing, comes out as exactly that frame, and the reader
/// holds nothing afterwards.
pub proof fn lemma_one_frame_in_chunks(payload: Seq<u8>, chunks: Seq<Seq<u8>>)
    requires
        payload.len() <= u32::MAX,
        joined(chunks) == frame_bytes(payload),
    ensures
        fed(Seq::empty(), chunks) == (seq![payload], Seq::<u8>::empty()),
{
    let empty = Seq::<u8>::empty();
    lemma_chunks_do_not_matter(empty, chunks);
    lemma_frame_read_back(payload, empty);
    assert(empty + joined(chunks) =~= frame_bytes(payload) + empty);
    assert(seq![payload] + frames_in(empty) =~= seq![payload]);
}

/// A frame at the head of a stream is read back as its payload, and the
/// stream goes on behind it.
pub proof fn lemma_frame_read_back(payload: Seq<u8>, rest: Seq<u8>)
    requires
        payload.len() <= u32::MAX,
    ensures
        frames_in(frame_bytes(payload) + rest) == seq![payload] + frames_in(rest),
        residue(frame_bytes(payload) + rest) == residue(rest),
{
    let s = frame_bytes(payload) + rest;
    let n = payload.len() as u32;
    lemma_u32_round_trip(n, payload + rest);
    assert(s =~= be_u32(n) + (payload + rest));
    assert(announced(s) == payload.len());
    assert(s.subrange(4, 4 + announced(s)) =~= payload);
    assert(s.skip(4 + announced(s)) =~= rest);
}

/// The frames of any payloads, written one after the other, are read back
/// as those payloads in the same order, with nothing left over.
pub proof fn lemma_stream_read_back(payloads: Seq<Seq<u8>>)
    requires
        forall|i: int| 0 <= i < payloads.len() ==> (#[trigger] payloads[i]).len() <= u32::MAX,
    ensures
        frames_in(stream_of(payloads)) == payloads,
        residue(stream_of(payloads)) == Seq::<u8>::empty(),
    decreases payloads.len(),
{
    if payloads.len() > 0 {
        let head = payloads.drop_last();
        let last = payloads.last();
        lemma_stream_read_back(head);
        lemma_frames_append(stream_of(head), frame_bytes(last));
        lemma_frame_read_back(last, Seq::empty());
        assert(residue(stream_of(head)) + frame_bytes(last) =~= frame_bytes(last) + Seq::<u8>::empty());
        assert(frames_in(stream_of(payloads)) =~= payloads);
    }
}

/// The contents of a list of byte buffers.
pub open spec fn views(frames: Seq<Vec<u8>>) -> Seq<Seq<u8>> {
    Seq::new(frames.len(), |i: int| frames[i]@)
}

/// Where a reader stands between two deliveries.
#[derive(Debug)]
pub enum FrameState {
    /// In a length prefix: the buffer holds the bytes of it that have come.
    ReadingLength,
    /// Behind a prefix that announced this many bytes: the buffer holds
    /// those of them that have come.
    Reading(u32),
}

/// Cuts the bytes that come from a socket into frames. It takes the bytes
/// in chunks of any size and gives out each payload once its last byte has
/// come.
pub struct FramedTransport {
    buffer: Vec<u8>,
    state: FrameState,
}

/// Whether a buffer holds less than the reader waits for in its state.
spec fn fits(state: FrameState, buffer: Seq<u8>) -> bool {
    match state {
        FrameState::ReadingLength => buffer.len() < 4,
        FrameState::Reading(n) => buffer.len() < n,
    }
}

/// The bytes that have come since the last whole frame, for a reader in
/// this state with this buffer.
spec fn held(state: FrameState, buffer: Seq<u8>) -> Seq<u8> {
    match state {
        FrameState::ReadingLength => buffer,
        FrameState::Reading(n) => be_u32(n) + buffer,
    }
}

impl FramedTransport {
    #[verifier::type_invariant]
    spec fn wf(self) -> bool {
        fits(self.state, self.buffer@)
    }

    /// The bytes of the frame that is not complete yet: those that have
    /// come since the last whole frame.
    pub closed spec fn pending(&self) -> Seq<u8> {
        held(self.state, self.buffer@)
    }

    /// A reader that holds nothing.
    pub fn new() -> (t: FramedTransport)
        ensures
            t.pending() == Seq::<u8>::empty(),
    {
        FramedTransport { buffer: Vec::new(), state: FrameState::ReadingLength }
    }

    /// Drops the bytes of a frame that will never be completed.
    pub fn clear(&mut self)
        ensures
            final(self).pending() == Seq::<u8>::empty(),
    {
        *self = FramedTransport { buffer: Vec::new(), state: FrameState::ReadingLength };
    }

    /// Takes the next chunk of the stream. Returns the payloads of the
    /// frames that this chunk completes, in order; a frame of length 0 is a
    /// frame like any other. What is left is held for the next chunk.
    pub fn read(&mut self, data: &[u8]) -> (frames: Vec<Vec<u8>>)
        ensures
            views(frames@) == frames_in(old(self).pending() + data@),
            final(self).pending() == residue(old(self).pending() + data@),
            !has_frame(old(self).pending()),
    {
        let ghost total = self.pending() + data@;
        let mut frames: Vec<Vec<u8>> = Vec::new();
        let mut buffer: Vec<u8> = Vec::new();
        let mut state = FrameState::ReadingLength;
        proof {
            use_type_invariant(&*self);
            lemma_incomplete(self.state, self.buffer@);
        }
        std::mem::swap(&mut buffer, &mut self.buffer);
        std::mem::swap(&mut state, &mut self.state);
        let n: usize = data.len();
        let mut i: usize = 0;
        assert(data@.skip(0) =~= data@);
        assert(views(frames@) + frames_in(total) =~= frames_in(total));
        while i < n
            invariant
                i <= n,
                n == data@.len(),
                fits(state, buffer@),
                views(frames@) + frames_in(held(state, buffer@) + data@.skip(i as int))
                    == frames_in(total),
                residue(held(state, buffer@) + data@.skip(i as int)) == residue(total),
            decreases n - i,
        {
            let ghost had_held = held(state, buffer@);
            let ghost before = frames@;
            let ghost had = buffer@;
            let want: usize = match state {
                FrameState::ReadingLength => 4 - buffer.len(),
                FrameState::Reading(len) => len as usize - buffer.len(),
            };
            let take: usize = if n - i < want {
                n - i
            } else {
                want
            };
            buffer.extend_from_slice(&data[i..i + take]);
            let ghost rest = data@.skip(i + take);
            assert(buffer@ =~= had + data@.subrange(i as int, i + take));
            i = i + take;
            if take == want {
                match state {
                    FrameState::ReadingLength => {
                        let len: u32 = u32_at(buffer.as_slice(), 0);
                        proof {
                            assert(buffer@.skip(0) =~= buffer@);
                            lemma_u32_layout_of_bytes(buffer@);
                        }
                        if len == 0 {
                            frames.push(Vec::new());
                            buffer = Vec::new();
                            proof {
                                let s = had_held + data@.skip(i - take);
                                assert(s =~= be_u32(0) + rest);
                                assert(u32_of(s) == 0) by {
                                    lemma_u32_round_trip(0, rest);
                                }
                                assert(s.subrange(4, 4) =~= Seq::<u8>::empty());
                                assert(s.skip(4) =~= rest);
                                assert(buffer@ + rest =~= rest);
                                assert(views(frames@) =~= views(before) + seq![Seq::<u8>::empty()]);
                            }
                        } else {
                            state = FrameState::Reading(len);
                            buffer = Vec::new();
                            proof {
                                assert(had_held + data@.skip(i - take) =~= be_u32(len) + Seq::<u8>::empty()
                                    + rest);
                            }
                        }
                    },
                    FrameState::Reading(len) => {
                        let mut frame: Vec<u8> = Vec::new();
                        std::mem::swap(&mut frame, &mut buffer);
                        frames.push(frame);
                        state = FrameState::ReadingLength;
                        proof {
                            let s = had_held + data@.skip(i - take);
                            assert(s =~= be_u32(len) + (frame@ + rest));
                            lemma_u32_round_trip(len, frame@ + rest);
                            assert(s.subrange(4, 4 + len) =~= frame@);
                            assert(s.skip(4 + len) =~= rest);
                            assert(buffer@ + rest =~= rest);
                            assert(views(frames@) =~= views(before) + seq![frame@]);
                        }
                    },
                }
            } else {
                proof {
                    assert(rest =~= Seq::<u8>::empty());
                    assert(held(state, buffer@) + rest =~= had_held + data@.skip(i - take));
                }
            }
        }
        proof {
            let now = held(state, buffer@);
            assert(now + data@.skip(i as int) =~= now);
            lemma_incomplete(state, buffer@);
            assert(views(frames@) + frames_in(now) =~= views(frames@));
        }
        *self = FramedTransport { buffer: buffer, state: state };
        frames
    }
}

/// Calls `bytes::Buf::has_remaining` on a byte slice. Trusted: a slice has
/// bytes remaining exactly when it is not empty.
#[verifier::external_body]
fn has_remaining(buf: &[u8]) -> (b: bool)
    ensures
        b == (buf@.len() > 0),
{
    buf.has_remaining()
}

/// The bytes that wait to be written to a socket, with a cursor behind the
/// last byte that the socket took. A partial write moves the cursor; no byte
/// is handed to the socket twice.
pub struct WriteBuffer {
    data: Vec<u8>,
    pos: usize,
}

impl WriteBuffer {
    #[verifier::type_invariant]
    spec fn cursor_in_bounds(self) -> bool {
        self.pos <= self.data@.len()
    }

    /// The bytes that no socket has taken yet, in the order in which they
    /// were enqueued.
    pub closed spec fn unsent(&self) -> Seq<u8> {
        self.data@.skip(self.pos as int)
    }

    /// A buffer in which nothing waits.
    pub fn new() -> (b: WriteBuffer)
        ensures
            b.unsent() == Seq::<u8>::empty(),
    {
        let b = WriteBuffer { data: Vec::new(), pos: 0 };
        assert(b.data@.skip(0) =~= Seq::<u8>::empty());
        b
    }

    /// Enqueues `payload` as one frame: its length, then the payload, in
    /// one piece behind what is already waiting. A payload that is too long
    /// for a frame is refused, and nothing is enqueued.
    pub fn enqueue(&mut self, payload: &[u8]) -> (ok: bool)
        ensures
            ok == (payload@.len() <= u32::MAX),
            ok ==> final(self).unsent() == old(self).unsent() + frame_bytes(payload@),
            !ok ==> final(self).unsent() == old(self).unsent(),
    {
        let len: usize = payload.len();
        if len > u32::MAX as usize {
            return false;
        }
        let mut taken = WriteBuffer::new();
        std::mem::swap(self, &mut taken);
        proof {
            use_type_invariant(&taken);
        }
        let WriteBuffer { data, pos } = taken;
        let mut data = data;
        let ghost before = data@;
        push_u32(&mut data, len as u32);
        data.extend_from_slice(payload);
        assert(data@.skip(pos as int) =~= before.skip(pos as int) + frame_bytes(payload@));
        *self = WriteBuffer { data: data, pos: pos };
        true
    }

    /// The bytes that are to be handed to the socket next.
    pub fn chunk(&self) -> (out: &[u8])
        ensures
            out@ == self.unsent(),
    {
        proof {
            use_type_invariant(self);
        }
        let len: usize = self.data.len();
        let out = &self.data[self.pos..len];
        assert(out@ =~= self.data@.skip(self.pos as int));
        out
    }

    /// Whether anything waits to be written.
    pub fn has_remaining(&self) -> (b: bool)
        ensures
            b == (self.unsent().len() > 0),
    {
        has_remaining(self.chunk())
    }

    /// Moves the cursor behind the first `n` bytes that were waiting, which
    /// the socket has taken. No socket takes more than was waiting: a larger
    /// `n` is refused, and the cursor stays.
    pub fn advance(&mut self, n: usize) -> (ok: bool)
        ensures
            ok == (n <= old(self).unsent().len()),
            ok ==> final(self).unsent() == old(self).unsent().skip(n as int),
            !ok ==> final(self).unsent() == old(self).unsent(),
    {
        proof {
            use_type_invariant(&*self);
        }
        let left: usize = self.data.len() - self.pos;
        if n > left {
            return false;
        }
        let ghost unsent = self.unsent();
        if n == left {
            *self = WriteBuffer::new();
            assert(unsent.skip(n as int) =~= Seq::<u8>::empty());
        } else {
            self.pos = self.pos + n;
            assert(self.data@.skip(self.pos as int) =~= unsent.skip(n as int));
        }
        true
    }
}

/// What is done to a write buffer: a payload is enqueued, or the socket
/// takes some of the bytes that wait.
pub enum BufferOp {
    Enqueue(Seq<u8>),
    Advance(nat),
}

/// What a run of operations makes of a write buffer in which `unsent`
/// waits: the bytes that the socket took during the run, in the order in
/// which it took them, and the bytes that wait in the end. An operation that
/// the buffer refuses changes nothing.
pub open spec fn buffer_after(unsent: Seq<u8>, ops: Seq<BufferOp>) -> (Seq<u8>, Seq<u8>)
    decreases ops.len(),
{
    if ops.len() == 0 {
        (Seq::empty(), unsent)
    } else {
        let (taken, waiting) = buffer_after(unsent, ops.drop_last());
        match ops.last() {
            BufferOp::Enqueue(payload) => if payload.len() <= u32::MAX {
                (taken, waiting + frame_bytes(payload))
            } else {
                (taken, waiting)
            },
            BufferOp::Advance(n) => if n <= waiting.len() {
                (taken + waiting.take(n as int), waiting.skip(n as int))
            } else {
                (taken, waiting)
            },
        }
    }
}

/// The payloads that a run of operations enqueued, in order.
pub open spec fn enqueued(ops: Seq<BufferOp>) -> Seq<Seq<u8>>
    decreases ops.len(),
{
    if ops.len() == 0 {
        Seq::empty()
    } else {
        match ops.last() {
            BufferOp::Enqueue(payload) => if payload.len() <= u32::MAX {
                enqueued(ops.drop_last()).push(payload)
            } else {
                enqueued(ops.drop_last())
            },
            BufferOp::Advance(_) => enqueued(ops.drop_last()),
        }
    }
}

/// However writes and partial writes follow each other, what the socket
/// has taken and what still waits are together the frames of the payloads
/// that were enqueued, whole and in order.
pub proof fn lemma_socket_gets_the_frames(ops: Seq<BufferOp>)
    ensures
        buffer_after(Seq::empty(), ops).0 + buffer_after(Seq::empty(), ops).1 == stream_of(
            enqueued(ops),
        ),
        forall|i: int| 0 <= i < enqueued(ops).len() ==> (#[trigger] enqueued(ops)[i]).len() <= u32::MAX,
    decreases ops.len(),
{
    let empty = Seq::<u8>::empty();
    if ops.len() == 0 {
        assert(empty + empty =~= stream_of(enqueued(ops)));
    } else {
        let head = ops.drop_last();
        lemma_socket_gets_the_frames(head);
        let (taken, waiting) = buffer_after(empty, head);
        match ops.last() {
            BufferOp::Enqueue(payload) => {
                if payload.len() <= u32::MAX {
                    assert(enqueued(ops).drop_last() =~= enqueued(head));
                    assert(taken + (waiting + frame_bytes(payload)) =~= (taken + waiting)
                        + frame_bytes(payload));
                }
            },
            BufferOp::Advance(n) => {
                if n <= waiting.len() {
                    assert((taken + waiting.take(n as int)) + waiting.skip(n as int) =~= taken
                        + waiting);
                }
            },
        }
    }
}

/// Once the socket has taken everything, a peer that reads what it took
/// finds the payloads that were enqueued, in order, and nothing else.
pub proof fn lemma_peer_reads_what_was_written(ops: Seq<BufferOp>)
    requires
        buffer_after(Seq::empty(), ops).1 == Seq::<u8>::empty(),
    ensures
        frames_in(buffer_after(Seq::empty(), ops).0) == enqueued(ops),
        residue(buffer_after(Seq::empty(), ops).0) == Seq::<u8>::empty(),
{
    lemma_socket_gets_the_frames(ops);
    lemma_stream_read_back(enqueued(ops));
    let taken = buffer_after(Seq::empty(), ops).0;
    assert(taken + Seq::<u8>::empty() =~= taken);
}

/// What a reader holds between two deliveries does not start with a whole
/// frame.
proof fn lemma_incomplete(state: FrameState, buffer: Seq<u8>)
    requires
        fits(state, buffer),
    ensures
        !has_frame(held(state, buffer)),
{
    match state {
        FrameState::ReadingLength => {},
        FrameState::Reading(len) => {
            lemma_u32_round_trip(len, buffer);
        },
    }
}

} // verus!
