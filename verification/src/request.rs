use rand::rngs::OsRng;
use rand::RngCore;
use vstd::prelude::*;

verus! {

/// A payload with an id by which it can be told from other payloads.
pub struct Request {
    pub id: u64,
    buf: Vec<u8>,
}

/// Calls `rand::RngCore::next_u64` on `rand::rngs::OsRng`. Nothing is
/// promised of the number that the system gives.
#[verifier::external_body]
fn random_id() -> u64 {
    OsRng.next_u64()
}

impl Request {
    /// The payload of the request.
    pub closed spec fn payload(&self) -> Seq<u8> {
        self.buf@
    }

    /// The id of the request.
    pub closed spec fn ident(&self) -> u64 {
        self.id
    }

    /// A request for `buf` with an id that the random number generator of
    /// the system gives.
    pub fn new(buf: Vec<u8>) -> (req: Request)
        ensures
            req.payload() == buf@,
    {
        Request::with_id(random_id(), buf)
    }

    /// A request for `buf` with the id `id`.
    pub fn with_id(id: u64, buf: Vec<u8>) -> (req: Request)
        ensures
            req.ident() == id,
            req.payload() == buf@,
    {
        Request { id: id, buf: buf }
    }

    /// The id of the request.
    pub fn id(&self) -> (id: u64)
        ensures
            id == self.ident(),
    {
        self.id
    }

    /// The payload of the request.
    pub fn buf(&self) -> (buf: &Vec<u8>)
        ensures
            buf@ == self.payload(),
    {
        &self.buf
    }
}

} // verus!
