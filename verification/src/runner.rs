use crate::protocol::{
    moved_on, Deserializer, Error, ThriftDeserializer, ThriftMessage, ThriftMessageType,
};
use tangle::Future;
use vstd::prelude::*;

verus! {

/// Makes `tangle::Future` known as a type. Nothing is stated of what a
/// future holds or of when it resolves.
#[verifier::external_type_specification]
#[verifier::external_body]
#[verifier::reject_recursive_types(T)]
#[verifier::reject_recursive_types(E)]
pub struct ExFuture<T, E>(Future<T, E>);

/// What a server supplies to have its calls carried out.
///
/// A runner is handed the header of a call and a deserializer that stands
/// just behind that header, from which it reads the arguments. It returns a
/// future of the encoded reply, header and body; a failure of the call is a
/// reply of type `Exception`.
pub trait Runner {
    /// Whether the runner takes the call that a header with this name,
    /// type and sequence id announces. It is handed no other.
    spec fn takes(&self, name: Seq<char>, ty: ThriftMessageType, seq: i16) -> bool;

    fn run<D>(&mut self, de: &mut D, msg: ThriftMessage) -> (r: Result<Future<Vec<u8>>, Error>) where
        D: Deserializer + ThriftDeserializer,

        requires
            old(self).takes(msg.name@, msg.ty, msg.seq),
        ensures
            moved_on(old(de).remaining(), final(de).remaining()),
    ;
}

} // verus!
