use crate::binary_protocol::{binary_encode, BinarySerializer};
use crate::protocol::{Item, ThriftMessageType, ThriftSerializer};
use vstd::prelude::*;

verus! {

/// The bytes of a message that has a header and nothing else: the header
/// of a message named `method` of type `ty`, with the sequence id 0.
pub fn create_empty_thrift_message(method: &str, ty: ThriftMessageType) -> (buf: Vec<u8>)
    ensures
        buf@ == binary_encode(Item::MessageBegin(method@, ty, 0)),
{
    let mut buf: Vec<u8> = Vec::new();
    {
        let mut se = BinarySerializer::new(&mut buf);
        let _ = se.write_message_begin(method, ty);
        let _ = se.write_message_end();
    }
    assert(buf@ =~= binary_encode(Item::MessageBegin(method@, ty, 0)));
    buf
}

} // verus!
