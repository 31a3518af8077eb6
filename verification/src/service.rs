//! A service with one method, `query`, that takes a boolean and returns
//! nothing: its arguments, its reply and the runner that carries it out.

use crate::binary_protocol::{binary_encode, BinarySerializer};
use crate::protocol::{
    advanced, encode_all, lemma_encode_one, lemma_encode_push, lemma_stayed, Deserialize,
    Deserializer, Error, Item, Kind, Serialize, Serializer, ThriftDeserializer, ThriftMessage,
    ThriftMessageType, ThriftSerializer, ThriftType,
};
use crate::runner::Runner;
use crate::text::str_eq;
use tangle::Future;
use vstd::prelude::*;

verus! {

/// The service as its implementor sees it.
pub trait Service {
    fn query(&mut self, val: bool) -> Future<()>;
}

/// Carries out the calls of a service.
pub struct ServiceRunner<S: Service> {
    service: S,
}

/// The arguments of `query`.
pub struct QueryArgs {
    pub val: bool,
}

impl Deserialize for QueryArgs {
    /// Reads the arguments: one boolean.
    fn deserialize<D>(de: &mut D) -> (r: Result<Self, Error>) where
        D: Deserializer + ThriftDeserializer,

        ensures
            match D::decode(Kind::Bool, old(de).remaining()) {
                Ok((item, n)) => r is Ok && r->Ok_0.val == item->Bool_0 && advanced(
                    old(de).remaining(),
                    final(de).remaining(),
                    n,
                ),
                Err(e) => r is Err && r->Err_0 == e && final(de).remaining() == old(de).remaining(),
            },
    {
        proof {
            lemma_stayed(de.remaining());
        }
        Ok(QueryArgs { val: de.deserialize_bool()? })
    }
}

impl Serialize for QueryArgs {
    open spec fn items(&self) -> Seq<Item> {
        seq![
            Item::StructBegin("query_args"@),
            Item::FieldBegin(Some("val"@), ThriftType::Bool, 1),
            Item::Bool(self.val),
            Item::FieldStop,
            Item::FieldEnd,
            Item::StructEnd,
        ]
    }

    fn serialize<S>(&self, s: &mut S) -> (r: Result<(), Error>) where
        S: Serializer + ThriftSerializer,
     {
        let ghost start = s.written();
        let ghost items = self.items();
        s.write_struct_begin("query_args")?;
        s.write_field_begin("val", ThriftType::Bool, 1)?;
        assert(s.written() == start + encode_all::<S>(items.take(2))) by {
            lemma_encode_one::<S>(items[0]);
            lemma_encode_push::<S>(seq![items[0]], items[1]);
            assert(items.take(2) =~= seq![items[0]].push(items[1]));
        }
        s.serialize_bool(self.val)?;
        assert(s.written() == start + encode_all::<S>(items.take(3))) by {
            lemma_encode_push::<S>(items.take(2), items[2]);
            assert(items.take(3) =~= items.take(2).push(items[2]));
        }
        s.write_field_stop()?;
        assert(s.written() == start + encode_all::<S>(items.take(4))) by {
            lemma_encode_push::<S>(items.take(3), items[3]);
            assert(items.take(4) =~= items.take(3).push(items[3]));
        }
        s.write_field_end()?;
        assert(s.written() == start + encode_all::<S>(items.take(5))) by {
            lemma_encode_push::<S>(items.take(4), items[4]);
            assert(items.take(5) =~= items.take(4).push(items[4]));
        }
        s.write_struct_end()?;
        assert(s.written() == start + encode_all::<S>(items)) by {
            lemma_encode_push::<S>(items.take(5), items[5]);
            assert(items =~= items.take(5).push(items[5]));
        }
        Ok(())
    }
}

/// The bytes of a call of `query` with the argument `val` in the binary
/// encoding: the header of the message and the arguments as a struct.
pub open spec fn query_call_bytes(val: bool) -> Seq<u8> {
    binary_encode(Item::MessageBegin("query"@, ThriftMessageType::Call, 0)) + binary_encode(
        Item::FieldBegin(Some("val"@), ThriftType::Bool, 1),
    ) + binary_encode(Item::Bool(val)) + binary_encode(Item::FieldStop)
}

/// The encoded call of `query` with the argument `val`.
pub fn query_call(val: bool) -> (v: Vec<u8>)
    ensures
        v@ == query_call_bytes(val),
{
    let mut v: Vec<u8> = Vec::new();
    {
        let mut s = BinarySerializer::new(&mut v);
        let _ = s.write_message_begin("query", ThriftMessageType::Call);
        let _ = s.write_struct_begin("query_args");
        let _ = s.write_field_begin("val", ThriftType::Bool, 1);
        let _ = s.serialize_bool(val);
        let _ = s.write_field_stop();
        let _ = s.write_field_end();
        let _ = s.write_struct_end();
        let _ = s.write_message_end();
    }
    assert(v@ =~= query_call_bytes(val));
    v
}

/// The logical stream of the reply to `query`: a message of type `Reply`
/// that holds a struct with one field of type `Void`.
pub open spec fn query_reply_items() -> Seq<Item> {
    seq![
        Item::MessageBegin("query"@, ThriftMessageType::Reply, 0),
        Item::StructBegin("query_ret"@),
        Item::FieldBegin(Some("ret"@), ThriftType::Void, 1),
        Item::FieldStop,
        Item::FieldEnd,
        Item::StructEnd,
        Item::MessageEnd,
    ]
}

/// The bytes of the reply to `query` in the binary encoding.
pub open spec fn query_reply_bytes() -> Seq<u8> {
    binary_encode(Item::MessageBegin("query"@, ThriftMessageType::Reply, 0)) + binary_encode(
        Item::FieldBegin(Some("ret"@), ThriftType::Void, 1),
    ) + binary_encode(Item::FieldStop)
}

/// The encoded reply to `query`.
pub fn query_reply() -> (v: Vec<u8>)
    ensures
        v@ == query_reply_bytes(),
{
    let mut v: Vec<u8> = Vec::new();
    {
        let mut s = BinarySerializer::new(&mut v);
        let _ = s.write_message_begin("query", ThriftMessageType::Reply);
        let _ = s.write_struct_begin("query_ret");
        let _ = s.write_field_begin("ret", ThriftType::Void, 1);
        let _ = s.write_field_stop();
        let _ = s.write_field_end();
        let _ = s.write_struct_end();
        let _ = s.write_message_end();
    }
    assert(v@ =~= query_reply_bytes());
    v
}

/// Calls `tangle::Future::map` with a function that gives the encoded reply
/// to `query` whatever the future resolves to. Nothing is promised of the
/// future that comes back.
#[verifier::external_body]
fn reply_when_done(done: Future<()>) -> Future<Vec<u8>> {
    done.map(|_| query_reply())
}

impl<S: Service> ServiceRunner<S> {
    /// The service that the runner asks.
    pub closed spec fn service(&self) -> S {
        self.service
    }

    pub fn new(service: S) -> (runner: ServiceRunner<S>)
        ensures
            runner.service() == service,
    {
        ServiceRunner { service: service }
    }
}

impl<S: Service> Runner for ServiceRunner<S> {
    /// The only method that this runner knows is `query`.
    open spec fn takes(&self, name: Seq<char>, ty: ThriftMessageType, seq: i16) -> bool {
        name == "query"@
    }

    /// Carries out a call of `query`: reads the arguments, asks the service,
    /// and answers with the encoded reply once the service is done. Arguments
    /// that cannot be read are an error, and the service is not asked.
    fn run<D>(&mut self, de: &mut D, msg: ThriftMessage) -> (r: Result<Future<Vec<u8>>, Error>) where
        D: Deserializer + ThriftDeserializer,

        ensures
            D::decode(Kind::Bool, old(de).remaining()) matches Err(e) ==> r is Err && r->Err_0 == e,
            D::decode(Kind::Bool, old(de).remaining()) is Ok ==> r is Ok,
    {
        proof {
            lemma_stayed(de.remaining());
        }
        if str_eq(msg.name.as_str(), "query") {
            let args = QueryArgs::deserialize(de)?;
            Ok(reply_when_done(self.service.query(args.val)))
        } else {
            vstd::pervasive::unreached()
        }
    }
}

} // verus!
