use thrust::dispatcher::Incoming;
use thrust::pipeline::MessagePipeline;
use thrust::binary_protocol::BinaryDeserializer;
use thrust::binary_protocol::BinarySerializer;
use thrust::protocol::{Deserialize, Error, Serialize, ThriftMessageType, ThriftSerializer};
use thrust::reactor::{Dispatch, Token};
use thrust::request::Request;
use thrust::result::ThrustError;
use thrust::schema::Ty;
use thrust::server::Server;
use thrust::service::{query_reply, QueryArgs, Service, ServiceRunner};
use thrust::spawner::Spawner;
use thrust::text::{str_eq, text_of};
use thrust::util::create_empty_thrift_message;
use thrust::wire;

#[test]
fn spawn() {
    let spawner = Spawner::new(Some(2));
    assert_eq!(spawner.reactors, 2);
}

#[test]
fn spawner_counts_the_processors_when_not_told() {
    assert!(Spawner::new(None).reactors >= 1);
    assert_eq!(Spawner::new(Some(0)).reactors, 0);
    assert_eq!(Spawner::sized(None, 8).reactors, 8);
    assert_eq!(Spawner::sized(Some(3), 8).reactors, 3);
}

#[test]
fn empty_message_is_a_header() {
    assert_eq!(
        create_empty_thrift_message("ping", ThriftMessageType::Call),
        vec![0x80, 0x01, 0x00, 0x01, 0x00, 0x00, 0x00, 0x04, b'p', b'i', b'n', b'g', 0x00, 0x00]
    );
    assert_eq!(
        create_empty_thrift_message("", ThriftMessageType::Oneway),
        vec![0x80, 0x01, 0x00, 0x04, 0, 0, 0, 0, 0, 0]
    );
}

#[test]
fn requests_keep_their_payload() {
    let a = Request::new(vec![1, 2, 3]);
    assert_eq!(a.buf(), &vec![1, 2, 3]);
    assert_eq!(a.id(), a.id);
    let b = Request::with_id(77, vec![4]);
    assert_eq!(b.id, 77);
    assert_eq!(b.buf(), &vec![4]);
    let ids: Vec<u64> = (0..8).map(|_| Request::new(vec![]).id).collect();
    assert!(ids.iter().any(|id| *id != ids[0]));
}

#[test]
fn codec_errors_are_other_to_the_runtime() {
    assert_eq!(ThrustError::from(Error::BadVersion), ThrustError::Other);
    assert_eq!(ThrustError::from(Error::Byteorder), ThrustError::Other);
    assert_eq!(ThrustError::from(Error::UnknownType(3)), ThrustError::Other);
}

#[test]
fn wire_helpers() {
    let mut v = vec![9u8];
    wire::push_i16(&mut v, -2);
    wire::push_i32(&mut v, 1);
    wire::push_i64(&mut v, -1);
    wire::push_u32(&mut v, 0xfffefdfc);
    assert_eq!(
        v,
        vec![
            9, 0xff, 0xfe, 0, 0, 0, 1, 0xff, 0xff, 0xff, 0xff, 0xff, 0xff, 0xff, 0xff, 0xff, 0xfe,
            0xfd, 0xfc
        ]
    );
    assert_eq!(wire::i16_at(&v, 1), -2);
    assert_eq!(wire::i32_at(&v, 3), 1);
    assert_eq!(wire::i64_at(&v, 7), -1);
    assert_eq!(wire::u32_at(&v, 15), 0xfffefdfc);
    assert_eq!(wire::i16_at(&v, 0), 0x09ff);
}

#[test]
fn text_helpers() {
    assert!(str_eq("abc", "abc"));
    assert!(!str_eq("abc", "abd"));
    assert!(!str_eq("abc", "ab"));
    assert!(str_eq("", ""));
    assert_eq!(text_of(vec![b'h', b'i']), Some("hi".to_string()));
    assert_eq!(text_of(vec![0xff]), None);
    assert_eq!(text_of(vec![]), Some(String::new()));
}

#[test]
fn schema_types_name_their_rust_types() {
    assert_eq!(Ty::String.to_string(), "String");
    assert_eq!(Ty::Void.to_string(), "()");
    assert_eq!(Ty::Byte.to_string(), "i8");
    assert_eq!(Ty::Bool.to_string(), "bool");
    assert_eq!(Ty::Binary.to_string(), "Vec<i8>");
    assert_eq!(Ty::I16.to_string(), "i16");
    assert_eq!(Ty::I32.to_string(), "i32");
    assert_eq!(Ty::I64.to_string(), "i64");
    assert_eq!(Ty::Double.to_string(), "double");
    assert_eq!(Ty::Ident("Ping".to_string()).to_string(), "Ping");
    assert_eq!(Ty::Option(Box::new(Ty::I32)).to_string(), "Option<i32>");
    assert_eq!(Ty::List(Box::new(Ty::String)).to_string(), "Vec<String>");
    assert_eq!(Ty::TSet(Box::new(Ty::Byte)).to_string(), "HashSet<i8>");
    assert_eq!(
        Ty::TMap(
            Box::new(Ty::I32),
            Box::new(Ty::List(Box::new(Ty::String)))
        )
        .to_string(),
        "HashMap<i32, Vec<String>>"
    );
}

#[test]
fn schema_types_name_their_wire_types() {
    assert_eq!(Ty::String.to_protocol(), "ThriftType::String");
    assert_eq!(Ty::Void.to_protocol(), "ThriftType::Void");
    assert_eq!(Ty::Bool.to_protocol(), "ThriftType::Bool");
    assert_eq!(Ty::Byte.to_protocol(), "ThriftType::Byte");
    assert_eq!(Ty::Double.to_protocol(), "ThriftType::Double");
    assert_eq!(Ty::I16.to_protocol(), "ThriftType::I16");
    assert_eq!(Ty::I32.to_protocol(), "ThriftType::I32");
    assert_eq!(Ty::I64.to_protocol(), "ThriftType::I64");
    assert_eq!(Ty::Binary.to_protocol(), "ThriftType::List");
    assert_eq!(Ty::List(Box::new(Ty::Bool)).to_protocol(), "ThriftType::List");
    assert_eq!(Ty::TSet(Box::new(Ty::Bool)).to_protocol(), "ThriftType::Set");
    assert_eq!(
        Ty::TMap(Box::new(Ty::Bool), Box::new(Ty::Bool)).to_protocol(),
        "ThriftType::Map"
    );
}

#[test]
fn schema_types_from_names() {
    assert_eq!(Ty::from("string".to_string()), Ty::String);
    assert_eq!(Ty::from("void".to_string()), Ty::Void);
    assert_eq!(Ty::from("byte".to_string()), Ty::Byte);
    assert_eq!(Ty::from("bool".to_string()), Ty::Bool);
    assert_eq!(Ty::from("binary".to_string()), Ty::Binary);
    assert_eq!(Ty::from("i16".to_string()), Ty::I16);
    assert_eq!(Ty::from("i32".to_string()), Ty::I32);
    assert_eq!(Ty::from("i64".to_string()), Ty::I64);
    assert_eq!(Ty::from("double".to_string()), Ty::Double);
    assert_eq!(Ty::from("Ping".to_string()), Ty::Ident("Ping".to_string()));
}

#[test]
fn query_arguments_and_reply() {
    let mut v = Vec::new();
    {
        let mut s = BinarySerializer::new(&mut v);
        QueryArgs { val: true }.serialize(&mut s).unwrap();
    }
    assert_eq!(v, vec![2, 0, 1, 1, 0]);
    let mut de = BinaryDeserializer::new(vec![1]);
    assert_eq!(QueryArgs::deserialize(&mut de).unwrap().val, true);
    let mut de = BinaryDeserializer::new(vec![]);
    assert!(QueryArgs::deserialize(&mut de).is_err());
    assert_eq!(
        query_reply(),
        vec![0x80, 0x01, 0, 2, 0, 0, 0, 5, b'q', b'u', b'e', b'r', b'y', 0, 0, 1, 0, 1, 0]
    );
}

struct Echo {
    asked: Vec<bool>,
}

impl Service for Echo {
    fn query(&mut self, val: bool) -> tangle::Future<()> {
        self.asked.push(val);
        tangle::Future::unit(())
    }
}

fn query_call(val: bool) -> Vec<u8> {
    let mut buf = create_empty_thrift_message("query", ThriftMessageType::Call);
    buf.push(if val { 1 } else { 0 });
    buf
}

#[test]
fn a_server_runs_a_call_and_owes_the_reply_to_its_peer() {
    let mut server = Server::new(ServiceRunner::new(Echo { asked: vec![] }));
    let (token, reply) = server
        .call(Dispatch::Data(Token(3), query_call(true)))
        .unwrap();
    assert_eq!(token, Token(3));
    let bytes = reply.recv().unwrap();
    assert_eq!(bytes, query_reply());
    assert_eq!(
        Server::<ServiceRunner<Echo>>::reply(token, bytes.clone()),
        Incoming::Reply(Token(3), bytes)
    );
}

#[test]
fn a_server_reports_a_frame_that_it_cannot_read() {
    let mut server = Server::new(ServiceRunner::new(Echo { asked: vec![] }));
    assert_eq!(
        server.call(Dispatch::Data(Token(3), vec![0, 0, 0, 1])).err(),
        Some(Error::ProtocolVersionMissing)
    );
    let no_argument = create_empty_thrift_message("query", ThriftMessageType::Call);
    assert_eq!(
        server.call(Dispatch::Data(Token(3), no_argument)).err(),
        Some(Error::Byteorder)
    );
}

#[test]
fn a_pipeline_hands_a_call_to_the_runner() {
    let mut runner = ServiceRunner::new(Echo { asked: vec![] });
    let mut pipeline = MessagePipeline::new(BinaryDeserializer::new(query_call(false)));
    let reply = pipeline.run(&mut runner).unwrap();
    assert_eq!(reply.recv().unwrap(), query_reply());
    let mut pipeline = MessagePipeline::new(BinaryDeserializer::new(vec![0x80, 0x02, 0, 1]));
    assert_eq!(pipeline.run(&mut runner).err(), Some(Error::BadVersion));
}

struct TestRunner;

impl thrust::Runner for TestRunner {
    fn takes(&self, _: vstd::seq::Seq<char>, _: ThriftMessageType, _: i16) -> bool {
        true
    }

    fn run<D>(
        &mut self,
        _de: &mut D,
        _msg: thrust::protocol::ThriftMessage,
    ) -> Result<tangle::Future<Vec<u8>>, Error>
    where
        D: thrust::protocol::Deserializer + thrust::ThriftDeserializer,
    {
        let mut buf = Vec::new();

        {
            let mut se = BinarySerializer::new(&mut buf);
            thrust::ThriftSerializer::write_message_begin(&mut se, "foobar123", ThriftMessageType::Reply)
                .unwrap();
            thrust::ThriftSerializer::write_message_end(&mut se).unwrap();
        }

        Ok(tangle::Future::unit(buf))
    }
}

#[test]
fn init() {
    let mut server = Server::new(TestRunner);

    let mut buf = Vec::new();

    {
        let mut se = BinarySerializer::new(&mut buf);
        thrust::ThriftSerializer::write_message_begin(&mut se, "foobar123", ThriftMessageType::Call)
            .unwrap();
        thrust::ThriftSerializer::write_message_end(&mut se).unwrap();
    }

    let (token, reply) = server.call(Dispatch::Data(Token(1), buf)).unwrap();
    assert_eq!(token, Token(1));
    let buf = reply.recv().unwrap();

    let mut de = BinaryDeserializer::new(buf);
    let thrift_msg = thrust::ThriftDeserializer::read_message_begin(&mut de).unwrap();

    assert_eq!(thrift_msg.name, "foobar123");
    assert_eq!(thrift_msg.ty, ThriftMessageType::Reply);
}

#[test]
fn a_call_of_query_carries_its_argument_as_a_struct() {
    assert_eq!(
        thrust::service::query_call(true),
        vec![0x80, 0x01, 0, 1, 0, 0, 0, 5, b'q', b'u', b'e', b'r', b'y', 0, 0, 2, 0, 1, 1, 0]
    );
    assert_eq!(
        thrust::service::query_call(false),
        vec![0x80, 0x01, 0, 1, 0, 0, 0, 5, b'q', b'u', b'e', b'r', b'y', 0, 0, 2, 0, 1, 0, 0]
    );
}

#[test]
fn a_call_of_query_is_what_its_arguments_serialize_to() {
    let mut buf = Vec::new();
    {
        let mut proto = BinarySerializer::new(&mut buf);
        proto.write_message_begin("query", ThriftMessageType::Call).unwrap();
        QueryArgs { val: true }.serialize(&mut proto).unwrap();
        proto.write_message_end().unwrap();
    }
    assert_eq!(buf, thrust::service::query_call(true));
}

#[test]
fn call_query() {
    struct S;

    impl Service for S {
        fn query(&mut self, val: bool) -> tangle::Future<()> {
            assert_eq!(val, true);
            tangle::Future::unit(())
        }
    }

    let run = ServiceRunner::new(S);
    let mut server = Server::new(run);

    // The call travels in memory: what the client would write is handed to
    // the server as the frame that came in on a connection.
    let frame = thrust::service::query_call(true);
    let (token, reply) = server.call(Dispatch::Data(Token(1), frame)).unwrap();
    assert_eq!(token, Token(1));
    assert_eq!(reply.recv().unwrap(), query_reply());
}
