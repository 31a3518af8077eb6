use thrust::binary_protocol::BinarySerializer;
use thrust::dispatcher::{Dispatcher, Effect, Incoming, Input, ReplyTo, Role, Status};
use thrust::protocol::{Deserializer, Error, Serializer, ThriftMessageType, ThriftSerializer};
use thrust::reactor::{Action, Dispatch, Id, Message, Reactor, Token};
use thrust::result::ThrustError;
use thrust::util;

fn client() -> Dispatcher {
    Dispatcher::spawn(Role::Client, Id(Token(1)))
}

fn reply_named(name: &str, body: &[u8]) -> Vec<u8> {
    let mut buf = util::create_empty_thrift_message(name, ThriftMessageType::Reply);
    buf.extend_from_slice(body);
    buf
}

/// What an effect is, with the decoder of a delivery read to its end.
fn show(effect: Effect) -> String {
    match effect {
        Effect::Rpc(t, buf) => format!("rpc {} {:?}", t.0, buf),
        Effect::Close(t) => format!("close {}", t.0),
        Effect::Forward(t, buf) => format!("forward {} {:?}", t.0, buf),
        Effect::Cancel(to) => format!("cancel {}", to.0),
        Effect::Deliver(to, msg, mut de) => {
            let mut rest = Vec::new();
            while let Ok(b) = de.deserialize_u8() {
                rest.push(b);
            }
            format!("deliver {} {} {:?} {} {:?}", to.0, msg.name, msg.ty, msg.seq, rest)
        }
    }
}

fn shown(effects: Vec<Effect>) -> Vec<String> {
    effects.into_iter().map(show).collect()
}

#[test]
fn should_create_server_dispatcher() {
    let d = Dispatcher::spawn(Role::Server, Id(Token(0)));
    assert_eq!(d.role(), Role::Server);
    assert_eq!(d.token(), Token(0));
    assert_eq!(d.status(), Status::Running);
    assert_eq!(d.result(), None);
}

#[test]
fn a_role_asks_for_its_socket() {
    assert_eq!(Role::Server.request(), Message::Bind);
    assert_eq!(Role::Client.request(), Message::Connect);
}

#[test]
fn a_call_goes_to_the_reactor() {
    let mut d = client();
    assert_eq!(
        shown(d.incoming(Incoming::Call("ping".to_string(), vec![1, 2], None))),
        vec!["rpc 1 [1, 2]"]
    );
    assert_eq!(
        shown(d.incoming(Incoming::Call("ping".to_string(), vec![3], Some(ReplyTo(7))))),
        vec!["rpc 1 [3]"]
    );
    assert_eq!(
        shown(d.incoming(Incoming::Reply(Token(5), vec![4]))),
        vec!["rpc 5 [4]"]
    );
}

#[test]
fn a_reply_reaches_the_caller_once() {
    let mut d = client();
    d.incoming(Incoming::Call("foobar123".to_string(), vec![], Some(ReplyTo(7))));
    assert_eq!(
        shown(d.data(Dispatch::Data(Token(1), reply_named("foobar123", &[9, 8])))),
        vec!["deliver 7 foobar123 Reply 0 [9, 8]"]
    );
    assert_eq!(
        shown(d.data(Dispatch::Data(Token(1), reply_named("foobar123", &[9, 8])))),
        Vec::<String>::new()
    );
    assert_eq!(d.status(), Status::Running);
}

#[test]
fn replies_may_come_in_any_order() {
    let mut d = client();
    d.incoming(Incoming::Call("A".to_string(), vec![], Some(ReplyTo(1))));
    d.incoming(Incoming::Call("B".to_string(), vec![], Some(ReplyTo(2))));
    d.incoming(Incoming::Call("C".to_string(), vec![], Some(ReplyTo(3))));
    assert_eq!(
        shown(d.data(Dispatch::Data(Token(1), reply_named("B", &[])))),
        vec!["deliver 2 B Reply 0 []"]
    );
    assert_eq!(
        shown(d.data(Dispatch::Data(Token(1), reply_named("C", &[5])))),
        vec!["deliver 3 C Reply 0 [5]"]
    );
    assert_eq!(
        shown(d.data(Dispatch::Data(Token(1), reply_named("A", &[])))),
        vec!["deliver 1 A Reply 0 []"]
    );
    assert_eq!(
        shown(d.data(Dispatch::Data(Token(1), reply_named("A", &[])))),
        Vec::<String>::new()
    );
}

#[test]
fn a_reply_that_nobody_waits_for_is_dropped() {
    let mut d = client();
    d.incoming(Incoming::Call("A".to_string(), vec![], Some(ReplyTo(1))));
    assert!(d.data(Dispatch::Data(Token(1), reply_named("a", &[]))).is_empty());
    assert!(d.data(Dispatch::Data(Token(1), reply_named("", &[]))).is_empty());
    assert_eq!(
        shown(d.data(Dispatch::Data(Token(1), reply_named("A", &[])))),
        vec!["deliver 1 A Reply 0 []"]
    );
}

#[test]
fn a_second_call_of_a_method_takes_the_place_of_the_first() {
    let mut d = client();
    d.incoming(Incoming::Call("A".to_string(), vec![1], Some(ReplyTo(1))));
    assert_eq!(
        shown(d.incoming(Incoming::Call("A".to_string(), vec![2], Some(ReplyTo(2))))),
        vec!["rpc 1 [2]", "cancel 1"]
    );
    assert_eq!(
        shown(d.data(Dispatch::Data(Token(1), reply_named("A", &[])))),
        vec!["deliver 2 A Reply 0 []"]
    );
}

#[test]
fn a_frame_without_version_word_ends_the_dispatcher() {
    let mut d = client();
    d.incoming(Incoming::Call("A".to_string(), vec![], Some(ReplyTo(1))));
    d.incoming(Incoming::Call("B".to_string(), vec![], Some(ReplyTo(2))));
    assert_eq!(
        shown(d.data(Dispatch::Data(Token(1), vec![0, 0, 0, 1, 0, 0, 0, 0, 0, 0]))),
        vec!["close 1", "cancel 1", "cancel 2"]
    );
    assert_eq!(d.status(), Status::Failed(Error::ProtocolVersionMissing));
    assert_eq!(d.result(), Some(Err(ThrustError::Other)));
    assert!(d.incoming(Incoming::Call("A".to_string(), vec![], None)).is_empty());
    assert!(d.data(Dispatch::Data(Token(1), reply_named("A", &[]))).is_empty());

    let mut other = client();
    other.incoming(Incoming::Call("A".to_string(), vec![], Some(ReplyTo(1))));
    assert_eq!(
        shown(other.data(Dispatch::Data(Token(1), reply_named("A", &[])))),
        vec!["deliver 1 A Reply 0 []"]
    );
}

#[test]
fn every_header_error_is_kept() {
    for (frame, error) in [
        (vec![], Error::Byteorder),
        (vec![0x80, 0x02, 0, 1, 0, 0, 0, 0, 0, 0], Error::BadVersion),
        (vec![0x80, 0x01, 0, 7, 0, 0, 0, 0, 0, 0], Error::UnknownType(7)),
        (vec![0x80, 0x01, 0, 1, 0, 0, 0, 1, 0xff, 0, 0], Error::Utf8Error),
    ] {
        let mut d = client();
        assert_eq!(shown(d.data(Dispatch::Data(Token(1), frame))), vec!["close 1"]);
        assert_eq!(d.status(), Status::Failed(error));
    }
}

#[test]
fn a_server_forwards_without_decoding() {
    let mut d = Dispatcher::spawn(Role::Server, Id(Token(0)));
    assert_eq!(
        shown(d.data(Dispatch::Data(Token(2), vec![0, 0, 0, 1]))),
        vec!["forward 2 [0, 0, 0, 1]"]
    );
    assert_eq!(
        shown(d.incoming(Incoming::Reply(Token(2), vec![5]))),
        vec!["rpc 2 [5]"]
    );
    assert_eq!(d.status(), Status::Running);
}

#[test]
fn shutdown_cancels_what_waits() {
    let mut d = client();
    d.incoming(Incoming::Call("A".to_string(), vec![], Some(ReplyTo(1))));
    d.incoming(Incoming::Call("B".to_string(), vec![], Some(ReplyTo(2))));
    assert_eq!(shown(d.incoming(Incoming::Shutdown)), vec!["cancel 1", "cancel 2"]);
    assert_eq!(d.status(), Status::Stopped);
    assert_eq!(d.result(), Some(Ok(())));
    assert!(d.incoming(Incoming::Shutdown).is_empty());
    assert!(d.disconnected().is_empty());
    assert!(d.incoming(Incoming::Reply(Token(1), vec![])).is_empty());
}

#[test]
fn a_lost_channel_stops_the_dispatcher() {
    let mut d = client();
    d.incoming(Incoming::Call("A".to_string(), vec![], Some(ReplyTo(1))));
    assert_eq!(shown(d.disconnected()), vec!["cancel 1"]);
    assert_eq!(d.result(), Some(Ok(())));
}

#[test]
fn run_takes_a_batch_in_order() {
    let mut d = client();
    let effects = d.run(vec![
        Input::User(Incoming::Call("A".to_string(), vec![1], Some(ReplyTo(1)))),
        Input::Reactor(Dispatch::Data(Token(1), reply_named("A", &[3]))),
        Input::User(Incoming::Call("B".to_string(), vec![2], Some(ReplyTo(2)))),
        Input::Disconnected,
        Input::User(Incoming::Call("C".to_string(), vec![3], None)),
    ]);
    assert_eq!(
        shown(effects),
        vec!["rpc 1 [1]", "deliver 1 A Reply 0 [3]", "rpc 1 [2]", "cancel 2"]
    );
    assert_eq!(d.handle(Input::Disconnected).len(), 0);
    assert!(d.run(vec![]).is_empty());
}

#[test]
fn client_and_server_over_one_reactor() {
    let mut reactor = Reactor::new();
    let server_id = match reactor.incoming_msg(Role::Server.request()).unwrap()[0] {
        Action::Assign(id) => id,
        _ => panic!("no token"),
    };
    let client_id = match reactor.incoming_msg(Role::Client.request()).unwrap()[0] {
        Action::Assign(id) => id,
        _ => panic!("no token"),
    };
    let peer = match reactor.accept_connection(server_id.0).unwrap()[0] {
        Action::Register(token, _, _) => token,
        _ => panic!("no token"),
    };
    let mut server = Dispatcher::spawn(Role::Server, server_id);
    let mut client = Dispatcher::spawn(Role::Client, client_id);

    let call = util::create_empty_thrift_message("foobar123", ThriftMessageType::Call);
    let mut effects = client.incoming(Incoming::Call(
        "foobar123".to_string(),
        call.clone(),
        Some(ReplyTo(1)),
    ));
    let rpc = match effects.remove(0) {
        Effect::Rpc(token, buf) => Message::Rpc(token, buf),
        _ => panic!("no rpc"),
    };
    reactor.incoming_msg(rpc).unwrap();
    let bytes = reactor.pending_output(client_id.0).unwrap().to_vec();
    reactor.written(client_id.0, bytes.len()).unwrap();
    let mut actions = reactor.readable(peer, &bytes).unwrap();
    let forwarded = match actions.remove(0) {
        Action::Dispatch(chan, data) => {
            assert_eq!(chan, server_id.0);
            server.data(data)
        }
        _ => panic!("no frame"),
    };
    assert_eq!(
        shown(forwarded),
        vec![format!("forward {} {:?}", peer.0, call)]
    );

    let mut answer = Vec::new();
    {
        let mut se = BinarySerializer::new(&mut answer);
        se.write_message_begin("foobar123", ThriftMessageType::Reply).unwrap();
        se.serialize_i32(5).unwrap();
        se.write_message_end().unwrap();
    }
    let mut effects = server.incoming(Incoming::Reply(peer, answer));
    let rpc = match effects.remove(0) {
        Effect::Rpc(token, buf) => Message::Rpc(token, buf),
        _ => panic!("no rpc"),
    };
    reactor.incoming_msg(rpc).unwrap();
    let bytes = reactor.pending_output(peer).unwrap().to_vec();
    reactor.written(peer, bytes.len()).unwrap();
    let mut actions = reactor.readable(client_id.0, &bytes).unwrap();
    let delivered = match actions.remove(0) {
        Action::Dispatch(chan, data) => {
            assert_eq!(chan, client_id.0);
            client.data(data)
        }
        _ => panic!("no frame"),
    };
    assert_eq!(
        shown(delivered),
        vec!["deliver 1 foobar123 Reply 0 [0, 0, 0, 5]"]
    );
}

#[test]
fn should_start_server() {
    let mut reactor = Reactor::new();
    let server_id = match reactor.incoming_msg(Role::Server.request()).unwrap()[0] {
        Action::Assign(id) => id,
        _ => panic!("no token"),
    };
    let client_id = match reactor.incoming_msg(Role::Client.request()).unwrap()[0] {
        Action::Assign(id) => id,
        _ => panic!("no token"),
    };
    let peer = match reactor.accept_connection(server_id.0).unwrap()[0] {
        Action::Register(token, _, _) => token,
        _ => panic!("no token"),
    };
    let mut server = Dispatcher::spawn(Role::Server, server_id);
    let mut client = Dispatcher::spawn(Role::Client, client_id);

    let buf = util::create_empty_thrift_message("foobar123", ThriftMessageType::Call);
    let mut effects = client.incoming(Incoming::Call(
        "foobar123".to_string(),
        buf,
        Some(ReplyTo(0)),
    ));
    match effects.remove(0) {
        Effect::Rpc(token, buf) => reactor.incoming_msg(Message::Rpc(token, buf)).unwrap(),
        _ => panic!("no rpc"),
    };
    let bytes = reactor.pending_output(client_id.0).unwrap().to_vec();
    reactor.written(client_id.0, bytes.len()).unwrap();
    let call = match reactor.readable(peer, &bytes).unwrap().remove(0) {
        Action::Dispatch(_, data) => server.data(data).remove(0),
        _ => panic!("no frame"),
    };
    let (token, call) = match call {
        Effect::Forward(token, call) => (token, call),
        _ => panic!("no call"),
    };
    assert_eq!(token, peer);
    match server.incoming(Incoming::Reply(token, call)).remove(0) {
        Effect::Rpc(token, buf) => reactor.incoming_msg(Message::Rpc(token, buf)).unwrap(),
        _ => panic!("no rpc"),
    };
    let bytes = reactor.pending_output(peer).unwrap().to_vec();
    reactor.written(peer, bytes.len()).unwrap();
    let effect = match reactor.readable(client_id.0, &bytes).unwrap().remove(0) {
        Action::Dispatch(_, data) => client.data(data).remove(0),
        _ => panic!("no frame"),
    };
    let res = match effect {
        Effect::Deliver(to, msg, _) => {
            assert_eq!(msg.name, "foobar123");
            to.0
        }
        _ => 1,
    };
    assert_eq!(res, 0);
}
