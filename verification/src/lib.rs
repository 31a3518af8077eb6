//! An RPC runtime after Apache Thrift: a binary codec for typed messages,
//! length-prefixed framing, and the state machines of the reactor and the
//! dispatcher that carry frames between sockets and calls. Beside the
//! runtime stand the syntax of service descriptions, a parser for it, and the
//! Rust source text that its nodes stand for.

pub mod ast;
pub mod binary_protocol;
pub mod dispatcher;
pub mod frame;
pub mod grammar;
pub mod parser;
pub mod pipeline;
pub mod protocol;
pub mod reactor;
pub mod request;
pub mod result;
pub mod runner;
pub mod schema;
pub mod server;
pub mod service;
pub mod spawner;
pub mod text;
pub mod util;
pub mod wire;

pub use protocol::{Deserialize, Serialize, Serializer, ThriftDeserializer, ThriftSerializer};
pub use reactor::Reactor;
pub use result::{ThrustError, ThrustResult};
pub use runner::Runner;
