//! The logical stream of a Thrift message and the contracts of the codecs
//! that put it on the wire and take it off again.
//!
//! A codec is described by two spec functions: `encode`, the bytes that an
//! [`Item`] becomes, and `decode`, the item of a given [`Kind`] that stands
//! at the head of some input together with the number of bytes it takes.
//! Every method of the traits below is specified through them, so that code
//! which is generic in the codec can still say exactly what it writes or
//! reads.

use vstd::prelude::*;

verus! {

/// Why a value could not be decoded.
#[derive(PartialEq, Eq, Debug, Clone, Copy, Structural)]
pub enum Error {
    /// The input ends, or announces a length that no input has, before the
    /// value is complete.
    Byteorder,
    /// The stream underneath failed.
    Io,
    /// A string is not valid UTF-8.
    Utf8Error,
    /// The version word names another version of the protocol.
    BadVersion,
    /// The message starts without a version word.
    ProtocolVersionMissing,
    /// A type code that the protocol does not define.
    UnknownType(i8),
}

/// The wire type of a field or an element.
#[derive(PartialEq, Eq, Debug, Clone, Copy, Structural)]
pub enum ThriftType {
    Stop,
    Void,
    Bool,
    Byte,
    Double,
    I16,
    I32,
    U64,
    I64,
    String,
    Struct,
    TMap,
    TSet,
    List,
}

impl ThriftType {
    /// The code that stands for this type on the wire.
    pub open spec fn code_spec(self) -> i8 {
        match self {
            ThriftType::Stop => 0,
            ThriftType::Void => 1,
            ThriftType::Bool => 2,
            ThriftType::Byte => 3,
            ThriftType::Double => 4,
            ThriftType::I16 => 6,
            ThriftType::I32 => 8,
            ThriftType::U64 => 9,
            ThriftType::I64 => 10,
            ThriftType::String => 11,
            ThriftType::Struct => 12,
            ThriftType::TMap => 13,
            ThriftType::TSet => 14,
            ThriftType::List => 15,
        }
    }

    /// The type that a code stands for, if it stands for one.
    pub open spec fn of_code(val: i8) -> Option<ThriftType> {
        if val == 0 {
            Some(ThriftType::Stop)
        } else if val == 1 {
            Some(ThriftType::Void)
        } else if val == 2 {
            Some(ThriftType::Bool)
        } else if val == 3 {
            Some(ThriftType::Byte)
        } else if val == 4 {
            Some(ThriftType::Double)
        } else if val == 6 {
            Some(ThriftType::I16)
        } else if val == 8 {
            Some(ThriftType::I32)
        } else if val == 9 {
            Some(ThriftType::U64)
        } else if val == 10 {
            Some(ThriftType::I64)
        } else if val == 11 {
            Some(ThriftType::String)
        } else if val == 12 {
            Some(ThriftType::Struct)
        } else if val == 13 {
            Some(ThriftType::TMap)
        } else if val == 14 {
            Some(ThriftType::TSet)
        } else if val == 15 {
            Some(ThriftType::List)
        } else {
            None
        }
    }

    /// The code that stands for this type on the wire.
    #[verifier::when_used_as_spec(code_spec)]
    pub fn code(self) -> (val: i8)
        ensures
            val == self.code_spec(),
    {
        match self {
            ThriftType::Stop => 0,
            ThriftType::Void => 1,
            ThriftType::Bool => 2,
            ThriftType::Byte => 3,
            ThriftType::Double => 4,
            ThriftType::I16 => 6,
            ThriftType::I32 => 8,
            ThriftType::U64 => 9,
            ThriftType::I64 => 10,
            ThriftType::String => 11,
            ThriftType::Struct => 12,
            ThriftType::TMap => 13,
            ThriftType::TSet => 14,
            ThriftType::List => 15,
        }
    }

    /// Reads a type code. A code that the protocol does not define is
    /// reported, never read as another type.
    pub fn from(val: i8) -> (r: Result<ThriftType, Error>)
        ensures
            match ThriftType::of_code(val) {
                Some(ty) => r == Ok::<ThriftType, Error>(ty),
                None => r == Err::<ThriftType, Error>(Error::UnknownType(val)),
            },
    {
        match val {
            0 => Ok(ThriftType::Stop),
            1 => Ok(ThriftType::Void),
            2 => Ok(ThriftType::Bool),
            3 => Ok(ThriftType::Byte),
            4 => Ok(ThriftType::Double),
            6 => Ok(ThriftType::I16),
            8 => Ok(ThriftType::I32),
            9 => Ok(ThriftType::U64),
            10 => Ok(ThriftType::I64),
            11 => Ok(ThriftType::String),
            12 => Ok(ThriftType::Struct),
            13 => Ok(ThriftType::TMap),
            14 => Ok(ThriftType::TSet),
            15 => Ok(ThriftType::List),
            e => Err(Error::UnknownType(e)),
        }
    }

    /// Every type is read back from its own code.
    pub proof fn lemma_code_round_trip(self)
        ensures
            ThriftType::of_code(self.code_spec()) == Some(self),
    {
    }
}

/// What a message is: a call, its answer, a failure or a one-way call.
#[derive(PartialEq, Eq, Debug, Clone, Copy, Structural)]
pub enum ThriftMessageType {
    Call,
    Reply,
    Exception,
    Oneway,
}

impl ThriftMessageType {
    /// The code that stands for this message type on the wire.
    pub open spec fn code_spec(self) -> i8 {
        match self {
            ThriftMessageType::Call => 1,
            ThriftMessageType::Reply => 2,
            ThriftMessageType::Exception => 3,
            ThriftMessageType::Oneway => 4,
        }
    }

    /// The message type that a code stands for, if it stands for one.
    pub open spec fn of_code(val: i8) -> Option<ThriftMessageType> {
        if val == 1 {
            Some(ThriftMessageType::Call)
        } else if val == 2 {
            Some(ThriftMessageType::Reply)
        } else if val == 3 {
            Some(ThriftMessageType::Exception)
        } else if val == 4 {
            Some(ThriftMessageType::Oneway)
        } else {
            None
        }
    }

    /// The code that stands for this message type on the wire.
    #[verifier::when_used_as_spec(code_spec)]
    pub fn code(self) -> (val: i8)
        ensures
            val == self.code_spec(),
    {
        match self {
            ThriftMessageType::Call => 1,
            ThriftMessageType::Reply => 2,
            ThriftMessageType::Exception => 3,
            ThriftMessageType::Oneway => 4,
        }
    }

    /// Reads a message type code. A code that the protocol does not define
    /// is reported, never read as another type.
    pub fn from(val: i8) -> (r: Result<ThriftMessageType, Error>)
        ensures
            match ThriftMessageType::of_code(val) {
                Some(ty) => r == Ok::<ThriftMessageType, Error>(ty),
                None => r == Err::<ThriftMessageType, Error>(Error::UnknownType(val)),
            },
    {
        match val {
            1 => Ok(ThriftMessageType::Call),
            2 => Ok(ThriftMessageType::Reply),
            3 => Ok(ThriftMessageType::Exception),
            4 => Ok(ThriftMessageType::Oneway),
            e => Err(Error::UnknownType(e)),
        }
    }

    /// Every message type is read back from its own code.
    pub proof fn lemma_code_round_trip(self)
        ensures
            ThriftMessageType::of_code(self.code_spec()) == Some(self),
    {
    }
}

/// The header of a message.
#[derive(Debug)]
pub struct ThriftMessage {
    pub name: String,
    pub ty: ThriftMessageType,
    pub seq: i16,
}

/// The header of a field of a struct. A header of type `Stop` ends the
/// struct.
#[derive(Debug)]
pub struct ThriftField {
    pub name: Option<String>,
    pub ty: ThriftType,
    pub seq: i16,
}

/// One step of the logical stream that a codec writes and reads.
pub enum Item {
    Bool(bool),
    Byte(i8),
    I16(i16),
    I32(i32),
    I64(i64),
    /// Bytes with their length in front.
    Binary(Seq<u8>),
    /// A text with its length in front.
    Str(Seq<char>),
    /// Name, type and sequence id of a message.
    MessageBegin(Seq<char>, ThriftMessageType, i16),
    MessageEnd,
    StructBegin(Seq<char>),
    StructEnd,
    /// Name (where the codec carries one), type and id of a field.
    FieldBegin(Option<Seq<char>>, ThriftType, i16),
    FieldEnd,
    /// The mark that ends the fields of a struct.
    FieldStop,
    /// Type of the elements and their number.
    ListBegin(ThriftType, i32),
    ListEnd,
    /// Type of the elements and their number.
    SetBegin(ThriftType, i32),
    SetEnd,
    /// Type of the keys, type of the values, and the number of pairs.
    MapBegin(ThriftType, ThriftType, i32),
    MapEnd,
}

/// What a reader expects next on the stream.
pub enum Kind {
    Bool,
    Byte,
    I16,
    I32,
    I64,
    Binary,
    Str,
    MessageBegin,
    MessageEnd,
    StructBegin,
    StructEnd,
    FieldBegin,
    FieldEnd,
    ListBegin,
    ListEnd,
    SetBegin,
    SetEnd,
    MapBegin,
    MapEnd,
}

/// Whether a reader that had `before` left to read has taken `n` bytes and
/// has `after` left.
pub open spec fn advanced(before: Seq<u8>, after: Seq<u8>, n: nat) -> bool {
    n <= before.len() && after == before.skip(n as int)
}

/// Writes the primitive values of the protocol. A write that succeeds
/// appends the bytes of one item to what was written before; nothing is said
/// of the stream after a write that failed. A write fails only where the
/// sink does: every write of a reliable serializer succeeds and leaves it
/// reliable.
///
/// The unsigned and the pointer-sized integers have no encoding of their
/// own: each travels as the signed integer with the same bits.
pub trait Serializer: Sized {
    /// The bytes written so far.
    spec fn written(&self) -> Seq<u8>;

    /// The bytes that an item becomes on the wire.
    spec fn encode(item: Item) -> Seq<u8>;

    /// Whether the sink behind this serializer takes whatever it is given.
    /// Every write of a reliable serializer succeeds. A serializer whose sink
    /// can fail is not reliable, and which of its writes succeed is then for
    /// the sink to decide.
    spec fn reliable(&self) -> bool;

    fn serialize_bool(&mut self, val: bool) -> (r: Result<(), Error>)
        ensures
            old(self).reliable() ==> r is Ok && final(self).reliable(),
            r is Ok ==> final(self).written() == old(self).written() + Self::encode(
                Item::Bool(val),
            ),
    ;

    fn serialize_str(&mut self, val: &str) -> (r: Result<(), Error>)
        ensures
            old(self).reliable() ==> r is Ok && final(self).reliable(),
            r is Ok ==> final(self).written() == old(self).written() + Self::encode(
                Item::Str(val@),
            ),
    ;

    fn serialize_string(&mut self, val: String) -> (r: Result<(), Error>)
        ensures
            old(self).reliable() ==> r is Ok && final(self).reliable(),
            r is Ok ==> final(self).written() == old(self).written() + Self::encode(
                Item::Str(val@),
            ),
    ;

    fn serialize_usize(&mut self, val: usize) -> (r: Result<(), Error>)
        ensures
            old(self).reliable() ==> r is Ok && final(self).reliable(),
            r is Ok ==> final(self).written() == old(self).written() + Self::encode(
                Item::I64((val as isize) as i64),
            ),
    ;

    fn serialize_isize(&mut self, val: isize) -> (r: Result<(), Error>)
        ensures
            old(self).reliable() ==> r is Ok && final(self).reliable(),
            r is Ok ==> final(self).written() == old(self).written() + Self::encode(
                Item::I64(val as i64),
            ),
    ;

    fn serialize_u64(&mut self, val: u64) -> (r: Result<(), Error>)
        ensures
            old(self).reliable() ==> r is Ok && final(self).reliable(),
            r is Ok ==> final(self).written() == old(self).written() + Self::encode(
                Item::I64(val as i64),
            ),
    ;

    fn serialize_i64(&mut self, val: i64) -> (r: Result<(), Error>)
        ensures
            old(self).reliable() ==> r is Ok && final(self).reliable(),
            r is Ok ==> final(self).written() == old(self).written() + Self::encode(
                Item::I64(val),
            ),
    ;

    fn serialize_i32(&mut self, val: i32) -> (r: Result<(), Error>)
        ensures
            old(self).reliable() ==> r is Ok && final(self).reliable(),
            r is Ok ==> final(self).written() == old(self).written() + Self::encode(
                Item::I32(val),
            ),
    ;

    fn serialize_u32(&mut self, val: u32) -> (r: Result<(), Error>)
        ensures
            old(self).reliable() ==> r is Ok && final(self).reliable(),
            r is Ok ==> final(self).written() == old(self).written() + Self::encode(
                Item::I32(val as i32),
            ),
    ;

    fn serialize_i16(&mut self, val: i16) -> (r: Result<(), Error>)
        ensures
            old(self).reliable() ==> r is Ok && final(self).reliable(),
            r is Ok ==> final(self).written() == old(self).written() + Self::encode(
                Item::I16(val),
            ),
    ;

    fn serialize_u16(&mut self, val: u16) -> (r: Result<(), Error>)
        ensures
            old(self).reliable() ==> r is Ok && final(self).reliable(),
            r is Ok ==> final(self).written() == old(self).written() + Self::encode(
                Item::I16(val as i16),
            ),
    ;

    fn serialize_u8(&mut self, val: u8) -> (r: Result<(), Error>)
        ensures
            old(self).reliable() ==> r is Ok && final(self).reliable(),
            r is Ok ==> final(self).written() == old(self).written() + Self::encode(
                Item::Byte(val as i8),
            ),
    ;

    fn serialize_i8(&mut self, val: i8) -> (r: Result<(), Error>)
        ensures
            old(self).reliable() ==> r is Ok && final(self).reliable(),
            r is Ok ==> final(self).written() == old(self).written() + Self::encode(
                Item::Byte(val),
            ),
    ;

    fn serialize_bytes(&mut self, val: &[u8]) -> (r: Result<(), Error>)
        ensures
            old(self).reliable() ==> r is Ok && final(self).reliable(),
            r is Ok ==> final(self).written() == old(self).written() + Self::encode(
                Item::Binary(val@),
            ),
    ;
}

/// Reads the primitive values of the protocol.
///
/// A read succeeds exactly when `decode` finds an item of the kind asked
/// for at the head of the input that is left. It then returns that item and
/// stands just behind it; otherwise it returns the error that `decode`
/// gives, and stands where it stood.
pub trait Deserializer: Sized {
    /// The input that has not been read yet.
    spec fn remaining(&self) -> Seq<u8>;

    /// The item of kind `kind` at the head of `input` and the number of
    /// bytes it takes, or why there is none.
    spec fn decode(kind: Kind, input: Seq<u8>) -> Result<(Item, nat), Error>;

    fn deserialize_bool(&mut self) -> (r: Result<bool, Error>)
        ensures
            match Self::decode(Kind::Bool, old(self).remaining()) {
                Ok((item, n)) => r == Ok::<bool, Error>(item->Bool_0) && advanced(
                    old(self).remaining(),
                    final(self).remaining(),
                    n,
                ),
                Err(e) => r == Err::<bool, Error>(e)
                    && final(self).remaining() == old(self).remaining(),
            },
    ;

    fn deserialize_usize(&mut self) -> (r: Result<usize, Error>)
        ensures
            match Self::decode(Kind::I64, old(self).remaining()) {
                Ok((item, n)) => r == Ok::<usize, Error>(((item->I64_0) as isize) as usize)
                    && advanced(
                    old(self).remaining(),
                    final(self).remaining(),
                    n,
                ),
                Err(e) => r == Err::<usize, Error>(e)
                    && final(self).remaining() == old(self).remaining(),
            },
    ;

    fn deserialize_isize(&mut self) -> (r: Result<isize, Error>)
        ensures
            match Self::decode(Kind::I64, old(self).remaining()) {
                Ok((item, n)) => r == Ok::<isize, Error>((item->I64_0) as isize) && advanced(
                    old(self).remaining(),
                    final(self).remaining(),
                    n,
                ),
                Err(e) => r == Err::<isize, Error>(e)
                    && final(self).remaining() == old(self).remaining(),
            },
    ;

    fn deserialize_u64(&mut self) -> (r: Result<u64, Error>)
        ensures
            match Self::decode(Kind::I64, old(self).remaining()) {
                Ok((item, n)) => r == Ok::<u64, Error>((item->I64_0) as u64) && advanced(
                    old(self).remaining(),
                    final(self).remaining(),
                    n,
                ),
                Err(e) => r == Err::<u64, Error>(e)
                    && final(self).remaining() == old(self).remaining(),
            },
    ;

    fn deserialize_i64(&mut self) -> (r: Result<i64, Error>)
        ensures
            match Self::decode(Kind::I64, old(self).remaining()) {
                Ok((item, n)) => r == Ok::<i64, Error>(item->I64_0) && advanced(
                    old(self).remaining(),
                    final(self).remaining(),
                    n,
                ),
                Err(e) => r == Err::<i64, Error>(e)
                    && final(self).remaining() == old(self).remaining(),
            },
    ;

    fn deserialize_u32(&mut self) -> (r: Result<u32, Error>)
        ensures
            match Self::decode(Kind::I32, old(self).remaining()) {
                Ok((item, n)) => r == Ok::<u32, Error>((item->I32_0) as u32) && advanced(
                    old(self).remaining(),
                    final(self).remaining(),
                    n,
                ),
                Err(e) => r == Err::<u32, Error>(e)
                    && final(self).remaining() == old(self).remaining(),
            },
    ;

    fn deserialize_i32(&mut self) -> (r: Result<i32, Error>)
        ensures
            match Self::decode(Kind::I32, old(self).remaining()) {
                Ok((item, n)) => r == Ok::<i32, Error>(item->I32_0) && advanced(
                    old(self).remaining(),
                    final(self).remaining(),
                    n,
                ),
                Err(e) => r == Err::<i32, Error>(e)
                    && final(self).remaining() == old(self).remaining(),
            },
    ;

    fn deserialize_u16(&mut self) -> (r: Result<u16, Error>)
        ensures
            match Self::decode(Kind::I16, old(self).remaining()) {
                Ok((item, n)) => r == Ok::<u16, Error>((item->I16_0) as u16) && advanced(
                    old(self).remaining(),
                    final(self).remaining(),
                    n,
                ),
                Err(e) => r == Err::<u16, Error>(e)
                    && final(self).remaining() == old(self).remaining(),
            },
    ;

    fn deserialize_i16(&mut self) -> (r: Result<i16, Error>)
        ensures
            match Self::decode(Kind::I16, old(self).remaining()) {
                Ok((item, n)) => r == Ok::<i16, Error>(item->I16_0) && advanced(
                    old(self).remaining(),
                    final(self).remaining(),
                    n,
                ),
                Err(e) => r == Err::<i16, Error>(e)
                    && final(self).remaining() == old(self).remaining(),
            },
    ;

    fn deserialize_u8(&mut self) -> (r: Result<u8, Error>)
        ensures
            match Self::decode(Kind::Byte, old(self).remaining()) {
                Ok((item, n)) => r == Ok::<u8, Error>((item->Byte_0) as u8) && advanced(
                    old(self).remaining(),
                    final(self).remaining(),
                    n,
                ),
                Err(e) => r == Err::<u8, Error>(e)
                    && final(self).remaining() == old(self).remaining(),
            },
    ;

    fn deserialize_i8(&mut self) -> (r: Result<i8, Error>)
        ensures
            match Self::decode(Kind::Byte, old(self).remaining()) {
                Ok((item, n)) => r == Ok::<i8, Error>(item->Byte_0) && advanced(
                    old(self).remaining(),
                    final(self).remaining(),
                    n,
                ),
                Err(e) => r == Err::<i8, Error>(e)
                    && final(self).remaining() == old(self).remaining(),
            },
    ;

    fn deserialize_bytes(&mut self) -> (r: Result<Vec<u8>, Error>)
        ensures
            match Self::decode(Kind::Binary, old(self).remaining()) {
                Ok((item, n)) => r is Ok && r->Ok_0@ == item->Binary_0 && advanced(
                    old(self).remaining(),
                    final(self).remaining(),
                    n,
                ),
                Err(e) => r is Err && r->Err_0 == e
                    && final(self).remaining() == old(self).remaining(),
            },
    ;

    fn deserialize_str(&mut self) -> (r: Result<String, Error>)
        ensures
            match Self::decode(Kind::Str, old(self).remaining()) {
                Ok((item, n)) => r is Ok && r->Ok_0@ == item->Str_0 && advanced(
                    old(self).remaining(),
                    final(self).remaining(),
                    n,
                ),
                Err(e) => r is Err && r->Err_0 == e
                    && final(self).remaining() == old(self).remaining(),
            },
    ;
}

/// A value that can be written with any codec.
pub trait Serialize {
    /// The logical stream that this value is written as.
    spec fn items(&self) -> Seq<Item>;

    /// Writes the value: the bytes of its logical stream go out behind what
    /// was written before. With a reliable serializer this succeeds; with
    /// another it fails where one of the writes fails.

    fn serialize<S>(&self, s: &mut S) -> (r: Result<(), Error>) where
        S: Serializer + ThriftSerializer,

        ensures
            old(s).reliable() ==> r is Ok && final(s).reliable(),
            r is Ok ==> final(s).written() == old(s).written() + encode_all::<S>(self.items()),
    ;
}

/// The bytes of a logical stream: those of its items, one after the other.
pub open spec fn encode_all<S: Serializer>(items: Seq<Item>) -> Seq<u8>
    decreases items.len(),
{
    if items.len() == 0 {
        Seq::empty()
    } else {
        encode_all::<S>(items.drop_last()) + S::encode(items.last())
    }
}

/// Writes the structure of a message around its values: the message header,
/// structs and their fields, and the headers of lists, sets and maps.
pub trait ThriftSerializer: Serializer {
    /// Starts a message. The sequence id that goes out is 0.
    fn write_message_begin(&mut self, name: &str, message_type: ThriftMessageType) -> (r: Result<(), Error>)
        ensures
            old(self).reliable() ==> r is Ok && final(self).reliable(),
            r is Ok ==> final(self).written() == old(self).written() + Self::encode(
                Item::MessageBegin(name@, message_type, 0),
            ),
    ;

    fn write_struct_begin(&mut self, name: &str) -> (r: Result<(), Error>)
        ensures
            old(self).reliable() ==> r is Ok && final(self).reliable(),
            r is Ok ==> final(self).written() == old(self).written() + Self::encode(
                Item::StructBegin(name@),
            ),
    ;

    fn write_struct_end(&mut self) -> (r: Result<(), Error>)
        ensures
            old(self).reliable() ==> r is Ok && final(self).reliable(),
            r is Ok ==> final(self).written() == old(self).written() + Self::encode(
                Item::StructEnd,
            ),
    ;

    fn write_field_begin(&mut self, name: &str, ty: ThriftType, id: i16) -> (r: Result<(), Error>)
        ensures
            old(self).reliable() ==> r is Ok && final(self).reliable(),
            r is Ok ==> final(self).written() == old(self).written() + Self::encode(
                Item::FieldBegin(Some(name@), ty, id),
            ),
    ;

    fn write_field_end(&mut self) -> (r: Result<(), Error>)
        ensures
            old(self).reliable() ==> r is Ok && final(self).reliable(),
            r is Ok ==> final(self).written() == old(self).written() + Self::encode(
                Item::FieldEnd,
            ),
    ;

    fn write_field_stop(&mut self) -> (r: Result<(), Error>)
        ensures
            old(self).reliable() ==> r is Ok && final(self).reliable(),
            r is Ok ==> final(self).written() == old(self).written() + Self::encode(
                Item::FieldStop,
            ),
    ;

    fn write_message_end(&mut self) -> (r: Result<(), Error>)
        ensures
            old(self).reliable() ==> r is Ok && final(self).reliable(),
            r is Ok ==> final(self).written() == old(self).written() + Self::encode(
                Item::MessageEnd,
            ),
    ;

    /// Starts a list of `size` elements of type `elem`.
    fn write_list_begin(&mut self, elem: ThriftType, size: i32) -> (r: Result<(), Error>)
        ensures
            old(self).reliable() ==> r is Ok && final(self).reliable(),
            r is Ok ==> final(self).written() == old(self).written() + Self::encode(
                Item::ListBegin(elem, size),
            ),
    ;

    fn write_list_end(&mut self) -> (r: Result<(), Error>)
        ensures
            old(self).reliable() ==> r is Ok && final(self).reliable(),
            r is Ok ==> final(self).written() == old(self).written() + Self::encode(
                Item::ListEnd,
            ),
    ;

    /// Starts a set of `size` elements of type `elem`.
    fn write_set_begin(&mut self, elem: ThriftType, size: i32) -> (r: Result<(), Error>)
        ensures
            old(self).reliable() ==> r is Ok && final(self).reliable(),
            r is Ok ==> final(self).written() == old(self).written() + Self::encode(
                Item::SetBegin(elem, size),
            ),
    ;

    fn write_set_end(&mut self) -> (r: Result<(), Error>)
        ensures
            old(self).reliable() ==> r is Ok && final(self).reliable(),
            r is Ok ==> final(self).written() == old(self).written() + Self::encode(
                Item::SetEnd,
            ),
    ;

    /// Starts a map of `size` pairs with keys of type `key` and values of
    /// type `val`.
    fn write_map_begin(&mut self, key: ThriftType, val: ThriftType, size: i32) -> (r: Result<(), Error>)
        ensures
            old(self).reliable() ==> r is Ok && final(self).reliable(),
            r is Ok ==> final(self).written() == old(self).written() + Self::encode(
                Item::MapBegin(key, val, size),
            ),
    ;

    fn write_map_end(&mut self) -> (r: Result<(), Error>)
        ensures
            old(self).reliable() ==> r is Ok && final(self).reliable(),
            r is Ok ==> final(self).written() == old(self).written() + Self::encode(
                Item::MapEnd,
            ),
    ;
}

impl ThriftField {
    /// The name of the field as a text, where it has one.
    pub open spec fn name_view(self) -> Option<Seq<char>> {
        match self.name {
            Some(s) => Some(s@),
            None => None,
        }
    }
}

/// Reads the structure of a message around its values.
pub trait ThriftDeserializer: Deserializer {
    fn read_message_begin(&mut self) -> (r: Result<ThriftMessage, Error>)
        ensures
            match Self::decode(Kind::MessageBegin, old(self).remaining()) {
                Ok((item, n)) => r is Ok && Item::MessageBegin(r->Ok_0.name@, r->Ok_0.ty, r->Ok_0.seq) == item
                    && advanced(
                    old(self).remaining(),
                    final(self).remaining(),
                    n,
                ),
                Err(e) => r is Err && r->Err_0 == e
                    && final(self).remaining() == old(self).remaining(),
            },
    ;

    fn read_message_end(&mut self) -> (r: Result<(), Error>)
        ensures
            match Self::decode(Kind::MessageEnd, old(self).remaining()) {
                Ok((item, n)) => r == Ok::<(), Error>(()) && advanced(
                    old(self).remaining(),
                    final(self).remaining(),
                    n,
                ),
                Err(e) => r == Err::<(), Error>(e)
                    && final(self).remaining() == old(self).remaining(),
            },
    ;

    fn read_struct_begin(&mut self) -> (r: Result<String, Error>)
        ensures
            match Self::decode(Kind::StructBegin, old(self).remaining()) {
                Ok((item, n)) => r is Ok && Item::StructBegin(r->Ok_0@) == item && advanced(
                    old(self).remaining(),
                    final(self).remaining(),
                    n,
                ),
                Err(e) => r is Err && r->Err_0 == e
                    && final(self).remaining() == old(self).remaining(),
            },
    ;

    fn read_struct_end(&mut self) -> (r: Result<(), Error>)
        ensures
            match Self::decode(Kind::StructEnd, old(self).remaining()) {
                Ok((item, n)) => r == Ok::<(), Error>(()) && advanced(
                    old(self).remaining(),
                    final(self).remaining(),
                    n,
                ),
                Err(e) => r == Err::<(), Error>(e)
                    && final(self).remaining() == old(self).remaining(),
            },
    ;

    fn read_field_begin(&mut self) -> (r: Result<ThriftField, Error>)
        ensures
            match Self::decode(Kind::FieldBegin, old(self).remaining()) {
                Ok((item, n)) => r is Ok && Item::FieldBegin(r->Ok_0.name_view(), r->Ok_0.ty, r->Ok_0.seq) == item
                    && advanced(
                    old(self).remaining(),
                    final(self).remaining(),
                    n,
                ),
                Err(e) => r is Err && r->Err_0 == e
                    && final(self).remaining() == old(self).remaining(),
            },
    ;

    fn read_field_end(&mut self) -> (r: Result<(), Error>)
        ensures
            match Self::decode(Kind::FieldEnd, old(self).remaining()) {
                Ok((item, n)) => r == Ok::<(), Error>(()) && advanced(
                    old(self).remaining(),
                    final(self).remaining(),
                    n,
                ),
                Err(e) => r == Err::<(), Error>(e)
                    && final(self).remaining() == old(self).remaining(),
            },
    ;

    fn read_list_begin(&mut self) -> (r: Result<(ThriftType, i32), Error>)
        ensures
            match Self::decode(Kind::ListBegin, old(self).remaining()) {
                Ok((item, n)) => r is Ok && Item::ListBegin(r->Ok_0.0, r->Ok_0.1) == item
                    && advanced(
                    old(self).remaining(),
                    final(self).remaining(),
                    n,
                ),
                Err(e) => r is Err && r->Err_0 == e
                    && final(self).remaining() == old(self).remaining(),
            },
    ;

    fn read_list_end(&mut self) -> (r: Result<(), Error>)
        ensures
            match Self::decode(Kind::ListEnd, old(self).remaining()) {
                Ok((item, n)) => r == Ok::<(), Error>(()) && advanced(
                    old(self).remaining(),
                    final(self).remaining(),
                    n,
                ),
                Err(e) => r == Err::<(), Error>(e)
                    && final(self).remaining() == old(self).remaining(),
            },
    ;

    fn read_set_begin(&mut self) -> (r: Result<(ThriftType, i32), Error>)
        ensures
            match Self::decode(Kind::SetBegin, old(self).remaining()) {
                Ok((item, n)) => r is Ok && Item::SetBegin(r->Ok_0.0, r->Ok_0.1) == item
                    && advanced(
                    old(self).remaining(),
                    final(self).remaining(),
                    n,
                ),
                Err(e) => r is Err && r->Err_0 == e
                    && final(self).remaining() == old(self).remaining(),
            },
    ;

    fn read_set_end(&mut self) -> (r: Result<(), Error>)
        ensures
            match Self::decode(Kind::SetEnd, old(self).remaining()) {
                Ok((item, n)) => r == Ok::<(), Error>(()) && advanced(
                    old(self).remaining(),
                    final(self).remaining(),
                    n,
                ),
                Err(e) => r == Err::<(), Error>(e)
                    && final(self).remaining() == old(self).remaining(),
            },
    ;

    fn read_map_begin(&mut self) -> (r: Result<(ThriftType, ThriftType, i32), Error>)
        ensures
            match Self::decode(Kind::MapBegin, old(self).remaining()) {
                Ok((item, n)) => r is Ok && Item::MapBegin(r->Ok_0.0, r->Ok_0.1, r->Ok_0.2) == item
                    && advanced(
                    old(self).remaining(),
                    final(self).remaining(),
                    n,
                ),
                Err(e) => r is Err && r->Err_0 == e
                    && final(self).remaining() == old(self).remaining(),
            },
    ;

    fn read_map_end(&mut self) -> (r: Result<(), Error>)
        ensures
            match Self::decode(Kind::MapEnd, old(self).remaining()) {
                Ok((item, n)) => r == Ok::<(), Error>(()) && advanced(
                    old(self).remaining(),
                    final(self).remaining(),
                    n,
                ),
                Err(e) => r == Err::<(), Error>(e)
                    && final(self).remaining() == old(self).remaining(),
            },
    ;
}

/// Whether a reader that had `before` left to read has `after` left after
/// it took some bytes, or none, from the head of its input.
pub open spec fn moved_on(before: Seq<u8>, after: Seq<u8>) -> bool {
    exists|n: nat| advanced(before, after, n)
}

/// A value that can be read with any codec. Reading takes bytes from the
/// head of the input and nothing else; what is read, and when reading fails,
/// is for each type to say.
pub trait Deserialize: Sized {
    fn deserialize<D>(de: &mut D) -> (r: Result<Self, Error>) where
        D: Deserializer + ThriftDeserializer,

        ensures
            moved_on(old(de).remaining(), final(de).remaining()),
    ;
}

/// A reader that has moved on twice has moved on.
pub proof fn lemma_moved_on_twice(first: Seq<u8>, second: Seq<u8>, third: Seq<u8>)
    requires
        moved_on(first, second),
        moved_on(second, third),
    ensures
        moved_on(first, third),
{
    let n = choose|n: nat| advanced(first, second, n);
    let m = choose|m: nat| advanced(second, third, m);
    assert(first.skip(n as int).skip(m as int) =~= first.skip(n as int + m as int));
    assert(advanced(first, third, n + m));
}

/// A reader that stands where it stood has taken no bytes.
pub proof fn lemma_stayed(input: Seq<u8>)
    ensures
        advanced(input, input, 0),
{
    assert(input.skip(0) =~= input);
}

/// The bytes of a stream of one item are the bytes of that item.
pub proof fn lemma_encode_one<S: Serializer>(item: Item)
    ensures
        encode_all::<S>(seq![item]) == S::encode(item),
{
    let items = seq![item];
    assert(items.drop_last() =~= Seq::<Item>::empty());
    assert(encode_all::<S>(items.drop_last()) =~= Seq::<u8>::empty());
    assert(encode_all::<S>(items) =~= S::encode(item));
}

/// The bytes of a stream with one more item are the bytes of the stream,
/// then those of the item.
pub proof fn lemma_encode_push<S: Serializer>(items: Seq<Item>, item: Item)
    ensures
        encode_all::<S>(items.push(item)) == encode_all::<S>(items) + S::encode(item),
{
    assert(items.push(item).drop_last() =~= items);
}

impl Deserialize for u8 {
    fn deserialize<D>(de: &mut D) -> (r: Result<Self, Error>) where
        D: Deserializer + ThriftDeserializer,

        ensures
            match D::decode(Kind::Byte, old(de).remaining()) {
                Ok((item, n)) => r == Ok::<u8, Error>((item->Byte_0) as u8) && advanced(
                    old(de).remaining(),
                    final(de).remaining(),
                    n,
                ),
                Err(e) => r == Err::<u8, Error>(e) && final(de).remaining() == old(de).remaining(),
            },
    {
        proof {
            lemma_stayed(de.remaining());
        }
        de.deserialize_u8()
    }
}

impl Deserialize for bool {
    fn deserialize<D>(de: &mut D) -> (r: Result<Self, Error>) where
        D: Deserializer + ThriftDeserializer,

        ensures
            match D::decode(Kind::Bool, old(de).remaining()) {
                Ok((item, n)) => r == Ok::<bool, Error>(item->Bool_0) && advanced(
                    old(de).remaining(),
                    final(de).remaining(),
                    n,
                ),
                Err(e) => r == Err::<bool, Error>(e)
                    && final(de).remaining() == old(de).remaining(),
            },
    {
        proof {
            lemma_stayed(de.remaining());
        }
        de.deserialize_bool()
    }
}

impl Deserialize for i8 {
    fn deserialize<D>(de: &mut D) -> (r: Result<Self, Error>) where
        D: Deserializer + ThriftDeserializer,

        ensures
            match D::decode(Kind::Byte, old(de).remaining()) {
                Ok((item, n)) => r == Ok::<i8, Error>(item->Byte_0) && advanced(
                    old(de).remaining(),
                    final(de).remaining(),
                    n,
                ),
                Err(e) => r == Err::<i8, Error>(e) && final(de).remaining() == old(de).remaining(),
            },
    {
        proof {
            lemma_stayed(de.remaining());
        }
        de.deserialize_i8()
    }
}

impl Deserialize for u16 {
    fn deserialize<D>(de: &mut D) -> (r: Result<Self, Error>) where
        D: Deserializer + ThriftDeserializer,

        ensures
            match D::decode(Kind::I16, old(de).remaining()) {
                Ok((item, n)) => r == Ok::<u16, Error>((item->I16_0) as u16) && advanced(
                    old(de).remaining(),
                    final(de).remaining(),
                    n,
                ),
                Err(e) => r == Err::<u16, Error>(e) && final(de).remaining() == old(de).remaining(),
            },
    {
        proof {
            lemma_stayed(de.remaining());
        }
        de.deserialize_u16()
    }
}

impl Deserialize for i16 {
    fn deserialize<D>(de: &mut D) -> (r: Result<Self, Error>) where
        D: Deserializer + ThriftDeserializer,

        ensures
            match D::decode(Kind::I16, old(de).remaining()) {
                Ok((item, n)) => r == Ok::<i16, Error>(item->I16_0) && advanced(
                    old(de).remaining(),
                    final(de).remaining(),
                    n,
                ),
                Err(e) => r == Err::<i16, Error>(e) && final(de).remaining() == old(de).remaining(),
            },
    {
        proof {
            lemma_stayed(de.remaining());
        }
        de.deserialize_i16()
    }
}

impl Deserialize for u32 {
    fn deserialize<D>(de: &mut D) -> (r: Result<Self, Error>) where
        D: Deserializer + ThriftDeserializer,

        ensures
            match D::decode(Kind::I32, old(de).remaining()) {
                Ok((item, n)) => r == Ok::<u32, Error>((item->I32_0) as u32) && advanced(
                    old(de).remaining(),
                    final(de).remaining(),
                    n,
                ),
                Err(e) => r == Err::<u32, Error>(e) && final(de).remaining() == old(de).remaining(),
            },
    {
        proof {
            lemma_stayed(de.remaining());
        }
        de.deserialize_u32()
    }
}

impl Deserialize for i32 {
    fn deserialize<D>(de: &mut D) -> (r: Result<Self, Error>) where
        D: Deserializer + ThriftDeserializer,

        ensures
            match D::decode(Kind::I32, old(de).remaining()) {
                Ok((item, n)) => r == Ok::<i32, Error>(item->I32_0) && advanced(
                    old(de).remaining(),
                    final(de).remaining(),
                    n,
                ),
                Err(e) => r == Err::<i32, Error>(e) && final(de).remaining() == old(de).remaining(),
            },
    {
        proof {
            lemma_stayed(de.remaining());
        }
        de.deserialize_i32()
    }
}

impl Deserialize for u64 {
    fn deserialize<D>(de: &mut D) -> (r: Result<Self, Error>) where
        D: Deserializer + ThriftDeserializer,

        ensures
            match D::decode(Kind::I64, old(de).remaining()) {
                Ok((item, n)) => r == Ok::<u64, Error>((item->I64_0) as u64) && advanced(
                    old(de).remaining(),
                    final(de).remaining(),
                    n,
                ),
                Err(e) => r == Err::<u64, Error>(e) && final(de).remaining() == old(de).remaining(),
            },
    {
        proof {
            lemma_stayed(de.remaining());
        }
        de.deserialize_u64()
    }
}

impl Deserialize for i64 {
    fn deserialize<D>(de: &mut D) -> (r: Result<Self, Error>) where
        D: Deserializer + ThriftDeserializer,

        ensures
            match D::decode(Kind::I64, old(de).remaining()) {
                Ok((item, n)) => r == Ok::<i64, Error>(item->I64_0) && advanced(
                    old(de).remaining(),
                    final(de).remaining(),
                    n,
                ),
                Err(e) => r == Err::<i64, Error>(e) && final(de).remaining() == old(de).remaining(),
            },
    {
        proof {
            lemma_stayed(de.remaining());
        }
        de.deserialize_i64()
    }
}

impl Deserialize for String {
    fn deserialize<D>(de: &mut D) -> (r: Result<Self, Error>) where
        D: Deserializer + ThriftDeserializer,

        ensures
            match D::decode(Kind::Str, old(de).remaining()) {
                Ok((item, n)) => r is Ok && r->Ok_0@ == item->Str_0 && advanced(
                    old(de).remaining(),
                    final(de).remaining(),
                    n,
                ),
                Err(e) => r is Err && r->Err_0 == e && final(de).remaining() == old(de).remaining(),
            },
    {
        proof {
            lemma_stayed(de.remaining());
        }
        de.deserialize_str()
    }
}

impl Serialize for () {
    open spec fn items(&self) -> Seq<Item> {
        Seq::empty()
    }

    /// Nothing is written for the unit value, and that cannot fail.
    fn serialize<S>(&self, s: &mut S) -> (r: Result<(), Error>) where
        S: Serializer + ThriftSerializer,

        ensures
            r is Ok,
            *final(s) == *old(s),
    {
        assert(s.written() + encode_all::<S>(Seq::empty()) =~= s.written());
        Ok(())
    }
}

impl Serialize for bool {
    open spec fn items(&self) -> Seq<Item> {
        seq![Item::Bool(*self)]
    }

    fn serialize<S>(&self, s: &mut S) -> (r: Result<(), Error>) where
        S: Serializer + ThriftSerializer,
     {
        proof {
            lemma_encode_one::<S>(Item::Bool(*self));
        }
        s.serialize_bool(*self)
    }
}

impl<'a> Serialize for &'a str {
    open spec fn items(&self) -> Seq<Item> {
        seq![Item::Str(self@)]
    }

    fn serialize<S>(&self, s: &mut S) -> (r: Result<(), Error>) where
        S: Serializer + ThriftSerializer,
     {
        proof {
            lemma_encode_one::<S>(Item::Str(self@));
        }
        s.serialize_str(self)
    }
}

impl Serialize for String {
    open spec fn items(&self) -> Seq<Item> {
        seq![Item::Str(self@)]
    }

    fn serialize<S>(&self, s: &mut S) -> (r: Result<(), Error>) where
        S: Serializer + ThriftSerializer,
     {
        proof {
            lemma_encode_one::<S>(Item::Str(self@));
        }
        s.serialize_string(self.clone())
    }
}

impl Serialize for usize {
    open spec fn items(&self) -> Seq<Item> {
        seq![Item::I64((*self as isize) as i64)]
    }

    fn serialize<S>(&self, s: &mut S) -> (r: Result<(), Error>) where
        S: Serializer + ThriftSerializer,
     {
        proof {
            lemma_encode_one::<S>(Item::I64((*self as isize) as i64));
        }
        s.serialize_usize(*self)
    }
}

impl Serialize for isize {
    open spec fn items(&self) -> Seq<Item> {
        seq![Item::I64(*self as i64)]
    }

    fn serialize<S>(&self, s: &mut S) -> (r: Result<(), Error>) where
        S: Serializer + ThriftSerializer,
     {
        proof {
            lemma_encode_one::<S>(Item::I64(*self as i64));
        }
        s.serialize_isize(*self)
    }
}

impl Serialize for u64 {
    open spec fn items(&self) -> Seq<Item> {
        seq![Item::I64(*self as i64)]
    }

    fn serialize<S>(&self, s: &mut S) -> (r: Result<(), Error>) where
        S: Serializer + ThriftSerializer,
     {
        proof {
            lemma_encode_one::<S>(Item::I64(*self as i64));
        }
        s.serialize_u64(*self)
    }
}

impl Serialize for i64 {
    open spec fn items(&self) -> Seq<Item> {
        seq![Item::I64(*self)]
    }

    fn serialize<S>(&self, s: &mut S) -> (r: Result<(), Error>) where
        S: Serializer + ThriftSerializer,
     {
        proof {
            lemma_encode_one::<S>(Item::I64(*self));
        }
        s.serialize_i64(*self)
    }
}

impl Serialize for i32 {
    open spec fn items(&self) -> Seq<Item> {
        seq![Item::I32(*self)]
    }

    fn serialize<S>(&self, s: &mut S) -> (r: Result<(), Error>) where
        S: Serializer + ThriftSerializer,
     {
        proof {
            lemma_encode_one::<S>(Item::I32(*self));
        }
        s.serialize_i32(*self)
    }
}

impl Serialize for u32 {
    open spec fn items(&self) -> Seq<Item> {
        seq![Item::I32(*self as i32)]
    }

    fn serialize<S>(&self, s: &mut S) -> (r: Result<(), Error>) where
        S: Serializer + ThriftSerializer,
     {
        proof {
            lemma_encode_one::<S>(Item::I32(*self as i32));
        }
        s.serialize_u32(*self)
    }
}

impl Serialize for u16 {
    open spec fn items(&self) -> Seq<Item> {
        seq![Item::I16(*self as i16)]
    }

    fn serialize<S>(&self, s: &mut S) -> (r: Result<(), Error>) where
        S: Serializer + ThriftSerializer,
     {
        proof {
            lemma_encode_one::<S>(Item::I16(*self as i16));
        }
        s.serialize_u16(*self)
    }
}

impl Serialize for i16 {
    open spec fn items(&self) -> Seq<Item> {
        seq![Item::I16(*self)]
    }

    fn serialize<S>(&self, s: &mut S) -> (r: Result<(), Error>) where
        S: Serializer + ThriftSerializer,
     {
        proof {
            lemma_encode_one::<S>(Item::I16(*self));
        }
        s.serialize_i16(*self)
    }
}

impl Serialize for i8 {
    open spec fn items(&self) -> Seq<Item> {
        seq![Item::Byte(*self)]
    }

    fn serialize<S>(&self, s: &mut S) -> (r: Result<(), Error>) where
        S: Serializer + ThriftSerializer,
     {
        proof {
            lemma_encode_one::<S>(Item::Byte(*self));
        }
        s.serialize_i8(*self)
    }
}

impl Serialize for u8 {
    open spec fn items(&self) -> Seq<Item> {
        seq![Item::Byte(*self as i8)]
    }

    fn serialize<S>(&self, s: &mut S) -> (r: Result<(), Error>) where
        S: Serializer + ThriftSerializer,
     {
        proof {
            lemma_encode_one::<S>(Item::Byte(*self as i8));
        }
        s.serialize_u8(*self)
    }
}

impl<'a> Serialize for &'a [u8] {
    open spec fn items(&self) -> Seq<Item> {
        seq![Item::Binary(self@)]
    }

    fn serialize<S>(&self, s: &mut S) -> (r: Result<(), Error>) where
        S: Serializer + ThriftSerializer,
     {
        proof {
            lemma_encode_one::<S>(Item::Binary(self@));
        }
        s.serialize_bytes(self)
    }
}

} // verus!
