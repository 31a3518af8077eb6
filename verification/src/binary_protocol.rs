//! The binary encoding of the protocol: every integer big-endian, every
//! string and byte block behind its 32-bit length, a message behind a
//! version word that also carries its type.

use crate::protocol::{
    advanced, Deserializer, Error, Item, Kind, Serializer, ThriftDeserializer, ThriftField,
    ThriftMessage, ThriftMessageType, ThriftSerializer, ThriftType,
};
use crate::text::{text_of, utf8};
use crate::wire::{
    be_i16, be_i32, be_i64, i16_at, i16_of, i32_at, i32_of, i64_at, i64_of, lemma_i16_round_trip,
    lemma_i32_round_trip, lemma_i64_round_trip, push_i16, push_i32, push_i64,
};
use vstd::prelude::*;
use vstd::slice::slice_to_vec;
use vstd::utf8::{decode_utf8, valid_utf8};

verus! {

/// The upper half of the version word of version 1 (`0x8001_0000`).
pub const THRIFT_VERSION_1: i32 = -0x7fff_0000;

/// The bits of the version word that hold the version (`0xffff_0000`).
pub const THRIFT_VERSION_MASK: i32 = -0x1_0000;

/// The bits of the version word that hold the message type.
pub const THRIFT_TYPE_MASK: i32 = 0x0000_00ff;

/// The version word of a message of type `ty`.
pub open spec fn version_word(ty: ThriftMessageType) -> i32 {
    THRIFT_VERSION_1 | (ty.code_spec() as i32)
}

/// The length field in front of `n` bytes. A length that does not fit is
/// cut to its low 32 bits.
pub open spec fn length_word(n: nat) -> i32 {
    (n as usize) as i32
}

/// The bytes of an item in the binary encoding. Where a struct begins and
/// where a struct, a field, a message, a list, a set or a map ends leaves no
/// byte, and the name of a field is not written.
pub open spec fn binary_encode(item: Item) -> Seq<u8> {
    match item {
        Item::Bool(b) => seq![if b { 1u8 } else { 0u8 }],
        Item::Byte(v) => seq![v as u8],
        Item::I16(v) => be_i16(v),
        Item::I32(v) => be_i32(v),
        Item::I64(v) => be_i64(v),
        Item::Binary(b) => be_i32(length_word(b.len())) + b,
        Item::Str(s) => be_i32(length_word(utf8(s).len())) + utf8(s),
        Item::MessageBegin(name, ty, seq) => be_i32(version_word(ty)) + (be_i32(
            length_word(utf8(name).len()),
        ) + utf8(name)) + be_i16(seq),
        Item::MessageEnd => Seq::empty(),
        Item::StructBegin(_) => Seq::empty(),
        Item::StructEnd => Seq::empty(),
        Item::FieldBegin(_, ty, id) => seq![ty.code_spec() as u8] + be_i16(id),
        Item::FieldEnd => Seq::empty(),
        Item::FieldStop => seq![0u8],
        Item::ListBegin(elem, size) => seq![elem.code_spec() as u8] + be_i32(size),
        Item::ListEnd => Seq::empty(),
        Item::SetBegin(elem, size) => seq![elem.code_spec() as u8] + be_i32(size),
        Item::SetEnd => Seq::empty(),
        Item::MapBegin(key, val, size) => seq![key.code_spec() as u8, val.code_spec() as u8]
            + be_i32(size),
        Item::MapEnd => Seq::empty(),
    }
}

/// The byte block at the head of `input`: a length that is not negative and
/// as many bytes behind it.
pub open spec fn decode_binary(input: Seq<u8>) -> Result<(Item, nat), Error> {
    if input.len() < 4 {
        Err(Error::Byteorder)
    } else {
        let n = i32_of(input);
        if n < 0 || input.len() - 4 < n {
            Err(Error::Byteorder)
        } else {
            Ok((Item::Binary(input.subrange(4, 4 + n)), (4 + n) as nat))
        }
    }
}

/// The text at the head of `input`: a byte block that is well-formed UTF-8.
pub open spec fn decode_str(input: Seq<u8>) -> Result<(Item, nat), Error> {
    match decode_binary(input) {
        Ok((item, n)) => if valid_utf8(item->Binary_0) {
            Ok((Item::Str(decode_utf8(item->Binary_0)), n))
        } else {
            Err(Error::Utf8Error)
        },
        Err(e) => Err(e),
    }
}

/// The message header at the head of `input`: a version word with its top
/// bit set and version 1 in its upper half, the name, and the sequence id.
/// The lowest byte of the version word is the code of the message type.
pub open spec fn decode_message_begin(input: Seq<u8>) -> Result<(Item, nat), Error> {
    if input.len() < 4 {
        Err(Error::Byteorder)
    } else {
        let word = i32_of(input);
        if word >= 0 {
            Err(Error::ProtocolVersionMissing)
        } else if word & THRIFT_VERSION_MASK != THRIFT_VERSION_1 {
            Err(Error::BadVersion)
        } else {
            match decode_str(input.skip(4)) {
                Err(e) => Err(e),
                Ok((name, n)) => {
                    let code = (word & THRIFT_TYPE_MASK) as i8;
                    match ThriftMessageType::of_code(code) {
                        None => Err(Error::UnknownType(code)),
                        Some(ty) => if input.len() - 4 - n < 2 {
                            Err(Error::Byteorder)
                        } else {
                            Ok(
                                (
                                    Item::MessageBegin(
                                        name->Str_0,
                                        ty,
                                        i16_of(input.skip(4 + n as int)),
                                    ),
                                    (4 + n + 2) as nat,
                                ),
                            )
                        },
                    }
                },
            }
        }
    }
}

/// The field header at the head of `input`: a type code and, unless the
/// type is `Stop`, the id of the field. The binary encoding carries no field
/// name.
pub open spec fn decode_field_begin(input: Seq<u8>) -> Result<(Item, nat), Error> {
    if input.len() < 1 {
        Err(Error::Byteorder)
    } else {
        let code = input[0] as i8;
        match ThriftType::of_code(code) {
            None => Err(Error::UnknownType(code)),
            Some(ty) => if ty == ThriftType::Stop {
                Ok((Item::FieldBegin(None, ThriftType::Stop, 0), 1))
            } else if input.len() < 3 {
                Err(Error::Byteorder)
            } else {
                Ok((Item::FieldBegin(None, ty, i16_of(input.skip(1))), 3))
            },
        }
    }
}

/// The header of a list or a set at the head of `input`: the type code of
/// the elements and their number, which is not negative.
pub open spec fn decode_elements(input: Seq<u8>) -> Result<(ThriftType, i32), Error> {
    if input.len() < 1 {
        Err(Error::Byteorder)
    } else {
        let code = input[0] as i8;
        match ThriftType::of_code(code) {
            None => Err(Error::UnknownType(code)),
            Some(elem) => if input.len() < 5 || i32_of(input.skip(1)) < 0 {
                Err(Error::Byteorder)
            } else {
                Ok((elem, i32_of(input.skip(1))))
            },
        }
    }
}

/// The header of a map at the head of `input`: the type codes of the keys
/// and of the values and the number of pairs, which is not negative.
pub open spec fn decode_map_begin(input: Seq<u8>) -> Result<(Item, nat), Error> {
    if input.len() < 1 {
        Err(Error::Byteorder)
    } else {
        let key_code = input[0] as i8;
        match ThriftType::of_code(key_code) {
            None => Err(Error::UnknownType(key_code)),
            Some(key) => if input.len() < 2 {
                Err(Error::Byteorder)
            } else {
                let val_code = input[1] as i8;
                match ThriftType::of_code(val_code) {
                    None => Err(Error::UnknownType(val_code)),
                    Some(val) => if input.len() < 6 || i32_of(input.skip(2)) < 0 {
                        Err(Error::Byteorder)
                    } else {
                        Ok((Item::MapBegin(key, val, i32_of(input.skip(2))), 6))
                    },
                }
            },
        }
    }
}

/// The item of kind `kind` at the head of `input` in the binary encoding,
/// with the number of bytes it takes, or why there is none. A boolean is
/// true for every byte but 0.
pub open spec fn binary_decode(kind: Kind, input: Seq<u8>) -> Result<(Item, nat), Error> {
    match kind {
        Kind::Bool => if input.len() < 1 {
            Err(Error::Byteorder)
        } else {
            Ok((Item::Bool(input[0] as i8 != 0), 1))
        },
        Kind::Byte => if input.len() < 1 {
            Err(Error::Byteorder)
        } else {
            Ok((Item::Byte(input[0] as i8), 1))
        },
        Kind::I16 => if input.len() < 2 {
            Err(Error::Byteorder)
        } else {
            Ok((Item::I16(i16_of(input)), 2))
        },
        Kind::I32 => if input.len() < 4 {
            Err(Error::Byteorder)
        } else {
            Ok((Item::I32(i32_of(input)), 4))
        },
        Kind::I64 => if input.len() < 8 {
            Err(Error::Byteorder)
        } else {
            Ok((Item::I64(i64_of(input)), 8))
        },
        Kind::Binary => decode_binary(input),
        Kind::Str => decode_str(input),
        Kind::MessageBegin => decode_message_begin(input),
        Kind::MessageEnd => Ok((Item::MessageEnd, 0)),
        Kind::StructBegin => Ok((Item::StructBegin(Seq::empty()), 0)),
        Kind::StructEnd => Ok((Item::StructEnd, 0)),
        Kind::FieldBegin => decode_field_begin(input),
        Kind::FieldEnd => Ok((Item::FieldEnd, 0)),
        Kind::ListBegin => match decode_elements(input) {
            Ok((elem, size)) => Ok((Item::ListBegin(elem, size), 5)),
            Err(e) => Err(e),
        },
        Kind::ListEnd => Ok((Item::ListEnd, 0)),
        Kind::SetBegin => match decode_elements(input) {
            Ok((elem, size)) => Ok((Item::SetBegin(elem, size), 5)),
            Err(e) => Err(e),
        },
        Kind::SetEnd => Ok((Item::SetEnd, 0)),
        Kind::MapBegin => decode_map_begin(input),
        Kind::MapEnd => Ok((Item::MapEnd, 0)),
    }
}

/// Writes the binary encoding to the end of a byte buffer.
///
/// The serializer borrows its buffer. Besides what the traits ask for,
/// each of its methods promises that the write succeeds and that the
/// serializer stays on the buffer it was made for (the clause on `wr`), so
/// that the buffer holds, once the serializer is gone, what was written.
pub struct BinarySerializer<'a> {
    pub wr: &'a mut Vec<u8>,
}

impl<'a> BinarySerializer<'a> {
    /// A serializer that appends to `wr`. What `wr` holds in the end is what
    /// the serializer has written when it is dropped.
    pub fn new(wr: &'a mut Vec<u8>) -> (s: BinarySerializer<'a>)
        ensures
            s.written() == old(wr)@,
            *final(wr) == *final(s.wr),
    {
        BinarySerializer { wr: wr }
    }
}

impl<'a> Serializer for BinarySerializer<'a> {
    open spec fn written(&self) -> Seq<u8> {
        (*self.wr)@
    }

    open spec fn encode(item: Item) -> Seq<u8> {
        binary_encode(item)
    }

    /// The sink is a vector in memory, which takes whatever it is given.
    open spec fn reliable(&self) -> bool {
        true
    }

    fn serialize_bool(&mut self, val: bool) -> (r: Result<(), Error>)
        ensures
            r is Ok,
            *final(final(self).wr) == *final(old(self).wr),
    {
        if val {
            self.serialize_i8(1)
        } else {
            self.serialize_i8(0)
        }
    }

    fn serialize_usize(&mut self, val: usize) -> (r: Result<(), Error>)
        ensures
            r is Ok,
            *final(final(self).wr) == *final(old(self).wr),
    {
        self.serialize_isize(#[verifier::truncate] (val as isize))
    }

    fn serialize_isize(&mut self, val: isize) -> (r: Result<(), Error>)
        ensures
            r is Ok,
            *final(final(self).wr) == *final(old(self).wr),
    {
        self.serialize_i64(val as i64)
    }

    fn serialize_u64(&mut self, val: u64) -> (r: Result<(), Error>)
        ensures
            r is Ok,
            *final(final(self).wr) == *final(old(self).wr),
    {
        self.serialize_i64(#[verifier::truncate] (val as i64))
    }

    fn serialize_i64(&mut self, val: i64) -> (r: Result<(), Error>)
        ensures
            r is Ok,
            *final(final(self).wr) == *final(old(self).wr),
    {
        push_i64(self.wr, val);
        Ok(())
    }

    fn serialize_u32(&mut self, val: u32) -> (r: Result<(), Error>)
        ensures
            r is Ok,
            *final(final(self).wr) == *final(old(self).wr),
    {
        self.serialize_i32(#[verifier::truncate] (val as i32))
    }

    fn serialize_i32(&mut self, val: i32) -> (r: Result<(), Error>)
        ensures
            r is Ok,
            *final(final(self).wr) == *final(old(self).wr),
    {
        push_i32(self.wr, val);
        Ok(())
    }

    fn serialize_u16(&mut self, val: u16) -> (r: Result<(), Error>)
        ensures
            r is Ok,
            *final(final(self).wr) == *final(old(self).wr),
    {
        self.serialize_i16(#[verifier::truncate] (val as i16))
    }

    fn serialize_i16(&mut self, val: i16) -> (r: Result<(), Error>)
        ensures
            r is Ok,
            *final(final(self).wr) == *final(old(self).wr),
    {
        push_i16(self.wr, val);
        Ok(())
    }

    fn serialize_u8(&mut self, val: u8) -> (r: Result<(), Error>)
        ensures
            r is Ok,
            *final(final(self).wr) == *final(old(self).wr),
    {
        self.serialize_i8(#[verifier::truncate] (val as i8))
    }

    fn serialize_i8(&mut self, val: i8) -> (r: Result<(), Error>)
        ensures
            r is Ok,
            *final(final(self).wr) == *final(old(self).wr),
    {
        self.wr.push(#[verifier::truncate] (val as u8));
        assert(self.wr@ =~= old(self).wr@ + binary_encode(Item::Byte(val)));
        Ok(())
    }

    fn serialize_bytes(&mut self, val: &[u8]) -> (r: Result<(), Error>)
        ensures
            r is Ok,
            *final(final(self).wr) == *final(old(self).wr),
    {
        let len: usize = val.len();
        push_i32(self.wr, #[verifier::truncate] (len as i32));
        self.wr.extend_from_slice(val);
        assert(self.wr@ =~= old(self).wr@ + binary_encode(Item::Binary(val@)));
        Ok(())
    }

    fn serialize_str(&mut self, val: &str) -> (r: Result<(), Error>)
        ensures
            r is Ok,
            *final(final(self).wr) == *final(old(self).wr),
    {
        self.serialize_bytes(val.as_bytes())
    }

    fn serialize_string(&mut self, val: String) -> (r: Result<(), Error>)
        ensures
            r is Ok,
            *final(final(self).wr) == *final(old(self).wr),
    {
        self.serialize_str(val.as_str())
    }
}

impl<'a> ThriftSerializer for BinarySerializer<'a> {
    fn write_message_begin(&mut self, name: &str, message_type: ThriftMessageType) -> (r: Result<
        (),
        Error,
    >)
        ensures
            r is Ok,
            *final(final(self).wr) == *final(old(self).wr),
    {
        let version: i32 = THRIFT_VERSION_1 | (message_type.code() as i32);
        let ghost before = self.wr@;
        self.serialize_i32(version)?;
        self.serialize_str(name)?;
        self.serialize_i16(0)?;
        assert(self.wr@ =~= before + binary_encode(Item::MessageBegin(name@, message_type, 0)));
        Ok(())
    }

    fn write_struct_begin(&mut self, name: &str) -> (r: Result<(), Error>)
        ensures
            r is Ok,
            *final(final(self).wr) == *final(old(self).wr),
    {
        assert(self.wr@ + binary_encode(Item::StructBegin(name@)) =~= self.wr@);
        Ok(())
    }

    fn write_struct_end(&mut self) -> (r: Result<(), Error>)
        ensures
            r is Ok,
            *final(final(self).wr) == *final(old(self).wr),
    {
        assert(self.wr@ + binary_encode(Item::StructEnd) =~= self.wr@);
        Ok(())
    }

    fn write_field_begin(&mut self, name: &str, ty: ThriftType, id: i16) -> (r: Result<(), Error>)
        ensures
            r is Ok,
            *final(final(self).wr) == *final(old(self).wr),
    {
        let ghost before = self.wr@;
        self.serialize_i8(ty.code())?;
        self.serialize_i16(id)?;
        assert(self.wr@ =~= before + binary_encode(Item::FieldBegin(Some(name@), ty, id)));
        Ok(())
    }

    fn write_field_end(&mut self) -> (r: Result<(), Error>)
        ensures
            r is Ok,
            *final(final(self).wr) == *final(old(self).wr),
    {
        assert(self.wr@ + binary_encode(Item::FieldEnd) =~= self.wr@);
        Ok(())
    }

    fn write_field_stop(&mut self) -> (r: Result<(), Error>)
        ensures
            r is Ok,
            *final(final(self).wr) == *final(old(self).wr),
    {
        self.serialize_i8(ThriftType::Stop.code())?;
        Ok(())
    }

    fn write_message_end(&mut self) -> (r: Result<(), Error>)
        ensures
            r is Ok,
            *final(final(self).wr) == *final(old(self).wr),
    {
        assert(self.wr@ + binary_encode(Item::MessageEnd) =~= self.wr@);
        Ok(())
    }

    fn write_list_begin(&mut self, elem: ThriftType, size: i32) -> (r: Result<(), Error>)
        ensures
            r is Ok,
            *final(final(self).wr) == *final(old(self).wr),
    {
        let ghost before = self.wr@;
        self.serialize_i8(elem.code())?;
        self.serialize_i32(size)?;
        assert(self.wr@ =~= before + binary_encode(Item::ListBegin(elem, size)));
        Ok(())
    }

    fn write_list_end(&mut self) -> (r: Result<(), Error>)
        ensures
            r is Ok,
            *final(final(self).wr) == *final(old(self).wr),
    {
        assert(self.wr@ + binary_encode(Item::ListEnd) =~= self.wr@);
        Ok(())
    }

    fn write_set_begin(&mut self, elem: ThriftType, size: i32) -> (r: Result<(), Error>)
        ensures
            r is Ok,
            *final(final(self).wr) == *final(old(self).wr),
    {
        let ghost before = self.wr@;
        self.serialize_i8(elem.code())?;
        self.serialize_i32(size)?;
        assert(self.wr@ =~= before + binary_encode(Item::SetBegin(elem, size)));
        Ok(())
    }

    fn write_set_end(&mut self) -> (r: Result<(), Error>)
        ensures
            r is Ok,
            *final(final(self).wr) == *final(old(self).wr),
    {
        assert(self.wr@ + binary_encode(Item::SetEnd) =~= self.wr@);
        Ok(())
    }

    fn write_map_begin(&mut self, key: ThriftType, val: ThriftType, size: i32) -> (r: Result<
        (),
        Error,
    >)
        ensures
            r is Ok,
            *final(final(self).wr) == *final(old(self).wr),
    {
        let ghost before = self.wr@;
        self.serialize_i8(key.code())?;
        self.serialize_i8(val.code())?;
        self.serialize_i32(size)?;
        assert(self.wr@ =~= before + binary_encode(Item::MapBegin(key, val, size)));
        Ok(())
    }

    fn write_map_end(&mut self) -> (r: Result<(), Error>)
        ensures
            r is Ok,
            *final(final(self).wr) == *final(old(self).wr),
    {
        assert(self.wr@ + binary_encode(Item::MapEnd) =~= self.wr@);
        Ok(())
    }
}

/// Reads the binary encoding from a block of bytes, front to back. A read
/// that fails leaves the reader where it stood.
pub struct BinaryDeserializer {
    rd: Vec<u8>,
    pos: usize,
}

impl BinaryDeserializer {
    #[verifier::type_invariant]
    spec fn in_bounds(self) -> bool {
        self.pos <= self.rd@.len()
    }

    /// A deserializer that stands at the start of `rd`.
    pub fn new(rd: Vec<u8>) -> (de: BinaryDeserializer)
        ensures
            de.remaining() == rd@,
    {
        BinaryDeserializer { rd: rd, pos: 0 }
    }

    /// The byte at `at` and the place behind it.
    fn peek_i8(&self, at: usize) -> (r: Result<(i8, usize), Error>)
        requires
            at <= self.rd@.len(),
        ensures
            match binary_decode(Kind::Byte, self.rd@.skip(at as int)) {
                Ok((item, n)) => r is Ok && r->Ok_0.0 == item->Byte_0 && r->Ok_0.1 == at + n && at
                    + n <= self.rd@.len(),
                Err(e) => r == Err::<(i8, usize), Error>(e),
            },
    {
        if self.rd.len() - at < 1 {
            return Err(Error::Byteorder);
        }
        let b: u8 = self.rd[at];
        Ok((#[verifier::truncate] (b as i8), at + 1))
    }

    /// The 16-bit integer at `at` and the place behind it.
    fn peek_i16(&self, at: usize) -> (r: Result<(i16, usize), Error>)
        requires
            at <= self.rd@.len(),
        ensures
            match binary_decode(Kind::I16, self.rd@.skip(at as int)) {
                Ok((item, n)) => r is Ok && r->Ok_0.0 == item->I16_0 && r->Ok_0.1 == at + n && at
                    + n <= self.rd@.len(),
                Err(e) => r == Err::<(i16, usize), Error>(e),
            },
    {
        if self.rd.len() - at < 2 {
            return Err(Error::Byteorder);
        }
        Ok((i16_at(self.rd.as_slice(), at), at + 2))
    }

    /// The 32-bit integer at `at` and the place behind it.
    fn peek_i32(&self, at: usize) -> (r: Result<(i32, usize), Error>)
        requires
            at <= self.rd@.len(),
        ensures
            match binary_decode(Kind::I32, self.rd@.skip(at as int)) {
                Ok((item, n)) => r is Ok && r->Ok_0.0 == item->I32_0 && r->Ok_0.1 == at + n && at
                    + n <= self.rd@.len(),
                Err(e) => r == Err::<(i32, usize), Error>(e),
            },
    {
        if self.rd.len() - at < 4 {
            return Err(Error::Byteorder);
        }
        Ok((i32_at(self.rd.as_slice(), at), at + 4))
    }

    /// The 64-bit integer at `at` and the place behind it.
    fn peek_i64(&self, at: usize) -> (r: Result<(i64, usize), Error>)
        requires
            at <= self.rd@.len(),
        ensures
            match binary_decode(Kind::I64, self.rd@.skip(at as int)) {
                Ok((item, n)) => r is Ok && r->Ok_0.0 == item->I64_0 && r->Ok_0.1 == at + n && at
                    + n <= self.rd@.len(),
                Err(e) => r == Err::<(i64, usize), Error>(e),
            },
    {
        if self.rd.len() - at < 8 {
            return Err(Error::Byteorder);
        }
        Ok((i64_at(self.rd.as_slice(), at), at + 8))
    }

    /// The byte block at `at` and the place behind it.
    fn peek_bytes(&self, at: usize) -> (r: Result<(Vec<u8>, usize), Error>)
        requires
            at <= self.rd@.len(),
        ensures
            match binary_decode(Kind::Binary, self.rd@.skip(at as int)) {
                Ok((item, n)) => r is Ok && r->Ok_0.0@ == item->Binary_0 && r->Ok_0.1 == at + n
                    && at + n <= self.rd@.len(),
                Err(e) => r is Err && r->Err_0 == e,
            },
    {
        let ghost input = self.rd@.skip(at as int);
        let (len, body) = self.peek_i32(at)?;
        if len < 0 {
            return Err(Error::Byteorder);
        }
        let n: usize = len as usize;
        if self.rd.len() - body < n {
            return Err(Error::Byteorder);
        }
        let buf = slice_to_vec(&self.rd[body..body + n]);
        assert(buf@ =~= input.subrange(4, 4 + n));
        Ok((buf, body + n))
    }

    /// The text at `at` and the place behind it.
    fn peek_str(&self, at: usize) -> (r: Result<(String, usize), Error>)
        requires
            at <= self.rd@.len(),
        ensures
            match binary_decode(Kind::Str, self.rd@.skip(at as int)) {
                Ok((item, n)) => r is Ok && r->Ok_0.0@ == item->Str_0 && r->Ok_0.1 == at + n
                    && at + n <= self.rd@.len(),
                Err(e) => r is Err && r->Err_0 == e,
            },
    {
        let (buf, next) = self.peek_bytes(at)?;
        match text_of(buf) {
            Some(s) => Ok((s, next)),
            None => Err(Error::Utf8Error),
        }
    }

    /// The type code at `at` and the place behind it.
    fn peek_type(&self, at: usize) -> (r: Result<(ThriftType, usize), Error>)
        requires
            at <= self.rd@.len(),
        ensures
            match r {
                Ok((ty, next)) => at < self.rd@.len() && next == at + 1 && ThriftType::of_code(
                    self.rd@[at as int] as i8,
                ) == Some(ty),
                Err(e) => if at < self.rd@.len() {
                    ThriftType::of_code(self.rd@[at as int] as i8) is None && e
                        == Error::UnknownType(self.rd@[at as int] as i8)
                } else {
                    e == Error::Byteorder
                },
            },
    {
        let (code, next) = self.peek_i8(at)?;
        Ok((ThriftType::from(code)?, next))
    }

    /// The header of a list or a set at `at` and the place behind it.
    fn peek_elements(&self, at: usize) -> (r: Result<((ThriftType, i32), usize), Error>)
        requires
            at <= self.rd@.len(),
        ensures
            match decode_elements(self.rd@.skip(at as int)) {
                Ok(header) => r is Ok && r->Ok_0.0 == header && r->Ok_0.1 == at + 5 && at + 5
                    <= self.rd@.len(),
                Err(e) => r == Err::<((ThriftType, i32), usize), Error>(e),
            },
    {
        let ghost input = self.rd@.skip(at as int);
        let (elem, body) = self.peek_type(at)?;
        assert(self.rd@.skip(body as int) =~= input.skip(1));
        let (size, next) = self.peek_i32(body)?;
        if size < 0 {
            return Err(Error::Byteorder);
        }
        Ok(((elem, size), next))
    }

    /// Moves behind what a look ahead has found, if it has found something.
    fn commit<T>(&mut self, found: Result<(T, usize), Error>) -> (r: Result<T, Error>)
        requires
            found matches Ok((_, next)) ==> old(self).pos <= next <= old(self).rd@.len(),
        ensures
            match found {
                Ok((value, next)) => r == Ok::<T, Error>(value) && advanced(
                    old(self).remaining(),
                    final(self).remaining(),
                    (next - old(self).pos) as nat,
                ),
                Err(e) => r == Err::<T, Error>(e) && final(self).remaining() == old(
                    self,
                ).remaining(),
            },
            final(self).rd == old(self).rd,
    {
        match found {
            Ok((value, next)) => {
                self.pos = next;
                assert(self.rd@.skip(next as int) =~= old(self).remaining().skip(
                    next - old(self).pos,
                ));
                Ok(value)
            },
            Err(e) => Err(e),
        }
    }

    /// Where the reader stands, which is inside its input.
    fn here(&self) -> (at: usize)
        ensures
            at == self.pos,
            at <= self.rd@.len(),
    {
        proof {
            use_type_invariant(self);
        }
        self.pos
    }
}

impl Deserializer for BinaryDeserializer {
    closed spec fn remaining(&self) -> Seq<u8> {
        self.rd@.skip(self.pos as int)
    }

    open spec fn decode(kind: Kind, input: Seq<u8>) -> Result<(Item, nat), Error> {
        binary_decode(kind, input)
    }

    fn deserialize_bool(&mut self) -> (r: Result<bool, Error>) {
        Ok(self.deserialize_i8()? != 0)
    }

    fn deserialize_usize(&mut self) -> (r: Result<usize, Error>) {
        Ok(#[verifier::truncate] (self.deserialize_isize()? as usize))
    }

    fn deserialize_isize(&mut self) -> (r: Result<isize, Error>) {
        Ok(#[verifier::truncate] (self.deserialize_i64()? as isize))
    }

    fn deserialize_u64(&mut self) -> (r: Result<u64, Error>) {
        Ok(#[verifier::truncate] (self.deserialize_i64()? as u64))
    }

    fn deserialize_i64(&mut self) -> (r: Result<i64, Error>) {
        let found = self.peek_i64(self.here());
        self.commit(found)
    }

    fn deserialize_u32(&mut self) -> (r: Result<u32, Error>) {
        Ok(#[verifier::truncate] (self.deserialize_i32()? as u32))
    }

    fn deserialize_i32(&mut self) -> (r: Result<i32, Error>) {
        let found = self.peek_i32(self.here());
        self.commit(found)
    }

    fn deserialize_u16(&mut self) -> (r: Result<u16, Error>) {
        Ok(#[verifier::truncate] (self.deserialize_i16()? as u16))
    }

    fn deserialize_i16(&mut self) -> (r: Result<i16, Error>) {
        let found = self.peek_i16(self.here());
        self.commit(found)
    }

    fn deserialize_u8(&mut self) -> (r: Result<u8, Error>) {
        Ok(#[verifier::truncate] (self.deserialize_i8()? as u8))
    }

    fn deserialize_i8(&mut self) -> (r: Result<i8, Error>) {
        let found = self.peek_i8(self.here());
        self.commit(found)
    }

    fn deserialize_bytes(&mut self) -> (r: Result<Vec<u8>, Error>) {
        let found = self.peek_bytes(self.here());
        self.commit(found)
    }

    fn deserialize_str(&mut self) -> (r: Result<String, Error>) {
        let found = self.peek_str(self.here());
        self.commit(found)
    }
}

impl ThriftDeserializer for BinaryDeserializer {
    fn read_message_begin(&mut self) -> (r: Result<ThriftMessage, Error>) {
        let at = self.here();
        let ghost input = self.remaining();
        let (size, body) = self.peek_i32(at)?;
        if size < 0 {
            let version: i32 = size & THRIFT_VERSION_MASK;
            if version != THRIFT_VERSION_1 {
                Err(Error::BadVersion)
            } else {
                assert(self.rd@.skip(body as int) =~= input.skip(4));
                let (name, tail) = self.peek_str(body)?;
                let ty = ThriftMessageType::from(#[verifier::truncate] ((size & THRIFT_TYPE_MASK) as i8))?;
                assert(self.rd@.skip(tail as int) =~= input.skip(tail - at));
                let (seq, next) = self.peek_i16(tail)?;
                self.pos = next;
                assert(self.remaining() =~= input.skip(next - at));
                Ok(ThriftMessage { name: name, ty: ty, seq: seq })
            }
        } else {
            Err(Error::ProtocolVersionMissing)
        }
    }

    fn read_message_end(&mut self) -> (r: Result<(), Error>) {
        assert(self.remaining().skip(0) =~= self.remaining());
        Ok(())
    }

    fn read_struct_begin(&mut self) -> (r: Result<String, Error>) {
        assert(self.remaining().skip(0) =~= self.remaining());
        Ok(String::new())
    }

    fn read_struct_end(&mut self) -> (r: Result<(), Error>) {
        assert(self.remaining().skip(0) =~= self.remaining());
        Ok(())
    }

    fn read_field_begin(&mut self) -> (r: Result<ThriftField, Error>) {
        let at = self.here();
        let ghost input = self.remaining();
        let (ty, body) = self.peek_type(at)?;
        let mut field = ThriftField { name: None, ty: ty, seq: 0 };
        if field.ty == ThriftType::Stop {
            self.pos = body;
            assert(self.remaining() =~= input.skip(1));
            Ok(field)
        } else {
            assert(self.rd@.skip(body as int) =~= input.skip(1));
            let (seq, next) = self.peek_i16(body)?;
            field.seq = seq;
            self.pos = next;
            assert(self.remaining() =~= input.skip(3));
            Ok(field)
        }
    }

    fn read_field_end(&mut self) -> (r: Result<(), Error>) {
        assert(self.remaining().skip(0) =~= self.remaining());
        Ok(())
    }

    fn read_list_begin(&mut self) -> (r: Result<(ThriftType, i32), Error>) {
        let found = self.peek_elements(self.here());
        self.commit(found)
    }

    fn read_list_end(&mut self) -> (r: Result<(), Error>) {
        assert(self.remaining().skip(0) =~= self.remaining());
        Ok(())
    }

    fn read_set_begin(&mut self) -> (r: Result<(ThriftType, i32), Error>) {
        let found = self.peek_elements(self.here());
        self.commit(found)
    }

    fn read_set_end(&mut self) -> (r: Result<(), Error>) {
        assert(self.remaining().skip(0) =~= self.remaining());
        Ok(())
    }

    fn read_map_begin(&mut self) -> (r: Result<(ThriftType, ThriftType, i32), Error>) {
        let at = self.here();
        let ghost input = self.remaining();
        let (key, second) = self.peek_type(at)?;
        let (val, body) = self.peek_type(second)?;
        assert(self.rd@.skip(body as int) =~= input.skip(2));
        let (size, next) = self.peek_i32(body)?;
        if size < 0 {
            return Err(Error::Byteorder);
        }
        self.pos = next;
        assert(self.remaining() =~= input.skip(6));
        Ok((key, val, size))
    }

    fn read_map_end(&mut self) -> (r: Result<(), Error>) {
        assert(self.remaining().skip(0) =~= self.remaining());
        Ok(())
    }
}

/// The kind under which an item is read.
pub open spec fn kind_of(item: Item) -> Kind {
    match item {
        Item::Bool(_) => Kind::Bool,
        Item::Byte(_) => Kind::Byte,
        Item::I16(_) => Kind::I16,
        Item::I32(_) => Kind::I32,
        Item::I64(_) => Kind::I64,
        Item::Binary(_) => Kind::Binary,
        Item::Str(_) => Kind::Str,
        Item::MessageBegin(_, _, _) => Kind::MessageBegin,
        Item::MessageEnd => Kind::MessageEnd,
        Item::StructBegin(_) => Kind::StructBegin,
        Item::StructEnd => Kind::StructEnd,
        Item::FieldBegin(_, _, _) => Kind::FieldBegin,
        Item::FieldEnd => Kind::FieldEnd,
        Item::FieldStop => Kind::FieldBegin,
        Item::ListBegin(_, _) => Kind::ListBegin,
        Item::ListEnd => Kind::ListEnd,
        Item::SetBegin(_, _) => Kind::SetBegin,
        Item::SetEnd => Kind::SetEnd,
        Item::MapBegin(_, _, _) => Kind::MapBegin,
        Item::MapEnd => Kind::MapEnd,
    }
}

/// The items that the binary encoding carries in full: a length must fit
/// in 31 bits, a number of elements must not be negative, and what the
/// encoding leaves out (the names of structs and fields) must be absent. A
/// field header of type `Stop` and the stop mark are read back as one and the
/// same header and are left out here.
pub open spec fn carried_in_full(item: Item) -> bool {
    match item {
        Item::Binary(b) => b.len() <= i32::MAX,
        Item::Str(s) => utf8(s).len() <= i32::MAX,
        Item::MessageBegin(name, _, _) => utf8(name).len() <= i32::MAX,
        Item::StructBegin(name) => name == Seq::<char>::empty(),
        Item::FieldBegin(name, ty, _) => name is None && ty != ThriftType::Stop,
        Item::FieldStop => false,
        Item::ListBegin(_, size) => size >= 0,
        Item::SetBegin(_, size) => size >= 0,
        Item::MapBegin(_, _, size) => size >= 0,
        _ => true,
    }
}

proof fn lemma_version_word(ty: ThriftMessageType)
    ensures
        version_word(ty) < 0,
        version_word(ty) & THRIFT_VERSION_MASK == THRIFT_VERSION_1,
        (version_word(ty) & THRIFT_TYPE_MASK) as i8 == ty.code_spec(),
{
    let c: i32 = ty.code_spec() as i32;
    assert(1 <= c <= 4);
    assert({
        let w = (-0x7fff_0000i32) | c;
        w < 0 && w & (-0x1_0000i32) == -0x7fff_0000i32 && (w & 0xffi32) as i8 == c
    }) by (bit_vector)
        requires
            1 <= c <= 4,
    ;
}

proof fn lemma_binary_round_trip(b: Seq<u8>, rest: Seq<u8>)
    requires
        b.len() <= i32::MAX,
    ensures
        decode_binary(binary_encode(Item::Binary(b)) + rest) == Ok::<(Item, nat), Error>(
            (Item::Binary(b), (4 + b.len()) as nat),
        ),
        binary_encode(Item::Binary(b)).len() == 4 + b.len(),
{
    let n = length_word(b.len());
    assert(n == b.len());
    let input = binary_encode(Item::Binary(b)) + rest;
    lemma_i32_round_trip(n, b + rest);
    assert(input =~= be_i32(n) + (b + rest));
    assert(input.subrange(4, 4 + n) =~= b);
}

proof fn lemma_str_round_trip(s: Seq<char>, rest: Seq<u8>)
    requires
        utf8(s).len() <= i32::MAX,
    ensures
        decode_str(binary_encode(Item::Str(s)) + rest) == Ok::<(Item, nat), Error>(
            (Item::Str(s), (4 + utf8(s).len()) as nat),
        ),
        binary_encode(Item::Str(s)).len() == 4 + utf8(s).len(),
{
    lemma_binary_round_trip(utf8(s), rest);
    vstd::utf8::encode_utf8_valid_utf8(s);
    vstd::utf8::encode_utf8_decode_utf8(s);
    assert(binary_encode(Item::Str(s)) == binary_encode(Item::Binary(utf8(s))));
}

proof fn lemma_message_begin_round_trip(
    name: Seq<char>,
    ty: ThriftMessageType,
    seq: i16,
    rest: Seq<u8>,
)
    requires
        utf8(name).len() <= i32::MAX,
    ensures
        decode_message_begin(binary_encode(Item::MessageBegin(name, ty, seq)) + rest) == Ok::<
            (Item, nat),
            Error,
        >((Item::MessageBegin(name, ty, seq), binary_encode(Item::MessageBegin(name, ty, seq)).len())),
{
    let input = binary_encode(Item::MessageBegin(name, ty, seq)) + rest;
    let word = version_word(ty);
    let body = binary_encode(Item::Str(name));
    let tail = be_i16(seq) + rest;
    lemma_version_word(ty);
    ty.lemma_code_round_trip();
    lemma_i32_round_trip(word, body + tail);
    assert(input =~= be_i32(word) + (body + tail));
    assert(input.skip(4) =~= body + tail);
    lemma_str_round_trip(name, tail);
    let n = body.len();
    assert(input.skip(4 + n as int) =~= tail);
    lemma_i16_round_trip(seq, rest);
    assert(input.len() == 4 + n + 2 + rest.len());
    assert(binary_encode(Item::MessageBegin(name, ty, seq)).len() == 4 + n + 2);
}

proof fn lemma_field_begin_round_trip(ty: ThriftType, id: i16, rest: Seq<u8>)
    requires
        ty != ThriftType::Stop,
    ensures
        decode_field_begin(binary_encode(Item::FieldBegin(None, ty, id)) + rest) == Ok::<
            (Item, nat),
            Error,
        >((Item::FieldBegin(None, ty, id), 3)),
{
    let input = binary_encode(Item::FieldBegin(None, ty, id)) + rest;
    let c = ty.code_spec();
    assert((c as u8) as i8 == c) by (bit_vector);
    ty.lemma_code_round_trip();
    assert(input[0] == c as u8);
    assert(input.skip(1) =~= be_i16(id) + rest);
    lemma_i16_round_trip(id, rest);
}

proof fn lemma_elements_round_trip(elem: ThriftType, size: i32, rest: Seq<u8>)
    requires
        size >= 0,
    ensures
        decode_elements(seq![elem.code_spec() as u8] + be_i32(size) + rest) == Ok::<
            (ThriftType, i32),
            Error,
        >((elem, size)),
        (seq![elem.code_spec() as u8] + be_i32(size)).len() == 5,
{
    let input = seq![elem.code_spec() as u8] + be_i32(size) + rest;
    let c = elem.code_spec();
    assert((c as u8) as i8 == c) by (bit_vector);
    elem.lemma_code_round_trip();
    assert(input[0] == c as u8);
    assert(input.skip(1) =~= be_i32(size) + rest);
    lemma_i32_round_trip(size, rest);
}

proof fn lemma_map_begin_round_trip(key: ThriftType, val: ThriftType, size: i32, rest: Seq<u8>)
    requires
        size >= 0,
    ensures
        decode_map_begin(binary_encode(Item::MapBegin(key, val, size)) + rest) == Ok::<
            (Item, nat),
            Error,
        >((Item::MapBegin(key, val, size), 6)),
        binary_encode(Item::MapBegin(key, val, size)).len() == 6,
{
    let input = binary_encode(Item::MapBegin(key, val, size)) + rest;
    let k = key.code_spec();
    let v = val.code_spec();
    assert((k as u8) as i8 == k) by (bit_vector);
    assert((v as u8) as i8 == v) by (bit_vector);
    key.lemma_code_round_trip();
    val.lemma_code_round_trip();
    assert(input[0] == k as u8);
    assert(input[1] == v as u8);
    assert(input.skip(2) =~= be_i32(size) + rest);
    lemma_i32_round_trip(size, rest);
}

/// Every item that the binary encoding carries in full is read back from
/// its own bytes, whatever follows them, and the reader then stands just
/// behind those bytes.
pub proof fn lemma_round_trip(item: Item, rest: Seq<u8>)
    requires
        carried_in_full(item),
    ensures
        binary_decode(kind_of(item), binary_encode(item) + rest) == Ok::<(Item, nat), Error>(
            (item, binary_encode(item).len()),
        ),
{
    match item {
        Item::Bool(b) => {
            assert(1u8 as i8 != 0 && 0u8 as i8 == 0) by (bit_vector);
        },
        Item::Byte(v) => {
            assert((v as u8) as i8 == v) by (bit_vector);
        },
        Item::I16(v) => {
            lemma_i16_round_trip(v, rest);
        },
        Item::I32(v) => {
            lemma_i32_round_trip(v, rest);
        },
        Item::I64(v) => {
            lemma_i64_round_trip(v, rest);
        },
        Item::Binary(b) => {
            lemma_binary_round_trip(b, rest);
        },
        Item::Str(s) => {
            lemma_str_round_trip(s, rest);
        },
        Item::MessageBegin(name, ty, seq) => {
            lemma_message_begin_round_trip(name, ty, seq, rest);
        },
        Item::FieldBegin(name, ty, id) => {
            lemma_field_begin_round_trip(ty, id, rest);
        },
        Item::ListBegin(elem, size) => {
            lemma_elements_round_trip(elem, size, rest);
        },
        Item::SetBegin(elem, size) => {
            lemma_elements_round_trip(elem, size, rest);
        },
        Item::MapBegin(key, val, size) => {
            lemma_map_begin_round_trip(key, val, size, rest);
        },
        _ => {},
    }
}

/// The unsigned and the pointer-sized integers come back unchanged from the
/// signed integers that they travel as.
pub proof fn lemma_unsigned_round_trip(a: u8, b: u16, c: u32, d: u64, e: usize, f: isize)
    ensures
        ((a as i8) as u8) == a,
        ((b as i16) as u16) == b,
        ((c as i32) as u32) == c,
        ((d as i64) as u64) == d,
        ((f as i64) as isize) == f,
        ((((e as isize) as i64) as isize) as usize) == e,
{
    assert(((a as i8) as u8) == a) by (bit_vector);
    assert(((b as i16) as u16) == b) by (bit_vector);
    assert(((c as i32) as u32) == c) by (bit_vector);
    assert(((d as i64) as u64) == d) by (bit_vector);
    assert(((f as i64) as isize) == f) by (bit_vector);
    assert(((((e as isize) as i64) as isize) as usize) == e) by (bit_vector);
}

/// The stop mark is read as a field header of type `Stop`, and takes one
/// byte.
pub proof fn lemma_stop_is_read_as_field(rest: Seq<u8>)
    ensures
        binary_decode(Kind::FieldBegin, binary_encode(Item::FieldStop) + rest) == Ok::<
            (Item, nat),
            Error,
        >((Item::FieldBegin(None, ThriftType::Stop, 0), 1)),
{
    assert(0u8 as i8 == 0) by (bit_vector);
}

} // verus!
