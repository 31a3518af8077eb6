use std::io::Cursor;

use byteorder::{BigEndian, ReadBytesExt, WriteBytesExt};
use std::io::Write;
use thrust::binary_protocol::{
    BinaryDeserializer, BinarySerializer, THRIFT_TYPE_MASK, THRIFT_VERSION_1, THRIFT_VERSION_MASK,
};
use thrust::protocol::{
    Deserialize, Deserializer, Error, Serialize, Serializer, ThriftDeserializer,
    ThriftMessageType, ThriftSerializer, ThriftType,
};

#[test]
fn serialize_bool_true() {
    let mut v = Vec::new();
    {
        let mut s = BinarySerializer::new(&mut v);
        s.serialize_bool(true);
    }

    assert_eq!(v[0], 1);
}

#[test]
fn serialize_bool_false() {
    let mut v = Vec::new();
    {
        let mut s = BinarySerializer::new(&mut v);
        s.serialize_bool(false);
    }

    assert_eq!(v[0], 0);
}

#[test]
fn serialize_i8() {
    let mut v = Vec::new();
    {
        let mut s = BinarySerializer::new(&mut v);
        s.serialize_i8(5);
    }

    assert_eq!(v[0], 5);
}

#[test]
fn serialize_i8_neg() {
    let mut v = Vec::new();
    {
        let mut s = BinarySerializer::new(&mut v);
        s.serialize_i8(-5);
    }

    assert_eq!(v[0] as i8, -5);
}

#[test]
fn serialize_i16() {
    let mut v = Vec::new();
    {
        let mut s = BinarySerializer::new(&mut v);
        s.serialize_i16(900);
    }

    let mut cursor = Cursor::new(v);
    assert_eq!(900, cursor.read_i16::<BigEndian>().unwrap());
}

#[test]
fn serialize_i16_neg() {
    let mut v = Vec::new();
    {
        let mut s = BinarySerializer::new(&mut v);
        s.serialize_i16(-900);
    }

    let mut cursor = Cursor::new(v);
    assert_eq!(-900, cursor.read_i16::<BigEndian>().unwrap());
}

#[test]
fn serialize_i32() {
    let mut v = Vec::new();
    {
        let mut s = BinarySerializer::new(&mut v);
        s.serialize_i32(3000000);
    }

    let mut cursor = Cursor::new(v);
    assert_eq!(3000000, cursor.read_i32::<BigEndian>().unwrap());
}

#[test]
fn serialize_i32_neg() {
    let mut v = Vec::new();
    {
        let mut s = BinarySerializer::new(&mut v);
        s.serialize_i32(-3000000);
    }

    let mut cursor = Cursor::new(v);
    assert_eq!(-3000000, cursor.read_i32::<BigEndian>().unwrap());
}

#[test]
fn serialize_i64() {
    let mut v = Vec::new();
    {
        let mut s = BinarySerializer::new(&mut v);
        s.serialize_i64(33000000);
    }

    let mut cursor = Cursor::new(v);
    assert_eq!(33000000, cursor.read_i64::<BigEndian>().unwrap());
}

#[test]
fn serialize_i64_neg() {
    let mut v = Vec::new();
    {
        let mut s = BinarySerializer::new(&mut v);
        s.serialize_i64(-33000000);
    }

    let mut cursor = Cursor::new(v);
    assert_eq!(-33000000, cursor.read_i64::<BigEndian>().unwrap());
}

#[test]
fn protocol_begin() {
    let mut v = Vec::new();
    {
        let mut proto = BinarySerializer::new(&mut v);
        proto.write_message_begin("foobar", ThriftMessageType::Call);
    }

    let mut cursor = Cursor::new(v);
    let version = THRIFT_VERSION_1 | ThriftMessageType::Call.code() as i32;

    assert_eq!(version, cursor.read_i32::<BigEndian>().unwrap());
}

#[test]
fn deserialize_bool() {
    let mut de = BinaryDeserializer::new(vec![1u8]);
    let val: bool = Deserialize::deserialize(&mut de).unwrap();
    assert_eq!(val, true);
}

#[test]
fn deserialize_u16() {
    let mut buf = Vec::new();
    buf.write_u16::<BigEndian>(32000);
    let mut de = BinaryDeserializer::new(buf);
    let val: u16 = Deserialize::deserialize(&mut de).unwrap();
    assert_eq!(val, 32000);
}

#[test]
fn deserialize_i16() {
    let mut buf = Vec::new();
    buf.write_i16::<BigEndian>(-32000);
    let mut de = BinaryDeserializer::new(buf);
    let val: i16 = Deserialize::deserialize(&mut de).unwrap();
    assert_eq!(val, -32000);
}

#[test]
fn deserialize_u32() {
    let mut buf = Vec::new();
    buf.write_u32::<BigEndian>(32000);
    let mut de = BinaryDeserializer::new(buf);
    let val: u32 = Deserialize::deserialize(&mut de).unwrap();
    assert_eq!(val, 32000);
}

#[test]
fn deserialize_i32() {
    let mut buf = Vec::new();
    buf.write_i32::<BigEndian>(32000);
    let mut de = BinaryDeserializer::new(buf);
    let val: i32 = Deserialize::deserialize(&mut de).unwrap();
    assert_eq!(val, 32000);
}

#[test]
fn deserialize_u64() {
    let mut buf = Vec::new();
    buf.write_u64::<BigEndian>(32000);
    let mut de = BinaryDeserializer::new(buf);
    let val: u64 = Deserialize::deserialize(&mut de).unwrap();
    assert_eq!(val, 32000);
}

#[test]
fn deserialize_i64() {
    let mut buf = Vec::new();
    buf.write_i64::<BigEndian>(32000);
    let mut de = BinaryDeserializer::new(buf);
    let val: i64 = Deserialize::deserialize(&mut de).unwrap();
    assert_eq!(val, 32000);
}

#[test]
fn deserialize_string() {
    let mut buf = Vec::new();
    let i = "foobar";
    buf.write_i32::<BigEndian>(i.len() as i32);
    buf.write(i.as_bytes());
    let mut de = BinaryDeserializer::new(buf);
    let val: String = Deserialize::deserialize(&mut de).unwrap();
    assert_eq!(&*val, "foobar");
}

#[test]
fn manual_args_deserialize() {
    let mut buf = Vec::new();

    {
        let mut se = BinarySerializer::new(&mut buf);
        se.write_struct_begin("FlockDb_query_Args").unwrap();

        se.write_field_begin("voodoo", ThriftType::String, 1).unwrap();
        "Hello".to_string().serialize(&mut se);
        se.write_field_stop();
        se.write_field_end();

        se.write_field_begin("mission_control", ThriftType::I32, 2).unwrap();
        let i: i32 = 500;
        i.serialize(&mut se);
        se.write_field_stop();
        se.write_field_end();

        se.write_struct_end();
    }

    let mut de = BinaryDeserializer::new(buf);
    let msg = de.read_struct_begin().unwrap();
    let voodoo = de.read_field_begin().unwrap();
    assert!(voodoo.name.is_none());
    assert_eq!(voodoo.seq, 1);
    assert_eq!(voodoo.ty, ThriftType::String);
    assert_eq!(&*de.deserialize_str().unwrap(), "Hello");
    de.read_field_begin().unwrap();
    let mission = de.read_field_begin().unwrap();
    assert_eq!(mission.seq, 2);
    assert_eq!(mission.ty, ThriftType::I32);
    assert_eq!(de.deserialize_i32().unwrap(), 500);
    assert_eq!(msg, "");
}

fn written<F: FnOnce(&mut BinarySerializer)>(f: F) -> Vec<u8> {
    let mut v = Vec::new();
    {
        let mut s = BinarySerializer::new(&mut v);
        f(&mut s);
    }
    v
}

#[test]
fn integers_are_big_endian_twos_complement() {
    assert_eq!(written(|s| { s.serialize_i16(0x0102).unwrap(); }), vec![1, 2]);
    assert_eq!(written(|s| { s.serialize_i16(-2).unwrap(); }), vec![0xff, 0xfe]);
    assert_eq!(written(|s| { s.serialize_i32(0x01020304).unwrap(); }), vec![1, 2, 3, 4]);
    assert_eq!(
        written(|s| { s.serialize_i64(0x0102030405060708).unwrap(); }),
        vec![1, 2, 3, 4, 5, 6, 7, 8]
    );
    assert_eq!(written(|s| { s.serialize_i64(-1).unwrap(); }), vec![0xff; 8]);
}

#[test]
fn unsigned_integers_travel_as_signed() {
    assert_eq!(written(|s| { s.serialize_u8(200).unwrap(); }), vec![200]);
    assert_eq!(written(|s| { s.serialize_u16(0xfffe).unwrap(); }), vec![0xff, 0xfe]);
    assert_eq!(
        written(|s| { s.serialize_u32(0xfffffffe).unwrap(); }),
        vec![0xff, 0xff, 0xff, 0xfe]
    );
    assert_eq!(
        written(|s| { s.serialize_u64(u64::MAX).unwrap(); }),
        vec![0xff; 8]
    );
    assert_eq!(
        written(|s| { s.serialize_usize(7).unwrap(); }),
        vec![0, 0, 0, 0, 0, 0, 0, 7]
    );
    assert_eq!(
        written(|s| { s.serialize_isize(-1).unwrap(); }),
        vec![0xff; 8]
    );
}

#[test]
fn strings_and_bytes_follow_their_length() {
    assert_eq!(
        written(|s| { s.serialize_str("ab").unwrap(); }),
        vec![0, 0, 0, 2, b'a', b'b']
    );
    assert_eq!(
        written(|s| { s.serialize_string("ab".to_string()).unwrap(); }),
        vec![0, 0, 0, 2, b'a', b'b']
    );
    assert_eq!(
        written(|s| { s.serialize_bytes(&[9, 8, 7]).unwrap(); }),
        vec![0, 0, 0, 3, 9, 8, 7]
    );
    assert_eq!(
        written(|s| { s.serialize_str("").unwrap(); }),
        vec![0, 0, 0, 0]
    );
    assert_eq!(
        written(|s| { s.serialize_str("\u{e9}").unwrap(); }),
        vec![0, 0, 0, 2, 0xc3, 0xa9]
    );
}

#[test]
fn serializer_appends_to_the_buffer() {
    let mut v = vec![7u8];
    {
        let mut s = BinarySerializer::new(&mut v);
        s.serialize_i8(1).unwrap();
        s.serialize_i16(2).unwrap();
    }
    assert_eq!(v, vec![7, 1, 0, 2]);
}

#[test]
fn message_header_of_ping() {
    let v = written(|s| {
        s.write_message_begin("ping", ThriftMessageType::Call).unwrap();
        s.write_message_end().unwrap();
    });
    assert_eq!(
        v,
        vec![0x80, 0x01, 0x00, 0x01, 0x00, 0x00, 0x00, 0x04, b'p', b'i', b'n', b'g', 0x00, 0x00]
    );
    let mut de = BinaryDeserializer::new(v);
    let msg = de.read_message_begin().unwrap();
    assert_eq!(msg.name, "ping");
    assert_eq!(msg.ty, ThriftMessageType::Call);
    assert_eq!(msg.seq, 0);
    de.read_message_end().unwrap();
    assert_eq!(de.deserialize_i8(), Err(Error::Byteorder));
}

#[test]
fn message_type_is_in_the_version_word() {
    for (ty, code) in [
        (ThriftMessageType::Call, 1u8),
        (ThriftMessageType::Reply, 2),
        (ThriftMessageType::Exception, 3),
        (ThriftMessageType::Oneway, 4),
    ] {
        let v = written(|s| {
            s.write_message_begin("m", ty).unwrap();
        });
        assert_eq!(&v[..4], &[0x80, 0x01, 0x00, code]);
        let mut de = BinaryDeserializer::new(v);
        assert_eq!(de.read_message_begin().unwrap().ty, ty);
    }
}

#[test]
fn version_constants() {
    assert_eq!(THRIFT_VERSION_1 as u32, 0x80010000);
    assert_eq!(THRIFT_VERSION_MASK as u32, 0xffff0000);
    assert_eq!(THRIFT_TYPE_MASK, 0xff);
}

#[test]
fn missing_version_bit_is_reported() {
    let mut de = BinaryDeserializer::new(vec![0, 0, 0, 1, 0, 0, 0, 0, 0, 0]);
    assert_eq!(de.read_message_begin().unwrap_err(), Error::ProtocolVersionMissing);
}

#[test]
fn another_version_is_reported() {
    let mut de = BinaryDeserializer::new(vec![0x80, 0x02, 0, 1, 0, 0, 0, 0, 0, 0]);
    assert_eq!(de.read_message_begin().unwrap_err(), Error::BadVersion);
}

#[test]
fn unknown_message_type_is_reported() {
    let mut de = BinaryDeserializer::new(vec![0x80, 0x01, 0, 9, 0, 0, 0, 0, 0, 0]);
    assert_eq!(de.read_message_begin().unwrap_err(), Error::UnknownType(9));
}

#[test]
fn short_header_is_reported() {
    let mut de = BinaryDeserializer::new(vec![0x80, 0x01, 0]);
    assert_eq!(de.read_message_begin().unwrap_err(), Error::Byteorder);
    let mut de = BinaryDeserializer::new(vec![0x80, 0x01, 0, 1, 0, 0, 0, 1, b'a', 0]);
    assert_eq!(de.read_message_begin().unwrap_err(), Error::Byteorder);
}

#[test]
fn name_that_is_not_utf8_is_reported() {
    let mut de = BinaryDeserializer::new(vec![0x80, 0x01, 0, 1, 0, 0, 0, 1, 0xff, 0, 0]);
    assert_eq!(de.read_message_begin().unwrap_err(), Error::Utf8Error);
    let mut de = BinaryDeserializer::new(vec![0, 0, 0, 2, 0xc3, 0x28]);
    assert_eq!(de.deserialize_str().unwrap_err(), Error::Utf8Error);
}

#[test]
fn lengths_that_cannot_be_met_are_reported() {
    let mut de = BinaryDeserializer::new(vec![0xff, 0xff, 0xff, 0xff, 1, 2]);
    assert_eq!(de.deserialize_bytes().unwrap_err(), Error::Byteorder);
    let mut de = BinaryDeserializer::new(vec![0, 0, 0, 3, 1, 2]);
    assert_eq!(de.deserialize_bytes().unwrap_err(), Error::Byteorder);
    let mut de = BinaryDeserializer::new(vec![0, 0, 0, 2, 1, 2, 3]);
    assert_eq!(de.deserialize_bytes().unwrap(), vec![1, 2]);
    assert_eq!(de.deserialize_u8().unwrap(), 3);
}

#[test]
fn short_input_is_reported_for_every_width() {
    assert_eq!(BinaryDeserializer::new(vec![]).deserialize_bool(), Err(Error::Byteorder));
    assert_eq!(BinaryDeserializer::new(vec![]).deserialize_i8(), Err(Error::Byteorder));
    assert_eq!(BinaryDeserializer::new(vec![1]).deserialize_i16(), Err(Error::Byteorder));
    assert_eq!(BinaryDeserializer::new(vec![1, 2, 3]).deserialize_i32(), Err(Error::Byteorder));
    assert_eq!(BinaryDeserializer::new(vec![1; 7]).deserialize_i64(), Err(Error::Byteorder));
    assert_eq!(BinaryDeserializer::new(vec![1; 7]).deserialize_usize(), Err(Error::Byteorder));
}

#[test]
fn any_byte_but_zero_is_true() {
    assert_eq!(BinaryDeserializer::new(vec![0]).deserialize_bool(), Ok(false));
    assert_eq!(BinaryDeserializer::new(vec![1]).deserialize_bool(), Ok(true));
    assert_eq!(BinaryDeserializer::new(vec![2]).deserialize_bool(), Ok(true));
    assert_eq!(BinaryDeserializer::new(vec![0xff]).deserialize_bool(), Ok(true));
}

#[test]
fn field_headers() {
    let v = written(|s| {
        s.write_struct_begin("s").unwrap();
        s.write_field_begin("a", ThriftType::I64, 7).unwrap();
        s.serialize_i64(-1).unwrap();
        s.write_field_end().unwrap();
        s.write_field_stop().unwrap();
        s.write_struct_end().unwrap();
    });
    assert_eq!(v, vec![10, 0, 7, 255, 255, 255, 255, 255, 255, 255, 255, 0]);
    let mut de = BinaryDeserializer::new(v);
    assert_eq!(de.read_struct_begin().unwrap(), "");
    let field = de.read_field_begin().unwrap();
    assert_eq!(field.ty, ThriftType::I64);
    assert_eq!(field.seq, 7);
    assert!(field.name.is_none());
    assert_eq!(de.deserialize_i64().unwrap(), -1);
    de.read_field_end().unwrap();
    let stop = de.read_field_begin().unwrap();
    assert_eq!(stop.ty, ThriftType::Stop);
    assert_eq!(stop.seq, 0);
    de.read_struct_end().unwrap();
}

#[test]
fn unknown_field_type_is_reported() {
    let mut de = BinaryDeserializer::new(vec![5, 0, 1]);
    assert_eq!(de.read_field_begin().unwrap_err(), Error::UnknownType(5));
    let mut de = BinaryDeserializer::new(vec![0x80, 0, 1]);
    assert_eq!(de.read_field_begin().unwrap_err(), Error::UnknownType(-128));
    let mut de = BinaryDeserializer::new(vec![8, 0]);
    assert_eq!(de.read_field_begin().unwrap_err(), Error::Byteorder);
}

#[test]
fn type_codes() {
    let all = [
        (ThriftType::Stop, 0i8),
        (ThriftType::Void, 1),
        (ThriftType::Bool, 2),
        (ThriftType::Byte, 3),
        (ThriftType::Double, 4),
        (ThriftType::I16, 6),
        (ThriftType::I32, 8),
        (ThriftType::U64, 9),
        (ThriftType::I64, 10),
        (ThriftType::String, 11),
        (ThriftType::Struct, 12),
        (ThriftType::TMap, 13),
        (ThriftType::TSet, 14),
        (ThriftType::List, 15),
    ];
    for (ty, code) in all {
        assert_eq!(ty.code(), code);
        assert_eq!(ThriftType::from(code), Ok(ty));
    }
    assert_eq!(ThriftType::from(5), Err(Error::UnknownType(5)));
    assert_eq!(ThriftType::from(7), Err(Error::UnknownType(7)));
    assert_eq!(ThriftType::from(16), Err(Error::UnknownType(16)));
    assert_eq!(ThriftType::from(-1), Err(Error::UnknownType(-1)));
    assert_eq!(ThriftMessageType::from(0), Err(Error::UnknownType(0)));
    assert_eq!(ThriftMessageType::from(5), Err(Error::UnknownType(5)));
    assert_eq!(ThriftMessageType::from(3), Ok(ThriftMessageType::Exception));
}

#[test]
fn primitives_come_back_as_they_went() {
    let v = written(|s| {
        true.serialize(s).unwrap();
        false.serialize(s).unwrap();
        (-7i8).serialize(s).unwrap();
        250u8.serialize(s).unwrap();
        i16::MIN.serialize(s).unwrap();
        u16::MAX.serialize(s).unwrap();
        i32::MIN.serialize(s).unwrap();
        u32::MAX.serialize(s).unwrap();
        i64::MIN.serialize(s).unwrap();
        u64::MAX.serialize(s).unwrap();
        usize::MAX.serialize(s).unwrap();
        (-3isize).serialize(s).unwrap();
        "gr\u{fc}n".serialize(s).unwrap();
        "two".to_string().serialize(s).unwrap();
        (&[1u8, 2, 3][..]).serialize(s).unwrap();
        ().serialize(s).unwrap();
    });
    let mut de = BinaryDeserializer::new(v);
    assert_eq!(bool::deserialize(&mut de), Ok(true));
    assert_eq!(bool::deserialize(&mut de), Ok(false));
    assert_eq!(i8::deserialize(&mut de), Ok(-7));
    assert_eq!(u8::deserialize(&mut de), Ok(250));
    assert_eq!(i16::deserialize(&mut de), Ok(i16::MIN));
    assert_eq!(u16::deserialize(&mut de), Ok(u16::MAX));
    assert_eq!(i32::deserialize(&mut de), Ok(i32::MIN));
    assert_eq!(u32::deserialize(&mut de), Ok(u32::MAX));
    assert_eq!(i64::deserialize(&mut de), Ok(i64::MIN));
    assert_eq!(u64::deserialize(&mut de), Ok(u64::MAX));
    assert_eq!(de.deserialize_usize(), Ok(usize::MAX));
    assert_eq!(de.deserialize_isize(), Ok(-3));
    assert_eq!(String::deserialize(&mut de), Ok("gr\u{fc}n".to_string()));
    assert_eq!(de.deserialize_str(), Ok("two".to_string()));
    assert_eq!(de.deserialize_bytes(), Ok(vec![1, 2, 3]));
    assert_eq!(de.deserialize_u8(), Err(Error::Byteorder));
}

#[test]
fn a_read_that_fails_leaves_the_reader_where_it_stood() {
    let mut de = BinaryDeserializer::new(vec![0, 0, 0, 3, 1, 2]);
    assert_eq!(de.deserialize_bytes(), Err(Error::Byteorder));
    assert_eq!(de.deserialize_i64(), Err(Error::Byteorder));
    assert_eq!(de.deserialize_i32(), Ok(3));
    assert_eq!(de.deserialize_i32(), Err(Error::Byteorder));
    assert_eq!(de.deserialize_i16(), Ok(0x0102));

    let mut de = BinaryDeserializer::new(vec![0x80, 0x01, 0, 1, 0, 0, 0, 1, b'a', 0]);
    assert_eq!(de.read_message_begin().unwrap_err(), Error::Byteorder);
    assert_eq!(de.deserialize_i32(), Ok(THRIFT_VERSION_1 | 1));

    let mut de = BinaryDeserializer::new(vec![0, 0, 0, 1, 0xff, 7]);
    assert_eq!(de.deserialize_str(), Err(Error::Utf8Error));
    assert_eq!(de.deserialize_bytes(), Ok(vec![0xff]));
    assert_eq!(de.deserialize_u8(), Ok(7));

    let mut de = BinaryDeserializer::new(vec![8, 0]);
    assert_eq!(de.read_field_begin().unwrap_err(), Error::Byteorder);
    assert_eq!(de.deserialize_i8(), Ok(8));
}

#[test]
fn list_set_and_map_headers() {
    let v = written(|s| {
        s.write_list_begin(ThriftType::I32, 2).unwrap();
        s.serialize_i32(1).unwrap();
        s.serialize_i32(2).unwrap();
        s.write_list_end().unwrap();
        s.write_set_begin(ThriftType::Byte, 0).unwrap();
        s.write_set_end().unwrap();
        s.write_map_begin(ThriftType::String, ThriftType::Bool, 1).unwrap();
        s.serialize_str("k").unwrap();
        s.serialize_bool(true).unwrap();
        s.write_map_end().unwrap();
    });
    assert_eq!(
        v,
        vec![
            8, 0, 0, 0, 2, 0, 0, 0, 1, 0, 0, 0, 2, 3, 0, 0, 0, 0, 11, 2, 0, 0, 0, 1, 0, 0, 0, 1,
            b'k', 1
        ]
    );
    let mut de = BinaryDeserializer::new(v);
    assert_eq!(de.read_list_begin(), Ok((ThriftType::I32, 2)));
    assert_eq!(de.deserialize_i32(), Ok(1));
    assert_eq!(de.deserialize_i32(), Ok(2));
    assert_eq!(de.read_list_end(), Ok(()));
    assert_eq!(de.read_set_begin(), Ok((ThriftType::Byte, 0)));
    assert_eq!(de.read_set_end(), Ok(()));
    assert_eq!(de.read_map_begin(), Ok((ThriftType::String, ThriftType::Bool, 1)));
    assert_eq!(de.deserialize_str(), Ok("k".to_string()));
    assert_eq!(de.deserialize_bool(), Ok(true));
    assert_eq!(de.read_map_end(), Ok(()));
    assert_eq!(de.read_list_begin(), Err(Error::Byteorder));
}

#[test]
fn container_headers_that_cannot_be_read() {
    assert_eq!(
        BinaryDeserializer::new(vec![5, 0, 0, 0, 1]).read_list_begin(),
        Err(Error::UnknownType(5))
    );
    assert_eq!(
        BinaryDeserializer::new(vec![8, 0, 0, 0]).read_set_begin(),
        Err(Error::Byteorder)
    );
    assert_eq!(
        BinaryDeserializer::new(vec![8, 0xff, 0xff, 0xff, 0xff]).read_list_begin(),
        Err(Error::Byteorder)
    );
    assert_eq!(
        BinaryDeserializer::new(vec![11, 7, 0, 0, 0, 1]).read_map_begin(),
        Err(Error::UnknownType(7))
    );
    assert_eq!(
        BinaryDeserializer::new(vec![11]).read_map_begin(),
        Err(Error::Byteorder)
    );
    assert_eq!(
        BinaryDeserializer::new(vec![11, 2, 0x80, 0, 0, 0]).read_map_begin(),
        Err(Error::Byteorder)
    );
    let mut de = BinaryDeserializer::new(vec![11, 2, 0, 0, 0]);
    assert_eq!(de.read_map_begin(), Err(Error::Byteorder));
    assert_eq!(de.deserialize_u8(), Ok(11));
}
