use thrust::ast::{
    FieldMetadataNode, FunctionNode, IdentNode, ServiceNode, StructFieldNode, StructNode, Ty,
};
use thrust::grammar::{
    eof, namespace, parse_generic_types, parse_generics, parse_ident, parse_metadata,
    parse_namespace, parse_service, parse_service_method, parse_simple_type, parse_struct,
    parse_struct_field, parse_type, tag, Parsed,
};

#[test]
fn should_parse_generics() {
    assert_eq!(parse_generics(b"<void>"), Parsed::Done(&[][..], vec![Ty::Void]));
    assert_eq!(parse_generics(b"<string>"), Parsed::Done(&[][..], vec![Ty::String]));
    assert_eq!(parse_generics(b"<i32>"), Parsed::Done(&[][..], vec![Ty::Signed32]));
}

#[test]
fn parse_simple_types() {
    assert_eq!(parse_simple_type(b"void"), Parsed::Done(&b""[..], format!("void")));
    assert_eq!(parse_simple_type(b"bool"), Parsed::Done(&b""[..], format!("bool")));
    assert_eq!(parse_simple_type(b"i16"), Parsed::Done(&b""[..], format!("i16")));
    assert_eq!(parse_simple_type(b"i32"), Parsed::Done(&b""[..], format!("i32")));
    assert_eq!(parse_simple_type(b"i64"), Parsed::Done(&b""[..], format!("i64")));
    assert_eq!(parse_simple_type(b"double"), Parsed::Done(&b""[..], format!("double")));
    assert_eq!(parse_simple_type(b"binary"), Parsed::Done(&b""[..], format!("binary")));
    assert_eq!(parse_simple_type(b"string"), Parsed::Done(&b""[..], format!("string")));
}

#[test]
fn parse_types() {
    assert_eq!(parse_type(b"void "), Parsed::Done(&[32][..], Ty::Void));
    assert_eq!(parse_type(b"bool "), Parsed::Done(&[32][..], Ty::Bool));
    assert_eq!(parse_type(b"i16 "), Parsed::Done(&[32][..], Ty::Signed16));
    assert_eq!(parse_type(b"i32 "), Parsed::Done(&[32][..], Ty::Signed32));
    assert_eq!(parse_type(b"i64 "), Parsed::Done(&[32][..], Ty::Signed64));
    assert_eq!(parse_type(b"double "), Parsed::Done(&[32][..], Ty::Double));
    assert_eq!(parse_type(b"binary "), Parsed::Done(&[32][..], Ty::Binary));
    assert_eq!(
        parse_type(b"list<string>"),
        Parsed::Done(&[][..], Ty::List(Box::new(Ty::String)))
    );

    let map_ty1 = Box::new(Ty::Binary);
    let map_ty2 = Box::new(Ty::Signed16);
    assert_eq!(
        parse_type(b"map<binary,i16>"),
        Parsed::Done(&[][..], Ty::TMap(map_ty1, map_ty2))
    );
}

#[test]
fn define_service() {
    let r = parse_service(b"service Foobar {}");
    let node = ServiceNode::new(IdentNode(format!("Foobar")));
    assert_eq!(r, Parsed::Done(&b""[..], node));
}

#[test]
fn define_service_ws() {
    let r = parse_service(b"service   Foobar  {\n}\n");
    let node = ServiceNode::new(IdentNode(format!("Foobar")));
    assert_eq!(r, Parsed::Done(&[10][..], node));
}

#[test]
fn define_service_method() {
    let r = parse_service(
        b"service Foobar {
            void ping();
        }",
    );

    let method = FunctionNode { name: IdentNode(format!("ping")), ret: Ty::Void };
    let node = ServiceNode { name: IdentNode(format!("Foobar")), methods: vec![method] };

    assert_eq!(r, Parsed::Done(&b""[..], node));
}

#[test]
fn parse_field_metadata() {
    let res = parse_metadata(b"required ");
    assert_eq!(res, Parsed::Done(&[][..], FieldMetadataNode::Required));

    let res = parse_metadata(b"optional ");
    assert_eq!(res, Parsed::Done(&[][..], FieldMetadataNode::Optional));
}

#[test]
fn panic_parse_field_metadata() {
    let res = parse_metadata(b"requiredf ");
    match res {
        Parsed::Error => {}
        _ => panic!("Unexpected"),
    }
}

#[test]
fn define_struct_field() {
    let input = b"1: optional string foobar;";
    let res = parse_struct_field(input);

    let field = StructFieldNode {
        order: 1,
        metadata: FieldMetadataNode::Optional,
        ty: Ty::String,
        ident: IdentNode(format!("foobar")),
    };

    assert_eq!(res, Parsed::Done(&[][..], field));
}

#[test]
fn define_empty_struct() {
    let res = parse_struct(b"struct Foobar {}");
    assert_eq!(
        res,
        Parsed::Done(&[][..], StructNode { name: IdentNode(format!("Foobar")), fields: vec![] })
    );
}

#[test]
fn define_struct_with_field() {
    let res = parse_struct(
        b"struct Foobar {
            1: required string name;
        }",
    );

    assert_eq!(
        res,
        Parsed::Done(
            &[][..],
            StructNode {
                name: IdentNode(format!("Foobar")),
                fields: vec![StructFieldNode {
                    order: 1,
                    metadata: FieldMetadataNode::Required,
                    ty: Ty::String,
                    ident: IdentNode(format!("name"))
                }]
            }
        )
    );
}

#[test]
fn define_struct_with_multi_fields() {
    let res = parse_struct(
        b"struct Foobar {
            1: required string name;
            2: optional i64 timestamp;
        }",
    );

    assert_eq!(
        res,
        Parsed::Done(
            &[][..],
            StructNode {
                name: IdentNode(format!("Foobar")),
                fields: vec![
                    StructFieldNode {
                        order: 1,
                        metadata: FieldMetadataNode::Required,
                        ty: Ty::String,
                        ident: IdentNode(format!("name"))
                    },
                    StructFieldNode {
                        order: 2,
                        metadata: FieldMetadataNode::Optional,
                        ty: Ty::Signed64,
                        ident: IdentNode(format!("timestamp"))
                    }
                ]
            }
        )
    );
}

#[test]
fn define_service_multi_method() {
    let r = parse_service(
        b"service Foobar {
            void ping();
            void pong();
        }",
    );

    let ping = FunctionNode { name: IdentNode(format!("ping")), ret: Ty::Void };
    let pong = FunctionNode { name: IdentNode(format!("pong")), ret: Ty::Void };
    let node = ServiceNode { name: IdentNode(format!("Foobar")), methods: vec![ping, pong] };

    assert_eq!(r, Parsed::Done(&b""[..], node));
}

#[test]
fn tag_matches_a_fixed_word() {
    assert_eq!(tag(b"service Foo", "service"), Parsed::Done(&b" Foo"[..], ()));
    assert_eq!(tag(b"{", "{"), Parsed::Done(&b""[..], ()));
}

#[test]
fn tag_rejects_another_word() {
    assert_eq!(tag(b"struct Foo", "service"), Parsed::Error);
    assert_eq!(tag(b"sx", "service"), Parsed::Error);
}

#[test]
fn tag_wants_more_of_a_word_cut_short() {
    assert_eq!(tag(b"serv", "service"), Parsed::Incomplete);
    assert_eq!(tag(b"", "service"), Parsed::Incomplete);
}

#[test]
fn eof_matches_only_the_end() {
    assert_eq!(eof(b""), Parsed::Done(&b""[..], &b""[..]));
    assert_eq!(eof(b"x"), Parsed::Error);
}

#[test]
fn ident_is_the_longest_run_of_letters_and_digits() {
    assert_eq!(parse_ident(b"abc9 def"), Parsed::Done(&b" def"[..], format!("abc9")));
    assert_eq!(parse_ident(b"Foo_bar"), Parsed::Done(&b"_bar"[..], format!("Foo")));
    assert_eq!(parse_ident(b"x"), Parsed::Done(&b""[..], format!("x")));
}

#[test]
fn ident_needs_a_letter_or_digit() {
    assert_eq!(parse_ident(b""), Parsed::Error);
    assert_eq!(parse_ident(b" abc"), Parsed::Error);
    assert_eq!(parse_ident(b"_abc"), Parsed::Error);
}

#[test]
fn namespace_name_never_matches() {
    assert_eq!(namespace(b""), Parsed::Error);
    assert_eq!(namespace(b"foo.bar"), Parsed::Error);
    assert_eq!(namespace(b"."), Parsed::Error);
    assert_eq!(namespace(b"a"), Parsed::Error);
}

#[test]
fn namespace_declaration_never_matches() {
    assert!(matches!(parse_namespace(b"namespace rust foo.bar"), Parsed::Error));
    assert!(matches!(parse_namespace(b"namespace rust foo"), Parsed::Error));
    assert!(matches!(parse_namespace(b"namespace"), Parsed::Error));
    assert!(matches!(parse_namespace(b"service"), Parsed::Error));
}

#[test]
fn namespace_declaration_cut_short_is_incomplete() {
    assert!(matches!(parse_namespace(b"names"), Parsed::Incomplete));
    assert!(matches!(parse_namespace(b""), Parsed::Incomplete));
}

#[test]
fn generic_types_are_set_apart_by_commas() {
    assert_eq!(
        parse_generic_types(b"binary,i16>"),
        Parsed::Done(&b">"[..], vec![format!("binary"), format!("i16")])
    );
    assert_eq!(
        parse_generic_types(b"a, b,\n c"),
        Parsed::Done(&b""[..], vec![format!("a"), format!("b"), format!("c")])
    );
}

#[test]
fn generic_types_may_be_none() {
    assert_eq!(parse_generic_types(b""), Parsed::Done(&b""[..], vec![]));
    assert_eq!(parse_generic_types(b">"), Parsed::Done(&b">"[..], vec![]));
    assert_eq!(parse_generic_types(b"  >"), Parsed::Done(&b"  >"[..], vec![]));
}

#[test]
fn generic_types_end_before_a_comma_without_a_name() {
    assert_eq!(parse_generic_types(b"a,>"), Parsed::Done(&b",>"[..], vec![format!("a")]));
    assert_eq!(parse_generic_types(b"a , b"), Parsed::Done(&b" , b"[..], vec![format!("a")]));
}

#[test]
fn generics_need_both_brackets() {
    assert_eq!(parse_generics(b"i32>"), Parsed::Error);
    assert_eq!(parse_generics(b"<i32)"), Parsed::Error);
    assert_eq!(parse_generics(b"<i32,>"), Parsed::Error);
    assert_eq!(parse_generics(b"<i32"), Parsed::Incomplete);
    assert_eq!(parse_generics(b""), Parsed::Incomplete);
}

#[test]
fn generics_may_be_empty_or_many() {
    assert_eq!(parse_generics(b"<>"), Parsed::Done(&b""[..], vec![]));
    assert_eq!(
        parse_generics(b"<bool, byte,i64> x"),
        Parsed::Done(&b" x"[..], vec![Ty::Bool, Ty::Byte, Ty::Signed64])
    );
}

#[test]
fn type_with_arguments() {
    assert_eq!(parse_type(b"set<i16>;"), Parsed::Done(&b";"[..], Ty::TSet(Box::new(Ty::Signed16))));
    assert_eq!(
        parse_type(b"map<string, bool> m"),
        Parsed::Done(&b" m"[..], Ty::TMap(Box::new(Ty::String), Box::new(Ty::Bool)))
    );
    assert_eq!(parse_type(b"byte<>"), Parsed::Done(&b""[..], Ty::Byte));
}

#[test]
fn type_cut_short_or_missing() {
    assert_eq!(parse_type(b"list<string"), Parsed::Incomplete);
    assert_eq!(parse_type(b""), Parsed::Error);
    assert_eq!(parse_type(b"<i32>"), Parsed::Error);
}

#[test]
fn type_without_arguments_leaves_what_follows() {
    assert_eq!(parse_type(b"i32)"), Parsed::Done(&b")"[..], Ty::Signed32));
    assert_eq!(parse_type(b"string"), Parsed::Incomplete);
}

#[test]
fn metadata_needs_a_blank_after_the_word() {
    assert_eq!(parse_metadata(b"optional"), Parsed::Error);
    assert_eq!(parse_metadata(b"required;"), Parsed::Error);
    assert_eq!(
        parse_metadata(b"optional \t i32"),
        Parsed::Done(&b"i32"[..], FieldMetadataNode::Optional)
    );
}

#[test]
fn metadata_cut_short_is_incomplete() {
    assert_eq!(parse_metadata(b""), Parsed::Incomplete);
    assert_eq!(parse_metadata(b"opt"), Parsed::Incomplete);
    assert_eq!(parse_metadata(b"req"), Parsed::Incomplete);
    assert_eq!(parse_metadata(b"other "), Parsed::Error);
}

#[test]
fn service_method_ends_in_comma_or_semicolon() {
    let ping = FunctionNode { name: IdentNode(format!("ping")), ret: Ty::Void };
    assert_eq!(parse_service_method(b"void ping(),x"), Parsed::Done(&b"x"[..], ping));
    let get = FunctionNode { name: IdentNode(format!("get")), ret: Ty::List(Box::new(Ty::Bool)) };
    assert_eq!(
        parse_service_method(b"\n  list<bool>\tget ( ) ;\n"),
        Parsed::Done(&b"\n"[..], get)
    );
}

#[test]
fn service_method_failures() {
    assert_eq!(parse_service_method(b"void ping()"), Parsed::Incomplete);
    assert_eq!(parse_service_method(b"void ping() }"), Parsed::Error);
    assert_eq!(parse_service_method(b"void(); "), Parsed::Error);
    assert_eq!(parse_service_method(b"void ping(i32 x);"), Parsed::Error);
    assert_eq!(parse_service_method(b"   "), Parsed::Error);
}

#[test]
fn service_failures() {
    assert_eq!(parse_service(b"service Foobar { void ping() }"), Parsed::Error);
    assert_eq!(parse_service(b"service Foobar"), Parsed::Incomplete);
    assert_eq!(parse_service(b"service Foobar {"), Parsed::Incomplete);
    assert_eq!(parse_service(b"service Foobar { void ping("), Parsed::Incomplete);
    assert_eq!(parse_service(b"serviceFoobar {}"), Parsed::Error);
    assert_eq!(parse_service(b"struct Foobar {}"), Parsed::Error);
    assert_eq!(parse_service(b"serv"), Parsed::Incomplete);
}

#[test]
fn struct_field_order_fits_in_a_byte() {
    let field = |order: u8| StructFieldNode {
        order: order,
        metadata: FieldMetadataNode::Required,
        ty: Ty::Bool,
        ident: IdentNode(format!("b")),
    };
    assert_eq!(parse_struct_field(b"255: required bool b;"), Parsed::Done(&b""[..], field(255)));
    assert_eq!(parse_struct_field(b"007: required bool b;"), Parsed::Done(&b""[..], field(7)));
    assert_eq!(parse_struct_field(b"0: required bool b;  \n x"), Parsed::Done(&b"x"[..], field(0)));
    assert_eq!(parse_struct_field(b"256: required bool b;"), Parsed::Error);
    assert_eq!(parse_struct_field(b"99999999999999999999999: required bool b;"), Parsed::Error);
}

#[test]
fn struct_field_failures() {
    assert_eq!(parse_struct_field(b": required bool b;"), Parsed::Error);
    assert_eq!(parse_struct_field(b"1 required bool b;"), Parsed::Error);
    assert_eq!(parse_struct_field(b"1:required bool b;"), Parsed::Error);
    assert_eq!(parse_struct_field(b"1: bool b;"), Parsed::Error);
    assert_eq!(parse_struct_field(b"1: required bool b"), Parsed::Incomplete);
    assert_eq!(parse_struct_field(b"1"), Parsed::Incomplete);
    assert_eq!(parse_struct_field(b"1: requ"), Parsed::Incomplete);
}

#[test]
fn struct_failures() {
    assert_eq!(parse_struct(b"struct Foobar { 1: required bool b }"), Parsed::Error);
    assert_eq!(parse_struct(b"struct\nFoobar {}"), Parsed::Error);
    assert_eq!(parse_struct(b"struct Foobar\n{}"), Parsed::Error);
    assert_eq!(parse_struct(b"struct Foobar {"), Parsed::Incomplete);
    assert_eq!(parse_struct(b"str"), Parsed::Incomplete);
}

#[test]
fn struct_leaves_what_follows_the_brace() {
    let res = parse_struct(b"struct A{1: optional list<i32> xs;}rest");
    assert_eq!(
        res,
        Parsed::Done(
            &b"rest"[..],
            StructNode {
                name: IdentNode(format!("A")),
                fields: vec![StructFieldNode {
                    order: 1,
                    metadata: FieldMetadataNode::Optional,
                    ty: Ty::List(Box::new(Ty::Signed32)),
                    ident: IdentNode(format!("xs"))
                }]
            }
        )
    );
}
