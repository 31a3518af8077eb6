use thrust::parser::Parser;
use thrust::schema::{FieldAttribute, Keyword, StructField, Token, Ty};

#[test]
fn eof_token() {
    let mut parser = Parser::new("");
    assert_eq!(parser.eof(), true);
    assert_eq!(parser.next_token(), Token::Eof);
}

#[test]
fn colon_token() {
    let mut parser = Parser::new(":");
    assert_eq!(parser.next_token(), Token::Colon);
}

#[test]
fn dot_token() {
    let mut parser = Parser::new(".");
    assert_eq!(parser.next_token(), Token::Dot);
}

#[test]
fn equal_token() {
    let mut parser = Parser::new("=");
    assert_eq!(parser.next_token(), Token::Eq);
}

#[test]
fn comma_token() {
    let mut parser = Parser::new(",");
    assert_eq!(parser.next_token(), Token::Comma);
}

#[test]
fn curly_token() {
    let mut parser = Parser::new("{}");
    assert_eq!(parser.next_token(), Token::LCurly);
    assert_eq!(parser.next_token(), Token::RCurly);
}

#[test]
fn angle_token() {
    let mut parser = Parser::new("<>");
    assert_eq!(parser.next_token(), Token::LAngle);
    assert_eq!(parser.next_token(), Token::RAngle);
}

#[test]
fn semi_token() {
    let mut parser = Parser::new(";");
    assert_eq!(parser.next_token(), Token::Semi);
}

#[test]
fn whitespace_grab_token() {
    let mut parser = Parser::new("     >");
    assert_eq!(parser.next_token(), Token::RAngle);
}

#[test]
fn comment_token() {
    let mut parser = Parser::new("<//foobar\n:");
    assert_eq!(parser.next_token(), Token::LAngle);
    assert_eq!(parser.next_token(), Token::Comment);
    assert_eq!(parser.next_token(), Token::Colon);
}

#[test]
fn multi_comment_token() {
    let mut parser = Parser::new("</*\n
                                 fofoo*/>");
    assert_eq!(parser.next_token(), Token::LAngle);
    assert_eq!(parser.next_token(), Token::Comment);
    assert_eq!(parser.next_token(), Token::RAngle);
}

#[test]
fn parens_token() {
    let mut parser = Parser::new("()");
    assert_eq!(parser.next_token(), Token::LParen);
    assert_eq!(parser.next_token(), Token::RParen);
}

#[test]
fn hash_comment_token() {
    let mut parser = Parser::new("<#foobar\n:");
    assert_eq!(parser.next_token(), Token::LAngle);
    assert_eq!(parser.next_token(), Token::Comment);
    assert_eq!(parser.next_token(), Token::Colon);
}

#[test]
fn ident_token() {
    assert_eq!(Parser::new("foobar").next_token(), Token::Ident("foobar".to_string()));
    assert_eq!(Parser::new("foobar123").next_token(), Token::Ident("foobar123".to_string()));
    assert_eq!(Parser::new("foobar_123").next_token(), Token::Ident("foobar_123".to_string()));
    assert_eq!(Parser::new("_FFF").next_token(), Token::Ident("_FFF".to_string()));
}

#[test]
fn quoted_string_token() {
    assert_eq!(Parser::new("\"hello world 12338383\"").next_token(), Token::QuotedString("hello world 12338383".to_string()));
}

#[test]
fn keywords_token() {
    assert_eq!(Parser::new("oneway").next_token(), Token::Keyword(Keyword::Oneway));
    assert_eq!(Parser::new("exception").next_token(), Token::Keyword(Keyword::Exception));
    assert_eq!(Parser::new("struct").next_token(), Token::Keyword(Keyword::Struct));
    assert_eq!(Parser::new("enum").next_token(), Token::Keyword(Keyword::Enum));
    assert_eq!(Parser::new("namespace").next_token(), Token::Keyword(Keyword::Namespace));
    assert_eq!(Parser::new("service").next_token(), Token::Keyword(Keyword::Service));
    assert_eq!(Parser::new("throws").next_token(), Token::Keyword(Keyword::Throws));
    assert_eq!(Parser::new("typedef").next_token(), Token::Keyword(Keyword::Typedef));
    assert_eq!(Parser::new("optional").next_token(), Token::Keyword(Keyword::Optional));
    assert_eq!(Parser::new("required").next_token(), Token::Keyword(Keyword::Required));
    assert_eq!(Parser::new("const").next_token(), Token::Keyword(Keyword::Const));
}

#[test]
fn eat_token() {
    let mut p = Parser::new(":");
    assert_eq!(p.eat(&Token::Colon), true);
}

#[test]
fn eat_keywords() {
    let mut p = Parser::new("oneway");
    assert_eq!(p.eat_keyword(Keyword::Oneway), true);
}

#[test]
fn parse_namespace() {
    let mut p = Parser::new("namespace rust foobar");
    let ns = p.parse_namespace().unwrap();
    assert_eq!(&*ns.lang, "rust");
    assert_eq!(&*ns.module, "foobar");
}

#[test]
fn parse_namesp_ace() {
    let mut p = Parser::new("namespace rust foobar");
    let ns = p.parse_namespace().unwrap();
    assert_eq!(&*ns.lang, "rust");
    assert_eq!(&*ns.module, "foobar");
}

#[test]
fn parse_include() {
    let mut p = Parser::new("include \"./../include.thrift\"");
    let ns = p.parse_include().unwrap();
    assert_eq!(&*ns.path, "./../include.thrift");
}

#[test]
fn parse_bool_ty() {
    let mut p = Parser::new("bool");
    assert_eq!(p.parse_ty().unwrap(), Ty::Bool);
}

#[test]
fn parse_binary_ty() {
    let mut p = Parser::new("binary");
    assert_eq!(p.parse_ty().unwrap(), Ty::Binary);
}

#[test]
fn parse_byte_ty() {
    let mut p = Parser::new("byte");
    assert_eq!(p.parse_ty().unwrap(), Ty::Byte);
}

#[test]
fn parse_i16_ty() {
    let mut p = Parser::new("i16");
    assert_eq!(p.parse_ty().unwrap(), Ty::I16);
}

#[test]
fn parse_i32_ty() {
    let mut p = Parser::new("i32");
    assert_eq!(p.parse_ty().unwrap(), Ty::I32);
}

#[test]
fn parse_i64_ty() {
    let mut p = Parser::new("i64");
    assert_eq!(p.parse_ty().unwrap(), Ty::I64);
}

#[test]
fn parse_double_ty() {
    let mut p = Parser::new("double");
    assert_eq!(p.parse_ty().unwrap(), Ty::Double);
}

#[test]
fn parse_string_ty() {
    let mut p = Parser::new("string");
    assert_eq!(p.parse_ty().unwrap(), Ty::String);
}

#[test]
fn parse_list_string_ty() {
    let mut p = Parser::new("list<string>");
    assert_eq!(p.parse_ty().unwrap(), Ty::List(Box::new(Ty::String)));
}

#[test]
fn parse_list_double_ty() {
    let mut p = Parser::new("list<double>");
    assert_eq!(p.parse_ty().unwrap(), Ty::List(Box::new(Ty::Double)));
}

#[test]
fn parse_list_list_byte_ty() {
    let mut p = Parser::new("list<list<byte>>");
    assert_eq!(p.parse_ty().unwrap(), Ty::List(Box::new(Ty::List(Box::new(Ty::Byte)))));
}

#[test]
fn parse_set_byte_ty() {
    let mut p = Parser::new("set<byte>");
    assert_eq!(p.parse_ty().unwrap(), Ty::TSet(Box::new(Ty::Byte)));
}

#[test]
fn parse_set_string_ty() {
    let mut p = Parser::new("set<string>");
    assert_eq!(p.parse_ty().unwrap(), Ty::TSet(Box::new(Ty::String)));
}

#[test]
fn parse_map_i32_string_ty() {
    let mut p = Parser::new("map<i32,string>");
    assert_eq!(p.parse_ty().unwrap(), Ty::TMap(Box::new(Ty::I32), Box::new(Ty::String)));
}

#[test]
fn parse_map_i32_list_string_ty() {
    let mut p = Parser::new("map<i32,list<string>>");
    assert_eq!(p.parse_ty().unwrap(), Ty::TMap(Box::new(Ty::I32), Box::new(Ty::List(Box::new(Ty::String)))));
}

#[test]
fn parse_typedef() {
    let mut p = Parser::new("typedef i32 MyInteger");
    let def = p.parse_typedef().unwrap();
    assert_eq!(def.0, Ty::I32);
    assert_eq!(&*def.1, "MyInteger");
}

#[test]
fn parse_empty_enum() {
    let mut p = Parser::new("enum FooBar {}");
    let def = p.parse_enum().unwrap();
    assert_eq!(&*def.ident, "FooBar");
    assert_eq!(def.variants.len(), 0);
}

#[test]
fn parse_one_variant_enum() {
    let mut p = Parser::new("enum Hello { ONE }");
    let def = p.parse_enum().unwrap();
    assert_eq!(&*def.ident, "Hello");
    assert_eq!(def.variants.len(), 1);
    assert_eq!(&*def.variants[0], "ONE");
}

#[test]
fn parse_empty_service() {
    let mut p = Parser::new("service Flock {}");
    let def = p.parse_service().unwrap();
    assert_eq!(&*def.ident, "Flock");
    assert_eq!(def.methods.len(), 0);
}

#[test]
fn parse_method_service() {
    let mut p = Parser::new("service Flock {
                                void ping();
                            }");
    let def = p.parse_service().unwrap();
    assert_eq!(&*def.ident, "Flock");
    assert_eq!(def.methods.len(), 1);
    assert_eq!(&*def.methods[0].ident, "ping");
    assert_eq!(def.methods[0].ty, Ty::Void);
    assert_eq!(def.methods[0].attr, FieldAttribute::Required);
    assert_eq!(def.methods[0].args.len(), 0);
}

#[test]
fn parse_method_with_one_args_service() {
    let mut p = Parser::new("service Beans {
                                void poutine(1: string firstName);
                            }");
    let def = p.parse_service().unwrap();
    assert_eq!(&*def.ident, "Beans");
    assert_eq!(def.methods.len(), 1);
    assert_eq!(&*def.methods[0].ident, "poutine");
    assert_eq!(def.methods[0].ty, Ty::Void);
    assert_eq!(def.methods[0].attr, FieldAttribute::Required);
    assert_eq!(def.methods[0].args.len(), 1);
    assert_eq!(def.methods[0].args[0], StructField {
        seq: 1,
        attr: FieldAttribute::Required,
        ty: Ty::String,
        ident: "firstName".to_string()
    });
}

#[test]
fn parse_oneway_method_service() {
    let mut p = Parser::new("service Flock {
                                oneway void ping();
                            }");
    let def = p.parse_service().unwrap();
    assert_eq!(&*def.ident, "Flock");
    assert_eq!(def.methods.len(), 1);
    assert_eq!(&*def.methods[0].ident, "ping");
    assert!(def.methods[0].ty == Ty::Void);
    assert_eq!(def.methods[0].attr, FieldAttribute::Oneway);
    assert_eq!(def.methods[0].args.len(), 0);
}

#[test]
fn parse_multi_variant_enum() {
    let mut p = Parser::new("enum Hello { ONE, TWO }");
    let def = p.parse_enum().unwrap();
    assert_eq!(&*def.ident, "Hello");
    assert_eq!(def.variants.len(), 2);
    assert_eq!(&*def.variants[0], "ONE");
    assert_eq!(&*def.variants[1], "TWO");
}

#[test]
fn parse_empty_struct() {
    let mut p = Parser::new("struct FooBar {}");
    let def = p.parse_struct().unwrap();
    assert_eq!(&*def.ident, "FooBar");
    assert_eq!(def.fields.len(), 0);
}

#[test]
fn parse_struct_w_field() {
    let mut p = Parser::new("struct FooBar { 1: required i32 mycat }");
    let def = p.parse_struct().unwrap();
    assert_eq!(&*def.ident, "FooBar");
    assert_eq!(def.fields.len(), 1);
}

#[test]
fn parse_struct_w_multi_field() {
    let mut p = Parser::new("struct FooBar { 1: required i32 mycat; 2: required i32 two }");
    let def = p.parse_struct().unwrap();
    assert_eq!(&*def.ident, "FooBar");
    assert_eq!(def.fields.len(), 2);
}

#[test]
fn parse_struct_field_optional() {
    let mut p = Parser::new("1: optional i32 foobar");
    let def = p.parse_struct_field().unwrap();
    assert_eq!(&*def.ident, "foobar");
    assert_eq!(def.ty, Ty::I32);
    assert_eq!(def.seq, 1);
    assert_eq!(def.attr, FieldAttribute::Optional);
}

#[test]
fn parse_struct_field_required() {
    let mut p = Parser::new("1: required i32 foobar");
    let def = p.parse_struct_field().unwrap();
    assert_eq!(&*def.ident, "foobar");
    assert_eq!(def.ty, Ty::I32);
    assert_eq!(def.seq, 1);
    assert_eq!(def.attr, FieldAttribute::Required);
}

#[test]
fn texts_that_cannot_be_cut_into_tokens() {
    assert!(Parser::accepts(""));
    assert!(Parser::accepts("struct A { 1: required i32 a }"));
    assert!(Parser::accepts("\"closed\""));
    assert!(!Parser::accepts("\"open"));
    assert!(Parser::accepts("/* closed */"));
    assert!(Parser::accepts("/***/"));
    assert!(!Parser::accepts("/* open *"));
    assert!(!Parser::accepts("/* open"));
    assert!(!Parser::accepts("/*/"));
    assert!(Parser::accepts("32767"));
    assert!(!Parser::accepts("32768"));
    assert!(!Parser::accepts("99999999999999999999999"));
    assert!(Parser::accepts("00000000000000000000007"));
    assert!(!Parser::accepts("a /"));
    assert!(!Parser::accepts("#"));
    assert!(Parser::accepts("# a comment"));
    assert!(Parser::accepts("/ x"));
    assert!(Parser::try_new("\"open").is_none());
    assert!(Parser::try_new("fine").is_some());
}

#[test]
fn numbers_strings_and_unknown_characters() {
    let mut p = Parser::new("12 007 \"a b\" $ x");
    assert_eq!(p.next_token(), Token::Number(12));
    assert_eq!(p.next_token(), Token::Number(7));
    assert_eq!(p.next_token(), Token::QuotedString("a b".to_string()));
    assert_eq!(p.next_token(), Token::Eof);
    assert_eq!(p.next_token(), Token::Ident("x".to_string()));
    assert!(p.eof());
    assert_eq!(p.next_token(), Token::Eof);
    assert_eq!(p.next_token(), Token::Eof);
    let mut p = Parser::new("/x");
    assert_eq!(p.next_token(), Token::Eof);
    assert_eq!(p.next_token(), Token::Ident("x".to_string()));
    let mut p = Parser::new("a\u{2003}\u{e9}b");
    assert_eq!(p.next_token(), Token::Ident("a".to_string()));
    assert_eq!(p.next_token(), Token::Eof);
    assert_eq!(p.next_token(), Token::Ident("b".to_string()));
    let mut p = Parser::new("include \"x\"");
    assert_eq!(*p.token(), Token::B);
    assert_eq!(p.next_token(), Token::Keyword(Keyword::Include));
    assert_eq!(*p.token(), Token::B);
}

#[test]
fn the_parser_looks_one_token_ahead() {
    let mut p = Parser::new("a : b");
    assert!(!p.lookahead(&Token::Colon));
    assert_eq!(*p.token(), Token::Ident("a".to_string()));
    assert!(p.lookahead(&Token::Ident("a".to_string())));
    assert!(!p.lookahead(&Token::Ident("b".to_string())));
    assert!(!p.eat(&Token::Colon));
    assert_eq!(p.parse_ident(), Ok("a".to_string()));
    assert_eq!(
        p.expect(&Token::Semi),
        Err(thrust::parser::Error::ExpectedToken(Token::Semi))
    );
    assert_eq!(p.expect(&Token::Colon), Ok(Token::Ident("b".to_string())));
    assert_eq!(p.parse_number(), Err(thrust::parser::Error::ExpectedNumber));
    assert_eq!(p.expect_string(), Err(thrust::parser::Error::ExpectedString));
    assert_eq!(p.expect_ident(), Ok("b".to_string()));
    assert_eq!(p.expect_ident(), Err(thrust::parser::Error::Expected));
    assert_eq!(p.parse_ident(), Err(thrust::parser::Error::ExpectedIdent));
    assert_eq!(*p.token(), Token::Eof);
    assert!(!p.lookahead_keyword(Keyword::Struct));
    assert_eq!(
        p.expect_keyword(Keyword::Struct),
        Err(thrust::parser::Error::ExpectedKeyword(Keyword::Struct))
    );
    p.bump();
    assert_eq!(*p.token(), Token::Eof);
}

#[test]
fn what_is_not_a_description_is_an_error() {
    assert_eq!(
        Parser::new("1: i32 a").parse_struct_field(),
        Err(thrust::parser::Error::MissingFieldAttribute)
    );
    assert_eq!(
        Parser::new("struct { }").parse_struct().unwrap_err(),
        thrust::parser::Error::Expected
    );
    assert_eq!(
        Parser::new("enum E { 1 }").parse_enum().unwrap_err(),
        thrust::parser::Error::ExpectedIdent
    );
    assert_eq!(
        Parser::new("service S { void f(a: i32) }").parse_service().unwrap_err(),
        thrust::parser::Error::ExpectedNumber
    );
    assert_eq!(
        Parser::new("map<i32>").parse_ty().unwrap_err(),
        thrust::parser::Error::ExpectedToken(Token::Comma)
    );
    assert_eq!(
        Parser::new("list<i32").parse_ty().unwrap_err(),
        thrust::parser::Error::ExpectedToken(Token::RAngle)
    );
    assert_eq!(
        Parser::new("typedef i32").parse_typedef().unwrap_err(),
        thrust::parser::Error::Expected
    );
    assert_eq!(
        Parser::new("include x").parse_include().unwrap_err(),
        thrust::parser::Error::ExpectedString
    );
    assert_eq!(
        Parser::new("namespace").parse_namespace().unwrap_err(),
        thrust::parser::Error::Expected
    );
}

#[test]
fn a_whole_service() {
    let mut p = Parser::new(
        "service Flock {
            oneway void ping(),
            map<string, list<i64>> find(1: string key, 2: Filter by);
            bool stop()
        }",
    );
    let def = p.parse_service().unwrap();
    assert_eq!(def.ident, "Flock");
    assert_eq!(def.methods.len(), 3);
    assert_eq!(def.methods[0].attr, FieldAttribute::Oneway);
    assert_eq!(
        def.methods[1].ty,
        Ty::TMap(
            Box::new(Ty::String),
            Box::new(Ty::List(Box::new(Ty::I64)))
        )
    );
    assert_eq!(
        def.methods[1].args,
        vec![
            StructField {
                seq: 1,
                attr: FieldAttribute::Required,
                ty: Ty::String,
                ident: "key".to_string()
            },
            StructField {
                seq: 2,
                attr: FieldAttribute::Required,
                ty: Ty::Ident("Filter".to_string()),
                ident: "by".to_string()
            },
        ]
    );
    assert_eq!(def.methods[2].ident, "stop");
    assert_eq!(def.methods[2].ty, Ty::Bool);
    assert_eq!(*p.token(), Token::Eof);
}

#[test]
#[should_panic]
fn whitespace_token() {
    let mut parser = Parser::new(" ");
    assert_eq!(parser.next_token(), Token::Whitespace);
}

#[test]
#[should_panic]
fn fail_ident_token() {
    assert_eq!(Parser::new("1foobar").next_token(), Token::Ident("1foobar".to_string()));
}
