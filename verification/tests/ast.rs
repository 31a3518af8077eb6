use std::str;

use thrust::ast::{
    Ast, EnumNode, FieldMetadataNode, FunctionNode, IdentNode, NamespaceNode, ServiceNode,
    StructFieldNode, StructNode, Ty,
};

#[test]
fn ast_gen_ty_string() {
    let mut v = Vec::new();
    let mut s = Ty::String;
    s.gen(&mut v);
    assert_eq!(str::from_utf8(&v).unwrap(), "String");
}

#[test]
fn ast_gen_ty_void() {
    let mut v = Vec::new();
    let mut s = Ty::Void;
    s.gen(&mut v);
    assert_eq!(str::from_utf8(&v).unwrap(), "()");
}

#[test]
fn ast_gen_ty_bool() {
    let mut v = Vec::new();
    let mut s = Ty::Bool;
    s.gen(&mut v);
    assert_eq!(str::from_utf8(&v).unwrap(), "bool");
}

#[test]
fn ast_gen_ty_i16() {
    let mut v = Vec::new();
    let mut s = Ty::Signed16;
    s.gen(&mut v);
    assert_eq!(str::from_utf8(&v).unwrap(), "i16");
}

#[test]
fn ast_gen_ty_i32() {
    let mut v = Vec::new();
    let mut s = Ty::Signed32;
    s.gen(&mut v);
    assert_eq!(str::from_utf8(&v).unwrap(), "i32");
}

#[test]
fn ast_gen_ty_i64() {
    let mut v = Vec::new();
    let mut s = Ty::Signed64;
    s.gen(&mut v);
    assert_eq!(str::from_utf8(&v).unwrap(), "i64");
}

#[test]
fn ast_gen_ty_byte() {
    let mut v = Vec::new();
    let mut s = Ty::Byte;
    s.gen(&mut v);
    assert_eq!(str::from_utf8(&v).unwrap(), "i8");
}

#[test]
fn ast_gen_ty_binary() {
    let mut v = Vec::new();
    let mut s = Ty::Binary;
    s.gen(&mut v);
    assert_eq!(str::from_utf8(&v).unwrap(), "Vec<i8>");
}

#[test]
fn ast_gen_ty_list() {
    let mut v = Vec::new();
    let mut s = Ty::List(Box::new(Ty::String));
    s.gen(&mut v);
    assert_eq!(str::from_utf8(&v).unwrap(), "Vec<String>");
}

#[test]
fn ast_gen_ty_map() {
    let mut v = Vec::new();
    let mut s = Ty::TMap(Box::new(Ty::String), Box::new(Ty::String));
    s.gen(&mut v);
    assert_eq!(str::from_utf8(&v).unwrap(), "HashMap<String, String>");
}

#[test]
fn ast_gen_struct_field() {
    let mut v = Vec::new();
    let mut s = StructFieldNode {
        order: 1,
        metadata: FieldMetadataNode::Required,
        ty: Ty::String,
        ident: IdentNode(format!("foobar"))
    };
    s.gen(&mut v);
    assert_eq!(str::from_utf8(&v).unwrap(), "foobar: String,\n");
}

#[test]
fn ast_gen_struct_optional_field() {
    let mut v = Vec::new();
    let mut s = StructFieldNode {
        order: 1,
        metadata: FieldMetadataNode::Optional,
        ty: Ty::String,
        ident: IdentNode(format!("foobar"))
    };
    s.gen(&mut v);
    assert_eq!(str::from_utf8(&v).unwrap(), "foobar: Option<String>,\n");
}

#[test]
fn ast_gen_struct() {
    let mut v = Vec::new();
    let mut field = StructFieldNode {
        order: 1,
        metadata: FieldMetadataNode::Required,
        ty: Ty::String,
        ident: IdentNode(format!("foobar"))
    };
    let mut s = StructNode {
        name: IdentNode(format!("Ping")),
        fields: vec![field]
    };

    s.gen(&mut v);

    assert_eq!(str::from_utf8(&v).unwrap(), "pub struct Ping {\nfoobar: String,\n}\n");
}

#[test]
fn ast_gen_struct_multi_fields() {
    let mut v = Vec::new();
    let mut field1 = StructFieldNode {
        order: 1,
        metadata: FieldMetadataNode::Required,
        ty: Ty::Signed64,
        ident: IdentNode(format!("length"))
    };

    let mut field2 = StructFieldNode {
        order: 2,
        metadata: FieldMetadataNode::Required,
        ty: Ty::Binary,
        ident: IdentNode(format!("buffer"))
    };

    let mut s = StructNode {
        name: IdentNode(format!("Data")),
        fields: vec![field1, field2]
    };

    s.gen(&mut v);

    assert_eq!(str::from_utf8(&v).unwrap(), "pub struct Data {\nlength: i64,\nbuffer: Vec<i8>,\n}\n");
}

#[test]
fn parser_gen_ty_string() {
    let mut v = Vec::new();
    let mut s = Ty::String;
    s.gen(&mut v);
    assert_eq!(str::from_utf8(&v).unwrap(), "String");
}

#[test]
fn parser_gen_ty_void() {
    let mut v = Vec::new();
    let mut s = Ty::Void;
    s.gen(&mut v);
    assert_eq!(str::from_utf8(&v).unwrap(), "()");
}

#[test]
fn parser_gen_ty_bool() {
    let mut v = Vec::new();
    let mut s = Ty::Bool;
    s.gen(&mut v);
    assert_eq!(str::from_utf8(&v).unwrap(), "bool");
}

#[test]
fn parser_gen_ty_i16() {
    let mut v = Vec::new();
    let mut s = Ty::Signed16;
    s.gen(&mut v);
    assert_eq!(str::from_utf8(&v).unwrap(), "i16");
}

#[test]
fn parser_gen_ty_i32() {
    let mut v = Vec::new();
    let mut s = Ty::Signed32;
    s.gen(&mut v);
    assert_eq!(str::from_utf8(&v).unwrap(), "i32");
}

#[test]
fn parser_gen_ty_i64() {
    let mut v = Vec::new();
    let mut s = Ty::Signed64;
    s.gen(&mut v);
    assert_eq!(str::from_utf8(&v).unwrap(), "i64");
}

#[test]
fn parser_gen_ty_byte() {
    let mut v = Vec::new();
    let mut s = Ty::Byte;
    s.gen(&mut v);
    assert_eq!(str::from_utf8(&v).unwrap(), "i8");
}

#[test]
fn parser_gen_ty_binary() {
    let mut v = Vec::new();
    let mut s = Ty::Binary;
    s.gen(&mut v);
    assert_eq!(str::from_utf8(&v).unwrap(), "Vec<i8>");
}

#[test]
fn parser_gen_ty_list() {
    let mut v = Vec::new();
    let mut s = Ty::List(Box::new(Ty::String));
    s.gen(&mut v);
    assert_eq!(str::from_utf8(&v).unwrap(), "Vec<String>");
}

#[test]
fn parser_gen_ty_map() {
    let mut v = Vec::new();
    let mut s = Ty::TMap(Box::new(Ty::String), Box::new(Ty::String));
    s.gen(&mut v);
    assert_eq!(str::from_utf8(&v).unwrap(), "HashMap<String, String>");
}

#[test]
fn parser_gen_struct_field() {
    let mut v = Vec::new();
    let mut s = StructFieldNode {
        order: 1,
        metadata: FieldMetadataNode::Required,
        ty: Ty::String,
        ident: IdentNode(format!("foobar"))
    };
    s.gen(&mut v);
    assert_eq!(str::from_utf8(&v).unwrap(), "foobar: String,\n");
}

#[test]
fn parser_gen_struct_optional_field() {
    let mut v = Vec::new();
    let mut s = StructFieldNode {
        order: 1,
        metadata: FieldMetadataNode::Optional,
        ty: Ty::String,
        ident: IdentNode(format!("foobar"))
    };
    s.gen(&mut v);
    assert_eq!(str::from_utf8(&v).unwrap(), "foobar: Option<String>,\n");
}

#[test]
fn parser_gen_struct() {
    let mut v = Vec::new();
    let mut field = StructFieldNode {
        order: 1,
        metadata: FieldMetadataNode::Required,
        ty: Ty::String,
        ident: IdentNode(format!("foobar"))
    };
    let mut s = StructNode {
        name: IdentNode(format!("Ping")),
        fields: vec![field]
    };

    s.gen(&mut v);

    assert_eq!(str::from_utf8(&v).unwrap(), "pub struct Ping {\nfoobar: String,\n}\n");
}

#[test]
fn parser_gen_struct_multi_fields() {
    let mut v = Vec::new();
    let mut field1 = StructFieldNode {
        order: 1,
        metadata: FieldMetadataNode::Required,
        ty: Ty::Signed64,
        ident: IdentNode(format!("length"))
    };

    let mut field2 = StructFieldNode {
        order: 2,
        metadata: FieldMetadataNode::Required,
        ty: Ty::Binary,
        ident: IdentNode(format!("buffer"))
    };

    let mut s = StructNode {
        name: IdentNode(format!("Data")),
        fields: vec![field1, field2]
    };

    s.gen(&mut v);

    assert_eq!(str::from_utf8(&v).unwrap(), "pub struct Data {\nlength: i64,\nbuffer: Vec<i8>,\n}\n");
}

#[test]
fn parse_names_the_simple_types() {
    assert_eq!(Ty::parse("byte".to_string(), vec![]), Ty::Byte);
    assert_eq!(Ty::parse("void".to_string(), vec![]), Ty::Void);
    assert_eq!(Ty::parse("bool".to_string(), vec![]), Ty::Bool);
    assert_eq!(Ty::parse("i16".to_string(), vec![]), Ty::Signed16);
    assert_eq!(Ty::parse("i32".to_string(), vec![]), Ty::Signed32);
    assert_eq!(Ty::parse("i64".to_string(), vec![]), Ty::Signed64);
    assert_eq!(Ty::parse("double".to_string(), vec![]), Ty::Double);
    assert_eq!(Ty::parse("binary".to_string(), vec![]), Ty::Binary);
    assert_eq!(Ty::parse("string".to_string(), vec![]), Ty::String);
}

#[test]
fn parse_applies_list_set_and_map() {
    assert_eq!(
        Ty::parse("list".to_string(), vec![Ty::String]),
        Ty::List(Box::new(Ty::String))
    );
    assert_eq!(
        Ty::parse("set".to_string(), vec![Ty::Byte]),
        Ty::TSet(Box::new(Ty::Byte))
    );
    assert_eq!(
        Ty::parse("map".to_string(), vec![Ty::Binary, Ty::Signed16]),
        Ty::TMap(Box::new(Ty::Binary), Box::new(Ty::Signed16))
    );
}

#[test]
fn field_metadata_parse_reads_both_attributes() {
    assert_eq!(FieldMetadataNode::parse("required"), FieldMetadataNode::Required);
    assert_eq!(FieldMetadataNode::parse("optional"), FieldMetadataNode::Optional);
}

#[test]
fn service_node_new_has_no_methods() {
    let node = ServiceNode::new(IdentNode(format!("Foobar")));
    assert_eq!(node.name, IdentNode(format!("Foobar")));
    assert!(node.methods.is_empty());
}

#[test]
fn gen_nested_types() {
    let mut v = Vec::new();
    let s = Ty::TMap(
        Box::new(Ty::Signed32),
        Box::new(Ty::List(Box::new(Ty::Binary))),
    );
    s.gen(&mut v);
    assert_eq!(str::from_utf8(&v).unwrap(), "HashMap<i32, Vec<Vec<i8>>>");
}

#[test]
fn gen_double_and_set_write_nothing() {
    let mut v = Vec::new();
    Ty::Double.gen(&mut v);
    Ty::TSet(Box::new(Ty::String)).gen(&mut v);
    assert!(v.is_empty());
}

#[test]
fn gen_appends_to_what_is_there() {
    let mut v = b"x: ".to_vec();
    Ty::Bool.gen(&mut v);
    assert_eq!(str::from_utf8(&v).unwrap(), "x: bool");
}

#[test]
fn gen_namespace_wraps_its_nodes() {
    let mut ns = NamespaceNode::new(IdentNode(format!("rust")), format!("ping"));
    assert_eq!(ns.lang, IdentNode(format!("rust")));
    assert_eq!(ns.ns, "ping");
    assert!(ns.nodes.is_empty());
    ns.nodes.push(Box::new(StructNode {
        name: IdentNode(format!("Ping")),
        fields: vec![StructFieldNode {
            order: 1,
            metadata: FieldMetadataNode::Optional,
            ty: Ty::Signed64,
            ident: IdentNode(format!("at")),
        }],
    }));
    ns.nodes.push(Box::new(EnumNode {
        name: IdentNode(format!("Kind")),
    }));
    let mut v = Vec::new();
    ns.gen(&mut v);
    assert_eq!(
        str::from_utf8(&v).unwrap(),
        "pub mod ping {\npub struct Ping {\nat: Option<i64>,\n}\n\n}"
    );
}

#[test]
fn gen_namespace_of_another_language_writes_nothing() {
    let ns = NamespaceNode::new(IdentNode(format!("java")), format!("ping"));
    let mut v = Vec::new();
    ns.gen(&mut v);
    assert!(v.is_empty());
}

#[test]
fn gen_function_ident_and_enum_write_nothing() {
    let mut v = Vec::new();
    FunctionNode {
        name: IdentNode(format!("ping")),
        ret: Ty::Void,
    }
    .gen(&mut v);
    IdentNode(format!("ping")).gen(&mut v);
    EnumNode {
        name: IdentNode(format!("E")),
    }
    .gen(&mut v);
    assert!(v.is_empty());
}
