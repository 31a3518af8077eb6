//! The syntax tree of a service description and the Rust source text that
//! each node stands for.

use crate::text::{push_str, str_eq, utf8};
use vstd::prelude::*;

verus! {

/// A node that can be written out as Rust source text.
pub trait Ast {
    /// The UTF-8 bytes of the source text of this node.
    spec fn text(&self) -> Seq<u8>;

    /// Appends the source text of this node to `w`.
    fn gen(&self, w: &mut Vec<u8>)
        ensures
            final(w)@ == old(w)@ + self.text(),
    ;
}

#[derive(PartialEq, Eq, Debug)]
pub enum Ty {
    Void,
    Bool,
    Byte,
    Signed16,
    Signed32,
    Signed64,
    Double,
    Binary,
    String,
    List(Box<Ty>),
    TSet(Box<Ty>),
    TMap(Box<Ty>, Box<Ty>),
}

impl Ty {
    /// The type that the name `input` denotes when it is applied to the
    /// type arguments `gens`, if it denotes one.
    pub open spec fn parse_spec(input: Seq<char>, gens: Seq<Ty>) -> Option<Ty> {
        if input == "byte"@ {
            if gens.len() == 0 { Some(Ty::Byte) } else { None }
        } else if input == "void"@ {
            if gens.len() == 0 { Some(Ty::Void) } else { None }
        } else if input == "bool"@ {
            if gens.len() == 0 { Some(Ty::Bool) } else { None }
        } else if input == "i16"@ {
            if gens.len() == 0 { Some(Ty::Signed16) } else { None }
        } else if input == "i32"@ {
            if gens.len() == 0 { Some(Ty::Signed32) } else { None }
        } else if input == "i64"@ {
            if gens.len() == 0 { Some(Ty::Signed64) } else { None }
        } else if input == "double"@ {
            if gens.len() == 0 { Some(Ty::Double) } else { None }
        } else if input == "binary"@ {
            if gens.len() == 0 { Some(Ty::Binary) } else { None }
        } else if input == "string"@ {
            if gens.len() == 0 { Some(Ty::String) } else { None }
        } else if input == "list"@ {
            if gens.len() == 1 { Some(Ty::List(Box::new(gens[0]))) } else { None }
        } else if input == "set"@ {
            if gens.len() == 1 { Some(Ty::TSet(Box::new(gens[0]))) } else { None }
        } else if input == "map"@ {
            if gens.len() == 2 {
                Some(Ty::TMap(Box::new(gens[0]), Box::new(gens[1])))
            } else {
                None
            }
        } else {
            None
        }
    }

    /// Builds the type named `input` from its type arguments. A name that
    /// is no type, or a wrong number of arguments, is not accepted.
    pub fn parse(input: String, mut gens: Vec<Ty>) -> (ty: Ty)
        requires
            Ty::parse_spec(input@, gens@) is Some,
        ensures
            Some(ty) == Ty::parse_spec(input@, gens@),
    {
        let name = input.as_str();
        if str_eq(name, "byte") {
            Ty::Byte
        } else if str_eq(name, "void") {
            Ty::Void
        } else if str_eq(name, "bool") {
            Ty::Bool
        } else if str_eq(name, "i16") {
            Ty::Signed16
        } else if str_eq(name, "i32") {
            Ty::Signed32
        } else if str_eq(name, "i64") {
            Ty::Signed64
        } else if str_eq(name, "double") {
            Ty::Double
        } else if str_eq(name, "binary") {
            Ty::Binary
        } else if str_eq(name, "string") {
            Ty::String
        } else if str_eq(name, "list") {
            let elem = gens.pop().unwrap();
            Ty::List(Box::new(elem))
        } else if str_eq(name, "set") {
            let elem = gens.pop().unwrap();
            Ty::TSet(Box::new(elem))
        } else {
            let last = gens.pop().unwrap();
            let first = gens.pop().unwrap();
            Ty::TMap(Box::new(first), Box::new(last))
        }
    }

    /// The Rust spelling of this type. `double` and sets have none and
    /// are written as nothing.
    pub open spec fn rendered(self) -> Seq<u8>
        decreases self,
    {
        match self {
            Ty::String => utf8("String"@),
            Ty::Void => utf8("()"@),
            Ty::Byte => utf8("i8"@),
            Ty::Binary => utf8("Vec<i8>"@),
            Ty::Signed16 => utf8("i16"@),
            Ty::Signed32 => utf8("i32"@),
            Ty::Signed64 => utf8("i64"@),
            Ty::Bool => utf8("bool"@),
            Ty::List(t) => utf8("Vec<"@) + t.rendered() + utf8(">"@),
            Ty::TMap(k, v) => utf8("HashMap<"@) + k.rendered() + utf8(", "@) + v.rendered() + utf8(
                ">"@,
            ),
            Ty::Double => Seq::empty(),
            Ty::TSet(_) => Seq::empty(),
        }
    }
}

impl Ast for Ty {
    open spec fn text(&self) -> Seq<u8> {
        self.rendered()
    }

    fn gen(&self, w: &mut Vec<u8>)
        decreases self,
    {
        match self {
            Ty::String => push_str(w, "String"),
            Ty::Void => push_str(w, "()"),
            Ty::Byte => push_str(w, "i8"),
            Ty::Binary => push_str(w, "Vec<i8>"),
            Ty::Signed16 => push_str(w, "i16"),
            Ty::Signed32 => push_str(w, "i32"),
            Ty::Signed64 => push_str(w, "i64"),
            Ty::Bool => push_str(w, "bool"),
            Ty::List(t) => {
                push_str(w, "Vec<");
                t.gen(w);
                push_str(w, ">");
            },
            Ty::TMap(k, v) => {
                push_str(w, "HashMap<");
                k.gen(w);
                push_str(w, ", ");
                v.gen(w);
                push_str(w, ">");
            },
            _ => {},
        }
    }
}

#[derive(PartialEq, Eq, Debug)]
pub struct IdentNode(pub String);

#[derive(PartialEq, Eq, Debug)]
pub struct FunctionNode {
    pub name: IdentNode,
    pub ret: Ty,
}

#[derive(PartialEq, Eq, Debug)]
pub struct ServiceNode {
    pub name: IdentNode,
    pub methods: Vec<FunctionNode>,
}

impl ServiceNode {
    /// A service of the given name that has no methods yet.
    pub fn new(name: IdentNode) -> (node: ServiceNode)
        ensures
            node.name == name,
            node.methods@ == Seq::<FunctionNode>::empty(),
    {
        ServiceNode { name: name, methods: Vec::new() }
    }
}

#[derive(PartialEq, Eq, Debug)]
pub enum FieldMetadataNode {
    Required,
    Optional,
}

impl FieldMetadataNode {
    /// The attribute that the word `input` names, if it names one.
    pub open spec fn parse_spec(input: Seq<char>) -> Option<FieldMetadataNode> {
        if input == "required"@ {
            Some(FieldMetadataNode::Required)
        } else if input == "optional"@ {
            Some(FieldMetadataNode::Optional)
        } else {
            None
        }
    }

    /// Reads a field attribute. Only `required` and `optional` are
    /// attributes.
    pub fn parse(input: &str) -> (meta: FieldMetadataNode)
        requires
            FieldMetadataNode::parse_spec(input@) is Some,
        ensures
            Some(meta) == FieldMetadataNode::parse_spec(input@),
    {
        if str_eq(input, "required") {
            FieldMetadataNode::Required
        } else {
            FieldMetadataNode::Optional
        }
    }
}

#[derive(PartialEq, Eq, Debug)]
pub struct StructFieldNode {
    pub order: u8,
    pub metadata: FieldMetadataNode,
    pub ty: Ty,
    pub ident: IdentNode,
}

#[derive(PartialEq, Eq, Debug)]
pub struct StructNode {
    pub name: IdentNode,
    pub fields: Vec<StructFieldNode>,
}

#[derive(PartialEq, Eq, Debug)]
pub struct EnumNode {
    pub name: IdentNode,
}

pub struct NamespaceNode {
    pub lang: IdentNode,
    pub ns: String,
    pub nodes: Vec<Box<dyn Ast>>,
}

impl NamespaceNode {
    /// A namespace for the language `lang` that holds no nodes yet.
    pub fn new(lang: IdentNode, ns: String) -> (node: NamespaceNode)
        ensures
            node.lang == lang,
            node.ns == ns,
            node.nodes@.len() == 0,
    {
        NamespaceNode { lang: lang, ns: ns, nodes: Vec::new() }
    }

    /// The source text of the first `n` nodes, one after the other.
    pub open spec fn nodes_text(self, n: int) -> Seq<u8>
        decreases n,
    {
        if n <= 0 {
            Seq::empty()
        } else {
            self.nodes_text(n - 1) + self.nodes@[n - 1].text()
        }
    }
}

impl Ast for NamespaceNode {
    open spec fn text(&self) -> Seq<u8> {
        if self.lang.0@ == "rust"@ {
            utf8("pub mod "@) + utf8(self.ns@) + utf8(" {\n"@) + self.nodes_text(
                self.nodes@.len() as int,
            ) + utf8("\n}"@)
        } else {
            Seq::empty()
        }
    }

    fn gen(&self, w: &mut Vec<u8>) {
        if str_eq(self.lang.0.as_str(), "rust") {
            push_str(w, "pub mod ");
            push_str(w, self.ns.as_str());
            push_str(w, " {\n");
            let ghost head = w@;
            let mut i: usize = 0;
            while i < self.nodes.len()
                invariant
                    i <= self.nodes@.len(),
                    w@ == head + self.nodes_text(i as int),
                decreases self.nodes@.len() - i,
            {
                self.nodes[i].gen(w);
                i += 1;
            }
            push_str(w, "\n}");
        }
    }
}

impl Ast for EnumNode {
    open spec fn text(&self) -> Seq<u8> {
        Seq::empty()
    }

    fn gen(&self, w: &mut Vec<u8>) {
        assert(w@ + Seq::<u8>::empty() =~= w@);
    }
}

impl Ast for IdentNode {
    open spec fn text(&self) -> Seq<u8> {
        Seq::empty()
    }

    fn gen(&self, w: &mut Vec<u8>) {
        assert(w@ + Seq::<u8>::empty() =~= w@);
    }
}

impl Ast for FunctionNode {
    open spec fn text(&self) -> Seq<u8> {
        Seq::empty()
    }

    fn gen(&self, w: &mut Vec<u8>) {
        assert(w@ + Seq::<u8>::empty() =~= w@);
    }
}

impl StructNode {
    /// The source text of the first `n` fields, one after the other.
    pub open spec fn fields_text(self, n: int) -> Seq<u8>
        decreases n,
    {
        if n <= 0 {
            Seq::empty()
        } else {
            self.fields_text(n - 1) + self.fields@[n - 1].text()
        }
    }
}

impl Ast for StructNode {
    open spec fn text(&self) -> Seq<u8> {
        utf8("pub struct "@) + utf8(self.name.0@) + utf8(" {\n"@) + self.fields_text(
            self.fields@.len() as int,
        ) + utf8("}\n"@)
    }

    fn gen(&self, w: &mut Vec<u8>) {
        push_str(w, "pub struct ");
        push_str(w, self.name.0.as_str());
        push_str(w, " {\n");
        let ghost head = w@;
        let mut i: usize = 0;
        while i < self.fields.len()
            invariant
                i <= self.fields@.len(),
                w@ == head + self.fields_text(i as int),
            decreases self.fields@.len() - i,
        {
            self.fields[i].gen(w);
            i += 1;
        }
        push_str(w, "}\n");
    }
}

impl Ast for StructFieldNode {
    open spec fn text(&self) -> Seq<u8> {
        if self.metadata == FieldMetadataNode::Optional {
            utf8(self.ident.0@) + utf8(": "@) + utf8("Option<"@) + self.ty.rendered() + utf8(">"@)
                + utf8(",\n"@)
        } else {
            utf8(self.ident.0@) + utf8(": "@) + self.ty.rendered() + utf8(",\n"@)
        }
    }

    fn gen(&self, w: &mut Vec<u8>) {
        push_str(w, self.ident.0.as_str());
        push_str(w, ": ");
        let optional = match self.metadata {
            FieldMetadataNode::Optional => true,
            FieldMetadataNode::Required => false,
        };
        if optional {
            push_str(w, "Option<");
        }
        self.ty.gen(w);
        if optional {
            push_str(w, ">");
        }
        push_str(w, ",\n");
    }
}

impl View for Ty {
    type V = Ty;

    /// A type holds no text: it is its own plain value.
    open spec fn view(&self) -> Ty {
        *self
    }
}

impl View for IdentNode {
    type V = Seq<char>;

    open spec fn view(&self) -> Seq<char> {
        self.0@
    }
}

impl View for FieldMetadataNode {
    type V = FieldMetadataNode;

    open spec fn view(&self) -> FieldMetadataNode {
        *self
    }
}

/// A function with its name as a plain text.
pub struct FunctionView {
    pub name: Seq<char>,
    pub ret: Ty,
}

impl View for FunctionNode {
    type V = FunctionView;

    open spec fn view(&self) -> FunctionView {
        FunctionView { name: self.name@, ret: self.ret }
    }
}

/// The functions of a list as plain values.
pub open spec fn function_views(functions: Seq<FunctionNode>) -> Seq<FunctionView> {
    Seq::new(functions.len(), |i: int| functions[i]@)
}

/// A service with its name and its methods as plain values.
pub struct ServiceView {
    pub name: Seq<char>,
    pub methods: Seq<FunctionView>,
}

impl View for ServiceNode {
    type V = ServiceView;

    open spec fn view(&self) -> ServiceView {
        ServiceView { name: self.name@, methods: function_views(self.methods@) }
    }
}

/// A field with its name as a plain text.
pub struct StructFieldView {
    pub order: u8,
    pub metadata: FieldMetadataNode,
    pub ty: Ty,
    pub ident: Seq<char>,
}

impl View for StructFieldNode {
    type V = StructFieldView;

    open spec fn view(&self) -> StructFieldView {
        StructFieldView {
            order: self.order,
            metadata: self.metadata,
            ty: self.ty,
            ident: self.ident@,
        }
    }
}

/// The fields of a list as plain values.
pub open spec fn field_views(fields: Seq<StructFieldNode>) -> Seq<StructFieldView> {
    Seq::new(fields.len(), |i: int| fields[i]@)
}

/// A struct with its name and its fields as plain values.
pub struct StructView {
    pub name: Seq<char>,
    pub fields: Seq<StructFieldView>,
}

impl View for StructNode {
    type V = StructView;

    open spec fn view(&self) -> StructView {
        StructView { name: self.name@, fields: field_views(self.fields@) }
    }
}

} // verus!
