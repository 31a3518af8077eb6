//! What a service description is made of once it has been read: its types,
//! structs, enums, services and the tokens of its text.

use crate::text::str_eq;
use vstd::prelude::*;
use vstd::std_specs::convert::FromSpecImpl;
use vstd::string::StringExecFns;

verus! {

#[derive(Debug, PartialEq, Eq)]
pub enum Ty {
    String,
    Void,
    Byte,
    Bool,
    Binary,
    I16,
    I32,
    I64,
    Double,
    List(Box<Ty>),
    TSet(Box<Ty>),
    TMap(Box<Ty>, Box<Ty>),
    Option(Box<Ty>),
    /// A type that the description defines itself.
    Ident(String),
}

impl From<String> for Ty {
    /// The type that a name stands for. A name that is none of the built-in
    /// types is the name of a type that the description defines.
    fn from(val: String) -> (ty: Ty) {
        let name = val.as_str();
        if str_eq(name, "string") {
            Ty::String
        } else if str_eq(name, "void") {
            Ty::Void
        } else if str_eq(name, "byte") {
            Ty::Byte
        } else if str_eq(name, "bool") {
            Ty::Bool
        } else if str_eq(name, "binary") {
            Ty::Binary
        } else if str_eq(name, "i16") {
            Ty::I16
        } else if str_eq(name, "i32") {
            Ty::I32
        } else if str_eq(name, "i64") {
            Ty::I64
        } else if str_eq(name, "double") {
            Ty::Double
        } else {
            Ty::Ident(val)
        }
    }
}

impl FromSpecImpl<String> for Ty {
    open spec fn obeys_from_spec() -> bool {
        true
    }

    open spec fn from_spec(val: String) -> Ty {
        if val@ == "string"@ {
            Ty::String
        } else if val@ == "void"@ {
            Ty::Void
        } else if val@ == "byte"@ {
            Ty::Byte
        } else if val@ == "bool"@ {
            Ty::Bool
        } else if val@ == "binary"@ {
            Ty::Binary
        } else if val@ == "i16"@ {
            Ty::I16
        } else if val@ == "i32"@ {
            Ty::I32
        } else if val@ == "i64"@ {
            Ty::I64
        } else if val@ == "double"@ {
            Ty::Double
        } else {
            Ty::Ident(val)
        }
    }
}

impl Ty {
    /// Whether the type has a wire type of its own. An optional type and a
    /// type that the description defines have none.
    pub open spec fn has_protocol(self) -> bool {
        !(self is Option) && !(self is Ident)
    }

    /// The wire type of the type, as it is spelled in source text. Bytes
    /// travel as a list.
    pub open spec fn protocol_name(self) -> Seq<char> {
        match self {
            Ty::String => "ThriftType::String"@,
            Ty::Void => "ThriftType::Void"@,
            Ty::Bool => "ThriftType::Bool"@,
            Ty::Byte => "ThriftType::Byte"@,
            Ty::Double => "ThriftType::Double"@,
            Ty::I16 => "ThriftType::I16"@,
            Ty::I32 => "ThriftType::I32"@,
            Ty::I64 => "ThriftType::I64"@,
            Ty::TMap(_, _) => "ThriftType::Map"@,
            Ty::List(_) => "ThriftType::List"@,
            Ty::TSet(_) => "ThriftType::Set"@,
            Ty::Binary => "ThriftType::List"@,
            _ => Seq::empty(),
        }
    }

    /// The Rust type that stands for the type, as it is spelled in source
    /// text.
    pub open spec fn rust_name(self) -> Seq<char>
        decreases self,
    {
        match self {
            Ty::String => "String"@,
            Ty::Void => "()"@,
            Ty::Byte => "i8"@,
            Ty::Bool => "bool"@,
            Ty::Binary => "Vec<i8>"@,
            Ty::I16 => "i16"@,
            Ty::I32 => "i32"@,
            Ty::I64 => "i64"@,
            Ty::Double => "double"@,
            Ty::Option(t) => "Option<"@ + t.rust_name() + ">"@,
            Ty::List(t) => "Vec<"@ + t.rust_name() + ">"@,
            Ty::TSet(t) => "HashSet<"@ + t.rust_name() + ">"@,
            Ty::TMap(a, b) => "HashMap<"@ + a.rust_name() + ", "@ + b.rust_name() + ">"@,
            Ty::Ident(s) => s@,
        }
    }

    pub fn to_protocol(&self) -> (name: &'static str)
        requires
            self.has_protocol(),
        ensures
            name@ == self.protocol_name(),
    {
        match self {
            Ty::String => "ThriftType::String",
            Ty::Void => "ThriftType::Void",
            Ty::Bool => "ThriftType::Bool",
            Ty::Byte => "ThriftType::Byte",
            Ty::Double => "ThriftType::Double",
            Ty::I16 => "ThriftType::I16",
            Ty::I32 => "ThriftType::I32",
            Ty::I64 => "ThriftType::I64",
            Ty::TMap(_, _) => "ThriftType::Map",
            Ty::List(_) => "ThriftType::List",
            Ty::TSet(_) => "ThriftType::Set",
            Ty::Binary => "ThriftType::List",
            _ => vstd::pervasive::unreached(),
        }
    }

    pub fn to_string(&self) -> (name: String)
        ensures
            name@ == self.rust_name(),
        decreases self,
    {
        match self {
            Ty::String => String::from_str("String"),
            Ty::Void => String::from_str("()"),
            Ty::Byte => String::from_str("i8"),
            Ty::Bool => String::from_str("bool"),
            Ty::Binary => String::from_str("Vec<i8>"),
            Ty::I16 => String::from_str("i16"),
            Ty::I32 => String::from_str("i32"),
            Ty::I64 => String::from_str("i64"),
            Ty::Double => String::from_str("double"),
            Ty::Option(t) => {
                let inner = t.to_string();
                String::from_str("Option<").concat(inner.as_str()).concat(">")
            },
            Ty::List(s) => {
                let inner = s.to_string();
                String::from_str("Vec<").concat(inner.as_str()).concat(">")
            },
            Ty::TSet(s) => {
                let inner = s.to_string();
                String::from_str("HashSet<").concat(inner.as_str()).concat(">")
            },
            Ty::TMap(a, b) => {
                let a = a.to_string();
                let b = b.to_string();
                String::from_str("HashMap<").concat(a.as_str()).concat(", ").concat(
                    b.as_str(),
                ).concat(">")
            },
            Ty::Ident(s) => s.clone(),
        }
    }
}

#[derive(Debug, PartialEq, Eq)]
pub struct Include {
    pub path: String,
}

#[derive(Debug, PartialEq, Eq)]
pub struct Service {
    pub ident: String,
    pub methods: Vec<ServiceMethod>,
}

#[derive(Debug, PartialEq, Eq)]
pub struct ServiceMethod {
    pub ident: String,
    pub ty: Ty,
    pub attr: FieldAttribute,
    pub args: Vec<StructField>,
}

#[derive(Debug, PartialEq, Eq)]
pub struct Enum {
    pub ident: String,
    pub variants: Vec<String>,
}

#[derive(Debug, PartialEq, Eq)]
pub struct Struct {
    pub ident: String,
    pub fields: Vec<StructField>,
}

#[derive(Debug, PartialEq, Eq, Clone, Copy, Structural)]
pub enum FieldAttribute {
    Optional,
    Required,
    Oneway,
}

#[derive(Debug, PartialEq, Eq)]
pub struct StructField {
    pub seq: i16,
    pub attr: FieldAttribute,
    pub ty: Ty,
    pub ident: String,
}

#[derive(Debug, PartialEq, Eq)]
pub struct Typedef(pub Ty, pub String);

#[derive(Debug, PartialEq, Eq)]
pub struct Namespace {
    pub lang: String,
    pub module: String,
}

#[derive(Debug, PartialEq, Eq, Hash, Copy, Clone, Structural)]
pub enum Keyword {
    Struct,
    Service,
    Enum,
    Namespace,
    Required,
    Optional,
    Oneway,
    Typedef,
    Throws,
    Exception,
    Include,
    Const,
}

#[derive(Debug, PartialEq, Eq, Hash, Clone)]
pub enum Token {
    Eq,
    Colon,
    SingleQuote,
    Dot,
    Semi,
    At,
    Comma,
    LCurly,
    RCurly,
    LAngle,
    RAngle,
    LParen,
    RParen,
    Number(i16),
    QuotedString(String),
    Ident(String),
    Keyword(Keyword),
    /// Useless comments.
    Comment,
    Whitespace,
    Eof,
    B,
}

/// A type with the names in it as plain texts.
pub enum TyView {
    String,
    Void,
    Byte,
    Bool,
    Binary,
    I16,
    I32,
    I64,
    Double,
    List(Box<TyView>),
    TSet(Box<TyView>),
    TMap(Box<TyView>, Box<TyView>),
    Option(Box<TyView>),
    Ident(Seq<char>),
}

impl Ty {
    /// The type with the names in it as plain texts.
    pub open spec fn model(self) -> TyView
        decreases self,
    {
        match self {
            Ty::String => TyView::String,
            Ty::Void => TyView::Void,
            Ty::Byte => TyView::Byte,
            Ty::Bool => TyView::Bool,
            Ty::Binary => TyView::Binary,
            Ty::I16 => TyView::I16,
            Ty::I32 => TyView::I32,
            Ty::I64 => TyView::I64,
            Ty::Double => TyView::Double,
            Ty::List(t) => TyView::List(Box::new(t.model())),
            Ty::TSet(t) => TyView::TSet(Box::new(t.model())),
            Ty::TMap(a, b) => TyView::TMap(Box::new(a.model()), Box::new(b.model())),
            Ty::Option(t) => TyView::Option(Box::new(t.model())),
            Ty::Ident(s) => TyView::Ident(s@),
        }
    }

    /// The type that a name stands for: one of the built-in types, or a
    /// type that the description defines.
    pub open spec fn named(name: Seq<char>) -> TyView {
        if name == "string"@ {
            TyView::String
        } else if name == "void"@ {
            TyView::Void
        } else if name == "byte"@ {
            TyView::Byte
        } else if name == "bool"@ {
            TyView::Bool
        } else if name == "binary"@ {
            TyView::Binary
        } else if name == "i16"@ {
            TyView::I16
        } else if name == "i32"@ {
            TyView::I32
        } else if name == "i64"@ {
            TyView::I64
        } else if name == "double"@ {
            TyView::Double
        } else {
            TyView::Ident(name)
        }
    }
}

impl View for Ty {
    type V = TyView;

    open spec fn view(&self) -> TyView {
        self.model()
    }
}

/// A field with its type and its name as plain values.
pub struct StructFieldView {
    pub seq: i16,
    pub attr: FieldAttribute,
    pub ty: TyView,
    pub ident: Seq<char>,
}

impl View for StructField {
    type V = StructFieldView;

    open spec fn view(&self) -> StructFieldView {
        StructFieldView {
            seq: self.seq,
            attr: self.attr,
            ty: self.ty.model(),
            ident: self.ident@,
        }
    }
}

/// The fields of a list as plain values.
pub open spec fn field_views(fields: Seq<StructField>) -> Seq<StructFieldView> {
    Seq::new(fields.len(), |i: int| fields[i]@)
}

/// The texts of a list of strings.
pub open spec fn texts(strings: Seq<String>) -> Seq<Seq<char>> {
    Seq::new(strings.len(), |i: int| strings[i]@)
}

/// A method with its types and names as plain values.
pub struct ServiceMethodView {
    pub ident: Seq<char>,
    pub ty: TyView,
    pub attr: FieldAttribute,
    pub args: Seq<StructFieldView>,
}

impl View for ServiceMethod {
    type V = ServiceMethodView;

    open spec fn view(&self) -> ServiceMethodView {
        ServiceMethodView {
            ident: self.ident@,
            ty: self.ty.model(),
            attr: self.attr,
            args: field_views(self.args@),
        }
    }
}

/// The methods of a list as plain values.
pub open spec fn method_views(methods: Seq<ServiceMethod>) -> Seq<ServiceMethodView> {
    Seq::new(methods.len(), |i: int| methods[i]@)
}

/// A service with its name and its methods as plain values.
pub struct ServiceView {
    pub ident: Seq<char>,
    pub methods: Seq<ServiceMethodView>,
}

impl View for Service {
    type V = ServiceView;

    open spec fn view(&self) -> ServiceView {
        ServiceView { ident: self.ident@, methods: method_views(self.methods@) }
    }
}

/// An enum with its name and its variants as plain texts.
pub struct EnumView {
    pub ident: Seq<char>,
    pub variants: Seq<Seq<char>>,
}

impl View for Enum {
    type V = EnumView;

    open spec fn view(&self) -> EnumView {
        EnumView { ident: self.ident@, variants: texts(self.variants@) }
    }
}

/// A struct with its name and its fields as plain values.
pub struct StructView {
    pub ident: Seq<char>,
    pub fields: Seq<StructFieldView>,
}

impl View for Struct {
    type V = StructView;

    open spec fn view(&self) -> StructView {
        StructView { ident: self.ident@, fields: field_views(self.fields@) }
    }
}

impl View for Typedef {
    type V = (TyView, Seq<char>);

    open spec fn view(&self) -> (TyView, Seq<char>) {
        (self.0.model(), self.1@)
    }
}

impl View for Namespace {
    type V = (Seq<char>, Seq<char>);

    /// The language and the module.
    open spec fn view(&self) -> (Seq<char>, Seq<char>) {
        (self.lang@, self.module@)
    }
}

impl View for Include {
    type V = Seq<char>;

    /// The path.
    open spec fn view(&self) -> Seq<char> {
        self.path@
    }
}

/// A token with the text in it as a plain text.
pub enum TokenView {
    Eq,
    Colon,
    SingleQuote,
    Dot,
    Semi,
    At,
    Comma,
    LCurly,
    RCurly,
    LAngle,
    RAngle,
    LParen,
    RParen,
    Number(i16),
    QuotedString(Seq<char>),
    Ident(Seq<char>),
    Keyword(Keyword),
    Comment,
    Whitespace,
    Eof,
    B,
}

impl View for Token {
    type V = TokenView;

    open spec fn view(&self) -> TokenView {
        match *self {
            Token::Eq => TokenView::Eq,
            Token::Colon => TokenView::Colon,
            Token::SingleQuote => TokenView::SingleQuote,
            Token::Dot => TokenView::Dot,
            Token::Semi => TokenView::Semi,
            Token::At => TokenView::At,
            Token::Comma => TokenView::Comma,
            Token::LCurly => TokenView::LCurly,
            Token::RCurly => TokenView::RCurly,
            Token::LAngle => TokenView::LAngle,
            Token::RAngle => TokenView::RAngle,
            Token::LParen => TokenView::LParen,
            Token::RParen => TokenView::RParen,
            Token::Number(n) => TokenView::Number(n),
            Token::QuotedString(s) => TokenView::QuotedString(s@),
            Token::Ident(s) => TokenView::Ident(s@),
            Token::Keyword(k) => TokenView::Keyword(k),
            Token::Comment => TokenView::Comment,
            Token::Whitespace => TokenView::Whitespace,
            Token::Eof => TokenView::Eof,
            Token::B => TokenView::B,
        }
    }
}

impl Token {
    /// Whether two tokens are the same token with the same text.
    pub fn same(&self, other: &Token) -> (b: bool)
        ensures
            b == (self@ == other@),
    {
        match (self, other) {
            (Token::Eq, Token::Eq) => true,
            (Token::Colon, Token::Colon) => true,
            (Token::SingleQuote, Token::SingleQuote) => true,
            (Token::Dot, Token::Dot) => true,
            (Token::Semi, Token::Semi) => true,
            (Token::At, Token::At) => true,
            (Token::Comma, Token::Comma) => true,
            (Token::LCurly, Token::LCurly) => true,
            (Token::RCurly, Token::RCurly) => true,
            (Token::LAngle, Token::LAngle) => true,
            (Token::RAngle, Token::RAngle) => true,
            (Token::LParen, Token::LParen) => true,
            (Token::RParen, Token::RParen) => true,
            (Token::Number(a), Token::Number(b)) => *a == *b,
            (Token::QuotedString(a), Token::QuotedString(b)) => str_eq(a.as_str(), b.as_str()),
            (Token::Ident(a), Token::Ident(b)) => str_eq(a.as_str(), b.as_str()),
            (Token::Keyword(a), Token::Keyword(b)) => *a == *b,
            (Token::Comment, Token::Comment) => true,
            (Token::Whitespace, Token::Whitespace) => true,
            (Token::Eof, Token::Eof) => true,
            (Token::B, Token::B) => true,
            _ => false,
        }
    }

    /// A token like this one.
    pub fn copy(&self) -> (t: Token)
        ensures
            t@ == self@,
    {
        match self {
            Token::Eq => Token::Eq,
            Token::Colon => Token::Colon,
            Token::SingleQuote => Token::SingleQuote,
            Token::Dot => Token::Dot,
            Token::Semi => Token::Semi,
            Token::At => Token::At,
            Token::Comma => Token::Comma,
            Token::LCurly => Token::LCurly,
            Token::RCurly => Token::RCurly,
            Token::LAngle => Token::LAngle,
            Token::RAngle => Token::RAngle,
            Token::LParen => Token::LParen,
            Token::RParen => Token::RParen,
            Token::Number(n) => Token::Number(*n),
            Token::QuotedString(s) => Token::QuotedString(s.clone()),
            Token::Ident(s) => Token::Ident(s.clone()),
            Token::Keyword(k) => Token::Keyword(*k),
            Token::Comment => Token::Comment,
            Token::Whitespace => Token::Whitespace,
            Token::Eof => Token::Eof,
            Token::B => Token::B,
        }
    }
}

} // verus!
