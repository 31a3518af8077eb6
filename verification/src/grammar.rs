//! The grammar of service descriptions, read from bytes.
//!
//! Every rule takes the bytes that are left and says how it goes on from
//! their head: with a value and the bytes after it, with an error, or with
//! the finding that the input ends too early to decide. What a rule does is
//! stated as a function on byte sequences; the executable rule is proved to
//! compute it. Runs of letters, digits and blanks are recognised by `nom`.

use crate::ast::{
    field_views, function_views, FieldMetadataNode, FunctionNode, FunctionView, IdentNode,
    NamespaceNode, ServiceNode, ServiceView, StructFieldNode, StructFieldView, StructNode,
    StructView, Ty,
};
use crate::schema::texts;
use crate::text::{text_of, utf8};
use vstd::prelude::*;
use vstd::slice::{slice_subrange, slice_to_vec};
use vstd::utf8::{decode_utf8, valid_utf8};

verus! {

/// How a rule went on from the head of its input.
#[derive(PartialEq, Eq, Debug)]
pub enum Parsed<'a, T> {
    /// The rule matched: the bytes after the match, and its value.
    Done(&'a [u8], T),
    /// The input does not start with what the rule reads.
    Error,
    /// The input ends before the rule can decide.
    Incomplete,
}

/// What a rule makes of a byte sequence: on a match, how many bytes it
/// takes from the head and the value it gives.
pub enum Outcome<T> {
    Done(nat, T),
    Error,
    Incomplete,
}

/// Whether the result `r` of a rule on `input` is the outcome `o`.
pub open spec fn agrees<'a, T: View>(r: Parsed<'a, T>, input: Seq<u8>, o: Outcome<T::V>) -> bool {
    match o {
        Outcome::Done(n, v) => r matches Parsed::Done(rest, out) && n <= input.len() && rest@
            == input.skip(n as int) && out@ == v,
        Outcome::Error => r is Error,
        Outcome::Incomplete => r is Incomplete,
    }
}

/// The classes of bytes that runs are made of.
#[derive(Clone, Copy)]
pub enum Class {
    /// ASCII letters and digits.
    Alphanumeric,
    /// ASCII digits.
    Digit,
    /// Space and tab.
    Space,
    /// Space, tab, carriage return and line feed.
    Multispace,
}

/// Whether `b` is an ASCII letter or digit.
pub open spec fn alphanumeric_byte(b: u8) -> bool {
    (0x41 <= b <= 0x5a) || (0x61 <= b <= 0x7a) || (0x30 <= b <= 0x39)
}

/// Whether the byte `b` belongs to `class`.
pub open spec fn in_class(class: Class, b: u8) -> bool {
    match class {
        Class::Alphanumeric => alphanumeric_byte(b),
        Class::Digit => 0x30 <= b <= 0x39,
        Class::Space => b == 0x20 || b == 0x09,
        Class::Multispace => b == 0x20 || b == 0x09 || b == 0x0d || b == 0x0a,
    }
}

/// The length of the longest run of bytes of `class` at the head of `s`.
pub open spec fn run_len(class: Class, s: Seq<u8>) -> nat
    decreases s.len(),
{
    if s.len() > 0 && in_class(class, s[0]) {
        1 + run_len(class, s.skip(1))
    } else {
        0
    }
}

/// A run is no longer than its input.
pub proof fn lemma_run_len(class: Class, s: Seq<u8>)
    ensures
        run_len(class, s) <= s.len(),
        s.len() == 0 ==> run_len(class, s) == 0,
    decreases s.len(),
{
    if s.len() > 0 && in_class(class, s[0]) {
        lemma_run_len(class, s.skip(1));
    }
}

/// Whether `run` and `rest` are the longest run of `class` at the head of
/// `input` and the bytes after it, the run not being empty.
pub open spec fn splits(class: Class, input: Seq<u8>, run: Seq<u8>, rest: Seq<u8>) -> bool {
    let n = run_len(class, input);
    n > 0 && n <= input.len() && run == input.take(n as int) && rest == input.skip(n as int)
}

/// Calls `nom::alphanumeric`. Trusted: it gives the longest run of ASCII
/// letters and digits at the head of the input with the bytes after it,
/// and nothing where the input starts with no such byte.
#[verifier::external_body]
fn alphanumeric<'a>(input: &'a [u8]) -> (r: Option<(&'a [u8], &'a [u8])>)
    ensures
        r is None <==> run_len(Class::Alphanumeric, input@) == 0,
        r matches Some((rest, run)) ==> splits(Class::Alphanumeric, input@, run@, rest@),
{
    match nom::alphanumeric(input) {
        nom::IResult::Done(rest, run) => Some((rest, run)),
        nom::IResult::Error(_) => None,
        nom::IResult::Incomplete(_) => None,
    }
}

/// Calls `nom::digit`. Trusted: it gives the longest run of ASCII digits
/// at the head of the input with the bytes after it, and nothing where the
/// input starts with no digit.
#[verifier::external_body]
fn digit<'a>(input: &'a [u8]) -> (r: Option<(&'a [u8], &'a [u8])>)
    ensures
        r is None <==> run_len(Class::Digit, input@) == 0,
        r matches Some((rest, run)) ==> splits(Class::Digit, input@, run@, rest@),
{
    match nom::digit(input) {
        nom::IResult::Done(rest, run) => Some((rest, run)),
        nom::IResult::Error(_) => None,
        nom::IResult::Incomplete(_) => None,
    }
}

/// Calls `nom::space`. Trusted: it gives the longest run of spaces and
/// tabs at the head of the input with the bytes after it, and nothing
/// where the input starts with neither.
#[verifier::external_body]
fn space<'a>(input: &'a [u8]) -> (r: Option<(&'a [u8], &'a [u8])>)
    ensures
        r is None <==> run_len(Class::Space, input@) == 0,
        r matches Some((rest, run)) ==> splits(Class::Space, input@, run@, rest@),
{
    match nom::space(input) {
        nom::IResult::Done(rest, run) => Some((rest, run)),
        nom::IResult::Error(_) => None,
        nom::IResult::Incomplete(_) => None,
    }
}

/// Calls `nom::multispace`. Trusted: it gives the longest run of spaces,
/// tabs, carriage returns and line feeds at the head of the input with the
/// bytes after it, and nothing where the input starts with none of them.
#[verifier::external_body]
fn multispace<'a>(input: &'a [u8]) -> (r: Option<(&'a [u8], &'a [u8])>)
    ensures
        r is None <==> run_len(Class::Multispace, input@) == 0,
        r matches Some((rest, run)) ==> splits(Class::Multispace, input@, run@, rest@),
{
    match nom::multispace(input) {
        nom::IResult::Done(rest, run) => Some((rest, run)),
        nom::IResult::Error(_) => None,
        nom::IResult::Incomplete(_) => None,
    }
}

/// Calls `nom::is_alphanumeric`. Trusted: it tells whether the byte is an
/// ASCII letter or digit.
#[verifier::external_body]
fn is_alphanumeric(b: u8) -> (r: bool)
    ensures
        r == alphanumeric_byte(b),
{
    nom::is_alphanumeric(b)
}

/// The bytes of `input` from `n` on.
fn from<'a>(input: &'a [u8], n: usize) -> (rest: &'a [u8])
    requires
        n <= input@.len(),
    ensures
        rest@ == input@.skip(n as int),
        input@.len() <= usize::MAX,
{
    let rest = slice_subrange(input, n, input.len());
    assert(rest@ =~= input@.skip(n as int));
    rest
}

/// What the end of the input is made of: nothing is taken where no byte
/// is left, and a byte that is left is an error.
pub open spec fn eof_spec(s: Seq<u8>) -> Outcome<Seq<u8>> {
    if s.len() == 0 {
        Outcome::Done(0, s)
    } else {
        Outcome::Error
    }
}

/// Matches the end of the input.
pub fn eof<'a>(input: &'a [u8]) -> (r: Parsed<'a, &'a [u8]>)
    ensures
        agrees(r, input@, eof_spec(input@)),
{
    if input.len() == 0 {
        assert(input@.skip(0) =~= input@);
        Parsed::Done(input, input)
    } else {
        Parsed::Error
    }
}

/// What a fixed word `t` makes of `s`. Where `s` is shorter than `t` and
/// agrees with it as far as it goes, more input is needed.
pub open spec fn tag_spec(s: Seq<u8>, t: Seq<u8>) -> Outcome<()> {
    let m = if s.len() < t.len() {
        s.len()
    } else {
        t.len()
    };
    if s.take(m as int) != t.take(m as int) {
        Outcome::Error
    } else if m < t.len() {
        Outcome::Incomplete
    } else {
        Outcome::Done(t.len(), ())
    }
}

/// Matches the fixed word `word` at the head of `input`.
pub fn tag<'a>(input: &'a [u8], word: &str) -> (r: Parsed<'a, ()>)
    ensures
        agrees(r, input@, tag_spec(input@, utf8(word@))),
{
    let t = word.as_bytes();
    let m: usize = if input.len() < t.len() {
        input.len()
    } else {
        t.len()
    };
    let mut i: usize = 0;
    while i < m
        invariant
            i <= m,
            m <= input@.len(),
            m <= t@.len(),
            m == input@.len() || m == t@.len(),
            t@ == utf8(word@),
            forall|j: int| 0 <= j < i ==> input@[j] == t@[j],
        decreases m - i,
    {
        if input[i] != t[i] {
            assert(input@.take(m as int)[i as int] != t@.take(m as int)[i as int]);
            return Parsed::Error;
        }
        i += 1;
    }
    assert(input@.take(m as int) =~= t@.take(m as int));
    if m < t.len() {
        Parsed::Incomplete
    } else {
        Parsed::Done(from(input, m), ())
    }
}

/// What a word of ASCII letters and digits makes of `s`: the text of the
/// longest run of them, which must not be empty.
pub open spec fn word_spec(s: Seq<u8>) -> Outcome<Seq<char>> {
    let n = run_len(Class::Alphanumeric, s);
    if n == 0 {
        Outcome::Error
    } else if valid_utf8(s.take(n as int)) {
        Outcome::Done(n, decode_utf8(s.take(n as int)))
    } else {
        Outcome::Error
    }
}

/// Reads a word of ASCII letters and digits.
fn word<'a>(input: &'a [u8]) -> (r: Parsed<'a, String>)
    ensures
        agrees(r, input@, word_spec(input@)),
{
    match alphanumeric(input) {
        None => Parsed::Error,
        Some((rest, run)) => match text_of(slice_to_vec(run)) {
            Some(text) => Parsed::Done(rest, text),
            None => Parsed::Error,
        },
    }
}

/// The number that a run of ASCII digits writes in base ten.
pub open spec fn decimal(digits: Seq<u8>) -> nat
    decreases digits.len(),
{
    if digits.len() == 0 {
        0
    } else {
        decimal(digits.drop_last()) * 10 + (digits.last() - 0x30) as nat
    }
}

/// Every byte of the run at the head of `s` belongs to the run's class.
pub proof fn lemma_run_in_class(class: Class, s: Seq<u8>, i: int)
    requires
        0 <= i < run_len(class, s),
    ensures
        i < s.len(),
        in_class(class, s[i]),
    decreases s.len(),
{
    if i > 0 {
        lemma_run_in_class(class, s.skip(1), i - 1);
    }
}

/// Whether a rule is still reading, or how it failed.
pub enum Status {
    Going,
    Error,
    Incomplete,
}

/// A place in an input, and whether the rules that led there all matched.
/// A rule applied to a cursor that has failed leaves it as it is.
pub struct Cursor {
    pub input: Seq<u8>,
    pub at: nat,
    pub status: Status,
}

/// The type that a name without type arguments denotes, if it denotes one.
pub open spec fn plain(name: Seq<char>) -> Option<Ty> {
    Ty::parse_spec(name, Seq::empty())
}

/// Whether each of `names` denotes a type without type arguments.
pub open spec fn all_plain(names: Seq<Seq<char>>) -> bool {
    forall|i: int| 0 <= i < names.len() ==> (#[trigger] plain(names[i])) is Some
}

/// The types that `names` denote.
pub open spec fn plain_types(names: Seq<Seq<char>>) -> Seq<Ty> {
    Seq::new(names.len(), |i: int| plain(names[i])->Some_0)
}

impl Cursor {
    /// The cursor at the head of `input`.
    pub open spec fn start(input: Seq<u8>) -> Cursor {
        Cursor { input: input, at: 0, status: Status::Going }
    }

    /// The cursor lies within its input.
    pub open spec fn wf(self) -> bool {
        self.at <= self.input.len()
    }

    /// Every rule so far has matched.
    pub open spec fn going(self) -> bool {
        self.status is Going
    }

    /// The bytes from the cursor on.
    pub open spec fn left(self) -> Seq<u8> {
        self.input.skip(self.at as int)
    }

    /// This cursor, failed with `status`.
    pub open spec fn fail(self, status: Status) -> Cursor {
        Cursor { input: self.input, at: self.at, status: status }
    }

    /// This cursor, `n` bytes on.
    pub open spec fn on(self, n: nat) -> Cursor {
        Cursor { input: self.input, at: self.at + n, status: self.status }
    }

    /// The outcome of a rule that ended at this cursor with the value `v`.
    pub open spec fn gives<T>(self, v: T) -> Outcome<T> {
        match self.status {
            Status::Going => Outcome::Done(self.at, v),
            Status::Error => Outcome::Error,
            Status::Incomplete => Outcome::Incomplete,
        }
    }

    /// The cursor after the outcome `o` of a rule that read from it.
    pub open spec fn after<T>(self, o: Outcome<T>) -> Cursor {
        match o {
            Outcome::Done(n, _) => self.on(n),
            Outcome::Error => self.fail(Status::Error),
            Outcome::Incomplete => self.fail(Status::Incomplete),
        }
    }

    /// After the fixed word `t`.
    pub open spec fn tag(self, t: Seq<char>) -> Cursor {
        if self.going() {
            self.after(tag_spec(self.left(), utf8(t)))
        } else {
            self
        }
    }

    /// After one of the fixed words `a` and `b`, `a` tried first. Input
    /// that ends within `a` is incomplete, whatever `b` is.
    pub open spec fn either(self, a: Seq<char>, b: Seq<char>) -> Cursor {
        if self.tag(a).status is Error {
            self.tag(b)
        } else {
            self.tag(a)
        }
    }

    /// After a run of `class`, if there is one.
    pub open spec fn blank(self, class: Class) -> Cursor {
        if self.going() {
            self.on(run_len(class, self.left()))
        } else {
            self
        }
    }

    /// After a run of `class`, which must be there.
    pub open spec fn run(self, class: Class) -> Cursor {
        if !self.going() {
            self
        } else if run_len(class, self.left()) == 0 {
            self.fail(Status::Error)
        } else {
            self.on(run_len(class, self.left()))
        }
    }

    /// After a word of letters and digits, with the word.
    pub open spec fn word(self) -> (Cursor, Seq<char>) {
        if self.going() {
            match word_spec(self.left()) {
                Outcome::Done(n, w) => (self.on(n), w),
                _ => (self.fail(Status::Error), Seq::empty()),
            }
        } else {
            (self, Seq::empty())
        }
    }

    /// After a number that fits in a byte, with the number. Digits that
    /// write a greater number are an error.
    pub open spec fn order(self) -> (Cursor, u8) {
        let n = run_len(Class::Digit, self.left());
        if !self.going() {
            (self, 0)
        } else if n == 0 || decimal(self.left().take(n as int)) > u8::MAX {
            (self.fail(Status::Error), 0)
        } else {
            (self.on(n), decimal(self.left().take(n as int)) as u8)
        }
    }

    /// After a name of a namespace. Such a name is made of bytes that are
    /// a letter or digit and a dot at once; no byte is both, so no input
    /// holds one.
    pub open spec fn name(self) -> Cursor {
        if self.going() {
            self.after(namespace_spec(self.left()))
        } else {
            self
        }
    }

    /// After `namespace`, a language and a name, with the language.
    pub open spec fn namespace(self) -> (Cursor, Seq<char>) {
        let (c, lang) = self.tag("namespace"@).run(Class::Space).word();
        (c.run(Class::Space).name(), lang)
    }

    /// After one name of a list of type arguments, with the name. Blanks
    /// and line ends may stand before it.
    pub open spec fn element(self) -> (Cursor, Seq<char>) {
        self.blank(Class::Multispace).word()
    }

    /// After the further names of a list, each behind a comma, with the
    /// names added to `found`. The list ends before the first comma that
    /// no name follows.
    pub open spec fn more_names(self, found: Seq<Seq<char>>) -> (Cursor, Seq<Seq<char>>)
        decreases self.input.len() - self.at,
    {
        let comma = self.tag(","@);
        let (next, name) = comma.element();
        if self.going() && next.going() && self.at < comma.at < next.at <= self.input.len() {
            next.more_names(found.push(name))
        } else {
            (self, found)
        }
    }

    /// After a list of names set apart by commas, with the names. Where no
    /// name stands at the cursor the list is empty and nothing is taken.
    pub open spec fn names(self) -> (Cursor, Seq<Seq<char>>) {
        let (first, name) = self.element();
        if !self.going() || first.status is Error {
            (self, Seq::empty())
        } else if first.status is Incomplete {
            (first, Seq::empty())
        } else if first.at == self.at {
            (self.fail(Status::Error), Seq::empty())
        } else {
            first.more_names(seq![name])
        }
    }

    /// After type arguments in angle brackets, with the types. Each
    /// argument must be the name of a type that takes no arguments itself:
    /// there is no result where one is not.
    pub open spec fn generics(self) -> Option<(Cursor, Seq<Ty>)> {
        let (list, names) = self.tag("<"@).names();
        let end = list.tag(">"@);
        if !end.going() {
            Some((end, Seq::empty()))
        } else if all_plain(names) {
            Some((end, plain_types(names)))
        } else {
            None
        }
    }

    /// After type arguments, if there are any. Input that ends within
    /// them is incomplete.
    pub open spec fn optional_generics(self) -> Option<(Cursor, Seq<Ty>)> {
        match self.generics() {
            None => None,
            Some((end, types)) => if end.status is Error {
                Some((self, Seq::empty()))
            } else {
                Some((end, types))
            },
        }
    }

    /// After a type, with the type. There is no result where the name is
    /// no type or has the wrong number of arguments.
    pub open spec fn ty(self) -> Option<(Cursor, Ty)> {
        let (c, name) = self.word();
        match c.optional_generics() {
            None => None,
            Some((end, types)) => if !end.going() {
                Some((end, Ty::Void))
            } else {
                match Ty::parse_spec(name, types) {
                    Some(ty) => Some((end, ty)),
                    None => None,
                }
            },
        }
    }

    /// After `optional` or `required`, with the attribute.
    pub open spec fn attribute(self) -> (Cursor, FieldMetadataNode) {
        if self.tag("optional"@).going() {
            (self.tag("optional"@), FieldMetadataNode::Optional)
        } else {
            (self.either("optional"@, "required"@), FieldMetadataNode::Required)
        }
    }

    /// After an attribute and the blanks that must follow it.
    pub open spec fn metadata(self) -> (Cursor, FieldMetadataNode) {
        let (c, meta) = self.attribute();
        (c.run(Class::Space), meta)
    }

    /// After the declaration of a method, with the method.
    pub open spec fn method(self) -> Option<(Cursor, FunctionView)> {
        match self.blank(Class::Multispace).ty() {
            None => None,
            Some((c, ret)) => {
                let (c, name) = c.run(Class::Multispace).word();
                Some(
                    (
                        c.blank(Class::Multispace).tag("("@).blank(Class::Multispace).tag(
                            ")"@,
                        ).blank(Class::Multispace).either(","@, ";"@),
                        FunctionView { name: name, ret: ret },
                    ),
                )
            },
        }
    }

    /// After as many methods as follow, with the methods added to
    /// `found`. The list ends where the input ends or no method follows.
    pub open spec fn methods(self, found: Seq<FunctionView>) -> Option<
        (Cursor, Seq<FunctionView>),
    >
        decreases self.input.len() - self.at,
    {
        if !self.going() || self.at >= self.input.len() {
            Some((self, found))
        } else {
            match self.method() {
                None => None,
                Some((next, method)) => match next.status {
                    Status::Error => Some((self, found)),
                    Status::Incomplete => Some((next, found)),
                    Status::Going => if next.input == self.input && self.at < next.at
                        <= self.input.len() {
                        next.methods(found.push(method))
                    } else {
                        Some((self.fail(Status::Error), found))
                    },
                },
            }
        }
    }

    /// After the declaration of a service, with the service.
    pub open spec fn service(self) -> Option<(Cursor, ServiceView)> {
        let (c, name) = self.tag("service"@).run(Class::Multispace).word();
        match c.blank(Class::Multispace).tag("{"@).blank(Class::Multispace).methods(Seq::empty()) {
            None => None,
            Some((c, methods)) => Some(
                (
                    c.blank(Class::Multispace).tag("}"@),
                    ServiceView { name: name, methods: methods },
                ),
            ),
        }
    }

    /// After the declaration of a field, with the field.
    pub open spec fn field(self) -> Option<(Cursor, StructFieldView)> {
        let (c, order) = self.order();
        let (c, metadata) = c.tag(":"@).run(Class::Space).metadata();
        match c.ty() {
            None => None,
            Some((c, ty)) => {
                let (c, ident) = c.blank(Class::Space).word();
                Some(
                    (
                        c.tag(";"@).blank(Class::Multispace),
                        StructFieldView { order: order, metadata: metadata, ty: ty, ident: ident },
                    ),
                )
            },
        }
    }

    /// After as many fields as follow, with the fields added to `found`.
    /// The list ends where the input ends or no field follows.
    pub open spec fn fields(self, found: Seq<StructFieldView>) -> Option<
        (Cursor, Seq<StructFieldView>),
    >
        decreases self.input.len() - self.at,
    {
        if !self.going() || self.at >= self.input.len() {
            Some((self, found))
        } else {
            match self.field() {
                None => None,
                Some((next, field)) => match next.status {
                    Status::Error => Some((self, found)),
                    Status::Incomplete => Some((next, found)),
                    Status::Going => if next.input == self.input && self.at < next.at
                        <= self.input.len() {
                        next.fields(found.push(field))
                    } else {
                        Some((self.fail(Status::Error), found))
                    },
                },
            }
        }
    }

    /// After the declaration of a struct, with the struct.
    pub open spec fn structure(self) -> Option<(Cursor, StructView)> {
        let (c, name) = self.tag("struct"@).run(Class::Space).word();
        match c.blank(Class::Space).tag("{"@).blank(Class::Multispace).fields(Seq::empty()) {
            None => None,
            Some((c, fields)) => Some(
                (c.blank(Class::Multispace).tag("}"@), StructView { name: name, fields: fields }),
            ),
        }
    }
}

/// What a name of a namespace makes of `s`: it never matches.
pub open spec fn namespace_spec(s: Seq<u8>) -> Outcome<Seq<u8>> {
    Outcome::Error
}

/// A longer run of digits writes no smaller number.
proof fn lemma_decimal_grows(digits: Seq<u8>, i: int)
    requires
        0 <= i <= digits.len(),
        forall|j: int| 0 <= j < digits.len() ==> 0x30 <= #[trigger] digits[j] <= 0x39,
    ensures
        decimal(digits.take(i)) <= decimal(digits),
    decreases digits.len() - i,
{
    if i < digits.len() {
        let longer = digits.take(i + 1);
        assert(longer.drop_last() =~= digits.take(i));
        assert(longer.last() == digits[i]);
        lemma_decimal_grows(digits, i + 1);
    } else {
        assert(digits.take(i) =~= digits);
    }
}

/// The longest run of `class` at the head of `input` with the bytes after
/// it, or nothing where the input starts with no byte of `class`.
fn run_of<'a>(class: Class, input: &'a [u8]) -> (r: Option<(&'a [u8], &'a [u8])>)
    ensures
        r is None <==> run_len(class, input@) == 0,
        r matches Some((rest, run)) ==> splits(class, input@, run@, rest@),
{
    match class {
        Class::Alphanumeric => alphanumeric(input),
        Class::Digit => digit(input),
        Class::Space => space(input),
        Class::Multispace => multispace(input),
    }
}

/// Matches a name of a namespace: a run of bytes each of which is a letter
/// or digit and a dot at once. No byte is both, so every input is an error.
pub fn namespace<'a>(input: &'a [u8]) -> (r: Parsed<'a, &'a [u8]>)
    ensures
        agrees(r, input@, namespace_spec(input@)),
{
    if input.len() == 0 {
        return Parsed::Error;
    }
    let mut idx: usize = 0;
    while idx < input.len()
        invariant
            idx == 0,
            input@.len() > 0,
        decreases input@.len() - idx,
    {
        let item: u8 = input[idx];
        if !is_alphanumeric(item) || item != 0x2e {
            if idx == 0 {
                return Parsed::Error;
            } else {
                return Parsed::Done(from(input, idx), slice_subrange(input, 0, idx));
            }
        }
        idx += 1;
    }
    Parsed::Done(from(input, input.len()), input)
}

/// A place in an input that is being read: a cursor at work.
struct Reader<'a> {
    input: &'a [u8],
    at: usize,
    status: Status,
}

impl<'a> View for Reader<'a> {
    type V = Cursor;

    closed spec fn view(&self) -> Cursor {
        Cursor { input: self.input@, at: self.at as nat, status: self.status }
    }
}

impl<'a> Reader<'a> {
    fn new(input: &'a [u8]) -> (c: Reader<'a>)
        ensures
            c@ == Cursor::start(input@),
            c@.wf(),
    {
        Reader { input: input, at: 0, status: Status::Going }
    }

    fn going(&self) -> (b: bool)
        ensures
            b == self@.going(),
    {
        match self.status {
            Status::Going => true,
            _ => false,
        }
    }

    fn failed(&self) -> (b: bool)
        ensures
            b == (self@.status is Error),
    {
        match self.status {
            Status::Error => true,
            _ => false,
        }
    }

    /// The bytes that are left.
    fn rest(&self) -> (r: &'a [u8])
        requires
            self@.wf(),
        ensures
            r@ == self@.left(),
            self@.input.len() <= usize::MAX,
    {
        from(self.input, self.at)
    }

    /// Hands out the value of a rule that ended here.
    fn finish<T: View>(self, v: T) -> (r: Parsed<'a, T>)
        requires
            self@.wf(),
        ensures
            agrees(r, self@.input, self@.gives(v@)),
    {
        match self.status {
            Status::Going => Parsed::Done(from(self.input, self.at), v),
            Status::Error => Parsed::Error,
            Status::Incomplete => Parsed::Incomplete,
        }
    }

    fn tag(&mut self, word: &str)
        requires
            old(self)@.wf(),
        ensures
            final(self)@ == old(self)@.tag(word@),
            final(self)@.wf(),
            final(self)@.input == old(self)@.input,
    {
        if self.going() {
            let left = self.rest();
            match tag(left, word) {
                Parsed::Done(rest, _) => {
                    self.at = self.at + (left.len() - rest.len());
                },
                Parsed::Error => {
                    self.status = Status::Error;
                },
                Parsed::Incomplete => {
                    self.status = Status::Incomplete;
                },
            }
        }
    }

    fn either(&mut self, a: &str, b: &str)
        requires
            old(self)@.wf(),
        ensures
            final(self)@ == old(self)@.either(a@, b@),
            final(self)@.wf(),
            final(self)@.input == old(self)@.input,
    {
        if self.going() {
            self.tag(a);
            if self.failed() {
                self.status = Status::Going;
                self.tag(b);
            }
        }
    }

    fn blank(&mut self, class: Class)
        requires
            old(self)@.wf(),
        ensures
            final(self)@ == old(self)@.blank(class),
            final(self)@.wf(),
            final(self)@.input == old(self)@.input,
    {
        if self.going() {
            match run_of(class, self.rest()) {
                Some((_, run)) => {
                    self.at = self.at + run.len();
                },
                None => {},
            }
        }
    }

    fn run(&mut self, class: Class)
        requires
            old(self)@.wf(),
        ensures
            final(self)@ == old(self)@.run(class),
            final(self)@.wf(),
            final(self)@.input == old(self)@.input,
    {
        if self.going() {
            match run_of(class, self.rest()) {
                Some((_, run)) => {
                    self.at = self.at + run.len();
                },
                None => {
                    self.status = Status::Error;
                },
            }
        }
    }

    fn word(&mut self) -> (w: String)
        requires
            old(self)@.wf(),
        ensures
            (final(self)@, w@) == old(self)@.word(),
            final(self)@.wf(),
            final(self)@.input == old(self)@.input,
    {
        if self.going() {
            let left = self.rest();
            match word(left) {
                Parsed::Done(rest, text) => {
                    self.at = self.at + (left.len() - rest.len());
                    text
                },
                _ => {
                    self.status = Status::Error;
                    String::new()
                },
            }
        } else {
            String::new()
        }
    }

    fn order(&mut self) -> (n: u8)
        requires
            old(self)@.wf(),
        ensures
            (final(self)@, n) == old(self)@.order(),
            final(self)@.wf(),
            final(self)@.input == old(self)@.input,
    {
        if !self.going() {
            return 0;
        }
        let left = self.rest();
        match digit(left) {
            None => {
                self.status = Status::Error;
                0
            },
            Some((_, run)) => {
                assert forall|j: int| 0 <= j < run@.len() implies 0x30 <= #[trigger] run@[j]
                    <= 0x39 by {
                    lemma_run_in_class(Class::Digit, left@, j);
                }
                let mut value: u16 = 0;
                let mut i: usize = 0;
                while i < run.len()
                    invariant
                        i <= run@.len(),
                        value == decimal(run@.take(i as int)),
                        value <= u8::MAX,
                        forall|j: int| 0 <= j < run@.len() ==> 0x30 <= #[trigger] run@[j] <= 0x39,
                        self@ == old(self)@,
                        self@.wf(),
                        self@.going(),
                        self@.input.len() <= usize::MAX,
                        left@ == self@.left(),
                        0 < run_len(Class::Digit, left@) <= left@.len(),
                        run@ == left@.take(run_len(Class::Digit, left@) as int),
                    decreases run@.len() - i,
                {
                    let d: u8 = run[i] - 0x30;
                    value = value * 10 + d as u16;
                    proof {
                        let longer = run@.take(i + 1);
                        assert(longer.drop_last() =~= run@.take(i as int));
                        assert(longer.last() == run@[i as int]);
                    }
                    if value > 255 {
                        proof {
                            lemma_decimal_grows(run@, i + 1);
                        }
                        self.status = Status::Error;
                        return 0;
                    }
                    i += 1;
                }
                assert(run@.take(i as int) =~= run@);
                self.at = self.at + run.len();
                value as u8
            },
        }
    }

    fn name(&mut self) -> (ns: String)
        requires
            old(self)@.wf(),
        ensures
            final(self)@ == old(self)@.name(),
            final(self)@.wf(),
            !final(self)@.going(),
    {
        if self.going() {
            let left = self.rest();
            match namespace(left) {
                Parsed::Done(rest, bytes) => match text_of(slice_to_vec(bytes)) {
                    Some(text) => {
                        self.at = self.at + (left.len() - rest.len());
                        text
                    },
                    None => {
                        self.status = Status::Error;
                        String::new()
                    },
                },
                Parsed::Error => {
                    self.status = Status::Error;
                    String::new()
                },
                Parsed::Incomplete => {
                    self.status = Status::Incomplete;
                    String::new()
                },
            }
        } else {
            String::new()
        }
    }

    fn element(&mut self) -> (w: String)
        requires
            old(self)@.wf(),
        ensures
            (final(self)@, w@) == old(self)@.element(),
            final(self)@.wf(),
            final(self)@.input == old(self)@.input,
    {
        self.blank(Class::Multispace);
        self.word()
    }

    fn names(&mut self) -> (out: Vec<String>)
        requires
            old(self)@.wf(),
        ensures
            (final(self)@, texts(out@)) == old(self)@.names(),
            final(self)@.wf(),
            final(self)@.input == old(self)@.input,
    {
        let mut out: Vec<String> = Vec::new();
        assert(texts(out@) =~= Seq::empty());
        if !self.going() {
            return out;
        }
        let start: usize = self.at;
        let first = self.element();
        match self.status {
            Status::Error => {
                self.at = start;
                self.status = Status::Going;
                return out;
            },
            Status::Incomplete => {
                return out;
            },
            Status::Going => {},
        }
        if self.at == start {
            self.status = Status::Error;
            return out;
        }
        out.push(first);
        assert(texts(out@) =~= seq![first@]);
        let ghost goal = self@.more_names(texts(out@));
        let mut done = false;
        while !done
            invariant
                self@.wf(),
                self@.going(),
                self@.input == old(self)@.input,
                !done ==> self@.more_names(texts(out@)) == goal,
                done ==> (self@, texts(out@)) == goal,
            decreases
                    (if done {
                        0
                    } else {
                        self@.input.len() - self@.at + 1
                    }),
        {
            let here: usize = self.at;
            let mut more = false;
            self.tag(",");
            if self.going() && self.at > here {
                let comma: usize = self.at;
                let name = self.element();
                if self.going() && self.at > comma {
                    assert(texts(out@.push(name)) =~= texts(out@).push(name@));
                    out.push(name);
                    more = true;
                }
            }
            if !more {
                self.at = here;
                self.status = Status::Going;
                done = true;
            }
        }
        out
    }

    fn generics(&mut self) -> (types: Vec<Ty>)
        requires
            old(self)@.wf(),
            old(self)@.generics() is Some,
        ensures
            (final(self)@, types@) == old(self)@.generics()->Some_0,
            final(self)@.wf(),
            final(self)@.input == old(self)@.input,
    {
        self.tag("<");
        let names = self.names();
        self.tag(">");
        let mut types: Vec<Ty> = Vec::new();
        if self.going() {
            let mut i: usize = 0;
            while i < names.len()
                invariant
                    i <= names@.len(),
                    all_plain(texts(names@)),
                    types@ == plain_types(texts(names@)).take(i as int),
                decreases names@.len() - i,
            {
                assert(plain(texts(names@)[i as int]) is Some);
                let ty = Ty::parse(names[i].clone(), Vec::new());
                types.push(ty);
                assert(types@ =~= plain_types(texts(names@)).take(i + 1));
                i += 1;
            }
            assert(types@ =~= plain_types(texts(names@)));
        }
        types
    }

    fn optional_generics(&mut self) -> (types: Vec<Ty>)
        requires
            old(self)@.wf(),
            old(self)@.optional_generics() is Some,
        ensures
            (final(self)@, types@) == old(self)@.optional_generics()->Some_0,
            final(self)@.wf(),
            final(self)@.input == old(self)@.input,
    {
        let here: usize = self.at;
        let was_going = self.going();
        let types = self.generics();
        if was_going && self.failed() {
            self.at = here;
            self.status = Status::Going;
        }
        types
    }

    fn ty(&mut self) -> (ty: Ty)
        requires
            old(self)@.wf(),
            old(self)@.ty() is Some,
        ensures
            (final(self)@, ty) == old(self)@.ty()->Some_0,
            final(self)@.wf(),
            final(self)@.input == old(self)@.input,
    {
        let name = self.word();
        let types = self.optional_generics();
        if self.going() {
            Ty::parse(name, types)
        } else {
            Ty::Void
        }
    }

    fn attribute(&mut self) -> (meta: FieldMetadataNode)
        requires
            old(self)@.wf(),
        ensures
            (final(self)@, meta) == old(self)@.attribute(),
            final(self)@.wf(),
            final(self)@.input == old(self)@.input,
    {
        if !self.going() {
            return FieldMetadataNode::Required;
        }
        proof {
            reveal_strlit("optional");
            reveal_strlit("required");
            assert("optional"@[0] != "required"@[0]);
        }
        self.tag("optional");
        if self.going() {
            return FieldMetadataNode::parse("optional");
        }
        if self.failed() {
            self.status = Status::Going;
            self.tag("required");
        }
        FieldMetadataNode::parse("required")
    }

    fn metadata(&mut self) -> (meta: FieldMetadataNode)
        requires
            old(self)@.wf(),
        ensures
            (final(self)@, meta) == old(self)@.metadata(),
            final(self)@.wf(),
            final(self)@.input == old(self)@.input,
    {
        let meta = self.attribute();
        self.run(Class::Space);
        meta
    }

    fn method(&mut self) -> (method: FunctionNode)
        requires
            old(self)@.wf(),
            old(self)@.method() is Some,
        ensures
            (final(self)@, method@) == old(self)@.method()->Some_0,
            final(self)@.wf(),
            final(self)@.input == old(self)@.input,
    {
        self.blank(Class::Multispace);
        let ret = self.ty();
        self.run(Class::Multispace);
        let name = self.word();
        self.blank(Class::Multispace);
        self.tag("(");
        self.blank(Class::Multispace);
        self.tag(")");
        self.blank(Class::Multispace);
        self.either(",", ";");
        FunctionNode { name: IdentNode(name), ret: ret }
    }

    fn methods(&mut self) -> (out: Vec<FunctionNode>)
        requires
            old(self)@.wf(),
            old(self)@.methods(Seq::empty()) is Some,
        ensures
            (final(self)@, function_views(out@)) == old(self)@.methods(Seq::empty())->Some_0,
            final(self)@.wf(),
            final(self)@.input == old(self)@.input,
    {
        let mut out: Vec<FunctionNode> = Vec::new();
        assert(function_views(out@) =~= Seq::empty());
        let ghost goal = self@.methods(Seq::empty());
        let mut done = false;
        while !done
            invariant
                self@.wf(),
                self@.input == old(self)@.input,
                goal is Some,
                !done ==> self@.methods(function_views(out@)) == goal,
                done ==> Some((self@, function_views(out@))) == goal,
            decreases
                    (if done {
                        0
                    } else {
                        self@.input.len() - self@.at + 1
                    }),
        {
            if !self.going() || self.at >= self.input.len() {
                done = true;
            } else {
                let here: usize = self.at;
                let method = self.method();
                match self.status {
                    Status::Error => {
                        self.at = here;
                        self.status = Status::Going;
                        done = true;
                    },
                    Status::Incomplete => {
                        done = true;
                    },
                    Status::Going => {
                        if self.at > here {
                            assert(function_views(out@.push(method)) =~= function_views(
                                out@,
                            ).push(method@));
                            out.push(method);
                        } else {
                            self.at = here;
                            self.status = Status::Error;
                            done = true;
                        }
                    },
                }
            }
        }
        out
    }

    fn service(&mut self) -> (node: ServiceNode)
        requires
            old(self)@.wf(),
            old(self)@.service() is Some,
        ensures
            (final(self)@, node@) == old(self)@.service()->Some_0,
            final(self)@.wf(),
            final(self)@.input == old(self)@.input,
    {
        self.tag("service");
        self.run(Class::Multispace);
        let name = self.word();
        self.blank(Class::Multispace);
        self.tag("{");
        self.blank(Class::Multispace);
        let methods = self.methods();
        self.blank(Class::Multispace);
        self.tag("}");
        ServiceNode { name: IdentNode(name), methods: methods }
    }

    fn field(&mut self) -> (field: StructFieldNode)
        requires
            old(self)@.wf(),
            old(self)@.field() is Some,
        ensures
            (final(self)@, field@) == old(self)@.field()->Some_0,
            final(self)@.wf(),
            final(self)@.input == old(self)@.input,
    {
        let order = self.order();
        self.tag(":");
        self.run(Class::Space);
        let metadata = self.metadata();
        let ty = self.ty();
        self.blank(Class::Space);
        let ident = self.word();
        self.tag(";");
        self.blank(Class::Multispace);
        StructFieldNode { order: order, metadata: metadata, ty: ty, ident: IdentNode(ident) }
    }

    fn fields(&mut self) -> (out: Vec<StructFieldNode>)
        requires
            old(self)@.wf(),
            old(self)@.fields(Seq::empty()) is Some,
        ensures
            (final(self)@, field_views(out@)) == old(self)@.fields(Seq::empty())->Some_0,
            final(self)@.wf(),
            final(self)@.input == old(self)@.input,
    {
        let mut out: Vec<StructFieldNode> = Vec::new();
        assert(field_views(out@) =~= Seq::empty());
        let ghost goal = self@.fields(Seq::empty());
        let mut done = false;
        while !done
            invariant
                self@.wf(),
                self@.input == old(self)@.input,
                goal is Some,
                !done ==> self@.fields(field_views(out@)) == goal,
                done ==> Some((self@, field_views(out@))) == goal,
            decreases
                    (if done {
                        0
                    } else {
                        self@.input.len() - self@.at + 1
                    }),
        {
            if !self.going() || self.at >= self.input.len() {
                done = true;
            } else {
                let here: usize = self.at;
                let field = self.field();
                match self.status {
                    Status::Error => {
                        self.at = here;
                        self.status = Status::Going;
                        done = true;
                    },
                    Status::Incomplete => {
                        done = true;
                    },
                    Status::Going => {
                        if self.at > here {
                            assert(field_views(out@.push(field)) =~= field_views(out@).push(
                                field@,
                            ));
                            out.push(field);
                        } else {
                            self.at = here;
                            self.status = Status::Error;
                            done = true;
                        }
                    },
                }
            }
        }
        out
    }

    fn structure(&mut self) -> (node: StructNode)
        requires
            old(self)@.wf(),
            old(self)@.structure() is Some,
        ensures
            (final(self)@, node@) == old(self)@.structure()->Some_0,
            final(self)@.wf(),
            final(self)@.input == old(self)@.input,
    {
        self.tag("struct");
        self.run(Class::Space);
        let name = self.word();
        self.blank(Class::Space);
        self.tag("{");
        self.blank(Class::Multispace);
        let fields = self.fields();
        self.blank(Class::Multispace);
        self.tag("}");
        StructNode { name: IdentNode(name), fields: fields }
    }
}

/// What an identifier makes of `s`: a word of letters and digits.
pub open spec fn parse_ident_spec(s: Seq<u8>) -> Outcome<Seq<char>> {
    Cursor::start(s).word().0.gives(Cursor::start(s).word().1)
}

/// Reads an identifier.
pub fn parse_ident<'a>(input: &'a [u8]) -> (r: Parsed<'a, String>)
    ensures
        agrees(r, input@, parse_ident_spec(input@)),
{
    let mut c = Reader::new(input);
    let w = c.word();
    c.finish(w)
}

/// How the declaration of a namespace goes on from the head of `s`. It
/// ends in the name of the namespace, which no input holds: the outcome is
/// never a match.
pub open spec fn parse_namespace_spec(s: Seq<u8>) -> Status {
    Cursor::start(s).namespace().0.status
}

/// Reads the declaration of a namespace.
pub fn parse_namespace<'a>(input: &'a [u8]) -> (r: Parsed<'a, NamespaceNode>)
    ensures
        !(parse_namespace_spec(input@) is Going),
        r is Error <==> parse_namespace_spec(input@) is Error,
        r is Incomplete <==> parse_namespace_spec(input@) is Incomplete,
{
    let mut c = Reader::new(input);
    c.tag("namespace");
    c.run(Class::Space);
    let lang = c.word();
    c.run(Class::Space);
    let ns = c.name();
    match c.status {
        Status::Going => Parsed::Done(c.rest(), NamespaceNode::new(IdentNode(lang), ns)),
        Status::Error => Parsed::Error,
        Status::Incomplete => Parsed::Incomplete,
    }
}

/// What a list of type names set apart by commas makes of `s`.
pub open spec fn parse_generic_types_spec(s: Seq<u8>) -> Outcome<Seq<Seq<char>>> {
    Cursor::start(s).names().0.gives(Cursor::start(s).names().1)
}

/// Reads a list of type names set apart by commas.
pub fn parse_generic_types<'a>(input: &'a [u8]) -> (r: Parsed<'a, Vec<String>>)
    ensures
        match parse_generic_types_spec(input@) {
            Outcome::Done(n, names) => r matches Parsed::Done(rest, out) && n <= input@.len()
                && rest@ == input@.skip(n as int) && texts(out@) == names,
            Outcome::Error => r is Error,
            Outcome::Incomplete => r is Incomplete,
        },
{
    let mut c = Reader::new(input);
    let names = c.names();
    match c.status {
        Status::Going => Parsed::Done(c.rest(), names),
        Status::Error => Parsed::Error,
        Status::Incomplete => Parsed::Incomplete,
    }
}

/// What type arguments in angle brackets make of `s`; nothing where an
/// argument is not the name of a type without arguments.
pub open spec fn parse_generics_spec(s: Seq<u8>) -> Option<Outcome<Seq<Ty>>> {
    match Cursor::start(s).generics() {
        Some((c, types)) => Some(c.gives(types)),
        None => None,
    }
}

/// Reads type arguments in angle brackets.
pub fn parse_generics<'a>(input: &'a [u8]) -> (r: Parsed<'a, Vec<Ty>>)
    requires
        parse_generics_spec(input@) is Some,
    ensures
        agrees(r, input@, parse_generics_spec(input@)->Some_0),
{
    let mut c = Reader::new(input);
    let types = c.generics();
    c.finish(types)
}

/// What the name of a type makes of `s`: a word of letters and digits.
pub open spec fn parse_simple_type_spec(s: Seq<u8>) -> Outcome<Seq<char>> {
    parse_ident_spec(s)
}

/// Reads the name of a type.
pub fn parse_simple_type<'a>(input: &'a [u8]) -> (r: Parsed<'a, String>)
    ensures
        agrees(r, input@, parse_simple_type_spec(input@)),
{
    let mut c = Reader::new(input);
    let w = c.word();
    c.finish(w)
}

/// What a type makes of `s`; nothing where its name is no type or has the
/// wrong number of arguments.
pub open spec fn parse_type_spec(s: Seq<u8>) -> Option<Outcome<Ty>> {
    match Cursor::start(s).ty() {
        Some((c, ty)) => Some(c.gives(ty)),
        None => None,
    }
}

/// Reads a type: a name and, for a container, its type arguments.
pub fn parse_type<'a>(input: &'a [u8]) -> (r: Parsed<'a, Ty>)
    requires
        parse_type_spec(input@) is Some,
    ensures
        agrees(r, input@, parse_type_spec(input@)->Some_0),
{
    let mut c = Reader::new(input);
    let ty = c.ty();
    c.finish(ty)
}

/// What the attribute of a field makes of `s`.
pub open spec fn parse_metadata_spec(s: Seq<u8>) -> Outcome<FieldMetadataNode> {
    Cursor::start(s).metadata().0.gives(Cursor::start(s).metadata().1)
}

/// Reads the attribute of a field, `optional` or `required`, and the
/// blanks after it.
pub fn parse_metadata<'a>(input: &'a [u8]) -> (r: Parsed<'a, FieldMetadataNode>)
    ensures
        agrees(r, input@, parse_metadata_spec(input@)),
{
    let mut c = Reader::new(input);
    let meta = c.metadata();
    c.finish(meta)
}

/// What the declaration of a method makes of `s`; nothing where its
/// return type is none.
pub open spec fn parse_service_method_spec(s: Seq<u8>) -> Option<Outcome<FunctionView>> {
    match Cursor::start(s).method() {
        Some((c, method)) => Some(c.gives(method)),
        None => None,
    }
}

/// Reads the declaration of a method: its return type, its name, an empty
/// list of arguments, and a comma or semicolon.
pub fn parse_service_method<'a>(input: &'a [u8]) -> (r: Parsed<'a, FunctionNode>)
    requires
        parse_service_method_spec(input@) is Some,
    ensures
        agrees(r, input@, parse_service_method_spec(input@)->Some_0),
{
    let mut c = Reader::new(input);
    let method = c.method();
    c.finish(method)
}

/// What the declaration of a service makes of `s`; nothing where the
/// return type of one of its methods is none.
pub open spec fn parse_service_spec(s: Seq<u8>) -> Option<Outcome<ServiceView>> {
    match Cursor::start(s).service() {
        Some((c, service)) => Some(c.gives(service)),
        None => None,
    }
}

/// Reads the declaration of a service: `service`, its name, and its
/// methods in braces.
pub fn parse_service<'a>(input: &'a [u8]) -> (r: Parsed<'a, ServiceNode>)
    requires
        parse_service_spec(input@) is Some,
    ensures
        agrees(r, input@, parse_service_spec(input@)->Some_0),
{
    let mut c = Reader::new(input);
    let service = c.service();
    c.finish(service)
}

/// What the declaration of a field makes of `s`; nothing where its type
/// is none.
pub open spec fn parse_struct_field_spec(s: Seq<u8>) -> Option<Outcome<StructFieldView>> {
    match Cursor::start(s).field() {
        Some((c, field)) => Some(c.gives(field)),
        None => None,
    }
}

/// Reads the declaration of a field: its number, a colon, its attribute,
/// its type, its name and a semicolon.
pub fn parse_struct_field<'a>(input: &'a [u8]) -> (r: Parsed<'a, StructFieldNode>)
    requires
        parse_struct_field_spec(input@) is Some,
    ensures
        agrees(r, input@, parse_struct_field_spec(input@)->Some_0),
{
    let mut c = Reader::new(input);
    let field = c.field();
    c.finish(field)
}

/// What the declaration of a struct makes of `s`; nothing where the type
/// of one of its fields is none.
pub open spec fn parse_struct_spec(s: Seq<u8>) -> Option<Outcome<StructView>> {
    match Cursor::start(s).structure() {
        Some((c, structure)) => Some(c.gives(structure)),
        None => None,
    }
}

/// Reads the declaration of a struct: `struct`, its name, and its fields
/// in braces.
pub fn parse_struct<'a>(input: &'a [u8]) -> (r: Parsed<'a, StructNode>)
    requires
        parse_struct_spec(input@) is Some,
    ensures
        agrees(r, input@, parse_struct_spec(input@)->Some_0),
{
    let mut c = Reader::new(input);
    let structure = c.structure();
    c.finish(structure)
}

} // verus!
