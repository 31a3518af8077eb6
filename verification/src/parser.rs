//! Reads a service description: first as tokens, then as the namespaces,
//! includes, typedefs, enums, structs and services that the tokens spell.
//!
//! `lex` says which token stands at a place of the text and where the next
//! one starts; the functions named `*_spec` say what the parser makes of the
//! tokens. The parser is specified to do exactly that.

use crate::schema::{
    field_views, method_views, texts, Enum, EnumView, FieldAttribute, Include, Keyword, Namespace,
    Service, ServiceMethod, ServiceMethodView, ServiceView, Struct, StructField, StructFieldView,
    StructView, Token, TokenView, Ty, TyView, Typedef,
};
use crate::text::str_eq;
use std::iter::FromIterator;
use vstd::prelude::*;

verus! {

/// Calls `String::from_iter` on the characters of a slice. Trusted: the
/// string holds those characters, in order.
#[verifier::external_body]
fn string_of(chars: &[char]) -> (s: String)
    ensures
        s@ == chars@,
{
    String::from_iter(chars.iter())
}

/// The characters of a text.
fn chars_of(s: &str) -> (v: Vec<char>)
    ensures
        v@ == s@,
{
    broadcast use vstd::string::group_string_axioms;

    let mut v: Vec<char> = Vec::new();
    for c in it: s.chars()
        invariant
            it.seq() == s@,
            v@ == it.seq().take(it.index() as int),
    {
        v.push(c);
        assert(it.seq().take(it.index() + 1) =~= it.seq().take(it.index() as int).push(c));
    }
    assert(s@.take(s@.len() as int) =~= s@);
    v
}

/// The kinds of character that the lexer takes in runs.
#[derive(Clone, Copy, PartialEq, Eq, Debug, Structural)]
pub enum Class {
    /// White space.
    Space,
    /// A decimal digit.
    Digit,
    /// A letter, a digit or `_`.
    IdentPart,
    /// Anything but `"`.
    NotQuote,
    /// Anything but a line feed or a carriage return.
    NotLineEnd,
    /// Anything but `*`.
    NotStar,
}

/// Whether a character is white space: one of the code points with the
/// Unicode property `White_Space`.
pub open spec fn is_space(c: char) -> bool {
    let u = c as u32;
    (0x9 <= u <= 0xd) || u == 0x20 || u == 0x85 || u == 0xa0 || u == 0x1680 || (0x2000 <= u
        <= 0x200a) || u == 0x2028 || u == 0x2029 || u == 0x202f || u == 0x205f || u == 0x3000
}

pub open spec fn is_digit(c: char) -> bool {
    '0' <= c <= '9'
}

pub open spec fn is_ident_start(c: char) -> bool {
    ('a' <= c <= 'z') || ('A' <= c <= 'Z') || c == '_'
}

pub open spec fn in_class(class: Class, c: char) -> bool {
    match class {
        Class::Space => is_space(c),
        Class::Digit => is_digit(c),
        Class::IdentPart => is_ident_start(c) || is_digit(c),
        Class::NotQuote => c != '"',
        Class::NotLineEnd => c != '\n' && c != '\r',
        Class::NotStar => c != '*',
    }
}

/// Where the run of characters of a class that starts at `from` ends.
pub open spec fn run_end(s: Seq<char>, from: int, class: Class) -> int
    decreases s.len() - from,
{
    if 0 <= from < s.len() && in_class(class, s[from]) {
        run_end(s, from + 1, class)
    } else {
        from
    }
}

/// The number that decimal digits spell.
pub open spec fn number(digits: Seq<char>) -> int
    decreases digits.len(),
{
    if digits.len() == 0 {
        0
    } else {
        10 * number(digits.drop_last()) + (digits.last() as int - '0' as int)
    }
}

/// The keyword that a word is, if it is one.
pub open spec fn keyword_of(word: Seq<char>) -> Option<Keyword> {
    if word == "namespace"@ {
        Some(Keyword::Namespace)
    } else if word == "struct"@ {
        Some(Keyword::Struct)
    } else if word == "enum"@ {
        Some(Keyword::Enum)
    } else if word == "service"@ {
        Some(Keyword::Service)
    } else if word == "optional"@ {
        Some(Keyword::Optional)
    } else if word == "required"@ {
        Some(Keyword::Required)
    } else if word == "throws"@ {
        Some(Keyword::Throws)
    } else if word == "oneway"@ {
        Some(Keyword::Oneway)
    } else if word == "typedef"@ {
        Some(Keyword::Typedef)
    } else if word == "exception"@ {
        Some(Keyword::Exception)
    } else if word == "include"@ {
        Some(Keyword::Include)
    } else if word == "const"@ {
        Some(Keyword::Const)
    } else {
        None
    }
}

/// Where the block comment ends whose text starts at `from`: behind the
/// first `*/`. A comment that is not closed has no end.
pub open spec fn block_end(s: Seq<char>, from: int) -> Option<int>
    decreases s.len() - from,
{
    let star = run_end(s, from, Class::NotStar);
    if from < 0 || star < from || star + 1 >= s.len() {
        None
    } else if s[star + 1] == '/' {
        Some(star + 2)
    } else {
        block_end(s, star + 1)
    }
}

/// The token that stands at `pos` and the place behind it. White space in
/// front of a token belongs to it. There is no token where the lexer cannot
/// go on: in a string or a block comment that is not closed, at a number
/// that is too large, and at a `/` or a `#` at the very end.
pub open spec fn lex(s: Seq<char>, pos: int) -> Option<(TokenView, int)>
    decreases s.len() - pos,
{
    if pos < 0 {
        None
    } else if pos >= s.len() {
        Some((TokenView::Eof, pos))
    } else {
        let ch = s[pos];
        let p = pos + 1;
        if ch == ':' {
            Some((TokenView::Colon, p))
        } else if ch == '.' {
            Some((TokenView::Dot, p))
        } else if ch == ';' {
            Some((TokenView::Semi, p))
        } else if ch == ',' {
            Some((TokenView::Comma, p))
        } else if ch == '"' {
            let end = run_end(s, p, Class::NotQuote);
            if end < s.len() {
                Some((TokenView::QuotedString(s.subrange(p, end)), end + 1))
            } else {
                None
            }
        } else if ch == '=' {
            Some((TokenView::Eq, p))
        } else if ch == '(' {
            Some((TokenView::LParen, p))
        } else if ch == ')' {
            Some((TokenView::RParen, p))
        } else if ch == '{' {
            Some((TokenView::LCurly, p))
        } else if ch == '}' {
            Some((TokenView::RCurly, p))
        } else if ch == '<' {
            Some((TokenView::LAngle, p))
        } else if ch == '>' {
            Some((TokenView::RAngle, p))
        } else if is_digit(ch) {
            let end = run_end(s, p, Class::Digit);
            let value = number(s.subrange(pos, end));
            if value <= i16::MAX {
                Some((TokenView::Number(value as i16), end))
            } else {
                None
            }
        } else if ch == '/' || ch == '#' {
            if p >= s.len() {
                None
            } else if s[p] == '/' || ch == '#' {
                Some((TokenView::Comment, run_end(s, p, Class::NotLineEnd)))
            } else if s[p] == '*' {
                match block_end(s, p + 1) {
                    Some(end) => Some((TokenView::Comment, end)),
                    None => None,
                }
            } else {
                Some((TokenView::Eof, p))
            }
        } else if is_space(ch) {
            let end = run_end(s, p, Class::Space);
            if pos < end <= s.len() {
                lex(s, end)
            } else {
                None
            }
        } else if is_ident_start(ch) {
            let end = run_end(s, p, Class::IdentPart);
            let word = s.subrange(pos, end);
            match keyword_of(word) {
                Some(k) => Some((TokenView::Keyword(k), end)),
                None => Some((TokenView::Ident(word), end)),
            }
        } else {
            Some((TokenView::Eof, p))
        }
    }
}

/// A run ends behind its start and inside the text.
pub proof fn lemma_run_end(s: Seq<char>, from: int, class: Class)
    requires
        0 <= from <= s.len(),
    ensures
        from <= run_end(s, from, class) <= s.len(),
        forall|i: int| from <= i < run_end(s, from, class) ==> in_class(class, #[trigger] s[i]),
        run_end(s, from, class) < s.len() ==> !in_class(class, s[run_end(s, from, class)]),
    decreases s.len() - from,
{
    if from < s.len() && in_class(class, s[from]) {
        lemma_run_end(s, from + 1, class);
    }
}

/// A block comment ends behind its start and inside the text.
pub proof fn lemma_block_end(s: Seq<char>, from: int)
    requires
        0 <= from <= s.len(),
    ensures
        block_end(s, from) matches Some(end) ==> from + 2 <= end <= s.len(),
    decreases s.len() - from,
{
    lemma_run_end(s, from, Class::NotStar);
    let star = run_end(s, from, Class::NotStar);
    if star + 1 < s.len() && s[star + 1] != '/' {
        lemma_block_end(s, star + 1);
    }
}

/// Every token ends inside the text, and every token but the one at the
/// end of the text takes at least one character.
pub proof fn lemma_lex_moves(s: Seq<char>, pos: int)
    requires
        0 <= pos <= s.len(),
    ensures
        lex(s, pos) matches Some((_, next)) ==> pos <= next <= s.len() && (pos < s.len() ==> pos
            < next),
        lex(s, pos) matches Some((token, next)) ==> (token is B) == false,
    decreases s.len() - pos,
{
    if pos < s.len() {
        let ch = s[pos];
        let p = pos + 1;
        lemma_run_end(s, p, Class::NotQuote);
        lemma_run_end(s, p, Class::Digit);
        lemma_run_end(s, p, Class::NotLineEnd);
        lemma_run_end(s, p, Class::Space);
        lemma_run_end(s, p, Class::IdentPart);
        if p < s.len() {
            lemma_block_end(s, p + 1);
        }
        if is_space(ch) {
            lemma_lex_moves(s, run_end(s, p, Class::Space));
        }
    }
}

/// Whether a character is white space.
fn space(c: char) -> (b: bool)
    ensures
        b == is_space(c),
{
    let u: u32 = c as u32;
    (0x9 <= u && u <= 0xd) || u == 0x20 || u == 0x85 || u == 0xa0 || u == 0x1680 || (0x2000 <= u
        && u <= 0x200a) || u == 0x2028 || u == 0x2029 || u == 0x202f || u == 0x205f || u
        == 0x3000
}

/// Whether a character is a decimal digit.
fn digit(c: char) -> (b: bool)
    ensures
        b == is_digit(c),
{
    let u: u32 = c as u32;
    0x30 <= u && u <= 0x39
}

/// Whether a character can start a word.
fn ident_start(c: char) -> (b: bool)
    ensures
        b == is_ident_start(c),
{
    let u: u32 = c as u32;
    (0x61 <= u && u <= 0x7a) || (0x41 <= u && u <= 0x5a) || u == 0x5f
}

/// Whether a character is of a class.
fn of_class(class: Class, c: char) -> (b: bool)
    ensures
        b == in_class(class, c),
{
    match class {
        Class::Space => space(c),
        Class::Digit => digit(c),
        Class::IdentPart => ident_start(c) || digit(c),
        Class::NotQuote => c != '"',
        Class::NotLineEnd => c != '\n' && c != '\r',
        Class::NotStar => c != '*',
    }
}

/// Runs over the characters of a class that start at `from`. Returns where
/// the run ends.
fn consume_while(buffer: &[char], from: usize, class: Class) -> (end: usize)
    requires
        from <= buffer@.len(),
    ensures
        end == run_end(buffer@, from as int, class),
        from <= end <= buffer@.len(),
{
    let mut end: usize = from;
    while end < buffer.len() && of_class(class, buffer[end])
        invariant
            from <= end <= buffer@.len(),
            run_end(buffer@, from as int, class) == run_end(buffer@, end as int, class),
        decreases buffer@.len() - end,
    {
        end = end + 1;
    }
    end
}

/// The number that the digits from `from` to `to` spell, if it is small
/// enough for a token.
fn number_of(buffer: &[char], from: usize, to: usize) -> (value: Option<i16>)
    requires
        from <= to <= buffer@.len(),
        forall|i: int| from <= i < to ==> is_digit(#[trigger] buffer@[i]),
    ensures
        match value {
            Some(n) => n == number(buffer@.subrange(from as int, to as int)),
            None => number(buffer@.subrange(from as int, to as int)) > i16::MAX,
        },
{
    let ghost digits = buffer@.subrange(from as int, to as int);
    let mut value: i32 = 0;
    let mut i: usize = from;
    assert(buffer@.subrange(from as int, from as int) =~= Seq::<char>::empty());
    while i < to
        invariant
            from <= i <= to <= buffer@.len(),
            digits == buffer@.subrange(from as int, to as int),
            forall|k: int| from <= k < to ==> is_digit(#[trigger] buffer@[k]),
            0 <= value <= i16::MAX,
            value == number(buffer@.subrange(from as int, i as int)),
        decreases to - i,
    {
        let d: i32 = (buffer[i] as u32 - 0x30) as i32;
        let ghost so_far = buffer@.subrange(from as int, i as int);
        let ghost next = buffer@.subrange(from as int, i + 1);
        assert(next.drop_last() =~= so_far);
        assert(next.last() == buffer@[i as int]);
        let wider: i32 = 10 * value + d;
        if wider > i16::MAX as i32 {
            proof {
                lemma_number_grows(buffer@, from as int, i + 1, to as int);
            }
            return None;
        }
        value = wider;
        i = i + 1;
    }
    Some(value as i16)
}

/// More digits never spell a smaller number.
proof fn lemma_number_grows(s: Seq<char>, from: int, mid: int, to: int)
    requires
        0 <= from <= mid <= to <= s.len(),
        forall|i: int| from <= i < to ==> is_digit(#[trigger] s[i]),
    ensures
        0 <= number(s.subrange(from, mid)) <= number(s.subrange(from, to)),
    decreases to - from,
{
    if from < to {
        let whole = s.subrange(from, to);
        assert(whole.drop_last() =~= s.subrange(from, to - 1));
        assert(whole.last() == s[to - 1]);
        if mid < to {
            lemma_number_grows(s, from, mid, to - 1);
        } else {
            lemma_number_grows(s, from, from, to - 1);
            assert(s.subrange(from, from) =~= Seq::<char>::empty());
        }
    } else {
        assert(s.subrange(from, mid) =~= Seq::<char>::empty());
    }
}

/// The keyword that a word is, if it is one.
fn keyword(word: &str) -> (k: Option<Keyword>)
    ensures
        k == keyword_of(word@),
{
    if str_eq(word, "namespace") {
        Some(Keyword::Namespace)
    } else if str_eq(word, "struct") {
        Some(Keyword::Struct)
    } else if str_eq(word, "enum") {
        Some(Keyword::Enum)
    } else if str_eq(word, "service") {
        Some(Keyword::Service)
    } else if str_eq(word, "optional") {
        Some(Keyword::Optional)
    } else if str_eq(word, "required") {
        Some(Keyword::Required)
    } else if str_eq(word, "throws") {
        Some(Keyword::Throws)
    } else if str_eq(word, "oneway") {
        Some(Keyword::Oneway)
    } else if str_eq(word, "typedef") {
        Some(Keyword::Typedef)
    } else if str_eq(word, "exception") {
        Some(Keyword::Exception)
    } else if str_eq(word, "include") {
        Some(Keyword::Include)
    } else if str_eq(word, "const") {
        Some(Keyword::Const)
    } else {
        None
    }
}

/// Where the block comment ends whose text starts at `from`.
fn skip_block(buffer: &[char], from: usize) -> (end: Option<usize>)
    requires
        from <= buffer@.len(),
    ensures
        match block_end(buffer@, from as int) {
            Some(e) => end == Some(e as usize) && e <= buffer@.len(),
            None => end is None,
        },
{
    let mut at: usize = from;
    loop
        invariant
            from <= at <= buffer@.len(),
            block_end(buffer@, from as int) == block_end(buffer@, at as int),
        decreases buffer@.len() - at,
    {
        let star = consume_while(buffer, at, Class::NotStar);
        proof {
            lemma_block_end(buffer@, at as int);
        }
        if buffer.len() - star < 2 {
            return None;
        }
        if buffer[star + 1] == '/' {
            return Some(star + 2);
        }
        at = star + 1;
    }
}

/// The token that stands at `pos` and the place behind it, if the lexer
/// can go on there.
fn scan(buffer: &[char], pos: usize) -> (r: Option<(Token, usize)>)
    requires
        pos <= buffer@.len(),
    ensures
        match lex(buffer@, pos as int) {
            Some((token, next)) => r is Some && r->Some_0.0@ == token && r->Some_0.1 == next
                && next <= buffer@.len(),
            None => r is None,
        },
    decreases buffer@.len() - pos,
{
    proof {
        lemma_lex_moves(buffer@, pos as int);
    }
    if pos >= buffer.len() {
        return Some((Token::Eof, pos));
    }
    let ch: char = buffer[pos];
    let p: usize = pos + 1;
    if ch == ':' {
        Some((Token::Colon, p))
    } else if ch == '.' {
        Some((Token::Dot, p))
    } else if ch == ';' {
        Some((Token::Semi, p))
    } else if ch == ',' {
        Some((Token::Comma, p))
    } else if ch == '"' {
        let end = consume_while(buffer, p, Class::NotQuote);
        if end < buffer.len() {
            let val = string_of(&buffer[p..end]);
            Some((Token::QuotedString(val), end + 1))
        } else {
            None
        }
    } else if ch == '=' {
        Some((Token::Eq, p))
    } else if ch == '(' {
        Some((Token::LParen, p))
    } else if ch == ')' {
        Some((Token::RParen, p))
    } else if ch == '{' {
        Some((Token::LCurly, p))
    } else if ch == '}' {
        Some((Token::RCurly, p))
    } else if ch == '<' {
        Some((Token::LAngle, p))
    } else if ch == '>' {
        Some((Token::RAngle, p))
    } else if digit(ch) {
        let end = consume_while(buffer, p, Class::Digit);
        proof {
            lemma_run_end(buffer@, p as int, Class::Digit);
        }
        match number_of(buffer, pos, end) {
            Some(n) => Some((Token::Number(n), end)),
            None => None,
        }
    } else if ch == '/' || ch == '#' {
        if p >= buffer.len() {
            None
        } else if buffer[p] == '/' || ch == '#' {
            let end = consume_while(buffer, p, Class::NotLineEnd);
            Some((Token::Comment, end))
        } else if buffer[p] == '*' {
            match skip_block(buffer, p + 1) {
                Some(end) => Some((Token::Comment, end)),
                None => None,
            }
        } else {
            Some((Token::Eof, p))
        }
    } else if space(ch) {
        let end = consume_while(buffer, p, Class::Space);
        scan(buffer, end)
    } else if ident_start(ch) {
        let end = consume_while(buffer, p, Class::IdentPart);
        let ident = string_of(&buffer[pos..end]);
        match keyword(ident.as_str()) {
            Some(k) => Some((Token::Keyword(k), end)),
            None => Some((Token::Ident(ident), end)),
        }
    } else {
        Some((Token::Eof, p))
    }
}

/// Whether the text from `pos` on can be cut into tokens.
pub open spec fn lexes_from(s: Seq<char>, pos: int) -> bool
    decreases s.len() - pos,
{
    if pos < 0 || pos > s.len() {
        false
    } else if pos == s.len() {
        true
    } else {
        match lex(s, pos) {
            Some((_, next)) => pos < next <= s.len() && lexes_from(s, next),
            None => false,
        }
    }
}

/// Whether a text can be cut into tokens from its start to its end.
pub open spec fn lexes(text: Seq<char>) -> bool {
    lexes_from(text, 0)
}

/// Why a text is not what the parser was asked to read.
#[derive(Debug, PartialEq, Eq)]
pub enum Error {
    Expected,
    MissingFieldAttribute,
    ExpectedNumber,
    ExpectedString,
    ExpectedKeyword(Keyword),
    ExpectedIdent,
    ExpectedToken(Token),
    NoMoreItems,
}

/// An error with the token in it as a plain value.
pub enum ErrorView {
    Expected,
    MissingFieldAttribute,
    ExpectedNumber,
    ExpectedString,
    ExpectedKeyword(Keyword),
    ExpectedIdent,
    ExpectedToken(TokenView),
    NoMoreItems,
}

impl View for Error {
    type V = ErrorView;

    open spec fn view(&self) -> ErrorView {
        match *self {
            Error::Expected => ErrorView::Expected,
            Error::MissingFieldAttribute => ErrorView::MissingFieldAttribute,
            Error::ExpectedNumber => ErrorView::ExpectedNumber,
            Error::ExpectedString => ErrorView::ExpectedString,
            Error::ExpectedKeyword(k) => ErrorView::ExpectedKeyword(k),
            Error::ExpectedIdent => ErrorView::ExpectedIdent,
            Error::ExpectedToken(t) => ErrorView::ExpectedToken(t@),
            Error::NoMoreItems => ErrorView::NoMoreItems,
        }
    }
}

/// Where a parser stands: the text, the place behind the token that it
/// looks at, that token, and whether it has gone past a token `Eof`.
pub struct ParserView {
    pub chars: Seq<char>,
    pub pos: int,
    /// The token that the parser looks at. It is `B` before the first token
    /// has been read.
    pub token: TokenView,
    pub last_token_eof: bool,
}

/// What a step of the parser gives: a value or an error, and where the
/// parser stands then. There is none where the parser cannot go on.
pub type Step<T> = Option<(Result<T, ErrorView>, ParserView)>;

impl ParserView {
    /// A parser at the start of a text.
    pub open spec fn start(text: Seq<char>) -> ParserView {
        ParserView { chars: text, pos: 0, token: TokenView::B, last_token_eof: false }
    }

    /// What holds of a parser at all times: it stands inside its text, the
    /// rest of the text can be cut into tokens, and it has read a token
    /// before it goes past one.
    pub open spec fn wf(self) -> bool {
        &&& 0 <= self.pos <= self.chars.len()
        &&& lexes_from(self.chars, self.pos)
        &&& self.token is B ==> !self.last_token_eof
    }

    /// How much is left to read: the characters behind the token that the
    /// parser looks at, and that token itself unless it is the end of the
    /// text.
    pub open spec fn left(self) -> int {
        if self.token is B {
            self.chars.len() - self.pos + 2
        } else if self.token is Eof && self.pos >= self.chars.len() {
            0
        } else {
            self.chars.len() - self.pos + 1
        }
    }

    /// The parser after it went on to the next token. A parser that has
    /// gone past a token `Eof` cannot go on.
    pub open spec fn bump_spec(self) -> Option<ParserView> {
        if self.last_token_eof {
            None
        } else {
            Some(
                ParserView {
                    token: lex(self.chars, self.pos)->Some_0.0,
                    pos: lex(self.chars, self.pos)->Some_0.1,
                    last_token_eof: self.token is Eof,
                    ..self
                },
            )
        }
    }

    /// The parser once it looks at a token: it reads the first token if it
    /// has read none.
    pub open spec fn skip_b_spec(self) -> Option<ParserView> {
        if self.token is B {
            self.bump_spec()
        } else {
            Some(self)
        }
    }

    /// Whether the parser looks at `token`, and the parser then.
    pub open spec fn lookahead_spec(self, token: TokenView) -> Option<(bool, ParserView)> {
        match self.skip_b_spec() {
            None => None,
            Some(at) => Some((at.token == token, at)),
        }
    }

    /// Whether the parser looks at `token`, and the parser then: behind
    /// the token if it does.
    pub open spec fn eat_spec(self, token: TokenView) -> Option<(bool, ParserView)> {
        match self.skip_b_spec() {
            None => None,
            Some(at) => if at.token == token {
                match at.bump_spec() {
                    None => None,
                    Some(behind) => Some((true, behind)),
                }
            } else {
                Some((false, at))
            },
        }
    }

    pub open spec fn expect_keyword_spec(self, keyword: Keyword) -> Step<()> {
        match self.eat_spec(TokenView::Keyword(keyword)) {
            None => None,
            Some((true, behind)) => Some((Ok(()), behind)),
            Some((false, at)) => Some((Err(ErrorView::ExpectedKeyword(keyword)), at)),
        }
    }

    /// Goes past `token`. Gives the token behind it.
    pub open spec fn expect_spec(self, token: TokenView) -> Step<TokenView> {
        match self.eat_spec(token) {
            None => None,
            Some((true, behind)) => Some((Ok(behind.token), behind)),
            Some((false, at)) => Some((Err(ErrorView::ExpectedToken(token)), at)),
        }
    }

    /// Takes the quoted string that the parser looks at.
    pub open spec fn expect_string_spec(self) -> Step<Seq<char>> {
        match self.token {
            TokenView::QuotedString(val) => match self.bump_spec() {
                None => None,
                Some(behind) => Some((Ok(val), behind)),
            },
            _ => Some((Err(ErrorView::ExpectedString), self)),
        }
    }

    /// Takes the word that the parser looks at.
    pub open spec fn expect_ident_spec(self) -> Step<Seq<char>> {
        match self.token {
            TokenView::Ident(val) => match self.bump_spec() {
                None => None,
                Some(behind) => Some((Ok(val), behind)),
            },
            _ => Some((Err(ErrorView::Expected), self)),
        }
    }

    /// Takes the word that the parser looks at, after it has read the
    /// first token if it had read none.
    pub open spec fn parse_ident_spec(self) -> Step<Seq<char>> {
        match self.skip_b_spec() {
            None => None,
            Some(at) => match at.token {
                TokenView::Ident(val) => match at.bump_spec() {
                    None => None,
                    Some(behind) => Some((Ok(val), behind)),
                },
                _ => Some((Err(ErrorView::ExpectedIdent), at)),
            },
        }
    }

    /// Takes the number that the parser looks at, after it has read the
    /// first token if it had read none.
    pub open spec fn parse_number_spec(self) -> Step<i16> {
        match self.skip_b_spec() {
            None => None,
            Some(at) => match at.token {
                TokenView::Number(n) => match at.bump_spec() {
                    None => None,
                    Some(behind) => Some((Ok(n), behind)),
                },
                _ => Some((Err(ErrorView::ExpectedNumber), at)),
            },
        }
    }

    /// `namespace`, the language, the module. Gives the language and the
    /// module.
    pub open spec fn parse_namespace_spec(self) -> Step<(Seq<char>, Seq<char>)> {
        match self.expect_keyword_spec(Keyword::Namespace) {
            None => None,
            Some((Err(e), at)) => Some((Err(e), at)),
            Some((Ok(_), s1)) => match s1.expect_ident_spec() {
                None => None,
                Some((Err(e), at)) => Some((Err(e), at)),
                Some((Ok(lang), s2)) => match s2.expect_ident_spec() {
                    None => None,
                    Some((Err(e), at)) => Some((Err(e), at)),
                    Some((Ok(module), s3)) => Some((Ok((lang, module)), s3)),
                },
            },
        }
    }

    /// `include` and a quoted path. Gives the path.
    pub open spec fn parse_include_spec(self) -> Step<Seq<char>> {
        match self.expect_keyword_spec(Keyword::Include) {
            None => None,
            Some((Err(e), at)) => Some((Err(e), at)),
            Some((Ok(_), s1)) => s1.expect_string_spec(),
        }
    }

    /// A type: a name, or `list`, `set` or `map` with their arguments in
    /// angle brackets. The parser cannot go on behind any other name that is
    /// followed by `<`.
    pub open spec fn parse_ty_spec(self) -> Step<TyView>
        decreases self.left(),
    {
        match self.parse_ident_spec() {
            None => None,
            Some((Err(e), at)) => Some((Err(e), at)),
            Some((Ok(ident), s1)) => match s1.eat_spec(TokenView::LAngle) {
                None => None,
                Some((false, s2)) => Some((Ok(Ty::named(ident)), s2)),
                Some((true, s2)) => if !(0 <= s2.left() < self.left()) {
                    None
                } else {
                    let inner: Step<TyView> = if ident == "map"@ {
                        match s2.parse_ty_spec() {
                            None => None,
                            Some((Err(e), at)) => Some((Err(e), at)),
                            Some((Ok(a), s3)) => match s3.expect_spec(TokenView::Comma) {
                                None => None,
                                Some((Err(e), at)) => Some((Err(e), at)),
                                Some((Ok(_), s4)) => if !(0 <= s4.left() < self.left()) {
                                    None
                                } else {
                                    match s4.parse_ty_spec() {
                                        None => None,
                                        Some((Err(e), at)) => Some((Err(e), at)),
                                        Some((Ok(b), s5)) => Some(
                                            (Ok(TyView::TMap(Box::new(a), Box::new(b))), s5),
                                        ),
                                    }
                                },
                            },
                        }
                    } else if ident == "set"@ {
                        match s2.parse_ty_spec() {
                            None => None,
                            Some((Err(e), at)) => Some((Err(e), at)),
                            Some((Ok(t), s3)) => Some((Ok(TyView::TSet(Box::new(t))), s3)),
                        }
                    } else if ident == "list"@ {
                        match s2.parse_ty_spec() {
                            None => None,
                            Some((Err(e), at)) => Some((Err(e), at)),
                            Some((Ok(t), s3)) => Some((Ok(TyView::List(Box::new(t))), s3)),
                        }
                    } else {
                        None
                    };
                    match inner {
                        None => None,
                        Some((Err(e), at)) => Some((Err(e), at)),
                        Some((Ok(ty), s6)) => match s6.expect_spec(TokenView::RAngle) {
                            None => None,
                            Some((Err(e), at)) => Some((Err(e), at)),
                            Some((Ok(_), s7)) => Some((Ok(ty), s7)),
                        },
                    }
                },
            },
        }
    }

    /// `typedef`, a type, a name. Gives the type and the name.
    pub open spec fn parse_typedef_spec(self) -> Step<(TyView, Seq<char>)> {
        match self.expect_keyword_spec(Keyword::Typedef) {
            None => None,
            Some((Err(e), at)) => Some((Err(e), at)),
            Some((Ok(_), s1)) => match s1.parse_ty_spec() {
                None => None,
                Some((Err(e), at)) => Some((Err(e), at)),
                Some((Ok(ty), s2)) => match s2.expect_ident_spec() {
                    None => None,
                    Some((Err(e), at)) => Some((Err(e), at)),
                    Some((Ok(name), s3)) => Some((Ok((ty, name)), s3)),
                },
            },
        }
    }

    /// A field: its number, `:`, `optional` or `required`, its type, its
    /// name.
    pub open spec fn parse_struct_field_spec(self) -> Step<StructFieldView> {
        match self.parse_number_spec() {
            None => None,
            Some((Err(e), at)) => Some((Err(e), at)),
            Some((Ok(seq), s1)) => match s1.expect_spec(TokenView::Colon) {
                None => None,
                Some((Err(e), at)) => Some((Err(e), at)),
                Some((Ok(_), s2)) => match s2.eat_spec(TokenView::Keyword(Keyword::Optional)) {
                    None => None,
                    Some((true, s3)) => s3.field_rest_spec(seq, FieldAttribute::Optional),
                    Some((false, s3)) => match s3.eat_spec(
                        TokenView::Keyword(Keyword::Required),
                    ) {
                        None => None,
                        Some((true, s4)) => s4.field_rest_spec(seq, FieldAttribute::Required),
                        Some((false, s4)) => Some((Err(ErrorView::MissingFieldAttribute), s4)),
                    },
                },
            },
        }
    }

    /// The type and the name of a field whose number and attribute have
    /// been read.
    pub open spec fn field_rest_spec(self, seq: i16, attr: FieldAttribute) -> Step<StructFieldView> {
        match self.parse_ty_spec() {
            None => None,
            Some((Err(e), at)) => Some((Err(e), at)),
            Some((Ok(ty), s1)) => match s1.parse_ident_spec() {
                None => None,
                Some((Err(e), at)) => Some((Err(e), at)),
                Some((Ok(ident), s2)) => Some((Ok(StructFieldView { seq, attr, ty, ident }), s2)),
            },
        }
    }

    /// The fields of a struct behind the fields `acc`: fields with `;`
    /// between them, up to a `}` or to a field that no `;` follows.
    pub open spec fn struct_fields_spec(self, acc: Seq<StructFieldView>) -> Step<
        Seq<StructFieldView>,
    >
        decreases self.left(),
    {
        match self.eat_spec(TokenView::RCurly) {
            None => None,
            Some((true, s1)) => Some((Ok(acc), s1)),
            Some((false, s1)) => match s1.parse_struct_field_spec() {
                None => None,
                Some((Err(e), at)) => Some((Err(e), at)),
                Some((Ok(field), s2)) => match s2.eat_spec(TokenView::Semi) {
                    None => None,
                    Some((false, s3)) => Some((Ok(acc.push(field)), s3)),
                    Some((true, s3)) => if 0 <= s3.left() < self.left() {
                        s3.struct_fields_spec(acc.push(field))
                    } else {
                        None
                    },
                },
            },
        }
    }

    /// `struct`, a name, `{`, the fields.
    pub open spec fn parse_struct_spec(self) -> Step<StructView> {
        match self.expect_keyword_spec(Keyword::Struct) {
            None => None,
            Some((Err(e), at)) => Some((Err(e), at)),
            Some((Ok(_), s1)) => match s1.expect_ident_spec() {
                None => None,
                Some((Err(e), at)) => Some((Err(e), at)),
                Some((Ok(ident), s2)) => match s2.expect_spec(TokenView::LCurly) {
                    None => None,
                    Some((Err(e), at)) => Some((Err(e), at)),
                    Some((Ok(_), s3)) => match s3.struct_fields_spec(Seq::empty()) {
                        None => None,
                        Some((Err(e), at)) => Some((Err(e), at)),
                        Some((Ok(fields), s4)) => Some((Ok(StructView { ident, fields }), s4)),
                    },
                },
            },
        }
    }

    /// The variants of an enum behind the variants `acc`: names with `,`
    /// between them, up to a `}` or to a name that no `,` follows; a `}`
    /// behind such a name is taken too.
    pub open spec fn enum_variants_spec(self, acc: Seq<Seq<char>>) -> Step<Seq<Seq<char>>>
        decreases self.left(),
    {
        match self.eat_spec(TokenView::RCurly) {
            None => None,
            Some((true, s1)) => Some((Ok(acc), s1)),
            Some((false, s1)) => match s1.parse_ident_spec() {
                None => None,
                Some((Err(e), at)) => Some((Err(e), at)),
                Some((Ok(variant), s2)) => match s2.eat_spec(TokenView::Comma) {
                    None => None,
                    Some((false, s3)) => match s3.eat_spec(TokenView::RCurly) {
                        None => None,
                        Some((_, s4)) => Some((Ok(acc.push(variant)), s4)),
                    },
                    Some((true, s3)) => if 0 <= s3.left() < self.left() {
                        s3.enum_variants_spec(acc.push(variant))
                    } else {
                        None
                    },
                },
            },
        }
    }

    /// `enum`, a name, `{`, the variants.
    pub open spec fn parse_enum_spec(self) -> Step<EnumView> {
        match self.expect_keyword_spec(Keyword::Enum) {
            None => None,
            Some((Err(e), at)) => Some((Err(e), at)),
            Some((Ok(_), s1)) => match s1.expect_ident_spec() {
                None => None,
                Some((Err(e), at)) => Some((Err(e), at)),
                Some((Ok(ident), s2)) => match s2.expect_spec(TokenView::LCurly) {
                    None => None,
                    Some((Err(e), at)) => Some((Err(e), at)),
                    Some((Ok(_), s3)) => match s3.enum_variants_spec(Seq::empty()) {
                        None => None,
                        Some((Err(e), at)) => Some((Err(e), at)),
                        Some((Ok(variants), s4)) => Some((Ok(EnumView { ident, variants }), s4)),
                    },
                },
            },
        }
    }

    /// An argument of a method: its number, `:`, its type, its name.
    pub open spec fn parse_arg_spec(self) -> Step<StructFieldView> {
        match self.parse_number_spec() {
            None => None,
            Some((Err(e), at)) => Some((Err(e), at)),
            Some((Ok(seq), s1)) => match s1.expect_spec(TokenView::Colon) {
                None => None,
                Some((Err(e), at)) => Some((Err(e), at)),
                Some((Ok(_), s2)) => s2.field_rest_spec(seq, FieldAttribute::Required),
            },
        }
    }

    /// The arguments of a method behind the arguments `acc`: arguments with
    /// `,` between them, up to a `)`. The parser cannot go on behind an
    /// argument that neither `,` nor `)` follows.
    pub open spec fn method_args_spec(self, acc: Seq<StructFieldView>) -> Step<Seq<StructFieldView>>
        decreases self.left(),
    {
        match self.eat_spec(TokenView::RParen) {
            None => None,
            Some((true, s1)) => Some((Ok(acc), s1)),
            Some((false, s1)) => match s1.parse_arg_spec() {
                None => None,
                Some((Err(e), at)) => Some((Err(e), at)),
                Some((Ok(field), s4)) => match s4.eat_spec(TokenView::Comma) {
                    None => None,
                    Some((true, s5)) => if 0 <= s5.left() < self.left() {
                        s5.method_args_spec(acc.push(field))
                    } else {
                        None
                    },
                    Some((false, s5)) => match s5.eat_spec(TokenView::RParen) {
                        Some((true, s6)) => Some((Ok(acc.push(field)), s6)),
                        _ => None,
                    },
                },
            },
        }
    }

    /// A method: `oneway` or nothing, the type of the result, the name,
    /// `(`, the arguments.
    pub open spec fn parse_method_spec(self) -> Step<ServiceMethodView> {
        match self.eat_spec(TokenView::Keyword(Keyword::Oneway)) {
            None => None,
            Some((oneway, s1)) => match s1.parse_ty_spec() {
                None => None,
                Some((Err(e), at)) => Some((Err(e), at)),
                Some((Ok(ty), s2)) => match s2.parse_ident_spec() {
                    None => None,
                    Some((Err(e), at)) => Some((Err(e), at)),
                    Some((Ok(ident), s3)) => match s3.expect_spec(TokenView::LParen) {
                        None => None,
                        Some((Err(e), at)) => Some((Err(e), at)),
                        Some((Ok(_), s4)) => match s4.method_args_spec(Seq::empty()) {
                            None => None,
                            Some((Err(e), at)) => Some((Err(e), at)),
                            Some((Ok(args), s5)) => Some(
                                (
                                    Ok(
                                        ServiceMethodView {
                                            ident,
                                            ty,
                                            attr: if oneway {
                                                FieldAttribute::Oneway
                                            } else {
                                                FieldAttribute::Required
                                            },
                                            args,
                                        },
                                    ),
                                    s5,
                                ),
                            ),
                        },
                    },
                },
            },
        }
    }

    /// What follows a method: whether it is a `,` or a `;`, behind which
    /// the next method stands. A `}` in their place is taken too, and ends the
    /// methods like anything else.
    pub open spec fn method_end_spec(self) -> Option<(bool, ParserView)> {
        match self.eat_spec(TokenView::Comma) {
            None => None,
            Some((true, s1)) => Some((true, s1)),
            Some((false, s1)) => match s1.eat_spec(TokenView::Semi) {
                None => None,
                Some((true, s2)) => Some((true, s2)),
                Some((false, s2)) => match s2.eat_spec(TokenView::RCurly) {
                    None => None,
                    Some((_, s3)) => Some((false, s3)),
                },
            },
        }
    }

    /// The methods of a service behind the methods `acc`: methods with `,`
    /// or `;` between them, up to a `}` or to a method that neither follows;
    /// a `}` behind such a method is taken too.
    pub open spec fn service_methods_spec(self, acc: Seq<ServiceMethodView>) -> Step<
        Seq<ServiceMethodView>,
    >
        decreases self.left(),
    {
        match self.eat_spec(TokenView::RCurly) {
            None => None,
            Some((true, s1)) => Some((Ok(acc), s1)),
            Some((false, s1)) => match s1.parse_method_spec() {
                None => None,
                Some((Err(e), at)) => Some((Err(e), at)),
                Some((Ok(method), s2)) => match s2.method_end_spec() {
                    None => None,
                    Some((true, s3)) => if 0 <= s3.left() < self.left() {
                        s3.service_methods_spec(acc.push(method))
                    } else {
                        None
                    },
                    Some((false, s3)) => Some((Ok(acc.push(method)), s3)),
                },
            },
        }
    }

    /// `service`, a name, `{`, the methods.
    pub open spec fn parse_service_spec(self) -> Step<ServiceView> {
        match self.expect_keyword_spec(Keyword::Service) {
            None => None,
            Some((Err(e), at)) => Some((Err(e), at)),
            Some((Ok(_), s1)) => match s1.expect_ident_spec() {
                None => None,
                Some((Err(e), at)) => Some((Err(e), at)),
                Some((Ok(ident), s2)) => match s2.expect_spec(TokenView::LCurly) {
                    None => None,
                    Some((Err(e), at)) => Some((Err(e), at)),
                    Some((Ok(_), s3)) => match s3.service_methods_spec(Seq::empty()) {
                        None => None,
                        Some((Err(e), at)) => Some((Err(e), at)),
                        Some((Ok(methods), s4)) => Some((Ok(ServiceView { ident, methods }), s4)),
                    },
                },
            },
        }
    }

    /// A parser that goes on stays as it should be, and has less left to
    /// read unless it stood at the end of its text.
    pub proof fn lemma_bump(self)
        requires
            self.wf(),
            self.bump_spec() is Some,
        ensures
            self.bump_spec()->Some_0.wf(),
            !self.bump_spec()->Some_0.last_token_eof <==> !(self.token is Eof),
            !(self.bump_spec()->Some_0.token is B),
            !(self.token is Eof && self.pos >= self.chars.len()) ==> self.bump_spec()->Some_0.left()
                < self.left(),
            self.bump_spec()->Some_0.left() <= self.left(),
            self.bump_spec()->Some_0.chars == self.chars,
    {
        lemma_lex_moves(self.chars, self.pos);
        lemma_lexes_on(self.chars, self.pos);
    }
}

impl ParserView {
    /// Whether the parser is as it should be and has not gone past a token
    /// `Eof`, so that it can go on to the next token.
    pub open spec fn ready(self) -> bool {
        self.wf() && !self.last_token_eof
    }

    /// A parser that is ready can take any token but `Eof`, and is ready
    /// afterwards.
    pub proof fn lemma_eat_goes_on(self, token: TokenView)
        requires
            self.ready(),
            !(token is Eof),
        ensures
            self.skip_b_spec() is Some,
            self.skip_b_spec()->Some_0.ready(),
            self.lookahead_spec(token) is Some,
            self.eat_spec(token) is Some,
            self.eat_spec(token)->Some_0.1.ready(),
            self.eat_spec(token)->Some_0.1.left() <= self.left(),
            self.eat_spec(token)->Some_0.0 ==> self.eat_spec(token)->Some_0.1.left() < self.left(),
            self.expect_spec(token) is Some,
            self.expect_spec(token)->Some_0.1.ready(),
    {
        if self.token is B {
            self.lemma_bump();
        }
        let at = self.skip_b_spec()->Some_0;
        if at.token == token {
            at.lemma_bump();
        }
    }

    /// A parser that is ready can take a keyword, a word, a string or a
    /// number, and is ready afterwards.
    pub proof fn lemma_words_go_on(self, keyword: Keyword)
        requires
            self.ready(),
        ensures
            self.expect_keyword_spec(keyword) is Some,
            self.expect_keyword_spec(keyword)->Some_0.1.ready(),
            self.expect_ident_spec() is Some,
            self.expect_ident_spec()->Some_0.1.ready(),
            self.expect_string_spec() is Some,
            self.expect_string_spec()->Some_0.1.ready(),
            self.parse_ident_spec() is Some,
            self.parse_ident_spec()->Some_0.1.ready(),
            self.parse_ident_spec()->Some_0.1.left() <= self.left(),
            self.parse_ident_spec()->Some_0.0 is Ok ==> self.parse_ident_spec()->Some_0.1.left()
                < self.left(),
            self.parse_number_spec() is Some,
            self.parse_number_spec()->Some_0.1.ready(),
    {
        self.lemma_eat_goes_on(TokenView::Keyword(keyword));
        if self.token is B {
            self.lemma_bump();
        }
        let at = self.skip_b_spec()->Some_0;
        if !(at.token is Eof) {
            at.lemma_bump();
        }
        if !(self.token is Eof) && !(self.token is B) {
            self.lemma_bump();
        }
    }

    /// A parser that is ready can read a namespace and an include.
    pub proof fn lemma_namespace_and_include_go_on(self)
        requires
            self.ready(),
        ensures
            self.parse_namespace_spec() is Some,
            self.parse_include_spec() is Some,
    {
        self.lemma_words_go_on(Keyword::Namespace);
        self.lemma_words_go_on(Keyword::Include);
        let s1 = self.expect_keyword_spec(Keyword::Namespace)->Some_0.1;
        s1.lemma_words_go_on(Keyword::Namespace);
        let s2 = s1.expect_ident_spec()->Some_0.1;
        s2.lemma_words_go_on(Keyword::Namespace);
        let i1 = self.expect_keyword_spec(Keyword::Include)->Some_0.1;
        i1.lemma_words_go_on(Keyword::Include);
    }

    /// A parser that is ready can read the variants of an enum.
    pub proof fn lemma_variants_go_on(self, acc: Seq<Seq<char>>)
        requires
            self.ready(),
        ensures
            self.enum_variants_spec(acc) is Some,
        decreases self.left(),
    {
        self.lemma_eat_goes_on(TokenView::RCurly);
        let (closed, s1) = self.eat_spec(TokenView::RCurly)->Some_0;
        if !closed {
            s1.lemma_words_go_on(Keyword::Enum);
            let (r, s2) = s1.parse_ident_spec()->Some_0;
            if let Ok(variant) = r {
                s2.lemma_eat_goes_on(TokenView::Comma);
                let (more, s3) = s2.eat_spec(TokenView::Comma)->Some_0;
                if more {
                    s3.lemma_variants_go_on(acc.push(variant));
                } else {
                    s3.lemma_eat_goes_on(TokenView::RCurly);
                }
            }
        }
    }

    /// A parser that is ready can read an enum.
    pub proof fn lemma_enum_goes_on(self)
        requires
            self.ready(),
        ensures
            self.parse_enum_spec() is Some,
    {
        self.lemma_words_go_on(Keyword::Enum);
        let (r1, s1) = self.expect_keyword_spec(Keyword::Enum)->Some_0;
        s1.lemma_words_go_on(Keyword::Enum);
        let (r2, s2) = s1.expect_ident_spec()->Some_0;
        s2.lemma_eat_goes_on(TokenView::LCurly);
        let (r3, s3) = s2.expect_spec(TokenView::LCurly)->Some_0;
        s3.lemma_variants_go_on(Seq::empty());
    }
}

/// A text that can be cut into tokens from `pos` on has a token at `pos`,
/// and can be cut into tokens from behind that token on.
pub proof fn lemma_lexes_on(s: Seq<char>, pos: int)
    requires
        0 <= pos <= s.len(),
        lexes_from(s, pos),
    ensures
        lex(s, pos) is Some,
        lexes_from(s, lex(s, pos)->Some_0.1),
{
}

/// Whether a result is the value or the error that was to come out.
pub open spec fn came_out<T: View>(r: Result<T, Error>, expected: Result<T::V, ErrorView>) -> bool {
    match expected {
        Ok(v) => r is Ok && r->Ok_0@ == v,
        Err(e) => r is Err && r->Err_0@ == e,
    }
}

/// Reads a service description token by token.
pub struct Parser {
    buffer: Vec<char>,
    pos: usize,
    token: Token,
    last_token_eof: bool,
}

impl View for Parser {
    type V = ParserView;

    closed spec fn view(&self) -> ParserView {
        ParserView {
            chars: self.buffer@,
            pos: self.pos as int,
            token: self.token@,
            last_token_eof: self.last_token_eof,
        }
    }
}

impl Parser {
    #[verifier::type_invariant]
    spec fn inv(self) -> bool {
        self@.wf()
    }

    /// Whether a text can be cut into tokens from its start to its end, so
    /// that a parser can be made for it.
    pub fn accepts(input: &str) -> (b: bool)
        ensures
            b == lexes(input@),
    {
        let chars = chars_of(input);
        let mut pos: usize = 0;
        while pos < chars.len()
            invariant
                pos <= chars@.len(),
                chars@ == input@,
                lexes_from(chars@, 0) == lexes_from(chars@, pos as int),
            decreases chars@.len() - pos,
        {
            proof {
                lemma_lex_moves(chars@, pos as int);
            }
            match scan(chars.as_slice(), pos) {
                None => {
                    assert(!lexes_from(chars@, pos as int));
                    return false;
                },
                Some((_, next)) => {
                    pos = next;
                },
            }
        }
        true
    }

    /// A parser at the start of `input`.
    pub fn new(input: &str) -> (p: Parser)
        requires
            lexes(input@),
        ensures
            p@ == ParserView::start(input@),
    {
        Parser { buffer: chars_of(input), pos: 0, token: Token::B, last_token_eof: false }
    }

    /// A parser at the start of `input`, if `input` can be cut into tokens.
    pub fn try_new(input: &str) -> (p: Option<Parser>)
        ensures
            p is Some == lexes(input@),
            p matches Some(parser) ==> parser@ == ParserView::start(input@),
    {
        if Parser::accepts(input) {
            Some(Parser::new(input))
        } else {
            None
        }
    }

    /// The token that the parser looks at.
    pub fn token(&self) -> (t: &Token)
        ensures
            t@ == self@.token,
    {
        &self.token
    }

    /// Whether the parser stands at the end of its text.
    pub fn eof(&self) -> (b: bool)
        ensures
            b == (self@.pos >= self@.chars.len()),
    {
        self.pos >= self.buffer.len()
    }

    /// Reads the token behind the place where the parser stands, and
    /// stands behind it. The token that the parser looks at stays.
    pub fn next_token(&mut self) -> (t: Token)
        ensures
            lex(old(self)@.chars, old(self)@.pos) is Some,
            t@ == lex(old(self)@.chars, old(self)@.pos)->Some_0.0,
            final(self)@ == (ParserView {
                pos: lex(old(self)@.chars, old(self)@.pos)->Some_0.1,
                ..old(self)@
            }),
    {
        proof {
            use_type_invariant(&*self);
            lemma_lexes_on(self@.chars, self@.pos);
            lemma_lex_moves(self@.chars, self@.pos);
        }
        match scan(self.buffer.as_slice(), self.pos) {
            Some((token, next)) => {
                self.pos = next;
                token
            },
            None => vstd::pervasive::unreached(),
        }
    }

    /// Goes on to the next token. A parser that has gone past a token `Eof`
    /// cannot go on.
    pub fn bump(&mut self)
        requires
            old(self)@.bump_spec() is Some,
        ensures
            final(self)@ == old(self)@.bump_spec()->Some_0,
            final(self)@.left() <= old(self)@.left(),
            !(old(self)@.token is Eof && old(self)@.pos >= old(self)@.chars.len()) ==> final(self)@.left() < old(self)@.left(),
            !(final(self)@.token is B),
    {
        proof {
            use_type_invariant(&*self);
            self@.lemma_bump();
        }
        match self.token {
            Token::Eof => {
                self.last_token_eof = true;
            },
            _ => {},
        }
        let next = self.next_token();
        self.token = next;
    }

    /// Reads the first token if the parser has read none.
    pub fn skip_b(&mut self)
        requires
            old(self)@.skip_b_spec() is Some,
        ensures
            final(self)@ == old(self)@.skip_b_spec()->Some_0,
            final(self)@.left() <= old(self)@.left(),
            !(final(self)@.token is B),
    {
        match self.token {
            Token::B => {
                self.bump();
            },
            _ => {},
        }
    }

    /// Goes past `token` if the parser looks at it, and says whether it
    /// did.
    pub fn eat(&mut self, token: &Token) -> (ate: bool)
        requires
            old(self)@.eat_spec(token@) is Some,
        ensures
            ate == old(self)@.eat_spec(token@)->Some_0.0,
            final(self)@ == old(self)@.eat_spec(token@)->Some_0.1,
            final(self)@.left() <= old(self)@.left(),
            ate && !(token@ is Eof) ==> final(self)@.left() < old(self)@.left(),
            !(final(self)@.token is B),
    {
        self.skip_b();
        if self.token.same(token) {
            self.bump();
            true
        } else {
            false
        }
    }

    pub fn eat_keyword(&mut self, keyword: Keyword) -> (ate: bool)
        requires
            old(self)@.eat_spec(TokenView::Keyword(keyword)) is Some,
        ensures
            ate == old(self)@.eat_spec(TokenView::Keyword(keyword))->Some_0.0,
            final(self)@ == old(self)@.eat_spec(TokenView::Keyword(keyword))->Some_0.1,
            final(self)@.left() <= old(self)@.left(),
            ate ==> final(self)@.left() < old(self)@.left(),
            !(final(self)@.token is B),
    {
        self.eat(&Token::Keyword(keyword))
    }

    /// Whether the parser looks at `token`.
    pub fn lookahead(&mut self, token: &Token) -> (there: bool)
        requires
            old(self)@.lookahead_spec(token@) is Some,
        ensures
            there == old(self)@.lookahead_spec(token@)->Some_0.0,
            final(self)@ == old(self)@.lookahead_spec(token@)->Some_0.1,
            final(self)@.left() <= old(self)@.left(),
    {
        self.skip_b();
        self.token.same(token)
    }

    pub fn lookahead_keyword(&mut self, keyword: Keyword) -> (there: bool)
        requires
            old(self)@.lookahead_spec(TokenView::Keyword(keyword)) is Some,
        ensures
            there == old(self)@.lookahead_spec(TokenView::Keyword(keyword))->Some_0.0,
            final(self)@ == old(self)@.lookahead_spec(TokenView::Keyword(keyword))->Some_0.1,
            final(self)@.left() <= old(self)@.left(),
    {
        self.lookahead(&Token::Keyword(keyword))
    }

    pub fn expect_string(&mut self) -> (r: Result<String, Error>)
        requires
            old(self)@.expect_string_spec() is Some,
        ensures
            came_out(r, old(self)@.expect_string_spec()->Some_0.0),
            final(self)@ == old(self)@.expect_string_spec()->Some_0.1,
            final(self)@.left() <= old(self)@.left(),
            r is Ok ==> final(self)@.left() < old(self)@.left(),
    {
        let val = match &self.token {
            Token::QuotedString(s) => s.clone(),
            _ => {
                return Err(Error::ExpectedString);
            },
        };
        self.bump();
        Ok(val)
    }

    pub fn expect_keyword(&mut self, keyword: Keyword) -> (r: Result<(), Error>)
        requires
            old(self)@.expect_keyword_spec(keyword) is Some,
        ensures
            came_out(r, old(self)@.expect_keyword_spec(keyword)->Some_0.0),
            final(self)@ == old(self)@.expect_keyword_spec(keyword)->Some_0.1,
            final(self)@.left() <= old(self)@.left(),
            r is Ok ==> final(self)@.left() < old(self)@.left(),
    {
        if !self.eat_keyword(keyword) {
            return Err(Error::ExpectedKeyword(keyword));
        }
        Ok(())
    }

    /// Goes past `token`. Returns the token behind it.
    pub fn expect(&mut self, token: &Token) -> (r: Result<Token, Error>)
        requires
            old(self)@.expect_spec(token@) is Some,
        ensures
            came_out(r, old(self)@.expect_spec(token@)->Some_0.0),
            final(self)@ == old(self)@.expect_spec(token@)->Some_0.1,
            final(self)@.left() <= old(self)@.left(),
            r is Ok && !(token@ is Eof) ==> final(self)@.left() < old(self)@.left(),
    {
        if !self.eat(token) {
            Err(Error::ExpectedToken(token.copy()))
        } else {
            Ok(self.token.copy())
        }
    }

    pub fn parse_ident(&mut self) -> (r: Result<String, Error>)
        requires
            old(self)@.parse_ident_spec() is Some,
        ensures
            came_out(r, old(self)@.parse_ident_spec()->Some_0.0),
            final(self)@ == old(self)@.parse_ident_spec()->Some_0.1,
            final(self)@.left() <= old(self)@.left(),
            r is Ok ==> final(self)@.left() < old(self)@.left(),
    {
        self.skip_b();
        let i = match &self.token {
            Token::Ident(s) => s.clone(),
            _ => {
                return Err(Error::ExpectedIdent);
            },
        };
        self.bump();
        Ok(i)
    }

    pub fn expect_ident(&mut self) -> (r: Result<String, Error>)
        requires
            old(self)@.expect_ident_spec() is Some,
        ensures
            came_out(r, old(self)@.expect_ident_spec()->Some_0.0),
            final(self)@ == old(self)@.expect_ident_spec()->Some_0.1,
            final(self)@.left() <= old(self)@.left(),
            r is Ok ==> final(self)@.left() < old(self)@.left(),
    {
        let ident = match &self.token {
            Token::Ident(s) => s.clone(),
            _ => {
                return Err(Error::Expected);
            },
        };
        self.bump();
        Ok(ident)
    }

    pub fn parse_number(&mut self) -> (r: Result<i16, Error>)
        requires
            old(self)@.parse_number_spec() is Some,
        ensures
            came_out(r, old(self)@.parse_number_spec()->Some_0.0),
            final(self)@ == old(self)@.parse_number_spec()->Some_0.1,
            final(self)@.left() <= old(self)@.left(),
            r is Ok ==> final(self)@.left() < old(self)@.left(),
    {
        self.skip_b();
        let n = match self.token {
            Token::Number(n) => n,
            _ => {
                return Err(Error::ExpectedNumber);
            },
        };
        self.bump();
        Ok(n)
    }

    pub fn parse_namespace(&mut self) -> (r: Result<Namespace, Error>)
        requires
            old(self)@.parse_namespace_spec() is Some,
        ensures
            came_out(r, old(self)@.parse_namespace_spec()->Some_0.0),
            final(self)@ == old(self)@.parse_namespace_spec()->Some_0.1,
    {
        self.expect_keyword(Keyword::Namespace)?;
        let lang = self.expect_ident()?;
        let module = self.expect_ident()?;
        Ok(Namespace { lang: lang, module: module })
    }

    pub fn parse_include(&mut self) -> (r: Result<Include, Error>)
        requires
            old(self)@.parse_include_spec() is Some,
        ensures
            came_out(r, old(self)@.parse_include_spec()->Some_0.0),
            final(self)@ == old(self)@.parse_include_spec()->Some_0.1,
    {
        self.expect_keyword(Keyword::Include)?;
        Ok(Include { path: self.expect_string()? })
    }

    pub fn parse_typedef(&mut self) -> (r: Result<Typedef, Error>)
        requires
            old(self)@.parse_typedef_spec() is Some,
        ensures
            came_out(r, old(self)@.parse_typedef_spec()->Some_0.0),
            final(self)@ == old(self)@.parse_typedef_spec()->Some_0.1,
    {
        self.expect_keyword(Keyword::Typedef)?;
        let ty = self.parse_ty()?;
        let name = self.expect_ident()?;
        Ok(Typedef(ty, name))
    }

    pub fn parse_ty(&mut self) -> (r: Result<Ty, Error>)
        requires
            old(self)@.parse_ty_spec() is Some,
        ensures
            came_out(r, old(self)@.parse_ty_spec()->Some_0.0),
            final(self)@ == old(self)@.parse_ty_spec()->Some_0.1,
            final(self)@.left() <= old(self)@.left(),
            r is Ok ==> final(self)@.left() < old(self)@.left(),
        decreases old(self)@.left(),
    {
        proof {
            use_type_invariant(&*self);
        }
        let ident = self.parse_ident()?;
        proof {
            use_type_invariant(&*self);
        }
        // map, set, list
        if self.eat(&Token::LAngle) {
            proof {
                use_type_invariant(&*self);
            }
            let ty = if str_eq(ident.as_str(), "map") {
                let a = self.parse_ty()?;
                self.expect(&Token::Comma)?;
                proof {
                    use_type_invariant(&*self);
                }
                let b = self.parse_ty()?;
                Ty::TMap(Box::new(a), Box::new(b))
            } else if str_eq(ident.as_str(), "set") {
                Ty::TSet(Box::new(self.parse_ty()?))
            } else if str_eq(ident.as_str(), "list") {
                Ty::List(Box::new(self.parse_ty()?))
            } else {
                vstd::pervasive::unreached()
            };
            self.expect(&Token::RAngle)?;
            Ok(ty)
        } else {
            Ok(Ty::from(ident))
        }
    }

    pub fn parse_struct_field(&mut self) -> (r: Result<StructField, Error>)
        requires
            old(self)@.parse_struct_field_spec() is Some,
        ensures
            came_out(r, old(self)@.parse_struct_field_spec()->Some_0.0),
            final(self)@ == old(self)@.parse_struct_field_spec()->Some_0.1,
            final(self)@.left() <= old(self)@.left(),
            r is Ok ==> final(self)@.left() < old(self)@.left(),
    {
        let seq = self.parse_number()?;
        self.expect(&Token::Colon)?;
        let attr = if self.eat_keyword(Keyword::Optional) {
            FieldAttribute::Optional
        } else if self.eat_keyword(Keyword::Required) {
            FieldAttribute::Required
        } else {
            return Err(Error::MissingFieldAttribute);
        };
        let ty = self.parse_ty()?;
        let ident = self.parse_ident()?;
        Ok(StructField { seq: seq, attr: attr, ty: ty, ident: ident })
    }

    /// Reads the fields of a struct, up to the end of the struct.
    #[verifier::rlimit(60)]
    fn struct_fields(&mut self) -> (r: Result<Vec<StructField>, Error>)
        requires
            old(self)@.struct_fields_spec(Seq::empty()) is Some,
        ensures
            match old(self)@.struct_fields_spec(Seq::empty())->Some_0.0 {
                Ok(fields) => r is Ok && field_views(r->Ok_0@) == fields,
                Err(e) => r is Err && r->Err_0@ == e,
            },
            final(self)@ == old(self)@.struct_fields_spec(Seq::empty())->Some_0.1,
    {
        let ghost goal = self@.struct_fields_spec(Seq::empty());
        let mut fields: Vec<StructField> = Vec::new();
        let mut done = false;
        assert(field_views(fields@) =~= Seq::empty());
        while !done
            invariant
                goal is Some,
                goal == old(self)@.struct_fields_spec(Seq::empty()),
                !done ==> self@.struct_fields_spec(field_views(fields@)) == goal,
                done ==> goal == Some(
                    (Ok::<Seq<StructFieldView>, ErrorView>(field_views(fields@)), self@),
                ),
            decreases
                    (if done {
                        0
                    } else {
                        self@.left() + 1
                    }),
        {
            let ghost had = field_views(fields@);
            proof {
                use_type_invariant(&*self);
            }
            if self.eat(&Token::RCurly) {
                done = true;
            } else {
                let field = self.parse_struct_field()?;
                fields.push(field);
                assert(field_views(fields@) =~= had.push(field@));
                if !self.eat(&Token::Semi) {
                    done = true;
                } else {
                    proof {
                        use_type_invariant(&*self);
                    }
                }
            }
        }
        Ok(fields)
    }

    pub fn parse_struct(&mut self) -> (r: Result<Struct, Error>)
        requires
            old(self)@.parse_struct_spec() is Some,
        ensures
            came_out(r, old(self)@.parse_struct_spec()->Some_0.0),
            final(self)@ == old(self)@.parse_struct_spec()->Some_0.1,
    {
        self.expect_keyword(Keyword::Struct)?;
        let ident = self.expect_ident()?;
        self.expect(&Token::LCurly)?;
        let fields = self.struct_fields()?;
        Ok(Struct { ident: ident, fields: fields })
    }

    /// Reads the variants of an enum, up to the end of the enum.
    #[verifier::rlimit(60)]
    fn enum_variants(&mut self) -> (r: Result<Vec<String>, Error>)
        requires
            old(self)@.enum_variants_spec(Seq::empty()) is Some,
        ensures
            match old(self)@.enum_variants_spec(Seq::empty())->Some_0.0 {
                Ok(variants) => r is Ok && texts(r->Ok_0@) == variants,
                Err(e) => r is Err && r->Err_0@ == e,
            },
            final(self)@ == old(self)@.enum_variants_spec(Seq::empty())->Some_0.1,
    {
        let ghost goal = self@.enum_variants_spec(Seq::empty());
        let mut variants: Vec<String> = Vec::new();
        let mut done = false;
        assert(texts(variants@) =~= Seq::empty());
        while !done
            invariant
                goal is Some,
                goal == old(self)@.enum_variants_spec(Seq::empty()),
                !done ==> self@.enum_variants_spec(texts(variants@)) == goal,
                done ==> goal == Some((Ok::<Seq<Seq<char>>, ErrorView>(texts(variants@)), self@)),
            decreases
                    (if done {
                        0
                    } else {
                        self@.left() + 1
                    }),
        {
            let ghost had = texts(variants@);
            proof {
                use_type_invariant(&*self);
            }
            if self.eat(&Token::RCurly) {
                done = true;
            } else {
                let variant = self.parse_ident()?;
                variants.push(variant);
                assert(texts(variants@) =~= had.push(variant@));
                if !self.eat(&Token::Comma) {
                    self.eat(&Token::RCurly);
                    done = true;
                } else {
                    proof {
                        use_type_invariant(&*self);
                    }
                }
            }
        }
        Ok(variants)
    }

    pub fn parse_enum(&mut self) -> (r: Result<Enum, Error>)
        requires
            old(self)@.parse_enum_spec() is Some,
        ensures
            came_out(r, old(self)@.parse_enum_spec()->Some_0.0),
            final(self)@ == old(self)@.parse_enum_spec()->Some_0.1,
    {
        self.expect_keyword(Keyword::Enum)?;
        let ident = self.expect_ident()?;
        self.expect(&Token::LCurly)?;
        let variants = self.enum_variants()?;
        Ok(Enum { ident: ident, variants: variants })
    }

    /// Reads one argument of a method: its number, `:`, its type and its
    /// name.
    fn parse_arg(&mut self) -> (r: Result<StructField, Error>)
        requires
            old(self)@.parse_arg_spec() is Some,
        ensures
            came_out(r, old(self)@.parse_arg_spec()->Some_0.0),
            final(self)@ == old(self)@.parse_arg_spec()->Some_0.1,
            final(self)@.left() <= old(self)@.left(),
            r is Ok ==> final(self)@.left() < old(self)@.left(),
    {
        let seq = self.parse_number()?;
        self.expect(&Token::Colon)?;
        let field_ty = self.parse_ty()?;
        let field_ident = self.parse_ident()?;
        Ok(
            StructField {
                seq: seq,
                attr: FieldAttribute::Required,
                ty: field_ty,
                ident: field_ident,
            },
        )
    }

    /// Reads the arguments of a method, up to the `)` behind them.
    #[verifier::rlimit(60)]
    fn method_args(&mut self) -> (r: Result<Vec<StructField>, Error>)
        requires
            old(self)@.method_args_spec(Seq::empty()) is Some,
        ensures
            match old(self)@.method_args_spec(Seq::empty())->Some_0.0 {
                Ok(args) => r is Ok && field_views(r->Ok_0@) == args,
                Err(e) => r is Err && r->Err_0@ == e,
            },
            final(self)@ == old(self)@.method_args_spec(Seq::empty())->Some_0.1,
            final(self)@.left() <= old(self)@.left(),
    {
        let ghost goal = self@.method_args_spec(Seq::empty());
        let mut method_fields: Vec<StructField> = Vec::new();
        let mut done = false;
        assert(field_views(method_fields@) =~= Seq::empty());
        while !done
            invariant
                goal is Some,
                goal == old(self)@.method_args_spec(Seq::empty()),
                self@.left() <= old(self)@.left(),
                !done ==> self@.method_args_spec(field_views(method_fields@)) == goal,
                done ==> goal == Some(
                    (Ok::<Seq<StructFieldView>, ErrorView>(field_views(method_fields@)), self@),
                ),
            decreases
                    (if done {
                        0
                    } else {
                        self@.left() + 1
                    }),
        {
            let ghost had = field_views(method_fields@);
            proof {
                use_type_invariant(&*self);
            }
            if self.eat(&Token::RParen) {
                done = true;
            } else {
                let field = self.parse_arg()?;
                method_fields.push(field);
                assert(field_views(method_fields@) =~= had.push(field@));
                if self.eat(&Token::Comma) {
                    proof {
                        use_type_invariant(&*self);
                    }
                } else if self.eat(&Token::RParen) {
                    done = true;
                } else {
                    vstd::pervasive::unreached()
                }
            }
        }
        Ok(method_fields)
    }

    /// Reads one method of a service.
    fn parse_method(&mut self) -> (r: Result<ServiceMethod, Error>)
        requires
            old(self)@.parse_method_spec() is Some,
        ensures
            came_out(r, old(self)@.parse_method_spec()->Some_0.0),
            final(self)@ == old(self)@.parse_method_spec()->Some_0.1,
            final(self)@.left() <= old(self)@.left(),
            r is Ok ==> final(self)@.left() < old(self)@.left(),
    {
        // Try and eat a keyword
        let method_attr = if self.eat_keyword(Keyword::Oneway) {
            FieldAttribute::Oneway
        } else {
            // This is mostly ignored, we just need some sort of value here.
            FieldAttribute::Required
        };
        let method_ty = self.parse_ty()?;
        let method_ident = self.parse_ident()?;
        self.expect(&Token::LParen)?;
        let method_fields = self.method_args()?;
        Ok(
            ServiceMethod {
                ident: method_ident,
                ty: method_ty,
                attr: method_attr,
                args: method_fields,
            },
        )
    }

    /// Reads what follows a method. Says whether another method is to
    /// come.
    fn method_end(&mut self) -> (more: bool)
        requires
            old(self)@.method_end_spec() is Some,
        ensures
            more == old(self)@.method_end_spec()->Some_0.0,
            final(self)@ == old(self)@.method_end_spec()->Some_0.1,
            final(self)@.left() <= old(self)@.left(),
            more ==> final(self)@.left() < old(self)@.left(),
    {
        if self.eat(&Token::Comma) || self.eat(&Token::Semi) {
            true
        } else {
            self.eat(&Token::RCurly);
            false
        }
    }

    /// Reads the methods of a service, up to the end of the service.
    #[verifier::rlimit(60)]
    fn service_methods(&mut self) -> (r: Result<Vec<ServiceMethod>, Error>)
        requires
            old(self)@.service_methods_spec(Seq::empty()) is Some,
        ensures
            match old(self)@.service_methods_spec(Seq::empty())->Some_0.0 {
                Ok(methods) => r is Ok && method_views(r->Ok_0@) == methods,
                Err(e) => r is Err && r->Err_0@ == e,
            },
            final(self)@ == old(self)@.service_methods_spec(Seq::empty())->Some_0.1,
    {
        let ghost goal = self@.service_methods_spec(Seq::empty());
        let mut methods: Vec<ServiceMethod> = Vec::new();
        let mut done = false;
        assert(method_views(methods@) =~= Seq::empty());
        while !done
            invariant
                goal is Some,
                goal == old(self)@.service_methods_spec(Seq::empty()),
                !done ==> self@.service_methods_spec(method_views(methods@)) == goal,
                done ==> goal == Some(
                    (Ok::<Seq<ServiceMethodView>, ErrorView>(method_views(methods@)), self@),
                ),
            decreases
                    (if done {
                        0
                    } else {
                        self@.left() + 1
                    }),
        {
            let ghost had = method_views(methods@);
            proof {
                use_type_invariant(&*self);
            }
            if self.eat(&Token::RCurly) {
                done = true;
            } else {
                let method = self.parse_method()?;
                methods.push(method);
                assert(method_views(methods@) =~= had.push(method@));
                if self.method_end() {
                    proof {
                        use_type_invariant(&*self);
                    }
                } else {
                    done = true;
                }
            }
        }
        Ok(methods)
    }

    pub fn parse_service(&mut self) -> (r: Result<Service, Error>)
        requires
            old(self)@.parse_service_spec() is Some,
        ensures
            came_out(r, old(self)@.parse_service_spec()->Some_0.0),
            final(self)@ == old(self)@.parse_service_spec()->Some_0.1,
    {
        self.expect_keyword(Keyword::Service)?;
        let ident = self.expect_ident()?;
        self.expect(&Token::LCurly)?;
        let methods = self.service_methods()?;
        Ok(Service { ident: ident, methods: methods })
    }
}

} // verus!
