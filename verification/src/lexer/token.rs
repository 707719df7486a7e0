//! Tokens produced by the lexer.
use vstd::prelude::*;
use vstd::string::StringSliceAdditionalSpecFns;

use crate::lexer::num::ReadNumber;
use crate::lexer::source::Span;

verus! {

#[derive(Debug, Clone, Copy, PartialEq, Eq, Structural)]
pub enum TokenKind {
    Eof,
    Newline,
    // Literals
    Num(ReadNumber),
    String,
    Ident,
    True,
    False,
    LParen,
    RParen,
    LBracket,
    RBracket,
    LAngle,
    RAngle,
    LSquirly,
    RSquirly,
    Dot,
    Comma,
    Colon,
    Semicolon,
    // Keywords
    Let,
    Mut,
    Fn,
    Ret,
    If,
    Then,
    Else,
    End,
    Use,
    Extern,
    Struct,
    Impl,
    Variadic,
    While,
    Do,
    // Operators
    Assign,
    Eq,
    Ne,
    Add,
    Sub,
    Asterisk,
    Slash,
    Arrow,
    And,
    Or,
    Bang,
    Ampersand,
}

use TokenKind as Kind;

impl Kind {
    pub open spec fn spec_is_keyword(self) -> bool {
        matches!(
            self,
            Kind::Let | Kind::Fn | Kind::If | Kind::Then | Kind::Else | Kind::End | Kind::Ret
                | Kind::Use | Kind::Extern | Kind::Struct | Kind::Impl | Kind::True | Kind::False
                | Kind::Variadic | Kind::Mut | Kind::While | Kind::Do
        )
    }

    /// A keyword token.
    pub fn is_keyword(&self) -> (r: bool)
        ensures
            r == self.spec_is_keyword(),
    {
        matches!(
            self,
            Kind::Let | Kind::Fn | Kind::If | Kind::Then | Kind::Else | Kind::End | Kind::Ret
                | Kind::Use | Kind::Extern | Kind::Struct | Kind::Impl | Kind::True | Kind::False
                | Kind::Variadic | Kind::Mut | Kind::While | Kind::Do
        )
    }

    pub open spec fn spec_is_terminator(self) -> bool {
        matches!(
            self,
            Kind::Eof | Kind::End | Kind::Semicolon | Kind::Comma | Kind::RBracket | Kind::RParen
                | Kind::RSquirly | Kind::Then | Kind::Else
        )
    }

    /// a token that is a terminator indicates whether expression parsing should stop or can continue
    pub fn is_terminator(&self) -> (r: bool)
        ensures
            r == self.spec_is_terminator(),
    {
        matches!(
            self,
            Kind::Eof | Kind::End | Kind::Semicolon | Kind::Comma | Kind::RBracket | Kind::RParen
                | Kind::RSquirly | Kind::Then | Kind::Else
        )
    }

    pub open spec fn spec_is_operator(self) -> bool {
        matches!(
            self,
            Kind::Eq | Kind::Ne | Kind::Add | Kind::Sub | Kind::Asterisk | Kind::Slash
                | Kind::Arrow | Kind::RAngle | Kind::LAngle | Kind::And | Kind::Or
                | Kind::Ampersand
        )
    }

    /// A binary operator token.
    pub fn is_operator(&self) -> (r: bool)
        ensures
            r == self.spec_is_operator(),
    {
        matches!(
            self,
            Kind::Eq | Kind::Ne | Kind::Add | Kind::Sub | Kind::Asterisk | Kind::Slash
                | Kind::Arrow | Kind::RAngle | Kind::LAngle | Kind::And | Kind::Or
                | Kind::Ampersand
        )
    }

    /// A prefix operator token.
    pub fn is_unary_op(&self) -> (r: bool)
        ensures
            r == (self == Kind::Bang || self == Kind::Sub),
    {
        matches!(self, Kind::Bang | Kind::Sub)
    }
}

/// The keyword spelled by the bytes `s`, if any.
pub open spec fn keyword(s: Seq<u8>) -> Option<Kind> {
    if s == seq![0x6Cu8, 0x65u8, 0x74u8] {
        // `let`
        Some(Kind::Let)
    } else if s == seq![0x6Du8, 0x75u8, 0x74u8] {
        // `mut`
        Some(Kind::Mut)
    } else if s == seq![0x66u8, 0x75u8, 0x6Eu8, 0x63u8] {
        // `func`
        Some(Kind::Fn)
    } else if s == seq![0x72u8, 0x65u8, 0x74u8, 0x75u8, 0x72u8, 0x6Eu8] {
        // `return`
        Some(Kind::Ret)
    } else if s == seq![0x69u8, 0x66u8] {
        // `if`
        Some(Kind::If)
    } else if s == seq![0x65u8, 0x6Cu8, 0x73u8, 0x65u8] {
        // `else`
        Some(Kind::Else)
    } else if s == seq![0x74u8, 0x68u8, 0x65u8, 0x6Eu8] {
        // `then`
        Some(Kind::Then)
    } else if s == seq![0x65u8, 0x6Eu8, 0x64u8] {
        // `end`
        Some(Kind::End)
    } else if s == seq![0x75u8, 0x73u8, 0x65u8] {
        // `use`
        Some(Kind::Use)
    } else if s == seq![0x61u8, 0x6Eu8, 0x64u8] {
        // `and`
        Some(Kind::And)
    } else if s == seq![0x6Fu8, 0x72u8] {
        // `or`
        Some(Kind::Or)
    } else if s == seq![0x65u8, 0x78u8, 0x74u8, 0x65u8, 0x72u8, 0x6Eu8] {
        // `extern`
        Some(Kind::Extern)
    } else if s == seq![0x73u8, 0x74u8, 0x72u8, 0x75u8, 0x63u8, 0x74u8] {
        // `struct`
        Some(Kind::Struct)
    } else if s == seq![0x69u8, 0x6Du8, 0x70u8, 0x6Cu8] {
        // `impl`
        Some(Kind::Impl)
    } else if s == seq![0x74u8, 0x72u8, 0x75u8, 0x65u8] {
        // `true`
        Some(Kind::True)
    } else if s == seq![0x66u8, 0x61u8, 0x6Cu8, 0x73u8, 0x65u8] {
        // `false`
        Some(Kind::False)
    } else if s == seq![0x76u8, 0x61u8, 0x72u8, 0x69u8, 0x61u8, 0x64u8, 0x69u8, 0x63u8] {
        // `variadic`
        Some(Kind::Variadic)
    } else if s == seq![0x77u8, 0x68u8, 0x69u8, 0x6Cu8, 0x65u8] {
        // `while`
        Some(Kind::While)
    } else if s == seq![0x64u8, 0x6Fu8] {
        // `do`
        Some(Kind::Do)
    } else {
        None
    }
}

/// Byte-wise equality of two byte strings.
pub fn bytes_eq(a: &[u8], b: &[u8]) -> (r: bool)
    ensures
        r == (a@ == b@),
{
    if a.len() != b.len() {
        return false;
    }
    let mut i: usize = 0;
    while i < a.len()
        invariant
            a@.len() == b@.len(),
            i <= a@.len(),
            forall|j: int| 0 <= j < i ==> a@[j] == b@[j],
        decreases a@.len() - i,
    {
        if a[i] != b[i] {
            return false;
        }
        i += 1;
    }
    assert(a@ =~= b@);
    true
}

/// The keyword spelled by `text`, if it is one.
pub fn lookup_keyword(text: &str) -> (r: Option<Kind>)
    ensures
        r == keyword(text.spec_bytes()),
{
    let b = text.as_bytes();
    if bytes_eq(b, &[0x6Cu8, 0x65u8, 0x74u8]) {
        // `let`
        return Some(Kind::Let);
    }
    if bytes_eq(b, &[0x6Du8, 0x75u8, 0x74u8]) {
        // `mut`
        return Some(Kind::Mut);
    }
    if bytes_eq(b, &[0x66u8, 0x75u8, 0x6Eu8, 0x63u8]) {
        // `func`
        return Some(Kind::Fn);
    }
    if bytes_eq(b, &[0x72u8, 0x65u8, 0x74u8, 0x75u8, 0x72u8, 0x6Eu8]) {
        // `return`
        return Some(Kind::Ret);
    }
    if bytes_eq(b, &[0x69u8, 0x66u8]) {
        // `if`
        return Some(Kind::If);
    }
    if bytes_eq(b, &[0x65u8, 0x6Cu8, 0x73u8, 0x65u8]) {
        // `else`
        return Some(Kind::Else);
    }
    if bytes_eq(b, &[0x74u8, 0x68u8, 0x65u8, 0x6Eu8]) {
        // `then`
        return Some(Kind::Then);
    }
    if bytes_eq(b, &[0x65u8, 0x6Eu8, 0x64u8]) {
        // `end`
        return Some(Kind::End);
    }
    if bytes_eq(b, &[0x75u8, 0x73u8, 0x65u8]) {
        // `use`
        return Some(Kind::Use);
    }
    if bytes_eq(b, &[0x61u8, 0x6Eu8, 0x64u8]) {
        // `and`
        return Some(Kind::And);
    }
    if bytes_eq(b, &[0x6Fu8, 0x72u8]) {
        // `or`
        return Some(Kind::Or);
    }
    if bytes_eq(b, &[0x65u8, 0x78u8, 0x74u8, 0x65u8, 0x72u8, 0x6Eu8]) {
        // `extern`
        return Some(Kind::Extern);
    }
    if bytes_eq(b, &[0x73u8, 0x74u8, 0x72u8, 0x75u8, 0x63u8, 0x74u8]) {
        // `struct`
        return Some(Kind::Struct);
    }
    if bytes_eq(b, &[0x69u8, 0x6Du8, 0x70u8, 0x6Cu8]) {
        // `impl`
        return Some(Kind::Impl);
    }
    if bytes_eq(b, &[0x74u8, 0x72u8, 0x75u8, 0x65u8]) {
        // `true`
        return Some(Kind::True);
    }
    if bytes_eq(b, &[0x66u8, 0x61u8, 0x6Cu8, 0x73u8, 0x65u8]) {
        // `false`
        return Some(Kind::False);
    }
    if bytes_eq(b, &[0x76u8, 0x61u8, 0x72u8, 0x69u8, 0x61u8, 0x64u8, 0x69u8, 0x63u8]) {
        // `variadic`
        return Some(Kind::Variadic);
    }
    if bytes_eq(b, &[0x77u8, 0x68u8, 0x69u8, 0x6Cu8, 0x65u8]) {
        // `while`
        return Some(Kind::While);
    }
    if bytes_eq(b, &[0x64u8, 0x6Fu8]) {
        // `do`
        return Some(Kind::Do);
    }
    None
}

/// A token with its text and where it stands in the source.
#[derive(Debug, Clone, PartialEq, Eq)]
pub struct Token {
    pub kind: Kind,
    pub text: String,
    pub span: Span,
}

/// A token that owns its text.
#[derive(Debug, Clone)]
pub struct OwnedToken {
    pub kind: Kind,
    pub text: String,
    pub span: Span,
}

impl Token {
    /// A token of `kind` with `text`, starting at byte `start_pos` and spanning the bytes of `text`.
    pub fn new(kind: Kind, text: String, start_pos: usize) -> (r: Self)
        ensures
            r.kind == kind,
            r.text@ == text@,
            r.span == (Span { offset: start_pos, length: vstd::utf8::encode_utf8(text@).len() as usize }),
    {
        let length = text.as_str().len();
        Self { span: Span { offset: start_pos, length }, kind, text }
    }

    /// A token equal to this one.
    pub fn duplicate(&self) -> (r: Token)
        ensures
            r.kind == self.kind,
            r.text@ == self.text@,
            r.span == self.span,
    {
        Token { kind: self.kind, text: self.text.clone(), span: self.span }
    }

    pub fn to_owned(&self) -> (r: OwnedToken)
        ensures
            r.kind == self.kind,
            r.text@ == self.text@,
            r.span == self.span,
    {
        OwnedToken { kind: self.kind, text: self.text.clone(), span: self.span }
    }

    pub fn kind(&self) -> (r: &Kind)
        ensures
            *r == self.kind,
    {
        &self.kind
    }

    pub fn span(&self) -> (r: Span)
        ensures
            r == self.span,
    {
        self.span
    }
}

} // verus!
