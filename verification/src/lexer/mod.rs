//! The lexer: turns source text into tokens, one call at a time.
use vstd::prelude::*;
use vstd::string::StringSliceAdditionalSpecFns;
use vstd::utf8::*;

use crate::lexer::memchr::{FindByte, first_match, in_needles, not_in_needles};
use crate::lexer::num::{ReadNumber, ReadNumberError, is_digit, read_number};
use crate::lexer::source::{SourceInfo, Span};
use crate::lexer::token::keyword;
use crate::lexer::unescape::{EscapeError, lemma_unescape_shorter, unescape, unescape_literal};
use crate::text::{
    lemma_ascii_boundaries, lemma_end_boundary, lemma_str_valid, lemma_valid_slice, str_slice,
};

pub mod memchr;
pub mod num;
pub mod reserved;
pub mod source;
pub mod token;
pub mod unescape;

pub use crate::lexer::token::{Token, TokenKind};

verus! {

pub const TAB: u8 = 0x09u8;
pub const NEWLINE: u8 = 0x0Au8;
pub const FORM_FEED: u8 = 0x0Cu8;
pub const CARRIAGE_RETURN: u8 = 0x0Du8;
pub const SPACE: u8 = 0x20u8;
pub const BANG: u8 = 0x21u8;
pub const QUOTE: u8 = 0x22u8;
pub const AMPERSAND: u8 = 0x26u8;
pub const L_PAREN: u8 = 0x28u8;
pub const R_PAREN: u8 = 0x29u8;
pub const ASTERISK: u8 = 0x2Au8;
pub const PLUS: u8 = 0x2Bu8;
pub const COMMA: u8 = 0x2Cu8;
pub const MINUS: u8 = 0x2Du8;
pub const DOT: u8 = 0x2Eu8;
pub const SLASH: u8 = 0x2Fu8;
pub const COLON: u8 = 0x3Au8;
pub const SEMICOLON: u8 = 0x3Bu8;
pub const L_ANGLE: u8 = 0x3Cu8;
pub const EQUALS: u8 = 0x3Du8;
pub const R_ANGLE: u8 = 0x3Eu8;
pub const L_BRACKET: u8 = 0x5Bu8;
pub const R_BRACKET: u8 = 0x5Du8;
pub const UNDERSCORE: u8 = 0x5Fu8;
pub const L_SQUIRLY: u8 = 0x7Bu8;
pub const R_SQUIRLY: u8 = 0x7Du8;

#[derive(Debug)]
pub enum LexerError {
    /// illegal character
    Illegal { src: SourceInfo, span: Span, ch: char },
    /// unterminated string literal
    UnterminatedString { src: SourceInfo, span: Span },
    EscapeLiteral(EscapeError),
    ReadNumber(ReadNumberError),
}

pub type Result<T> = core::result::Result<T, LexerError>;

const ASCII_WHITESPACE_BYTES: [u8; 4] = [TAB, FORM_FEED, CARRIAGE_RETURN, SPACE];

/// ASCII whitespace other than the newline.
pub open spec fn is_blank(b: u8) -> bool {
    b == TAB || b == FORM_FEED || b == CARRIAGE_RETURN || b == SPACE
}

pub open spec fn is_alpha(b: u8) -> bool {
    (0x41u8 <= b <= 0x5Au8) || (0x61u8 <= b <= 0x7Au8)
}

pub open spec fn is_ident_start(b: u8) -> bool {
    is_alpha(b) || b == UNDERSCORE
}

pub open spec fn is_ident_byte(b: u8) -> bool {
    is_alpha(b) || is_digit(b) || b == UNDERSCORE
}

/// check if byte is ascii whitespace EXCLUDING the newline character
fn is_ascii_whitespace(byte: &u8) -> (r: bool)
    ensures
        r == is_blank(*byte),
{
    let b = *byte;
    b == TAB || b == FORM_FEED || b == CARRIAGE_RETURN || b == SPACE
}

/// The first index at or after `i` whose byte satisfies `pred`, or the length of `c`.
pub open spec fn first_from(c: Seq<u8>, i: int, pred: spec_fn(u8) -> bool) -> int
    decreases c.len() - i,
{
    if i < 0 || i >= c.len() {
        c.len() as int
    } else if pred(c[i]) {
        i
    } else {
        first_from(c, i + 1, pred)
    }
}

pub proof fn lemma_first_from(c: Seq<u8>, i: int, pred: spec_fn(u8) -> bool)
    requires
        0 <= i <= c.len(),
    ensures
        i <= first_from(c, i, pred) <= c.len(),
        first_from(c, i, pred) < c.len() ==> pred(c[first_from(c, i, pred)]),
        forall|j: int| i <= j < first_from(c, i, pred) ==> !pred(#[trigger] c[j]),
    decreases c.len() - i,
{
    if i < c.len() && !pred(c[i]) {
        lemma_first_from(c, i + 1, pred);
    }
}

pub open spec fn blank_pred() -> spec_fn(u8) -> bool {
    |b: u8| !is_blank(b)
}

pub open spec fn newline_pred() -> spec_fn(u8) -> bool {
    |b: u8| b == NEWLINE
}

pub open spec fn quote_pred() -> spec_fn(u8) -> bool {
    |b: u8| b == QUOTE
}

/// A byte that can stand in the text of a number: a letter, a digit, `_` or `.`.
pub open spec fn is_number_byte(b: u8) -> bool {
    is_ident_byte(b) || b == DOT
}

pub open spec fn number_end_pred() -> spec_fn(u8) -> bool {
    |b: u8| !is_number_byte(b)
}

pub open spec fn ident_end_pred() -> spec_fn(u8) -> bool {
    |b: u8| !is_ident_byte(b)
}

/// `c[p]` and `c[p + 1]` open a `--` comment.
pub open spec fn opens_comment(c: Seq<u8>, p: int) -> bool {
    0 <= p && p + 1 < c.len() && c[p] == MINUS && c[p + 1] == MINUS
}

/// Where reading resumes after the comment opened at `p`: its terminating newline, or the
/// end of the input when no newline follows.
pub open spec fn comment_resume(c: Seq<u8>, p: int) -> int {
    first_from(c, p, newline_pred())
}

/// What one call of [`Lexer::read_token`] finds, in terms of byte positions of the input.
pub enum Lexeme {
    /// a token whose text is the input from `start` to `end`
    Plain { kind: TokenKind, start: int, end: int },
    /// a string literal opened at `start` and closed by the quote at `close`
    Str { start: int, close: int },
    /// the end of the input at `at`
    End { at: int },
    /// a byte that starts no token
    Illegal { at: int },
    /// a string literal opened at `start` and still open at the end of the input
    Unterminated { start: int },
    /// a number starting at `at` that could not be read
    BadNumber { at: int, err: ReadNumberError },
}

/// The single-byte token that `b` stands for on its own.
pub open spec fn single_byte_kind(b: u8) -> Option<TokenKind> {
    if b == PLUS {
        Some(TokenKind::Add)
    } else if b == ASTERISK {
        Some(TokenKind::Asterisk)
    } else if b == SLASH {
        Some(TokenKind::Slash)
    } else if b == AMPERSAND {
        Some(TokenKind::Ampersand)
    } else if b == L_PAREN {
        Some(TokenKind::LParen)
    } else if b == R_PAREN {
        Some(TokenKind::RParen)
    } else if b == L_BRACKET {
        Some(TokenKind::LBracket)
    } else if b == R_BRACKET {
        Some(TokenKind::RBracket)
    } else if b == L_SQUIRLY {
        Some(TokenKind::LSquirly)
    } else if b == R_SQUIRLY {
        Some(TokenKind::RSquirly)
    } else if b == L_ANGLE {
        Some(TokenKind::LAngle)
    } else if b == R_ANGLE {
        Some(TokenKind::RAngle)
    } else if b == COLON {
        Some(TokenKind::Colon)
    } else if b == SEMICOLON {
        Some(TokenKind::Semicolon)
    } else if b == DOT {
        Some(TokenKind::Dot)
    } else if b == COMMA {
        Some(TokenKind::Comma)
    } else if b == NEWLINE {
        Some(TokenKind::Newline)
    } else {
        None
    }
}

/// `c[p + 1]` exists and is `b`.
pub open spec fn next_is(c: Seq<u8>, p: int, b: u8) -> bool {
    p + 1 < c.len() && c[p + 1] == b
}

/// The lexeme found by reading from position `p` of `c` (before the end-of-input flag is set).
pub open spec fn lex(c: Seq<u8>, p: int) -> Lexeme
    decreases c.len() - p,
{
    if p < 0 || p >= c.len() {
        Lexeme::End { at: p }
    } else {
        let b = c[p];
        if b == QUOTE {
            let close = first_from(c, p + 1, quote_pred());
            if close >= c.len() {
                Lexeme::Unterminated { start: p }
            } else {
                Lexeme::Str { start: p, close }
            }
        } else if b == EQUALS {
            if next_is(c, p, EQUALS) {
                Lexeme::Plain { kind: TokenKind::Eq, start: p, end: p + 2 }
            } else {
                Lexeme::Plain { kind: TokenKind::Assign, start: p, end: p + 1 }
            }
        } else if b == MINUS {
            if next_is(c, p, R_ANGLE) {
                Lexeme::Plain { kind: TokenKind::Arrow, start: p, end: p + 2 }
            } else if next_is(c, p, MINUS) {
                proof {
                    lemma_first_from(c, p, newline_pred());
                }
                lex(c, comment_resume(c, p))
            } else {
                Lexeme::Plain { kind: TokenKind::Sub, start: p, end: p + 1 }
            }
        } else if b == BANG {
            if next_is(c, p, EQUALS) {
                Lexeme::Plain { kind: TokenKind::Ne, start: p, end: p + 2 }
            } else {
                Lexeme::Plain { kind: TokenKind::Bang, start: p, end: p + 1 }
            }
        } else if single_byte_kind(b) is Some {
            Lexeme::Plain { kind: single_byte_kind(b)->0, start: p, end: p + 1 }
        } else if is_digit(b) {
            let end = first_from(c, p, number_end_pred());
            match read_number(c.subrange(p, end)) {
                Ok(n) => Lexeme::Plain { kind: TokenKind::Num(n), start: p, end },
                Err(err) => Lexeme::BadNumber { at: p, err },
            }
        } else if is_ident_start(b) {
            let end = first_from(c, p, ident_end_pred());
            let kind = match keyword(c.subrange(p, end)) {
                Some(k) => k,
                None => TokenKind::Ident,
            };
            Lexeme::Plain { kind, start: p, end }
        } else if is_blank(b) {
            proof {
                lemma_first_from(c, p, blank_pred());
            }
            let q = first_from(c, p, blank_pred());
            if q > p {
                lex(c, q)
            } else {
                Lexeme::Illegal { at: p }
            }
        } else {
            Lexeme::Illegal { at: p }
        }
    }
}

/// The position the lexer stands at after finding `l`.
pub open spec fn resume_at(c: Seq<u8>, l: Lexeme) -> int {
    match l {
        Lexeme::Plain { end, .. } => end,
        Lexeme::Str { close, .. } => close + 1,
        Lexeme::End { at } => at,
        Lexeme::Illegal { at } => at,
        Lexeme::Unterminated { .. } => c.len() as int,
        Lexeme::BadNumber { at, .. } => at,
    }
}

/// The text of a string literal opened at `start` and closed at `close`, escapes resolved.
pub open spec fn string_body(c: Seq<u8>, start: int, close: int) -> core::result::Result<Seq<char>, EscapeError> {
    unescape(decode_utf8(c.subrange(start + 1, close)))
}

/// `res` is what [`Lexer::read_token`] hands back for the lexeme `l` of the input `c` named by `src`.
pub open spec fn yields(
    res: Result<Token>,
    l: Lexeme,
    c: Seq<u8>,
    src: (Seq<char>, Seq<char>),
) -> bool {
    match l {
        Lexeme::Plain { kind, start, end } => res matches Ok(t) && t.kind == kind && encode_utf8(
            t.text@,
        ) == c.subrange(start, end) && t.span == (Span {
            offset: start as usize,
            length: (end - start) as usize,
        }),
        Lexeme::Str { start, close } => match string_body(c, start, close) {
            Ok(text) => res matches Ok(t) && t.kind == TokenKind::String && t.text@ == text
                && t.span == (Span {
                offset: start as usize,
                length: encode_utf8(text).len() as usize,
            }),
            Err(e) => res matches Err(LexerError::EscapeLiteral(e2)) && e2 == e,
        },
        Lexeme::End { at } => res matches Ok(t) && t.kind == TokenKind::Eof && t.text@.len() == 0
            && t.span == (Span { offset: at as usize, length: 0 }),
        Lexeme::Illegal { at } => res matches Err(LexerError::Illegal { src: s, span, ch }) && s@
            == src && span == (Span { offset: at as usize, length: 1 }) && ch == (c[at] as char),
        Lexeme::Unterminated { start } => res matches Err(
            LexerError::UnterminatedString { src: s, span },
        ) && s@ == src && span == (Span {
            offset: start as usize,
            length: (c.len() - start) as usize,
        }),
        Lexeme::BadNumber { err, .. } => res matches Err(LexerError::ReadNumber(e)) && e == err,
    }
}

/// Whether reading the lexeme `l` of the input `c` fails.
pub open spec fn fails(l: Lexeme, c: Seq<u8>) -> bool {
    match l {
        Lexeme::Str { start, close } => string_body(c, start, close) is Err,
        Lexeme::Illegal { .. } | Lexeme::Unterminated { .. } | Lexeme::BadNumber { .. } => true,
        _ => false,
    }
}

/// The lexemes read one after another from `p`, up to and including the end of the input or
/// the first that fails.
pub open spec fn lexemes_from(c: Seq<u8>, p: int) -> Seq<Lexeme>
    decreases c.len() - p,
{
    let l = lex(c, p);
    if l is End || fails(l, c) || !(0 <= p <= c.len() && c.len() <= usize::MAX) {
        seq![l]
    } else {
        proof {
            lemma_lex_bounds(c, p);
        }
        seq![l] + lexemes_from(c, resume_at(c, l))
    }
}

#[derive(Debug)]
pub struct Lexer<'src> {
    source: SourceInfo,
    content: &'src str,
    pos: usize,
    eof: bool,
}

impl<'src> Lexer<'src> {
    /// The bytes of the input.
    pub closed spec fn bytes(&self) -> Seq<u8> {
        self.content.spec_bytes()
    }

    /// The name and text of the input.
    pub closed spec fn source_view(&self) -> (Seq<char>, Seq<char>) {
        self.source@
    }

    pub closed spec fn position(&self) -> int {
        self.pos as int
    }

    /// Whether the end of the input has been handed out.
    pub closed spec fn at_eof(&self) -> bool {
        self.eof
    }

    pub closed spec fn content_view(&self) -> Seq<char> {
        self.content@
    }

    pub closed spec fn wf(&self) -> bool {
        &&& self.pos <= self.content.spec_bytes().len()
        &&& self.content.spec_bytes().len() <= usize::MAX
        &&& self.source@.1 == self.content@
    }

    pub fn new(file_path: String, content: &'src str) -> (r: Self)
        ensures
            r.wf(),
            r.content_view() == content@,
            r.bytes() == content.spec_bytes(),
            r.source_view() == (file_path@, content@),
            r.position() == 0,
            !r.at_eof(),
    {
        let bytes = content.as_bytes();
        let _len = bytes.len();
        let source = SourceInfo::new(file_path, content.to_owned());
        Self { source, content, pos: 0, eof: false }
    }

    pub fn pos(&self) -> (r: usize)
        ensures
            r == self.position(),
    {
        self.pos
    }

    /// Go back to the start of the input.
    pub fn reset(&mut self)
        requires
            old(self).wf(),
        ensures
            final(self).wf(),
            final(self).position() == 0,
            !final(self).at_eof(),
            final(self).bytes() == old(self).bytes(),
            final(self).content_view() == old(self).content_view(),
            final(self).source_view() == old(self).source_view(),
    {
        self.pos = 0;
        self.eof = false;
    }

    pub fn source(&self) -> (r: SourceInfo)
        ensures
            r@ == self.source_view(),
    {
        self.source.share()
    }

    fn curr(&self) -> (r: Option<u8>)
        requires
            self.wf(),
        ensures
            r == (if self.pos < self.bytes().len() {
                Some(self.bytes()[self.pos as int])
            } else {
                None::<u8>
            }),
    {
        let bytes = self.content.as_bytes();
        if self.pos < bytes.len() {
            Some(bytes[self.pos])
        } else {
            None
        }
    }

    fn peek(&self) -> (r: Option<u8>)
        requires
            self.wf(),
        ensures
            r == (if self.pos + 1 < self.bytes().len() {
                Some(self.bytes()[self.pos + 1])
            } else {
                None::<u8>
            }),
    {
        let bytes = self.content.as_bytes();
        if self.pos < bytes.len() && self.pos + 1 < bytes.len() {
            Some(bytes[self.pos + 1])
        } else {
            None
        }
    }

    /// Moves to the end of the input.
    fn jump_to_eof(&mut self)
        requires
            old(self).wf(),
        ensures
            final(self).wf(),
            final(self).pos == old(self).bytes().len(),
            final(self).eof == old(self).eof,
            final(self).content == old(self).content,
            final(self).source == old(self).source,
    {
        self.pos = self.content.as_bytes().len();
    }

    fn remaining(&self) -> (r: &'src str)
        requires
            self.wf(),
            is_char_boundary(self.bytes(), self.pos as int),
        ensures
            r.spec_bytes() == self.bytes().subrange(self.pos as int, self.bytes().len() as int),
    {
        proof {
            lemma_str_valid(self.content);
            lemma_end_boundary(self.content.spec_bytes());
        }
        str_slice(self.content, self.pos, self.content.as_bytes().len())
    }

    fn remaining_bytes(&self) -> (r: &'src [u8])
        requires
            self.wf(),
        ensures
            r@ == self.bytes().subrange(self.pos as int, self.bytes().len() as int),
    {
        let bytes = self.content.as_bytes();
        vstd::slice::slice_subrange(bytes, self.pos, bytes.len())
    }

    fn advance(&mut self) -> (r: Option<u8>)
        requires
            old(self).wf(),
            old(self).pos < old(self).bytes().len(),
        ensures
            final(self).wf(),
            final(self).pos == old(self).pos + 1,
            final(self).eof == old(self).eof,
            final(self).content == old(self).content,
            final(self).source == old(self).source,
            r == (if final(self).pos < final(self).bytes().len() {
                Some(final(self).bytes()[final(self).pos as int])
            } else {
                None::<u8>
            }),
    {
        self.pos += 1;
        self.curr()
    }

    fn advance_n(&mut self, n: usize)
        requires
            old(self).wf(),
            old(self).pos + n <= old(self).bytes().len(),
        ensures
            final(self).wf(),
            final(self).pos == old(self).pos + n,
            final(self).eof == old(self).eof,
            final(self).content == old(self).content,
            final(self).source == old(self).source,
    {
        self.pos += n;
    }

    fn skip_whitespace(&mut self)
        requires
            old(self).wf(),
            old(self).pos < old(self).bytes().len(),
        ensures
            final(self).wf(),
            final(self).eof == old(self).eof,
            final(self).content == old(self).content,
            final(self).source == old(self).source,
            final(self).pos == first_from(old(self).bytes(), old(self).pos as int, blank_pred()),
    {
        let ghost c = self.bytes();
        let ghost p = self.pos as int;
        proof {
            lemma_first_from(c, p, blank_pred());
        }
        let remaining = self.remaining_bytes();
        let found = remaining.find_byte_not_in(ASCII_WHITESPACE_BYTES);
        proof {
            assert(ASCII_WHITESPACE_BYTES@ =~= seq![TAB, FORM_FEED, CARRIAGE_RETURN, SPACE]);
            assert forall|b: u8| #[trigger] is_blank(b) <==> ASCII_WHITESPACE_BYTES@.contains(b) by {
                assert(seq![TAB, FORM_FEED, CARRIAGE_RETURN, SPACE].contains(b) <==> is_blank(b))
                    by {
                    if is_blank(b) {
                        if b == TAB {
                            assert(seq![TAB, FORM_FEED, CARRIAGE_RETURN, SPACE][0] == b);
                        } else if b == FORM_FEED {
                            assert(seq![TAB, FORM_FEED, CARRIAGE_RETURN, SPACE][1] == b);
                        } else if b == CARRIAGE_RETURN {
                            assert(seq![TAB, FORM_FEED, CARRIAGE_RETURN, SPACE][2] == b);
                        } else {
                            assert(seq![TAB, FORM_FEED, CARRIAGE_RETURN, SPACE][3] == b);
                        }
                    }
                }
            }
            assert(not_in_needles(ASCII_WHITESPACE_BYTES@) =~= blank_pred());
        }
        if let Some(offset) = found {
            proof {
                assert(remaining@[offset as int] == c[p + offset]);
                assert forall|j: int| p <= j < p + offset implies !blank_pred()(#[trigger] c[j]) by {
                    assert(remaining@[j - p] == c[j]);
                }
                if first_from(c, p, blank_pred()) < p + offset {
                    let q = first_from(c, p, blank_pred());
                    assert(remaining@[q - p] == c[q]);
                }
            }
            self.pos += offset;
        } else {
            proof {
                if first_from(c, p, blank_pred()) < c.len() {
                    let q = first_from(c, p, blank_pred());
                    assert(remaining@[q - p] == c[q]);
                }
            }
            self.jump_to_eof();
        }
    }

    fn skip_comments(&mut self)
        requires
            old(self).wf(),
            opens_comment(old(self).bytes(), old(self).pos as int),
        ensures
            final(self).wf(),
            final(self).eof == old(self).eof,
            final(self).content == old(self).content,
            final(self).source == old(self).source,
            final(self).pos == comment_resume(old(self).bytes(), old(self).pos as int),
    {
        let ghost c = self.bytes();
        let ghost p = self.pos as int;
        proof {
            lemma_first_from(c, p, newline_pred());
        }
        loop
            invariant_except_break
                self.wf(),
                self.eof == old(self).eof,
                self.content == old(self).content,
                self.source == old(self).source,
                c == self.bytes(),
                self.pos == p || self.pos == comment_resume(c, p),
                self.pos == p ==> opens_comment(c, p),
            ensures
                self.wf(),
                self.eof == old(self).eof,
                self.content == old(self).content,
                self.source == old(self).source,
                self.pos == comment_resume(c, p),
            decreases (if self.pos == p { 1int } else { 0int }),
        {
            match (self.curr(), self.peek()) {
                (Some(MINUS), Some(MINUS)) => {
                    proof {
                        lemma_first_from(c, p, newline_pred());
                    }
                    assert(self.pos == p) by {
                        if self.pos != p {
                            let q = comment_resume(c, p);
                            if q < c.len() {
                                assert(c[q] == NEWLINE);
                            }
                        }
                    }
                    let remaining = self.remaining_bytes();
                    let found = remaining.find_byte(NEWLINE);
                    if let Some(end_of_line) = found {
                        proof {
                            assert(remaining@[end_of_line as int] == c[p + end_of_line]);
                            assert forall|j: int| p <= j < p + end_of_line implies !newline_pred()(
                                #[trigger] c[j],
                            ) by {
                                assert(remaining@[j - p] == c[j]);
                                assert(!seq![NEWLINE].contains(remaining@[j - p]));
                                if c[j] == NEWLINE {
                                    assert(seq![NEWLINE][0] == c[j]);
                                }
                            }
                            assert(seq![NEWLINE].contains(remaining@[end_of_line as int]));
                            if first_from(c, p, newline_pred()) < p + end_of_line {
                                let q = first_from(c, p, newline_pred());
                                assert(remaining@[q - p] == c[q]);
                            }
                        }
                        self.pos += end_of_line;
                    } else {
                        proof {
                            if first_from(c, p, newline_pred()) < c.len() {
                                let q = first_from(c, p, newline_pred());
                                assert(remaining@[q - p] == c[q]);
                                assert(seq![NEWLINE][0] == c[q]);
                            }
                        }
                        self.jump_to_eof();
                    }
                },
                _ => {
                    assert(self.pos != p);
                    break ;
                },
            }
        }
    }

    /// Advances while `condition` holds of the current byte and returns the text passed over.
    fn read_while<F>(&mut self, condition: F, pred: Ghost<spec_fn(u8) -> bool>) -> (r: &'src str) where
        F: Fn(u8) -> bool,

        requires
            old(self).wf(),
            forall|b: u8| condition.requires((b,)),
            forall|b: u8, res: bool| condition.ensures((b,), res) ==> res == !pred@(b),
            is_char_boundary(old(self).bytes(), old(self).pos as int),
            is_char_boundary(
                old(self).bytes(),
                first_from(old(self).bytes(), old(self).pos as int, pred@),
            ),
        ensures
            final(self).wf(),
            final(self).eof == old(self).eof,
            final(self).content == old(self).content,
            final(self).source == old(self).source,
            final(self).pos == first_from(old(self).bytes(), old(self).pos as int, pred@),
            r.spec_bytes() == old(self).bytes().subrange(old(self).pos as int, final(self).pos as int),
    {
        let ghost c = self.bytes();
        let start = self.pos;
        proof {
            lemma_first_from(c, start as int, pred@);
        }
        loop
            invariant_except_break
                self.wf(),
                self.eof == old(self).eof,
                self.content == old(self).content,
                self.source == old(self).source,
                c == self.bytes(),
                start <= self.pos <= first_from(c, start as int, pred@),
                first_from(c, start as int, pred@) <= c.len(),
                forall|j: int| start <= j < first_from(c, start as int, pred@) ==> !pred@(#[trigger] c[j]),
                first_from(c, start as int, pred@) < c.len() ==> pred@(c[first_from(c, start as int, pred@)]),
                forall|b: u8| condition.requires((b,)),
                forall|b: u8, res: bool| condition.ensures((b,), res) ==> res == !pred@(b),
            ensures
                self.wf(),
                self.eof == old(self).eof,
                self.content == old(self).content,
                self.source == old(self).source,
                self.pos == first_from(c, start as int, pred@),
            decreases c.len() - self.pos,
        {
            let cur = self.curr();
            match cur {
                Some(ch) => {
                    if condition(ch) {
                        self.advance();
                    } else {
                        break ;
                    }
                },
                None => {
                    break ;
                },
            }
        }
        str_slice(self.content, start, self.pos)
    }

    fn read_string(&mut self) -> (r: Result<String>)
        requires
            old(self).wf(),
            old(self).pos < old(self).bytes().len(),
            old(self).bytes()[old(self).pos as int] == QUOTE,
        ensures
            final(self).wf(),
            final(self).eof == old(self).eof,
            final(self).content == old(self).content,
            final(self).source == old(self).source,
            ({
                let c = old(self).bytes();
                let p = old(self).pos as int;
                let l = lex(c, p);
                &&& final(self).pos == resume_at(c, l)
                &&& match l {
                    Lexeme::Str { start, close } => match string_body(c, start, close) {
                        Ok(text) => r matches Ok(s) && s@ == text,
                        Err(e) => r matches Err(LexerError::EscapeLiteral(e2)) && e2 == e,
                    },
                    Lexeme::Unterminated { start } => r matches Err(
                        LexerError::UnterminatedString { src: s, span },
                    ) && s@ == old(self).source@ && span == (Span {
                        offset: start as usize,
                        length: (c.len() - start) as usize,
                    }),
                    _ => false,
                }
            }),
    {
        let ghost c = self.bytes();
        let start = self.pos;
        proof {
            lemma_str_valid(self.content);
            lemma_ascii_boundaries(c, start as int);
            lemma_end_boundary(c);
            lemma_first_from(c, start + 1, quote_pred());
            let q = first_from(c, start + 1, quote_pred());
            if q < c.len() {
                lemma_ascii_boundaries(c, q);
            }
        }
        self.advance();
        let not_quote = |ch: u8| -> (r: bool)
            ensures
                r == (ch != QUOTE),
        {
            let open = ch != QUOTE;
            open
        };
        let text = self.read_while(not_quote, Ghost(quote_pred()));
        if self.curr() != Some(QUOTE) {
            Err(
                LexerError::UnterminatedString {
                    src: self.source(),
                    span: Span { offset: start, length: self.pos - start },
                },
            )
        } else {
            self.advance();
            proof {
                lemma_str_valid(text);
                decode_utf8_encode_utf8(text.spec_bytes());
                encode_utf8_decode_utf8(text@);
            }
            match unescape_literal(text) {
                Ok(s) => Ok(s),
                Err(e) => Err(LexerError::EscapeLiteral(e)),
            }
        }
    }

    /// A token of `kind` made of the current byte, which is then passed over.
    fn consume_char(&mut self, kind: TokenKind) -> (r: Token)
        requires
            old(self).wf(),
            old(self).pos < old(self).bytes().len(),
            old(self).bytes()[old(self).pos as int] < 0x80,
        ensures
            final(self).wf(),
            final(self).eof == old(self).eof,
            final(self).content == old(self).content,
            final(self).source == old(self).source,
            final(self).pos == old(self).pos + 1,
            r.kind == kind,
            encode_utf8(r.text@) == old(self).bytes().subrange(old(self).pos as int, old(self).pos + 1),
            r.span == (Span { offset: old(self).pos, length: 1 }),
    {
        let token = self.token_of(kind, 1);
        self.advance();
        token
    }

    /// A token of `kind` made of the `n` bytes from the current position.
    fn token_of(&self, kind: TokenKind, n: usize) -> (r: Token)
        requires
            self.wf(),
            self.pos + n <= self.bytes().len(),
            n > 0,
            forall|j: int| self.pos <= j < self.pos + n ==> #[trigger] self.bytes()[j] < 0x80,
        ensures
            r.kind == kind,
            encode_utf8(r.text@) == self.bytes().subrange(self.pos as int, self.pos + n),
            r.span == (Span { offset: self.pos, length: n }),
    {
        proof {
            lemma_str_valid(self.content);
            lemma_ascii_boundaries(self.bytes(), self.pos as int);
            lemma_ascii_boundaries(self.bytes(), self.pos + n - 1);
        }
        let text = str_slice(self.content, self.pos, self.pos + n);
        let owned = text.to_owned();
        Token::new(kind, owned, self.pos)
    }

    /// Reads the next token.
    ///
    /// Once the end of the input has been handed out as an [`TokenKind::Eof`] token, no
    /// further token is read. Blanks and `--` comments before a token are skipped.
    pub fn read_token(&mut self) -> (r: Option<Result<Token>>)
        requires
            old(self).wf(),
        ensures
            final(self).wf(),
            final(self).bytes() == old(self).bytes(),
            final(self).content_view() == old(self).content_view(),
            final(self).source_view() == old(self).source_view(),
            old(self).at_eof() ==> r is None && final(self).position() == old(self).position()
                && final(self).at_eof(),
            !old(self).at_eof() ==> ({
                let c = old(self).bytes();
                let l = lex(c, old(self).position());
                &&& r matches Some(res) && yields(res, l, c, old(self).source_view())
                &&& final(self).position() == resume_at(c, l)
                &&& final(self).at_eof() == (l is End)
            }),
        decreases old(self).bytes().len() - old(self).position(),
    {
        if self.eof {
            return None;
        }
        let ghost c = self.bytes();
        let start = self.pos;
        proof {
            lemma_str_valid(self.content);
            lemma_end_boundary(c);
        }
        let ch = match self.curr() {
            Some(ch) => ch,
            None => {
                self.eof = true;
                return Some(Ok(Token::new(TokenKind::Eof, String::new(), self.pos)));
            },
        };
        let token = if ch == QUOTE {
            match self.read_string() {
                Ok(text) => Token::new(TokenKind::String, text, start),
                Err(err) => {
                    return Some(Err(err));
                },
            }
        } else if ch == EQUALS {
            if self.peek() == Some(EQUALS) {
                let token = self.token_of(TokenKind::Eq, 2);
                self.advance_n(2);
                token
            } else {
                self.consume_char(TokenKind::Assign)
            }
        } else if ch == MINUS {
            if self.peek() == Some(R_ANGLE) {
                let token = self.token_of(TokenKind::Arrow, 2);
                self.advance_n(2);
                token
            } else if self.peek() == Some(MINUS) {
                // a `--` opens a comment that runs to the end of the line
                self.skip_comments();
                proof {
                    lemma_first_from(c, start as int, newline_pred());
                }
                return self.read_token();
            } else {
                self.consume_char(TokenKind::Sub)
            }
        } else if ch == BANG {
            if self.peek() == Some(EQUALS) {
                let token = self.token_of(TokenKind::Ne, 2);
                self.advance_n(2);
                token
            } else {
                self.consume_char(TokenKind::Bang)
            }
        } else if let Some(kind) = single_byte_token(ch) {
            self.consume_char(kind)
        } else if 0x30u8 <= ch && ch <= 0x39u8 {
            proof {
                lemma_ascii_boundaries(c, start as int);
            }
            proof {
                lemma_first_from(c, start as int, number_end_pred());
                let q = first_from(c, start as int, number_end_pred());
                lemma_ascii_boundaries(c, start as int);
                lemma_ascii_boundaries(c, q - 1);
            }
            let is_num = |b: u8| -> (r: bool)
                ensures
                    r == is_number_byte(b),
            {
                let num = is_ident_byte_exec(b) || b == DOT;
                num
            };
            let text = self.read_while(is_num, Ghost(number_end_pred()));
            let num = match ReadNumber::try_read(text) {
                Ok(val) => val,
                Err(err) => {
                    self.pos = start;
                    return Some(Err(LexerError::ReadNumber(err)));
                },
            };
            let owned = text.to_owned();
            Token::new(TokenKind::Num(num), owned, start)
        } else if is_ident_start_byte(ch) {
            proof {
                lemma_first_from(c, start as int, ident_end_pred());
                let q = first_from(c, start as int, ident_end_pred());
                lemma_ascii_boundaries(c, start as int);
                lemma_ascii_boundaries(c, q - 1);
            }
            let is_ident = |b: u8| -> (r: bool)
                ensures
                    r == is_ident_byte(b),
            {
                let ident = is_ident_byte_exec(b);
                ident
            };
            let text = self.read_while(is_ident, Ghost(ident_end_pred()));
            let kind = match token::lookup_keyword(text) {
                Some(kind) => kind,
                None => TokenKind::Ident,
            };
            let owned = text.to_owned();
            Token::new(kind, owned, start)
        } else if is_ascii_whitespace(&ch) {
            proof {
                lemma_first_from(c, start as int, blank_pred());
            }
            self.skip_whitespace();
            return self.read_token();
        } else {
            return Some(
                Err(
                    LexerError::Illegal {
                        src: self.source(),
                        span: Span { offset: start, length: 1 },
                        ch: ch as char,
                    },
                ),
            );
        };
        Some(Ok(token))
    }

    /// All tokens up to the end of the input, which is not among them; or the first error.
    pub fn read_until_eof(&mut self) -> (r: Result<Vec<Token>>)
        requires
            old(self).wf(),
            !old(self).at_eof(),
        ensures
            final(self).wf(),
            final(self).bytes() == old(self).bytes(),
            final(self).source_view() == old(self).source_view(),
            ({
                let c = old(self).bytes();
                let ls = lexemes_from(c, old(self).position());
                if ls.last() is End {
                    &&& r matches Ok(toks)
                    &&& toks@.len() == ls.len() - 1
                    &&& forall|i: int|
                        0 <= i < toks@.len() ==> yields(
                            Ok(#[trigger] toks@[i]),
                            ls[i],
                            c,
                            old(self).source_view(),
                        )
                } else {
                    r matches Err(e) && yields(Err(e), ls.last(), c, old(self).source_view())
                }
            }),
    {
        let ghost c = self.bytes();
        let ghost src = self.source_view();
        let ghost start = self.position();
        let mut buf: Vec<Token> = Vec::new();
        let ghost mut done: Seq<Lexeme> = Seq::empty();
        proof {
            self.lemma_bytes_valid();
            assert(done + lexemes_from(c, start) =~= lexemes_from(c, start));
        }
        loop
            invariant_except_break
                self.wf(),
                !self.at_eof(),
                c == old(self).bytes(),
                src == old(self).source_view(),
                start == old(self).position(),
                self.bytes() == c,
                self.source_view() == src,
                c.len() <= usize::MAX,
                0 <= self.position() <= c.len(),
                lexemes_from(c, start) == done + lexemes_from(c, self.position()),
                buf@.len() == done.len(),
                forall|i: int| 0 <= i < buf@.len() ==> yields(Ok(#[trigger] buf@[i]), done[i], c, src),
            ensures
                self.wf(),
                self.bytes() == c,
                self.source_view() == src,
                buf@.len() == done.len(),
                forall|i: int| 0 <= i < buf@.len() ==> yields(Ok(#[trigger] buf@[i]), done[i], c, src),
                lexemes_from(c, start).last() is End,
                lexemes_from(c, start) == done.push(lexemes_from(c, start).last()),
            decreases c.len() - self.position(),
        {
            proof {
                lemma_lex_bounds(c, self.position());
                lemma_lex_kind(c, self.position());
            }
            let ghost p = self.position();
            let ghost l = lex(c, p);
            let res = self.read_token();
            match res {
                Some(Ok(tok)) => {
                    if tok.kind == TokenKind::Eof {
                        proof {
                            assert(l is End);
                            assert(lexemes_from(c, p) == seq![l]);
                            assert(lexemes_from(c, start) =~= done.push(l));
                        }
                        break;
                    }
                    proof {
                        assert(!(l is End));
                        assert(!fails(l, c));
                    }
                    buf.push(tok);
                    proof {
                        assert(lexemes_from(c, p) == seq![l] + lexemes_from(c, resume_at(c, l)));
                        done = done.push(l);
                    }
                },
                Some(Err(err)) => {
                    proof {
                        assert(fails(l, c));
                        assert(lexemes_from(c, p) == seq![l]);
                        assert(lexemes_from(c, start) =~= done.push(l));
                    }
                    return Err(err);
                },
                None => {
                    break;
                },
            }
        }
        proof {
            let ls = lexemes_from(c, start);
            assert forall|i: int| 0 <= i < buf@.len() implies yields(
                Ok(#[trigger] buf@[i]),
                ls[i],
                c,
                src,
            ) by {
                assert(ls[i] == done[i]);
            }
        }
        Ok(buf)
    }
}

fn single_byte_token(b: u8) -> (r: Option<TokenKind>)
    ensures
        r == single_byte_kind(b),
{
    if b == PLUS {
        Some(TokenKind::Add)
    } else if b == ASTERISK {
        Some(TokenKind::Asterisk)
    } else if b == SLASH {
        Some(TokenKind::Slash)
    } else if b == AMPERSAND {
        Some(TokenKind::Ampersand)
    } else if b == L_PAREN {
        Some(TokenKind::LParen)
    } else if b == R_PAREN {
        Some(TokenKind::RParen)
    } else if b == L_BRACKET {
        Some(TokenKind::LBracket)
    } else if b == R_BRACKET {
        Some(TokenKind::RBracket)
    } else if b == L_SQUIRLY {
        Some(TokenKind::LSquirly)
    } else if b == R_SQUIRLY {
        Some(TokenKind::RSquirly)
    } else if b == L_ANGLE {
        Some(TokenKind::LAngle)
    } else if b == R_ANGLE {
        Some(TokenKind::RAngle)
    } else if b == COLON {
        Some(TokenKind::Colon)
    } else if b == SEMICOLON {
        Some(TokenKind::Semicolon)
    } else if b == DOT {
        Some(TokenKind::Dot)
    } else if b == COMMA {
        Some(TokenKind::Comma)
    } else if b == NEWLINE {
        Some(TokenKind::Newline)
    } else {
        None
    }
}

fn is_ident_start_byte(b: u8) -> (r: bool)
    ensures
        r == is_ident_start(b),
{
    (0x41u8 <= b && b <= 0x5Au8) || (0x61u8 <= b && b <= 0x7Au8) || b == UNDERSCORE
}

fn is_ident_byte_exec(b: u8) -> (r: bool)
    ensures
        r == is_ident_byte(b),
{
    (0x41u8 <= b && b <= 0x5Au8) || (0x61u8 <= b && b <= 0x7Au8) || (0x30u8 <= b && b <= 0x39u8)
        || b == UNDERSCORE
}

/// A lexeme is handed out as one token only: two tokens read for the same lexeme have the
/// same kind, text and span.
pub proof fn lemma_yields_unique(t1: Token, t2: Token, l: Lexeme, c: Seq<u8>, src: (Seq<char>, Seq<char>))
    requires
        yields(Ok(t1), l, c, src),
        yields(Ok(t2), l, c, src),
    ensures
        t1.kind == t2.kind,
        t1.text@ == t2.text@,
        t1.span == t2.span,
{
    broadcast use encode_utf8_decode_utf8;

    if l is Plain {
        assert(decode_utf8(encode_utf8(t1.text@)) == decode_utf8(encode_utf8(t2.text@)));
    } else if l is End {
        assert(t1.text@ =~= t2.text@);
    }
}

/// Going back to the start reads the input again: the tokens read to the end of the input
/// after a reset are those read to the end before it, one for one, with the same kind, text and
/// span.
pub proof fn lemma_reset_relexes(before: Lexer, after: Lexer, first: Seq<Token>, again: Seq<Token>)
    requires
        after.bytes() == before.bytes(),
        after.source_view() == before.source_view(),
        before.position() == 0,
        after.position() == 0,
        first.len() == lexemes_from(before.bytes(), 0).len() - 1,
        again.len() == lexemes_from(after.bytes(), 0).len() - 1,
        forall|i: int|
            0 <= i < first.len() ==> yields(
                Ok(#[trigger] first[i]),
                lexemes_from(before.bytes(), 0)[i],
                before.bytes(),
                before.source_view(),
            ),
        forall|i: int|
            0 <= i < again.len() ==> yields(
                Ok(#[trigger] again[i]),
                lexemes_from(after.bytes(), 0)[i],
                after.bytes(),
                after.source_view(),
            ),
    ensures
        again.len() == first.len(),
        forall|i: int|
            0 <= i < first.len() ==> (#[trigger] again[i]).kind == first[i].kind && again[i].text@
                == first[i].text@ && again[i].span == first[i].span,
{
    assert forall|i: int|
        0 <= i < first.len() implies (#[trigger] again[i]).kind == first[i].kind && again[i].text@
        == first[i].text@ && again[i].span == first[i].span by {
        lemma_yields_unique(
            again[i],
            first[i],
            lexemes_from(before.bytes(), 0)[i],
            before.bytes(),
            before.source_view(),
        );
    }
}

/// The text of a token of `kind`, for the operators and words that are always spelled the
/// same way.
pub open spec fn spelling(kind: TokenKind) -> Option<Seq<u8>> {
    match kind {
        TokenKind::Add => Some(seq![PLUS]),
        TokenKind::Sub => Some(seq![MINUS]),
        TokenKind::Asterisk => Some(seq![ASTERISK]),
        TokenKind::Slash => Some(seq![SLASH]),
        TokenKind::LAngle => Some(seq![L_ANGLE]),
        TokenKind::RAngle => Some(seq![R_ANGLE]),
        TokenKind::Bang => Some(seq![BANG]),
        TokenKind::Assign => Some(seq![EQUALS]),
        TokenKind::Eq => Some(seq![EQUALS, EQUALS]),
        TokenKind::Ne => Some(seq![BANG, EQUALS]),
        TokenKind::And => Some(seq![0x61u8, 0x6Eu8, 0x64u8]),
        TokenKind::Or => Some(seq![0x6Fu8, 0x72u8]),
        TokenKind::True => Some(seq![0x74u8, 0x72u8, 0x75u8, 0x65u8]),
        TokenKind::False => Some(seq![0x66u8, 0x61u8, 0x6Cu8, 0x73u8, 0x65u8]),
        _ => None,
    }
}

/// A token of a kind that is always spelled the same way stands in the input as that text.
pub proof fn lemma_lex_spelling(c: Seq<u8>, p: int)
    ensures
        lex(c, p) matches Lexeme::Plain { kind, start, end } ==> (spelling(kind) matches Some(
            text,
        ) ==> 0 <= start <= end <= c.len() && c.subrange(start, end) == text),
        lex(c, p) matches Lexeme::Plain { kind, start, end } ==> (kind matches TokenKind::Num(n)
            ==> read_number(c.subrange(start, end)) == Ok::<ReadNumber, ReadNumberError>(n)),
    decreases c.len() - p,
{
    if 0 <= p < c.len() {
        let b = c[p];
        if b == QUOTE {
        } else if b == EQUALS {
            if next_is(c, p, EQUALS) {
                assert(c.subrange(p, p + 2) =~= seq![EQUALS, EQUALS]);
            } else {
                assert(c.subrange(p, p + 1) =~= seq![EQUALS]);
            }
        } else if b == MINUS {
            if next_is(c, p, R_ANGLE) {
            } else if next_is(c, p, MINUS) {
                lemma_first_from(c, p, newline_pred());
                lemma_lex_spelling(c, comment_resume(c, p));
            } else {
                assert(c.subrange(p, p + 1) =~= seq![MINUS]);
            }
        } else if b == BANG {
            if next_is(c, p, EQUALS) {
                assert(c.subrange(p, p + 2) =~= seq![BANG, EQUALS]);
            } else {
                assert(c.subrange(p, p + 1) =~= seq![BANG]);
            }
        } else if single_byte_kind(b) is Some {
            assert(c.subrange(p, p + 1) =~= seq![b]);
        } else if is_digit(b) {
        } else if is_ident_start(b) {
            lemma_first_from(c, p, ident_end_pred());
        } else if is_blank(b) {
            lemma_first_from(c, p, blank_pred());
            let q = first_from(c, p, blank_pred());
            if q > p {
                lemma_lex_spelling(c, q);
            }
        }
    }
}

/// Where the lexeme found from `p` lies: a token or a string literal after `p` and inside the
/// input, the end of the input at or after `p`.
pub proof fn lemma_lex_bounds(c: Seq<u8>, p: int)
    requires
        0 <= p <= c.len(),
        c.len() <= usize::MAX,
    ensures
        match lex(c, p) {
            Lexeme::Plain { start, end, .. } => p <= start < end <= c.len(),
            Lexeme::Str { start, close } => p <= start < close < c.len() && c[start] == QUOTE
                && c[close] == QUOTE,
            Lexeme::End { at } => p <= at <= c.len(),
            _ => true,
        },
    decreases c.len() - p,
{
    if p < c.len() {
        let b = c[p];
        if b == QUOTE {
            lemma_first_from(c, p + 1, quote_pred());
        } else if b == MINUS && next_is(c, p, MINUS) {
            lemma_first_from(c, p, newline_pred());
            lemma_lex_bounds(c, comment_resume(c, p));
        } else if b != EQUALS && b != MINUS && b != BANG && single_byte_kind(b) is None {
            if is_digit(b) {
                lemma_first_from(c, p, number_end_pred());
            } else if is_ident_start(b) {
                lemma_first_from(c, p, ident_end_pred());
            } else if is_blank(b) {
                lemma_first_from(c, p, blank_pred());
                let q = first_from(c, p, blank_pred());
                if q > p {
                    lemma_lex_bounds(c, q);
                }
            }
        }
    }
}

/// A string literal's token is no longer than the source text between its quotes.
pub proof fn lemma_string_token_len(c: Seq<u8>, start: int, close: int)
    requires
        valid_utf8(c),
        0 <= start < close < c.len(),
        c[start] == QUOTE,
        c[close] == QUOTE,
    ensures
        string_body(c, start, close) matches Ok(text) ==> encode_utf8(text).len() <= close - start
            - 1,
{
    lemma_ascii_boundaries(c, start);
    lemma_ascii_boundaries(c, close);
    let raw = c.subrange(start + 1, close);
    lemma_valid_slice(c, start + 1, close);
    decode_utf8_encode_utf8(raw);
    lemma_unescape_shorter(decode_utf8(raw));
}

/// Where the token read from `p` lies: after `p`, and before the place the lexer resumes at,
/// which lies inside the input and after `p` unless the end was reached.
pub proof fn lemma_read_bounds(c: Seq<u8>, p: int, src: (Seq<char>, Seq<char>), res: Result<Token>)
    requires
        0 <= p <= c.len(),
        c.len() <= usize::MAX,
        valid_utf8(c),
        yields(res, lex(c, p), c, src),
    ensures
        res matches Ok(t) ==> {
            &&& p <= resume_at(c, lex(c, p)) <= c.len()
            &&& p <= t.span.offset
            &&& t.span.offset + t.span.length <= resume_at(c, lex(c, p))
            &&& (t.kind == TokenKind::Eof) == (lex(c, p) is End)
            &&& !(lex(c, p) is End) ==> p < resume_at(c, lex(c, p))
        },
{
    lemma_lex_bounds(c, p);
    lemma_lex_kind(c, p);
    match lex(c, p) {
        Lexeme::Str { start, close } => {
            lemma_string_token_len(c, start, close);
        },
        _ => {},
    }
}

/// A token found by `lex` is never the end of the input.
proof fn lemma_lex_kind(c: Seq<u8>, p: int)
    ensures
        lex(c, p) matches Lexeme::Plain { kind, .. } ==> kind != TokenKind::Eof,
    decreases c.len() - p,
{
    if 0 <= p < c.len() {
        let b = c[p];
        if b == MINUS && next_is(c, p, MINUS) && !next_is(c, p, R_ANGLE) {
            if 0 <= p {
                lemma_first_from(c, p, newline_pred());
            }
            lemma_lex_kind(c, comment_resume(c, p));
        } else if is_blank(b) {
            lemma_first_from(c, p, blank_pred());
            let q = first_from(c, p, blank_pred());
            if q > p {
                lemma_lex_kind(c, q);
            }
        }
    }
}

impl<'src> Lexer<'src> {
    /// The input is valid UTF-8.
    pub proof fn lemma_bytes_valid(&self)
        ensures
            valid_utf8(self.bytes()),
            self.wf() ==> self.bytes().len() <= usize::MAX && 0 <= self.position() <= self.bytes().len(),
    {
        lemma_str_valid(self.content);
    }
}

} // verus!
