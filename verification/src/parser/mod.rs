//! Parsing a token stream into the syntax tree.
use vstd::prelude::*;
use vstd::string::StringSliceAdditionalSpecFns;

use crate::ast::{
    expr_span, Assign, AssocItem, BinOp, BinOpKind, Block, Call, Constructor, Expr, Fn, FnKind,
    Ident, IfElse, Impl, Index, IntTy, Item, List, Literal, LiteralKind, Let, MemberAccess,
    Module, Name, NodeId, Op, Ret, Stmnt, StructDef, Ty, TyKind, UIntTy, Unary, UnaryOpKind, Use,
    While,
};
use crate::parser::num::{
    literal_int, literal_reading, number_value, ParseNumberError, ParseSuffixError,
};
use crate::parser::ids::{
    assoc_ids, block_ids, expr_ids, exprs_ids, extends, fields_ids, fn_ids, ids_in, item_ids,
    items_ids, lemma_ids_concat, lemma_ids_extends, lemma_ids_widen, let_ids, local_params_ids,
    module_ids, named_tys_ids, opt_block_ids, opt_ty_ids, stmnt_ids, stmnts_ids, ty_ids,
};
use crate::parser::prec::{prec_of, prec_rank, Prec};
use crate::text::str_eq;
use vstd::utf8::encode_utf8;
use crate::lexer::num::{read_number, ReadNumber, ReadNumberError};
use crate::lexer::source::{SourceInfo, Span};
use crate::lexer::token::{OwnedToken, Token, TokenKind};
use crate::lexer::{
    fails, lemma_lex_spelling, lemma_read_bounds, lex, spelling, lexemes_from, resume_at, yields, Lexeme, Lexer,
    LexerError,
};

pub mod ids;
pub mod num;
pub mod ops;
pub mod prec;

verus! {

#[derive(Debug)]
pub enum ParseError {
    /// a token of another kind than the one expected
    Expected {
        src: SourceInfo,
        span: Span,
        expected: TokenKind,
        actual: TokenKind,
        help: Option<String>,
    },
    /// a token that is no operator where an operator belongs
    InvalidOperator { src: SourceInfo, span: Span, help: Option<String> },
    /// a token that cannot stand where it stands
    Todo { src: SourceInfo, token: OwnedToken, span: Span },
    /// a number token that stands for no integer that fits in 128 bits (a floating point
    /// number among them)
    InvalidInt { src: SourceInfo, span: Span },
    /// a number token whose suffix names no type
    InvalidSuffix { src: SourceInfo, span: Span, err: ParseSuffixError },
    /// every node id has been handed out
    TooManyNodes { src: SourceInfo, span: Span },
    /// the lexer could not read the next token
    Lexer(LexerError),
}

pub type Result<T> = core::result::Result<T, ParseError>;

/// Hands out the ids of the nodes.
#[derive(Debug, Default)]
pub struct Context {
    id: u32,
}

impl Context {
    pub fn new() -> (r: Self)
        ensures
            r.next() == 0,
    {
        Context { id: 0 }
    }

    /// The id the next node gets.
    pub closed spec fn next(&self) -> u32 {
        self.id
    }

    fn next_id(&mut self) -> (r: NodeId)
        requires
            old(self).next() < u32::MAX,
        ensures
            r == NodeId(old(self).next()),
            final(self).next() == old(self).next() + 1,
    {
        let id = self.id;
        self.id += 1;
        NodeId(id)
    }
}

/// Where the token just read lies: after where the lexer stood, and before where it stands now.
proof fn lemma_read(lexer: &Lexer, c: Seq<u8>, p: int, res: crate::lexer::Result<Token>)
    requires
        lexer.wf(),
        c == lexer.bytes(),
        0 <= p <= c.len(),
        crate::lexer::yields(res, lex(c, p), c, lexer.source_view()),
    ensures
        res matches Ok(t) ==> {
            &&& p <= crate::lexer::resume_at(c, lex(c, p)) <= c.len()
            &&& p <= t.span.offset
            &&& span_end(t.span) <= crate::lexer::resume_at(c, lex(c, p))
            &&& (t.kind == TokenKind::Eof) == (lex(c, p) is End)
            &&& !(lex(c, p) is End) ==> p < crate::lexer::resume_at(c, lex(c, p))
            &&& spelled(t, c)
        },
{
    lexer.lemma_bytes_valid();
    lemma_read_bounds(c, p, lexer.source_view(), res);
    lemma_lex_spelling(c, p);
    crate::lexer::lemma_lex_bounds(c, p);
    if let Ok(t) = res {
        if let Lexeme::Plain { kind, start, end } = lex(c, p) {
            assert(t.span.offset == start);
            assert(span_end(t.span) == end);
        }
    }
}

/// Where a span ends.
pub open spec fn span_end(s: Span) -> int {
    s.offset + s.length
}

/// The input `c` holds, over the span of `t`, the text that a token of its kind is always
/// spelled with, where its kind has one.
pub open spec fn spelled(t: Token, c: Seq<u8>) -> bool {
    &&& spelling(t.kind) matches Some(text) ==> 0 <= t.span.offset <= span_end(t.span) <= c.len()
        && c.subrange(t.span.offset as int, span_end(t.span)) == text
    &&& t.kind matches TokenKind::Num(n) ==> read_number(
        c.subrange(t.span.offset as int, span_end(t.span)),
    ) == Ok::<ReadNumber, ReadNumberError>(n) && encode_utf8(t.text@) == c.subrange(
        t.span.offset as int,
        span_end(t.span),
    )
    &&& t.kind == TokenKind::Ident ==> encode_utf8(t.text@) == c.subrange(
        t.span.offset as int,
        span_end(t.span),
    )
}

pub struct Parser<'src> {
    pub lex: Lexer<'src>,
    pub ctx: Context,
    pub tokens: Vec<Token>,
    pub curr: Token,
    pub next: Option<Token>,
}

impl<'src> Parser<'src> {
    /// The length of the input in bytes.
    pub open spec fn input_len(&self) -> int {
        self.lex.bytes().len() as int
    }

    /// What is left to read: it goes down with every token consumed.
    pub open spec fn measure(&self) -> int {
        2 * (self.input_len() - self.lex.position()) + (if self.lex.at_eof() {
            0int
        } else {
            1int
        }) + (if self.next is Some {
            1int
        } else {
            0int
        })
    }

    /// The lexer stands after the current token and the one after it; the end of the input
    /// has been read exactly when the token after the current one is the end (or there is none,
    /// the current one being the end).
    pub open spec fn wf(&self) -> bool {
        &&& self.lex.wf()
        &&& 0 <= self.lex.position() <= self.input_len() <= usize::MAX
        &&& span_end(self.curr.span) <= self.lex.position()
        &&& spelled(self.curr, self.lex.bytes())
        &&& (self.next matches Some(t) ==> spelled(t, self.lex.bytes()))
        &&& match self.next {
            Some(t) => {
                &&& self.curr.span.offset <= t.span.offset
                &&& span_end(t.span) <= self.lex.position()
                &&& (t.kind == TokenKind::Eof) == self.lex.at_eof()
            },
            None => self.lex.at_eof() && self.curr.kind == TokenKind::Eof,
        }
    }

    /// Moving on by one token succeeds: the lexer has handed out the end of the input already,
    /// or the token it reads next can be read.
    pub open spec fn reads_next(&self) -> bool {
        self.lex.at_eof() || !fails(lex(self.lex.bytes(), self.lex.position()), self.lex.bytes())
    }

    /// The rest of the input can be read to its end: no token ahead fails to be read.
    pub open spec fn reads_all(&self) -> bool {
        self.lex.at_eof() || lexemes_from(self.lex.bytes(), self.lex.position()).last() is End
    }

    /// The token after the next one is of kind `kind`.
    pub open spec fn third_is(&self, kind: TokenKind) -> bool {
        &&& !self.lex.at_eof()
        &&& lex(self.lex.bytes(), self.lex.position()) matches Lexeme::Plain { kind: k, .. } && k
            == kind
    }

    /// The current token is `use`, the next a name, and the input ends after that name.
    pub open spec fn lone_use(&self) -> bool {
        &&& self.curr.kind == TokenKind::Use
        &&& self.next_is(TokenKind::Ident)
        &&& !self.lex.at_eof()
        &&& lex(self.lex.bytes(), self.lex.position()) is End
    }

    /// Another node id can be handed out.
    pub open spec fn has_ids(&self) -> bool {
        self.ctx.next() < u32::MAX
    }

    /// `self` is a well-formed later state of `before`: the same input, no more left to read,
    /// the current token no earlier, and no id handed out twice.
    pub open spec fn follows(&self, before: &Parser) -> bool {
        &&& self.wf()
        &&& self.lex.bytes() == before.lex.bytes()
        &&& self.lex.source_view() == before.lex.source_view()
        &&& self.measure() <= before.measure()
        &&& before.curr.span.offset <= self.curr.span.offset
        &&& before.ctx.next() <= self.ctx.next()
    }

    /// `self` follows `before` and has consumed at least one token.
    pub open spec fn advanced(&self, before: &Parser) -> bool {
        &&& self.follows(before)
        &&& self.measure() < before.measure()
    }

    /// A span of a node parsed from `before` to `self`: it starts at or after the token
    /// current in `before`, no later than the current token of `self`, and ends in the input.
    pub open spec fn covers(&self, before: &Parser, span: Span) -> bool {
        &&& before.curr.span.offset <= span.offset <= self.curr.span.offset
        &&& span_end(span) <= self.input_len()
    }

    /// `self` stands on the token that came after the current one of `before`, if there was
    /// one, and otherwise where `before` stood.
    pub open spec fn stepped(&self, before: &Parser) -> bool {
        match before.next {
            Some(t) => self.curr.kind == t.kind && self.curr.text@ == t.text@ && self.curr.span
                == t.span,
            None => self.curr.kind == before.curr.kind && self.curr.text@ == before.curr.text@
                && self.curr.span == before.curr.span,
        }
    }

    /// The token after the current one is of kind `kind`.
    pub open spec fn next_is(&self, kind: TokenKind) -> bool {
        self.next matches Some(t) && t.kind == kind
    }

    /// The ids `ids` were handed out between `before` and `self`, in increasing order.
    pub open spec fn made(&self, before: &Parser, ids: Seq<u32>) -> bool {
        ids_in(ids, before.ctx.next() as int, self.ctx.next() as int)
    }

    /// The token after the current one starts the expression `e`.
    pub open spec fn next_starts(&self, e: Expr) -> bool {
        match self.next {
            Some(t) => started_by(leftmost(e), t.kind),
            None => false,
        }
    }

    /// The text of the token after the current one.
    pub open spec fn next_text(&self) -> Seq<char> {
        match self.next {
            Some(t) => t.text@,
            None => Seq::empty(),
        }
    }

    /// A parser at the first token of `content`.
    pub fn new(file_path: String, content: &'src str) -> (r: Result<Self>)
        ensures
            r matches Ok(p) ==> {
                &&& p.wf()
                &&& p.lex.bytes() == content.spec_bytes()
                &&& p.lex.source_view() == (file_path@, content@)
                &&& p.ctx.next() == 0
            },
            ({
                let c = content.spec_bytes();
                let src = (file_path@, content@);
                let first = lex(c, 0);
                let second = lex(c, resume_at(c, first));
                if fails(first, c) {
                    (r matches Err(ParseError::Lexer(e)) && yields(Err(e), first, c, src))
                } else if !(first is End) && fails(second, c) {
                    (r matches Err(ParseError::Lexer(e)) && yields(Err(e), second, c, src))
                } else {
                    &&& r matches Ok(p)
                    &&& yields(Ok(p.curr), first, c, src)
                    &&& first is End ==> p.next is None
                    &&& !(first is End) ==> (p.next matches Some(t) && yields(Ok(t), second, c, src))
                }
            }),
    {
        let mut lex = Lexer::new(file_path, content);
        let ghost c = lex.bytes();
        let first = lex.read_token();
        let curr = match first {
            Some(Ok(t)) => t,
            Some(Err(e)) => {
                return Err(ParseError::Lexer(e));
            },
            None => Token::new(TokenKind::Eof, String::new(), lex.pos()),
        };
        proof {
            lemma_read(&lex, c, 0, Ok(curr));
        }
        let ghost p1 = lex.position();
        let second = lex.read_token();
        let next = match second {
            Some(Ok(t)) => Some(t),
            Some(Err(e)) => {
                return Err(ParseError::Lexer(e));
            },
            None => None,
        };
        proof {
            if next is Some {
                lemma_read(&lex, c, p1, Ok(next->0));
            }
            lex.lemma_bytes_valid();
        }
        let ctx = Context::new();
        Ok(Parser { lex, ctx, curr, next, tokens: Vec::new() })
    }

    /// Moves on by one token: the token after the current one becomes current and the lexer
    /// reads the one after that. Hands back the token that became current, unless the lexer
    /// has nothing more to hand out.
    fn advance(&mut self) -> (r: Result<Option<Token>>)
        requires
            old(self).wf(),
        ensures
            r is Ok ==> {
                &&& final(self).follows(old(self))
                &&& final(self).ctx == old(self).ctx
                &&& match old(self).next {
                    Some(t) => {
                        &&& final(self).curr.kind == t.kind
                        &&& final(self).curr.text@ == t.text@
                        &&& final(self).curr.span == t.span
                        &&& final(self).measure() < old(self).measure()
                    },
                    None => {
                        &&& final(self).curr == old(self).curr
                        &&& final(self).next is None
                        &&& final(self).measure() == old(self).measure()
                    },
                }
            },
            old(self).reads_next() ==> r is Ok,
            old(self).reads_all() ==> r is Ok && final(self).reads_all(),
            r is Ok && !old(self).lex.at_eof() ==> (final(self).next matches Some(t) && yields(
                Ok(t),
                lex(old(self).lex.bytes(), old(self).lex.position()),
                old(self).lex.bytes(),
                old(self).lex.source_view(),
            )),
    {
        let curr = match &self.next {
            Some(t) => Some(t.duplicate()),
            None => None,
        };
        if let Some(next) = &self.next {
            self.curr = next.duplicate();
        }
        let ghost c = self.lex.bytes();
        let ghost p = self.lex.position();
        proof {
            self.lex.lemma_bytes_valid();
        }
        let read = self.lex.read_token();
        proof {
            if !old(self).lex.at_eof() && old(self).reads_all() {
                lemma_reads_on(c, p);
            }
        }
        self.next = match read {
            None => None,
            Some(Ok(t)) => Some(t),
            Some(Err(e)) => {
                return Err(ParseError::Lexer(e));
            },
        };
        proof {
            if self.next is Some {
                lemma_read(&self.lex, c, p, Ok(self.next->0));
            }
            self.lex.lemma_bytes_valid();
        }
        let taken = match &self.next {
            Some(next) => {
                self.tokens.push(next.duplicate());
                curr
            },
            None => None,
        };
        Ok(taken)
    }

    /// The id for the next node.
    fn fresh_id(&mut self) -> (r: Result<NodeId>)
        requires
            old(self).wf(),
        ensures
            r matches Ok(id) ==> {
                &&& id == NodeId(old(self).ctx.next())
                &&& final(self).ctx.next() == old(self).ctx.next() + 1
                &&& final(self).lex == old(self).lex
                &&& final(self).curr == old(self).curr
                &&& final(self).next == old(self).next
                &&& final(self).follows(old(self))
                &&& final(self).measure() == old(self).measure()
            },
            old(self).has_ids() ==> r is Ok,
    {
        if self.ctx.id == u32::MAX {
            return Err(ParseError::TooManyNodes { src: self.lex.source(), span: self.curr.span });
        }
        Ok(self.ctx.next_id())
    }

    /// The error for a token that cannot stand where the current one stands.
    fn unexpected(&self) -> (r: ParseError)
        ensures
            r matches ParseError::Todo { token, span, .. } && token.kind == self.curr.kind
                && span == self.curr.span,
    {
        ParseError::Todo { src: self.lex.source(), token: self.curr.to_owned(), span: self.curr.span }
    }

    /// The current token, which must be of kind `expected`.
    fn expect(&self, expected: TokenKind) -> (r: Result<Token>)
        ensures
            r is Ok == (self.curr.kind == expected),
            r matches Ok(t) ==> t.kind == self.curr.kind && t.text@ == self.curr.text@ && t.span
                == self.curr.span,
            r matches Err(e) ==> e matches ParseError::Expected { span, expected: x, actual, .. }
                && span == self.curr.span && x == expected && actual == self.curr.kind,
    {
        if self.curr.kind != expected {
            return Err(
                ParseError::Expected {
                    src: self.lex.source(),
                    span: self.curr.span,
                    expected,
                    actual: self.curr.kind,
                    help: None,
                },
            );
        }
        Ok(self.curr.duplicate())
    }

    /// Consumes the current token if it is of kind `expected`.
    fn accept(&mut self, expected: TokenKind) -> (r: Result<Option<Token>>)
        requires
            old(self).wf(),
        ensures
            r matches Ok(Some(t)) ==> {
                &&& old(self).curr.kind == expected
                &&& t.kind == expected
                &&& t.span == old(self).curr.span
                &&& final(self).follows(old(self))
                &&& final(self).ctx == old(self).ctx
                &&& expected != TokenKind::Eof ==> final(self).advanced(old(self))
                &&& final(self).stepped(old(self))
            },
            r matches Ok(None) ==> old(self).curr.kind != expected && *final(self) == *old(self),
            old(self).reads_all() ==> r is Ok && final(self).reads_all(),
            r matches Ok(Some(_)) && !old(self).lex.at_eof() ==> (final(self).next matches Some(t)
                && yields(
                Ok(t),
                lex(old(self).lex.bytes(), old(self).lex.position()),
                old(self).lex.bytes(),
                old(self).lex.source_view(),
            )),
    {
        if self.at(expected) {
            let tok = self.curr.duplicate();
            self.advance()?;
            Ok(Some(tok))
        } else {
            Ok(None)
        }
    }

    /// Consumes the current token, which must be of kind `expected`.
    fn consume(&mut self, expected: TokenKind) -> (r: Result<Token>)
        requires
            old(self).wf(),
        ensures
            r matches Ok(t) ==> {
                &&& old(self).curr.kind == expected
                &&& t.kind == expected
                &&& t.span == old(self).curr.span
                &&& t.text@ == old(self).curr.text@
                &&& final(self).follows(old(self))
                &&& final(self).ctx == old(self).ctx
                &&& expected != TokenKind::Eof ==> final(self).advanced(old(self))
                &&& final(self).stepped(old(self))
            },
            old(self).curr.kind != expected ==> r matches Err(ParseError::Expected { .. }),
            old(self).curr.kind == expected && old(self).reads_next() ==> r is Ok,
            old(self).reads_all() ==> final(self).reads_all(),
            r is Ok && !old(self).lex.at_eof() ==> (final(self).next matches Some(t) && yields(
                Ok(t),
                lex(old(self).lex.bytes(), old(self).lex.position()),
                old(self).lex.bytes(),
                old(self).lex.source_view(),
            )),
    {
        let tok = self.expect(expected)?;
        self.advance()?;
        Ok(tok)
    }

    /// Whether the current token is of `kind`.
    fn at(&self, kind: TokenKind) -> (r: bool)
        ensures
            r == (self.curr.kind == kind),
    {
        self.curr.kind == kind
    }

    /// Consumes the newlines before the next other token.
    fn skip_whitespace(&mut self) -> (r: Result<()>)
        requires
            old(self).wf(),
        ensures
            r is Ok ==> {
                &&& final(self).follows(old(self))
                &&& final(self).ctx == old(self).ctx
                &&& final(self).curr.kind != TokenKind::Newline
                &&& old(self).curr.kind != TokenKind::Newline ==> *final(self) == *old(self)
            },
            old(self).curr.kind != TokenKind::Newline ==> r is Ok,
            old(self).reads_all() ==> r is Ok && final(self).reads_all(),
    {
        let ghost start = *self;
        while self.at(TokenKind::Newline)
            invariant
                self.follows(&start),
                self.ctx == start.ctx,
                start.curr.kind != TokenKind::Newline ==> *self == start,
                start == *old(self),
                start.reads_all() ==> self.reads_all(),
            decreases self.measure(),
        {
            proof {
                assert(self.next is Some);
            }
            self.advance()?;
        }
        Ok(())
    }

    fn ident(&mut self) -> (r: Result<Ident>)
        requires
            old(self).wf(),
        ensures
            r matches Ok(i) ==> {
                &&& old(self).curr.kind == TokenKind::Ident
                &&& i.inner@ == old(self).curr.text@
                &&& i.span == old(self).curr.span
                &&& i.id == NodeId(old(self).ctx.next())
                &&& final(self).ctx.next() == old(self).ctx.next() + 1
                &&& final(self).made(old(self), seq![i.id.0])
                &&& !i.is_extern
                &&& final(self).advanced(old(self))
                &&& final(self).stepped(old(self))
                &&& encode_utf8(i.inner@) == span_text(old(self).lex.bytes(), i.span)
                &&& final(self).covers(old(self), i.span)
            },
            old(self).curr.kind != TokenKind::Ident ==> r matches Err(ParseError::Expected { .. }),
            old(self).curr.kind == TokenKind::Ident && old(self).reads_next() && old(self).has_ids()
                ==> r is Ok,
    {
        let token = self.consume(TokenKind::Ident)?;
        let id = self.fresh_id()?;
        Ok(Ident { id, span: token.span, inner: token.text, is_extern: false })
    }

    fn name(&mut self) -> (r: Result<Name>)
        requires
            old(self).wf(),
        ensures
            r matches Ok(n) ==> {
                &&& old(self).curr.kind == TokenKind::Ident
                &&& n.inner@ == old(self).curr.text@
                &&& n.span == old(self).curr.span
                &&& final(self).advanced(old(self))
                &&& final(self).covers(old(self), n.span)
                &&& final(self).stepped(old(self))
                &&& encode_utf8(n.inner@) == span_text(old(self).lex.bytes(), n.span)
            },
            old(self).curr.kind != TokenKind::Ident ==> r matches Err(ParseError::Expected { .. }),
            old(self).curr.kind == TokenKind::Ident && old(self).reads_all() ==> r is Ok,
            old(self).reads_all() ==> final(self).reads_all(),
    {
        let token = self.consume(TokenKind::Ident)?;
        Ok(Name { span: token.span, inner: token.text })
    }

    /// An integer literal: the value the number token's digits spell in its radix, and the
    /// type its suffix names.
    fn int_lit(&mut self) -> (r: Result<Literal>)
        requires
            old(self).wf(),
            old(self).curr.kind is Num,
        ensures
            r matches Ok(lit) ==> {
                &&& literal_reading(encode_utf8(old(self).curr.text@), old(self).curr.kind->Num_0)
                    matches Some((v, s)) && lit.kind == LiteralKind::Int(v) && lit.suffix == s
                &&& final(self).made(old(self), seq![lit.id.0])
                &&& lit.span == old(self).curr.span
                &&& final(self).advanced(old(self))
                &&& final(self).stepped(old(self))
                &&& read_from(Expr::Literal(lit), old(self).lex.bytes())
                &&& final(self).covers(old(self), lit.span)
            },
            literal_int(encode_utf8(old(self).curr.text@), old(self).curr.kind->Num_0) is None
                ==> r matches Err(ParseError::InvalidInt { .. }),
            literal_int(encode_utf8(old(self).curr.text@), old(self).curr.kind->Num_0) is Some
                && literal_reading(encode_utf8(old(self).curr.text@), old(self).curr.kind->Num_0)
                is None ==> r matches Err(ParseError::InvalidSuffix { .. }),
            literal_reading(encode_utf8(old(self).curr.text@), old(self).curr.kind->Num_0) is Some
                && old(self).reads_next() && old(self).has_ids() ==> r is Ok,
    {
        let span = self.curr.span;
        let num = match self.curr.kind {
            TokenKind::Num(n) => n,
            _ => {
                return Err(ParseError::InvalidInt { src: self.lex.source(), span });
            },
        };
        let (value, suffix) = match number_value(self.curr.text.as_str(), &num) {
            Ok(read) => read,
            Err(ParseNumberError::Int) => {
                return Err(ParseError::InvalidInt { src: self.lex.source(), span });
            },
            Err(ParseNumberError::Suffix(err)) => {
                return Err(ParseError::InvalidSuffix { src: self.lex.source(), span, err });
            },
        };
        self.advance()?;
        let id = self.fresh_id()?;
        Ok(Literal { id, span, kind: LiteralKind::Int(value), suffix })
    }

    fn bool_lit(&mut self) -> (r: Result<Literal>)
        requires
            old(self).wf(),
            old(self).curr.kind == TokenKind::True || old(self).curr.kind == TokenKind::False,
        ensures
            r matches Ok(lit) ==> {
                &&& lit.kind == LiteralKind::Bool(old(self).curr.kind == TokenKind::True)
                &&& final(self).made(old(self), seq![lit.id.0])
                &&& lit.span == old(self).curr.span
                &&& final(self).advanced(old(self))
                &&& final(self).stepped(old(self))
                &&& read_from(Expr::Literal(lit), old(self).lex.bytes())
                &&& final(self).covers(old(self), lit.span)
            },
            old(self).reads_next() && old(self).has_ids() ==> r is Ok,
    {
        let span = self.curr.span;
        let val = self.at(TokenKind::True);
        let kind = LiteralKind::Bool(val);
        self.advance()?;
        let id = self.fresh_id()?;
        Ok(Literal { id, span, kind, suffix: None })
    }

    fn str_lit(&mut self) -> (r: Result<Literal>)
        requires
            old(self).wf(),
            old(self).curr.kind == TokenKind::String,
        ensures
            r matches Ok(lit) ==> {
                &&& lit.kind matches LiteralKind::Str(text) && text@ == old(self).curr.text@
                &&& final(self).made(old(self), seq![lit.id.0])
                &&& lit.span == old(self).curr.span
                &&& final(self).advanced(old(self))
                &&& final(self).stepped(old(self))
                &&& final(self).covers(old(self), lit.span)
            },
            old(self).reads_next() && old(self).has_ids() ==> r is Ok,
    {
        let text = self.curr.text.clone();
        let span = self.curr.span;
        let kind = LiteralKind::Str(text);
        self.advance()?;
        let id = self.fresh_id()?;
        Ok(Literal { id, span, kind, suffix: None })
    }
}

impl<'src> Parser<'src> {
    /// A type: a name, optionally followed by `[N]` or `[]` for a list of it.
    fn ty(&mut self) -> (r: Result<Ty>)
        requires
            old(self).wf(),
        ensures
            r matches Ok(t) ==> {
                &&& old(self).curr.kind == TokenKind::Ident
                &&& final(self).advanced(old(self))
                &&& final(self).covers(old(self), t.span)
                &&& final(self).made(old(self), ty_ids(t))
                &&& match t.kind {
                    TyKind::List { inner, .. } => named_ty(inner.kind, old(self).curr.text@),
                    k => named_ty(k, old(self).curr.text@),
                }
            },
            old(self).curr.kind != TokenKind::Ident ==> r is Err,
    {
        let span = self.curr.span;
        let ident = self.ident()?;
        let kind = match lookup_builtin_ty(ident.as_str()) {
            Some(k) => k,
            None => TyKind::Var(ident),
        };
        let id = self.fresh_id()?;
        let span = span.enclosing_to(&self.curr.span);
        let mut ty = Ty { kind, id, span };
        proof {
            assert(self.made(old(self), ty_ids(ty)));
        }
        if self.accept(TokenKind::LBracket)?.is_some() {
            let size = if matches!(self.curr.kind, TokenKind::Num(_)) {
                let lit = self.int_lit()?;
                match lit.kind {
                    LiteralKind::Int(size) => Some(size as usize),
                    _ => None,
                }
            } else {
                None
            };
            self.consume(TokenKind::RBracket)?;
            let ghost inner_ids = ty_ids(ty);
            let ghost mid = self.ctx.next() as int;
            let kind = TyKind::List { inner: Box::new(ty), size };
            let id = self.fresh_id()?;
            proof {
                let lo = old(self).ctx.next() as int;
                lemma_ids_widen(inner_ids, lo, mid, lo, mid);
                lemma_ids_concat(inner_ids, seq![id.0], lo, mid, self.ctx.next() as int);
            }
            let span = span.enclosing_to(&self.curr.span);
            ty = Ty { kind, id, span };
        }
        Ok(ty)
    }

    fn use_item(&mut self) -> (r: Result<Use>)
        requires
            old(self).wf(),
        ensures
            r matches Ok(u) ==> {
                &&& old(self).curr.kind == TokenKind::Use
                &&& final(self).advanced(old(self))
                &&& final(self).covers(old(self), u.span)
                &&& u.is_extern == old(self).next_is(TokenKind::Extern)
                &&& !u.is_extern ==> u.name.inner@ == old(self).next_text()
            },
            old(self).curr.kind != TokenKind::Use ==> r is Err,
            old(self).curr.kind == TokenKind::Use && old(self).reads_all() && (old(self).next_is(
                TokenKind::Ident,
            ) || old(self).next_is(TokenKind::Extern) && old(self).third_is(TokenKind::Ident))
                ==> r is Ok,
            old(self).reads_all() ==> final(self).reads_all(),
            old(self).lone_use() ==> (r matches Ok(u) && !u.is_extern && u.name.inner@ == old(
                self,
            ).next_text() && final(self).curr.kind == TokenKind::Eof),
    {
        proof {
            if old(self).lone_use() {
                assert(lexemes_from(self.lex.bytes(), self.lex.position()) == seq![
                    lex(self.lex.bytes(), self.lex.position()),
                ]);
            }
        }
        let span = self.curr.span;
        self.consume(TokenKind::Use)?;
        let is_extern = self.accept(TokenKind::Extern)?.is_some();
        let name = self.name()?;
        let span = span.enclosing_to(&self.curr.span);
        Ok(Use { span, is_extern, name })
    }

    /// A prefix operator.
    fn unary_op(&mut self) -> (r: Result<(Op<UnaryOpKind>, Prec)>)
        requires
            old(self).wf(),
        ensures
            r matches Ok((op, prec)) ==> {
                &&& old(self).curr.kind == TokenKind::Sub ==> op.kind == UnaryOpKind::Negate
                &&& old(self).curr.kind == TokenKind::Bang ==> op.kind == UnaryOpKind::Not
                &&& op.span == old(self).curr.span
                &&& span_text(old(self).lex.bytes(), op.span) == spelling(unary_token(op.kind))->0
                &&& prec == prec_of(old(self).curr.kind)
                &&& final(self).stepped(old(self))
                &&& final(self).ctx == old(self).ctx
                &&& final(self).advanced(old(self))
                &&& final(self).covers(old(self), op.span)
            },
            old(self).curr.kind != TokenKind::Sub && old(self).curr.kind != TokenKind::Bang ==> r matches Err(
                ParseError::InvalidOperator { .. },
            ),
    {
        let token = self.curr.duplicate();
        let prec = Prec::from(&token);
        let span = token.span;
        let kind = match token.kind {
            TokenKind::Sub => UnaryOpKind::Negate,
            TokenKind::Bang => UnaryOpKind::Not,
            _ => {
                return Err(
                    ParseError::InvalidOperator {
                        src: self.lex.source(),
                        span: token.span(),
                        help: None,
                    },
                );
            },
        };
        self.advance()?;
        Ok((Op { span, kind }, prec))
    }

    /// An infix operator.
    fn bin_op(&mut self) -> (r: Result<(Op<BinOpKind>, Prec)>)
        requires
            old(self).wf(),
        ensures
            r matches Ok((op, prec)) ==> {
                &&& binop_of(old(self).curr.kind) == Some(op.kind)
                &&& op.span == old(self).curr.span
                &&& span_text(old(self).lex.bytes(), op.span) == spelling(binop_token(op.kind))->0
                &&& prec == prec_of(old(self).curr.kind)
                &&& final(self).stepped(old(self))
                &&& final(self).ctx == old(self).ctx
                &&& final(self).advanced(old(self))
                &&& final(self).covers(old(self), op.span)
            },
            binop_of(old(self).curr.kind) is None ==> r matches Err(
                ParseError::InvalidOperator { .. },
            ),
    {
        let token = self.curr.duplicate();
        let prec = Prec::from(&token);
        let span = token.span;
        let kind = match token.kind {
            TokenKind::Add => BinOpKind::Add,
            TokenKind::Sub => BinOpKind::Sub,
            TokenKind::Eq => BinOpKind::Eq,
            TokenKind::Ne => BinOpKind::Ne,
            TokenKind::Asterisk => BinOpKind::Mul,
            TokenKind::Slash => BinOpKind::Div,
            TokenKind::LAngle => BinOpKind::Lt,
            TokenKind::RAngle => BinOpKind::Gt,
            TokenKind::And => BinOpKind::And,
            TokenKind::Or => BinOpKind::Or,
            _ => {
                return Err(
                    ParseError::InvalidOperator {
                        src: self.lex.source(),
                        span: token.span(),
                        help: None,
                    },
                );
            },
        };
        self.advance()?;
        Ok((Op { span, kind }, prec))
    }
}

/// Where a statement was written.
pub open spec fn stmnt_span(s: Stmnt) -> Span {
    match s {
        Stmnt::Let(l) => l.span,
        Stmnt::Ret(r) => r.span,
        Stmnt::Expr(e) => expr_span(e),
    }
}

/// Where expression parsing at precedence `prec` stops: at the end, a newline, a terminator, or
/// a token that binds no tighter than `prec`.
pub open spec fn stops_expr(kind: TokenKind, prec: Prec) -> bool {
    ||| kind == TokenKind::Eof
    ||| kind == TokenKind::Newline
    ||| kind.spec_is_terminator()
    ||| prec_rank(prec_of(kind)) <= prec_rank(prec)
}

impl<'src> Parser<'src> {
    /// Statements up to the next terminator.
    fn block(&mut self) -> (r: Result<Block>)
        requires
            old(self).wf(),
        ensures
            r matches Ok(b) ==> {
                &&& final(self).follows(old(self))
                &&& final(self).covers(old(self), b.span)
                &&& final(self).curr.kind.spec_is_terminator()
                &&& final(self).made(old(self), block_ids(b))
                &&& (b.nodes@.len() == 0) == old(self).curr.kind.spec_is_terminator()
                &&& b.nodes@.len() > 0 ==> stmnt_started_by(b.nodes@[0], old(self).curr.kind)
            },
        decreases old(self).measure(), 6int,
    {
        let span = self.curr.span;
        let mut nodes: Vec<Stmnt> = Vec::new();
        let ghost start = *self;
        proof {
            assert(stmnts_ids(nodes@) =~= Seq::<u32>::empty());
        }
        loop
            invariant
                start == *old(self),
                self.follows(&start),
                span == start.curr.span,
                ids_in(stmnts_ids(nodes@), start.ctx.next() as int, self.ctx.next() as int),
                nodes@.len() == 0 ==> *self == start,
                nodes@.len() > 0 ==> !start.curr.kind.spec_is_terminator(),
                nodes@.len() > 0 ==> stmnt_started_by(nodes@[0], start.curr.kind),
            ensures
                self.follows(&start),
                self.curr.kind.spec_is_terminator(),
                ids_in(stmnts_ids(nodes@), start.ctx.next() as int, self.ctx.next() as int),
                (nodes@.len() == 0) == start.curr.kind.spec_is_terminator(),
                nodes@.len() > 0 ==> stmnt_started_by(nodes@[0], start.curr.kind),
            decreases self.measure(),
        {
            if self.curr.kind.is_terminator() {
                break;
            }
            let ghost prev = nodes@;
            let ghost mid = self.ctx.next() as int;
            let st = self.stmnt()?;
            let ghost st_ids = stmnt_ids(st);
            nodes.push(st);
            proof {
                assert(nodes@.drop_last() =~= prev);
                lemma_ids_concat(stmnts_ids(prev), st_ids, start.ctx.next() as int, mid, self.ctx.next() as int);
            }
        }
        let ghost mid = self.ctx.next() as int;
        let id = self.fresh_id()?;
        let span = span.enclosing_to(&self.curr.span);
        let b = Block { nodes, id, span };
        proof {
            lemma_ids_concat(stmnts_ids(b.nodes@), seq![id.0], old(self).ctx.next() as int, mid, self.ctx.next() as int);
            assert(block_ids(b) =~= stmnts_ids(b.nodes@) + seq![id.0]);
        }
        Ok(b)
    }

    /// Parameters `key: value`, separated by commas and newlines, up to a terminator.
    fn params_ident_ty(&mut self) -> (r: Result<Vec<(Ident, Ty)>>)
        requires
            old(self).wf(),
        ensures
            r is Ok ==> final(self).follows(old(self)) && final(self).curr.kind.spec_is_terminator(),
            r matches Ok(v) ==> final(self).made(old(self), local_params_ids(v@)),
    {
        let mut args: Vec<(Ident, Ty)> = Vec::new();
        let ghost start = *self;
        proof {
            assert(local_params_ids(args@) =~= Seq::<u32>::empty());
        }
        loop
            invariant
                start == *old(self),
                self.follows(&start),
                ids_in(local_params_ids(args@), start.ctx.next() as int, self.ctx.next() as int),
            ensures
                self.follows(&start),
                self.curr.kind.spec_is_terminator(),
                ids_in(local_params_ids(args@), start.ctx.next() as int, self.ctx.next() as int),
            decreases self.measure(),
        {
            self.skip_whitespace()?;
            if self.curr.kind.is_terminator() {
                break;
            }
            let ghost prev = args@;
            let ghost m0 = self.ctx.next() as int;
            let key = self.ident()?;
            let ghost m1 = self.ctx.next() as int;
            self.consume(TokenKind::Colon)?;
            let val = self.ty()?;
            let ghost key_ids = seq![key.id.0];
            let ghost val_ids = ty_ids(val);
            args.push((key, val));
            proof {
                let lo = start.ctx.next() as int;
                assert(args@.drop_last() =~= prev);
                lemma_ids_concat(local_params_ids(prev), key_ids, lo, m0, m1);
                lemma_ids_concat(local_params_ids(prev) + key_ids, val_ids, lo, m1, self.ctx.next() as int);
            }
            if self.at(TokenKind::Comma) {
                self.advance()?;
            }
        }
        Ok(args)
    }

    fn params_name_ty(&mut self) -> (r: Result<Vec<(Name, Ty)>>)
        requires
            old(self).wf(),
        ensures
            r is Ok ==> final(self).follows(old(self)) && final(self).curr.kind.spec_is_terminator(),
            r matches Ok(v) ==> final(self).made(old(self), named_tys_ids(v@)),
    {
        let mut args: Vec<(Name, Ty)> = Vec::new();
        let ghost start = *self;
        proof {
            assert(named_tys_ids(args@) =~= Seq::<u32>::empty());
        }
        loop
            invariant
                start == *old(self),
                self.follows(&start),
                ids_in(named_tys_ids(args@), start.ctx.next() as int, self.ctx.next() as int),
            ensures
                self.follows(&start),
                self.curr.kind.spec_is_terminator(),
                ids_in(named_tys_ids(args@), start.ctx.next() as int, self.ctx.next() as int),
            decreases self.measure(),
        {
            self.skip_whitespace()?;
            if self.curr.kind.is_terminator() {
                break;
            }
            let key = self.name()?;
            self.consume(TokenKind::Colon)?;
            let ghost prev = args@;
            let ghost m0 = self.ctx.next() as int;
            let val = self.ty()?;
            let ghost val_ids = ty_ids(val);
            args.push((key, val));
            proof {
                assert(args@.drop_last() =~= prev);
                lemma_ids_concat(named_tys_ids(prev), val_ids, start.ctx.next() as int, m0, self.ctx.next() as int);
            }
            if self.at(TokenKind::Comma) {
                self.advance()?;
            }
        }
        Ok(args)
    }

    fn params_name_expr(&mut self) -> (r: Result<Vec<(Name, Expr)>>)
        requires
            old(self).wf(),
        ensures
            r is Ok ==> final(self).follows(old(self)) && final(self).curr.kind.spec_is_terminator(),
            r matches Ok(v) ==> final(self).made(old(self), fields_ids(v@)),
        decreases old(self).measure(), 6int,
    {
        let mut args: Vec<(Name, Expr)> = Vec::new();
        let ghost start = *self;
        proof {
            assert(fields_ids(args@) =~= Seq::<u32>::empty());
        }
        loop
            invariant
                start == *old(self),
                self.follows(&start),
                ids_in(fields_ids(args@), start.ctx.next() as int, self.ctx.next() as int),
            ensures
                self.follows(&start),
                self.curr.kind.spec_is_terminator(),
                ids_in(fields_ids(args@), start.ctx.next() as int, self.ctx.next() as int),
            decreases self.measure(),
        {
            self.skip_whitespace()?;
            if self.curr.kind.is_terminator() {
                break;
            }
            let key = self.name()?;
            self.consume(TokenKind::Colon)?;
            let ghost prev = args@;
            let ghost mid = self.ctx.next() as int;
            let val = self.expr_lowest()?;
            let ghost val_ids = expr_ids(val);
            args.push((key, val));
            proof {
                assert(args@.drop_last() =~= prev);
                lemma_ids_concat(fields_ids(prev), val_ids, start.ctx.next() as int, mid, self.ctx.next() as int);
            }
            if self.at(TokenKind::Comma) {
                self.advance()?;
            }
        }
        Ok(args)
    }

    fn stmnt(&mut self) -> (r: Result<Stmnt>)
        requires
            old(self).wf(),
        ensures
            r matches Ok(st) ==> {
                &&& final(self).advanced(old(self))
                &&& final(self).covers(old(self), stmnt_span(st))
                &&& final(self).curr.kind != TokenKind::Newline
                &&& final(self).made(old(self), stmnt_ids(st))
                &&& stmnt_started_by(st, old(self).curr.kind)
                &&& match old(self).curr.kind {
                    TokenKind::Let => st is Let,
                    TokenKind::Ret => st matches Stmnt::Ret(ret) && old(self).next_starts(ret.val),
                    k => st matches Stmnt::Expr(e) && started_by(leftmost(e), k),
                }
            },
            !starts_expr(old(self).curr.kind) && old(self).curr.kind != TokenKind::Let
                && old(self).curr.kind != TokenKind::Ret ==> r matches Err(ParseError::Todo { .. }),
        decreases old(self).measure(), 5int,
    {
        let stmnt = match self.curr.kind {
            TokenKind::Let => Stmnt::Let(self.let_stmnt()?),
            TokenKind::Ret => {
                let span = self.curr.span;
                self.consume(TokenKind::Ret)?;
                let val = self.expr(Prec::Lowest)?;
                let span = span.enclosing_to(&self.curr.span);
                Stmnt::Ret(Ret { val, span })
            },
            _ => Stmnt::Expr(self.expr(Prec::Lowest)?),
        };
        self.skip_whitespace()?;
        Ok(stmnt)
    }

    fn let_stmnt(&mut self) -> (r: Result<Let>)
        requires
            old(self).wf(),
        ensures
            r matches Ok(l) ==> {
                &&& final(self).advanced(old(self))
                &&& final(self).covers(old(self), l.span)
                &&& old(self).curr.kind == TokenKind::Let
                &&& l.mutable == old(self).next_is(TokenKind::Mut)
                &&& final(self).made(old(self), let_ids(l))
                &&& !l.mutable ==> l.ident.inner@ == old(self).next_text()
            },
        decreases old(self).measure(), 4int,
    {
        let span = self.curr.span;
        self.consume(TokenKind::Let)?;
        let mutable = self.accept(TokenKind::Mut)?.is_some();
        let ident = self.ident()?;
        let ghost m1 = self.ctx.next() as int;
        let ty = if self.accept(TokenKind::Colon)?.is_some() {
            Some(self.ty()?)
        } else {
            None
        };
        let ghost ty_part = opt_ty_ids(ty);
        self.consume(TokenKind::Assign)?;
        let ghost m2 = self.ctx.next() as int;
        let val = self.expr(Prec::Lowest)?;
        let span = span.enclosing_to(&val.span());
        let l = Let { span, mutable, ident, ty, val };
        proof {
            let lo = old(self).ctx.next() as int;
            lemma_ids_concat(seq![l.ident.id.0], ty_part, lo, m1, m2);
            lemma_ids_concat(seq![l.ident.id.0] + ty_part, expr_ids(l.val), lo, m2, self.ctx.next() as int);
            assert(let_ids(l) =~= seq![l.ident.id.0] + ty_part + expr_ids(l.val));
        }
        Ok(l)
    }

    fn if_expr(&mut self) -> (r: Result<IfElse>)
        requires
            old(self).wf(),
        ensures
            r matches Ok(ie) ==> {
                &&& final(self).advanced(old(self))
                &&& final(self).covers(old(self), ie.span)
                &&& old(self).curr.kind == TokenKind::If
                &&& old(self).next_starts(*ie.condition)
                &&& final(self).made(old(self), expr_ids(Expr::IfElse(ie)))
            },
        decreases old(self).measure(), 2int,
    {
        let span = self.curr.span;
        self.consume(TokenKind::If)?;
        let condition = self.expr(Prec::Lowest)?;
        let ghost m1 = self.ctx.next() as int;
        self.consume(TokenKind::Then)?;
        self.accept(TokenKind::Newline)?;
        let consequence = self.block()?;
        let ghost m2 = self.ctx.next() as int;
        let alternative = if self.at(TokenKind::Else) {
            self.advance()?;
            self.skip_whitespace()?;
            Some(self.block()?)
        } else {
            None
        };
        let ghost alt_ids = opt_block_ids(alternative);
        let ghost m3 = self.ctx.next() as int;
        let id = self.fresh_id()?;
        let tok = self.consume(TokenKind::End)?;
        let span = span.enclosing_to(&tok.span);
        let ie = IfElse { condition: Box::new(condition), consequence, alternative, id, span };
        proof {
            let lo = old(self).ctx.next() as int;
            let c = expr_ids(*ie.condition);
            let k = block_ids(ie.consequence);
            lemma_ids_concat(c, k, lo, m1, m2);
            lemma_ids_concat(c + k, alt_ids, lo, m2, m3);
            lemma_ids_concat(c + k + alt_ids, seq![id.0], lo, m3, self.ctx.next() as int);
            assert(expr_ids(Expr::IfElse(ie)) =~= c + k + alt_ids + seq![id.0]);
        }
        Ok(ie)
    }

    fn unary(&mut self, op: Op<UnaryOpKind>) -> (r: Result<Unary>)
        requires
            old(self).wf(),
            op.span.offset <= old(self).curr.span.offset,
        ensures
            r matches Ok(u) ==> {
                &&& final(self).advanced(old(self))
                &&& u.span.offset == op.span.offset
                &&& u.span.offset <= final(self).curr.span.offset
                &&& span_end(u.span) <= final(self).input_len()
                &&& u.op == op
                &&& final(self).made(old(self), expr_ids(Expr::Unary(u)))
                &&& started_by(leftmost(*u.rhs), old(self).curr.kind)
                &&& grouped(*u.rhs, prec_rank(Prec::Lowest))
                &&& read_from(*u.rhs, old(self).lex.bytes())
            },
        decreases old(self).measure(), 4int,
    {
        let rhs = self.expr(Prec::Lowest)?;
        let ghost mid = self.ctx.next() as int;
        let id = self.fresh_id()?;
        let span = op.span.enclosing_to(&rhs.span());
        proof {
            lemma_ids_concat(expr_ids(rhs), seq![id.0], old(self).ctx.next() as int, mid, self.ctx.next() as int);
        }
        Ok(Unary { op, rhs: Box::new(rhs), id, span })
    }

    fn binop_expr(&mut self, lhs: Expr) -> (r: Result<Expr>)
        requires
            old(self).wf(),
            expr_span(lhs).offset <= old(self).curr.span.offset,
        ensures
            r matches Ok(e) ==> {
                &&& final(self).advanced(old(self))
                &&& expr_span(e).offset == expr_span(lhs).offset
                &&& expr_span(e).offset <= final(self).curr.span.offset
                &&& span_end(expr_span(e)) <= final(self).input_len()
                &&& e matches Expr::BinOp(b) && *b.lhs == lhs && binop_of(old(self).curr.kind) == Some(
                    b.op.kind,
                ) && b.op.span == old(self).curr.span && old(self).next_starts(*b.rhs)
                    && op_rank(b.op.kind) == prec_rank(prec_of(old(self).curr.kind)) && grouped(
                    *b.rhs,
                    op_rank(b.op.kind),
                )
                &&& stops_expr(final(self).curr.kind, prec_of(old(self).curr.kind))
                &&& (read_from(lhs, old(self).lex.bytes()) ==> read_from(e, old(self).lex.bytes()))
                &&& extends(expr_ids(e), expr_ids(lhs), old(self).ctx.next() as int, final(self).ctx.next() as int)
            },
        decreases old(self).measure(), 2int,
    {
        let (op, prec) = self.bin_op()?;
        let rhs = self.expr(prec)?;
        let ghost mid = self.ctx.next() as int;
        let id = self.fresh_id()?;
        let span = lhs.span().enclosing_to(&rhs.span());
        let ghost lhs_ids = expr_ids(lhs);
        let ghost rest = expr_ids(rhs) + seq![id.0];
        let e = Expr::BinOp(BinOp { lhs: Box::new(lhs), op, rhs: Box::new(rhs), id, span });
        proof {
            lemma_ids_concat(expr_ids(rhs), seq![id.0], old(self).ctx.next() as int, mid, self.ctx.next() as int);
            assert(expr_ids(e) =~= lhs_ids + rest);
            assert((lhs_ids + rest).take(lhs_ids.len() as int) =~= lhs_ids);
            assert((lhs_ids + rest).skip(lhs_ids.len() as int) =~= rest);
        }
        Ok(e)
    }

    fn call_expr(&mut self, expr: Expr) -> (r: Result<Expr>)
        requires
            old(self).wf(),
            expr_span(expr).offset <= old(self).curr.span.offset,
        ensures
            r matches Ok(e) ==> {
                &&& final(self).advanced(old(self))
                &&& expr_span(e).offset == expr_span(expr).offset
                &&& expr_span(e).offset <= final(self).curr.span.offset
                &&& span_end(expr_span(e)) <= final(self).input_len()
                &&& old(self).curr.kind == TokenKind::LParen
                &&& e matches Expr::Call(c) && *c.func == expr && (c.params@.len() == 0) == old(
                    self,
                ).next_is(TokenKind::RParen)
                &&& extends(expr_ids(e), expr_ids(expr), old(self).ctx.next() as int, final(self).ctx.next() as int)
            },
        decreases old(self).measure(), 2int,
    {
        self.consume(TokenKind::LParen)?;
        let params = if self.at(TokenKind::RParen) {
            Vec::new()
        } else {
            self.expr_list()?
        };
        let tok = self.consume(TokenKind::RParen)?;
        let ghost mid = self.ctx.next() as int;
        let id = self.fresh_id()?;
        let span = expr.span().enclosing_to(&tok.span);
        let ghost head = expr_ids(expr);
        let ghost rest = exprs_ids(params@) + seq![id.0];
        let e = Expr::Call(Call { func: Box::new(expr), params, id, span });
        proof {
            lemma_ids_concat(exprs_ids(params@), seq![id.0], old(self).ctx.next() as int, mid, self.ctx.next() as int);
            assert(expr_ids(e) =~= head + rest);
            assert((head + rest).take(head.len() as int) =~= head);
            assert((head + rest).skip(head.len() as int) =~= rest);
        }
        Ok(e)
    }

    fn index_expr(&mut self, expr: Expr) -> (r: Result<Expr>)
        requires
            old(self).wf(),
            expr_span(expr).offset <= old(self).curr.span.offset,
        ensures
            r matches Ok(e) ==> {
                &&& final(self).advanced(old(self))
                &&& expr_span(e).offset == expr_span(expr).offset
                &&& expr_span(e).offset <= final(self).curr.span.offset
                &&& span_end(expr_span(e)) <= final(self).input_len()
                &&& old(self).curr.kind == TokenKind::LBracket
                &&& e matches Expr::Index(i) && *i.expr == expr && old(self).next_starts(*i.idx)
                    && read_from(*i.idx, old(self).lex.bytes())
                &&& extends(expr_ids(e), expr_ids(expr), old(self).ctx.next() as int, final(self).ctx.next() as int)
            },
        decreases old(self).measure(), 2int,
    {
        self.consume(TokenKind::LBracket)?;
        let idx = self.expr(Prec::Lowest)?;
        let tok = self.consume(TokenKind::RBracket)?;
        let ghost mid = self.ctx.next() as int;
        let id = self.fresh_id()?;
        let span = expr.span().enclosing_to(&tok.span);
        let ghost head = expr_ids(expr);
        let ghost rest = expr_ids(idx) + seq![id.0];
        let e = Expr::Index(Index { expr: Box::new(expr), idx: Box::new(idx), id, span });
        proof {
            lemma_ids_concat(expr_ids(idx), seq![id.0], old(self).ctx.next() as int, mid, self.ctx.next() as int);
            assert(expr_ids(e) =~= head + rest);
            assert((head + rest).take(head.len() as int) =~= head);
            assert((head + rest).skip(head.len() as int) =~= rest);
        }
        Ok(e)
    }

    fn member_access(&mut self, lhs: Expr) -> (r: Result<Expr>)
        requires
            old(self).wf(),
            expr_span(lhs).offset <= old(self).curr.span.offset,
        ensures
            r matches Ok(e) ==> {
                &&& final(self).advanced(old(self))
                &&& expr_span(e).offset == expr_span(lhs).offset
                &&& expr_span(e).offset <= final(self).curr.span.offset
                &&& span_end(expr_span(e)) <= final(self).input_len()
                &&& old(self).curr.kind == TokenKind::Dot
                &&& old(self).next_is(TokenKind::Ident)
                &&& e matches Expr::MemberAccess(m) && *m.lhs == lhs && m.rhs.inner@ == old(
                    self,
                ).next_text() && encode_utf8(m.rhs.inner@) == span_text(old(self).lex.bytes(), m.rhs.span)
                &&& extends(expr_ids(e), expr_ids(lhs), old(self).ctx.next() as int, final(self).ctx.next() as int)
            },
    {
        self.consume(TokenKind::Dot)?;
        let rhs = self.name()?;
        let id = self.fresh_id()?;
        let span = lhs.span().enclosing_to(&rhs.span);
        let ghost head = expr_ids(lhs);
        let e = Expr::MemberAccess(MemberAccess { id, span, lhs: Box::new(lhs), rhs });
        proof {
            assert(expr_ids(e) =~= head + seq![id.0]);
            assert((head + seq![id.0]).take(head.len() as int) =~= head);
            assert((head + seq![id.0]).skip(head.len() as int) =~= seq![id.0]);
        }
        Ok(e)
    }

    fn assign(&mut self, lhs: Expr) -> (r: Result<Expr>)
        requires
            old(self).wf(),
            expr_span(lhs).offset <= old(self).curr.span.offset,
        ensures
            r matches Ok(e) ==> {
                &&& final(self).advanced(old(self))
                &&& expr_span(e).offset == expr_span(lhs).offset
                &&& expr_span(e).offset <= final(self).curr.span.offset
                &&& span_end(expr_span(e)) <= final(self).input_len()
                &&& old(self).curr.kind == TokenKind::Assign
                &&& e matches Expr::Assign(a) && *a.lhs == lhs && old(self).next_starts(*a.rhs)
                    && grouped(*a.rhs, prec_rank(Prec::Lowest)) && read_from(*a.rhs, old(self).lex.bytes())
                &&& extends(expr_ids(e), expr_ids(lhs), old(self).ctx.next() as int, final(self).ctx.next() as int)
            },
        decreases old(self).measure(), 2int,
    {
        self.consume(TokenKind::Assign)?;
        let id = self.fresh_id()?;
        let ghost mid = self.ctx.next() as int;
        let rhs = self.expr(Prec::Lowest)?;
        let span = lhs.span().enclosing_to(&rhs.span());
        let ghost head = expr_ids(lhs);
        let ghost rest = seq![id.0] + expr_ids(rhs);
        let e = Expr::Assign(Assign { id, span, lhs: Box::new(lhs), rhs: Box::new(rhs) });
        proof {
            lemma_ids_concat(seq![id.0], expr_ids(rhs), old(self).ctx.next() as int, mid, self.ctx.next() as int);
            assert(expr_ids(e) =~= head + rest);
            assert((head + rest).take(head.len() as int) =~= head);
            assert((head + rest).skip(head.len() as int) =~= rest);
        }
        Ok(e)
    }

    fn while_loop(&mut self) -> (r: Result<While>)
        requires
            old(self).wf(),
        ensures
            r matches Ok(w) ==> {
                &&& final(self).advanced(old(self))
                &&& final(self).covers(old(self), w.span)
                &&& w.label is None
                &&& old(self).curr.kind == TokenKind::While
                &&& old(self).next_starts(*w.condition)
                &&& final(self).made(old(self), expr_ids(Expr::While(w)))
            },
        decreases old(self).measure(), 2int,
    {
        let span = self.curr.span();
        self.consume(TokenKind::While)?;
        let condition = self.expr(Prec::Lowest)?;
        let ghost m1 = self.ctx.next() as int;
        self.consume(TokenKind::Do)?;
        self.skip_whitespace()?;
        let consequence = self.block()?;
        let end = self.consume(TokenKind::End)?;
        let span = span.enclosing_to(&end.span);
        let ghost m2 = self.ctx.next() as int;
        let id = self.fresh_id()?;
        let w = While { id, span, label: None, condition: Box::new(condition), consequence };
        proof {
            let lo = old(self).ctx.next() as int;
            let c = expr_ids(*w.condition);
            let k = block_ids(w.consequence);
            lemma_ids_concat(c, k, lo, m1, m2);
            lemma_ids_concat(c + k, seq![id.0], lo, m2, self.ctx.next() as int);
            assert(expr_ids(Expr::While(w)) =~= c + k + seq![id.0]);
        }
        Ok(w)
    }

    /// An expression whose operators bind tighter than `prec`.
    pub fn expr(&mut self, prec: Prec) -> (r: Result<Expr>)
        requires
            old(self).wf(),
        ensures
            r matches Ok(e) ==> {
                &&& final(self).advanced(old(self))
                &&& final(self).covers(old(self), expr_span(e))
                &&& stops_expr(final(self).curr.kind, prec)
                &&& started_by(leftmost(e), old(self).curr.kind)
                &&& final(self).made(old(self), expr_ids(e))
                &&& grouped(e, prec_rank(prec))
                &&& read_from(e, old(self).lex.bytes())
            },
            !starts_expr(old(self).curr.kind) ==> r matches Err(ParseError::Todo { .. }),
            atom_token(old(self).curr) && (old(self).next matches Some(t) && stops_expr(t.kind, prec))
                && old(self).reads_next() && old(self).has_ids() ==> r is Ok,
        decreases old(self).measure(), 3int,
    {
        let mut lhs = match self.curr.kind {
            TokenKind::Num(_) => Expr::Literal(self.int_lit()?),
            TokenKind::True | TokenKind::False => Expr::Literal(self.bool_lit()?),
            TokenKind::String => Expr::Literal(self.str_lit()?),
            TokenKind::Ident => Expr::Ident(self.ident()?),
            TokenKind::If => Expr::IfElse(self.if_expr()?),
            TokenKind::LBracket => Expr::List(self.list()?),
            TokenKind::While => Expr::While(self.while_loop()?),
            TokenKind::Sub | TokenKind::Bang => {
                let (op, _prec) = self.unary_op()?;
                let unary = self.unary(op)?;
                Expr::Unary(unary)
            },
            _ => {
                return Err(self.unexpected());
            },
        };
        let ghost first = leftmost(lhs);
        assert(started_by(first, old(self).curr.kind));
        if self.at(TokenKind::Eof) {
            return Ok(lhs);
        }
        let ghost start = *old(self);
        let ghost alone = atom_token(old(self).curr) && (old(self).next matches Some(t) && stops_expr(
            t.kind,
            prec,
        )) && old(self).reads_next() && old(self).has_ids();
        assert(alone ==> stops_expr(self.curr.kind, prec));
        loop
            invariant
                alone ==> stops_expr(self.curr.kind, prec),
                alone == (atom_token(old(self).curr) && (old(self).next matches Some(t) && stops_expr(
                    t.kind,
                    prec,
                )) && old(self).reads_next() && old(self).has_ids()),
                start == *old(self),
                self.advanced(&start),
                self.covers(&start, expr_span(lhs)),
                leftmost(lhs) == first,
                starts_expr(old(self).curr.kind),
                ids_in(expr_ids(lhs), start.ctx.next() as int, self.ctx.next() as int),
                grouped(lhs, prec_rank(prec)),
                read_from(lhs, start.lex.bytes()),
                lhs matches Expr::BinOp(b) ==> (self.curr.kind == TokenKind::Eof || self.curr.kind
                    == TokenKind::Newline || self.curr.kind.spec_is_terminator() || prec_rank(
                    prec_of(self.curr.kind),
                ) <= op_rank(b.op.kind)),
            ensures
                self.advanced(&start),
                self.covers(&start, expr_span(lhs)),
                stops_expr(self.curr.kind, prec),
                leftmost(lhs) == first,
                ids_in(expr_ids(lhs), start.ctx.next() as int, self.ctx.next() as int),
                grouped(lhs, prec_rank(prec)),
                read_from(lhs, start.lex.bytes()),
            decreases self.measure(),
        {
            let next_prec = Prec::from(&self.curr);
            if !prec.lt(&next_prec) {
                break;
            }
            if self.curr.kind.is_terminator() {
                break;
            }
            let ghost before = expr_ids(lhs);
            let ghost mid = self.ctx.next() as int;
            if self.curr.kind.is_operator() {
                lhs = self.binop_expr(lhs)?;
            } else {
                match self.curr.kind {
                    TokenKind::LParen => {
                        lhs = self.call_expr(lhs)?;
                    },
                    TokenKind::LSquirly => {
                        match lhs {
                            Expr::Ident(ident) => {
                                lhs = self.struct_constructor(ident)?;
                            },
                            _ => {
                                return Err(self.unexpected());
                            },
                        }
                    },
                    TokenKind::LBracket => {
                        lhs = self.index_expr(lhs)?;
                    },
                    TokenKind::Dot => {
                        lhs = self.member_access(lhs)?;
                    },
                    TokenKind::Newline => {
                        return Ok(lhs);
                    },
                    TokenKind::Assign => {
                        lhs = self.assign(lhs)?;
                    },
                    _ => {
                        return Err(self.unexpected());
                    },
                }
            }
            proof {
                lemma_ids_extends(expr_ids(lhs), before, start.ctx.next() as int, mid, self.ctx.next() as int);
            }
        }
        Ok(lhs)
    }

    /// An expression at the lowest precedence.
    pub fn expr_lowest(&mut self) -> (r: Result<Expr>)
        requires
            old(self).wf(),
        ensures
            r matches Ok(e) ==> {
                &&& final(self).advanced(old(self))
                &&& final(self).covers(old(self), expr_span(e))
                &&& stops_expr(final(self).curr.kind, Prec::Lowest)
                &&& started_by(leftmost(e), old(self).curr.kind)
                &&& final(self).made(old(self), expr_ids(e))
                &&& grouped(e, prec_rank(Prec::Lowest))
                &&& read_from(e, old(self).lex.bytes())
            },
            !starts_expr(old(self).curr.kind) ==> r matches Err(ParseError::Todo { .. }),
            atom_token(old(self).curr) && (old(self).next matches Some(t) && stops_expr(
                t.kind,
                Prec::Lowest,
            )) && old(self).reads_next() && old(self).has_ids() ==> r is Ok,
        decreases old(self).measure(), 4int,
    {
        self.expr(Prec::Lowest)
    }

    /// Expressions separated by commas; none before a `]`.
    fn expr_list(&mut self) -> (r: Result<Vec<Expr>>)
        requires
            old(self).wf(),
        ensures
            r matches Ok(v) ==> {
                &&& final(self).follows(old(self))
                &&& final(self).made(old(self), exprs_ids(v@))
                &&& (v@.len() == 0) == (old(self).curr.kind == TokenKind::RBracket)
                &&& v@.len() == 0 ==> final(self).curr.kind == TokenKind::RBracket
                &&& v@.len() > 0 ==> started_by(leftmost(v@[0]), old(self).curr.kind)
            },
        decreases old(self).measure(), 6int,
    {
        if self.at(TokenKind::RBracket) {
            proof {
                assert(exprs_ids(Seq::<Expr>::empty()) =~= Seq::<u32>::empty());
            }
            return Ok(Vec::new());
        }
        let head = self.expr(Prec::Lowest)?;
        let mut tail: Vec<Expr> = Vec::new();
        tail.push(head);
        let ghost start = *old(self);
        proof {
            assert(tail@.drop_last() =~= Seq::<Expr>::empty());
            assert(exprs_ids(Seq::<Expr>::empty()) =~= Seq::<u32>::empty());
            assert(exprs_ids(tail@) =~= expr_ids(tail@.last()));
        }
        loop
            invariant
                start == *old(self),
                self.advanced(&start),
                ids_in(exprs_ids(tail@), start.ctx.next() as int, self.ctx.next() as int),
                tail@.len() > 0,
                started_by(leftmost(tail@[0]), start.curr.kind),
            decreases self.measure(),
        {
            if self.curr.kind != TokenKind::Comma {
                break;
            }
            self.consume(TokenKind::Comma)?;
            let ghost prev = tail@;
            let ghost mid = self.ctx.next() as int;
            let item = self.expr(Prec::Lowest)?;
            let ghost item_ids = expr_ids(item);
            tail.push(item);
            proof {
                assert(tail@.drop_last() =~= prev);
                lemma_ids_concat(exprs_ids(prev), item_ids, start.ctx.next() as int, mid, self.ctx.next() as int);
            }
        }
        Ok(tail)
    }

    fn list(&mut self) -> (r: Result<List>)
        requires
            old(self).wf(),
        ensures
            r matches Ok(l) ==> {
                &&& final(self).advanced(old(self))
                &&& final(self).covers(old(self), l.span)
                &&& final(self).made(old(self), expr_ids(Expr::List(l)))
                &&& old(self).curr.kind == TokenKind::LBracket
                &&& (l.items@.len() == 0) == old(self).next_is(TokenKind::RBracket)
                &&& l.items@.len() > 0 ==> old(self).next_starts(l.items@[0])
            },
        decreases old(self).measure(), 2int,
    {
        let span = self.curr.span();
        self.consume(TokenKind::LBracket)?;
        let items = self.expr_list()?;
        let tok = self.consume(TokenKind::RBracket)?;
        let ghost mid = self.ctx.next() as int;
        let id = self.fresh_id()?;
        let span = span.enclosing_to(&tok.span());
        let l = List { items, id, span };
        proof {
            lemma_ids_concat(exprs_ids(l.items@), seq![id.0], old(self).ctx.next() as int, mid, self.ctx.next() as int);
            assert(expr_ids(Expr::List(l)) =~= exprs_ids(l.items@) + seq![id.0]);
        }
        Ok(l)
    }

    fn struct_constructor(&mut self, ident: Ident) -> (r: Result<Expr>)
        requires
            old(self).wf(),
            ident.span.offset <= old(self).curr.span.offset,
        ensures
            r matches Ok(e) ==> {
                &&& final(self).advanced(old(self))
                &&& expr_span(e).offset == ident.span.offset
                &&& expr_span(e).offset <= final(self).curr.span.offset
                &&& span_end(expr_span(e)) <= final(self).input_len()
                &&& old(self).curr.kind == TokenKind::LSquirly
                &&& e matches Expr::Constructor(c) && c.ident == ident
                &&& extends(expr_ids(e), expr_ids(Expr::Ident(ident)), old(self).ctx.next() as int, final(self).ctx.next() as int)
            },
        decreases old(self).measure(), 2int,
    {
        self.consume(TokenKind::LSquirly)?;
        let fields = self.params_name_expr()?;
        let tok = self.consume(TokenKind::RSquirly)?;
        let ghost mid = self.ctx.next() as int;
        let id = self.fresh_id()?;
        let span = ident.span.enclosing_to(&tok.span());
        let ghost head = seq![ident.id.0];
        let ghost rest = fields_ids(fields@) + seq![id.0];
        let ghost name = ident;
        let e = Expr::Constructor(Constructor { ident, fields, id, span });
        proof {
            lemma_ids_concat(fields_ids(fields@), seq![id.0], old(self).ctx.next() as int, mid, self.ctx.next() as int);
            assert(expr_ids(Expr::Ident(name)) == head);
            assert(expr_ids(e) =~= head + rest);
            assert((head + rest).take(head.len() as int) =~= head);
            assert((head + rest).skip(head.len() as int) =~= rest);
        }
        Ok(e)
    }
}

impl<'src> Parser<'src> {
    /// Parses the whole input into a module of items.
    pub fn parse(&mut self) -> (r: Result<Module>)
        requires
            old(self).wf(),
        ensures
            r is Ok ==> final(self).follows(old(self)) && final(self).curr.kind == TokenKind::Eof,
            r matches Ok(m) ==> final(self).made(old(self), module_ids(m)),
            r matches Ok(m) ==> (m.items@.len() == 0) == (old(self).curr.kind == TokenKind::Eof),
            r matches Ok(m) ==> old(self).curr.kind != TokenKind::Newline && m.items@.len() > 0
                ==> item_started_by(m.items@[0], old(self).curr.kind),
            old(self).curr.kind == TokenKind::Eof ==> (r matches Ok(m) && m.items@.len() == 0),
            old(self).lone_use() ==> (r matches Ok(m) && m.items@.len() == 1 && use_of(
                m.items@[0],
                old(self).next_text(),
            )),
            old(self).curr.kind != TokenKind::Eof && old(self).curr.kind != TokenKind::Newline
                && !matches!(old(self).curr.kind, TokenKind::Fn | TokenKind::Extern | TokenKind::Use | TokenKind::Struct | TokenKind::Impl)
                ==> r matches Err(ParseError::Todo { .. }),
    {
        let mut items: Vec<Item> = Vec::new();
        let ghost start = *self;
        proof {
            assert(items_ids(items@) =~= Seq::<u32>::empty());
        }
        loop
            invariant
                start == *old(self),
                self.follows(&start),
                ids_in(items_ids(items@), start.ctx.next() as int, self.ctx.next() as int),
                items@.len() == 0 ==> *self == start,
                items@.len() > 0 ==> start.curr.kind != TokenKind::Eof,
                items@.len() > 0 && start.curr.kind != TokenKind::Newline ==> item_started_by(
                    items@[0],
                    start.curr.kind,
                ),
                start.lone_use() ==> items@.len() <= 1,
                start.lone_use() && items@.len() == 1 ==> use_of(items@[0], start.next_text())
                    && self.curr.kind == TokenKind::Eof,
            ensures
                self.follows(&start),
                self.curr.kind == TokenKind::Eof,
                ids_in(items_ids(items@), start.ctx.next() as int, self.ctx.next() as int),
                (items@.len() == 0) == (start.curr.kind == TokenKind::Eof),
                items@.len() > 0 && start.curr.kind != TokenKind::Newline ==> item_started_by(
                    items@[0],
                    start.curr.kind,
                ),
                start.lone_use() ==> items@.len() <= 1,
                start.lone_use() && items@.len() == 1 ==> use_of(items@[0], start.next_text()),
            decreases self.measure(),
        {
            if self.at(TokenKind::Eof) {
                break;
            }
            self.skip_whitespace()?;
            let ghost prev = items@;
            let ghost mid = self.ctx.next() as int;
            match self.item() {
                Ok(item) => {
                    let ghost item_g = item;
                    items.push(item);
                    proof {
                        assert(items@.drop_last() =~= prev);
                        lemma_ids_concat(items_ids(prev), item_ids(item_g), start.ctx.next() as int, mid, self.ctx.next() as int);
                    }
                },
                Err(err) => {
                    return Err(err);
                },
            }
        }
        Ok(Module { items })
    }

    /// An item: a function, an external function, a `use`, a struct or an impl.
    pub fn item(&mut self) -> (r: Result<Item>)
        requires
            old(self).wf(),
        ensures
            r is Ok ==> final(self).advanced(old(self)) && final(self).curr.kind != TokenKind::Newline,
            r matches Ok(i) ==> final(self).made(old(self), item_ids(i)),
            r matches Ok(i) ==> item_started_by(i, old(self).curr.kind),
            r matches Ok(i) ==> match old(self).curr.kind {
                TokenKind::Fn => i matches Item::Fn(f) && f.kind is Local && f.ident.inner@ == old(
                    self,
                ).next_text(),
                TokenKind::Extern => i matches Item::Fn(f) && f.kind is Extern,
                TokenKind::Use => i is Use,
                TokenKind::Struct => i matches Item::StructDef(d) && d.ident.inner@ == old(
                    self,
                ).next_text(),
                TokenKind::Impl => i matches Item::Impl(m) && m.ident.inner@ == old(
                    self,
                ).next_text(),
                _ => false,
            },
            !matches!(old(self).curr.kind, TokenKind::Fn | TokenKind::Extern | TokenKind::Use | TokenKind::Struct | TokenKind::Impl)
                ==> r matches Err(ParseError::Todo { .. }),
            old(self).curr.kind == TokenKind::Use && old(self).reads_all() && (old(self).next_is(
                TokenKind::Ident,
            ) || old(self).next_is(TokenKind::Extern) && old(self).third_is(TokenKind::Ident))
                ==> r is Ok,
            old(self).lone_use() ==> (r matches Ok(i) && use_of(i, old(self).next_text())
                && final(self).curr.kind == TokenKind::Eof),
    {
        let item = match self.curr.kind {
            TokenKind::Fn => Item::Fn(self.func()?),
            TokenKind::Extern => Item::Fn(self.extern_func()?),
            TokenKind::Use => Item::Use(self.use_item()?),
            TokenKind::Struct => Item::StructDef(self.struct_def()?),
            TokenKind::Impl => Item::Impl(self.imp()?),
            _ => {
                return Err(self.unexpected());
            },
        };
        self.skip_whitespace()?;
        Ok(item)
    }

    /// `func name(params) -> type`, its statements, and `end`.
    fn func(&mut self) -> (r: Result<Fn>)
        requires
            old(self).wf(),
        ensures
            r matches Ok(f) ==> {
                &&& old(self).curr.kind == TokenKind::Fn
                &&& f.kind is Local
                &&& final(self).advanced(old(self))
                &&& final(self).covers(old(self), f.span)
                &&& f.ident.inner@ == old(self).next_text()
                &&& final(self).made(old(self), fn_ids(f))
            },
            old(self).curr.kind != TokenKind::Fn ==> r is Err,
    {
        let span = self.curr.span;
        self.consume(TokenKind::Fn)?;
        let ident = self.ident()?;
        let ghost m1 = self.ctx.next() as int;
        self.consume(TokenKind::LParen)?;
        let params = self.params_ident_ty()?;
        let ghost m2 = self.ctx.next() as int;
        self.consume(TokenKind::RParen)?;
        self.consume(TokenKind::Arrow)?;
        let return_ty = self.ty()?;
        self.skip_whitespace()?;
        let ghost m3 = self.ctx.next() as int;
        let body_span = self.curr.span;
        let mut nodes: Vec<Stmnt> = Vec::new();
        let ghost start = *self;
        proof {
            assert(stmnts_ids(nodes@) =~= Seq::<u32>::empty());
        }
        while self.curr.kind != TokenKind::End
            invariant
                self.follows(&start),
                body_span == start.curr.span,
                span.offset <= start.curr.span.offset,
                start.advanced(old(self)),
                ids_in(stmnts_ids(nodes@), start.ctx.next() as int, self.ctx.next() as int),
            decreases self.measure(),
        {
            let ghost prev = nodes@;
            let ghost mid = self.ctx.next() as int;
            let st = self.stmnt()?;
            let ghost st_ids = stmnt_ids(st);
            nodes.push(st);
            proof {
                assert(nodes@.drop_last() =~= prev);
                lemma_ids_concat(stmnts_ids(prev), st_ids, start.ctx.next() as int, mid, self.ctx.next() as int);
            }
        }
        self.consume(TokenKind::End)?;
        let ghost m4 = self.ctx.next() as int;
        let id = self.fresh_id()?;
        let body_span = body_span.enclosing_to(&self.curr.span);
        let body = Block { nodes, id, span: body_span };
        let span = span.enclosing_to(&self.curr.span);
        let f = Fn { span, ident, kind: FnKind::Local { params, body }, return_ty };
        proof {
            let lo = old(self).ctx.next() as int;
            let hi = self.ctx.next() as int;
            let a = seq![f.ident.id.0];
            let b = local_params_ids(params@);
            let c = ty_ids(f.return_ty);
            let d = stmnts_ids(body.nodes@);
            lemma_ids_concat(a, b, lo, m1, m2);
            lemma_ids_concat(a + b, c, lo, m2, m3);
            lemma_ids_concat(a + b + c, d, lo, m3, m4);
            lemma_ids_concat(a + b + c + d, seq![id.0], lo, m4, hi);
            assert(block_ids(body) =~= d + seq![id.0]);
            assert(fn_ids(f) =~= a + b + c + d + seq![id.0]);
        }
        Ok(f)
    }

    /// `extern [variadic] func name(params) -> type`.
    fn extern_func(&mut self) -> (r: Result<Fn>)
        requires
            old(self).wf(),
        ensures
            r matches Ok(f) ==> {
                &&& old(self).curr.kind == TokenKind::Extern
                &&& f.kind matches FnKind::Extern { is_variadic, .. } && is_variadic == old(
                    self,
                ).next_is(TokenKind::Variadic)
                &&& final(self).advanced(old(self))
                &&& final(self).covers(old(self), f.span)
                &&& final(self).made(old(self), fn_ids(f))
            },
            old(self).curr.kind != TokenKind::Extern ==> r is Err,
    {
        let span = self.curr.span;
        self.consume(TokenKind::Extern)?;
        let is_variadic = self.accept(TokenKind::Variadic)?.is_some();
        self.consume(TokenKind::Fn)?;
        let ident = self.ident()?;
        let ghost m1 = self.ctx.next() as int;
        self.consume(TokenKind::LParen)?;
        let params = self.params_name_ty()?;
        let ghost m2 = self.ctx.next() as int;
        self.consume(TokenKind::RParen)?;
        self.consume(TokenKind::Arrow)?;
        let return_ty = self.ty()?;
        self.skip_whitespace()?;
        let span = span.enclosing_to(&self.curr.span);
        let f = Fn { span, ident, kind: FnKind::Extern { params, is_variadic }, return_ty };
        proof {
            let lo = old(self).ctx.next() as int;
            let a = seq![f.ident.id.0];
            let b = named_tys_ids(params@);
            let c = ty_ids(f.return_ty);
            lemma_ids_concat(a, b, lo, m1, m2);
            lemma_ids_concat(a + b, c, lo, m2, self.ctx.next() as int);
            assert(fn_ids(f) =~= a + b + c);
        }
        Ok(f)
    }

    /// `struct Name =`, its fields, and `end`.
    fn struct_def(&mut self) -> (r: Result<StructDef>)
        requires
            old(self).wf(),
        ensures
            r matches Ok(d) ==> {
                &&& old(self).curr.kind == TokenKind::Struct
                &&& final(self).advanced(old(self))
                &&& final(self).covers(old(self), d.span)
                &&& d.ident.inner@ == old(self).next_text()
                &&& final(self).made(old(self), item_ids(Item::StructDef(d)))
            },
            old(self).curr.kind != TokenKind::Struct ==> r is Err,
    {
        let span = self.curr.span();
        self.consume(TokenKind::Struct)?;
        let ident = self.ident()?;
        let ghost m1 = self.ctx.next() as int;
        self.consume(TokenKind::Assign)?;
        self.skip_whitespace()?;
        let fields = self.params_name_ty()?;
        let tok = self.consume(TokenKind::End)?;
        let span = span.enclosing_to(&tok.span());
        let d = StructDef { ident, fields, span };
        proof {
            lemma_ids_concat(seq![d.ident.id.0], named_tys_ids(d.fields@), old(self).ctx.next() as int, m1, self.ctx.next() as int);
        }
        Ok(d)
    }

    /// `impl Name =`, its functions, and `end`.
    fn imp(&mut self) -> (r: Result<Impl>)
        requires
            old(self).wf(),
        ensures
            r matches Ok(i) ==> {
                &&& old(self).curr.kind == TokenKind::Impl
                &&& final(self).advanced(old(self))
                &&& final(self).covers(old(self), i.span)
                &&& i.ident.inner@ == old(self).next_text()
                &&& final(self).made(old(self), item_ids(Item::Impl(i)))
            },
            old(self).curr.kind != TokenKind::Impl ==> r is Err,
    {
        let span = self.curr.span();
        self.consume(TokenKind::Impl)?;
        let ident = self.ident()?;
        let ghost m1 = self.ctx.next() as int;
        self.consume(TokenKind::Assign)?;
        self.skip_whitespace()?;
        let mut items: Vec<AssocItem> = Vec::new();
        let ghost start = *self;
        proof {
            assert(assoc_ids(items@) =~= Seq::<u32>::empty());
        }
        loop
            invariant
                self.follows(&start),
                span.offset <= start.curr.span.offset,
                start.advanced(old(self)),
                m1 <= start.ctx.next(),
                ids_in(assoc_ids(items@), start.ctx.next() as int, self.ctx.next() as int),
            ensures
                self.follows(&start),
                self.curr.kind == TokenKind::End,
                ids_in(assoc_ids(items@), start.ctx.next() as int, self.ctx.next() as int),
            decreases self.measure(),
        {
            self.skip_whitespace()?;
            if self.at(TokenKind::End) {
                break;
            }
            let ghost prev = items@;
            let ghost mid = self.ctx.next() as int;
            let f = self.func()?;
            let ghost f_ids = fn_ids(f);
            items.push(AssocItem::Fn(f));
            proof {
                assert(items@.drop_last() =~= prev);
                lemma_ids_concat(assoc_ids(prev), f_ids, start.ctx.next() as int, mid, self.ctx.next() as int);
            }
        }
        let tok = self.consume(TokenKind::End)?;
        let span = span.enclosing_to(&tok.span());
        let i = Impl { span, ident, items };
        proof {
            lemma_ids_widen(assoc_ids(i.items@), start.ctx.next() as int, self.ctx.next() as int, m1, self.ctx.next() as int);
            lemma_ids_concat(seq![i.ident.id.0], assoc_ids(i.items@), old(self).ctx.next() as int, m1, self.ctx.next() as int);
        }
        Ok(i)
    }
}

/// The expression at the far left of `e`: the one that its first token started.
pub open spec fn leftmost(e: Expr) -> Expr
    decreases e,
{
    match e {
        Expr::BinOp(b) => leftmost(*b.lhs),
        Expr::Call(c) => leftmost(*c.func),
        Expr::Index(i) => leftmost(*i.expr),
        Expr::MemberAccess(m) => leftmost(*m.lhs),
        Expr::Assign(a) => leftmost(*a.lhs),
        Expr::Constructor(c) => Expr::Ident(c.ident),
        _ => e,
    }
}

/// The rank of the precedence with which a binary operator binds.
pub open spec fn op_rank(k: BinOpKind) -> int {
    match k {
        BinOpKind::Add | BinOpKind::Sub => prec_rank(Prec::Sum),
        BinOpKind::Mul | BinOpKind::Div => prec_rank(Prec::Product),
        BinOpKind::Eq | BinOpKind::Ne => prec_rank(Prec::Eq),
        BinOpKind::Lt | BinOpKind::Gt => prec_rank(Prec::Cmp),
        BinOpKind::And | BinOpKind::Or => prec_rank(Prec::AndOr),
    }
}

/// How tightly an operation may bind that takes `e` as its left operand: no tighter than the
/// binary operator at the top of `e`, which would otherwise have taken it into its right
/// operand; with any other expression at the top there is no bound.
pub open spec fn ceiling(e: Expr) -> int {
    match e {
        Expr::BinOp(b) => op_rank(b.op.kind),
        _ => prec_rank(Prec::Chain) + 1,
    }
}

/// Whether `e`, read where operators must bind tighter than the precedence of rank `p`, is
/// grouped as operator precedence says: every operation along its left edge binds tighter
/// than `p` and no tighter than a binary operator below it on that edge, the right operand
/// of a binary operator holds only operators that bind tighter than it, and the right side of
/// an assignment and the operand of a prefix operator are read from the lowest precedence.
pub open spec fn grouped(e: Expr, p: int) -> bool
    decreases e,
{
    match e {
        Expr::BinOp(b) => {
            let q = op_rank(b.op.kind);
            &&& p < q <= ceiling(*b.lhs)
            &&& grouped(*b.lhs, p)
            &&& grouped(*b.rhs, q)
        },
        Expr::Call(c) => {
            let q = prec_rank(Prec::Call);
            p < q <= ceiling(*c.func) && grouped(*c.func, p)
        },
        Expr::Index(i) => {
            let q = prec_rank(Prec::Index);
            p < q <= ceiling(*i.expr) && grouped(*i.expr, p)
        },
        Expr::MemberAccess(m) => {
            let q = prec_rank(Prec::Chain);
            p < q <= ceiling(*m.lhs) && grouped(*m.lhs, p)
        },
        Expr::Assign(a) => {
            let q = prec_rank(Prec::Assign);
            &&& p < q <= ceiling(*a.lhs)
            &&& grouped(*a.lhs, p)
            &&& grouped(*a.rhs, prec_rank(Prec::Lowest))
        },
        Expr::Constructor(_) => p < prec_rank(Prec::Construct),
        Expr::Unary(u) => grouped(*u.rhs, prec_rank(Prec::Lowest)),
        _ => true,
    }
}

/// Whether the token `t` makes an expression on its own: a name, a truth value, a string,
/// or a number whose value and suffix can be read.
pub open spec fn atom_token(t: Token) -> bool {
    match t.kind {
        TokenKind::True | TokenKind::False | TokenKind::String | TokenKind::Ident => true,
        TokenKind::Num(n) => literal_reading(encode_utf8(t.text@), n) is Some,
        _ => false,
    }
}

/// The text of the input `c` over the span `s`.
pub open spec fn span_text(c: Seq<u8>, s: Span) -> Seq<u8> {
    c.subrange(s.offset as int, span_end(s))
}

/// The token that spells a binary operator.
pub open spec fn binop_token(k: BinOpKind) -> TokenKind {
    match k {
        BinOpKind::Add => TokenKind::Add,
        BinOpKind::Sub => TokenKind::Sub,
        BinOpKind::Mul => TokenKind::Asterisk,
        BinOpKind::Div => TokenKind::Slash,
        BinOpKind::Eq => TokenKind::Eq,
        BinOpKind::Ne => TokenKind::Ne,
        BinOpKind::Lt => TokenKind::LAngle,
        BinOpKind::Gt => TokenKind::RAngle,
        BinOpKind::And => TokenKind::And,
        BinOpKind::Or => TokenKind::Or,
    }
}

/// The token that spells a prefix operator.
pub open spec fn unary_token(k: UnaryOpKind) -> TokenKind {
    match k {
        UnaryOpKind::Negate => TokenKind::Sub,
        UnaryOpKind::Not => TokenKind::Bang,
    }
}

/// Whether the operators, names and literals along the operator structure of `e` are what
/// the input `c` holds at their spans: each operator is spelled there, each name is the text
/// there, and each number and truth value is what the text there reads as.
pub open spec fn read_from(e: Expr, c: Seq<u8>) -> bool
    decreases e,
{
    match e {
        Expr::Ident(i) => encode_utf8(i.inner@) == span_text(c, i.span),
        Expr::Literal(l) => match l.kind {
            LiteralKind::Int(v) => read_number(span_text(c, l.span)) matches Ok(n) && literal_reading(
                span_text(c, l.span),
                n,
            ) == Some((v, l.suffix)),
            LiteralKind::Bool(v) => span_text(c, l.span) == spelling(
                if v {
                    TokenKind::True
                } else {
                    TokenKind::False
                },
            )->0,
            _ => true,
        },
        Expr::BinOp(b) => {
            &&& span_text(c, b.op.span) == spelling(binop_token(b.op.kind))->0
            &&& read_from(*b.lhs, c)
            &&& read_from(*b.rhs, c)
        },
        Expr::Unary(u) => span_text(c, u.op.span) == spelling(unary_token(u.op.kind))->0
            && read_from(*u.rhs, c),
        Expr::Call(x) => read_from(*x.func, c),
        Expr::Index(i) => read_from(*i.expr, c) && read_from(*i.idx, c),
        Expr::MemberAccess(m) => read_from(*m.lhs, c) && encode_utf8(m.rhs.inner@) == span_text(
            c,
            m.rhs.span,
        ),
        Expr::Assign(a) => read_from(*a.lhs, c) && read_from(*a.rhs, c),
        _ => true,
    }
}

/// Whether `i` is the item `use name`.
pub open spec fn use_of(i: Item, name: Seq<char>) -> bool {
    i matches Item::Use(u) && !u.is_extern && u.name.inner@ == name
}

/// Whether a token of kind `k` can start an expression.
pub open spec fn starts_expr(k: TokenKind) -> bool {
    match k {
        TokenKind::Num(_) | TokenKind::True | TokenKind::False | TokenKind::String
        | TokenKind::Ident | TokenKind::If | TokenKind::LBracket | TokenKind::While
        | TokenKind::Sub | TokenKind::Bang => true,
        _ => false,
    }
}

/// Whether `e` is the kind of expression that a token of kind `k` starts.
pub open spec fn started_by(e: Expr, k: TokenKind) -> bool {
    match k {
        TokenKind::Num(_) => e matches Expr::Literal(l) && l.kind is Int,
        TokenKind::True => e matches Expr::Literal(l) && l.kind == LiteralKind::Bool(true),
        TokenKind::False => e matches Expr::Literal(l) && l.kind == LiteralKind::Bool(false),
        TokenKind::String => e matches Expr::Literal(l) && l.kind is Str,
        TokenKind::Ident => e is Ident,
        TokenKind::If => e is IfElse,
        TokenKind::LBracket => e is List,
        TokenKind::While => e is While,
        TokenKind::Sub => e matches Expr::Unary(u) && u.op.kind == UnaryOpKind::Negate,
        TokenKind::Bang => e matches Expr::Unary(u) && u.op.kind == UnaryOpKind::Not,
        _ => false,
    }
}

/// Whether `st` is the kind of statement that a token of kind `k` starts.
pub open spec fn stmnt_started_by(st: Stmnt, k: TokenKind) -> bool {
    match k {
        TokenKind::Let => st is Let,
        TokenKind::Ret => st is Ret,
        _ => st matches Stmnt::Expr(e) && started_by(leftmost(e), k),
    }
}

/// Whether `i` is the kind of item that a token of kind `k` starts.
pub open spec fn item_started_by(i: Item, k: TokenKind) -> bool {
    match k {
        TokenKind::Fn => i matches Item::Fn(f) && f.kind is Local,
        TokenKind::Extern => i matches Item::Fn(f) && f.kind is Extern,
        TokenKind::Use => i is Use,
        TokenKind::Struct => i is StructDef,
        TokenKind::Impl => i is Impl,
        _ => false,
    }
}

/// The infix operator a token stands for.
pub open spec fn binop_of(kind: TokenKind) -> Option<BinOpKind> {
    match kind {
        TokenKind::Add => Some(BinOpKind::Add),
        TokenKind::Sub => Some(BinOpKind::Sub),
        TokenKind::Eq => Some(BinOpKind::Eq),
        TokenKind::Ne => Some(BinOpKind::Ne),
        TokenKind::Asterisk => Some(BinOpKind::Mul),
        TokenKind::Slash => Some(BinOpKind::Div),
        TokenKind::LAngle => Some(BinOpKind::Lt),
        TokenKind::RAngle => Some(BinOpKind::Gt),
        TokenKind::And => Some(BinOpKind::And),
        TokenKind::Or => Some(BinOpKind::Or),
        _ => None,
    }
}

/// The type a name stands for when it names a built-in type.
pub open spec fn builtin_ty(name: Seq<char>) -> Option<TyKind> {
    if name == "i8"@ {
        Some(TyKind::Int(IntTy::I8))
    } else if name == "i16"@ {
        Some(TyKind::Int(IntTy::I16))
    } else if name == "i32"@ {
        Some(TyKind::Int(IntTy::I32))
    } else if name == "i64"@ {
        Some(TyKind::Int(IntTy::I64))
    } else if name == "u8"@ {
        Some(TyKind::UInt(UIntTy::U8))
    } else if name == "u16"@ {
        Some(TyKind::UInt(UIntTy::U16))
    } else if name == "u32"@ {
        Some(TyKind::UInt(UIntTy::U32))
    } else if name == "u64"@ {
        Some(TyKind::UInt(UIntTy::U64))
    } else if name == "Bool"@ {
        Some(TyKind::Bool)
    } else if name == "Str"@ {
        Some(TyKind::Str)
    } else {
        None
    }
}

fn lookup_builtin_ty(name: &str) -> (r: Option<TyKind>)
    ensures
        r == builtin_ty(name@),
{
    if str_eq(name, "i8") {
        Some(TyKind::Int(IntTy::I8))
    } else if str_eq(name, "i16") {
        Some(TyKind::Int(IntTy::I16))
    } else if str_eq(name, "i32") {
        Some(TyKind::Int(IntTy::I32))
    } else if str_eq(name, "i64") {
        Some(TyKind::Int(IntTy::I64))
    } else if str_eq(name, "u8") {
        Some(TyKind::UInt(UIntTy::U8))
    } else if str_eq(name, "u16") {
        Some(TyKind::UInt(UIntTy::U16))
    } else if str_eq(name, "u32") {
        Some(TyKind::UInt(UIntTy::U32))
    } else if str_eq(name, "u64") {
        Some(TyKind::UInt(UIntTy::U64))
    } else if str_eq(name, "Bool") {
        Some(TyKind::Bool)
    } else if str_eq(name, "Str") {
        Some(TyKind::Str)
    } else {
        None
    }
}

/// The type a name stands for: a built-in type, or else a type variable of that name.
pub open spec fn named_ty(k: TyKind, name: Seq<char>) -> bool {
    match builtin_ty(name) {
        Some(b) => k == b,
        None => k matches TyKind::Var(i) && i.inner@ == name,
    }
}

/// Where the rest of the input reads to its end, the next lexeme is read without failing, and
/// so is the rest after it.
pub proof fn lemma_reads_on(c: Seq<u8>, p: int)
    requires
        0 <= p <= c.len(),
        c.len() <= usize::MAX,
        lexemes_from(c, p).last() is End,
    ensures
        !fails(lex(c, p), c),
        !(lex(c, p) is End) ==> lexemes_from(c, resume_at(c, lex(c, p))).last() is End,
{
    let l = lex(c, p);
    if l is End || fails(l, c) {
        assert(lexemes_from(c, p) == seq![l]);
    } else {
        let rest = lexemes_from(c, resume_at(c, l));
        assert(lexemes_from(c, p) == seq![l] + rest);
        assert((seq![l] + rest).last() == rest.last());
    }
}

} // verus!
