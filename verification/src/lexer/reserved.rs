//! The reserved words of the language and the tokens they are read as.
use vstd::prelude::*;

use crate::lexer::token::{keyword, TokenKind};
use crate::lexer::{first_from, ident_end_pred, is_ident_byte, lemma_first_from, lex, Lexeme};

verus! {

/// The word reserved for each keyword token.
pub open spec fn reserved_word(k: TokenKind) -> Option<Seq<char>> {
    match k {
        TokenKind::Let => Some("let"@),
        TokenKind::Mut => Some("mut"@),
        TokenKind::Fn => Some("func"@),
        TokenKind::Ret => Some("return"@),
        TokenKind::If => Some("if"@),
        TokenKind::Else => Some("else"@),
        TokenKind::Then => Some("then"@),
        TokenKind::End => Some("end"@),
        TokenKind::Use => Some("use"@),
        TokenKind::And => Some("and"@),
        TokenKind::Or => Some("or"@),
        TokenKind::Extern => Some("extern"@),
        TokenKind::Struct => Some("struct"@),
        TokenKind::Impl => Some("impl"@),
        TokenKind::True => Some("true"@),
        TokenKind::False => Some("false"@),
        TokenKind::Variadic => Some("variadic"@),
        TokenKind::While => Some("while"@),
        TokenKind::Do => Some("do"@),
        _ => None,
    }
}

/// The bytes of an ASCII word.
pub open spec fn ascii_bytes(w: Seq<char>) -> Seq<u8> {
    w.map_values(|ch: char| ch as u8)
}

/// Every reserved word is read as its keyword, and a word is read as a keyword only when it is
/// the word reserved for that keyword.
pub proof fn lemma_keywords_are_reserved_words(k: TokenKind, s: Seq<u8>)
    ensures
        reserved_word(k) matches Some(w) ==> keyword(ascii_bytes(w)) == Some(k),
        keyword(s) == Some(k) ==> (reserved_word(k) matches Some(w) && s == ascii_bytes(w)),
{

    reveal_strlit("let");
    reveal_strlit("mut");
    reveal_strlit("func");
    reveal_strlit("return");
    reveal_strlit("if");
    reveal_strlit("else");
    reveal_strlit("then");
    reveal_strlit("end");
    reveal_strlit("use");
    reveal_strlit("and");
    reveal_strlit("or");
    reveal_strlit("extern");
    reveal_strlit("struct");
    reveal_strlit("impl");
    reveal_strlit("true");
    reveal_strlit("false");
    reveal_strlit("variadic");
    reveal_strlit("while");
    reveal_strlit("do");
    if let Some(w) = reserved_word(k) {
        assert(ascii_bytes(w) =~= match k {
            TokenKind::Let => seq![0x6Cu8, 0x65u8, 0x74u8],
            TokenKind::Mut => seq![0x6Du8, 0x75u8, 0x74u8],
            TokenKind::Fn => seq![0x66u8, 0x75u8, 0x6Eu8, 0x63u8],
            TokenKind::Ret => seq![0x72u8, 0x65u8, 0x74u8, 0x75u8, 0x72u8, 0x6Eu8],
            TokenKind::If => seq![0x69u8, 0x66u8],
            TokenKind::Else => seq![0x65u8, 0x6Cu8, 0x73u8, 0x65u8],
            TokenKind::Then => seq![0x74u8, 0x68u8, 0x65u8, 0x6Eu8],
            TokenKind::End => seq![0x65u8, 0x6Eu8, 0x64u8],
            TokenKind::Use => seq![0x75u8, 0x73u8, 0x65u8],
            TokenKind::And => seq![0x61u8, 0x6Eu8, 0x64u8],
            TokenKind::Or => seq![0x6Fu8, 0x72u8],
            TokenKind::Extern => seq![0x65u8, 0x78u8, 0x74u8, 0x65u8, 0x72u8, 0x6Eu8],
            TokenKind::Struct => seq![0x73u8, 0x74u8, 0x72u8, 0x75u8, 0x63u8, 0x74u8],
            TokenKind::Impl => seq![0x69u8, 0x6Du8, 0x70u8, 0x6Cu8],
            TokenKind::True => seq![0x74u8, 0x72u8, 0x75u8, 0x65u8],
            TokenKind::False => seq![0x66u8, 0x61u8, 0x6Cu8, 0x73u8, 0x65u8],
            TokenKind::Variadic => seq![0x76u8, 0x61u8, 0x72u8, 0x69u8, 0x61u8, 0x64u8, 0x69u8, 0x63u8],
            TokenKind::While => seq![0x77u8, 0x68u8, 0x69u8, 0x6Cu8, 0x65u8],
            _ => seq![0x64u8, 0x6Fu8],
        });
    }
}

/// A reserved word in the input, not run on into a longer name, is read as its keyword token.
pub proof fn lemma_reserved_word_lexes(c: Seq<u8>, p: int, k: TokenKind)
    requires
        reserved_word(k) is Some,
        0 <= p,
        p + reserved_word(k)->0.len() <= c.len(),
        c.subrange(p, p + reserved_word(k)->0.len()) == ascii_bytes(reserved_word(k)->0),
        p + reserved_word(k)->0.len() == c.len() || !is_ident_byte(c[p + reserved_word(k)->0.len()]),
    ensures
        lex(c, p) == (Lexeme::Plain { kind: k, start: p, end: p + reserved_word(k)->0.len() }),
{
    let w = reserved_word(k)->0;
    let n = w.len() as int;
    let b = ascii_bytes(w);
    lemma_keywords_are_reserved_words(k, b);
    reveal_strlit("let");
    reveal_strlit("mut");
    reveal_strlit("func");
    reveal_strlit("return");
    reveal_strlit("if");
    reveal_strlit("else");
    reveal_strlit("then");
    reveal_strlit("end");
    reveal_strlit("use");
    reveal_strlit("and");
    reveal_strlit("or");
    reveal_strlit("extern");
    reveal_strlit("struct");
    reveal_strlit("impl");
    reveal_strlit("true");
    reveal_strlit("false");
    reveal_strlit("variadic");
    reveal_strlit("while");
    reveal_strlit("do");
    assert forall|j: int| 0 <= j < n implies 0x61u8 <= #[trigger] b[j] <= 0x7Au8 by {
        assert(b[j] == w[j] as u8);
    }
    assert forall|j: int| p <= j < p + n implies is_ident_byte(#[trigger] c[j]) by {
        assert(c[j] == c.subrange(p, p + n)[j - p]);
        assert(0x61u8 <= b[j - p] <= 0x7Au8);
    }
    lemma_first_from(c, p, ident_end_pred());
    let f = first_from(c, p, ident_end_pred());
    if f < p + n {
        assert(is_ident_byte(c[f]));
    }
    assert(f == p + n);
    assert(c[p] == b[0]);
    assert(c.subrange(p, f) == b);
}

} // verus!
