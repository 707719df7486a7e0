use solc::lexer::num::{NumberKind, ReadNumber};
use solc::lexer::token::TokenKind::{
    self, Asterisk, Eof, Else, End, Extern, False, Fn, Ident, If, Newline, Num, Slash, String,
    Struct, Sub, Then, True, Variadic,
};
use solc::lexer::num::ReadNumberError;
use solc::lexer::unescape::{self, EscapeError};
use solc::lexer::{Lexer, LexerError};

fn lex(source: &'static str) -> Vec<TokenKind> {
    let mut lexer = Lexer::new("inline".into(), source);
    let mut kinds = vec![];
    while let Some(token) = lexer.read_token() {
        kinds.push(token.unwrap().kind);
    }
    kinds
}

#[test]
fn test_math_expr() {
    let tokens = lex(r"10 / 2 * 50 - 5");
    assert!(matches!(
        tokens.as_slice(),
        &[Num(_), Slash, Num(_), Asterisk, Num(_), Sub, Num(_), Eof]
    ));
}

#[test]
fn test_literals() {
    let tokens = lex(r#"10 true false 
    "hello world""#);
    assert!(matches!(
        tokens.as_slice(),
        &[Num(_), True, False, Newline, String, Eof]
    ));
}

#[test]
fn test_keywords() {
    let tokens = lex(r"extern variadic func struct then end if else");
    assert!(matches!(
        tokens.as_slice(),
        &[Extern, Variadic, Fn, Struct, Then, End, If, Else, Eof]
    ));
}

#[test]
fn integers() {
    let tokens = lex(r"128 -64");
    assert!(matches!(tokens.as_slice(), &[Num(_), Sub, Num(_), Eof]));
}

#[test]
fn token_texts_and_spans() {
    let mut lexer = Lexer::new("inline".into(), "let x != 0x1F -- note\n\"a\\tb\"");
    let mut tokens = vec![];
    while let Some(token) = lexer.read_token() {
        tokens.push(token.unwrap());
    }
    let texts: Vec<&str> = tokens.iter().map(|t| t.text.as_str()).collect();
    assert_eq!(texts, vec!["let", "x", "!=", "0x1F", "\n", "a\tb", ""]);
    assert_eq!(tokens[2].span.offset(), 6);
    assert_eq!(tokens[2].span.len(), 2);
    assert_eq!(tokens[3].span.offset(), 9);
    assert_eq!(tokens[4].kind, Newline);
    assert_eq!(tokens[4].span.offset(), 21);
    assert_eq!(tokens[5].kind, String);
    assert_eq!(tokens[5].span.offset(), 22);
    assert_eq!(tokens[5].span.len(), 3);
    assert_eq!(tokens[6].kind, Eof);
    assert!(lexer.read_token().is_none());
}

#[test]
fn lexer_errors() {
    let mut lexer = Lexer::new("inline".into(), "a $");
    assert_eq!(lexer.read_token().unwrap().unwrap().kind, Ident);
    match lexer.read_token().unwrap() {
        Err(LexerError::Illegal { span, ch, .. }) => {
            assert_eq!(ch, '$');
            assert_eq!(span.offset(), 2);
        }
        other => panic!("unexpected {other:?}"),
    }
    // an illegal byte is not passed over
    assert!(matches!(lexer.read_token(), Some(Err(LexerError::Illegal { .. }))));

    let mut lexer = Lexer::new("inline".into(), "\"open");
    match lexer.read_token().unwrap() {
        Err(LexerError::UnterminatedString { span, .. }) => {
            assert_eq!(span.offset(), 0);
            assert_eq!(span.len(), 5);
        }
        other => panic!("unexpected {other:?}"),
    }

    let mut lexer = Lexer::new("inline".into(), "\"\\q\"");
    assert!(matches!(
        lexer.read_token(),
        Some(Err(LexerError::EscapeLiteral(EscapeError::InvalidEscape('q'))))
    ));

    let mut lexer = Lexer::new("inline".into(), "1.2.3");
    assert!(matches!(
        lexer.read_token(),
        Some(Err(LexerError::ReadNumber(_)))
    ));
}

#[test]
fn reset_relexes() {
    let mut lexer = Lexer::new("inline".into(), "a + b");
    let mut first = vec![];
    while let Some(token) = lexer.read_token() {
        first.push(token.unwrap());
    }
    lexer.reset();
    assert_eq!(lexer.pos(), 0);
    let mut second = vec![];
    while let Some(token) = lexer.read_token() {
        second.push(token.unwrap());
    }
    assert_eq!(first, second);
    assert_eq!(lexer.source().inner(), "a + b");
}

#[test]
fn unescape_literal() {
    assert_eq!(
        unescape::unescape_literal("\"\\n\\t\"").unwrap(),
        "\"\n\t\"".to_string()
    );
    assert_eq!(
        unescape::unescape_literal("hello world!").unwrap(),
        "hello world!"
    );
}

#[test]
fn unescape_errors() {
    assert_eq!(unescape::unescape_char('0'), Ok('\0'));
    assert_eq!(unescape::unescape_char('"'), Ok('"'));
    assert_eq!(
        unescape::unescape_char('x'),
        Err(EscapeError::InvalidEscape('x'))
    );
    assert_eq!(
        unescape::unescape_literal("abc\\"),
        Err(EscapeError::ZeroChars)
    );
    assert_eq!(
        unescape::unescape_literal("\\\\\\r"),
        Ok("\\\r".to_string())
    );
}

#[test]
fn read_int() {
    assert_eq!(
        ReadNumber::try_read("100").unwrap(),
        ReadNumber {
            len: 3,
            prefix_end: None,
            suffix_start: None,
            kind: NumberKind::Int,
        }
    );
    assert_eq!(
        ReadNumber::try_read("100_u32").unwrap(),
        ReadNumber {
            len: 7,
            prefix_end: None,
            suffix_start: Some(4),
            kind: NumberKind::Int,
        }
    );
    assert_eq!(
        ReadNumber::try_read("100_000_000").unwrap(),
        ReadNumber {
            len: 11,
            prefix_end: None,
            suffix_start: None,
            kind: NumberKind::Int,
        }
    );
}

#[test]
fn read_float() {
    assert_eq!(
        ReadNumber::try_read("10.00").unwrap(),
        ReadNumber {
            len: 5,
            prefix_end: None,
            suffix_start: None,
            kind: NumberKind::Float { radix_point_idx: 2 }
        }
    );
    assert_eq!(
        ReadNumber::try_read("100_000.000_f64").unwrap(),
        ReadNumber {
            len: 15,
            prefix_end: None,
            suffix_start: Some(12),
            kind: NumberKind::Float { radix_point_idx: 7 }
        }
    );
}

#[test]
fn read_hex() {
    assert_eq!(
        ReadNumber::try_read("0xFF").unwrap(),
        ReadNumber {
            len: 4,
            prefix_end: Some(1),
            suffix_start: None,
            kind: NumberKind::Hex
        }
    );
    assert_eq!(
        ReadNumber::try_read("0xFF_u32").unwrap(),
        ReadNumber {
            len: 8,
            prefix_end: Some(1),
            suffix_start: Some(5),
            kind: NumberKind::Hex
        }
    );
}

#[test]
fn read_number_errors_and_stops() {
    assert_eq!(
        ReadNumber::try_read("1._5"),
        Err(ReadNumberError::Unexpected('_'))
    );
    assert_eq!(
        ReadNumber::try_read("1.5.2"),
        Err(ReadNumberError::RepeatedRadixPoint)
    );
    assert_eq!(
        ReadNumber::try_read("0x1.5"),
        Err(ReadNumberError::Unexpected('.'))
    );
    assert_eq!(
        ReadNumber::try_read("0x10x1"),
        Err(ReadNumberError::RepeatedRadixPrefix)
    );
    assert_eq!(ReadNumber::try_read("42 rest").unwrap().len, 2);
    assert_eq!(ReadNumber::try_read("7\nx").unwrap().len, 1);
}

#[test]
fn read_until_eof_collects_tokens() {
    let mut lexer = Lexer::new("inline".into(), "let x = \"hi\" -- note\nx");
    let tokens = lexer.read_until_eof().unwrap();
    let kinds: Vec<TokenKind> = tokens.iter().map(|t| t.kind).collect();
    assert_eq!(
        kinds,
        vec![TokenKind::Let, Ident, TokenKind::Assign, String, Newline, Ident]
    );
    let texts: Vec<&str> = tokens.iter().map(|t| t.text.as_str()).collect();
    assert_eq!(texts, vec!["let", "x", "=", "hi", "\n", "x"]);
    assert_eq!(tokens[3].span.offset(), 8);

    let mut lexer = Lexer::new("inline".into(), "");
    assert!(lexer.read_until_eof().unwrap().is_empty());
}

#[test]
fn read_until_eof_stops_at_first_error() {
    let mut lexer = Lexer::new("inline".into(), "a $ b");
    match lexer.read_until_eof() {
        Err(LexerError::Illegal { ch, span, .. }) => {
            assert_eq!(ch, '$');
            assert_eq!(span.offset(), 2);
        }
        other => panic!("unexpected {other:?}"),
    }
}

#[test]
fn number_length_counts_characters() {
    // a suffix letter outside ASCII takes two bytes and counts once
    let n = ReadNumber::try_read("1é").unwrap();
    assert_eq!(n.len, 2);
    assert_eq!(n.suffix_start, Some(1));
    assert_eq!(ReadNumber::try_read("7µs rest").unwrap().len, 3);
}

#[test]
fn trailing_blanks_end_the_input() {
    let mut lexer = Lexer::new("inline".into(), "x ");
    let first = lexer.read_token().unwrap().unwrap();
    assert_eq!(first.kind, Ident);
    assert_eq!(first.text, "x");
    let end = lexer.read_token().unwrap().unwrap();
    assert_eq!(end.kind, Eof);
    assert_eq!(end.span.offset(), 2);
    assert!(lexer.read_token().is_none());
    assert!(matches!(lex("12 \t\r").as_slice(), [Num(_), Eof]));
}

#[test]
fn comment_at_the_end_ends_the_input() {
    assert!(matches!(lex("x -- last words").as_slice(), [Ident, Eof]));
}

#[test]
fn escaped_text_unescapes_to_itself() {
    let text = "tab\there \"quoted\" back\\slash nul\0 cr\r nl\n";
    let escaped = "tab\\there \\\"quoted\\\" back\\\\slash nul\\0 cr\\r nl\\n";
    assert_eq!(unescape::unescape_literal(escaped), Ok(text.to_string()));
    assert_eq!(unescape::unescape_literal("ok\\"), Err(EscapeError::ZeroChars));
    assert_eq!(unescape::unescape_literal("ok\\q\\"), Err(EscapeError::InvalidEscape('q')));
}
