use solc::lexer::token::Token;
use solc::lexer::token::TokenKind::{
    self, Ampersand, And, Arrow, Assign, Bang, Colon, Dot, Else, End, Eof, Extern, Fn, Ident,
    If, LAngle, LParen, Let, Newline, Or, RAngle, RParen, Ret, Semicolon, String, Struct, Sub, Then,
    Use,
};
use solc::lexer::Lexer;

/// Every token of `source`, the end of the input included.
fn lex(source: &str) -> Vec<Token> {
    let mut lexer = Lexer::new("<macro>".into(), source);
    let mut tokens = Vec::new();
    while let Some(result) = lexer.read_token() {
        tokens.push(result.expect("failed to lex"));
    }
    tokens
}

fn kinds(tokens: &[Token]) -> Vec<TokenKind> {
    tokens.iter().map(|t| *t.kind()).collect()
}

fn is_num(kind: &TokenKind) -> bool {
    matches!(kind, TokenKind::Num(_))
}

#[test]
fn lexer_math_expr() {
    let tokens = lex("        10 - 20 * 50 / 20");
    assert!(is_num(tokens[0].kind()));
    assert_eq!(*tokens[1].kind(), Sub);
    assert!(is_num(tokens[2].kind()));
    assert_eq!(*tokens[3].kind(), TokenKind::Asterisk);
    assert!(is_num(tokens[4].kind()));
    assert_eq!(*tokens[5].kind(), TokenKind::Slash);
    assert!(is_num(tokens[6].kind()));
}

#[test]
fn lexer_keywords() {
    let tokens = lex("        let func return if then else end use extern struct");
    assert_eq!(kinds(&tokens), vec![Let, Fn, Ret, If, Then, Else, End, Use, Extern, Struct, Eof]);
}

#[test]
fn identifiers() {
    let tokens = lex("        foo bar_baz _leading x1 snake_case");
    for token in tokens.iter().filter(|t| *t.kind() == Ident) {
        assert!(!token.text.is_empty());
    }
    assert_eq!(tokens[0].text, "foo");
    assert_eq!(tokens[1].text, "bar_baz");
    assert_eq!(tokens[2].text, "_leading");
    assert_eq!(tokens[3].text, "x1");
    assert_eq!(tokens[4].text, "snake_case");
}

#[test]
fn string_literal() {
    let tokens = lex("        \"hello world\"");
    assert_eq!(*tokens[0].kind(), String);
    assert_eq!(tokens[0].text, "hello world");
}

#[test]
fn assignment() {
    let tokens = lex("        let x = 42");
    let kinds = kinds(&tokens);
    assert_eq!(kinds[..3], [Let, Ident, Assign]);
    assert!(is_num(&kinds[3]));
    assert_eq!(kinds[4], Eof);
    assert_eq!(kinds.len(), 5);
    assert_eq!(tokens[1].text, "x");
    assert_eq!(tokens[3].text, "42");
}

#[test]
fn equality() {
    let tokens = lex("        x == 10");
    assert_eq!(*tokens[0].kind(), Ident);
    assert_eq!(*tokens[1].kind(), TokenKind::Eq);
    assert!(is_num(tokens[2].kind()));
}

#[test]
fn arrow() {
    let tokens = lex("        func main() -> i32");
    assert_eq!(kinds(&tokens), vec![Fn, Ident, LParen, RParen, Arrow, Ident, Eof]);
}

#[test]
fn boolean_operators() {
    let tokens = lex("        x and y or z");
    assert_eq!(kinds(&tokens), vec![Ident, And, Ident, Or, Ident, Eof]);
}

#[test]
fn prefix_operators() {
    let tokens = lex("        !x -y &z");
    assert_eq!(*tokens[0].kind(), Bang);
    assert_eq!(*tokens[1].kind(), Ident);
    assert_eq!(*tokens[2].kind(), Sub);
    assert_eq!(*tokens[3].kind(), Ident);
    assert_eq!(*tokens[4].kind(), Ampersand);
    assert_eq!(*tokens[5].kind(), Ident);
}

#[test]
fn comparison_operators() {
    let tokens = lex("        a < b > c");
    assert_eq!(*tokens[0].kind(), Ident);
    assert_eq!(*tokens[1].kind(), LAngle);
    assert_eq!(*tokens[2].kind(), Ident);
    assert_eq!(*tokens[3].kind(), RAngle);
    assert_eq!(*tokens[4].kind(), Ident);
}

#[test]
fn struct_definition() {
    let tokens = lex("        struct Point\n            x: i32\n            y: i32\n        end");
    let kinds: Vec<_> = kinds(&tokens).into_iter().filter(|k| *k != Newline).collect();
    assert_eq!(kinds, vec![Struct, Ident, Ident, Colon, Ident, Ident, Colon, Ident, End, Eof]);
}

#[test]
fn member_access() {
    let tokens = lex("        point.x");
    assert_eq!(kinds(&tokens), vec![Ident, Dot, Ident, Eof]);
}

#[test]
fn multiline_preserves_newlines() {
    let tokens = lex("        let x = 1\n        let y = 2");
    let newline_count = tokens.iter().filter(|t| *t.kind() == Newline).count();
    assert!(newline_count >= 1);
}

#[test]
fn extern_func_declaration() {
    let tokens = lex("        extern func puts(s: Str) -> i32");
    assert_eq!(
        kinds(&tokens),
        vec![Extern, Fn, Ident, LParen, Ident, Colon, Ident, RParen, Arrow, Ident, Eof]
    );
}

#[test]
fn if_else_block() {
    let tokens = lex(
        "        if x == 0 then\n            return 1\n        else\n            return 0\n        end",
    );
    let kinds: Vec<_> = kinds(&tokens).into_iter().filter(|k| *k != Newline).collect();
    assert_eq!(kinds.len(), 12);
    assert_eq!(kinds[..3], [If, Ident, TokenKind::Eq]);
    assert!(is_num(&kinds[3]));
    assert_eq!(kinds[4..6], [Then, Ret]);
    assert!(is_num(&kinds[6]));
    assert_eq!(kinds[7..9], [Else, Ret]);
    assert!(is_num(&kinds[9]));
    assert_eq!(kinds[10..], [End, Eof]);
}

#[test]
fn use_extern() {
    let tokens = lex("        use extern stdio");
    assert_eq!(kinds(&tokens), vec![Use, Extern, Ident, Eof]);
}

#[test]
fn semicolons() {
    let tokens = lex("        a; b; c");
    assert_eq!(kinds(&tokens), vec![Ident, Semicolon, Ident, Semicolon, Ident, Eof]);
}

#[test]
fn integer_text_values() {
    let tokens = lex("        0 1 42 999");
    let ints: Vec<_> = tokens.iter().filter(|t| is_num(t.kind())).map(|t| t.text.as_str()).collect();
    assert_eq!(ints, vec!["0", "1", "42", "999"]);
}

#[test]
fn add_operator() {
    let tokens = lex("        1 + 2");
    let kinds = kinds(&tokens);
    assert_eq!(kinds.len(), 4);
    assert!(is_num(&kinds[0]));
    assert_eq!(kinds[1], TokenKind::Add);
    assert!(is_num(&kinds[2]));
    assert_eq!(kinds[3], Eof);
}

#[test]
fn colon_in_params() {
    let tokens = lex("        n: i32");
    assert_eq!(kinds(&tokens), vec![Ident, Colon, Ident, Eof]);
}

/// The kinds of the tokens, with every number written as `None`.
fn shape(tokens: &[Token]) -> Vec<Option<TokenKind>> {
    tokens.iter().map(|t| if is_num(t.kind()) { None } else { Some(*t.kind()) }).collect()
}

#[test]
fn brackets_and_delimiters() {
    let tokens = lex("[1, 2, 3]");
    assert_eq!(
        shape(&tokens),
        vec![
            Some(TokenKind::LBracket),
            None,
            Some(TokenKind::Comma),
            None,
            Some(TokenKind::Comma),
            None,
            Some(TokenKind::RBracket),
            Some(Eof),
        ]
    );
}

#[test]
fn function_call_with_args() {
    let tokens = lex("printf(\"hello %d\", 42)");
    assert_eq!(
        shape(&tokens),
        vec![Some(Ident), Some(LParen), Some(String), Some(TokenKind::Comma), None, Some(RParen), Some(Eof)]
    );
}

#[test]
fn nested_function_calls() {
    let tokens = lex("fib(n - 1) + fib(n - 2)");
    assert_eq!(
        shape(&tokens),
        vec![
            Some(Ident),
            Some(LParen),
            Some(Ident),
            Some(Sub),
            None,
            Some(RParen),
            Some(TokenKind::Add),
            Some(Ident),
            Some(LParen),
            Some(Ident),
            Some(Sub),
            None,
            Some(RParen),
            Some(Eof),
        ]
    );
}
