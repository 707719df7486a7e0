use solc::ast::{Ident, NodeId};
use solc::lexer::source::Span;
use solc::lexer::token::{Token, TokenKind};
use solc::number::bijective_base26;
use solc::parser::num::parse_i128;
use solc::parser::prec::Prec;
use solc::type_checker::fmt::TyDisplay;
use solc::type_checker::mangle::Mangle;
use solc::type_checker::{DefId, Scope};

fn ident(name: &str) -> Ident {
    Ident { id: NodeId(0), span: Span { offset: 0, length: name.len() }, inner: name.to_string(), is_extern: false }
}

#[test]
fn base26_names() {
    assert_eq!(bijective_base26(0), "a");
    assert_eq!(bijective_base26(25), "z");
    assert_eq!(bijective_base26(26), "aa");
    assert_eq!(bijective_base26(27), "ab");
    assert_eq!(bijective_base26(701), "zz");
    assert_eq!(bijective_base26(702), "aaa");
}

#[test]
fn scopes_resolve_innermost_first() {
    let mut root = Scope::new();
    assert_eq!(root.get_definition(&ident("x")), None);
    root.define("x", DefId(1));
    root.define("y", DefId(2));
    assert_eq!(root.get_definition(&ident("x")), Some(&DefId(1)));
    root.define("x", DefId(3));
    assert_eq!(root.get_definition(&ident("x")), Some(&DefId(3)));
    let mut child = root.new_child();
    assert_eq!(child.get_definition(&ident("y")), Some(&DefId(2)));
    child.define("y", DefId(4));
    assert_eq!(child.get_definition(&ident("y")), Some(&DefId(4)));
    assert_eq!(child.get_definition(&ident("x")), Some(&DefId(3)));
    assert_eq!(child.get_definition(&ident("z")), None);
}

#[test]
fn mangled_names() {
    let def = ident("Point");
    let item = ident("new");
    assert_eq!(Mangle::AssocItem(&def, &item).to_string(), "_Point_new");
}

#[test]
fn type_display_keeps_its_text() {
    assert_eq!(TyDisplay::from_text("i32[]".to_string()).as_str(), "i32[]");
}

#[test]
fn integer_literal_values() {
    assert_eq!(parse_i128("0"), Some(0));
    assert_eq!(parse_i128("42"), Some(42));
    assert_eq!(parse_i128("-17"), Some(-17));
    assert_eq!(parse_i128("+5"), Some(5));
    assert_eq!(parse_i128("170141183460469231731687303715884105727"), Some(i128::MAX));
    assert_eq!(parse_i128("-170141183460469231731687303715884105728"), Some(i128::MIN));
    assert_eq!(parse_i128("170141183460469231731687303715884105728"), None);
    assert_eq!(parse_i128(""), None);
    assert_eq!(parse_i128("-"), None);
    assert_eq!(parse_i128("1_000"), None);
    assert_eq!(parse_i128("0x10"), None);
}

#[test]
fn operator_precedence() {
    let tok = |kind| Token::new(kind, String::new(), 0);
    assert_eq!(Prec::from(&tok(TokenKind::Add)), Prec::Sum);
    assert_eq!(Prec::from(&tok(TokenKind::Asterisk)), Prec::Product);
    assert_eq!(Prec::from(&tok(TokenKind::Dot)), Prec::Chain);
    assert_eq!(Prec::from(&tok(TokenKind::Newline)), Prec::Lowest);
    assert_eq!(Prec::default(), Prec::Lowest);
    assert!(Prec::Sum.lt(&Prec::Product));
    assert!(!Prec::Product.lt(&Prec::Sum));
    assert!(!Prec::Sum.lt(&Prec::Sum));
    assert_eq!(Prec::Lowest.rank(), 0);
    assert_eq!(Prec::Chain.rank(), 11);
}

#[test]
fn enclosing_spans() {
    let a = Span::new(3, 2);
    let b = Span::new(10, 4);
    assert_eq!(a.enclosing_to(&b), Span::new(3, 11));
    assert_eq!(a.enclosing_to(&a), a);
}
