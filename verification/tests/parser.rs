use solc::ast::fmt::DisplayModule;
use solc::ast::{
    BinOpKind, Expr, FloatTy, FnKind, IntTy, Item, LiteralKind, LiteralSuffix, Stmnt, TyKind, UIntTy,
};
use solc::lexer::num::ReadNumber;
use solc::parser::num::{clean_digit_str, parse_suffix, split_digit_str, ParseSuffixError};
use solc::parser::{ParseError, Parser};

fn parse(src: &str) -> solc::ast::Module {
    let mut parser = Parser::new("test.sol".to_string(), src).ok().unwrap();
    parser.parse().ok().unwrap()
}

fn parse_err(src: &str) -> ParseError {
    let mut parser = Parser::new("test.sol".to_string(), src).ok().unwrap();
    parser.parse().err().unwrap()
}

fn body(module: &solc::ast::Module) -> &Vec<Stmnt> {
    match &module.items[0] {
        Item::Fn(f) => match &f.kind {
            FnKind::Local { body, .. } => &body.nodes,
            FnKind::Extern { .. } => panic!("expected a local function"),
        },
        _ => panic!("expected a function"),
    }
}

#[test]
fn print_function() {
    let src = "func main() -> i32\n  return 1 + 2\nend";
    let module = parse(src);
    let printed = DisplayModule { module: &module, source: src }.to_string();
    assert_eq!(
        printed,
        "(module\n  (function [0:0 - 2:3] \"main\"\n    returns:\n      (type [0:15 - 1:0] i32)\n    body:\n      (block [1:2 - 2:3]\n        (return [1:2 - 2:0]\n          (binary_op [1:9 - 1:14] +\n            (literal [1:9 - 1:10] 1)\n            (literal [1:13 - 1:14] 2))))))\n"
    );
}

#[test]
fn print_items() {
    let src = "use extern stdio\nextern variadic func printf(fmt: Str) -> i32\nstruct Point =\n  x: i32\n  y: u8[]\nend";
    let module = parse(src);
    let printed = DisplayModule { module: &module, source: src }.to_string();
    assert_eq!(
        printed,
        "(module\n  (use [0:0 - 1:0] extern \"stdio\")\n  (extern_function [1:0 - 2:6] \"printf\"\n    params:\n      (param [1:28 - 1:31] \"fmt\"\n        (type [1:33 - 1:37] str))\n      (variadic)\n    returns:\n      (type [1:41 - 2:0] i32))\n  (struct_def [2:0 - 5:3] \"Point\"\n    (field [3:2 - 3:3] \"x\"\n      (type [3:5 - 4:0] i32))\n    (field [4:2 - 4:3] \"y\"\n      (type [4:5 - 5:0] list\n        (type [4:5 - 4:8] u8)))))\n"
    );
}

#[test]
fn print_exprs() {
    let src = "func f(a: i32) -> Bool\n  let mut x: i32 = -a\n  p.y = g(x, [1 , 2 ])[0 ]\n  while x < 3 do\n    x = x\n  end\n  if !true then\n    Point { x: 1 }\n  else\n    \"s\"\n  end\nend";
    let module = parse(src);
    let printed = DisplayModule { module: &module, source: src }.to_string();
    let expected = [
        "(module",
        "  (function [0:0 - 11:3] \"f\"",
        "    params:",
        "      (param [0:7 - 0:8] \"a\"",
        "        (type [0:10 - 0:14] i32))",
        "    returns:",
        "      (type [0:18 - 1:0] bool)",
        "    body:",
        "      (block [1:2 - 11:3]",
        "        (let [1:2 - 1:21]",
        "          name: \"x\"",
        "          type:",
        "            (type [1:13 - 1:18] i32)",
        "          value:",
        "            (unary_op [1:19 - 1:21] -",
        "              (identifier [1:20 - 1:21] \"a\")))",
        "        (assign [2:2 - 2:26]",
        "          (member_access [2:2 - 2:5] .y",
        "            (identifier [2:2 - 2:3] \"p\"))",
        "          (index [2:8 - 2:26]",
        "            (call [2:8 - 2:22]",
        "              func:",
        "                (identifier [2:8 - 2:9] \"g\")",
        "              args:",
        "                (identifier [2:10 - 2:11] \"x\")",
        "                (list [2:13 - 2:21]",
        "                  (literal [2:14 - 2:15] 1)",
        "                  (literal [2:18 - 2:19] 2)))",
        "            at:",
        "              (literal [2:23 - 2:24] 0)))",
        "        (while [3:2 - 5:5]",
        "          condition:",
        "            (binary_op [3:8 - 3:13] <",
        "              (identifier [3:8 - 3:9] \"x\")",
        "              (literal [3:12 - 3:13] 3))",
        "          body:",
        "            (block [4:4 - 5:5]",
        "              (assign [4:4 - 4:9]",
        "                (identifier [4:4 - 4:5] \"x\")",
        "                (identifier [4:8 - 4:9] \"x\"))))",
        "        (if_else [6:2 - 10:5]",
        "          condition:",
        "            (unary_op [6:5 - 6:10] not",
        "              (literal [6:6 - 6:10] true))",
        "          consequence:",
        "            (block [7:4 - 8:6]",
        "              (constructor [7:4 - 7:18] \"Point\"",
        "                x:",
        "                  (literal [7:15 - 7:16] 1)))",
        "          alternative:",
        "            (block [9:4 - 10:5]",
        "              (literal [9:4 - 9:5] \"s\"))))))",
    ]
    .join("\n")
        + "\n";
    assert_eq!(printed, expected);
}

#[test]
fn precedence() {
    let module = parse("func f() -> i32\n  1 + 2 * 3\nend");
    match &body(&module)[0] {
        Stmnt::Expr(Expr::BinOp(add)) => {
            assert_eq!(add.op.kind, BinOpKind::Add);
            match (&*add.lhs, &*add.rhs) {
                (Expr::Literal(one), Expr::BinOp(mul)) => {
                    assert!(matches!(one.kind, LiteralKind::Int(1)));
                    assert_eq!(mul.op.kind, BinOpKind::Mul);
                }
                _ => panic!("`*` binds tighter than `+`"),
            }
        }
        _ => panic!("expected a binary operation"),
    }
}

#[test]
fn list_type_with_size() {
    let module = parse("func f(xs: u8[4 ]) -> Bool\n  true\nend");
    match &module.items[0] {
        Item::Fn(f) => match &f.kind {
            FnKind::Local { params, .. } => match &params[0].1.kind {
                TyKind::List { inner, size } => {
                    assert_eq!(*size, Some(4));
                    assert!(matches!(inner.kind, TyKind::UInt(UIntTy::U8)));
                }
                _ => panic!("expected a list type"),
            },
            _ => panic!("expected a local function"),
        },
        _ => panic!("expected a function"),
    }
}

#[test]
fn unexpected_item() {
    assert!(matches!(parse_err("let x = 1"), ParseError::Todo { .. }));
}

#[test]
fn missing_paren() {
    match parse_err("func main -> i32\nend") {
        ParseError::Expected { expected, actual, .. } => {
            assert_eq!(expected, solc::lexer::token::TokenKind::LParen);
            assert_eq!(actual, solc::lexer::token::TokenKind::Arrow);
        }
        _ => panic!("expected a missing `(`"),
    }
}

#[test]
fn number_that_is_not_an_integer() {
    assert!(matches!(parse_err("func f() -> i32\n  1.5\nend"), ParseError::InvalidInt { .. }));
}

#[test]
fn lexer_error_is_passed_on() {
    assert!(matches!(parse_err("func f() -> i32\n  #\nend"), ParseError::Lexer(_)));
}

#[test]
fn empty_input_is_an_empty_module() {
    assert_eq!(parse("").items.len(), 0);
}

#[test]
fn digit_separators_are_dropped() {
    assert_eq!(clean_digit_str("100_000_000"), "100000000");
    assert_eq!(clean_digit_str("42"), "42");
    assert_eq!(clean_digit_str("_"), "");
}

#[test]
fn number_text_splits_into_prefix_digits_suffix() {
    let text = "0xFF_u32";
    let num = ReadNumber::try_read(text).unwrap();
    assert_eq!(split_digit_str(text, &num), (Some("0x"), "FF_", Some("u32")));

    let text = "100_u32";
    let num = ReadNumber::try_read(text).unwrap();
    assert_eq!(split_digit_str(text, &num), (None, "100_", Some("u32")));

    let text = "10.00";
    let num = ReadNumber::try_read(text).unwrap();
    assert_eq!(split_digit_str(text, &num), (None, "10.00", None));
}

#[test]
fn literal_suffixes() {
    assert_eq!(parse_suffix("i8"), Ok(LiteralSuffix::Int(IntTy::I8)));
    assert_eq!(parse_suffix("i64"), Ok(LiteralSuffix::Int(IntTy::I64)));
    assert_eq!(parse_suffix("u16"), Ok(LiteralSuffix::UInt(UIntTy::U16)));
    assert_eq!(parse_suffix("f32"), Ok(LiteralSuffix::Float(FloatTy::F32)));
    assert_eq!(parse_suffix("f64"), Ok(LiteralSuffix::Float(FloatTy::F64)));
    assert_eq!(parse_suffix("u128"), Err(ParseSuffixError::Invalid("u128".to_string())));
    assert_eq!(parse_suffix(""), Err(ParseSuffixError::Invalid(String::new())));
}

fn expr_ids(e: &Expr, out: &mut Vec<u32>) {
    match e {
        Expr::Ident(i) => out.push(i.id.0),
        Expr::Literal(l) => out.push(l.id.0),
        Expr::Block(b) => block_ids(b, out),
        Expr::BinOp(b) => {
            expr_ids(&b.lhs, out);
            expr_ids(&b.rhs, out);
            out.push(b.id.0);
        }
        Expr::Unary(u) => {
            expr_ids(&u.rhs, out);
            out.push(u.id.0);
        }
        Expr::Call(c) => {
            expr_ids(&c.func, out);
            c.params.iter().for_each(|p| expr_ids(p, out));
            out.push(c.id.0);
        }
        Expr::Index(i) => {
            expr_ids(&i.expr, out);
            expr_ids(&i.idx, out);
            out.push(i.id.0);
        }
        Expr::IfElse(ie) => {
            expr_ids(&ie.condition, out);
            block_ids(&ie.consequence, out);
            if let Some(alt) = &ie.alternative {
                block_ids(alt, out);
            }
            out.push(ie.id.0);
        }
        Expr::List(l) => {
            l.items.iter().for_each(|i| expr_ids(i, out));
            out.push(l.id.0);
        }
        Expr::Constructor(c) => {
            out.push(c.ident.id.0);
            c.fields.iter().for_each(|(_, v)| expr_ids(v, out));
            out.push(c.id.0);
        }
        Expr::MemberAccess(m) => {
            expr_ids(&m.lhs, out);
            out.push(m.id.0);
        }
        Expr::Ref(inner) => expr_ids(inner, out),
        Expr::Assign(a) => {
            expr_ids(&a.lhs, out);
            out.push(a.id.0);
            expr_ids(&a.rhs, out);
        }
        Expr::Break(b) => out.push(b.id.0),
        Expr::Continue(c) => out.push(c.id.0),
        Expr::While(w) => {
            expr_ids(&w.condition, out);
            block_ids(&w.consequence, out);
            out.push(w.id.0);
        }
    }
}

fn block_ids(b: &solc::ast::Block, out: &mut Vec<u32>) {
    for st in b.nodes.iter() {
        match st {
            Stmnt::Let(l) => {
                out.push(l.ident.id.0);
                if let Some(t) = &l.ty {
                    out.push(t.id.0);
                }
                expr_ids(&l.val, out);
            }
            Stmnt::Ret(r) => expr_ids(&r.val, out),
            Stmnt::Expr(e) => expr_ids(e, out),
        }
    }
    out.push(b.id.0);
}

#[test]
fn node_ids_are_distinct_and_in_order() {
    let module = parse(
        "struct P =\n  x: i32\nend\nfunc f(a: i32, b: u8[2 ]) -> i32\n  let mut xs: i32 = [a, 2 ]\n  p.x = g(a, P { x: 1 })[0 ]\n  while a < 3 do\n    a = a + -1\n  end\n  if !true then\n    1\n  else\n    2\n  end\nend",
    );
    let mut ids = vec![];
    for item in module.items.iter() {
        match item {
            Item::Fn(f) => {
                ids.push(f.ident.id.0);
                if let FnKind::Local { params, body } = &f.kind {
                    for (ident, ty) in params.iter() {
                        ids.push(ident.id.0);
                        ids.push(ty.id.0);
                    }
                    ids.push(f.return_ty.id.0);
                    block_ids(body, &mut ids);
                }
            }
            Item::StructDef(d) => {
                ids.push(d.ident.id.0);
                for (_, ty) in d.fields.iter() {
                    ids.push(ty.id.0);
                }
            }
            _ => {}
        }
    }
    assert!(ids.len() > 30);
    assert!(ids.windows(2).all(|w| w[0] < w[1]), "ids out of order: {ids:?}");
}

fn first_literal(src: &str) -> solc::ast::Literal {
    let module = parse(src);
    match &body(&module)[0] {
        Stmnt::Expr(Expr::Literal(lit)) => lit.clone(),
        _ => panic!("expected a literal"),
    }
}

#[test]
fn number_literals_read_digits_in_their_radix() {
    let hex = first_literal("func f() -> i32\n  0xFF\nend");
    assert!(matches!(hex.kind, LiteralKind::Int(255)));
    assert!(hex.suffix.is_none());
    let suffixed = first_literal("func f() -> i32\n  100_u32\nend");
    assert!(matches!(suffixed.kind, LiteralKind::Int(100)));
    assert_eq!(suffixed.suffix, Some(LiteralSuffix::UInt(UIntTy::U32)));
    let separated = first_literal("func f() -> i32\n  1_000_000\nend");
    assert!(matches!(separated.kind, LiteralKind::Int(1000000)));
    let hex_suffixed = first_literal("func f() -> i32\n  0x1F_i64\nend");
    assert!(matches!(hex_suffixed.kind, LiteralKind::Int(31)));
    assert_eq!(hex_suffixed.suffix, Some(LiteralSuffix::Int(IntTy::I64)));
}

#[test]
fn unknown_literal_suffix_is_refused() {
    match parse_err("func f() -> i32\n  7_q\nend") {
        ParseError::InvalidSuffix { err: ParseSuffixError::Invalid(text), .. } => assert_eq!(text, "q"),
        _ => panic!("expected an invalid suffix"),
    }
    assert!(matches!(parse_err("func f() -> i32\n  0x\nend"), ParseError::InvalidInt { .. }));
}

#[test]
fn division_binds_tighter_than_addition() {
    let module = parse("func f() -> i32\n  1 + 6 / 2\nend");
    match &body(&module)[0] {
        Stmnt::Expr(Expr::BinOp(add)) => {
            assert_eq!(add.op.kind, BinOpKind::Add);
            assert!(matches!(&*add.lhs, Expr::Literal(l) if matches!(l.kind, LiteralKind::Int(1))));
            match &*add.rhs {
                Expr::BinOp(div) => {
                    assert_eq!(div.op.kind, BinOpKind::Div);
                    assert!(matches!(&*div.lhs, Expr::Literal(l) if matches!(l.kind, LiteralKind::Int(6))));
                    assert!(matches!(&*div.rhs, Expr::Literal(l) if matches!(l.kind, LiteralKind::Int(2))));
                }
                _ => panic!("`/` binds tighter than `+`"),
            }
        }
        _ => panic!("expected a binary operation"),
    }
}

#[test]
fn inequality_is_an_operator() {
    let module = parse("func f() -> Bool\n  1 != 2 + 3\nend");
    match &body(&module)[0] {
        Stmnt::Expr(Expr::BinOp(ne)) => {
            assert_eq!(ne.op.kind, BinOpKind::Ne);
            assert!(matches!(&*ne.rhs, Expr::BinOp(add) if add.op.kind == BinOpKind::Add));
        }
        _ => panic!("expected a binary operation"),
    }
}

#[test]
fn expression_parsed_from_the_parser() {
    let mut parser = Parser::new("inline".to_string(), "8 / 4 * 2").ok().unwrap();
    match parser.expr(solc::parser::prec::Prec::Lowest) {
        Ok(Expr::BinOp(mul)) => {
            assert_eq!(mul.op.kind, BinOpKind::Mul);
            assert!(matches!(&*mul.lhs, Expr::BinOp(div) if div.op.kind == BinOpKind::Div));
        }
        _ => panic!("operators of one precedence group to the left"),
    }
}

#[test]
fn checked_printing_matches_printing() {
    let src = "func main() -> i32\n  return 1 + 2\nend";
    let module = parse(src);
    let shown = DisplayModule { module: &module, source: src };
    assert_eq!(shown.checked_to_string(), Some(shown.to_string()));
}

#[test]
fn lone_use_parses_to_one_item() {
    let module = parse("use io");
    assert_eq!(module.items.len(), 1);
    match &module.items[0] {
        Item::Use(u) => {
            assert!(!u.is_extern);
            assert_eq!(u.name.inner, "io");
        }
        _ => panic!("expected a use item"),
    }
}
