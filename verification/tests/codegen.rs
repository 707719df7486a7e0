use solc::codegen::command::{FlagId, PipeFlags};
use solc::codegen::c::ast::{CExpr, CItem, CStmt, CTranslationUnit, CType};
use solc::codegen::c::compiler::{cc_args, CcOpts};
use solc::codegen::command::CommandBuilder;
use solc::codegen::qbe::{
    AbiTy, BaseTy, Block, Cmp, Const, Data, DataItem, DataValue, Definition, ExtTy, Function,
    Ident, Instruction, Jump, Linkage, Module, Operand, Param, RegularParam, Statement, SubTy,
    SubTyKind, SubWordTy, TyDef,
};
use solc::codegen::quote;
use solc::ast::{BinOpKind, UnaryOpKind};
use solc::codegen::c::C;
use std::rc::Rc;

const STDOUT: FlagId = FlagId(0);
const STDERR: FlagId = FlagId(1);

#[test]
fn pipeflags() {
    let mut flags = PipeFlags::default();

    assert!(flags.is_unset(STDOUT));
    assert!(flags.is_unset(STDERR));

    flags.toggle(STDOUT);

    assert!(flags.is_set(STDOUT));
    assert!(flags.is_unset(STDERR));

    flags.toggle(STDERR);

    assert!(flags.is_set(STDOUT));
    assert!(flags.is_set(STDERR));
}

fn ext(ty: ExtTy) -> SubTy {
    SubTy { kind: SubTyKind::Extended(ty), align: None }
}

fn pair() -> TyDef {
    TyDef::Regular {
        ident: Ident::Ty("pair".to_string()),
        align: None,
        items: vec![(ext(ExtTy::Base(BaseTy::Word)), 1), (ext(ExtTy::Byte), 2), (ext(ExtTy::Base(BaseTy::Long)), 1)],
    }
}

fn temp(name: &str) -> Operand {
    Operand::Var(Ident::Temp(name.to_string()))
}

#[test]
fn regular_type_layout() {
    let ty = pair();
    assert_eq!(ty.align(), 8);
    assert_eq!(ty.size(), 16);
    assert_eq!(ty.offset_for(0), 0);
    assert_eq!(ty.offset_for(1), 4);
    // the long starts at the next multiple of 8 after the two bytes
    assert_eq!(ty.offset_for(2), 8);
    assert_eq!(ty.offset_for(3), 16);
    assert_eq!(ty.offset_for(10), 16);
    let byte_word = TyDef::Regular {
        ident: Ident::Ty("s".to_string()),
        align: None,
        items: vec![(ext(ExtTy::Byte), 1), (ext(ExtTy::Base(BaseTy::Word)), 1)],
    };
    assert_eq!(byte_word.offset_for(0), 0);
    assert_eq!(byte_word.offset_for(1), 4);
    assert_eq!(byte_word.size(), 8);
    assert_eq!(ty.to_string(), "type :pair = align 8{w,b,l,}");
}

#[test]
fn aligned_and_nested_type_layout() {
    // an explicit alignment overrides the one of the items
    let ty = TyDef::Regular {
        ident: Ident::Ty("t".to_string()),
        align: Some(16),
        items: vec![(ext(ExtTy::HalfWord), 3)],
    };
    assert_eq!(ty.align(), 16);
    assert_eq!(ty.size(), 16);
    // an aggregate item takes the size and alignment of its type
    let outer = TyDef::Regular {
        ident: Ident::Ty("outer".to_string()),
        align: None,
        items: vec![(ext(ExtTy::Byte), 1), (SubTy { kind: SubTyKind::Aggregate(Rc::new(pair())), align: Some(8) }, 2)],
    };
    assert_eq!(outer.align(), 8);
    assert_eq!(outer.size(), 8 + 32);
    assert_eq!(outer.offset_for(1), 8);
    let union = TyDef::Union {
        ident: Ident::Ty("u".to_string()),
        align: None,
        variants: vec![vec![(ext(ExtTy::Byte), 3)], vec![(ext(ExtTy::Base(BaseTy::Word)), 1)]],
    };
    assert_eq!(union.align(), 4);
    assert_eq!(union.size(), 4);
    assert_eq!(union.to_string(), "type :u = align 4{{b,w,}}");
    assert_eq!(AbiTy::Aggregate(Rc::new(pair())).size(), 16);
    assert_eq!(AbiTy::Base(BaseTy::Double).align(), 8);
}

#[test]
fn instructions_print_as_qbe_reads_them() {
    assert_eq!(Instruction::Add(temp("a"), Operand::Const(Const::int_lit(2))).to_string(), "add %a, 2");
    assert_eq!(
        Instruction::Cmp(AbiTy::Base(BaseTy::Word), Cmp::Slt, temp("x"), temp("y")).to_string(),
        "csltw %x, %y"
    );
    assert_eq!(
        Instruction::Call(
            "printf".to_string(),
            vec![(AbiTy::Base(BaseTy::Long), Operand::Var(Ident::Global("fmt".to_string()))), (AbiTy::Base(BaseTy::Word), temp("n"))],
            Some(1),
        )
        .to_string(),
        "call $printf(l $fmt, ..., w %n)"
    );
    assert_eq!(Instruction::Alloc8(16).to_string(), "alloc8 16");
    assert_eq!(
        Instruction::Store(AbiTy::Base(BaseTy::Word), temp("p"), Operand::Const(Const::neg_int(5))).to_string(),
        "storew -5, %p"
    );
    assert_eq!(
        Instruction::Store(AbiTy::SubWord(SubWordTy::SignedByte), temp("p"), Operand::Const(Const::int_lit(7))).to_string(),
        "storeb 7, %p"
    );
    assert_eq!(
        Instruction::Store(AbiTy::SubWord(SubWordTy::UnsingedHalfWord), temp("p"), temp("v")).to_string(),
        "storeh %v, %p"
    );
    assert_eq!(Instruction::Load(AbiTy::Base(BaseTy::Long), temp("p")).to_string(), "loadl %p");
    assert_eq!(Instruction::DbgLoc(3, Some(4)).to_string(), "dbgloc 3, 4");
    assert_eq!(Instruction::Blit(temp("s"), temp("d"), 8).to_string(), "blit %s, %d, 8");
    assert_eq!(Instruction::Neg(temp("a")).to_string(), "neg %a");
}

#[test]
fn module_prints_definitions() {
    let data = Data {
        linkage: None,
        ident: Ident::Global("msg".to_string()),
        align: None,
        value: DataValue::Data(vec![
            (ExtTy::Byte, DataItem::String("hi".to_string())),
            (ExtTy::Byte, DataItem::Const(Const::int_lit(0))),
        ]),
    };
    let func = Function {
        linkage: Some(Linkage::Export),
        ident: Ident::Global("main".to_string()),
        return_ty: Some(AbiTy::Base(BaseTy::Word)),
        params: vec![Param::Regular(RegularParam(AbiTy::Base(BaseTy::Long), temp("x"))), Param::VariadicMarker],
        blocks: vec![Block {
            ident: Ident::Block("start".to_string()),
            phi_instructions: vec![],
            instructions: vec![
                Statement::Assign(temp("r"), BaseTy::Word, Instruction::Add(temp("x"), Operand::Const(Const::int_lit(1)))),
                Statement::Volatile(Instruction::Call("puts".to_string(), vec![], None)),
            ],
            jump: Jump::Ret(temp("r")),
        }],
    };
    let mut module = Module::new();
    module.defs.push(Definition::Ty(Rc::new(pair())));
    module.defs.push(Definition::Data(data));
    module.defs.push(Definition::Fn(func));
    let expected = [
        "type :pair = align 8{w,b,l,}",
        "data $msg = {b \"hi\", b 0}",
        "",
        "export function w $main(l %x, ...) {",
        "@start",
        "\t%r =w add %x, 1",
        "\tcall $puts()",
        "\tret %r",
        "",
        "}",
    ]
    .join("\n")
        + "\n";
    assert_eq!(module.to_string(), expected);
}

#[test]
fn c_code() {
    let call = CExpr::call(
        CExpr::ident("printf".to_string()),
        vec![CExpr::str("%d".to_string()), CExpr::int_lit(-3).binop("+", CExpr::ident("x".to_string()))],
    );
    assert_eq!(call.to_string(), "printf(\"%d\",-3+x)");
    let lit = CExpr::compound_lit("P".to_string(), vec![("x".to_string(), CExpr::int_lit(1))]);
    assert_eq!(lit.to_string(), "(P){.x=1,}");
    assert_eq!(CExpr::ident("p".to_string()).member("x".to_string()).addr_of().to_string(), "&p.x");
    assert_eq!(CExpr::sizeof(CType::ptr(CType::Int32)).to_string(), "sizeof(int32_t *)");
    let stmt = CStmt::if_else(
        CExpr::prefix("!", CExpr::ident("ok".to_string())),
        vec![CStmt::ret(CExpr::int_lit(1))],
        vec![CStmt::var(CType::Bool, "b".to_string(), CExpr::ident("true".to_string()))],
    );
    assert_eq!(stmt.to_string(), "if(!ok){return 1;}else{bool b=true;}");
    assert_eq!(CExpr::stmt_expr(vec![CStmt::expr(CExpr::int_lit(2))]).to_string(), "({2;})");

    let mut unit = CTranslationUnit::new();
    unit.push(CItem::include_system("stdio.h".to_string()));
    unit.push(CItem::include_local("gc.h".to_string()));
    unit.push(CItem::typedef_struct("P".to_string(), vec![(CType::Int64, "x".to_string()), (CType::named("List".to_string()), "l".to_string())]));
    unit.push(CItem::fn_def(
        CType::Int32,
        "main".to_string(),
        vec![(CType::Int32, "argc".to_string()), (CType::ptr(CType::CharPtr), "argv".to_string())],
        vec![CStmt::ret(CExpr::int_lit(0))],
    ));
    assert_eq!(
        unit.to_string(),
        "#include <stdio.h>\n#include \"gc.h\"\ntypedef struct P{int64_t x;List l;}P;int32_t main(int32_t argc,char * * argv){return 0;}"
    );
}

#[test]
fn cc_command_line() {
    let opts = CcOpts::new("out/prog".to_string())
        .warnings(vec!["all".to_string(), "extra".to_string()])
        .link_time_optimization(true);
    assert_eq!(
        cc_args("source.c", &opts),
        vec!["source.c", "-o", "out/prog", "-Wall", "-Wextra", "-flto"]
    );
    let plain = CcOpts::new("a.out".to_string());
    assert_eq!(cc_args("x.c", &plain), vec!["x.c", "-o", "a.out"]);
    assert_eq!(quote("hi"), "\"hi\"");
}

#[test]
fn command_builder() {
    let cmd = CommandBuilder::new("qbe").arg("-o".to_string()).arg("out.s".to_string());
    assert_eq!(cmd.program(), "qbe");
    assert_eq!(cmd.args(), vec!["-o".to_string(), "out.s".to_string()]);
    assert!(!cmd.pipes_stdout());
    let cmd = cmd.with_piped_stdio();
    assert!(cmd.pipes_stdout());
    assert!(cmd.pipes_stderr());
    assert!(CommandBuilder::new("cc").args().is_empty());
}

#[test]
fn c_operators() {
    assert_eq!(C::lower_bin_op(&BinOpKind::Eq), "==");
    assert_eq!(C::lower_bin_op(&BinOpKind::Ne), "!=");
    assert_eq!(C::lower_bin_op(&BinOpKind::Div), "/");
    assert_eq!(C::lower_bin_op(&BinOpKind::And), "&&");
    assert_eq!(C::lower_bin_op(&BinOpKind::Or), "||");
    assert_eq!(C::lower_unary_op(&UnaryOpKind::Negate), "-");
    assert_eq!(C::lower_unary_op(&UnaryOpKind::Not), "!");
    let _backend = C::new(std::path::PathBuf::from("/tmp"));
}
