use solc::ast::{BinOpKind, UnaryOpKind};
use solc::codegen::qbe::lower::{block_name, data_name, TempId as AddedTemp};
use solc::codegen::qbe::lower::Builder;
use solc::codegen::qbe::{
    Const, DataItem, DataValue as QbeDataValue, ExtTy, Ident, IntoOperand, Jump,
    Operand as QbeOperand, Sign,
};
use solc::interner::Interner;
use solc::mir::builder::{BlockBuilder, BlockBuilderError, LoopStack};
use solc::mir::fmt::{MirEnv, MirPrinter};
use solc::mir::{
    Block, BlockId, Constant, Data, DataId, DataValue, Definition, Fn, Indirection, Instruction,
    MirTy, Module, Operand, TempId, Terminator, TyDef,
};
use solc::type_checker::{DefId, FieldId, TypeId};

fn env() -> MirEnv {
    let mut types = Interner::new();
    let i32_ty: TypeId = types.intern("i32".to_string());
    assert_eq!(i32_ty, TypeId(0));
    let mut def_names = Interner::new();
    let puts: DefId = def_names.intern("puts".to_string());
    assert_eq!(puts, DefId(0));
    MirEnv { types, def_names }
}

fn sample_fn() -> Fn {
    let i32_ty = MirTy::new(TypeId(0));
    Fn {
        name: "main".to_string(),
        return_ty: i32_ty,
        params: vec![],
        temps: vec![MirTy::new_ptr(TypeId(0)), i32_ty, i32_ty],
        blocks: vec![
            Block {
                body: vec![
                    Instruction::Alloc { dest: TempId(0), ty: MirTy::new_ptr(TypeId(0)), count: 2 },
                    Instruction::Store {
                        addr: TempId(0),
                        val: Operand::Constant(Constant::Int(-5, i32_ty)),
                    },
                    Instruction::bin_op(
                        TempId(1),
                        BinOpKind::Add,
                        Operand::Temporary(TempId(0)),
                        Operand::Constant(Constant::Int(1, i32_ty)),
                    ),
                    Instruction::call(
                        None,
                        DefId(0),
                        vec![Operand::Data(DataId(0)), Operand::Constant(Constant::Bool(true))],
                    ),
                ],
                term: Terminator::branch(Operand::Temporary(TempId(1)), BlockId(1), BlockId(1)),
            },
            Block {
                body: vec![Instruction::copy(TempId(2), Operand::unit())],
                term: Terminator::ret(Operand::Temporary(TempId(2))),
            },
        ],
    }
}

#[test]
fn print_module() {
    let env = env();
    let i32_ty = MirTy::new(TypeId(0));
    let module = Module {
        defs: vec![
            Definition::Ty(TyDef::Struct {
                name: "Point".to_string(),
                fields: vec![(FieldId(0), i32_ty), (FieldId(1), i32_ty)],
            }),
            Definition::Data(Data { id: DataId(0), value: DataValue::String("hello".to_string()) }),
            Definition::Fn(sample_fn()),
        ],
    };
    let printed = MirPrinter::new(module, &env).to_string();
    let expected = [
        "struct Point =",
        "  0 = i32",
        "  1 = i32",
        "",
        "_data_0: hello",
        "",
        "func @main",
        "  bb0:",
        "    _0 = alloc2 *i32",
        "    store -5 -> _0",
        "    _1 = add _0, 1",
        "    call puts(_data_0, true)",
        "    branch _1 -> bb1, bb1",
        "",
        "  bb1:",
        "    _2 = ()",
        "    return _2",
    ]
    .join("\n")
        + "\n";
    assert_eq!(printed, expected);
}

#[test]
fn print_other_instructions() {
    let env = env();
    let i32_ty = MirTy::new(TypeId(0));
    let block = Block {
        body: vec![
            Instruction::unary_op(TempId(3), UnaryOpKind::Negate, Operand::Temporary(TempId(1))),
            Instruction::unary_op(TempId(4), UnaryOpKind::Not, Operand::Constant(Constant::Bool(false))),
            Instruction::Load { dest: TempId(5), addr: TempId(0) },
            Instruction::IndexPtr {
                dest: TempId(6),
                base: Operand::Temporary(TempId(0)),
                index: Operand::Constant(Constant::Int(3, i32_ty)),
                elem_ty: i32_ty,
            },
            Instruction::FieldPtr {
                dest: TempId(7),
                lval: Operand::Temporary(TempId(6)),
                field_id: FieldId(2),
                base_ty: i32_ty,
                field_ty: i32_ty,
            },
            Instruction::call(Some(TempId(8)), DefId(0), vec![]),
            Instruction::Copy {
                dest: TempId(9),
                val: Operand::Constant(Constant::Float("2.5".to_string(), i32_ty)),
            },
            Instruction::Alloc { dest: TempId(10), ty: i32_ty, count: 1 },
        ],
        term: Terminator::goto(BlockId(0)),
    };
    let func = Fn {
        name: "f".to_string(),
        return_ty: i32_ty,
        params: vec![(TempId(0), i32_ty)],
        temps: vec![],
        blocks: vec![block],
    };
    let printed = MirPrinter::new(Module { defs: vec![Definition::Fn(func)] }, &env).to_string();
    let expected = [
        "func @f",
        "  bb0:",
        "    _3 = neg _1",
        "    _4 = not false",
        "    _5 = _0",
        "    _6 = index _0 -> 3",
        "    _7 = getfieldptr _6 -> 2",
        "    _8 = call puts()",
        "    _9 = 2.5",
        "    _10 = alloc1 i32",
        "    goto ->bb0",
    ]
    .join("\n")
        + "\n";
    assert_eq!(printed, expected);
}

#[test]
fn print_empty_module() {
    let env = env();
    let printed = MirPrinter::new(Module { defs: vec![] }, &env).to_string();
    assert_eq!(printed, "");
}

#[test]
fn copies_of_unit_are_dropped() {
    assert!(Instruction::copy_non_unit(TempId(0), Operand::unit()).is_none());
    match Instruction::copy_non_unit(TempId(1), Operand::Temporary(TempId(2))) {
        Some(Instruction::Copy { dest, val: Operand::Temporary(src) }) => {
            assert_eq!(dest, TempId(1));
            assert_eq!(src, TempId(2));
        },
        _ => panic!("expected a copy"),
    }
    assert_eq!(Operand::Temporary(TempId(4)).as_temp(), Some(&TempId(4)));
    assert_eq!(Operand::Data(DataId(4)).as_temp(), None);
}

#[test]
fn mir_types() {
    let mut ty = MirTy::new(TypeId(3));
    assert!(!ty.indirection.is_ptr());
    ty.set_indirection(Indirection::Ptr);
    assert!(ty.indirection.is_ptr());
    assert_eq!(ty, MirTy::new_ptr(TypeId(3)));
    assert_eq!(Indirection::default(), Indirection::Direct);
    let func = sample_fn();
    assert_eq!(func.temp_ty(TempId(0)), MirTy::new_ptr(TypeId(0)));
    assert_eq!(func.temp_ty(TempId(2)), MirTy::new(TypeId(0)));
}

#[test]
fn block_builder() {
    let mut builder = BlockBuilder::default();
    assert!(!builder.is_terminated());
    builder
        .push_instr(Instruction::copy(TempId(0), Operand::Temporary(TempId(1))))
        .push_instr_opt(None)
        .push_instr_opt(Instruction::copy_non_unit(TempId(2), Operand::Temporary(TempId(3))));
    assert_eq!(builder.terminate(Terminator::goto(BlockId(7))), Ok(()));
    assert!(builder.is_terminated());
    // A second terminator is refused; the first one stays.
    assert_eq!(builder.terminate(Terminator::goto(BlockId(8))), Err(BlockBuilderError::AlreadyTerminated));
    let block = builder.build().unwrap();
    assert_eq!(block.body.len(), 2);
    assert!(matches!(block.term, Terminator::Goto(BlockId(7))));
}

#[test]
fn unterminated_block_is_refused() {
    let mut builder = BlockBuilder::default();
    builder.push_instr(Instruction::copy(TempId(0), Operand::unit()));
    assert!(matches!(builder.build(), Err(BlockBuilderError::Unterminated)));
}

#[test]
fn loop_stack() {
    let mut loops = LoopStack::default();
    assert!(loops.current().is_none());
    loops.enter(BlockId(1), BlockId(2), TempId(3));
    loops.enter(BlockId(4), BlockId(5), TempId(6));
    let inner = *loops.current().unwrap();
    assert_eq!(inner.enter_block, BlockId(4));
    assert_eq!(inner.join_block, BlockId(5));
    assert_eq!(inner.dest, TempId(6));
    assert_eq!(loops.leave(), Some(inner));
    let outer = loops.leave().unwrap();
    assert_eq!(outer.join_block, BlockId(2));
    assert_eq!(loops.leave(), None);
    assert!(loops.current().is_none());
}

#[test]
fn loop_stack_spills_past_eight() {
    let mut loops = LoopStack::default();
    for i in 0..20u32 {
        loops.enter(BlockId(i), BlockId(i + 100), TempId(i));
    }
    for i in (0..20u32).rev() {
        assert_eq!(loops.current().unwrap().enter_block, BlockId(i));
        assert_eq!(loops.leave().unwrap().join_block, BlockId(i + 100));
    }
    assert_eq!(loops.leave(), None);
}

fn temp_name(operand: QbeOperand) -> String {
    match operand {
        QbeOperand::Var(Ident::Temp(name)) => name,
        other => panic!("expected a temporary, got {other:?}"),
    }
}

#[test]
fn lowered_names() {
    assert_eq!(block_name(&BlockId(12)), Ident::Block("bb12".to_string()));
    assert_eq!(data_name(DataId(3)), Ident::Global("dat_3".to_string()));
    assert_eq!(temp_name(TempId(0).into_operand()), "a");
    assert_eq!(temp_name(TempId(27).into_operand()), "ab");
    assert_eq!(temp_name(AddedTemp(0).into_operand()), "_za");
    assert_eq!(temp_name(AddedTemp(26).into_operand()), "_aaa");
}

#[test]
fn lowered_operands_and_jumps() {
    let mut builder = Builder::new();
    assert_eq!(builder.new_temp().0, 0);
    assert_eq!(builder.new_temp().0, 1);
    assert_eq!(temp_name(builder.lower_operand(&Operand::Temporary(TempId(2)))), "c");
    match builder.lower_operand(&Operand::Data(DataId(4))) {
        QbeOperand::Var(Ident::Global(name)) => assert_eq!(name, "dat_4"),
        other => panic!("unexpected {other:?}"),
    }
    match builder.lower_operand(&Operand::Constant(Constant::Int(-7, MirTy::new(TypeId(0))))) {
        QbeOperand::Const(Const::Int(Sign::Plain, v)) => assert_eq!(v, -7),
        other => panic!("unexpected {other:?}"),
    }
    match builder.lower_term(&Terminator::branch(Operand::Temporary(TempId(0)), BlockId(1), BlockId(2))) {
        Jump::Jnz(cond, Ident::Block(yes), Ident::Block(no)) => {
            assert_eq!(temp_name(cond), "a");
            assert_eq!(yes, "bb1");
            assert_eq!(no, "bb2");
        }
        other => panic!("unexpected {other:?}"),
    }
    assert!(matches!(builder.lower_term(&Terminator::goto(BlockId(3))), Jump::Jmp(Ident::Block(n)) if n == "bb3"));
    let data = builder.lower_data(&Data { id: DataId(1), value: DataValue::String("hey".to_string()) });
    assert!(data.linkage.is_none());
    assert_eq!(data.ident, Ident::Global("dat_1".to_string()));
    match data.value {
        QbeDataValue::Data(items) => {
            assert_eq!(items.len(), 2);
            assert!(matches!(&items[0], (ExtTy::Byte, DataItem::String(s)) if s == "hey"));
            assert!(matches!(&items[1], (ExtTy::Byte, DataItem::Const(Const::Int(Sign::Plain, 0)))));
        }
        other => panic!("unexpected {other:?}"),
    }
}
