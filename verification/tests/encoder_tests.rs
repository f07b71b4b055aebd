use rv2wasm::code::{build_function, check_body, emit_op, emit_ops};
use rv2wasm::ops::{
    ConstOp, ControlOp, ConvertOp, I32Op, I64ArithOp, I64BitOp, I64CompareOp, IndexOp, LoadOp,
    MemArg, Op, StoreOp, ValueType,
};
use wasm_encoder::{BlockType, Function, Instruction, ValType};

fn encoded(op: &Op) -> Function {
    let mut function = Function::new(vec![(0, ValType::I32)]);
    emit_op(&mut function, op);
    function
}

fn reference(instruction: Instruction) -> Function {
    let mut function = Function::new(vec![(0, ValType::I32)]);
    function.instruction(&instruction);
    function
}

fn arg() -> MemArg {
    MemArg { offset: 300, align: 1, memory_index: 0 }
}

fn their_arg() -> wasm_encoder::MemArg {
    wasm_encoder::MemArg { offset: 300, align: 1, memory_index: 0 }
}

#[test]
fn control_instructions_are_encoded_with_the_empty_block_type() {
    let empty = BlockType::Empty;
    let cases = [
        (ControlOp::Block, Instruction::Block(empty)),
        (ControlOp::Loop, Instruction::Loop(empty)),
        (ControlOp::If, Instruction::If(empty)),
        (ControlOp::End, Instruction::End),
        (ControlOp::Return, Instruction::Return),
        (ControlOp::Drop, Instruction::Drop),
        (ControlOp::Select, Instruction::Select),
    ];
    for (op, instruction) in cases {
        assert_eq!(encoded(&Op::Control(op)), reference(instruction));
    }
}

#[test]
fn index_instructions_are_encoded_with_their_index() {
    let cases = [
        (IndexOp::Br, Instruction::Br(300)),
        (IndexOp::BrIf, Instruction::BrIf(300)),
        (IndexOp::Call, Instruction::Call(300)),
        (IndexOp::LocalGet, Instruction::LocalGet(300)),
        (IndexOp::LocalSet, Instruction::LocalSet(300)),
        (IndexOp::LocalTee, Instruction::LocalTee(300)),
    ];
    for (op, instruction) in cases {
        assert_eq!(encoded(&Op::Index(op, 300)), reference(instruction));
    }
}

#[test]
fn branch_tables_and_constants_are_encoded_with_their_operands() {
    assert_eq!(
        encoded(&Op::BrTable(vec![0, 1, 2, 200], 4)),
        reference(Instruction::BrTable(vec![0, 1, 2, 200].into(), 4))
    );
    assert_eq!(encoded(&Op::BrTable(vec![], 0)), reference(Instruction::BrTable(vec![].into(), 0)));
    assert_eq!(encoded(&Op::Const(ConstOp::I32(-77))), reference(Instruction::I32Const(-77)));
    assert_eq!(
        encoded(&Op::Const(ConstOp::I64(1 << 40))),
        reference(Instruction::I64Const(1 << 40))
    );
}

#[test]
fn memory_instructions_are_encoded_with_their_immediate() {
    let loads = [
        (LoadOp::I32Load, Instruction::I32Load(their_arg())),
        (LoadOp::I32Load8U, Instruction::I32Load8U(their_arg())),
        (LoadOp::I64Load, Instruction::I64Load(their_arg())),
        (LoadOp::I64Load8S, Instruction::I64Load8S(their_arg())),
        (LoadOp::I64Load8U, Instruction::I64Load8U(their_arg())),
        (LoadOp::I64Load16S, Instruction::I64Load16S(their_arg())),
        (LoadOp::I64Load16U, Instruction::I64Load16U(their_arg())),
        (LoadOp::I64Load32S, Instruction::I64Load32S(their_arg())),
        (LoadOp::I64Load32U, Instruction::I64Load32U(their_arg())),
    ];
    for (op, instruction) in loads {
        assert_eq!(encoded(&Op::Load(op, arg())), reference(instruction));
    }
    let stores = [
        (StoreOp::I32Store, Instruction::I32Store(their_arg())),
        (StoreOp::I64Store, Instruction::I64Store(their_arg())),
        (StoreOp::I64Store8, Instruction::I64Store8(their_arg())),
        (StoreOp::I64Store16, Instruction::I64Store16(their_arg())),
        (StoreOp::I64Store32, Instruction::I64Store32(their_arg())),
    ];
    for (op, instruction) in stores {
        assert_eq!(encoded(&Op::Store(op, arg())), reference(instruction));
    }
    // Another memory than memory 0 is part of the immediate.
    let other = MemArg { offset: 1, align: 0, memory_index: 2 };
    let theirs = wasm_encoder::MemArg { offset: 1, align: 0, memory_index: 2 };
    assert_eq!(
        encoded(&Op::Load(LoadOp::I32Load8U, other)),
        reference(Instruction::I32Load8U(theirs))
    );
}

#[test]
fn numeric_instructions_are_encoded_one_to_one() {
    let cases = [
        (Op::I32(I32Op::Eqz), Instruction::I32Eqz),
        (Op::I32(I32Op::Eq), Instruction::I32Eq),
        (Op::I32(I32Op::Ne), Instruction::I32Ne),
        (Op::I32(I32Op::Add), Instruction::I32Add),
        (Op::I32(I32Op::Sub), Instruction::I32Sub),
        (Op::I32(I32Op::And), Instruction::I32And),
        (Op::I32(I32Op::ShrU), Instruction::I32ShrU),
        (Op::I64Arith(I64ArithOp::Add), Instruction::I64Add),
        (Op::I64Arith(I64ArithOp::Sub), Instruction::I64Sub),
        (Op::I64Arith(I64ArithOp::Mul), Instruction::I64Mul),
        (Op::I64Arith(I64ArithOp::DivS), Instruction::I64DivS),
        (Op::I64Arith(I64ArithOp::DivU), Instruction::I64DivU),
        (Op::I64Arith(I64ArithOp::RemS), Instruction::I64RemS),
        (Op::I64Arith(I64ArithOp::RemU), Instruction::I64RemU),
        (Op::I64Bit(I64BitOp::And), Instruction::I64And),
        (Op::I64Bit(I64BitOp::Or), Instruction::I64Or),
        (Op::I64Bit(I64BitOp::Xor), Instruction::I64Xor),
        (Op::I64Bit(I64BitOp::Shl), Instruction::I64Shl),
        (Op::I64Bit(I64BitOp::ShrS), Instruction::I64ShrS),
        (Op::I64Bit(I64BitOp::ShrU), Instruction::I64ShrU),
        (Op::I64Compare(I64CompareOp::Eqz), Instruction::I64Eqz),
        (Op::I64Compare(I64CompareOp::Eq), Instruction::I64Eq),
        (Op::I64Compare(I64CompareOp::Ne), Instruction::I64Ne),
        (Op::I64Compare(I64CompareOp::LtS), Instruction::I64LtS),
        (Op::I64Compare(I64CompareOp::LtU), Instruction::I64LtU),
        (Op::I64Compare(I64CompareOp::GtS), Instruction::I64GtS),
        (Op::I64Compare(I64CompareOp::GtU), Instruction::I64GtU),
        (Op::I64Compare(I64CompareOp::LeS), Instruction::I64LeS),
        (Op::I64Compare(I64CompareOp::LeU), Instruction::I64LeU),
        (Op::I64Compare(I64CompareOp::GeS), Instruction::I64GeS),
        (Op::I64Compare(I64CompareOp::GeU), Instruction::I64GeU),
        (Op::Convert(ConvertOp::I32WrapI64), Instruction::I32WrapI64),
        (Op::Convert(ConvertOp::I64ExtendI32S), Instruction::I64ExtendI32S),
        (Op::Convert(ConvertOp::I64ExtendI32U), Instruction::I64ExtendI32U),
    ];
    for (op, instruction) in cases {
        assert_eq!(encoded(&op), reference(instruction));
    }
}

#[test]
fn a_list_of_instructions_is_encoded_in_order() {
    let ops = vec![
        Op::Index(IndexOp::LocalGet, 0),
        Op::Const(ConstOp::I32(8)),
        Op::I32(I32Op::Add),
        Op::Control(ControlOp::End),
    ];
    let mut function = Function::new(vec![(1, ValType::I32)]);
    emit_ops(&mut function, &ops);
    emit_ops(&mut function, &vec![]);

    let mut expected = Function::new(vec![(1, ValType::I32)]);
    expected.instruction(&Instruction::LocalGet(0));
    expected.instruction(&Instruction::I32Const(8));
    expected.instruction(&Instruction::I32Add);
    expected.instruction(&Instruction::End);
    assert_eq!(function, expected);
    assert_eq!(build_function(1, ValueType::I32, &ops), Ok(expected));
}

#[test]
fn a_function_declares_one_group_of_locals_of_the_given_type() {
    let built = build_function(7, ValueType::I64, &vec![]).unwrap();
    assert_eq!(built, Function::new(vec![(7, ValType::I64)]));
    // One group, seven locals, type i64.
    assert_eq!(built.byte_len(), 3);
    let built = build_function(200, ValueType::I32, &vec![]).unwrap();
    assert_eq!(built, Function::new(vec![(200, ValType::I32)]));
    // The count 200 takes two bytes.
    assert_eq!(built.byte_len(), 4);
}

#[test]
fn a_body_that_fits_passes_the_check_unchanged() {
    let function = reference(Instruction::Nop);
    assert_eq!(check_body(function.clone()), Ok(function));
}
