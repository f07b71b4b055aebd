use rv2wasm::ir::{WasmFunction, WasmInst};
use rv2wasm::ops::{
    natural, ConstOp, ControlOp, ConvertOp, I32Op, I64ArithOp, I64BitOp, I64CompareOp, IndexOp,
    LoadOp, MemArg, Op, StoreOp, Width,
};
use rv2wasm::transcode::{build_block_function, emit_instruction, transcode};
use wasm_encoder::{BlockType, Function, Instruction, ValType};

fn arg(offset: u64, align: u32) -> MemArg {
    MemArg { offset, align, memory_index: 0 }
}

#[test]
fn control_flow_markers_keep_their_operands() {
    assert_eq!(transcode(&WasmInst::Block { label: 7 }), Some(Op::Control(ControlOp::Block)));
    assert_eq!(transcode(&WasmInst::Loop { label: 9 }), Some(Op::Control(ControlOp::Loop)));
    assert_eq!(transcode(&WasmInst::End), Some(Op::Control(ControlOp::End)));
    assert_eq!(transcode(&WasmInst::Br { label: 3 }), Some(Op::Index(IndexOp::Br, 3)));
    assert_eq!(transcode(&WasmInst::BrIf { label: 0 }), Some(Op::Index(IndexOp::BrIf, 0)));
    assert_eq!(transcode(&WasmInst::Return), Some(Op::Control(ControlOp::Return)));
    assert_eq!(transcode(&WasmInst::Call { func_idx: 12 }), Some(Op::Index(IndexOp::Call, 12)));
}

#[test]
fn locals_and_constants_keep_their_operands() {
    assert_eq!(transcode(&WasmInst::LocalGet { idx: 1 }), Some(Op::Index(IndexOp::LocalGet, 1)));
    assert_eq!(transcode(&WasmInst::LocalSet { idx: 2 }), Some(Op::Index(IndexOp::LocalSet, 2)));
    assert_eq!(transcode(&WasmInst::LocalTee { idx: 3 }), Some(Op::Index(IndexOp::LocalTee, 3)));
    assert_eq!(
        transcode(&WasmInst::I32Const { value: i32::MIN }),
        Some(Op::Const(ConstOp::I32(i32::MIN)))
    );
    assert_eq!(
        transcode(&WasmInst::I64Const { value: i64::MAX }),
        Some(Op::Const(ConstOp::I64(i64::MAX)))
    );
}

#[test]
fn loads_are_aligned_to_their_width() {
    let cases = [
        (WasmInst::I32Load { offset: 4 }, LoadOp::I32Load, 4, 2),
        (WasmInst::I64Load { offset: 8 }, LoadOp::I64Load, 8, 3),
        (WasmInst::I64Load8S { offset: 1 }, LoadOp::I64Load8S, 1, 0),
        (WasmInst::I64Load8U { offset: 0 }, LoadOp::I64Load8U, 0, 0),
        (WasmInst::I64Load16S { offset: 2 }, LoadOp::I64Load16S, 2, 1),
        (WasmInst::I64Load16U { offset: 6 }, LoadOp::I64Load16U, 6, 1),
        (WasmInst::I64Load32S { offset: 12 }, LoadOp::I64Load32S, 12, 2),
        (WasmInst::I64Load32U { offset: u32::MAX }, LoadOp::I64Load32U, 0xFFFF_FFFF, 2),
    ];
    for (inst, op, offset, align) in cases {
        assert_eq!(transcode(&inst), Some(Op::Load(op, arg(offset, align))));
    }
}

#[test]
fn stores_are_aligned_to_their_width() {
    let cases = [
        (WasmInst::I32Store { offset: 4 }, StoreOp::I32Store, 4, 2),
        (WasmInst::I64Store { offset: 248 }, StoreOp::I64Store, 248, 3),
        (WasmInst::I64Store8 { offset: 3 }, StoreOp::I64Store8, 3, 0),
        (WasmInst::I64Store16 { offset: 2 }, StoreOp::I64Store16, 2, 1),
        (WasmInst::I64Store32 { offset: 0 }, StoreOp::I64Store32, 0, 2),
    ];
    for (inst, op, offset, align) in cases {
        assert_eq!(transcode(&inst), Some(Op::Store(op, arg(offset, align))));
    }
}

#[test]
fn widths_and_natural_alignment() {
    assert_eq!(LoadOp::I32Load8U.width(), Width::W8);
    assert_eq!(LoadOp::I64Load16S.width(), Width::W16);
    assert_eq!(LoadOp::I64Load32U.width(), Width::W32);
    assert_eq!(LoadOp::I64Load.width(), Width::W64);
    assert_eq!(StoreOp::I64Store8.width(), Width::W8);
    assert_eq!(StoreOp::I64Store.width(), Width::W64);
    assert_eq!(natural(Width::W8, 5), arg(5, 0));
    assert_eq!(natural(Width::W16, 5), arg(5, 1));
    assert_eq!(natural(Width::W32, 5), arg(5, 2));
    assert_eq!(natural(Width::W64, 5), arg(5, 3));
}

#[test]
fn wide_arithmetic_maps_one_to_one() {
    let cases = [
        (WasmInst::I64Add, Op::I64Arith(I64ArithOp::Add)),
        (WasmInst::I64Sub, Op::I64Arith(I64ArithOp::Sub)),
        (WasmInst::I64Mul, Op::I64Arith(I64ArithOp::Mul)),
        (WasmInst::I64DivS, Op::I64Arith(I64ArithOp::DivS)),
        (WasmInst::I64DivU, Op::I64Arith(I64ArithOp::DivU)),
        (WasmInst::I64RemS, Op::I64Arith(I64ArithOp::RemS)),
        (WasmInst::I64RemU, Op::I64Arith(I64ArithOp::RemU)),
        (WasmInst::I64And, Op::I64Bit(I64BitOp::And)),
        (WasmInst::I64Or, Op::I64Bit(I64BitOp::Or)),
        (WasmInst::I64Xor, Op::I64Bit(I64BitOp::Xor)),
        (WasmInst::I64Shl, Op::I64Bit(I64BitOp::Shl)),
        (WasmInst::I64ShrS, Op::I64Bit(I64BitOp::ShrS)),
        (WasmInst::I64ShrU, Op::I64Bit(I64BitOp::ShrU)),
        (WasmInst::I64Eqz, Op::I64Compare(I64CompareOp::Eqz)),
        (WasmInst::I64Eq, Op::I64Compare(I64CompareOp::Eq)),
        (WasmInst::I64Ne, Op::I64Compare(I64CompareOp::Ne)),
        (WasmInst::I64LtS, Op::I64Compare(I64CompareOp::LtS)),
        (WasmInst::I64LtU, Op::I64Compare(I64CompareOp::LtU)),
        (WasmInst::I64GtS, Op::I64Compare(I64CompareOp::GtS)),
        (WasmInst::I64GtU, Op::I64Compare(I64CompareOp::GtU)),
        (WasmInst::I64LeS, Op::I64Compare(I64CompareOp::LeS)),
        (WasmInst::I64LeU, Op::I64Compare(I64CompareOp::LeU)),
        (WasmInst::I64GeS, Op::I64Compare(I64CompareOp::GeS)),
        (WasmInst::I64GeU, Op::I64Compare(I64CompareOp::GeU)),
    ];
    for (inst, op) in cases {
        assert_eq!(transcode(&inst), Some(op));
    }
}

#[test]
fn narrow_arithmetic_conversions_and_stack_map_one_to_one() {
    let cases = [
        (WasmInst::I32Add, Op::I32(I32Op::Add)),
        (WasmInst::I32Sub, Op::I32(I32Op::Sub)),
        (WasmInst::I32Eqz, Op::I32(I32Op::Eqz)),
        (WasmInst::I32Eq, Op::I32(I32Op::Eq)),
        (WasmInst::I32Ne, Op::I32(I32Op::Ne)),
        (WasmInst::I32WrapI64, Op::Convert(ConvertOp::I32WrapI64)),
        (WasmInst::I64ExtendI32S, Op::Convert(ConvertOp::I64ExtendI32S)),
        (WasmInst::I64ExtendI32U, Op::Convert(ConvertOp::I64ExtendI32U)),
        (WasmInst::Drop, Op::Control(ControlOp::Drop)),
        (WasmInst::Select, Op::Control(ControlOp::Select)),
    ];
    for (inst, op) in cases {
        assert_eq!(transcode(&inst), Some(op));
    }
}

#[test]
fn comments_and_reserved_operations_leave_no_code() {
    assert_eq!(transcode(&WasmInst::Comment { text: "addi a0, a0, 1".to_string() }), None);
    assert_eq!(transcode(&WasmInst::Comment { text: String::new() }), None);
    assert_eq!(transcode(&WasmInst::Reserved { code: 0 }), None);
    assert_eq!(transcode(&WasmInst::Reserved { code: u32::MAX }), None);

    let mut func = Function::new(vec![(0, ValType::I64)]);
    let before = func.clone();
    emit_instruction(&mut func, &WasmInst::Comment { text: "x".to_string() });
    emit_instruction(&mut func, &WasmInst::Reserved { code: 1 });
    assert_eq!(func, before);
}

#[test]
fn emit_instruction_appends_the_encoded_instruction() {
    let mut func = Function::new(vec![(2, ValType::I64)]);
    emit_instruction(&mut func, &WasmInst::LocalGet { idx: 0 });
    emit_instruction(&mut func, &WasmInst::I64Load { offset: 80 });
    emit_instruction(&mut func, &WasmInst::I64Const { value: -5 });
    emit_instruction(&mut func, &WasmInst::I64Add);

    let mut expected = Function::new(vec![(2, ValType::I64)]);
    expected.instruction(&Instruction::LocalGet(0));
    expected.instruction(&Instruction::I64Load(wasm_encoder::MemArg {
        offset: 80,
        align: 3,
        memory_index: 0,
    }));
    expected.instruction(&Instruction::I64Const(-5));
    expected.instruction(&Instruction::I64Add);
    assert_eq!(func, expected);
}

#[test]
fn a_block_function_is_its_locals_its_body_in_order_and_an_end() {
    let block = WasmFunction {
        name: "block_10144".to_string(),
        block_addr: 0x10144,
        num_locals: 3,
        body: vec![
            WasmInst::Comment { text: "ld a0, 16(sp)".to_string() },
            WasmInst::Block { label: 0 },
            WasmInst::LocalGet { idx: 0 },
            WasmInst::I64Load32U { offset: 16 },
            WasmInst::I64Eqz,
            WasmInst::BrIf { label: 0 },
            WasmInst::Reserved { code: 3 },
            WasmInst::LocalGet { idx: 0 },
            WasmInst::I64Const { value: 1 },
            WasmInst::I64Store8 { offset: 20 },
            WasmInst::End,
            WasmInst::I32Const { value: 0x10148 },
        ],
    };
    let built = build_block_function(&block).unwrap();

    let mut expected = Function::new(vec![(3, ValType::I64)]);
    expected.instruction(&Instruction::Block(BlockType::Empty));
    expected.instruction(&Instruction::LocalGet(0));
    expected.instruction(&Instruction::I64Load32U(wasm_encoder::MemArg {
        offset: 16,
        align: 2,
        memory_index: 0,
    }));
    expected.instruction(&Instruction::I64Eqz);
    expected.instruction(&Instruction::BrIf(0));
    expected.instruction(&Instruction::LocalGet(0));
    expected.instruction(&Instruction::I64Const(1));
    expected.instruction(&Instruction::I64Store8(wasm_encoder::MemArg {
        offset: 20,
        align: 0,
        memory_index: 0,
    }));
    expected.instruction(&Instruction::End);
    expected.instruction(&Instruction::I32Const(0x10148));
    expected.instruction(&Instruction::End);
    assert_eq!(built, expected);
}

#[test]
fn an_empty_block_function_still_declares_its_locals_and_ends() {
    let block =
        WasmFunction { name: "empty".to_string(), block_addr: 0, num_locals: 0, body: vec![] };
    let built = build_block_function(&block).unwrap();
    let mut expected = Function::new(vec![(0, ValType::I64)]);
    expected.instruction(&Instruction::End);
    assert_eq!(built, expected);
    assert_eq!(built.byte_len(), 4);
}
