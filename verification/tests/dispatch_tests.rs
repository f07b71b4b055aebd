use rv2wasm::dispatch::{
    build_dispatch_function, dispatch_code, DISPATCH_FUNCTION, DISPATCH_MAP_OFFSET,
    FIRST_BLOCK_FUNCTION, HALT_PC, REGISTER_FILE_SIZE, STATUS_HALT, STATUS_UNKNOWN_PC, TRAP_FLAG,
    TRAP_FUNCTION,
};
use rv2wasm::dispatch_table::DispatchTable;
use rv2wasm::ops::{ConstOp, ControlOp, I32Op, IndexOp, LoadOp, MemArg, Op};
use wasm_encoder::{BlockType, Function, Instruction, ValType};

fn head() -> Vec<Op> {
    vec![
        Op::Index(IndexOp::LocalGet, 1),
        Op::Index(IndexOp::LocalSet, 2),
        Op::Control(ControlOp::Loop),
        // halt check
        Op::Index(IndexOp::LocalGet, 2),
        Op::Const(ConstOp::I32(-1)),
        Op::I32(I32Op::Eq),
        Op::Control(ControlOp::If),
        Op::Const(ConstOp::I32(0)),
        Op::Control(ControlOp::Return),
        Op::Control(ControlOp::End),
        // trap check
        Op::Index(IndexOp::LocalGet, 2),
        Op::Const(ConstOp::I32(i32::MIN)),
        Op::I32(I32Op::And),
        Op::Control(ControlOp::If),
        Op::Index(IndexOp::LocalGet, 0),
        Op::Index(IndexOp::LocalGet, 2),
        Op::Index(IndexOp::Call, 0),
        Op::Index(IndexOp::LocalSet, 2),
        Op::Index(IndexOp::Br, 1),
        Op::Control(ControlOp::End),
    ]
}

fn tail() -> Vec<Op> {
    vec![
        Op::Const(ConstOp::I32(-1)),
        Op::Control(ControlOp::Return),
        Op::Control(ControlOp::End),
        Op::Const(ConstOp::I32(0)),
        Op::Control(ControlOp::End),
    ]
}

#[test]
fn the_layout_constants_have_their_values() {
    assert_eq!(REGISTER_FILE_SIZE, 32 * 8);
    assert_eq!(DISPATCH_MAP_OFFSET, 256);
    assert_eq!(HALT_PC, -1);
    assert_eq!(TRAP_FLAG as u32, 0x8000_0000);
    assert_eq!(STATUS_HALT, 0);
    assert_eq!(STATUS_UNKNOWN_PC, -1);
    assert_eq!(TRAP_FUNCTION, 0);
    assert_eq!(DISPATCH_FUNCTION, 1);
    assert_eq!(FIRST_BLOCK_FUNCTION, 2);
}

#[test]
fn without_blocks_the_routine_has_no_lookup() {
    let mut expected = head();
    expected.extend(tail());
    assert_eq!(dispatch_code(0, 0), expected);
    // The start of the table plays no part.
    assert_eq!(dispatch_code(0, 0x4000), expected);
}

#[test]
fn two_blocks_give_three_scopes_and_two_handlers() {
    let mut expected = head();
    expected.extend(vec![
        Op::Control(ControlOp::Block),
        Op::Control(ControlOp::Block),
        Op::Control(ControlOp::Block),
        Op::Index(IndexOp::LocalGet, 2),
        Op::Const(ConstOp::I32(0x1000)),
        Op::I32(I32Op::Sub),
        Op::Const(ConstOp::I32(1)),
        Op::I32(I32Op::ShrU),
        Op::Const(ConstOp::I32(256)),
        Op::I32(I32Op::Add),
        Op::Load(LoadOp::I32Load8U, MemArg { offset: 0, align: 0, memory_index: 0 }),
        Op::BrTable(vec![0, 1], 2),
        // case 0
        Op::Control(ControlOp::End),
        Op::Index(IndexOp::LocalGet, 0),
        Op::Index(IndexOp::Call, 2),
        Op::Index(IndexOp::LocalSet, 2),
        Op::Index(IndexOp::Br, 2),
        // case 1
        Op::Control(ControlOp::End),
        Op::Index(IndexOp::LocalGet, 0),
        Op::Index(IndexOp::Call, 3),
        Op::Index(IndexOp::LocalSet, 2),
        Op::Index(IndexOp::Br, 1),
        // default
        Op::Control(ControlOp::End),
    ]);
    expected.extend(tail());
    assert_eq!(dispatch_code(2, 0x1000), expected);
}

#[test]
fn the_handler_of_case_i_calls_block_i_and_leaves_n_minus_i_scopes() {
    let n: u32 = 40;
    let code = dispatch_code(n, 0);
    assert_eq!(code.len(), 20 + (n as usize + 1) + 8 + 1 + 5 * n as usize + 1 + 5);
    let first_handler = 20 + (n as usize + 1) + 8 + 1;
    assert_eq!(code[first_handler - 1], Op::BrTable((0..n).collect(), n));
    for i in 0..n {
        let at = first_handler + 5 * i as usize;
        assert_eq!(code[at], Op::Control(ControlOp::End));
        assert_eq!(code[at + 1], Op::Index(IndexOp::LocalGet, 0));
        assert_eq!(code[at + 2], Op::Index(IndexOp::Call, i + 2));
        assert_eq!(code[at + 3], Op::Index(IndexOp::LocalSet, 2));
        assert_eq!(code[at + 4], Op::Index(IndexOp::Br, n - i));
    }
}

#[test]
fn a_table_start_with_the_top_bit_set_becomes_a_negative_constant() {
    let code = dispatch_code(1, 0xFFFF_FFFE);
    assert_eq!(code[23], Op::Const(ConstOp::I32(-2)));
}

#[test]
fn the_dispatch_function_is_the_encoded_routine_with_one_i32_local() {
    let table = DispatchTable { min_addr: 0x10100, data: vec![0], num_functions: 1 };
    let built = build_dispatch_function(&table).unwrap();

    let empty = BlockType::Empty;
    let mut expected = Function::new(vec![(1, ValType::I32)]);
    expected.instruction(&Instruction::LocalGet(1));
    expected.instruction(&Instruction::LocalSet(2));
    expected.instruction(&Instruction::Loop(empty));
    expected.instruction(&Instruction::LocalGet(2));
    expected.instruction(&Instruction::I32Const(-1));
    expected.instruction(&Instruction::I32Eq);
    expected.instruction(&Instruction::If(empty));
    expected.instruction(&Instruction::I32Const(0));
    expected.instruction(&Instruction::Return);
    expected.instruction(&Instruction::End);
    expected.instruction(&Instruction::LocalGet(2));
    expected.instruction(&Instruction::I32Const(0x80000000u32 as i32));
    expected.instruction(&Instruction::I32And);
    expected.instruction(&Instruction::If(empty));
    expected.instruction(&Instruction::LocalGet(0));
    expected.instruction(&Instruction::LocalGet(2));
    expected.instruction(&Instruction::Call(0));
    expected.instruction(&Instruction::LocalSet(2));
    expected.instruction(&Instruction::Br(1));
    expected.instruction(&Instruction::End);
    expected.instruction(&Instruction::Block(empty));
    expected.instruction(&Instruction::Block(empty));
    expected.instruction(&Instruction::LocalGet(2));
    expected.instruction(&Instruction::I32Const(0x10100));
    expected.instruction(&Instruction::I32Sub);
    expected.instruction(&Instruction::I32Const(1));
    expected.instruction(&Instruction::I32ShrU);
    expected.instruction(&Instruction::I32Const(256));
    expected.instruction(&Instruction::I32Add);
    expected.instruction(&Instruction::I32Load8U(wasm_encoder::MemArg {
        offset: 0,
        align: 0,
        memory_index: 0,
    }));
    expected.instruction(&Instruction::BrTable(vec![0].into(), 1));
    expected.instruction(&Instruction::End);
    expected.instruction(&Instruction::LocalGet(0));
    expected.instruction(&Instruction::Call(2));
    expected.instruction(&Instruction::LocalSet(2));
    expected.instruction(&Instruction::Br(1));
    expected.instruction(&Instruction::End);
    expected.instruction(&Instruction::I32Const(-1));
    expected.instruction(&Instruction::Return);
    expected.instruction(&Instruction::End);
    expected.instruction(&Instruction::I32Const(0));
    expected.instruction(&Instruction::End);
    assert_eq!(built, expected);
}
