//! The block transcoder: each generic operation of a block routine becomes one
//! instruction of the same shape, in the same order.

use crate::code::{body_fits, check_body, emit_op, encoded, function_body};
use crate::encoder::{function_bytes, function_new, instruction_bytes, push_control};
use crate::error::BuildError;
use crate::format::locals_prefix;
use crate::ir::{WasmFunction, WasmInst};
use crate::ops::{
    natural, ConstOp, ControlOp, ConvertOp, I32Op, I64ArithOp, I64BitOp, I64CompareOp, IndexOp,
    LoadOp, Op, OpView, StoreOp, ValueType,
};
use vstd::arithmetic::power2::{lemma2_to64, pow2};
use vstd::prelude::*;
use wasm_encoder::Function;

verus! {

/// The instruction that stands for a generic operation, or `None` for an operation that
/// leaves no code: a comment, or an operation that is reserved.
pub open spec fn transcoded(inst: WasmInst) -> Option<OpView> {
    match inst {
        WasmInst::Block { .. } => Some(OpView::Control(ControlOp::Block)),
        WasmInst::Loop { .. } => Some(OpView::Control(ControlOp::Loop)),
        WasmInst::End => Some(OpView::Control(ControlOp::End)),
        WasmInst::Br { label } => Some(OpView::Index(IndexOp::Br, label)),
        WasmInst::BrIf { label } => Some(OpView::Index(IndexOp::BrIf, label)),
        WasmInst::Return => Some(OpView::Control(ControlOp::Return)),
        WasmInst::Call { func_idx } => Some(OpView::Index(IndexOp::Call, func_idx)),
        WasmInst::LocalGet { idx } => Some(OpView::Index(IndexOp::LocalGet, idx)),
        WasmInst::LocalSet { idx } => Some(OpView::Index(IndexOp::LocalSet, idx)),
        WasmInst::LocalTee { idx } => Some(OpView::Index(IndexOp::LocalTee, idx)),
        WasmInst::I32Const { value } => Some(OpView::Const(ConstOp::I32(value))),
        WasmInst::I64Const { value } => Some(OpView::Const(ConstOp::I64(value))),
        WasmInst::I32Load { offset } => Some(OpView::Load(LoadOp::I32Load, natural(LoadOp::I32Load.width(), offset))),
        WasmInst::I64Load { offset } => Some(OpView::Load(LoadOp::I64Load, natural(LoadOp::I64Load.width(), offset))),
        WasmInst::I64Load8S { offset } => Some(OpView::Load(LoadOp::I64Load8S, natural(LoadOp::I64Load8S.width(), offset))),
        WasmInst::I64Load8U { offset } => Some(OpView::Load(LoadOp::I64Load8U, natural(LoadOp::I64Load8U.width(), offset))),
        WasmInst::I64Load16S { offset } => Some(OpView::Load(LoadOp::I64Load16S, natural(LoadOp::I64Load16S.width(), offset))),
        WasmInst::I64Load16U { offset } => Some(OpView::Load(LoadOp::I64Load16U, natural(LoadOp::I64Load16U.width(), offset))),
        WasmInst::I64Load32S { offset } => Some(OpView::Load(LoadOp::I64Load32S, natural(LoadOp::I64Load32S.width(), offset))),
        WasmInst::I64Load32U { offset } => Some(OpView::Load(LoadOp::I64Load32U, natural(LoadOp::I64Load32U.width(), offset))),
        WasmInst::I32Store { offset } => Some(OpView::Store(StoreOp::I32Store, natural(StoreOp::I32Store.width(), offset))),
        WasmInst::I64Store { offset } => Some(OpView::Store(StoreOp::I64Store, natural(StoreOp::I64Store.width(), offset))),
        WasmInst::I64Store8 { offset } => Some(OpView::Store(StoreOp::I64Store8, natural(StoreOp::I64Store8.width(), offset))),
        WasmInst::I64Store16 { offset } => Some(OpView::Store(StoreOp::I64Store16, natural(StoreOp::I64Store16.width(), offset))),
        WasmInst::I64Store32 { offset } => Some(OpView::Store(StoreOp::I64Store32, natural(StoreOp::I64Store32.width(), offset))),
        WasmInst::I64Add => Some(OpView::I64Arith(I64ArithOp::Add)),
        WasmInst::I64Sub => Some(OpView::I64Arith(I64ArithOp::Sub)),
        WasmInst::I64Mul => Some(OpView::I64Arith(I64ArithOp::Mul)),
        WasmInst::I64DivS => Some(OpView::I64Arith(I64ArithOp::DivS)),
        WasmInst::I64DivU => Some(OpView::I64Arith(I64ArithOp::DivU)),
        WasmInst::I64RemS => Some(OpView::I64Arith(I64ArithOp::RemS)),
        WasmInst::I64RemU => Some(OpView::I64Arith(I64ArithOp::RemU)),
        WasmInst::I64And => Some(OpView::I64Bit(I64BitOp::And)),
        WasmInst::I64Or => Some(OpView::I64Bit(I64BitOp::Or)),
        WasmInst::I64Xor => Some(OpView::I64Bit(I64BitOp::Xor)),
        WasmInst::I64Shl => Some(OpView::I64Bit(I64BitOp::Shl)),
        WasmInst::I64ShrS => Some(OpView::I64Bit(I64BitOp::ShrS)),
        WasmInst::I64ShrU => Some(OpView::I64Bit(I64BitOp::ShrU)),
        WasmInst::I64Eqz => Some(OpView::I64Compare(I64CompareOp::Eqz)),
        WasmInst::I64Eq => Some(OpView::I64Compare(I64CompareOp::Eq)),
        WasmInst::I64Ne => Some(OpView::I64Compare(I64CompareOp::Ne)),
        WasmInst::I64LtS => Some(OpView::I64Compare(I64CompareOp::LtS)),
        WasmInst::I64LtU => Some(OpView::I64Compare(I64CompareOp::LtU)),
        WasmInst::I64GtS => Some(OpView::I64Compare(I64CompareOp::GtS)),
        WasmInst::I64GtU => Some(OpView::I64Compare(I64CompareOp::GtU)),
        WasmInst::I64LeS => Some(OpView::I64Compare(I64CompareOp::LeS)),
        WasmInst::I64LeU => Some(OpView::I64Compare(I64CompareOp::LeU)),
        WasmInst::I64GeS => Some(OpView::I64Compare(I64CompareOp::GeS)),
        WasmInst::I64GeU => Some(OpView::I64Compare(I64CompareOp::GeU)),
        WasmInst::I32Add => Some(OpView::I32(I32Op::Add)),
        WasmInst::I32Sub => Some(OpView::I32(I32Op::Sub)),
        WasmInst::I32Eqz => Some(OpView::I32(I32Op::Eqz)),
        WasmInst::I32Eq => Some(OpView::I32(I32Op::Eq)),
        WasmInst::I32Ne => Some(OpView::I32(I32Op::Ne)),
        WasmInst::I32WrapI64 => Some(OpView::Convert(ConvertOp::I32WrapI64)),
        WasmInst::I64ExtendI32S => Some(OpView::Convert(ConvertOp::I64ExtendI32S)),
        WasmInst::I64ExtendI32U => Some(OpView::Convert(ConvertOp::I64ExtendI32U)),
        WasmInst::Drop => Some(OpView::Control(ControlOp::Drop)),
        WasmInst::Select => Some(OpView::Control(ControlOp::Select)),
        WasmInst::Comment { .. } => None,
        WasmInst::Reserved { .. } => None,
    }
}

/// The instructions that stand for a list of generic operations, in order.
pub open spec fn transcoded_all(body: Seq<WasmInst>) -> Seq<OpView>
    decreases body.len(),
{
    if body.len() == 0 {
        Seq::<OpView>::empty()
    } else {
        match transcoded(body.last()) {
            Some(op) => transcoded_all(body.drop_last()).push(op),
            None => transcoded_all(body.drop_last()),
        }
    }
}

/// The body of the routine of a block: its scratch locals, its operations transcoded in
/// order, and the `End` that closes the function.
pub open spec fn block_body(func: WasmFunction) -> Seq<u8> {
    function_body(func.num_locals, ValueType::I64, transcoded_all(func.body@)) + instruction_bytes(
        OpView::Control(ControlOp::End),
    )
}

/// Every memory access that the transcoder emits goes to memory 0 and is aligned to the
/// number of bytes that it moves.
pub proof fn law_natural_alignment(inst: WasmInst)
    ensures
        match transcoded(inst) {
            Some(OpView::Load(op, arg)) => {
                &&& arg.memory_index == 0
                &&& pow2(arg.align as nat) == op.width().bytes()
            },
            Some(OpView::Store(op, arg)) => {
                &&& arg.memory_index == 0
                &&& pow2(arg.align as nat) == op.width().bytes()
            },
            _ => true,
        },
{
    lemma2_to64();
}

/// A comment or a reserved operation anywhere in a body leaves the code as it is
/// without it.
pub proof fn law_silent_operations(before: Seq<WasmInst>, inst: WasmInst, after: Seq<WasmInst>)
    requires
        inst is Comment || inst is Reserved,
    ensures
        transcoded_all(before + seq![inst] + after) == transcoded_all(before + after),
    decreases after.len(),
{
    if after.len() == 0 {
        assert(before + seq![inst] + after == before.push(inst));
        assert(before.push(inst).drop_last() == before);
        assert(before + after == before);
    } else {
        let longer = before + seq![inst] + after;
        let shorter = before + after;
        law_silent_operations(before, inst, after.drop_last());
        assert(longer.drop_last() == before + seq![inst] + after.drop_last());
        assert(shorter.drop_last() == before + after.drop_last());
        assert(longer.last() == after.last());
        assert(shorter.last() == after.last());
    }
}

/// Gives the instruction that stands for one generic operation.
pub fn transcode(inst: &WasmInst) -> (op: Option<Op>)
    ensures
        match op {
            Some(op) => transcoded(*inst) == Some(op@),
            None => transcoded(*inst) is None,
        },
{
    match inst {
        WasmInst::Block { .. } => Some(Op::Control(ControlOp::Block)),
        WasmInst::Loop { .. } => Some(Op::Control(ControlOp::Loop)),
        WasmInst::End => Some(Op::Control(ControlOp::End)),
        WasmInst::Br { label } => Some(Op::Index(IndexOp::Br, *label)),
        WasmInst::BrIf { label } => Some(Op::Index(IndexOp::BrIf, *label)),
        WasmInst::Return => Some(Op::Control(ControlOp::Return)),
        WasmInst::Call { func_idx } => Some(Op::Index(IndexOp::Call, *func_idx)),
        WasmInst::LocalGet { idx } => Some(Op::Index(IndexOp::LocalGet, *idx)),
        WasmInst::LocalSet { idx } => Some(Op::Index(IndexOp::LocalSet, *idx)),
        WasmInst::LocalTee { idx } => Some(Op::Index(IndexOp::LocalTee, *idx)),
        WasmInst::I32Const { value } => Some(Op::Const(ConstOp::I32(*value))),
        WasmInst::I64Const { value } => Some(Op::Const(ConstOp::I64(*value))),
        WasmInst::I32Load { offset } => Some(Op::Load(LoadOp::I32Load, natural(LoadOp::I32Load.width(), *offset))),
        WasmInst::I64Load { offset } => Some(Op::Load(LoadOp::I64Load, natural(LoadOp::I64Load.width(), *offset))),
        WasmInst::I64Load8S { offset } => Some(Op::Load(LoadOp::I64Load8S, natural(LoadOp::I64Load8S.width(), *offset))),
        WasmInst::I64Load8U { offset } => Some(Op::Load(LoadOp::I64Load8U, natural(LoadOp::I64Load8U.width(), *offset))),
        WasmInst::I64Load16S { offset } => Some(Op::Load(LoadOp::I64Load16S, natural(LoadOp::I64Load16S.width(), *offset))),
        WasmInst::I64Load16U { offset } => Some(Op::Load(LoadOp::I64Load16U, natural(LoadOp::I64Load16U.width(), *offset))),
        WasmInst::I64Load32S { offset } => Some(Op::Load(LoadOp::I64Load32S, natural(LoadOp::I64Load32S.width(), *offset))),
        WasmInst::I64Load32U { offset } => Some(Op::Load(LoadOp::I64Load32U, natural(LoadOp::I64Load32U.width(), *offset))),
        WasmInst::I32Store { offset } => Some(Op::Store(StoreOp::I32Store, natural(StoreOp::I32Store.width(), *offset))),
        WasmInst::I64Store { offset } => Some(Op::Store(StoreOp::I64Store, natural(StoreOp::I64Store.width(), *offset))),
        WasmInst::I64Store8 { offset } => Some(Op::Store(StoreOp::I64Store8, natural(StoreOp::I64Store8.width(), *offset))),
        WasmInst::I64Store16 { offset } => Some(Op::Store(StoreOp::I64Store16, natural(StoreOp::I64Store16.width(), *offset))),
        WasmInst::I64Store32 { offset } => Some(Op::Store(StoreOp::I64Store32, natural(StoreOp::I64Store32.width(), *offset))),
        WasmInst::I64Add => Some(Op::I64Arith(I64ArithOp::Add)),
        WasmInst::I64Sub => Some(Op::I64Arith(I64ArithOp::Sub)),
        WasmInst::I64Mul => Some(Op::I64Arith(I64ArithOp::Mul)),
        WasmInst::I64DivS => Some(Op::I64Arith(I64ArithOp::DivS)),
        WasmInst::I64DivU => Some(Op::I64Arith(I64ArithOp::DivU)),
        WasmInst::I64RemS => Some(Op::I64Arith(I64ArithOp::RemS)),
        WasmInst::I64RemU => Some(Op::I64Arith(I64ArithOp::RemU)),
        WasmInst::I64And => Some(Op::I64Bit(I64BitOp::And)),
        WasmInst::I64Or => Some(Op::I64Bit(I64BitOp::Or)),
        WasmInst::I64Xor => Some(Op::I64Bit(I64BitOp::Xor)),
        WasmInst::I64Shl => Some(Op::I64Bit(I64BitOp::Shl)),
        WasmInst::I64ShrS => Some(Op::I64Bit(I64BitOp::ShrS)),
        WasmInst::I64ShrU => Some(Op::I64Bit(I64BitOp::ShrU)),
        WasmInst::I64Eqz => Some(Op::I64Compare(I64CompareOp::Eqz)),
        WasmInst::I64Eq => Some(Op::I64Compare(I64CompareOp::Eq)),
        WasmInst::I64Ne => Some(Op::I64Compare(I64CompareOp::Ne)),
        WasmInst::I64LtS => Some(Op::I64Compare(I64CompareOp::LtS)),
        WasmInst::I64LtU => Some(Op::I64Compare(I64CompareOp::LtU)),
        WasmInst::I64GtS => Some(Op::I64Compare(I64CompareOp::GtS)),
        WasmInst::I64GtU => Some(Op::I64Compare(I64CompareOp::GtU)),
        WasmInst::I64LeS => Some(Op::I64Compare(I64CompareOp::LeS)),
        WasmInst::I64LeU => Some(Op::I64Compare(I64CompareOp::LeU)),
        WasmInst::I64GeS => Some(Op::I64Compare(I64CompareOp::GeS)),
        WasmInst::I64GeU => Some(Op::I64Compare(I64CompareOp::GeU)),
        WasmInst::I32Add => Some(Op::I32(I32Op::Add)),
        WasmInst::I32Sub => Some(Op::I32(I32Op::Sub)),
        WasmInst::I32Eqz => Some(Op::I32(I32Op::Eqz)),
        WasmInst::I32Eq => Some(Op::I32(I32Op::Eq)),
        WasmInst::I32Ne => Some(Op::I32(I32Op::Ne)),
        WasmInst::I32WrapI64 => Some(Op::Convert(ConvertOp::I32WrapI64)),
        WasmInst::I64ExtendI32S => Some(Op::Convert(ConvertOp::I64ExtendI32S)),
        WasmInst::I64ExtendI32U => Some(Op::Convert(ConvertOp::I64ExtendI32U)),
        WasmInst::Drop => Some(Op::Control(ControlOp::Drop)),
        WasmInst::Select => Some(Op::Control(ControlOp::Select)),
        WasmInst::Comment { .. } => None,
        WasmInst::Reserved { .. } => None,
    }
}

/// What an operation adds to a function body: the encoding of the instruction that stands
/// for it, or nothing.
pub open spec fn emitted(inst: WasmInst) -> Seq<u8> {
    match transcoded(inst) {
        Some(op) => instruction_bytes(op),
        None => Seq::<u8>::empty(),
    }
}

/// Emit a single instruction: appends what stands for `inst` to a function body, and
/// nothing where `inst` leaves no code.
pub fn emit_instruction(func: &mut Function, inst: &WasmInst)
    ensures
        function_bytes(*final(func)) == function_bytes(*old(func)) + emitted(*inst),
{
    match transcode(inst) {
        Some(op) => {
            emit_op(func, &op);
        },
        None => {},
    }
}

/// Transcoding a list and then one more operation is transcoding the longer list.
pub proof fn lemma_transcoded_all_push(body: Seq<WasmInst>, inst: WasmInst)
    ensures
        encoded(transcoded_all(body.push(inst))) == encoded(transcoded_all(body)) + emitted(inst),
{
    assert(body.push(inst).drop_last() == body);
    assert(body.push(inst).last() == inst);
    match transcoded(inst) {
        Some(op) => {
            assert(transcoded_all(body).push(op).drop_last() == transcoded_all(body));
            assert(transcoded_all(body).push(op).last() == op);
        },
        None => {},
    }
}

/// Build a block function from the IR. Fails with `SizeLimit` if and only if the body is
/// longer than its size field can say.
pub fn build_block_function(func: &WasmFunction) -> (result: Result<Function, BuildError>)
    ensures
        match result {
            Ok(function) => function_bytes(function) == block_body(*func),
            Err(error) => error == BuildError::SizeLimit,
        },
        result is Ok <==> body_fits(block_body(*func)),
{
    let mut wasm_func = function_new(func.num_locals, ValueType::I64);
    let mut i: usize = 0;
    assert(func.body@.take(0) == Seq::<WasmInst>::empty());
    assert(locals_prefix(func.num_locals, ValueType::I64) + Seq::<u8>::empty() == locals_prefix(
        func.num_locals,
        ValueType::I64,
    ));
    while i < func.body.len()
        invariant
            i <= func.body.len(),
            function_bytes(wasm_func) == function_body(
                func.num_locals,
                ValueType::I64,
                transcoded_all(func.body@.take(i as int)),
            ),
        decreases func.body.len() - i,
    {
        proof {
            lemma_transcoded_all_push(func.body@.take(i as int), func.body@[i as int]);
            assert(func.body@.take(i as int).push(func.body@[i as int]) == func.body@.take(i + 1));
        }
        emit_instruction(&mut wasm_func, &func.body[i]);
        i = i + 1;
    }
    assert(func.body@.take(func.body.len() as int) == func.body@);
    push_control(&mut wasm_func, ControlOp::End);
    check_body(wasm_func)
}

} // verus!
