//! Function bodies: a declaration of locals followed by encoded instructions.

use crate::encoder::{
    function_byte_len, function_bytes, function_new, instruction_bytes, push_br_table,
    push_const, push_control, push_convert, push_i32, push_i64_arith, push_i64_bit,
    push_i64_compare, push_index, push_load, push_store,
};
use crate::error::BuildError;
use crate::format::locals_prefix;
use crate::ops::{op_views, Op, OpView, ValueType};
use vstd::prelude::*;
use wasm_encoder::Function;

verus! {

/// The encoding of a list of instructions: the encodings of its members, in order.
pub open spec fn encoded(ops: Seq<OpView>) -> Seq<u8>
    decreases ops.len(),
{
    if ops.len() == 0 {
        Seq::<u8>::empty()
    } else {
        encoded(ops.drop_last()) + instruction_bytes(ops.last())
    }
}

/// Whether the encoder takes the instruction: a branch table must have a number of labels
/// that fits in 32 bits.
pub open spec fn encodable(op: OpView) -> bool {
    op matches OpView::BrTable(labels, _) ==> labels.len() <= u32::MAX
}

/// Whether the encoder takes every instruction of a list.
pub open spec fn all_encodable(ops: Seq<OpView>) -> bool {
    forall|i: int| 0 <= i < ops.len() ==> encodable(#[trigger] ops[i])
}

/// A function body with one group of locals and the given instructions.
pub open spec fn function_body(count: u32, ty: ValueType, ops: Seq<OpView>) -> Seq<u8> {
    locals_prefix(count, ty) + encoded(ops)
}

/// Appends one instruction to a function body.
pub fn emit_op(function: &mut Function, op: &Op)
    requires
        encodable(op@),
    ensures
        function_bytes(*final(function)) == function_bytes(*old(function)) + instruction_bytes(op@),
{
    match op {
        Op::Control(control) => push_control(function, *control),
        Op::Index(index_op, index) => push_index(function, *index_op, *index),
        Op::BrTable(labels, default) => push_br_table(function, labels, *default),
        Op::Const(constant) => push_const(function, *constant),
        Op::Load(load, arg) => push_load(function, *load, *arg),
        Op::Store(store, arg) => push_store(function, *store, *arg),
        Op::I32(numeric) => push_i32(function, *numeric),
        Op::I64Arith(numeric) => push_i64_arith(function, *numeric),
        Op::I64Bit(numeric) => push_i64_bit(function, *numeric),
        Op::I64Compare(numeric) => push_i64_compare(function, *numeric),
        Op::Convert(convert) => push_convert(function, *convert),
    }
}

/// Appends a list of instructions to a function body, in order.
pub fn emit_ops(function: &mut Function, ops: &Vec<Op>)
    requires
        all_encodable(op_views(ops@)),
    ensures
        function_bytes(*final(function)) == function_bytes(*old(function)) + encoded(op_views(ops@)),
{
    let mut i: usize = 0;
    while i < ops.len()
        invariant
            i <= ops.len(),
            all_encodable(op_views(ops@)),
            function_bytes(*function) == function_bytes(*old(function)) + encoded(
                op_views(ops@).take(i as int),
            ),
        decreases ops.len() - i,
    {
        proof {
            let views = op_views(ops@);
            assert(encodable(views[i as int]));
            assert(views.take(i + 1).drop_last() == views.take(i as int));
            assert(views.take(i + 1).last() == ops@[i as int]@);
        }
        emit_op(function, &ops[i]);
        i = i + 1;
    }
    proof {
        let views = op_views(ops@);
        assert(views.take(ops.len() as int) == views);
    }
}

/// Whether the size field of the code section can hold a function body.
pub open spec fn body_fits(body: Seq<u8>) -> bool {
    body.len() <= u32::MAX
}

/// Checks that a finished function body fits the size field that will precede it.
pub fn check_body(function: Function) -> (result: Result<Function, BuildError>)
    ensures
        body_fits(function_bytes(function)) ==> result == Ok::<Function, BuildError>(function),
        !body_fits(function_bytes(function)) ==> result == Err::<Function, BuildError>(
            BuildError::SizeLimit,
        ),
{
    if function_byte_len(&function) as u64 > u32::MAX as u64 {
        Err(BuildError::SizeLimit)
    } else {
        Ok(function)
    }
}

/// Encodes a function body that declares `count` locals of type `ty` and runs `ops`.
/// Fails with `SizeLimit` if and only if the body is longer than its size field can say.
pub fn build_function(count: u32, ty: ValueType, ops: &Vec<Op>) -> (result: Result<
    Function,
    BuildError,
>)
    requires
        all_encodable(op_views(ops@)),
    ensures
        match result {
            Ok(function) => function_bytes(function) == function_body(count, ty, op_views(ops@))
                && body_fits(function_bytes(function)),
            Err(error) => error == BuildError::SizeLimit && !body_fits(
                function_body(count, ty, op_views(ops@)),
            ),
        },
{
    let mut function = function_new(count, ty);
    emit_ops(&mut function, ops);
    check_body(function)
}

} // verus!
