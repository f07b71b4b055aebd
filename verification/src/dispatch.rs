//! The dispatch routine: the one loop through which control passes from block to block.
//!
//! The target format has no jump to a computed label. The routine therefore keeps the
//! program counter in a local, looks its case up in the dispatch table, and takes an
//! indexed branch out of a nest of scopes: leaving the scope of case `i` lands on the
//! handler of case `i`, which calls block `i` and branches back to the loop.

use crate::code::{all_encodable, body_fits, build_function, encodable, function_body};
use crate::dispatch_table::DispatchTable;
use crate::encoder::function_bytes;
use crate::error::BuildError;
use crate::ops::{
    op_views, ConstOp, ControlOp, I32Op, IndexOp, LoadOp, MemArg, Op, OpView, ValueType,
};
use vstd::prelude::*;
use wasm_encoder::Function;

verus! {

/// The size of the register file at the base of linear memory: 32 registers of 8 bytes.
pub const REGISTER_FILE_SIZE: u32 = 256;

/// Offset in linear memory where the dispatch table is stored, right after the register
/// file. The host lays memory out to match.
pub const DISPATCH_MAP_OFFSET: u32 = REGISTER_FILE_SIZE;

/// The program counter that stops the program: all 32 bits set.
pub const HALT_PC: i32 = -1;

/// The top bit of the program counter, which marks a request to the trap routine.
pub const TRAP_FLAG: i32 = -0x8000_0000;

/// The status of a clean halt.
pub const STATUS_HALT: i32 = 0;

/// The status of an unknown program counter.
pub const STATUS_UNKNOWN_PC: i32 = -1;

/// The function index of the imported trap routine.
pub const TRAP_FUNCTION: u32 = 0;

/// The function index of the dispatch routine.
pub const DISPATCH_FUNCTION: u32 = 1;

/// The function index of block 0. Block `i` is function `i + 2`.
pub const FIRST_BLOCK_FUNCTION: u32 = 2;

/// The parameter of the dispatch routine that holds the memory handle.
pub const LOCAL_MEMORY: u32 = 0;

/// The parameter of the dispatch routine that holds the program counter to start at.
pub const LOCAL_START_PC: u32 = 1;

/// The local of the dispatch routine that holds the program counter.
pub const LOCAL_PC: u32 = 2;

/// A control instruction.
pub open spec fn control(op: ControlOp) -> OpView {
    OpView::Control(op)
}

/// Pushes a local.
pub open spec fn local_get(index: u32) -> OpView {
    OpView::Index(IndexOp::LocalGet, index)
}

/// Pops the top operand into a local.
pub open spec fn local_set(index: u32) -> OpView {
    OpView::Index(IndexOp::LocalSet, index)
}

/// Calls a function by its index.
pub open spec fn call(function: u32) -> OpView {
    OpView::Index(IndexOp::Call, function)
}

/// Branches to the scope that many scopes out from the innermost one.
pub open spec fn br(depth: u32) -> OpView {
    OpView::Index(IndexOp::Br, depth)
}

/// Pushes a 32-bit constant.
pub open spec fn i32_const(value: i32) -> OpView {
    OpView::Const(ConstOp::I32(value))
}

/// A 32-bit numeric instruction.
pub open spec fn i32_op(op: I32Op) -> OpView {
    OpView::I32(op)
}

/// Copies the start argument into the program counter and opens the loop.
pub open spec fn prologue() -> Seq<OpView> {
    seq![local_get(LOCAL_START_PC), local_set(LOCAL_PC), control(ControlOp::Loop)]
}

/// Returns the halt status if the program counter is the halt sentinel.
pub open spec fn halt_check() -> Seq<OpView> {
    seq![
        local_get(LOCAL_PC),
        i32_const(HALT_PC),
        i32_op(I32Op::Eq),
        control(ControlOp::If),
        i32_const(STATUS_HALT),
        control(ControlOp::Return),
        control(ControlOp::End),
    ]
}

/// If the top bit of the program counter is set: hands the memory handle and the program
/// counter to the trap routine, takes the result as the new program counter, and starts
/// the loop again.
pub open spec fn trap_check() -> Seq<OpView> {
    seq![
        local_get(LOCAL_PC),
        i32_const(TRAP_FLAG),
        i32_op(I32Op::And),
        control(ControlOp::If),
        local_get(LOCAL_MEMORY),
        local_get(LOCAL_PC),
        call(TRAP_FUNCTION),
        local_set(LOCAL_PC),
        br(1),
        control(ControlOp::End),
    ]
}

/// Returns the status of an unknown program counter.
pub open spec fn unknown_pc() -> Seq<OpView> {
    seq![i32_const(STATUS_UNKNOWN_PC), control(ControlOp::Return)]
}

/// The immediate of the load that reads a slot of the dispatch table: a single byte of
/// memory 0, at the computed address.
pub open spec fn slot_arg() -> MemArg {
    MemArg { offset: 0, align: 0, memory_index: 0 }
}

/// Loads the case of the program counter: the byte at
/// `DISPATCH_MAP_OFFSET + ((pc - min_addr) >> 1)`.
pub open spec fn slot_lookup(min_addr: u32) -> Seq<OpView> {
    seq![
        local_get(LOCAL_PC),
        i32_const(min_addr as i32),
        i32_op(I32Op::Sub),
        i32_const(1),
        i32_op(I32Op::ShrU),
        i32_const(DISPATCH_MAP_OFFSET as i32),
        i32_op(I32Op::Add),
        OpView::Load(LoadOp::I32Load8U, slot_arg()),
    ]
}

/// The labels of the indexed branch: case `k` leaves `k` scopes besides its own.
pub open spec fn case_labels(n: u32) -> Seq<u32> {
    Seq::new(n as nat, |k: int| k as u32)
}

/// The indexed branch over `n` cases; any other index leaves all case scopes.
pub open spec fn case_branch(n: u32) -> OpView {
    OpView::BrTable(case_labels(n), n)
}

/// The scopes of the switch, opened together: the default scope and one for each case,
/// the scope of case 0 innermost.
pub open spec fn scopes(n: u32) -> Seq<OpView> {
    Seq::new(n as nat + 1, |k: int| control(ControlOp::Block))
}

/// The handler of case `i` of `n`, after the `End` that closes the scope of the case:
/// calls block `i` with the memory handle, takes the result as the new program counter,
/// and leaves the `n - i` scopes between it and the loop.
pub open spec fn handler(n: u32, i: u32) -> Seq<OpView> {
    seq![
        control(ControlOp::End),
        local_get(LOCAL_MEMORY),
        call((i + FIRST_BLOCK_FUNCTION) as u32),
        local_set(LOCAL_PC),
        br((n - i) as u32),
    ]
}

/// The handlers of the cases below `k`, in ascending order.
pub open spec fn handlers(n: u32, k: u32) -> Seq<OpView>
    decreases k,
{
    if k == 0 {
        Seq::<OpView>::empty()
    } else {
        handlers(n, (k - 1) as u32) + handler(n, (k - 1) as u32)
    }
}

/// The switch over `n` cases: the scopes, the lookup and the indexed branch, then the
/// handlers in the order in which the scopes close, then the default.
pub open spec fn switch(n: u32, min_addr: u32) -> Seq<OpView> {
    scopes(n) + slot_lookup(min_addr) + seq![case_branch(n)] + handlers(n, n) + seq![
        control(ControlOp::End),
    ] + unknown_pc()
}

/// Closes the loop and the function. The constant before the last `End` is never
/// reached; it gives the function its result for the validator.
pub open spec fn epilogue() -> Seq<OpView> {
    seq![control(ControlOp::End), i32_const(0), control(ControlOp::End)]
}

/// The instructions of the dispatch routine for `n` blocks and a table that starts at
/// `min_addr`. Without blocks there is nothing to look up, and every program counter
/// that neither halts nor traps is unknown.
pub open spec fn dispatch_ops(n: u32, min_addr: u32) -> Seq<OpView> {
    prologue() + halt_check() + trap_check() + (if n == 0 {
        unknown_pc()
    } else {
        switch(n, min_addr)
    }) + epilogue()
}

/// The body of the dispatch routine: one 32-bit local for the program counter, and the
/// instructions.
pub open spec fn dispatch_body(n: u32, min_addr: u32) -> Seq<u8> {
    function_body(1, ValueType::I32, dispatch_ops(n, min_addr))
}

/// Appends one instruction.
fn push(code: &mut Vec<Op>, op: Op)
    ensures
        op_views(final(code)@) == op_views(old(code)@).push(op@),
{
    code.push(op);
    assert(op_views(code@) =~= op_views(old(code)@).push(op@));
}

/// Appends the prologue.
fn push_prologue(code: &mut Vec<Op>)
    ensures
        op_views(final(code)@) == op_views(old(code)@) + prologue(),
{
    push(code, Op::Index(IndexOp::LocalGet, LOCAL_START_PC));
    push(code, Op::Index(IndexOp::LocalSet, LOCAL_PC));
    push(code, Op::Control(ControlOp::Loop));
    assert(op_views(code@) =~= op_views(old(code)@) + prologue());
}

/// Appends the halt check.
fn push_halt_check(code: &mut Vec<Op>)
    ensures
        op_views(final(code)@) == op_views(old(code)@) + halt_check(),
{
    push(code, Op::Index(IndexOp::LocalGet, LOCAL_PC));
    push(code, Op::Const(ConstOp::I32(HALT_PC)));
    push(code, Op::I32(I32Op::Eq));
    push(code, Op::Control(ControlOp::If));
    push(code, Op::Const(ConstOp::I32(STATUS_HALT)));
    push(code, Op::Control(ControlOp::Return));
    push(code, Op::Control(ControlOp::End));
    assert(op_views(code@) =~= op_views(old(code)@) + halt_check());
}

/// Appends the trap check.
fn push_trap_check(code: &mut Vec<Op>)
    ensures
        op_views(final(code)@) == op_views(old(code)@) + trap_check(),
{
    push(code, Op::Index(IndexOp::LocalGet, LOCAL_PC));
    push(code, Op::Const(ConstOp::I32(TRAP_FLAG)));
    push(code, Op::I32(I32Op::And));
    push(code, Op::Control(ControlOp::If));
    push(code, Op::Index(IndexOp::LocalGet, LOCAL_MEMORY));
    push(code, Op::Index(IndexOp::LocalGet, LOCAL_PC));
    push(code, Op::Index(IndexOp::Call, TRAP_FUNCTION));
    push(code, Op::Index(IndexOp::LocalSet, LOCAL_PC));
    push(code, Op::Index(IndexOp::Br, 1));
    push(code, Op::Control(ControlOp::End));
    assert(op_views(code@) =~= op_views(old(code)@) + trap_check());
}

/// Appends the return of the status of an unknown program counter.
fn push_unknown_pc(code: &mut Vec<Op>)
    ensures
        op_views(final(code)@) == op_views(old(code)@) + unknown_pc(),
{
    push(code, Op::Const(ConstOp::I32(STATUS_UNKNOWN_PC)));
    push(code, Op::Control(ControlOp::Return));
    assert(op_views(code@) =~= op_views(old(code)@) + unknown_pc());
}

/// Appends the lookup of the case of the program counter.
fn push_slot_lookup(code: &mut Vec<Op>, min_addr: u32)
    ensures
        op_views(final(code)@) == op_views(old(code)@) + slot_lookup(min_addr),
{
    push(code, Op::Index(IndexOp::LocalGet, LOCAL_PC));
    push(code, Op::Const(ConstOp::I32(#[verifier::truncate] (min_addr as i32))));
    push(code, Op::I32(I32Op::Sub));
    push(code, Op::Const(ConstOp::I32(1)));
    push(code, Op::I32(I32Op::ShrU));
    push(code, Op::Const(ConstOp::I32(DISPATCH_MAP_OFFSET as i32)));
    push(code, Op::I32(I32Op::Add));
    push(code, Op::Load(LoadOp::I32Load8U, MemArg { offset: 0, align: 0, memory_index: 0 }));
    assert(op_views(code@) =~= op_views(old(code)@) + slot_lookup(min_addr));
}

/// Appends the openings of the default scope and of the `n` case scopes.
fn push_scopes(code: &mut Vec<Op>, n: u32)
    requires
        n < u32::MAX,
    ensures
        op_views(final(code)@) == op_views(old(code)@) + scopes(n),
{
    let mut k: u32 = 0;
    assert(op_views(code@) =~= op_views(old(code)@) + scopes(n).take(0));
    while k <= n
        invariant
            k <= n + 1,
            n < u32::MAX,
            op_views(code@) == op_views(old(code)@) + scopes(n).take(k as int),
        decreases n + 1 - k,
    {
        push(code, Op::Control(ControlOp::Block));
        assert(scopes(n).take(k + 1) =~= scopes(n).take(k as int).push(control(ControlOp::Block)));
        assert(op_views(code@) =~= op_views(old(code)@) + scopes(n).take(k + 1));
        k = k + 1;
    }
    assert(scopes(n).take(n + 1) =~= scopes(n));
}

/// Appends the indexed branch over `n` cases.
fn push_case_branch(code: &mut Vec<Op>, n: u32)
    ensures
        op_views(final(code)@) == op_views(old(code)@) + seq![case_branch(n)],
{
    let mut labels: Vec<u32> = Vec::new();
    let mut k: u32 = 0;
    while k < n
        invariant
            k <= n,
            labels@ == case_labels(k),
        decreases n - k,
    {
        labels.push(k);
        assert(labels@ =~= case_labels((k + 1) as u32));
        k = k + 1;
    }
    push(code, Op::BrTable(labels, n));
    assert(op_views(code@) =~= op_views(old(code)@) + seq![case_branch(n)]);
}

/// Appends the handlers of all cases, in the order in which their scopes close.
fn push_handlers(code: &mut Vec<Op>, n: u32)
    requires
        n < u32::MAX,
    ensures
        op_views(final(code)@) == op_views(old(code)@) + handlers(n, n),
{
    let mut i: u32 = 0;
    assert(op_views(code@) =~= op_views(old(code)@) + handlers(n, 0));
    while i < n
        invariant
            i <= n,
            n < u32::MAX,
            op_views(code@) == op_views(old(code)@) + handlers(n, i),
        decreases n - i,
    {
        let ghost before = op_views(code@);
        push(code, Op::Control(ControlOp::End));
        push(code, Op::Index(IndexOp::LocalGet, LOCAL_MEMORY));
        push(code, Op::Index(IndexOp::Call, i + FIRST_BLOCK_FUNCTION));
        push(code, Op::Index(IndexOp::LocalSet, LOCAL_PC));
        push(code, Op::Index(IndexOp::Br, n - i));
        assert(op_views(code@) =~= before + handler(n, i));
        assert(op_views(code@) =~= op_views(old(code)@) + handlers(n, (i + 1) as u32));
        i = i + 1;
    }
}

/// Appends the epilogue.
fn push_epilogue(code: &mut Vec<Op>)
    ensures
        op_views(final(code)@) == op_views(old(code)@) + epilogue(),
{
    push(code, Op::Control(ControlOp::End));
    push(code, Op::Const(ConstOp::I32(0)));
    push(code, Op::Control(ControlOp::End));
    assert(op_views(code@) =~= op_views(old(code)@) + epilogue());
}

/// Generates the instructions of the dispatch routine for `n` blocks and a dispatch
/// table that starts at `min_addr`.
pub fn dispatch_code(n: u32, min_addr: u32) -> (code: Vec<Op>)
    requires
        n < u32::MAX,
    ensures
        op_views(code@) == dispatch_ops(n, min_addr),
{
    let mut code: Vec<Op> = Vec::new();
    assert(op_views(code@) =~= Seq::<OpView>::empty());
    push_prologue(&mut code);
    push_halt_check(&mut code);
    push_trap_check(&mut code);
    if n == 0 {
        push_unknown_pc(&mut code);
    } else {
        push_scopes(&mut code, n);
        push_slot_lookup(&mut code, min_addr);
        push_case_branch(&mut code, n);
        push_handlers(&mut code, n);
        push(&mut code, Op::Control(ControlOp::End));
        push_unknown_pc(&mut code);
    }
    push_epilogue(&mut code);
    assert(op_views(code@) =~= dispatch_ops(n, min_addr));
    code
}

/// The encoder takes every instruction of the dispatch routine.
pub proof fn lemma_dispatch_encodable(n: u32, min_addr: u32)
    ensures
        all_encodable(dispatch_ops(n, min_addr)),
{
    let ops = dispatch_ops(n, min_addr);
    assert forall|i: int| 0 <= i < ops.len() implies encodable(#[trigger] ops[i]) by {
        if ops[i] is BrTable {
            lemma_branch_is_case_branch(n, min_addr, i);
        }
    }
}

/// No handler holds an indexed branch.
proof fn lemma_handlers_no_branch_table(n: u32, k: u32, i: int)
    requires
        0 <= i < handlers(n, k).len(),
    ensures
        !(handlers(n, k)[i] is BrTable),
    decreases k,
{
    if k > 0 {
        if i < handlers(n, (k - 1) as u32).len() {
            lemma_handlers_no_branch_table(n, (k - 1) as u32, i);
        }
    }
}

/// The only indexed branch of the routine is the one over its cases.
proof fn lemma_branch_is_case_branch(n: u32, min_addr: u32, i: int)
    requires
        0 <= i < dispatch_ops(n, min_addr).len(),
        dispatch_ops(n, min_addr)[i] is BrTable,
    ensures
        dispatch_ops(n, min_addr)[i] == case_branch(n),
{
    let head = prologue() + halt_check() + trap_check();
    if n > 0 {
        let a = scopes(n) + slot_lookup(min_addr);
        let b = a + seq![case_branch(n)];
        let c = b + handlers(n, n);
        if b.len() <= i - head.len() < c.len() {
            lemma_handlers_no_branch_table(n, n, i - head.len() - b.len());
        }
    }
}

/// Build the main dispatch function. Fails with `SizeLimit` if and only if the body is
/// longer than its size field can say.
pub fn build_dispatch_function(table: &DispatchTable) -> (result: Result<Function, BuildError>)
    requires
        table.num_functions < u32::MAX,
    ensures
        match result {
            Ok(function) => function_bytes(function) == dispatch_body(
                table.num_functions,
                table.min_addr,
            ),
            Err(error) => error == BuildError::SizeLimit,
        },
        result is Ok <==> body_fits(dispatch_body(table.num_functions, table.min_addr)),
{
    let code = dispatch_code(table.num_functions, table.min_addr);
    proof {
        lemma_dispatch_encodable(table.num_functions, table.min_addr);
    }
    build_function(1, ValueType::I32, &code)
}

} // verus!
