//! The intermediate representation that the translator's front end hands over: block
//! routines made of generic operations.

use vstd::prelude::*;

verus! {

/// One generic operation of a block routine.
///
/// The vocabulary is closed. Scope labels on `Block` and `Loop` only name the scope for
/// the reader; branches address scopes by nesting depth.
#[derive(Clone, Debug, PartialEq, Eq)]
pub enum WasmInst {
    // Control flow
    Block { label: u32 },
    Loop { label: u32 },
    End,
    Br { label: u32 },
    BrIf { label: u32 },
    Return,
    Call { func_idx: u32 },
    // Locals
    LocalGet { idx: u32 },
    LocalSet { idx: u32 },
    LocalTee { idx: u32 },
    // Constants
    I32Const { value: i32 },
    I64Const { value: i64 },
    // Memory loads
    I32Load { offset: u32 },
    I64Load { offset: u32 },
    I64Load8S { offset: u32 },
    I64Load8U { offset: u32 },
    I64Load16S { offset: u32 },
    I64Load16U { offset: u32 },
    I64Load32S { offset: u32 },
    I64Load32U { offset: u32 },
    // Memory stores
    I32Store { offset: u32 },
    I64Store { offset: u32 },
    I64Store8 { offset: u32 },
    I64Store16 { offset: u32 },
    I64Store32 { offset: u32 },
    // 64-bit arithmetic, logic, shifts and comparisons
    I64Add,
    I64Sub,
    I64Mul,
    I64DivS,
    I64DivU,
    I64RemS,
    I64RemU,
    I64And,
    I64Or,
    I64Xor,
    I64Shl,
    I64ShrS,
    I64ShrU,
    I64Eqz,
    I64Eq,
    I64Ne,
    I64LtS,
    I64LtU,
    I64GtS,
    I64GtU,
    I64LeS,
    I64LeU,
    I64GeS,
    I64GeU,
    // 32-bit arithmetic and comparisons
    I32Add,
    I32Sub,
    I32Eqz,
    I32Eq,
    I32Ne,
    // Width conversions
    I32WrapI64,
    I64ExtendI32S,
    I64ExtendI32U,
    // Stack
    Drop,
    Select,
    /// A note for the reader of a listing. It never becomes code.
    Comment { text: String },
    /// An operation kept for later extension. The transcoder accepts it and emits nothing.
    Reserved { code: u32 },
}

/// A basic block of the source program as one callable routine. It takes the memory
/// handle and returns the next program counter.
#[derive(Clone, Debug, PartialEq, Eq)]
pub struct WasmFunction {
    /// The name under which the routine is exported, unique in its module.
    pub name: String,
    /// The address of the block in the source program.
    pub block_addr: u64,
    /// The number of 64-bit scratch locals the body uses.
    pub num_locals: u32,
    /// The operations, in order.
    pub body: Vec<WasmInst>,
}

/// A whole program: the block routines in dense-index order, and the size of the linear
/// memory it asks for.
#[derive(Clone, Debug, PartialEq, Eq)]
pub struct WasmModule {
    /// The initial size of the linear memory, in pages.
    pub memory_pages: u32,
    /// The block routines. The position of a routine is its dense index.
    pub functions: Vec<WasmFunction>,
}

/// The block addresses of a function list, in dense-index order.
pub open spec fn addresses(functions: Seq<WasmFunction>) -> Seq<u64> {
    Seq::new(functions.len(), |i: int| functions[i].block_addr)
}

} // verus!
