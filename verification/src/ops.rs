//! The instructions of the target format that the generated code uses, grouped by the
//! shape of their immediate operands.

use vstd::prelude::*;

verus! {

/// The two value types that generated code works with.
#[derive(Clone, Copy, Debug, PartialEq, Eq, Structural)]
pub enum ValueType {
    I32,
    I64,
}

/// Control and stack instructions without an immediate. `Block`, `Loop` and `If` open a
/// scope that takes and leaves no values; `End` closes the innermost open scope.
#[derive(Clone, Copy, Debug, PartialEq, Eq, Structural)]
pub enum ControlOp {
    Block,
    Loop,
    If,
    End,
    Return,
    Drop,
    Select,
}

/// Instructions whose one immediate is an index: a scope depth, a function or a local.
#[derive(Clone, Copy, Debug, PartialEq, Eq, Structural)]
pub enum IndexOp {
    Br,
    BrIf,
    Call,
    LocalGet,
    LocalSet,
    LocalTee,
}

/// An integer constant.
#[derive(Clone, Copy, Debug, PartialEq, Eq, Structural)]
pub enum ConstOp {
    I32(i32),
    I64(i64),
}

/// Loads from linear memory.
#[derive(Clone, Copy, Debug, PartialEq, Eq, Structural)]
pub enum LoadOp {
    I32Load,
    I32Load8U,
    I64Load,
    I64Load8S,
    I64Load8U,
    I64Load16S,
    I64Load16U,
    I64Load32S,
    I64Load32U,
}

/// Stores to linear memory.
#[derive(Clone, Copy, Debug, PartialEq, Eq, Structural)]
pub enum StoreOp {
    I32Store,
    I64Store,
    I64Store8,
    I64Store16,
    I64Store32,
}

/// 32-bit arithmetic, tests and comparisons.
#[derive(Clone, Copy, Debug, PartialEq, Eq, Structural)]
pub enum I32Op {
    Eqz,
    Eq,
    Ne,
    Add,
    Sub,
    And,
    ShrU,
}

/// 64-bit arithmetic.
#[derive(Clone, Copy, Debug, PartialEq, Eq, Structural)]
pub enum I64ArithOp {
    Add,
    Sub,
    Mul,
    DivS,
    DivU,
    RemS,
    RemU,
}

/// 64-bit logic and shifts.
#[derive(Clone, Copy, Debug, PartialEq, Eq, Structural)]
pub enum I64BitOp {
    And,
    Or,
    Xor,
    Shl,
    ShrS,
    ShrU,
}

/// 64-bit tests and comparisons.
#[derive(Clone, Copy, Debug, PartialEq, Eq, Structural)]
pub enum I64CompareOp {
    Eqz,
    Eq,
    Ne,
    LtS,
    LtU,
    GtS,
    GtU,
    LeS,
    LeU,
    GeS,
    GeU,
}

/// Conversions between the two integer widths.
#[derive(Clone, Copy, Debug, PartialEq, Eq, Structural)]
pub enum ConvertOp {
    I32WrapI64,
    I64ExtendI32S,
    I64ExtendI32U,
}

/// The immediate of a memory instruction.
#[derive(Clone, Copy, Debug, PartialEq, Eq, Structural)]
pub struct MemArg {
    /// The constant byte offset added to the address operand.
    pub offset: u64,
    /// The alignment hint, as the exponent of a power of two.
    pub align: u32,
    /// The memory that is accessed.
    pub memory_index: u32,
}

/// The width of a memory access.
#[derive(Clone, Copy, Debug, PartialEq, Eq, Structural)]
pub enum Width {
    W8,
    W16,
    W32,
    W64,
}

impl Width {
    /// The number of bytes of an access of this width.
    pub open spec fn bytes(self) -> nat {
        match self {
            Width::W8 => 1,
            Width::W16 => 2,
            Width::W32 => 4,
            Width::W64 => 8,
        }
    }

    /// The alignment exponent of an access that is aligned to its own width.
    pub open spec fn align_exponent(self) -> u32 {
        match self {
            Width::W8 => 0,
            Width::W16 => 1,
            Width::W32 => 2,
            Width::W64 => 3,
        }
    }
}

impl LoadOp {
    /// The number of bytes that the load reads from memory.
    #[verifier::when_used_as_spec(spec_width)]
    pub fn width(self) -> (width: Width)
        ensures
            width == self.spec_width(),
    {
        match self {
            LoadOp::I32Load8U | LoadOp::I64Load8S | LoadOp::I64Load8U => Width::W8,
            LoadOp::I64Load16S | LoadOp::I64Load16U => Width::W16,
            LoadOp::I32Load | LoadOp::I64Load32S | LoadOp::I64Load32U => Width::W32,
            LoadOp::I64Load => Width::W64,
        }
    }

    /// The width of the load, in contracts.
    pub open spec fn spec_width(self) -> Width {
        match self {
            LoadOp::I32Load8U | LoadOp::I64Load8S | LoadOp::I64Load8U => Width::W8,
            LoadOp::I64Load16S | LoadOp::I64Load16U => Width::W16,
            LoadOp::I32Load | LoadOp::I64Load32S | LoadOp::I64Load32U => Width::W32,
            LoadOp::I64Load => Width::W64,
        }
    }
}

impl StoreOp {
    /// The number of bytes that the store writes to memory.
    #[verifier::when_used_as_spec(spec_width)]
    pub fn width(self) -> (width: Width)
        ensures
            width == self.spec_width(),
    {
        match self {
            StoreOp::I64Store8 => Width::W8,
            StoreOp::I64Store16 => Width::W16,
            StoreOp::I32Store | StoreOp::I64Store32 => Width::W32,
            StoreOp::I64Store => Width::W64,
        }
    }

    /// The width of the store, in contracts.
    pub open spec fn spec_width(self) -> Width {
        match self {
            StoreOp::I64Store8 => Width::W8,
            StoreOp::I64Store16 => Width::W16,
            StoreOp::I32Store | StoreOp::I64Store32 => Width::W32,
            StoreOp::I64Store => Width::W64,
        }
    }
}

/// The immediate of an access to memory 0 at a constant offset, aligned to its width.
#[verifier::when_used_as_spec(spec_natural)]
pub fn natural(width: Width, offset: u32) -> (arg: MemArg)
    ensures
        arg == spec_natural(width, offset),
{
    let align: u32 = match width {
        Width::W8 => 0,
        Width::W16 => 1,
        Width::W32 => 2,
        Width::W64 => 3,
    };
    MemArg { offset: offset as u64, align, memory_index: 0 }
}

/// The immediate of a naturally aligned access, in contracts.
pub open spec fn spec_natural(width: Width, offset: u32) -> MemArg {
    MemArg { offset: offset as u64, align: width.align_exponent(), memory_index: 0 }
}

/// One instruction of generated code.
#[derive(Clone, Debug, PartialEq, Eq)]
pub enum Op {
    Control(ControlOp),
    Index(IndexOp, u32),
    /// The indexed multi-way branch: operand `k` exits to `labels[k]`, and any operand
    /// past the end of `labels` exits to the default label.
    BrTable(Vec<u32>, u32),
    Const(ConstOp),
    Load(LoadOp, MemArg),
    Store(StoreOp, MemArg),
    I32(I32Op),
    I64Arith(I64ArithOp),
    I64Bit(I64BitOp),
    I64Compare(I64CompareOp),
    Convert(ConvertOp),
}

/// An instruction as a mathematical value.
pub enum OpView {
    Control(ControlOp),
    Index(IndexOp, u32),
    BrTable(Seq<u32>, u32),
    Const(ConstOp),
    Load(LoadOp, MemArg),
    Store(StoreOp, MemArg),
    I32(I32Op),
    I64Arith(I64ArithOp),
    I64Bit(I64BitOp),
    I64Compare(I64CompareOp),
    Convert(ConvertOp),
}

impl View for Op {
    type V = OpView;

    /// The instruction with its labels as a sequence.
    open spec fn view(&self) -> OpView {
        match *self {
            Op::Control(op) => OpView::Control(op),
            Op::Index(op, index) => OpView::Index(op, index),
            Op::BrTable(labels, default) => OpView::BrTable(labels@, default),
            Op::Const(op) => OpView::Const(op),
            Op::Load(op, arg) => OpView::Load(op, arg),
            Op::Store(op, arg) => OpView::Store(op, arg),
            Op::I32(op) => OpView::I32(op),
            Op::I64Arith(op) => OpView::I64Arith(op),
            Op::I64Bit(op) => OpView::I64Bit(op),
            Op::I64Compare(op) => OpView::I64Compare(op),
            Op::Convert(op) => OpView::Convert(op),
        }
    }
}

/// The views of a list of instructions, in order.
pub open spec fn op_views(ops: Seq<Op>) -> Seq<OpView> {
    Seq::new(ops.len(), |i: int| ops[i]@)
}

} // verus!
