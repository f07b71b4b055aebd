//! What generated code does when it runs: a model of the 32-bit integer and control
//! instructions, by which the dispatch routine is reasoned about.
//!
//! The model follows the abstract syntax of the format, where a scope holds its body;
//! `flat` gives the list of instructions that the encoder is handed for a program. The
//! host is a parameter: it says what every call returns and what it leaves in memory.

use crate::ops::{ConstOp, ControlOp, I32Op, IndexOp, LoadOp, OpView};
use vstd::prelude::*;

verus! {

/// An instruction with the bodies of its scopes. A `Plain` instruction is never one that
/// opens or closes a scope.
pub enum Instr {
    Plain(OpView),
    /// A scope that a branch leaves at its end.
    Block(Seq<Instr>),
    /// A scope that a branch starts again.
    Loop(Seq<Instr>),
    /// A block that is entered if the operand is not zero, and skipped otherwise.
    If(Seq<Instr>),
}

/// The instructions of a program in the order in which they are encoded.
pub open spec fn flat(code: Seq<Instr>) -> Seq<OpView>
    decreases code, 0nat,
{
    if code.len() == 0 {
        Seq::<OpView>::empty()
    } else {
        flat(code.drop_last()) + flat_one(code.last())
    }
}

/// The instructions of one instruction and its bodies, each scope closed by `End`.
pub open spec fn flat_one(instr: Instr) -> Seq<OpView>
    decreases instr, 1nat,
{
    match instr {
        Instr::Plain(op) => seq![op],
        Instr::Block(body) => seq![OpView::Control(ControlOp::Block)] + flat(body) + seq![
            OpView::Control(ControlOp::End),
        ],
        Instr::Loop(body) => seq![OpView::Control(ControlOp::Loop)] + flat(body) + seq![
            OpView::Control(ControlOp::End),
        ],
        Instr::If(body) => seq![OpView::Control(ControlOp::If)] + flat(body) + seq![
            OpView::Control(ControlOp::End),
        ],
    }
}

/// What a running function does that its host can see.
#[verifier::ext_equal]
pub enum Event {
    /// A load of the byte at an address of memory 0.
    Load(int),
    /// A call of a function with its arguments, the last argument last.
    Call(u32, Seq<u32>),
}

/// The host and the other functions of the module, as far as a running function depends
/// on them. Both answers are for the call that stands last in the events, given what
/// memory 0 held when it was made.
pub struct Host {
    /// What the call returns.
    pub result: spec_fn(Seq<Event>, Seq<u8>) -> u32,
    /// What memory 0 holds after the call.
    pub memory: spec_fn(Seq<Event>, Seq<u8>) -> Seq<u8>,
}

/// The state of a running function. Values are 32-bit patterns.
#[verifier::ext_equal]
pub struct Machine {
    /// The operands, the top last.
    pub stack: Seq<u32>,
    /// The parameters and then the declared locals.
    pub locals: Seq<u32>,
    /// Memory 0.
    pub memory: Seq<u8>,
    /// What has happened so far.
    pub events: Seq<Event>,
}

/// How running a piece of code ends.
#[verifier::ext_equal]
pub enum Outcome {
    /// The end of the code was reached.
    Next(Machine),
    /// A branch that leaves that many scopes besides the innermost one is under way.
    Branch(nat, Machine),
    /// The function returned the value.
    Return(u32, Machine),
    /// The program trapped on an access outside of memory.
    Fault,
    /// The model has no rule: an operand is missing, or the instruction is not modelled.
    Stuck,
    /// The loop was started again more often than the fuel allows.
    OutOfFuel,
}

/// The bit pattern of a signed constant.
pub open spec fn bits(value: i32) -> u32 {
    value as u32
}

/// Arithmetic modulo 2^32.
pub open spec fn wrap(value: int) -> u32 {
    (value % 0x1_0000_0000) as u32
}

/// The result of a test or comparison.
pub open spec fn truth(b: bool) -> u32 {
    if b {
        1
    } else {
        0
    }
}

/// The number of arguments of a function of a built module: function 0 is the trap
/// routine and function 1 the dispatch routine, which take the memory handle and a program
/// counter; every other function is a block routine and takes the memory handle.
pub open spec fn arity(function: u32) -> nat {
    if function < 2 {
        2
    } else {
        1
    }
}

impl Machine {
    /// The machine with one more operand.
    pub open spec fn push(self, value: u32) -> Machine {
        Machine { stack: self.stack.push(value), ..self }
    }

    /// The machine without its top operand.
    pub open spec fn pop(self) -> Machine {
        Machine { stack: self.stack.drop_last(), ..self }
    }

    /// The top operand.
    pub open spec fn top(self) -> u32 {
        self.stack.last()
    }

    /// The machine after a call of `function` that takes its arguments from the stack
    /// and leaves its result there.
    pub open spec fn call(self, function: u32, host: Host) -> Machine {
        let kept = self.stack.len() - arity(function);
        let events = self.events.push(Event::Call(function, self.stack.skip(kept)));
        Machine {
            stack: self.stack.take(kept).push((host.result)(events, self.memory)),
            locals: self.locals,
            memory: (host.memory)(events, self.memory),
            events,
        }
    }
}

/// A 32-bit instruction applied to `a` and `b`, where `b` was on top. `Eqz` tests `a`
/// alone.
pub open spec fn binary(op: I32Op, a: u32, b: u32) -> u32 {
    match op {
        I32Op::Eq => truth(a == b),
        I32Op::Ne => truth(a != b),
        I32Op::Add => wrap(a + b),
        I32Op::Sub => wrap(a - b),
        I32Op::And => a & b,
        I32Op::ShrU => a >> (b % 32),
        I32Op::Eqz => truth(a == 0),
    }
}

/// One instruction that is not a scope.
pub open spec fn step(op: OpView, m: Machine, host: Host) -> Outcome {
    match op {
        OpView::Const(ConstOp::I32(value)) => Outcome::Next(m.push(bits(value))),
        OpView::Index(IndexOp::LocalGet, index) => if index < m.locals.len() {
            Outcome::Next(m.push(m.locals[index as int]))
        } else {
            Outcome::Stuck
        },
        OpView::Index(IndexOp::LocalSet, index) => if index < m.locals.len() && m.stack.len() >= 1 {
            Outcome::Next(Machine { locals: m.locals.update(index as int, m.top()), ..m.pop() })
        } else {
            Outcome::Stuck
        },
        OpView::Index(IndexOp::LocalTee, index) => if index < m.locals.len() && m.stack.len() >= 1 {
            Outcome::Next(Machine { locals: m.locals.update(index as int, m.top()), ..m })
        } else {
            Outcome::Stuck
        },
        OpView::Index(IndexOp::Br, depth) => Outcome::Branch(depth as nat, m),
        OpView::Index(IndexOp::BrIf, depth) => if m.stack.len() < 1 {
            Outcome::Stuck
        } else if m.top() != 0 {
            Outcome::Branch(depth as nat, m.pop())
        } else {
            Outcome::Next(m.pop())
        },
        OpView::Index(IndexOp::Call, function) => if m.stack.len() >= arity(function) {
            Outcome::Next(m.call(function, host))
        } else {
            Outcome::Stuck
        },
        OpView::BrTable(labels, default) => if m.stack.len() < 1 {
            Outcome::Stuck
        } else if m.top() < labels.len() {
            Outcome::Branch(labels[m.top() as int] as nat, m.pop())
        } else {
            Outcome::Branch(default as nat, m.pop())
        },
        OpView::Control(ControlOp::Return) => if m.stack.len() >= 1 {
            Outcome::Return(m.top(), m.pop())
        } else {
            Outcome::Stuck
        },
        OpView::Control(ControlOp::Drop) => if m.stack.len() >= 1 {
            Outcome::Next(m.pop())
        } else {
            Outcome::Stuck
        },
        OpView::I32(I32Op::Eqz) => if m.stack.len() >= 1 {
            Outcome::Next(m.pop().push(truth(m.top() == 0)))
        } else {
            Outcome::Stuck
        },
        OpView::I32(op) => if m.stack.len() >= 2 {
            Outcome::Next(m.pop().pop().push(binary(op, m.pop().top(), m.top())))
        } else {
            Outcome::Stuck
        },
        OpView::Load(LoadOp::I32Load8U, arg) => if m.stack.len() < 1 || arg.memory_index != 0 {
            Outcome::Stuck
        } else if m.top() + arg.offset < m.memory.len() {
            Outcome::Next(
                Machine {
                    stack: m.stack.drop_last().push(m.memory[m.top() + arg.offset] as u32),
                    events: m.events.push(Event::Load(m.top() + arg.offset)),
                    ..m
                },
            )
        } else {
            Outcome::Fault
        },
        _ => Outcome::Stuck,
    }
}

/// What a scope makes of the end of its body: a branch to the scope itself is over, and
/// leaves the operands as they were when the scope was entered; a branch further out
/// has one scope less to leave.
pub open spec fn leave(outcome: Outcome, entry: Seq<u32>) -> Outcome {
    match outcome {
        Outcome::Branch(depth, m) => if depth == 0 {
            Outcome::Next(Machine { stack: entry, ..m })
        } else {
            Outcome::Branch((depth - 1) as nat, m)
        },
        other => other,
    }
}

/// Runs `code` from position `at` to its end.
pub open spec fn exec(code: Seq<Instr>, at: nat, m: Machine, host: Host, fuel: nat) -> Outcome
    decreases fuel, code, code.len() - at,
{
    if at >= code.len() {
        Outcome::Next(m)
    } else {
        match exec_one(code[at as int], m, host, fuel) {
            Outcome::Next(after) => exec(code, at + 1, after, host, fuel),
            other => other,
        }
    }
}

/// Runs one instruction. A loop may start again `fuel` times.
pub open spec fn exec_one(instr: Instr, m: Machine, host: Host, fuel: nat) -> Outcome
    decreases fuel, instr, 0nat,
{
    match instr {
        Instr::Plain(op) => step(op, m, host),
        Instr::Block(body) => leave(exec(body, 0, m, host, fuel), m.stack),
        Instr::If(body) => if m.stack.len() < 1 {
            Outcome::Stuck
        } else if m.top() != 0 {
            leave(exec(body, 0, m.pop(), host, fuel), m.pop().stack)
        } else {
            Outcome::Next(m.pop())
        },
        Instr::Loop(body) => match exec(body, 0, m, host, fuel) {
            Outcome::Branch(depth, after) => if depth > 0 {
                Outcome::Branch((depth - 1) as nat, after)
            } else if fuel == 0 {
                Outcome::OutOfFuel
            } else {
                exec_one(instr, Machine { stack: m.stack, ..after }, host, (fuel - 1) as nat)
            },
            other => other,
        },
    }
}

/// Runs a function that returns one value: on the parameters `args` and `locals` more
/// locals, which start at zero. Reaching the end of the body, or branching to it,
/// returns the top operand.
pub open spec fn run(
    code: Seq<Instr>,
    args: Seq<u32>,
    locals: nat,
    memory: Seq<u8>,
    host: Host,
    fuel: nat,
) -> Outcome {
    let start = Machine {
        stack: Seq::<u32>::empty(),
        locals: args + Seq::new(locals, |i: int| 0u32),
        memory,
        events: Seq::<Event>::empty(),
    };
    match exec(code, 0, start, host, fuel) {
        Outcome::Next(m) => step(OpView::Control(ControlOp::Return), m, host),
        Outcome::Branch(depth, m) => if depth == 0 {
            step(OpView::Control(ControlOp::Return), m, host)
        } else {
            Outcome::Stuck
        },
        other => other,
    }
}

/// Running two pieces of code one after the other is running the first and, if its end
/// is reached, the second.
pub proof fn lemma_exec_concat(a: Seq<Instr>, b: Seq<Instr>, m: Machine, host: Host, fuel: nat)
    ensures
        exec(a + b, 0, m, host, fuel) == (match exec(a, 0, m, host, fuel) {
            Outcome::Next(after) => exec(b, 0, after, host, fuel),
            other => other,
        }),
{
    lemma_exec_concat_from(a, b, 0, m, host, fuel);
}

/// `lemma_exec_concat` from any position of the first piece.
proof fn lemma_exec_concat_from(
    a: Seq<Instr>,
    b: Seq<Instr>,
    at: nat,
    m: Machine,
    host: Host,
    fuel: nat,
)
    requires
        at <= a.len(),
    ensures
        exec(a + b, at, m, host, fuel) == (match exec(a, at, m, host, fuel) {
            Outcome::Next(after) => exec(b, 0, after, host, fuel),
            other => other,
        }),
    decreases a.len() - at,
{
    if at < a.len() {
        assert((a + b)[at as int] == a[at as int]);
        match exec_one(a[at as int], m, host, fuel) {
            Outcome::Next(after) => {
                lemma_exec_concat_from(a, b, at + 1, after, host, fuel);
            },
            _ => {},
        }
    } else {
        lemma_exec_shift(a, b, 0, m, host, fuel);
    }
}

/// Running the second of two pieces from inside the whole is running it alone.
proof fn lemma_exec_shift(a: Seq<Instr>, b: Seq<Instr>, at: nat, m: Machine, host: Host, fuel: nat)
    requires
        at <= b.len(),
    ensures
        exec(a + b, a.len() + at, m, host, fuel) == exec(b, at, m, host, fuel),
    decreases b.len() - at,
{
    if at < b.len() {
        assert((a + b)[(a.len() + at) as int] == b[at as int]);
        match exec_one(b[at as int], m, host, fuel) {
            Outcome::Next(after) => {
                lemma_exec_shift(a, b, at + 1, after, host, fuel);
            },
            _ => {},
        }
    }
}

/// Flattening distributes over concatenation.
pub proof fn lemma_flat_concat(a: Seq<Instr>, b: Seq<Instr>)
    ensures
        flat(a + b) == flat(a) + flat(b),
    decreases b.len(),
{
    if b.len() == 0 {
        assert(a + b == a);
    } else {
        lemma_flat_concat(a, b.drop_last());
        assert((a + b).drop_last() == a + b.drop_last());
        assert((a + b).last() == b.last());
    }
}

} // verus!
