//! What the dispatch routine does when it runs.

use crate::dispatch::{
    br, call, case_branch, case_labels, control, dispatch_ops, halt_check, handler, handlers,
    i32_const, i32_op, local_get, local_set, scopes, slot_lookup, switch,
    trap_check, unknown_pc, DISPATCH_MAP_OFFSET, FIRST_BLOCK_FUNCTION, HALT_PC, LOCAL_MEMORY,
    LOCAL_PC, LOCAL_START_PC, STATUS_HALT, STATUS_UNKNOWN_PC, TRAP_FLAG, TRAP_FUNCTION,
};
use crate::dispatch_table::{
    aligned, base, distinct, entries, fits32, highest, law_known_addresses, law_unknown_slots,
    lemma_bounds, lowest, sentinel,
};
use crate::machine::{
    binary, bits, exec, exec_one, flat, flat_one, lemma_exec_concat, lemma_flat_concat, run, step, wrap,
    Event, Host, Instr, Machine, Outcome,
};
use crate::ops::{ControlOp, I32Op, OpView};
use vstd::prelude::*;

verus! {

/// Instructions without scopes, as a program.
pub open spec fn plain(ops: Seq<OpView>) -> Seq<Instr> {
    Seq::new(ops.len(), |i: int| Instr::Plain(ops[i]))
}

/// The halt check: the test, and what is done if it holds.
pub open spec fn halt_check_code() -> Seq<Instr> {
    plain(seq![local_get(LOCAL_PC), i32_const(HALT_PC), i32_op(I32Op::Eq)]) + seq![
        Instr::If(plain(seq![i32_const(STATUS_HALT), control(ControlOp::Return)])),
    ]
}

/// The trap check: the test, and what is done if it holds.
pub open spec fn trap_check_code() -> Seq<Instr> {
    plain(seq![local_get(LOCAL_PC), i32_const(TRAP_FLAG), i32_op(I32Op::And)]) + seq![
        Instr::If(
            plain(
                seq![
                    local_get(LOCAL_MEMORY),
                    local_get(LOCAL_PC),
                    call(TRAP_FUNCTION),
                    local_set(LOCAL_PC),
                    br(1),
                ],
            ),
        ),
    ]
}

/// The handler of case `i` of `n`.
pub open spec fn handler_code(n: u32, i: u32) -> Seq<Instr> {
    plain(
        seq![
            local_get(LOCAL_MEMORY),
            call((i + FIRST_BLOCK_FUNCTION) as u32),
            local_set(LOCAL_PC),
            br((n - i) as u32),
        ],
    )
}

/// The scope of case `k` of `n`, or for `k == n` the default scope. The scope of case 0
/// holds the lookup and the indexed branch; every other scope holds the scope of the case
/// before it and then the handler of that case.
pub open spec fn case_scope(n: u32, min_addr: u32, k: u32) -> Instr
    decreases k,
{
    if k == 0 {
        Instr::Block(plain(slot_lookup(min_addr) + seq![case_branch(n)]))
    } else {
        Instr::Block(
            seq![case_scope(n, min_addr, (k - 1) as u32)] + handler_code(n, (k - 1) as u32),
        )
    }
}

/// One pass of the dispatch loop.
pub open spec fn loop_body(n: u32, min_addr: u32) -> Seq<Instr> {
    halt_check_code() + trap_check_code() + (if n == 0 {
        Seq::<Instr>::empty()
    } else {
        seq![case_scope(n, min_addr, n)]
    }) + plain(unknown_pc())
}

/// The dispatch loop.
pub open spec fn dispatch_loop(n: u32, min_addr: u32) -> Instr {
    Instr::Loop(loop_body(n, min_addr))
}

/// The dispatch routine with the bodies of its scopes.
pub open spec fn dispatch_program(n: u32, min_addr: u32) -> Seq<Instr> {
    plain(seq![local_get(LOCAL_START_PC), local_set(LOCAL_PC)]) + seq![dispatch_loop(n, min_addr)]
        + plain(seq![i32_const(0)])
}

/// Instructions without scopes are flat as they stand.
proof fn lemma_flat_plain(ops: Seq<OpView>)
    ensures
        flat(plain(ops)) == ops,
    decreases ops.len(),
{
    if ops.len() > 0 {
        lemma_flat_plain(ops.drop_last());
        assert(plain(ops).drop_last() == plain(ops.drop_last()));
        assert(flat_one(plain(ops).last()) == seq![ops.last()]);
        assert(ops.drop_last() + seq![ops.last()] == ops);
    }
}

/// A program of one instruction is as flat as the instruction.
proof fn lemma_flat_single(instr: Instr)
    ensures
        flat(seq![instr]) == flat_one(instr),
{
    let one = seq![instr];
    assert(one.drop_last() == Seq::<Instr>::empty());
    assert(flat(one.drop_last()) == Seq::<OpView>::empty());
    assert(Seq::<OpView>::empty() + flat_one(instr) == flat_one(instr));
}

/// A test followed by a conditional scope.
proof fn lemma_flat_if(test: Seq<OpView>, body: Seq<OpView>)
    ensures
        flat(plain(test) + seq![Instr::If(plain(body))]) == test + seq![control(ControlOp::If)]
            + body + seq![control(ControlOp::End)],
{
    lemma_flat_concat(plain(test), seq![Instr::If(plain(body))]);
    lemma_flat_plain(test);
    lemma_flat_plain(body);
    lemma_flat_single(Instr::If(plain(body)));
}

/// The scope of case `k`, flat: the scopes open together, and each closes in front of
/// its handler.
proof fn lemma_flat_case_scope(n: u32, min_addr: u32, k: u32)
    requires
        k <= n,
    ensures
        flat_one(case_scope(n, min_addr, k)) == scopes(k) + slot_lookup(min_addr) + seq![
            case_branch(n),
        ] + handlers(n, k) + seq![control(ControlOp::End)],
    decreases k,
{
    let block = seq![control(ControlOp::Block)];
    let end = seq![control(ControlOp::End)];
    let lookup = slot_lookup(min_addr) + seq![case_branch(n)];
    if k == 0 {
        lemma_flat_plain(lookup);
        assert(scopes(0) =~= block);
        assert(block + lookup + end =~= scopes(0) + slot_lookup(min_addr) + seq![case_branch(n)]
            + handlers(n, 0) + end);
    } else {
        let before = (k - 1) as u32;
        let inner = case_scope(n, min_addr, before);
        let ops = seq![
            local_get(LOCAL_MEMORY),
            call((before + FIRST_BLOCK_FUNCTION) as u32),
            local_set(LOCAL_PC),
            br((n - before) as u32),
        ];
        lemma_flat_case_scope(n, min_addr, before);
        lemma_flat_concat(seq![inner], handler_code(n, before));
        lemma_flat_single(inner);
        lemma_flat_plain(ops);
        assert(handler(n, before) =~= end + ops);
        assert(scopes(k) =~= block + scopes(before));
        assert(block + (flat_one(inner) + ops) + end =~= scopes(k) + slot_lookup(min_addr) + seq![
            case_branch(n),
        ] + handlers(n, k) + end);
    }
}

/// The instructions that `dispatch_code` generates are the dispatch routine as this
/// file describes it, followed by the `End` of the function.
pub proof fn law_dispatch_program(n: u32, min_addr: u32)
    ensures
        flat(dispatch_program(n, min_addr)) + seq![control(ControlOp::End)] == dispatch_ops(
            n,
            min_addr,
        ),
{
    let end = seq![control(ControlOp::End)];
    let head = seq![local_get(LOCAL_START_PC), local_set(LOCAL_PC)];
    let tail = seq![i32_const(0)];
    let body = loop_body(n, min_addr);
    let middle = if n == 0 {
        Seq::<Instr>::empty()
    } else {
        seq![case_scope(n, min_addr, n)]
    };
    // The body of the loop.
    lemma_flat_if(
        seq![local_get(LOCAL_PC), i32_const(HALT_PC), i32_op(I32Op::Eq)],
        seq![i32_const(STATUS_HALT), control(ControlOp::Return)],
    );
    lemma_flat_if(
        seq![local_get(LOCAL_PC), i32_const(TRAP_FLAG), i32_op(I32Op::And)],
        seq![
            local_get(LOCAL_MEMORY),
            local_get(LOCAL_PC),
            call(TRAP_FUNCTION),
            local_set(LOCAL_PC),
            br(1),
        ],
    );
    assert(flat(halt_check_code()) =~= halt_check());
    assert(flat(trap_check_code()) =~= trap_check());
    lemma_flat_plain(unknown_pc());
    lemma_flat_concat(halt_check_code(), trap_check_code());
    lemma_flat_concat(halt_check_code() + trap_check_code(), middle);
    lemma_flat_concat(halt_check_code() + trap_check_code() + middle, plain(unknown_pc()));
    if n == 0 {
        assert(flat(middle) =~= Seq::<OpView>::empty());
    } else {
        lemma_flat_single(case_scope(n, min_addr, n));
        lemma_flat_case_scope(n, min_addr, n);
    }
    let rest = if n == 0 {
        unknown_pc()
    } else {
        switch(n, min_addr)
    };
    assert(flat(body) =~= halt_check() + trap_check() + rest);
    // The routine.
    lemma_flat_plain(head);
    lemma_flat_plain(tail);
    lemma_flat_single(dispatch_loop(n, min_addr));
    lemma_flat_concat(plain(head), seq![dispatch_loop(n, min_addr)]);
    lemma_flat_concat(plain(head) + seq![dispatch_loop(n, min_addr)], plain(tail));
    assert(flat(dispatch_program(n, min_addr)) + end =~= dispatch_ops(n, min_addr));
}

/// Whether the machine stands at the start of a pass of the dispatch loop: no operands,
/// and the three locals of the routine.
pub open spec fn at_loop(m: Machine) -> bool {
    m.stack.len() == 0 && m.locals.len() == 3
}

/// The program counter of the dispatch routine.
pub open spec fn pc_of(m: Machine) -> u32 {
    m.locals[LOCAL_PC as int]
}

/// The memory handle of the dispatch routine.
pub open spec fn handle_of(m: Machine) -> u32 {
    m.locals[LOCAL_MEMORY as int]
}

/// The program counter that halts, as a bit pattern.
pub open spec fn halt_pc() -> u32 {
    0xFFFF_FFFF
}

/// The status of an unknown program counter, as a bit pattern.
pub open spec fn status_unknown_pc() -> u32 {
    0xFFFF_FFFF
}

/// Whether the top bit of a program counter is set.
pub open spec fn tagged(pc: u32) -> bool {
    pc >= 0x8000_0000
}

/// The bit patterns of the constants of the routine.
proof fn lemma_constants()
    ensures
        bits(HALT_PC) == halt_pc(),
        bits(STATUS_UNKNOWN_PC) == status_unknown_pc(),
        bits(STATUS_HALT) == 0,
        bits(TRAP_FLAG) == 0x8000_0000,
        bits(DISPATCH_MAP_OFFSET as i32) == 256,
        bits(1) == 1,
        bits(0) == 0,
{
    assert((-1i32) as u32 == 0xFFFF_FFFFu32) by (bit_vector);
    assert((-0x8000_0000i32) as u32 == 0x8000_0000u32) by (bit_vector);
}

/// Running instructions without scopes from `at` is taking one step and running from
/// `at + 1`.
proof fn lemma_plain_step(ops: Seq<OpView>, at: nat, m: Machine, host: Host, fuel: nat)
    requires
        at < ops.len(),
    ensures
        exec(plain(ops), at, m, host, fuel) == (match step(ops[at as int], m, host) {
            Outcome::Next(after) => exec(plain(ops), at + 1, after, host, fuel),
            other => other,
        }),
{
    let code = plain(ops);
    assert(code.len() == ops.len());
    assert(code[at as int] == Instr::Plain(ops[at as int]));
    assert(exec_one(code[at as int], m, host, fuel) == step(ops[at as int], m, host));
    assert(exec(code, at, m, host, fuel) == (match exec_one(code[at as int], m, host, fuel) {
        Outcome::Next(after) => exec(code, at + 1, after, host, fuel),
        other => other,
    }));
}

/// At the end of the code nothing is left to run.
proof fn lemma_plain_end(ops: Seq<OpView>, m: Machine, host: Host, fuel: nat)
    ensures
        exec(plain(ops), ops.len(), m, host, fuel) == Outcome::Next(m),
{
}

/// Running a program of one instruction is running the instruction.
proof fn lemma_single(instr: Instr, m: Machine, host: Host, fuel: nat)
    ensures
        exec(seq![instr], 0, m, host, fuel) == (match exec_one(instr, m, host, fuel) {
            Outcome::Next(after) => Outcome::Next(after),
            other => other,
        }),
{
    let code = seq![instr];
    assert(code[0] == instr);
    match exec_one(instr, m, host, fuel) {
        Outcome::Next(after) => {
            assert(exec(code, 1, after, host, fuel) == Outcome::Next(after));
        },
        _ => {},
    }
}

/// The halt check returns the halt status on the halt sentinel and changes nothing
/// otherwise.
proof fn lemma_halt_check(m: Machine, host: Host, fuel: nat)
    requires
        at_loop(m),
    ensures
        exec(halt_check_code(), 0, m, host, fuel) == (if pc_of(m) == halt_pc() {
            Outcome::Return(0, m)
        } else {
            Outcome::Next(m)
        }),
{
    lemma_constants();
    let test = seq![local_get(LOCAL_PC), i32_const(HALT_PC), i32_op(I32Op::Eq)];
    let then = seq![i32_const(STATUS_HALT), control(ControlOp::Return)];
    let m1 = m.push(pc_of(m));
    let m2 = m1.push(halt_pc());
    let m3 = m.push(if pc_of(m) == halt_pc() { 1u32 } else { 0u32 });
    lemma_plain_step(test, 0, m, host, fuel);
    lemma_plain_step(test, 1, m1, host, fuel);
    lemma_plain_step(test, 2, m2, host, fuel);
    lemma_plain_end(test, m3, host, fuel);
    assert(m2.pop().pop().push(binary(I32Op::Eq, m2.pop().top(), m2.top())) =~~= m3);
    assert(exec(plain(test), 0, m, host, fuel) == Outcome::Next(m3));
    lemma_exec_concat(plain(test), seq![Instr::If(plain(then))], m, host, fuel);
    lemma_single(Instr::If(plain(then)), m3, host, fuel);
    assert(m3.pop() =~~= m);
    if pc_of(m) == halt_pc() {
        let m4 = m.push(0);
        lemma_plain_step(then, 0, m, host, fuel);
        lemma_plain_step(then, 1, m4, host, fuel);
        assert(m4.pop() =~~= m);
    }
}

/// The machine after the trap routine was called with the memory handle and the program
/// counter, and its result has become the program counter.
pub open spec fn after_trap(m: Machine, host: Host) -> Machine {
    let events = m.events.push(Event::Call(TRAP_FUNCTION, seq![handle_of(m), pc_of(m)]));
    Machine {
        stack: Seq::<u32>::empty(),
        locals: m.locals.update(LOCAL_PC as int, (host.result)(events, m.memory)),
        memory: (host.memory)(events, m.memory),
        events,
    }
}

/// The address at which the routine looks the case of a program counter up: the
/// subtraction wraps around below `min_addr`.
pub open spec fn slot_address(pc: u32, min_addr: u32) -> int {
    DISPATCH_MAP_OFFSET + wrap(pc - min_addr) / 2
}

/// The machine after the byte at `address` was looked up.
pub open spec fn after_lookup(m: Machine, address: int) -> Machine {
    Machine { stack: Seq::<u32>::empty(), events: m.events.push(Event::Load(address)), ..m }
}

/// The machine after the byte at `address` was looked up, block `index` was called with
/// the memory handle, and its result has become the program counter.
pub open spec fn after_block(m: Machine, address: int, index: u32, host: Host) -> Machine {
    let events = m.events.push(Event::Load(address)).push(
        Event::Call((index + FIRST_BLOCK_FUNCTION) as u32, seq![handle_of(m)]),
    );
    Machine {
        stack: Seq::<u32>::empty(),
        locals: m.locals.update(LOCAL_PC as int, (host.result)(events, m.memory)),
        memory: (host.memory)(events, m.memory),
        events,
    }
}

/// The trap check calls the trap routine and starts the loop again if the top bit of
/// the program counter is set, and changes nothing otherwise.
proof fn lemma_trap_check(m: Machine, host: Host, fuel: nat)
    requires
        at_loop(m),
    ensures
        exec(trap_check_code(), 0, m, host, fuel) == (if tagged(pc_of(m)) {
            Outcome::Branch(0, after_trap(m, host))
        } else {
            Outcome::Next(m)
        }),
{
    lemma_constants();
    let pc = pc_of(m);
    let test = seq![local_get(LOCAL_PC), i32_const(TRAP_FLAG), i32_op(I32Op::And)];
    let then = seq![
        local_get(LOCAL_MEMORY),
        local_get(LOCAL_PC),
        call(TRAP_FUNCTION),
        local_set(LOCAL_PC),
        br(1),
    ];
    let m1 = m.push(pc);
    let m2 = m1.push(0x8000_0000);
    let m3 = m.push(pc & 0x8000_0000);
    lemma_plain_step(test, 0, m, host, fuel);
    lemma_plain_step(test, 1, m1, host, fuel);
    lemma_plain_step(test, 2, m2, host, fuel);
    lemma_plain_end(test, m3, host, fuel);
    assert(m2.pop().pop().push(binary(I32Op::And, m2.pop().top(), m2.top()))
        =~~= m3);
    assert(exec(plain(test), 0, m, host, fuel) == Outcome::Next(m3));
    lemma_exec_concat(plain(test), seq![Instr::If(plain(then))], m, host, fuel);
    lemma_single(Instr::If(plain(then)), m3, host, fuel);
    assert(m3.pop() =~~= m);
    assert((pc & 0x8000_0000u32) != 0 <==> pc >= 0x8000_0000u32) by (bit_vector);
    if tagged(pc) {
        let b1 = m.push(handle_of(m));
        let b2 = b1.push(pc);
        let b3 = b2.call(TRAP_FUNCTION, host);
        let b4 = after_trap(m, host);
        lemma_plain_step(then, 0, m, host, fuel);
        lemma_plain_step(then, 1, b1, host, fuel);
        lemma_plain_step(then, 2, b2, host, fuel);
        lemma_plain_step(then, 3, b3, host, fuel);
        lemma_plain_step(then, 4, b4, host, fuel);
        assert(b2.stack.skip(0) =~= seq![handle_of(m), pc]);
        assert(Machine { locals: b3.locals.update(LOCAL_PC as int, b3.top()), ..b3.pop() } =~~= b4);
        assert(exec(plain(then), 0, m, host, fuel) == Outcome::Branch(1, b4));
    }
}

/// The lookup reads the byte at the slot address and branches by it: to the case of the
/// byte if there is one, and to the default otherwise.
proof fn lemma_lookup(n: u32, min_addr: u32, m: Machine, host: Host, fuel: nat)
    requires
        at_loop(m),
    ensures
        exec(plain(slot_lookup(min_addr) + seq![case_branch(n)]), 0, m, host, fuel) == ({
            let address = slot_address(pc_of(m), min_addr);
            if address >= m.memory.len() {
                Outcome::Fault
            } else if m.memory[address] < n {
                Outcome::Branch(m.memory[address] as nat, after_lookup(m, address))
            } else {
                Outcome::Branch(n as nat, after_lookup(m, address))
            }
        }),
{
    lemma_constants();
    let pc = pc_of(m);
    let ops = slot_lookup(min_addr) + seq![case_branch(n)];
    let difference = wrap(pc - min_addr);
    let address = slot_address(pc, min_addr);
    assert(bits(min_addr as i32) == min_addr) by {
        assert((min_addr as i32) as u32 == min_addr) by (bit_vector);
    }
    assert(difference >> (1u32 % 32) == difference / 2) by (bit_vector);
    assert(wrap(difference / 2 + 256) == address);
    let m1 = m.push(pc);
    let m2 = m1.push(min_addr);
    let m3 = m.push(difference);
    let m4 = m3.push(1);
    let m5 = m.push(difference / 2);
    let m6 = m5.push(256);
    let m7 = m.push(address as u32);
    lemma_plain_step(ops, 0, m, host, fuel);
    lemma_plain_step(ops, 1, m1, host, fuel);
    lemma_plain_step(ops, 2, m2, host, fuel);
    assert(m2.pop().pop().push(binary(I32Op::Sub, m2.pop().top(), m2.top()))
        =~~= m3);
    lemma_plain_step(ops, 3, m3, host, fuel);
    lemma_plain_step(ops, 4, m4, host, fuel);
    assert(m4.pop().pop().push(binary(I32Op::ShrU, m4.pop().top(), m4.top()))
        =~~= m5);
    lemma_plain_step(ops, 5, m5, host, fuel);
    lemma_plain_step(ops, 6, m6, host, fuel);
    assert(m6.pop().pop().push(binary(I32Op::Add, m6.pop().top(), m6.top()))
        =~~= m7);
    lemma_plain_step(ops, 7, m7, host, fuel);
    if address < m.memory.len() {
        let byte = m.memory[address];
        let m8 = Machine {
            stack: m7.stack.drop_last().push(byte as u32),
            events: m.events.push(Event::Load(address)),
            ..m7
        };
        lemma_plain_step(ops, 8, m8, host, fuel);
        assert(ops[8] == case_branch(n));
        assert(m8.pop() =~~= after_lookup(m, address));
        assert(case_labels(n).len() == n);
        if byte < n {
            assert(case_labels(n)[byte as int] == byte);
        }
    }
}

/// What one pass of the dispatch loop comes to, from the program counter and memory:
/// a return, a fault, or a branch back to the start of the loop after one call.
pub open spec fn pass(n: u32, min_addr: u32, m: Machine, host: Host) -> Outcome {
    let address = slot_address(pc_of(m), min_addr);
    if pc_of(m) == halt_pc() {
        Outcome::Return(0, m)
    } else if tagged(pc_of(m)) {
        Outcome::Branch(0, after_trap(m, host))
    } else if n == 0 {
        Outcome::Return(status_unknown_pc(), m)
    } else if address >= m.memory.len() {
        Outcome::Fault
    } else if m.memory[address] < n {
        Outcome::Branch(0, after_block(m, address, m.memory[address] as u32, host))
    } else {
        Outcome::Return(status_unknown_pc(), after_lookup(m, address))
    }
}

/// The scope of case `k` ends in one of three ways. A branch to a case past `k` goes on
/// outwards. A branch to case `k` itself reaches the end of the scope. A branch to a
/// case before `k` has run the handler of that case, which leaves for the loop.
proof fn lemma_case_scope(n: u32, min_addr: u32, k: u32, m: Machine, host: Host, fuel: nat)
    requires
        at_loop(m),
        k <= n < u32::MAX,
    ensures
        exec_one(case_scope(n, min_addr, k), m, host, fuel) == ({
            let address = slot_address(pc_of(m), min_addr);
            let target = if address < m.memory.len() && m.memory[address] < n {
                m.memory[address] as u32
            } else {
                n
            };
            if address >= m.memory.len() {
                Outcome::Fault
            } else if target > k {
                Outcome::Branch((target - k - 1) as nat, after_lookup(m, address))
            } else if target == k {
                Outcome::Next(after_lookup(m, address))
            } else {
                Outcome::Branch((n - k) as nat, after_block(m, address, target, host))
            }
        }),
    decreases k,
{
    let address = slot_address(pc_of(m), min_addr);
    if k == 0 {
        lemma_lookup(n, min_addr, m, host, fuel);
        if address < m.memory.len() {
            assert(Machine { stack: m.stack, ..after_lookup(m, address) } =~~= after_lookup(
                m,
                address,
            ));
        }
    } else {
        let before = (k - 1) as u32;
        let inner = case_scope(n, min_addr, before);
        let ops = seq![
            local_get(LOCAL_MEMORY),
            call((before + FIRST_BLOCK_FUNCTION) as u32),
            local_set(LOCAL_PC),
            br((n - before) as u32),
        ];
        lemma_case_scope(n, min_addr, before, m, host, fuel);
        lemma_single(inner, m, host, fuel);
        lemma_exec_concat(seq![inner], handler_code(n, before), m, host, fuel);
        if address < m.memory.len() {
            let looked = after_lookup(m, address);
            let target = if m.memory[address] < n {
                m.memory[address] as u32
            } else {
                n
            };
            assert(Machine { stack: m.stack, ..looked } =~~= looked);
            if target == before {
                let h1 = looked.push(handle_of(m));
                let h2 = h1.call((before + FIRST_BLOCK_FUNCTION) as u32, host);
                let h3 = after_block(m, address, before, host);
                lemma_plain_step(ops, 0, looked, host, fuel);
                lemma_plain_step(ops, 1, h1, host, fuel);
                lemma_plain_step(ops, 2, h2, host, fuel);
                lemma_plain_step(ops, 3, h3, host, fuel);
                assert(h1.stack.skip(0) =~= seq![handle_of(m)]);
                assert(Machine { locals: h2.locals.update(LOCAL_PC as int, h2.top()), ..h2.pop() }
                    =~~= h3);
                assert(exec(handler_code(n, before), 0, looked, host, fuel) == Outcome::Branch(
                    (n - before) as nat,
                    h3,
                ));
            }
        }
    }
}

/// One pass of the dispatch loop comes to what `pass` says.
proof fn lemma_loop_body(n: u32, min_addr: u32, m: Machine, host: Host, fuel: nat)
    requires
        at_loop(m),
        n < u32::MAX,
    ensures
        exec(loop_body(n, min_addr), 0, m, host, fuel) == pass(n, min_addr, m, host),
{
    lemma_constants();
    let checks = halt_check_code() + trap_check_code();
    let middle = if n == 0 {
        Seq::<Instr>::empty()
    } else {
        seq![case_scope(n, min_addr, n)]
    };
    lemma_halt_check(m, host, fuel);
    lemma_trap_check(m, host, fuel);
    lemma_exec_concat(halt_check_code(), trap_check_code(), m, host, fuel);
    lemma_exec_concat(checks, middle, m, host, fuel);
    lemma_exec_concat(checks + middle, plain(unknown_pc()), m, host, fuel);
    if pc_of(m) != halt_pc() && !tagged(pc_of(m)) {
        let address = slot_address(pc_of(m), min_addr);
        if n == 0 {
            lemma_unknown_pc(m, host, fuel);
        } else {
            lemma_single(case_scope(n, min_addr, n), m, host, fuel);
            lemma_case_scope(n, min_addr, n, m, host, fuel);
            if address < m.memory.len() && m.memory[address] >= n {
                lemma_unknown_pc(after_lookup(m, address), host, fuel);
            }
        }
    }
}

/// The default returns the status of an unknown program counter.
proof fn lemma_unknown_pc(m: Machine, host: Host, fuel: nat)
    requires
        m.stack.len() == 0,
    ensures
        exec(plain(unknown_pc()), 0, m, host, fuel) == Outcome::Return(status_unknown_pc(), m),
{
    lemma_constants();
    let m1 = m.push(status_unknown_pc());
    lemma_plain_step(unknown_pc(), 0, m, host, fuel);
    lemma_plain_step(unknown_pc(), 1, m1, host, fuel);
    assert(m1.pop() =~~= m);
}

/// The dispatch loop runs pass after pass: a pass that ends in a return or a fault ends
/// the loop, and a pass that ends in a call starts the next pass with the result of the
/// call as the program counter.
pub proof fn law_dispatch_loop(n: u32, min_addr: u32, m: Machine, host: Host, fuel: nat)
    requires
        at_loop(m),
        n < u32::MAX,
    ensures
        exec_one(dispatch_loop(n, min_addr), m, host, fuel) == (match pass(n, min_addr, m, host) {
            Outcome::Branch(_, after) => if fuel == 0 {
                Outcome::OutOfFuel
            } else {
                exec_one(dispatch_loop(n, min_addr), after, host, (fuel - 1) as nat)
            },
            other => other,
        }),
        match pass(n, min_addr, m, host) {
            Outcome::Branch(_, after) => at_loop(after),
            _ => true,
        },
{
    lemma_loop_body(n, min_addr, m, host, fuel);
    match pass(n, min_addr, m, host) {
        Outcome::Branch(depth, after) => {
            assert(depth == 0);
            assert(Machine { stack: m.stack, ..after } =~~= after);
        },
        _ => {},
    }
}

/// The machine at the first pass of the loop when the routine is called with a memory
/// handle and a program counter to start at.
pub open spec fn entry(handle: u32, start_pc: u32, memory: Seq<u8>) -> Machine {
    Machine {
        stack: Seq::<u32>::empty(),
        locals: seq![handle, start_pc, start_pc],
        memory,
        events: Seq::<Event>::empty(),
    }
}

/// A call of the dispatch routine of a module with `n` blocks.
pub open spec fn run_dispatch(
    n: u32,
    min_addr: u32,
    memory: Seq<u8>,
    handle: u32,
    start_pc: u32,
    host: Host,
    fuel: nat,
) -> Outcome {
    run(dispatch_program(n, min_addr), seq![handle, start_pc], 1, memory, host, fuel)
}

/// Whether memory holds a dispatch table where generated code looks for it.
pub open spec fn table_loaded(memory: Seq<u8>, table: Seq<u8>) -> bool {
    &&& memory.len() >= DISPATCH_MAP_OFFSET + table.len()
    &&& forall|s: int| 0 <= s < table.len() ==> memory[DISPATCH_MAP_OFFSET + s] == #[trigger] table[s]
}

/// The loop has no way out but a return: it never reaches its end and no branch leaves
/// it.
proof fn lemma_loop_ends(n: u32, min_addr: u32, m: Machine, host: Host, fuel: nat)
    requires
        at_loop(m),
        n < u32::MAX,
    ensures
        match exec_one(dispatch_loop(n, min_addr), m, host, fuel) {
            Outcome::Return(_, _) | Outcome::Fault | Outcome::OutOfFuel => true,
            _ => false,
        },
    decreases fuel,
{
    law_dispatch_loop(n, min_addr, m, host, fuel);
    match pass(n, min_addr, m, host) {
        Outcome::Branch(_, after) => {
            if fuel > 0 {
                lemma_loop_ends(n, min_addr, after, host, (fuel - 1) as nat);
            }
        },
        _ => {},
    }
}

/// A call of the dispatch routine copies the start argument into the program counter
/// and runs the loop.
pub proof fn law_run(
    n: u32,
    min_addr: u32,
    memory: Seq<u8>,
    handle: u32,
    start_pc: u32,
    host: Host,
    fuel: nat,
)
    requires
        n < u32::MAX,
    ensures
        run_dispatch(n, min_addr, memory, handle, start_pc, host, fuel) == exec_one(
            dispatch_loop(n, min_addr),
            entry(handle, start_pc, memory),
            host,
            fuel,
        ),
{
    let head = seq![local_get(LOCAL_START_PC), local_set(LOCAL_PC)];
    let tail = seq![i32_const(0)];
    let the_loop = dispatch_loop(n, min_addr);
    let start = Machine {
        stack: Seq::<u32>::empty(),
        locals: seq![handle, start_pc] + Seq::new(1, |i: int| 0u32),
        memory,
        events: Seq::<Event>::empty(),
    };
    let m1 = start.push(start_pc);
    let m2 = entry(handle, start_pc, memory);
    lemma_plain_step(head, 0, start, host, fuel);
    lemma_plain_step(head, 1, m1, host, fuel);
    lemma_plain_end(head, m2, host, fuel);
    assert(Machine { locals: m1.locals.update(LOCAL_PC as int, m1.top()), ..m1.pop() } =~~= m2);
    assert(exec(plain(head), 0, start, host, fuel) == Outcome::Next(m2));
    lemma_exec_concat(plain(head), seq![the_loop], start, host, fuel);
    lemma_exec_concat(plain(head) + seq![the_loop], plain(tail), start, host, fuel);
    lemma_single(the_loop, m2, host, fuel);
    lemma_loop_ends(n, min_addr, m2, host, fuel);
}

/// Called with the halt sentinel, the routine returns the halt status. It looks
/// nothing up and calls nothing, whatever the table and the blocks are.
pub proof fn law_halt(n: u32, min_addr: u32, memory: Seq<u8>, handle: u32, host: Host, fuel: nat)
    requires
        n < u32::MAX,
    ensures
        run_dispatch(n, min_addr, memory, handle, halt_pc(), host, fuel) == Outcome::Return(
            0,
            entry(handle, halt_pc(), memory),
        ),
        entry(handle, halt_pc(), memory).events.len() == 0,
{
    law_run(n, min_addr, memory, handle, halt_pc(), host, fuel);
    law_dispatch_loop(n, min_addr, entry(handle, halt_pc(), memory), host, fuel);
}

/// A pass of the loop that finds the top bit of the program counter set, on a program
/// counter other than the halt sentinel: the trap routine is called once, with the
/// memory handle and the program counter; nothing is looked up; and the next pass starts
/// with the result of the call as its program counter.
pub proof fn law_trap(n: u32, min_addr: u32, m: Machine, host: Host, fuel: nat)
    requires
        at_loop(m),
        n < u32::MAX,
        tagged(pc_of(m)),
        pc_of(m) != halt_pc(),
    ensures
        exec_one(dispatch_loop(n, min_addr), m, host, fuel + 1) == exec_one(
            dispatch_loop(n, min_addr),
            after_trap(m, host),
            host,
            fuel,
        ),
        after_trap(m, host).events == m.events.push(
            Event::Call(TRAP_FUNCTION, seq![handle_of(m), pc_of(m)]),
        ),
        pc_of(after_trap(m, host)) == (host.result)(after_trap(m, host).events, m.memory),
{
    law_dispatch_loop(n, min_addr, m, host, fuel + 1);
}

/// A pass of the loop on a program counter that neither halts nor is tagged, in a
/// module with blocks: the byte at the slot address is looked up. If memory ends
/// before it, the program traps. If the byte is the index of a block, that block is
/// called once with the memory handle, and the next pass starts with its result as the
/// program counter. Any other byte returns the status of an unknown program counter.
pub proof fn law_lookup(n: u32, min_addr: u32, m: Machine, host: Host, fuel: nat)
    requires
        at_loop(m),
        0 < n < u32::MAX,
        !tagged(pc_of(m)),
    ensures
        ({
            let address = slot_address(pc_of(m), min_addr);
            let the_loop = dispatch_loop(n, min_addr);
            if address >= m.memory.len() {
                exec_one(the_loop, m, host, fuel) == Outcome::Fault
            } else if m.memory[address] < n {
                exec_one(the_loop, m, host, fuel + 1) == exec_one(
                    the_loop,
                    after_block(m, address, m.memory[address] as u32, host),
                    host,
                    fuel,
                )
            } else {
                exec_one(the_loop, m, host, fuel) == Outcome::Return(
                    status_unknown_pc(),
                    after_lookup(m, address),
                )
            }
        }),
{
    law_dispatch_loop(n, min_addr, m, host, fuel);
    law_dispatch_loop(n, min_addr, m, host, fuel + 1);
}

/// Without blocks, every program counter that neither halts nor is tagged is unknown,
/// and nothing is looked up.
pub proof fn law_no_blocks(min_addr: u32, m: Machine, host: Host, fuel: nat)
    requires
        at_loop(m),
        !tagged(pc_of(m)),
    ensures
        exec_one(dispatch_loop(0, min_addr), m, host, fuel) == Outcome::Return(
            status_unknown_pc(),
            m,
        ),
{
    law_dispatch_loop(0, min_addr, m, host, fuel);
}

/// The block at a known address is reached in one step. For distinct, 2-byte-aligned
/// block addresses below 2^31, at most 256 of them, with the table in memory: called with
/// the address of block `i`, the routine looks the slot of the address up and calls
/// block `i`, and no other. If the block returns the halt sentinel, the routine
/// returns the halt status after that one call.
pub proof fn law_known_block(
    addrs: Seq<u64>,
    i: int,
    memory: Seq<u8>,
    handle: u32,
    host: Host,
    fuel: nat,
)
    requires
        0 < addrs.len() <= 256,
        distinct(addrs),
        aligned(addrs),
        fits32(addrs),
        0 <= i < addrs.len(),
        !tagged(addrs[i] as u32),
        table_loaded(memory, entries(addrs)),
        fuel >= 1,
    ensures
        ({
            let n = addrs.len() as u32;
            let pc = addrs[i] as u32;
            let address = DISPATCH_MAP_OFFSET + (addrs[i] - lowest(addrs)) / 2;
            let called = after_block(entry(handle, pc, memory), address, i as u32, host);
            &&& called.events == seq![
                Event::Load(address),
                Event::Call((i + FIRST_BLOCK_FUNCTION) as u32, seq![handle]),
            ]
            &&& run_dispatch(n, base(addrs), memory, handle, pc, host, fuel) == exec_one(
                dispatch_loop(n, base(addrs)),
                called,
                host,
                (fuel - 1) as nat,
            )
            &&& pc_of(called) == halt_pc() ==> run_dispatch(
                n,
                base(addrs),
                memory,
                handle,
                pc,
                host,
                fuel,
            ) == Outcome::Return(0, called)
        }),
{
    let n = addrs.len() as u32;
    let pc = addrs[i] as u32;
    let min_addr = base(addrs);
    let start = entry(handle, pc, memory);
    let s = (addrs[i] - lowest(addrs)) / 2;
    let address = DISPATCH_MAP_OFFSET + s;
    let called = after_block(start, address, i as u32, host);
    law_known_addresses(addrs);
    lemma_bounds(addrs);
    assert(slot_address(pc, min_addr) == address);
    assert(entries(addrs)[s] == i);
    assert(memory[address] == i);
    law_run(n, min_addr, memory, handle, pc, host, fuel);
    law_lookup(n, min_addr, start, host, (fuel - 1) as nat);
    law_dispatch_loop(n, min_addr, called, host, (fuel - 1) as nat);
    assert(called.events =~= seq![
        Event::Load(address),
        Event::Call((i + FIRST_BLOCK_FUNCTION) as u32, seq![handle]),
    ]);
}

/// An unknown address inside the table returns the status of an unknown program
/// counter. For block addresses that fit in 32 bits, at most 255 of them, with the table
/// in memory: on a program counter between the lowest and the highest block address
/// that is not tagged and on whose slot no block address falls, a pass of the loop
/// looks the slot up, finds the sentinel, calls nothing and returns.
pub proof fn law_unknown_address(addrs: Seq<u64>, m: Machine, host: Host, fuel: nat)
    requires
        0 < addrs.len() <= 255,
        fits32(addrs),
        at_loop(m),
        table_loaded(m.memory, entries(addrs)),
        lowest(addrs) <= pc_of(m) <= highest(addrs),
        !tagged(pc_of(m)),
        forall|j: int|
            0 <= j < addrs.len() ==> (#[trigger] addrs[j] - lowest(addrs)) / 2 != (pc_of(m)
                - lowest(addrs)) / 2,
    ensures
        ({
            let address = DISPATCH_MAP_OFFSET + (pc_of(m) - lowest(addrs)) / 2;
            &&& m.memory[address] == sentinel(addrs.len())
            &&& exec_one(dispatch_loop(addrs.len() as u32, base(addrs)), m, host, fuel)
                == Outcome::Return(status_unknown_pc(), after_lookup(m, address))
        }),
{
    let n = addrs.len() as u32;
    let s = (pc_of(m) - lowest(addrs)) / 2;
    lemma_bounds(addrs);
    assert(base(addrs) == lowest(addrs));
    assert(0 <= s < entries(addrs).len());
    law_unknown_slots(addrs, s);
    assert(slot_address(pc_of(m), base(addrs)) == DISPATCH_MAP_OFFSET + s);
    assert(m.memory[DISPATCH_MAP_OFFSET + s] == entries(addrs)[s]);
    law_lookup(n, base(addrs), m, host, fuel);
}

/// Below the lowest block address the lookup wraps around. For 2-byte-aligned block
/// addresses that fit in 32 bits: on a program counter below the lowest block address
/// that is not tagged, the slot address is computed modulo 2^32 and lies behind the
/// table. What the routine does is then decided by what memory holds there; where
/// memory ends before that address, the program traps.
pub proof fn law_below_window(addrs: Seq<u64>, m: Machine, host: Host, fuel: nat)
    requires
        0 < addrs.len() < u32::MAX,
        fits32(addrs),
        aligned(addrs),
        at_loop(m),
        pc_of(m) < lowest(addrs),
        !tagged(pc_of(m)),
    ensures
        ({
            let address = slot_address(pc_of(m), base(addrs));
            &&& address == DISPATCH_MAP_OFFSET + (0x1_0000_0000 + pc_of(m) - lowest(addrs)) / 2
            &&& address >= DISPATCH_MAP_OFFSET + entries(addrs).len()
            &&& m.memory.len() <= address ==> exec_one(
                dispatch_loop(addrs.len() as u32, base(addrs)),
                m,
                host,
                fuel,
            ) == Outcome::Fault
        }),
{
    lemma_bounds(addrs);
    assert(base(addrs) == lowest(addrs));
    let top = choose|i: int| 0 <= i < addrs.len() && addrs[i] == highest(addrs);
    assert(addrs[top] % 2 == 0);
    let low = choose|i: int| 0 <= i < addrs.len() && addrs[i] == lowest(addrs);
    assert(addrs[low] % 2 == 0);
    law_lookup(addrs.len() as u32, base(addrs), m, host, fuel);
}

} // verus!
