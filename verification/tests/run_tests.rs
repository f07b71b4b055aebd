// Runs built modules in an interpreter, with a host that provides the memory and the
// trap routine.

use rv2wasm::ir::{WasmFunction, WasmInst, WasmModule};
use rv2wasm::wasm_builder::build;
use wasmi::{Caller, Engine, Linker, Memory, MemoryType, Module, Store, TypedFunc};

const COUNTERS: i32 = 0x8000;
const HALT: i32 = -1;

/// What the trap routine was called with, and what it still has to answer.
struct Host {
    calls: Vec<(i32, i32)>,
    answers: Vec<i32>,
}

/// A block that counts its calls in memory and returns `next`.
fn counting_block(index: usize, addr: u64, next: i32) -> WasmFunction {
    let counter = COUNTERS + 8 * index as i32;
    WasmFunction {
        name: format!("block_{:x}", addr),
        block_addr: addr,
        num_locals: 1,
        body: vec![
            WasmInst::Comment { text: format!("block {}", index) },
            WasmInst::I32Const { value: counter },
            WasmInst::I32Const { value: counter },
            WasmInst::I64Load { offset: 0 },
            WasmInst::I64Const { value: 1 },
            WasmInst::I64Add,
            WasmInst::I64Store { offset: 0 },
            WasmInst::I32Const { value: next },
        ],
    }
}

fn halting_blocks(addrs: &[u64]) -> WasmModule {
    WasmModule {
        memory_pages: 1,
        functions: addrs
            .iter()
            .enumerate()
            .map(|(index, addr)| counting_block(index, *addr, HALT))
            .collect(),
    }
}

struct Program {
    store: Store<Host>,
    memory: Memory,
    run: TypedFunc<(i32, i32), i32>,
    blocks: usize,
}

impl Program {
    fn load(module: &WasmModule, answers: Vec<i32>) -> Program {
        let bytes = build(module).unwrap();
        let engine = Engine::default();
        let compiled = Module::new(&engine, &bytes[..]).unwrap();
        let mut store = Store::new(&engine, Host { calls: Vec::new(), answers });
        let pages = module.memory_pages;
        let memory = Memory::new(&mut store, MemoryType::new(pages, Some(pages * 4))).unwrap();
        let mut linker = <Linker<Host>>::new(&engine);
        linker.define("env", "memory", memory).unwrap();
        linker
            .func_wrap("env", "syscall", |mut caller: Caller<'_, Host>, m: i32, pc: i32| -> i32 {
                let host = caller.data_mut();
                host.calls.push((m, pc));
                host.answers.remove(0)
            })
            .unwrap();
        let instance = linker.instantiate_and_start(&mut store, &compiled).unwrap();
        let run = instance.get_typed_func::<(i32, i32), i32>(&store, "run").unwrap();
        Program { store, memory, run, blocks: module.functions.len() }
    }

    fn run(&mut self, pc: i32) -> Result<i32, wasmi::Error> {
        self.run.call(&mut self.store, (0, pc))
    }

    /// How often each block has been called.
    fn counts(&self) -> Vec<u64> {
        let data = self.memory.data(&self.store);
        (0..self.blocks)
            .map(|index| {
                let at = COUNTERS as usize + 8 * index;
                let mut bytes = [0u8; 8];
                bytes.copy_from_slice(&data[at..at + 8]);
                u64::from_le_bytes(bytes)
            })
            .collect()
    }

    fn trap_calls(&self) -> Vec<(i32, i32)> {
        self.store.data().calls.clone()
    }
}

#[test]
fn the_dispatch_table_is_in_memory_after_the_register_file() {
    let program = Program::load(&halting_blocks(&[0x2004, 0x2000, 0x200A]), vec![]);
    let data = program.memory.data(&program.store);
    assert_eq!(&data[256..262], &[1, 3, 0, 3, 3, 2]);
    assert!(data[..256].iter().all(|byte| *byte == 0));
}

#[test]
fn the_halt_sentinel_returns_0_without_a_call() {
    let mut program = Program::load(&halting_blocks(&[0x1000, 0x1004, 0x1008]), vec![]);
    assert_eq!(program.run(HALT).unwrap(), 0);
    assert_eq!(program.counts(), vec![0, 0, 0]);
    assert_eq!(program.trap_calls(), vec![]);

    let mut empty = Program::load(&halting_blocks(&[]), vec![]);
    assert_eq!(empty.run(HALT).unwrap(), 0);
    assert_eq!(empty.trap_calls(), vec![]);
}

#[test]
fn without_blocks_every_address_is_unknown() {
    let mut program = Program::load(&halting_blocks(&[]), vec![]);
    assert_eq!(program.run(0).unwrap(), -1);
    assert_eq!(program.run(0x1000).unwrap(), -1);
    assert_eq!(program.run(0x7FFF_FFFF).unwrap(), -1);
    assert_eq!(program.trap_calls(), vec![]);
}

#[test]
fn a_tagged_pc_goes_to_the_trap_routine_once_and_its_result_is_the_new_pc() {
    let tagged = 0x8000_005Du32 as i32;
    let mut program = Program::load(&halting_blocks(&[0x1000, 0x1004]), vec![HALT]);
    assert_eq!(program.run(tagged).unwrap(), 0);
    assert_eq!(program.trap_calls(), vec![(0, tagged)]);
    assert_eq!(program.counts(), vec![0, 0]);
}

#[test]
fn the_trap_routine_may_resume_at_a_block_or_trap_again() {
    let first = 0x8000_0001u32 as i32;
    let second = 0xFFFF_FFFEu32 as i32;
    // First answer: trap again. Second answer: resume at block 1, which halts.
    let mut program = Program::load(&halting_blocks(&[0x1000, 0x1004]), vec![second, 0x1004]);
    assert_eq!(program.run(first).unwrap(), 0);
    assert_eq!(program.trap_calls(), vec![(0, first), (0, second)]);
    assert_eq!(program.counts(), vec![0, 1]);
}

#[test]
fn a_trap_without_blocks_still_reaches_the_trap_routine() {
    let tagged = i32::MIN;
    let mut program = Program::load(&halting_blocks(&[]), vec![0x44]);
    // The trap routine answers with an address; without blocks it is unknown.
    assert_eq!(program.run(tagged).unwrap(), -1);
    assert_eq!(program.trap_calls(), vec![(0, tagged)]);
}

#[test]
fn every_block_address_reaches_its_block_and_no_other() {
    let addrs = [0x10144u64, 0x10100, 0x10200, 0x10102, 0x101FE];
    for (index, addr) in addrs.iter().enumerate() {
        let mut program = Program::load(&halting_blocks(&addrs), vec![]);
        assert_eq!(program.run(*addr as i32).unwrap(), 0);
        let mut expected = vec![0u64; addrs.len()];
        expected[index] = 1;
        assert_eq!(program.counts(), expected);
        assert_eq!(program.trap_calls(), vec![]);
    }
}

#[test]
fn blocks_hand_control_to_each_other_through_the_loop() {
    // Block 0 goes to block 2, block 2 to block 1, block 1 traps, the trap halts.
    let tagged = 0x8000_0007u32 as i32;
    let module = WasmModule {
        memory_pages: 1,
        functions: vec![
            counting_block(0, 0x400, 0x408),
            counting_block(1, 0x404, tagged),
            counting_block(2, 0x408, 0x404),
        ],
    };
    let mut program = Program::load(&module, vec![HALT]);
    assert_eq!(program.run(0x400).unwrap(), 0);
    assert_eq!(program.counts(), vec![1, 1, 1]);
    assert_eq!(program.trap_calls(), vec![(0, tagged)]);
}

#[test]
fn a_block_may_run_many_times() {
    // Block 0 returns its own successor, which returns to an unknown address.
    let module = WasmModule {
        memory_pages: 1,
        functions: vec![counting_block(0, 0x400, 0x404), counting_block(1, 0x404, 0x402)],
    };
    let mut program = Program::load(&module, vec![]);
    assert_eq!(program.run(0x400).unwrap(), -1);
    assert_eq!(program.run(0x400).unwrap(), -1);
    assert_eq!(program.run(0x404).unwrap(), -1);
    assert_eq!(program.counts(), vec![2, 3]);
}

#[test]
fn an_unknown_address_inside_the_table_returns_minus_1() {
    let addrs = [0x1000u64, 0x1010, 0x1020];
    for pc in [0x1002, 0x1004, 0x100E, 0x1012, 0x101E] {
        let mut program = Program::load(&halting_blocks(&addrs), vec![]);
        assert_eq!(program.run(pc).unwrap(), -1);
        assert_eq!(program.counts(), vec![0, 0, 0]);
        assert_eq!(program.trap_calls(), vec![]);
    }
}

#[test]
fn an_odd_address_shares_the_slot_of_the_even_address_below_it() {
    let mut program = Program::load(&halting_blocks(&[0x1000, 0x1010]), vec![]);
    assert_eq!(program.run(0x1011).unwrap(), 0);
    assert_eq!(program.counts(), vec![0, 1]);
}

#[test]
fn an_address_past_the_table_reads_what_memory_holds_there() {
    // The table has three slots at 256..259. The slot of 0x1010 is at 264, outside the
    // table, where memory holds 0: the index of block 0.
    let mut program = Program::load(&halting_blocks(&[0x1000, 0x1004]), vec![]);
    assert_eq!(program.run(0x1010).unwrap(), 0);
    assert_eq!(program.counts(), vec![1, 0]);
}

#[test]
fn an_address_below_the_lowest_block_wraps_around_and_leaves_memory() {
    // (0xFFE - 0x1000) wraps to 0xFFFF_FFFE; half of that, plus 256, is far beyond the
    // one page of memory, so the lookup traps.
    let mut program = Program::load(&halting_blocks(&[0x1000, 0x1004]), vec![]);
    assert!(program.run(0xFFE).is_err());
    assert!(program.run(0).is_err());
    assert_eq!(program.counts(), vec![0, 0]);
    assert_eq!(program.trap_calls(), vec![]);
}

#[test]
fn with_255_blocks_the_sentinel_is_still_no_block() {
    let addrs: Vec<u64> = (0..255u64).map(|i| 0x1000 + 4 * i).collect();
    let mut program = Program::load(&halting_blocks(&addrs), vec![]);
    assert_eq!(program.run(0x1002).unwrap(), -1);
    assert_eq!(program.run(0x1000 + 4 * 254).unwrap(), 0);
    let mut expected = vec![0u64; 255];
    expected[254] = 1;
    assert_eq!(program.counts(), expected);
}

#[test]
fn with_256_blocks_the_sentinel_is_the_index_of_the_last_block() {
    let addrs: Vec<u64> = (0..256u64).map(|i| 0x1000 + 4 * i).collect();
    let mut program = Program::load(&halting_blocks(&addrs), vec![]);
    // No block starts at 0x1002, and yet block 255 runs.
    assert_eq!(program.run(0x1002).unwrap(), 0);
    let mut expected = vec![0u64; 256];
    expected[255] = 1;
    assert_eq!(program.counts(), expected);
}
