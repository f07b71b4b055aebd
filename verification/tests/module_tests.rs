use rv2wasm::error::BuildError;
use rv2wasm::ir::{WasmFunction, WasmInst, WasmModule};
use rv2wasm::wasm_builder::build;

fn halting_block(name: &str, addr: u64) -> WasmFunction {
    WasmFunction {
        name: name.to_string(),
        block_addr: addr,
        num_locals: 0,
        body: vec![
            WasmInst::Comment { text: "stop".to_string() },
            WasmInst::I32Const { value: -1 },
        ],
    }
}

fn section_ids(bytes: &[u8]) -> Vec<u8> {
    let mut ids = Vec::new();
    for payload in wasmparser::Parser::new(0).parse_all(bytes) {
        match payload.unwrap() {
            wasmparser::Payload::TypeSection(_) => ids.push(1),
            wasmparser::Payload::ImportSection(_) => ids.push(2),
            wasmparser::Payload::FunctionSection(_) => ids.push(3),
            wasmparser::Payload::TableSection(_) => ids.push(4),
            wasmparser::Payload::MemorySection(_) => ids.push(5),
            wasmparser::Payload::GlobalSection(_) => ids.push(6),
            wasmparser::Payload::ExportSection(_) => ids.push(7),
            wasmparser::Payload::StartSection { .. } => ids.push(8),
            wasmparser::Payload::ElementSection(_) => ids.push(9),
            wasmparser::Payload::CodeSectionStart { .. } => ids.push(10),
            wasmparser::Payload::DataSection(_) => ids.push(11),
            _ => {}
        }
    }
    ids
}

const HEADER: [u8; 8] = [0x00, 0x61, 0x73, 0x6D, 0x01, 0x00, 0x00, 0x00];

const TYPE_SECTION: [u8; 20] = [
    0x01, 0x12, 0x03, // id, size, three signatures
    0x60, 0x01, 0x7F, 0x01, 0x7F, // (i32) -> i32
    0x60, 0x02, 0x7F, 0x7F, 0x01, 0x7F, // (i32, i32) -> i32
    0x60, 0x02, 0x7F, 0x7F, 0x01, 0x7F, // (i32, i32) -> i32
];

fn import_section(min: u8, max: u8) -> Vec<u8> {
    let mut bytes = vec![0x02, 0x1E, 0x02];
    bytes.extend_from_slice(&[0x03, b'e', b'n', b'v', 0x06, b'm', b'e', b'm', b'o', b'r', b'y']);
    bytes.extend_from_slice(&[0x02, 0x01, min, max]);
    bytes.extend_from_slice(&[0x03, b'e', b'n', b'v']);
    bytes.extend_from_slice(&[0x07, b's', b'y', b's', b'c', b'a', b'l', b'l', 0x00, 0x02]);
    bytes
}

// The start of every dispatch routine: one i32 local, pc = start_pc, the loop, the halt
// check and the trap check.
const DISPATCH_HEAD: [u8; 42] = [
    0x01, 0x01, 0x7F, // one group of locals: 1 x i32
    0x20, 0x01, 0x21, 0x02, // local.get 1, local.set 2
    0x03, 0x40, // loop
    0x20, 0x02, 0x41, 0x7F, 0x46, // local.get 2, i32.const -1, i32.eq
    0x04, 0x40, 0x41, 0x00, 0x0F, 0x0B, // if, i32.const 0, return, end
    0x20, 0x02, 0x41, 0x80, 0x80, 0x80, 0x80, 0x78, 0x71, // local.get 2, i32.const min, and
    0x04, 0x40, 0x20, 0x00, 0x20, 0x02, 0x10, 0x00, // if, local.get 0, local.get 2, call 0
    0x21, 0x02, 0x0C, 0x01, 0x0B, // local.set 2, br 1, end
];

const UNKNOWN_PC: [u8; 3] = [0x41, 0x7F, 0x0F];

const DISPATCH_TAIL: [u8; 4] = [0x0B, 0x41, 0x00, 0x0B];

#[test]
fn empty_module_has_the_exact_bytes() {
    let module = WasmModule { memory_pages: 1, functions: vec![] };
    let bytes = build(&module).unwrap();

    let mut expected = HEADER.to_vec();
    expected.extend_from_slice(&TYPE_SECTION);
    expected.extend_from_slice(&import_section(1, 4));
    expected.extend_from_slice(&[0x03, 0x02, 0x01, 0x01]);
    expected.extend_from_slice(&[0x04, 0x05, 0x01, 0x70, 0x01, 0x00, 0x00]);
    expected.extend_from_slice(&[0x07, 0x07, 0x01, 0x03, b'r', b'u', b'n', 0x00, 0x01]);
    expected.extend_from_slice(&[0x0A, 0x33, 0x01, 0x31]);
    expected.extend_from_slice(&DISPATCH_HEAD);
    expected.extend_from_slice(&UNKNOWN_PC);
    expected.extend_from_slice(&DISPATCH_TAIL);
    assert_eq!(bytes, expected);
}

#[test]
fn empty_module_has_no_data_section() {
    let module = WasmModule { memory_pages: 16, functions: vec![] };
    let bytes = build(&module).unwrap();
    assert_eq!(section_ids(&bytes), vec![1, 2, 3, 4, 7, 10]);
    wasmparser::Validator::new().validate_all(&bytes).unwrap();
}

#[test]
fn one_block_module_has_the_exact_bytes() {
    let module =
        WasmModule { memory_pages: 2, functions: vec![halting_block("block_1000", 0x1000)] };
    let bytes = build(&module).unwrap();

    let mut expected = HEADER.to_vec();
    expected.extend_from_slice(&TYPE_SECTION);
    expected.extend_from_slice(&import_section(2, 8));
    // The dispatch routine has type 1, the block type 0.
    expected.extend_from_slice(&[0x03, 0x03, 0x02, 0x01, 0x00]);
    expected.extend_from_slice(&[0x04, 0x05, 0x01, 0x70, 0x01, 0x01, 0x01]);
    expected.extend_from_slice(&[0x07, 0x14, 0x02, 0x03, b'r', b'u', b'n', 0x00, 0x01]);
    expected.extend_from_slice(&[0x0A]);
    expected.extend_from_slice(b"block_1000");
    expected.extend_from_slice(&[0x00, 0x02]);

    let mut dispatch = DISPATCH_HEAD.to_vec();
    dispatch.extend_from_slice(&[0x02, 0x40, 0x02, 0x40]); // default scope, scope of case 0
    dispatch.extend_from_slice(&[0x20, 0x02, 0x41, 0x80, 0x20, 0x6B]); // pc - 0x1000
    dispatch.extend_from_slice(&[0x41, 0x01, 0x76]); // >> 1
    dispatch.extend_from_slice(&[0x41, 0x80, 0x02, 0x6A]); // + 256
    dispatch.extend_from_slice(&[0x2D, 0x00, 0x00]); // i32.load8_u align=0 offset=0
    dispatch.extend_from_slice(&[0x0E, 0x01, 0x00, 0x01]); // br_table [0] 1
    dispatch.extend_from_slice(&[0x0B, 0x20, 0x00, 0x10, 0x02, 0x21, 0x02, 0x0C, 0x01]);
    dispatch.extend_from_slice(&[0x0B]); // end of the default scope
    dispatch.extend_from_slice(&UNKNOWN_PC);
    dispatch.extend_from_slice(&DISPATCH_TAIL);
    assert_eq!(dispatch.len(), 83);

    let block = [0x01, 0x00, 0x7E, 0x41, 0x7F, 0x0B];

    expected.extend_from_slice(&[0x0A, 0x5C, 0x02]);
    expected.push(83);
    expected.extend_from_slice(&dispatch);
    expected.push(6);
    expected.extend_from_slice(&block);
    expected.extend_from_slice(&[0x0B, 0x08, 0x01, 0x00, 0x41, 0x80, 0x02, 0x0B, 0x01, 0x00]);
    assert_eq!(bytes, expected);
}

#[test]
fn built_modules_start_with_the_header_and_validate() {
    for count in [0u64, 1, 2, 3, 17, 300] {
        let functions: Vec<WasmFunction> = (0..count)
            .map(|i| halting_block(&format!("block_{}", i), 0x10000 + 4 * i))
            .collect();
        let module = WasmModule { memory_pages: 4, functions };
        let bytes = build(&module).unwrap();
        assert!(bytes.len() > 8);
        assert_eq!(&bytes[0..4], b"\0asm");
        assert_eq!(&bytes[4..8], &[1, 0, 0, 0]);
        wasmparser::Validator::new().validate_all(&bytes).unwrap();
        if count == 0 {
            assert_eq!(section_ids(&bytes), vec![1, 2, 3, 4, 7, 10]);
        } else {
            assert_eq!(section_ids(&bytes), vec![1, 2, 3, 4, 7, 10, 11]);
        }
    }
}

#[test]
fn the_data_segment_holds_the_dispatch_table_after_the_register_file() {
    let module = WasmModule {
        memory_pages: 1,
        functions: vec![
            halting_block("a", 0x2004),
            halting_block("b", 0x2000),
            halting_block("c", 0x200A),
        ],
    };
    let bytes = build(&module).unwrap();
    let mut segments = Vec::new();
    for payload in wasmparser::Parser::new(0).parse_all(&bytes) {
        if let wasmparser::Payload::DataSection(reader) = payload.unwrap() {
            for data in reader {
                let data = data.unwrap();
                match data.kind {
                    wasmparser::DataKind::Active { memory_index, offset_expr } => {
                        let mut ops = offset_expr.get_operators_reader();
                        match ops.read().unwrap() {
                            wasmparser::Operator::I32Const { value } => {
                                segments.push((memory_index, value, data.data.to_vec()))
                            }
                            other => panic!("unexpected offset {:?}", other),
                        }
                    }
                    wasmparser::DataKind::Passive => panic!("passive segment"),
                }
            }
        }
    }
    // Slots for 0x2000, 0x2002, ..., 0x200A; three blocks, so the sentinel is 3.
    assert_eq!(segments, vec![(0, 256, vec![1, 3, 0, 3, 3, 2])]);
}

#[test]
fn every_block_is_exported_under_its_name_after_run() {
    let module = WasmModule {
        memory_pages: 1,
        functions: vec![halting_block("first", 0x100), halting_block("second", 0x200)],
    };
    let bytes = build(&module).unwrap();
    let mut exports = Vec::new();
    for payload in wasmparser::Parser::new(0).parse_all(&bytes) {
        if let wasmparser::Payload::ExportSection(reader) = payload.unwrap() {
            for export in reader {
                let export = export.unwrap();
                assert_eq!(export.kind, wasmparser::ExternalKind::Func);
                exports.push((export.name.to_string(), export.index));
            }
        }
    }
    assert_eq!(
        exports,
        vec![("run".to_string(), 1), ("first".to_string(), 2), ("second".to_string(), 3)]
    );
}

#[test]
fn translation_is_deterministic() {
    let module = WasmModule {
        memory_pages: 3,
        functions: vec![halting_block("x", 0x40), halting_block("y", 0x48)],
    };
    assert_eq!(build(&module), build(&module.clone()));
}

#[test]
fn memory_that_cannot_be_quadrupled_is_refused() {
    let module = WasmModule { memory_pages: 0x4000_0000, functions: vec![] };
    assert_eq!(build(&module), Err(BuildError::MemoryLimit));
    let module = WasmModule { memory_pages: 0x3FFF_FFFF, functions: vec![] };
    assert!(build(&module).is_ok());
}

#[test]
fn an_address_below_the_window_is_refused() {
    // The lowest address is 0xFFFF_FFFE; cut to 32 bits the other one is 0.
    let module = WasmModule {
        memory_pages: 1,
        functions: vec![halting_block("hi", 0x1_0000_0000), halting_block("lo", 0xFFFF_FFFE)],
    };
    assert_eq!(build(&module), Err(BuildError::AddressRange));
}

#[test]
fn the_memory_check_comes_before_the_address_check() {
    let module = WasmModule {
        memory_pages: u32::MAX,
        functions: vec![halting_block("hi", 0x1_0000_0000), halting_block("lo", 0xFFFF_FFFE)],
    };
    assert_eq!(build(&module), Err(BuildError::MemoryLimit));
}
