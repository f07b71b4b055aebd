//! The module assembler: writes the sections of a module in the order of the format.

use crate::dispatch::{
    build_dispatch_function, dispatch_body, DISPATCH_FUNCTION, DISPATCH_MAP_OFFSET,
    FIRST_BLOCK_FUNCTION,
};
use crate::dispatch_table::{
    addresses_in_window, base, build_dispatch_table, entries, in_window, lemma_bounds,
    DispatchTable,
};
use crate::encoder::{
    code_section_bytes, code_section_count, code_section_function, code_section_new,
    data_section_active, data_section_new, export_function, export_section_bytes,
    export_section_count, export_section_new, function_byte_len,
    function_section_bytes, function_section_count, function_section_function,
    function_section_new, import_function, import_memory, import_section_new, module_bytes,
    module_finish, module_new, module_push_code, module_push_data, module_push_exports,
    module_push_functions, module_push_imports, module_push_tables, module_push_types,
    table_section_funcref_table, table_section_new, type_section_function, type_section_new,
};
use crate::error::BuildError;
use crate::format::{
    code_entry, code_section_id, data_section_id, export_function_entry, export_section_id,
    function_section_id, import_section_id, section_fits, section_frame,
    table_section_id, type_section_id,
};
use crate::ir::{addresses, WasmFunction, WasmModule};
use crate::layout::{
    block_codes, block_declarations, block_exports, code_entries, data_entries, export_entries,
    fixed_sections, function_entries, import_entries, module_image, sizes_fit, table_entries,
    type_entries, BLOCK_TYPE, DISPATCH_TYPE, TRAP_TYPE,
};
use crate::leb128::{lemma_uleb128_len, lemma_uleb128_len_bounds, uleb128, uleb128_len, uleb128_size};
use crate::ops::ValueType;
use crate::transcode::{block_body, build_block_function};
use vstd::prelude::*;
use vstd::utf8::{encode_utf8, is_ascii_chars, is_ascii_chars_encode_utf8};
use wasm_encoder::Module;

verus! {

/// Why `build` fails on a module, or `None` where it succeeds. The memory is looked at
/// first, then the addresses, then the sizes.
pub open spec fn build_error(module: WasmModule) -> Option<BuildError> {
    if module.memory_pages * 4 > u32::MAX {
        Some(BuildError::MemoryLimit)
    } else if !in_window(addresses(module.functions@)) {
        Some(BuildError::AddressRange)
    } else if !sizes_fit(module) {
        Some(BuildError::SizeLimit)
    } else {
        None
    }
}

/// Whether a section of `count` entries that take `len` bytes fits its size field.
fn fits(count: u64, len: u64) -> (ok: bool)
    requires
        len <= u64::MAX - 10,
    ensures
        ok == (uleb128(count as nat).len() + len <= u32::MAX),
{
    proof {
        lemma_uleb128_len(count as nat);
    }
    uleb128_size(count) + len <= u32::MAX as u64
}

/// The lengths of the fixed names in UTF-8.
proof fn lemma_ascii_literals()
    ensures
        encode_utf8("env"@).len() == 3,
        encode_utf8("memory"@).len() == 6,
        encode_utf8("syscall"@).len() == 7,
        encode_utf8("run"@).len() == 3,
{
    reveal_strlit("env");
    reveal_strlit("memory");
    reveal_strlit("syscall");
    reveal_strlit("run");
    assert(is_ascii_chars("env"@));
    assert(is_ascii_chars("memory"@));
    assert(is_ascii_chars("syscall"@));
    assert(is_ascii_chars("run"@));
    is_ascii_chars_encode_utf8("env"@);
    is_ascii_chars_encode_utf8("memory"@);
    is_ascii_chars_encode_utf8("syscall"@);
    is_ascii_chars_encode_utf8("run"@);
}

/// Writes the type section: the three signatures.
fn write_types(module: &mut Module)
    ensures
        module_bytes(*final(module)) == module_bytes(*old(module)) + section_frame(
            type_section_id(),
            3,
            type_entries(),
        ),
{
    let mut types = type_section_new();
    let mut one: Vec<ValueType> = Vec::new();
    one.push(ValueType::I32);
    let mut two: Vec<ValueType> = Vec::new();
    two.push(ValueType::I32);
    two.push(ValueType::I32);
    assert(one@ == seq![ValueType::I32]);
    assert(two@ == seq![ValueType::I32, ValueType::I32]);
    // Type 0: a block routine.
    type_section_function(&mut types, &one, &one);
    // Type 1: the dispatch routine.
    type_section_function(&mut types, &two, &one);
    // Type 2: the trap routine.
    type_section_function(&mut types, &two, &one);
    proof {
        lemma_uleb128_len_bounds(1);
        lemma_uleb128_len_bounds(2);
        lemma_uleb128_len_bounds(3);
        lemma_uleb128_len(1);
        lemma_uleb128_len(2);
        lemma_uleb128_len(3);
    }
    module_push_types(module, &types);
}

/// Writes the import section: the memory and the trap routine.
fn write_imports(module: &mut Module, pages: u32)
    requires
        pages * 4 <= u32::MAX,
    ensures
        module_bytes(*final(module)) == module_bytes(*old(module)) + section_frame(
            import_section_id(),
            2,
            import_entries(pages),
        ),
{
    let mut imports = import_section_new();
    proof {
        lemma_ascii_literals();
        lemma_uleb128_len(2);
        lemma_uleb128_len(3);
        lemma_uleb128_len(6);
        lemma_uleb128_len(7);
        lemma_uleb128_len(pages as nat);
        lemma_uleb128_len((pages * 4) as nat);
        lemma_uleb128_len_bounds(2);
        lemma_uleb128_len_bounds(3);
        lemma_uleb128_len_bounds(6);
        lemma_uleb128_len_bounds(7);
        lemma_uleb128_len_bounds(pages as nat);
        lemma_uleb128_len_bounds((pages * 4) as nat);
    }
    // The memory comes from the host.
    import_memory(
        &mut imports,
        "env",
        "memory",
        pages as u64,
        Some((pages * 4) as u64),
        false,
        false,
    );
    // So does the trap routine.
    import_function(&mut imports, "env", "syscall", TRAP_TYPE);
    module_push_imports(module, &imports);
}

/// Every declaration of a block routine takes one byte.
proof fn lemma_block_declarations_len(k: nat)
    ensures
        block_declarations(k).len() == k,
    decreases k,
{
    if k > 0 {
        lemma_block_declarations_len((k - 1) as nat);
    }
}

/// Writes the function section: the signature of the dispatch routine and of every
/// block routine.
fn write_functions(module: &mut Module, n: usize)
    requires
        n < u32::MAX,
        section_fits((n + 1) as nat, function_entries(n as nat)),
    ensures
        module_bytes(*final(module)) == module_bytes(*old(module)) + section_frame(
            function_section_id(),
            (n + 1) as nat,
            function_entries(n as nat),
        ),
{
    let mut functions = function_section_new();
    function_section_function(&mut functions, DISPATCH_TYPE);
    let mut i: usize = 0;
    assert(function_section_bytes(functions) =~= uleb128(DISPATCH_TYPE as nat) + block_declarations(
        0,
    ));
    while i < n
        invariant
            i <= n,
            n < u32::MAX,
            function_section_bytes(functions) == uleb128(DISPATCH_TYPE as nat)
                + block_declarations(i as nat),
            function_section_count(functions) == i + 1,
        decreases n - i,
    {
        function_section_function(&mut functions, BLOCK_TYPE);
        i = i + 1;
        assert(function_section_bytes(functions) =~= uleb128(DISPATCH_TYPE as nat)
            + block_declarations(i as nat));
    }
    module_push_functions(module, &functions);
}

/// Writes the table section: one table with a slot for each block.
fn write_tables(module: &mut Module, n: u32)
    ensures
        module_bytes(*final(module)) == module_bytes(*old(module)) + section_frame(
            table_section_id(),
            1,
            table_entries(n),
        ),
{
    let mut tables = table_section_new();
    // One slot for each block, kept for indirect calls. Generated code calls directly.
    table_section_funcref_table(&mut tables, n, Some(n));
    proof {
        lemma_uleb128_len(1);
        lemma_uleb128_len(n as nat);
        lemma_uleb128_len_bounds(1);
        lemma_uleb128_len_bounds(n as nat);
    }
    module_push_tables(module, &tables);
}

/// The exports of the first blocks are part of the exports of all of them.
proof fn lemma_block_exports_grow(functions: Seq<WasmFunction>, k: nat, n: nat)
    requires
        k <= n,
    ensures
        block_exports(functions, k).len() <= block_exports(functions, n).len(),
    decreases n,
{
    if k < n {
        lemma_block_exports_grow(functions, k, (n - 1) as nat);
    }
}

/// The bodies of the first blocks are part of the bodies of all of them.
proof fn lemma_block_codes_grow(functions: Seq<WasmFunction>, k: nat, n: nat)
    requires
        k <= n,
    ensures
        block_codes(functions, k).len() <= block_codes(functions, n).len(),
    decreases n,
{
    if k < n {
        lemma_block_codes_grow(functions, k, (n - 1) as nat);
    }
}

/// Writes the export section, or fails if its size field cannot hold it.
fn write_exports(module: &mut Module, functions: &Vec<WasmFunction>) -> (result: Result<
    (),
    BuildError,
>)
    requires
        functions.len() < u32::MAX - 1,
    ensures
        match result {
            Ok(_) => module_bytes(*final(module)) == module_bytes(*old(module)) + section_frame(
                export_section_id(),
                (functions.len() + 1) as nat,
                export_entries(functions@),
            ),
            Err(error) => error == BuildError::SizeLimit,
        },
        result is Ok <==> section_fits((functions.len() + 1) as nat, export_entries(functions@)),
{
    let n = functions.len();
    let mut exports = export_section_new();
    proof {
        lemma_ascii_literals();
        lemma_uleb128_len(3);
        lemma_uleb128_len(DISPATCH_FUNCTION as nat);
    }
    // The entry point.
    export_function(&mut exports, "run", DISPATCH_FUNCTION);
    let mut size: u64 = 6;
    let mut i: usize = 0;
    assert(export_section_bytes(exports) =~= export_function_entry("run"@, DISPATCH_FUNCTION)
        + block_exports(functions@, 0));
    // The block routines, so that a debugger can find them.
    while i < n
        invariant
            i <= n,
            n == functions.len(),
            n < u32::MAX - 1,
            export_section_bytes(exports) == export_function_entry("run"@, DISPATCH_FUNCTION)
                + block_exports(functions@, i as nat),
            export_section_count(exports) == i + 1,
            size == export_section_bytes(exports).len(),
            size <= u32::MAX,
        decreases n - i,
    {
        let name = functions[i].name.as_str();
        let len = name.as_bytes().len();
        let index = (i + FIRST_BLOCK_FUNCTION as usize) as u32;
        proof {
            lemma_uleb128_len(len as nat);
            lemma_uleb128_len(index as nat);
            lemma_block_exports_grow(functions@, (i + 1) as nat, n as nat);
        }
        if len as u64 > u32::MAX as u64 {
            return Err(BuildError::SizeLimit);
        }
        export_function(&mut exports, name, index);
        size = size + uleb128_size(len as u64) + len as u64 + 1 + uleb128_size(index as u64);
        i = i + 1;
        assert(export_section_bytes(exports) =~= export_function_entry("run"@, DISPATCH_FUNCTION)
            + block_exports(functions@, i as nat));
        if size > u32::MAX as u64 {
            return Err(BuildError::SizeLimit);
        }
    }
    if !fits((n + 1) as u64, size) {
        return Err(BuildError::SizeLimit);
    }
    module_push_exports(module, &exports);
    Ok(())
}

/// Writes the code section, or fails if its size field cannot hold it.
fn write_code(module: &mut Module, functions: &Vec<WasmFunction>, table: &DispatchTable) -> (result:
    Result<(), BuildError>)
    requires
        functions.len() < u32::MAX - 1,
        table.num_functions == functions.len(),
        table.min_addr == base(addresses(functions@)),
    ensures
        match result {
            Ok(_) => module_bytes(*final(module)) == module_bytes(*old(module)) + section_frame(
                code_section_id(),
                (functions.len() + 1) as nat,
                code_entries(functions@),
            ),
            Err(error) => error == BuildError::SizeLimit,
        },
        result is Ok <==> section_fits((functions.len() + 1) as nat, code_entries(functions@)),
{
    let n = functions.len();
    let mut codes = code_section_new();
    let ghost dispatch_bytes = dispatch_body(table.num_functions, table.min_addr);
    proof {
        lemma_uleb128_len(dispatch_bytes.len());
    }
    // The dispatch routine comes first: it is function 1, after the imported function 0.
    let dispatch = match build_dispatch_function(table) {
        Ok(function) => function,
        Err(error) => {
            return Err(error);
        },
    };
    let len = function_byte_len(&dispatch);
    code_section_function(&mut codes, &dispatch);
    let mut size: u64 = uleb128_size(len as u64) + len as u64;
    let mut i: usize = 0;
    assert(code_section_bytes(codes) =~= code_entry(dispatch_bytes) + block_codes(functions@, 0));
    if size > u32::MAX as u64 {
        return Err(BuildError::SizeLimit);
    }
    while i < n
        invariant
            i <= n,
            n == functions.len(),
            n < u32::MAX - 1,
            dispatch_bytes == dispatch_body(functions.len() as u32, base(addresses(functions@))),
            code_section_bytes(codes) == code_entry(dispatch_bytes) + block_codes(
                functions@,
                i as nat,
            ),
            code_section_count(codes) == i + 1,
            size == code_section_bytes(codes).len(),
            size <= u32::MAX,
        decreases n - i,
    {
        proof {
            lemma_uleb128_len(block_body(functions@[i as int]).len());
            lemma_block_codes_grow(functions@, (i + 1) as nat, n as nat);
        }
        let function = match build_block_function(&functions[i]) {
            Ok(function) => function,
            Err(error) => {
                return Err(error);
            },
        };
        let len = function_byte_len(&function);
        code_section_function(&mut codes, &function);
        size = size + uleb128_size(len as u64) + len as u64;
        i = i + 1;
        assert(code_section_bytes(codes) =~= code_entry(dispatch_bytes) + block_codes(
            functions@,
            i as nat,
        ));
        if size > u32::MAX as u64 {
            return Err(BuildError::SizeLimit);
        }
    }
    if !fits((n + 1) as u64, size) {
        return Err(BuildError::SizeLimit);
    }
    module_push_code(module, &codes);
    Ok(())
}

/// Writes the data section: the dispatch table.
fn write_data(module: &mut Module, table: &DispatchTable)
    requires
        table.data.len() > 0,
        table.data.len() <= 0x8000_0000,
    ensures
        module_bytes(*final(module)) == module_bytes(*old(module)) + section_frame(
            data_section_id(),
            1,
            data_entries(table.data@),
        ),
{
    let mut data = data_section_new();
    // One active segment: memory 0, at the end of the register file.
    data_section_active(&mut data, 0, DISPATCH_MAP_OFFSET as i32, &table.data);
    proof {
        lemma_uleb128_len(1);
    }
    module_push_data(module, &data);
}

/// Whether the function section fits: it takes one byte for each function.
fn function_section_fits(n: usize) -> (ok: bool)
    ensures
        ok == section_fits((n + 1) as nat, function_entries(n as nat)),
        ok ==> n < u32::MAX - 5,
{
    proof {
        lemma_block_declarations_len(n as nat);
        lemma_uleb128_len(DISPATCH_TYPE as nat);
        lemma_uleb128_len((n + 1) as nat);
        lemma_uleb128_len_bounds((n + 1) as nat);
        lemma_uleb128_long((n + 1) as nat);
    }
    n as u64 <= (u32::MAX - 6) as u64
}

/// Writes the sections that every module has.
fn write_fixed_sections(wasm: &mut Module, module: &WasmModule, table: &DispatchTable) -> (result:
    Result<(), BuildError>)
    requires
        module.memory_pages * 4 <= u32::MAX,
        module.functions.len() < u32::MAX - 5,
        section_fits(
            (module.functions.len() + 1) as nat,
            function_entries(module.functions.len() as nat),
        ),
        table.num_functions == module.functions.len(),
        table.min_addr == base(addresses(module.functions@)),
    ensures
        match result {
            Ok(_) => module_bytes(*final(wasm)) == module_bytes(*old(wasm)) + fixed_sections(
                *module,
            ),
            Err(error) => error == BuildError::SizeLimit,
        },
        result is Ok <==> sizes_fit(*module),
{
    let n = module.functions.len();
    let ghost start = module_bytes(*wasm);
    write_types(wasm);
    write_imports(wasm, module.memory_pages);
    write_functions(wasm, n);
    write_tables(wasm, n as u32);
    match write_exports(wasm, &module.functions) {
        Ok(_) => {},
        Err(error) => {
            return Err(error);
        },
    }
    match write_code(wasm, &module.functions, table) {
        Ok(_) => {},
        Err(error) => {
            return Err(error);
        },
    }
    assert(module_bytes(*wasm) =~= start + fixed_sections(*module));
    Ok(())
}

/// Build the final binary: the module for a program, or the reason why the format
/// cannot hold it.
pub fn build(module: &WasmModule) -> (result: Result<Vec<u8>, BuildError>)
    ensures
        match result {
            Ok(bytes) => build_error(*module) is None && bytes@ == module_image(*module),
            Err(error) => build_error(*module) == Some(error),
        },
{
    if module.memory_pages > u32::MAX / 4 {
        return Err(BuildError::MemoryLimit);
    }
    if !addresses_in_window(module) {
        return Err(BuildError::AddressRange);
    }
    if !function_section_fits(module.functions.len()) {
        return Err(BuildError::SizeLimit);
    }
    // The dispatch table comes first: the dispatch routine refers to it.
    let dispatch_table = build_dispatch_table(module);

    let mut wasm = module_new();
    match write_fixed_sections(&mut wasm, module, &dispatch_table) {
        Ok(_) => {},
        Err(error) => {
            return Err(error);
        },
    }
    if !dispatch_table.data.is_empty() {
        proof {
            lemma_table_len_bound(addresses(module.functions@));
        }
        write_data(&mut wasm, &dispatch_table);
    }
    Ok(module_finish(wasm))
}

/// The table never has more than 2^31 slots.
proof fn lemma_table_len_bound(addrs: Seq<u64>)
    requires
        in_window(addrs),
    ensures
        entries(addrs).len() <= 0x8000_0000,
{
    if addrs.len() > 0 {
        lemma_bounds(addrs);
    }
}

/// A value of at least 2^28 takes at least five bytes.
proof fn lemma_uleb128_long(n: nat)
    ensures
        n >= 0x1000_0000 ==> uleb128_len(n) >= 5,
{
    reveal_with_fuel(uleb128_len, 6);
}

} // verus!
