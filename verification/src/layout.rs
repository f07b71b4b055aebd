//! What a built module holds, section by section.

use crate::dispatch::{
    dispatch_body, DISPATCH_FUNCTION, DISPATCH_MAP_OFFSET, FIRST_BLOCK_FUNCTION,
};
use crate::dispatch_table::{base, entries, in_window, lemma_bounds};
use crate::encoder::instruction_bytes;
use crate::format::{
    active_segment_entry, code_entry, code_section_id, data_section_id, export_function_entry, export_section_id,
    func_type_entry, funcref_table_entry, function_section_id, header, import_function_entry,
    import_memory_entry, import_section_id, section_fits, section_frame, table_section_id,
    type_section_id,
};
use crate::ir::{addresses, WasmFunction, WasmModule};
use crate::leb128::uleb128;
use crate::ops::{ConstOp, ControlOp, OpView, ValueType};
use crate::transcode::block_body;
use vstd::prelude::*;

verus! {

/// The index of the signature of a block routine: memory handle in, next program counter
/// out.
pub const BLOCK_TYPE: u32 = 0;

/// The index of the signature of the dispatch routine: memory handle and program counter
/// in, status out.
pub const DISPATCH_TYPE: u32 = 1;

/// The index of the signature of the trap routine: memory handle and tagged program
/// counter in, next program counter out.
pub const TRAP_TYPE: u32 = 2;

/// The signature of a block routine.
pub open spec fn block_signature() -> Seq<u8> {
    func_type_entry(seq![ValueType::I32], seq![ValueType::I32])
}

/// The signature that the dispatch routine and the trap routine share.
pub open spec fn dispatch_signature() -> Seq<u8> {
    func_type_entry(seq![ValueType::I32, ValueType::I32], seq![ValueType::I32])
}

/// The type section: the block signature, then the dispatch signature once for the
/// dispatch routine and once for the trap routine.
pub open spec fn type_entries() -> Seq<u8> {
    block_signature() + dispatch_signature() + dispatch_signature()
}

/// The import section: the memory `env.memory`, from `pages` up to four times as many,
/// and the trap routine `env.syscall`.
pub open spec fn import_entries(pages: u32) -> Seq<u8> {
    import_memory_entry(
        "env"@,
        "memory"@,
        pages as u64,
        Some((pages * 4) as u64),
        false,
        false,
    ) + import_function_entry("env"@, "syscall"@, TRAP_TYPE)
}

/// The declarations of `k` block routines.
pub open spec fn block_declarations(k: nat) -> Seq<u8>
    decreases k,
{
    if k == 0 {
        Seq::<u8>::empty()
    } else {
        block_declarations((k - 1) as nat) + uleb128(BLOCK_TYPE as nat)
    }
}

/// The function section: the dispatch routine, then every block routine.
pub open spec fn function_entries(n: nat) -> Seq<u8> {
    uleb128(DISPATCH_TYPE as nat) + block_declarations(n)
}

/// The table section: one table of function references with exactly one element for
/// each block.
pub open spec fn table_entries(n: u32) -> Seq<u8> {
    funcref_table_entry(n, Some(n))
}

/// The exports of the first `k` block routines, each under its own name.
pub open spec fn block_exports(functions: Seq<WasmFunction>, k: nat) -> Seq<u8>
    decreases k,
{
    if k == 0 {
        Seq::<u8>::empty()
    } else {
        block_exports(functions, (k - 1) as nat) + export_function_entry(
            functions[k - 1].name@,
            (k - 1 + FIRST_BLOCK_FUNCTION) as u32,
        )
    }
}

/// The export section: the dispatch routine as `run`, then every block routine.
pub open spec fn export_entries(functions: Seq<WasmFunction>) -> Seq<u8> {
    export_function_entry("run"@, DISPATCH_FUNCTION) + block_exports(functions, functions.len())
}

/// The bodies of the first `k` block routines.
pub open spec fn block_codes(functions: Seq<WasmFunction>, k: nat) -> Seq<u8>
    decreases k,
{
    if k == 0 {
        Seq::<u8>::empty()
    } else {
        block_codes(functions, (k - 1) as nat) + code_entry(block_body(functions[k - 1]))
    }
}

/// The code section: the body of the dispatch routine, then the bodies of the block
/// routines in dense-index order.
pub open spec fn code_entries(functions: Seq<WasmFunction>) -> Seq<u8> {
    code_entry(dispatch_body(functions.len() as u32, base(addresses(functions)))) + block_codes(
        functions,
        functions.len(),
    )
}

/// The data section: one segment that puts the dispatch table into memory 0 right after
/// the register file.
pub open spec fn data_entries(table: Seq<u8>) -> Seq<u8> {
    active_segment_entry(
        0,
        instruction_bytes(OpView::Const(ConstOp::I32(DISPATCH_MAP_OFFSET as i32)))
            + instruction_bytes(OpView::Control(ControlOp::End)),
        table,
    )
}

/// The sections that every module has, in the order of the format.
pub open spec fn fixed_sections(module: WasmModule) -> Seq<u8> {
    let n: nat = module.functions@.len();
    section_frame(type_section_id(), 3, type_entries()) + section_frame(
        import_section_id(),
        2,
        import_entries(module.memory_pages),
    ) + section_frame(function_section_id(), n + 1, function_entries(n)) + section_frame(
        table_section_id(),
        1,
        table_entries(n as u32),
    ) + section_frame(export_section_id(), n + 1, export_entries(module.functions@))
        + section_frame(code_section_id(), n + 1, code_entries(module.functions@))
}

/// A built module: the header, the fixed sections and, unless the dispatch table is
/// empty, the data section.
pub open spec fn module_image(module: WasmModule) -> Seq<u8> {
    let table = entries(addresses(module.functions@));
    header() + fixed_sections(module) + (if table.len() == 0 {
        Seq::<u8>::empty()
    } else {
        section_frame(data_section_id(), 1, data_entries(table))
    })
}

/// Whether the size fields of the sections that grow with the program can hold them. A
/// name or a function body that is too long for its own size field makes its section too
/// long as well.
pub open spec fn sizes_fit(module: WasmModule) -> bool {
    let n: nat = module.functions@.len();
    &&& section_fits(n + 1, function_entries(n))
    &&& section_fits(n + 1, export_entries(module.functions@))
    &&& section_fits(n + 1, code_entries(module.functions@))
}

/// Every built module starts with the magic number and the version.
pub proof fn law_image_header(module: WasmModule)
    ensures
        module_image(module).len() >= 8,
        module_image(module).subrange(0, 8) == header(),
{
    assert(module_image(module).subrange(0, 8) =~= header());
}

/// A module has a data section if and only if it has blocks: without blocks the module
/// ends with its code section.
pub proof fn law_data_section(module: WasmModule)
    requires
        in_window(addresses(module.functions@)),
    ensures
        module.functions@.len() == 0 ==> module_image(module) == header() + fixed_sections(module),
        module.functions@.len() > 0 ==> module_image(module) == header() + fixed_sections(module)
            + section_frame(
            data_section_id(),
            1,
            data_entries(entries(addresses(module.functions@))),
        ),
{
    let addrs = addresses(module.functions@);
    if addrs.len() > 0 {
        lemma_bounds(addrs);
    } else {
        assert(header() + fixed_sections(module) + Seq::<u8>::empty() == header() + fixed_sections(
            module,
        ));
    }
}

} // verus!
