//! The byte layout of the module format, as far as the assembler relies on it: the
//! header, the frame around a section, and the entries of the sections it writes.

use crate::leb128::uleb128;
use crate::ops::ValueType;
use vstd::prelude::*;
use vstd::utf8::encode_utf8;

verus! {

/// The magic number and the version that every module starts with.
pub open spec fn header() -> Seq<u8> {
    seq![0x00u8, 0x61u8, 0x73u8, 0x6Du8, 0x01u8, 0x00u8, 0x00u8, 0x00u8]
}

/// The id of the type section.
pub open spec fn type_section_id() -> u8 {
    1
}

/// The id of the import section.
pub open spec fn import_section_id() -> u8 {
    2
}

/// The id of the function section.
pub open spec fn function_section_id() -> u8 {
    3
}

/// The id of the table section.
pub open spec fn table_section_id() -> u8 {
    4
}

/// The id of the export section.
pub open spec fn export_section_id() -> u8 {
    7
}

/// The id of the code section.
pub open spec fn code_section_id() -> u8 {
    10
}

/// The id of the data section.
pub open spec fn data_section_id() -> u8 {
    11
}

/// A section as it stands in a module: its id, the size of what follows, the number of
/// entries, and the entries.
pub open spec fn section_frame(id: u8, count: nat, entries: Seq<u8>) -> Seq<u8> {
    seq![id] + uleb128(uleb128(count).len() + entries.len()) + uleb128(count) + entries
}

/// Whether the size field of a section's frame can hold the section.
pub open spec fn section_fits(count: nat, entries: Seq<u8>) -> bool {
    uleb128(count).len() + entries.len() <= u32::MAX
}

/// The byte that stands for a value type.
pub open spec fn value_type_code(ty: ValueType) -> u8 {
    match ty {
        ValueType::I32 => 0x7F,
        ValueType::I64 => 0x7E,
    }
}

/// The bytes that stand for a list of value types.
pub open spec fn value_type_codes(types: Seq<ValueType>) -> Seq<u8> {
    Seq::new(types.len(), |i: int| value_type_code(types[i]))
}

/// A name: the length of its UTF-8 encoding, then the encoding.
pub open spec fn name_field(name: Seq<char>) -> Seq<u8> {
    uleb128(encode_utf8(name).len()) + encode_utf8(name)
}

/// A function signature in the type section.
pub open spec fn func_type_entry(params: Seq<ValueType>, results: Seq<ValueType>) -> Seq<u8> {
    seq![0x60u8] + uleb128(params.len()) + value_type_codes(params) + uleb128(results.len())
        + value_type_codes(results)
}

/// The limits of a memory: a flag byte, the minimum and, if there is one, the maximum.
pub open spec fn memory_type_bytes(
    minimum: u64,
    maximum: Option<u64>,
    memory64: bool,
    shared: bool,
) -> Seq<u8> {
    let flags: int = (if maximum is Some { 1int } else { 0int }) + (if shared { 2int } else { 0int })
        + (if memory64 { 4int } else { 0int });
    seq![flags as u8] + uleb128(minimum as nat) + (match maximum {
        Some(max) => uleb128(max as nat),
        None => Seq::<u8>::empty(),
    })
}

/// The import of a memory.
pub open spec fn import_memory_entry(
    module: Seq<char>,
    field: Seq<char>,
    minimum: u64,
    maximum: Option<u64>,
    memory64: bool,
    shared: bool,
) -> Seq<u8> {
    name_field(module) + name_field(field) + seq![0x02u8] + memory_type_bytes(
        minimum,
        maximum,
        memory64,
        shared,
    )
}

/// The import of a function of the given type.
pub open spec fn import_function_entry(module: Seq<char>, field: Seq<char>, type_index: u32) -> Seq<
    u8,
> {
    name_field(module) + name_field(field) + seq![0x00u8] + uleb128(type_index as nat)
}

/// A table of function references with the given limits.
pub open spec fn funcref_table_entry(minimum: u32, maximum: Option<u32>) -> Seq<u8> {
    seq![0x70u8, if maximum is Some { 1u8 } else { 0u8 }] + uleb128(minimum as nat) + (match maximum {
        Some(max) => uleb128(max as nat),
        None => Seq::<u8>::empty(),
    })
}

/// The export of the function with the given index.
pub open spec fn export_function_entry(name: Seq<char>, index: u32) -> Seq<u8> {
    name_field(name) + seq![0x00u8] + uleb128(index as nat)
}

/// The declaration of one group of locals at the start of a function body.
pub open spec fn locals_prefix(count: u32, ty: ValueType) -> Seq<u8> {
    uleb128(1) + uleb128(count as nat) + seq![value_type_code(ty)]
}

/// A function body in the code section: its size, then its bytes.
pub open spec fn code_entry(body: Seq<u8>) -> Seq<u8> {
    uleb128(body.len()) + body
}

/// An active data segment: the mode, which names the memory unless it is memory 0, the
/// encoded expression for the offset, the length of the data and the data.
pub open spec fn active_segment_entry(memory_index: u32, offset: Seq<u8>, data: Seq<u8>) -> Seq<
    u8,
> {
    (if memory_index == 0 {
        seq![0x00u8]
    } else {
        seq![0x02u8] + uleb128(memory_index as nat)
    }) + offset + uleb128(data.len()) + data
}

} // verus!
