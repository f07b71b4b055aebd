//! The binary encoder that modules are written with. Nothing in this file is proved: each
//! item states what the `wasm_encoder` crate does, as its source shows it.

use crate::format::{
    active_segment_entry, code_entry, code_section_id, data_section_id, export_function_entry, export_section_id,
    func_type_entry, funcref_table_entry, function_section_id, header, import_function_entry,
    import_memory_entry, import_section_id, locals_prefix, section_fits, section_frame,
    table_section_id, type_section_id,
};
use crate::leb128::uleb128;
use crate::ops::{
    ConstOp, ControlOp, ConvertOp, I32Op, I64ArithOp, I64BitOp, I64CompareOp, IndexOp, LoadOp,
    MemArg, OpView, StoreOp, ValueType,
};
use vstd::utf8::encode_utf8;
use vstd::prelude::*;
use wasm_encoder::{
    BlockType, CodeSection, ConstExpr, DataSection, EntityType, ExportKind, ExportSection,
    Function, FunctionSection, ImportSection, Instruction, MemoryType, Module, RefType,
    TableSection, TableType, TypeSection, ValType,
};

verus! {

/// `wasm_encoder::Module`, taken as it is: nothing inside a value is visible here.
#[verifier::external_type_specification]
#[verifier::external_body]
pub struct ExModule(wasm_encoder::Module);

/// `wasm_encoder::TypeSection`, taken as it is: nothing inside a value is visible here.
#[verifier::external_type_specification]
#[verifier::external_body]
pub struct ExTypeSection(wasm_encoder::TypeSection);

/// `wasm_encoder::ImportSection`, taken as it is: nothing inside a value is visible here.
#[verifier::external_type_specification]
#[verifier::external_body]
pub struct ExImportSection(wasm_encoder::ImportSection);

/// `wasm_encoder::FunctionSection`, taken as it is: nothing inside a value is visible here.
#[verifier::external_type_specification]
#[verifier::external_body]
pub struct ExFunctionSection(wasm_encoder::FunctionSection);

/// `wasm_encoder::TableSection`, taken as it is: nothing inside a value is visible here.
#[verifier::external_type_specification]
#[verifier::external_body]
pub struct ExTableSection(wasm_encoder::TableSection);

/// `wasm_encoder::ExportSection`, taken as it is: nothing inside a value is visible here.
#[verifier::external_type_specification]
#[verifier::external_body]
pub struct ExExportSection(wasm_encoder::ExportSection);

/// `wasm_encoder::CodeSection`, taken as it is: nothing inside a value is visible here.
#[verifier::external_type_specification]
#[verifier::external_body]
pub struct ExCodeSection(wasm_encoder::CodeSection);

/// `wasm_encoder::DataSection`, taken as it is: nothing inside a value is visible here.
#[verifier::external_type_specification]
#[verifier::external_body]
pub struct ExDataSection(wasm_encoder::DataSection);

/// `wasm_encoder::Function`, taken as it is: nothing inside a value is visible here.
#[verifier::external_type_specification]
#[verifier::external_body]
pub struct ExFunction(wasm_encoder::Function);

/// The bytes written to a module so far.
pub uninterp spec fn module_bytes(module: Module) -> Seq<u8>;

/// The entries of a type section, one after the other.
pub uninterp spec fn type_section_bytes(section: TypeSection) -> Seq<u8>;

/// The number of entries of a type section.
pub uninterp spec fn type_section_count(section: TypeSection) -> nat;

/// The entries of an import section, one after the other.
pub uninterp spec fn import_section_bytes(section: ImportSection) -> Seq<u8>;

/// The number of entries of an import section.
pub uninterp spec fn import_section_count(section: ImportSection) -> nat;

/// The entries of a function section, one after the other.
pub uninterp spec fn function_section_bytes(section: FunctionSection) -> Seq<u8>;

/// The number of entries of a function section.
pub uninterp spec fn function_section_count(section: FunctionSection) -> nat;

/// The entries of a table section, one after the other.
pub uninterp spec fn table_section_bytes(section: TableSection) -> Seq<u8>;

/// The number of entries of a table section.
pub uninterp spec fn table_section_count(section: TableSection) -> nat;

/// The entries of an export section, one after the other.
pub uninterp spec fn export_section_bytes(section: ExportSection) -> Seq<u8>;

/// The number of entries of an export section.
pub uninterp spec fn export_section_count(section: ExportSection) -> nat;

/// The entries of a code section, one after the other.
pub uninterp spec fn code_section_bytes(section: CodeSection) -> Seq<u8>;

/// The number of entries of a code section.
pub uninterp spec fn code_section_count(section: CodeSection) -> nat;

/// The entries of a data section, one after the other.
pub uninterp spec fn data_section_bytes(section: DataSection) -> Seq<u8>;

/// The number of entries of a data section.
pub uninterp spec fn data_section_count(section: DataSection) -> nat;

/// The bytes of a function body so far: the declaration of its locals and the
/// instructions written after it, without the size that precedes a body in the code
/// section.
pub uninterp spec fn function_bytes(function: Function) -> Seq<u8>;

/// The encoding of one instruction: what `Instruction::encode` appends for it. Scopes
/// opened by `Block`, `Loop` and `If` have the empty block type.
pub uninterp spec fn instruction_bytes(op: OpView) -> Seq<u8>;

/// `Module::new`: a module that holds the header and nothing else.
#[verifier::external_body]
pub(crate) fn module_new() -> (module: Module)
    ensures
        module_bytes(module) == header(),
{
    Module::new()
}

/// `Module::finish`: hands out the bytes written so far.
#[verifier::external_body]
pub(crate) fn module_finish(module: Module) -> (bytes: Vec<u8>)
    ensures
        bytes@ == module_bytes(module),
{
    module.finish()
}

/// `Module::section` for a type section: appends the section in its frame. The encoder
/// panics on a section that its size field cannot hold.
#[verifier::external_body]
pub(crate) fn module_push_types(module: &mut Module, section: &TypeSection)
    requires
        section_fits(type_section_count(*section), type_section_bytes(*section)),
    ensures
        module_bytes(*final(module)) == module_bytes(*old(module)) + section_frame(
            type_section_id(),
            type_section_count(*section),
            type_section_bytes(*section),
        ),
{
    module.section(section);
}

/// `Module::section` for an import section: appends the section in its frame.
#[verifier::external_body]
pub(crate) fn module_push_imports(module: &mut Module, section: &ImportSection)
    requires
        section_fits(import_section_count(*section), import_section_bytes(*section)),
    ensures
        module_bytes(*final(module)) == module_bytes(*old(module)) + section_frame(
            import_section_id(),
            import_section_count(*section),
            import_section_bytes(*section),
        ),
{
    module.section(section);
}

/// `Module::section` for a function section: appends the section in its frame.
#[verifier::external_body]
pub(crate) fn module_push_functions(module: &mut Module, section: &FunctionSection)
    requires
        section_fits(function_section_count(*section), function_section_bytes(*section)),
    ensures
        module_bytes(*final(module)) == module_bytes(*old(module)) + section_frame(
            function_section_id(),
            function_section_count(*section),
            function_section_bytes(*section),
        ),
{
    module.section(section);
}

/// `Module::section` for a table section: appends the section in its frame.
#[verifier::external_body]
pub(crate) fn module_push_tables(module: &mut Module, section: &TableSection)
    requires
        section_fits(table_section_count(*section), table_section_bytes(*section)),
    ensures
        module_bytes(*final(module)) == module_bytes(*old(module)) + section_frame(
            table_section_id(),
            table_section_count(*section),
            table_section_bytes(*section),
        ),
{
    module.section(section);
}

/// `Module::section` for an export section: appends the section in its frame.
#[verifier::external_body]
pub(crate) fn module_push_exports(module: &mut Module, section: &ExportSection)
    requires
        section_fits(export_section_count(*section), export_section_bytes(*section)),
    ensures
        module_bytes(*final(module)) == module_bytes(*old(module)) + section_frame(
            export_section_id(),
            export_section_count(*section),
            export_section_bytes(*section),
        ),
{
    module.section(section);
}

/// `Module::section` for a code section: appends the section in its frame.
#[verifier::external_body]
pub(crate) fn module_push_code(module: &mut Module, section: &CodeSection)
    requires
        section_fits(code_section_count(*section), code_section_bytes(*section)),
    ensures
        module_bytes(*final(module)) == module_bytes(*old(module)) + section_frame(
            code_section_id(),
            code_section_count(*section),
            code_section_bytes(*section),
        ),
{
    module.section(section);
}

/// `Module::section` for a data section: appends the section in its frame.
#[verifier::external_body]
pub(crate) fn module_push_data(module: &mut Module, section: &DataSection)
    requires
        section_fits(data_section_count(*section), data_section_bytes(*section)),
    ensures
        module_bytes(*final(module)) == module_bytes(*old(module)) + section_frame(
            data_section_id(),
            data_section_count(*section),
            data_section_bytes(*section),
        ),
{
    module.section(section);
}

/// `TypeSection::new`: an empty type section.
#[verifier::external_body]
pub(crate) fn type_section_new() -> (section: TypeSection)
    ensures
        type_section_bytes(section) == Seq::<u8>::empty(),
        type_section_count(section) == 0,
{
    TypeSection::new()
}

/// `TypeSection::function`: adds a function signature. The encoder writes the marker
/// 0x60, then each list as its length and one byte per type.
#[verifier::external_body]
pub(crate) fn type_section_function(
    section: &mut TypeSection,
    params: &Vec<ValueType>,
    results: &Vec<ValueType>,
)
    requires
        params@.len() <= u32::MAX,
        results@.len() <= u32::MAX,
        type_section_count(*old(section)) < u32::MAX,
    ensures
        type_section_bytes(*final(section)) == type_section_bytes(*old(section)) + func_type_entry(
            params@,
            results@,
        ),
        type_section_count(*final(section)) == type_section_count(*old(section)) + 1,
{
    let convert = |ty: &ValueType| match ty {
        ValueType::I32 => ValType::I32,
        ValueType::I64 => ValType::I64,
    };
    let params: Vec<ValType> = params.iter().map(convert).collect();
    let results: Vec<ValType> = results.iter().map(convert).collect();
    section.function(params, results);
}

/// `ImportSection::new`: an empty import section.
#[verifier::external_body]
pub(crate) fn import_section_new() -> (section: ImportSection)
    ensures
        import_section_bytes(section) == Seq::<u8>::empty(),
        import_section_count(section) == 0,
{
    ImportSection::new()
}

/// `ImportSection::import` with a memory type: adds the import of a memory. The encoder
/// writes the two names, the kind byte 0x02 and the limits of the memory.
#[verifier::external_body]
pub(crate) fn import_memory(
    section: &mut ImportSection,
    module: &str,
    field: &str,
    minimum: u64,
    maximum: Option<u64>,
    memory64: bool,
    shared: bool,
)
    requires
        encode_utf8(module@).len() <= u32::MAX,
        encode_utf8(field@).len() <= u32::MAX,
        import_section_count(*old(section)) < u32::MAX,
    ensures
        import_section_bytes(*final(section)) == import_section_bytes(*old(section))
            + import_memory_entry(module@, field@, minimum, maximum, memory64, shared),
        import_section_count(*final(section)) == import_section_count(*old(section)) + 1,
{
    section.import(module, field, MemoryType { minimum, maximum, memory64, shared });
}

/// `ImportSection::import` with a function type: adds the import of a function. The
/// encoder writes the two names, the kind byte 0x00 and the index of the signature.
#[verifier::external_body]
pub(crate) fn import_function(
    section: &mut ImportSection,
    module: &str,
    field: &str,
    type_index: u32,
)
    requires
        encode_utf8(module@).len() <= u32::MAX,
        encode_utf8(field@).len() <= u32::MAX,
        import_section_count(*old(section)) < u32::MAX,
    ensures
        import_section_bytes(*final(section)) == import_section_bytes(*old(section))
            + import_function_entry(module@, field@, type_index),
        import_section_count(*final(section)) == import_section_count(*old(section)) + 1,
{
    section.import(module, field, EntityType::Function(type_index));
}

/// `FunctionSection::new`: an empty function section.
#[verifier::external_body]
pub(crate) fn function_section_new() -> (section: FunctionSection)
    ensures
        function_section_bytes(section) == Seq::<u8>::empty(),
        function_section_count(section) == 0,
{
    FunctionSection::new()
}

/// `FunctionSection::function`: declares one function by the index of its signature.
#[verifier::external_body]
pub(crate) fn function_section_function(section: &mut FunctionSection, type_index: u32)
    requires
        function_section_count(*old(section)) < u32::MAX,
    ensures
        function_section_bytes(*final(section)) == function_section_bytes(*old(section)) + uleb128(
            type_index as nat,
        ),
        function_section_count(*final(section)) == function_section_count(*old(section)) + 1,
{
    section.function(type_index);
}

/// `TableSection::new`: an empty table section.
#[verifier::external_body]
pub(crate) fn table_section_new() -> (section: TableSection)
    ensures
        table_section_bytes(section) == Seq::<u8>::empty(),
        table_section_count(section) == 0,
{
    TableSection::new()
}

/// `TableSection::table` with the element type `funcref`: adds a table. The encoder
/// writes the type byte 0x70, a flag for the maximum, and the limits.
#[verifier::external_body]
pub(crate) fn table_section_funcref_table(
    section: &mut TableSection,
    minimum: u32,
    maximum: Option<u32>,
)
    requires
        table_section_count(*old(section)) < u32::MAX,
    ensures
        table_section_bytes(*final(section)) == table_section_bytes(*old(section))
            + funcref_table_entry(minimum, maximum),
        table_section_count(*final(section)) == table_section_count(*old(section)) + 1,
{
    section.table(TableType { element_type: RefType::FUNCREF, minimum, maximum });
}

/// `ExportSection::new`: an empty export section.
#[verifier::external_body]
pub(crate) fn export_section_new() -> (section: ExportSection)
    ensures
        export_section_bytes(section) == Seq::<u8>::empty(),
        export_section_count(section) == 0,
{
    ExportSection::new()
}

/// `ExportSection::export` with the kind `Func`: adds the export of a function. The
/// encoder writes the name, the kind byte 0x00 and the index of the function.
#[verifier::external_body]
pub(crate) fn export_function(section: &mut ExportSection, name: &str, index: u32)
    requires
        encode_utf8(name@).len() <= u32::MAX,
        export_section_count(*old(section)) < u32::MAX,
    ensures
        export_section_bytes(*final(section)) == export_section_bytes(*old(section))
            + export_function_entry(name@, index),
        export_section_count(*final(section)) == export_section_count(*old(section)) + 1,
{
    section.export(name, ExportKind::Func, index);
}

/// `CodeSection::new`: an empty code section.
#[verifier::external_body]
pub(crate) fn code_section_new() -> (section: CodeSection)
    ensures
        code_section_bytes(section) == Seq::<u8>::empty(),
        code_section_count(section) == 0,
{
    CodeSection::new()
}

/// `CodeSection::function`: adds a function body, its size first. The encoder panics on
/// a body that the size field cannot hold.
#[verifier::external_body]
pub(crate) fn code_section_function(section: &mut CodeSection, function: &Function)
    requires
        function_bytes(*function).len() <= u32::MAX,
        code_section_count(*old(section)) < u32::MAX,
    ensures
        code_section_bytes(*final(section)) == code_section_bytes(*old(section)) + code_entry(
            function_bytes(*function),
        ),
        code_section_count(*final(section)) == code_section_count(*old(section)) + 1,
{
    section.function(function);
}

/// `DataSection::new`: an empty data section.
#[verifier::external_body]
pub(crate) fn data_section_new() -> (section: DataSection)
    ensures
        data_section_bytes(section) == Seq::<u8>::empty(),
        data_section_count(section) == 0,
{
    DataSection::new()
}

/// `DataSection::active` with an offset made by `ConstExpr::i32_const`: adds a segment
/// that is copied into a memory when the module is instantiated. The encoder writes the
/// mode (0x00 for memory 0, else 0x02 and the memory), the offset as a constant
/// instruction closed by `End`, the length of the data and the data. Besides the data
/// that is at most 18 bytes.
#[verifier::external_body]
pub(crate) fn data_section_active(
    section: &mut DataSection,
    memory_index: u32,
    offset: i32,
    data: &Vec<u8>,
)
    requires
        data@.len() <= u32::MAX,
        data_section_count(*old(section)) < u32::MAX,
    ensures
        data_section_bytes(*final(section)) == data_section_bytes(*old(section))
            + active_segment_entry(
            memory_index,
            instruction_bytes(OpView::Const(ConstOp::I32(offset))) + instruction_bytes(
                OpView::Control(ControlOp::End),
            ),
            data@,
        ),
        data_section_bytes(*final(section)).len() <= data_section_bytes(*old(section)).len()
            + data@.len() + 18,
        data_section_count(*final(section)) == data_section_count(*old(section)) + 1,
{
    section.active(memory_index, &ConstExpr::i32_const(offset), data.iter().copied());
}

/// `Function::new` with one group of locals: a body that declares `count` locals of the
/// type `ty` and holds no instruction yet.
#[verifier::external_body]
pub(crate) fn function_new(count: u32, ty: ValueType) -> (function: Function)
    ensures
        function_bytes(function) == locals_prefix(count, ty),
{
    let ty = match ty {
        ValueType::I32 => ValType::I32,
        ValueType::I64 => ValType::I64,
    };
    Function::new([(count, ty)])
}

/// `Function::byte_len`: the number of bytes of the body so far.
#[verifier::external_body]
pub(crate) fn function_byte_len(function: &Function) -> (len: usize)
    ensures
        len == function_bytes(*function).len(),
{
    function.byte_len()
}

/// `Function::instruction` for a control or stack instruction without an immediate.
#[verifier::external_body]
pub(crate) fn push_control(function: &mut Function, op: ControlOp)
    ensures
        function_bytes(*final(function)) == function_bytes(*old(function)) + instruction_bytes(
            OpView::Control(op),
        ),
{
    let instruction = match op {
        ControlOp::Block => Instruction::Block(BlockType::Empty),
        ControlOp::Loop => Instruction::Loop(BlockType::Empty),
        ControlOp::If => Instruction::If(BlockType::Empty),
        ControlOp::End => Instruction::End,
        ControlOp::Return => Instruction::Return,
        ControlOp::Drop => Instruction::Drop,
        ControlOp::Select => Instruction::Select,
    };
    function.instruction(&instruction);
}

/// `Function::instruction` for an instruction with one index as its immediate.
#[verifier::external_body]
pub(crate) fn push_index(function: &mut Function, op: IndexOp, index: u32)
    ensures
        function_bytes(*final(function)) == function_bytes(*old(function)) + instruction_bytes(
            OpView::Index(op, index),
        ),
{
    let instruction = match op {
        IndexOp::Br => Instruction::Br(index),
        IndexOp::BrIf => Instruction::BrIf(index),
        IndexOp::Call => Instruction::Call(index),
        IndexOp::LocalGet => Instruction::LocalGet(index),
        IndexOp::LocalSet => Instruction::LocalSet(index),
        IndexOp::LocalTee => Instruction::LocalTee(index),
    };
    function.instruction(&instruction);
}

/// `Function::instruction` for `BrTable`. The encoder panics on a list of labels whose
/// length does not fit in 32 bits.
#[verifier::external_body]
pub(crate) fn push_br_table(function: &mut Function, labels: &Vec<u32>, default: u32)
    requires
        labels@.len() <= u32::MAX,
    ensures
        function_bytes(*final(function)) == function_bytes(*old(function)) + instruction_bytes(
            OpView::BrTable(labels@, default),
        ),
{
    function.instruction(&Instruction::BrTable(labels.as_slice().into(), default));
}

/// `Function::instruction` for an integer constant.
#[verifier::external_body]
pub(crate) fn push_const(function: &mut Function, op: ConstOp)
    ensures
        function_bytes(*final(function)) == function_bytes(*old(function)) + instruction_bytes(
            OpView::Const(op),
        ),
{
    let instruction = match op {
        ConstOp::I32(value) => Instruction::I32Const(value),
        ConstOp::I64(value) => Instruction::I64Const(value),
    };
    function.instruction(&instruction);
}

/// `Function::instruction` for a load.
#[verifier::external_body]
pub(crate) fn push_load(function: &mut Function, op: LoadOp, arg: MemArg)
    ensures
        function_bytes(*final(function)) == function_bytes(*old(function)) + instruction_bytes(
            OpView::Load(op, arg),
        ),
{
    let m = wasm_encoder::MemArg { offset: arg.offset, align: arg.align, memory_index: arg.memory_index };
    let instruction = match op {
        LoadOp::I32Load => Instruction::I32Load(m),
        LoadOp::I32Load8U => Instruction::I32Load8U(m),
        LoadOp::I64Load => Instruction::I64Load(m),
        LoadOp::I64Load8S => Instruction::I64Load8S(m),
        LoadOp::I64Load8U => Instruction::I64Load8U(m),
        LoadOp::I64Load16S => Instruction::I64Load16S(m),
        LoadOp::I64Load16U => Instruction::I64Load16U(m),
        LoadOp::I64Load32S => Instruction::I64Load32S(m),
        LoadOp::I64Load32U => Instruction::I64Load32U(m),
    };
    function.instruction(&instruction);
}

/// `Function::instruction` for a store.
#[verifier::external_body]
pub(crate) fn push_store(function: &mut Function, op: StoreOp, arg: MemArg)
    ensures
        function_bytes(*final(function)) == function_bytes(*old(function)) + instruction_bytes(
            OpView::Store(op, arg),
        ),
{
    let m = wasm_encoder::MemArg { offset: arg.offset, align: arg.align, memory_index: arg.memory_index };
    let instruction = match op {
        StoreOp::I32Store => Instruction::I32Store(m),
        StoreOp::I64Store => Instruction::I64Store(m),
        StoreOp::I64Store8 => Instruction::I64Store8(m),
        StoreOp::I64Store16 => Instruction::I64Store16(m),
        StoreOp::I64Store32 => Instruction::I64Store32(m),
    };
    function.instruction(&instruction);
}

/// `Function::instruction` for a 32-bit numeric instruction.
#[verifier::external_body]
pub(crate) fn push_i32(function: &mut Function, op: I32Op)
    ensures
        function_bytes(*final(function)) == function_bytes(*old(function)) + instruction_bytes(
            OpView::I32(op),
        ),
{
    let instruction = match op {
        I32Op::Eqz => Instruction::I32Eqz,
        I32Op::Eq => Instruction::I32Eq,
        I32Op::Ne => Instruction::I32Ne,
        I32Op::Add => Instruction::I32Add,
        I32Op::Sub => Instruction::I32Sub,
        I32Op::And => Instruction::I32And,
        I32Op::ShrU => Instruction::I32ShrU,
    };
    function.instruction(&instruction);
}

/// `Function::instruction` for a 64-bit arithmetic instruction.
#[verifier::external_body]
pub(crate) fn push_i64_arith(function: &mut Function, op: I64ArithOp)
    ensures
        function_bytes(*final(function)) == function_bytes(*old(function)) + instruction_bytes(
            OpView::I64Arith(op),
        ),
{
    let instruction = match op {
        I64ArithOp::Add => Instruction::I64Add,
        I64ArithOp::Sub => Instruction::I64Sub,
        I64ArithOp::Mul => Instruction::I64Mul,
        I64ArithOp::DivS => Instruction::I64DivS,
        I64ArithOp::DivU => Instruction::I64DivU,
        I64ArithOp::RemS => Instruction::I64RemS,
        I64ArithOp::RemU => Instruction::I64RemU,
    };
    function.instruction(&instruction);
}

/// `Function::instruction` for a 64-bit logic or shift instruction.
#[verifier::external_body]
pub(crate) fn push_i64_bit(function: &mut Function, op: I64BitOp)
    ensures
        function_bytes(*final(function)) == function_bytes(*old(function)) + instruction_bytes(
            OpView::I64Bit(op),
        ),
{
    let instruction = match op {
        I64BitOp::And => Instruction::I64And,
        I64BitOp::Or => Instruction::I64Or,
        I64BitOp::Xor => Instruction::I64Xor,
        I64BitOp::Shl => Instruction::I64Shl,
        I64BitOp::ShrS => Instruction::I64ShrS,
        I64BitOp::ShrU => Instruction::I64ShrU,
    };
    function.instruction(&instruction);
}

/// `Function::instruction` for a 64-bit test or comparison.
#[verifier::external_body]
pub(crate) fn push_i64_compare(function: &mut Function, op: I64CompareOp)
    ensures
        function_bytes(*final(function)) == function_bytes(*old(function)) + instruction_bytes(
            OpView::I64Compare(op),
        ),
{
    let instruction = match op {
        I64CompareOp::Eqz => Instruction::I64Eqz,
        I64CompareOp::Eq => Instruction::I64Eq,
        I64CompareOp::Ne => Instruction::I64Ne,
        I64CompareOp::LtS => Instruction::I64LtS,
        I64CompareOp::LtU => Instruction::I64LtU,
        I64CompareOp::GtS => Instruction::I64GtS,
        I64CompareOp::GtU => Instruction::I64GtU,
        I64CompareOp::LeS => Instruction::I64LeS,
        I64CompareOp::LeU => Instruction::I64LeU,
        I64CompareOp::GeS => Instruction::I64GeS,
        I64CompareOp::GeU => Instruction::I64GeU,
    };
    function.instruction(&instruction);
}

/// `Function::instruction` for a width conversion.
#[verifier::external_body]
pub(crate) fn push_convert(function: &mut Function, op: ConvertOp)
    ensures
        function_bytes(*final(function)) == function_bytes(*old(function)) + instruction_bytes(
            OpView::Convert(op),
        ),
{
    let instruction = match op {
        ConvertOp::I32WrapI64 => Instruction::I32WrapI64,
        ConvertOp::I64ExtendI32S => Instruction::I64ExtendI32S,
        ConvertOp::I64ExtendI32U => Instruction::I64ExtendI32U,
    };
    function.instruction(&instruction);
}

} // verus!
