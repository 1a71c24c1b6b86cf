//! Reading a WebAssembly module with `wasmparser`.
//!
//! Every reader here hands bytes to `wasmparser` and turns what comes back into the plain types of
//! [`crate::model`]. What the bytes mean is left to `wasmparser`: each result has a name, a
//! function of the bytes and of their position in the module, and nothing more is claimed of it.
//!
//! A list ends with the first item that cannot be read, which then is an error. Positions in the
//! results count from the beginning of the module; `wasmparser` computes with them, so the bytes
//! must not reach beyond the last position that there can be.
use std::ops::Range;
use vstd::prelude::*;
use wasmparser::{
    BinaryReaderError, ElementItems, ElementKind, ExternalKind, FunctionBody, ImportSectionReader,
    Name, NameSectionReader, Parser,
};
use wasmparser::Payload::{
    CodeSectionEntry, CodeSectionStart, CustomSection, ElementSection, End, ExportSection,
    FunctionSection, GlobalSection, ImportSection, StartSection, TypeSection, Version,
};
use wasmparser::TypeRef::{Func, Global, Memory, Table, Tag};

use crate::model::{
    read_views, ElementEntry, EntityType, EntryItems, EntryMode, Export, ExportKind, FuncType,
    FuncTypeView, GlobalEntry, GlobalType, Import, MemoryType, NameEntry, Naming, Op, Operator,
    Payload, TableType, ValueType,
};
use crate::model::NameEntry::{
    DataNames, ElementNames, FunctionNames, GlobalNames, LabelNames, LocalNames, MemoryNames,
    ModuleName, TableNames, TypeNames, UnknownNames,
};
use crate::model::Payload::{
    Code, CodeStart, Custom, Elements, Exports, Finish, Functions, Globals, Header, Imports, Other,
    Start, Types,
};

verus! {

/// `wasmparser::BinaryReaderError`, the reason why bytes could not be read.
#[verifier::external_type_specification]
#[verifier::external_body]
pub struct ExBinaryReaderError(wasmparser::BinaryReaderError);

/// `wasmparser::ValType`, the type of a value.
#[verifier::external_type_specification]
#[verifier::external_body]
pub struct ExParserValType(wasmparser::ValType);

/// Tells the variants of `wasmparser::ValType` apart: each stands for the value type of its name.
/// The readers below use it for the value types that they come across, and nothing else does, so
/// that nothing is claimed of it.
#[verifier::external_body]
fn value_type(ty: wasmparser::ValType) -> (r: ValueType) {
    match ty {
        wasmparser::ValType::I32 => ValueType::I32,
        wasmparser::ValType::I64 => ValueType::I64,
        wasmparser::ValType::F32 => ValueType::F32,
        wasmparser::ValType::F64 => ValueType::F64,
        wasmparser::ValType::V128 => ValueType::V128,
        wasmparser::ValType::FuncRef => ValueType::FuncRef,
        wasmparser::ValType::ExternRef => ValueType::ExternRef,
    }
}

/// That a number of 32 bits whose topmost bit is set may be written at `i`. Such a number takes
/// five bytes, of which all but the last tell that another one follows.
pub open spec fn is_large_number(bytes: Seq<u8>, i: int) -> bool {
    &&& bytes[i] >= 0x80
    &&& bytes[i + 1] >= 0x80
    &&& bytes[i + 2] >= 0x80
    &&& bytes[i + 3] >= 0x80
    &&& 0x08 <= bytes[i + 4] <= 0x0f
}

/// That a number of 32 bits whose topmost bit is set may be written somewhere.
pub open spec fn has_large_number(bytes: Seq<u8>) -> bool {
    exists|i: int| 0 <= i && i + 5 <= bytes.len() && #[trigger] is_large_number(bytes, i)
}

/// That no position in a module, together with a length that may be written in it, is too large for
/// the machine. Where addresses have 64 bits this holds of every module that there is room for.
pub open spec fn has_room(wasm: Seq<u8>) -> bool {
    wasm.len() + u32::MAX <= usize::MAX || !has_large_number(wasm)
}

/// Whether a number of 32 bits whose topmost bit is set may be written somewhere in `bytes`.
pub fn find_large_number(bytes: &[u8]) -> (r: bool)
    ensures
        r == has_large_number(bytes@),
{
    let mut i: usize = 0;
    while i < bytes.len() && bytes.len() - i >= 5
        invariant
            i <= bytes@.len(),
            forall|j: int|
                0 <= j < i && j + 5 <= bytes@.len() ==> !#[trigger] is_large_number(bytes@, j),
        decreases bytes@.len() - i,
    {
        if bytes[i] >= 0x80 && bytes[i + 1] >= 0x80 && bytes[i + 2] >= 0x80 && bytes[i + 3] >= 0x80
            && 0x08 <= bytes[i + 4] && bytes[i + 4] <= 0x0f {
            assert(is_large_number(bytes@, i as int));
            return true;
        }
        i += 1;
    }
    false
}

/// Whether no position in the module, together with a length that may be written in it, is too
/// large for the machine.
pub fn check_room(wasm: &[u8]) -> (r: bool)
    ensures
        r == has_room(wasm@),
{
    wasm.len() <= usize::MAX - u32::MAX as usize || !find_large_number(wasm)
}

/// What `wasmparser::Parser::parse_all`, begun at position zero, yields for a module.
pub uninterp spec fn wasm_payloads(wasm: Seq<u8>) -> Seq<
    Result<Payload<'static>, BinaryReaderError>,
>;

/// Calls `wasmparser::Parser::parse_all`, and for each payload tells its variant and takes the
/// range of bytes that it covers. The result depends on the bytes of the module alone.
///
/// `wasmparser` adds lengths of 32 bits, as they are written in the module, to positions in it, and
/// panics on an overflow. There is none if the machine has room for any such length behind the
/// module; nor is there one if no length has its topmost bit set, as no slice takes up more than
/// half of what can be addressed.
#[verifier::external_body]
pub(crate) fn read_payloads<'a>(wasm: &'a [u8]) -> (r: Vec<Result<Payload<'a>, BinaryReaderError>>)
    requires
        has_room(wasm@),
    ensures
        r@ == wasm_payloads(wasm@),
{
    Parser::default().parse_all(wasm).map(|p| p.map(|p| match p {
        Version { .. } => Header,
        End(_) => Finish,
        TypeSection(s) => Types(s.range()),
        ImportSection(s) => Imports(s.range()),
        StartSection { func, .. } => Start(func),
        ElementSection(s) => Elements(s.range()),
        FunctionSection(s) => Functions(s.range()),
        CodeSectionStart { .. } => CodeStart,
        CodeSectionEntry(b) => Code(b.range()),
        ExportSection(s) => Exports(s.range()),
        GlobalSection(s) => Globals(s.range()),
        CustomSection(c) => Custom(c.name(), c.data_offset(), c.range()),
        p => Other(p.as_section())
    })).collect()
}

/// The function types that `wasmparser` reads in the contents of a type section.
pub uninterp spec fn wasm_types(data: Seq<u8>, offset: usize) -> Seq<
    Result<FuncTypeView, BinaryReaderError>,
>;

/// Walks a `wasmparser::TypeSectionReader` over `data`, which begins at `offset` in the module.
#[verifier::external_body]
pub(crate) fn read_types(data: &[u8], offset: usize) -> (r: Vec<
    Result<FuncType, BinaryReaderError>,
>)
    requires
        offset + data@.len() <= usize::MAX,
    ensures
        read_views(r@) == wasm_types(data@, offset),
{
    match wasmparser::TypeSectionReader::new(data, offset) {
        Ok(types) => types.into_iter().map(|ty| ty.map(|wasmparser::Type::Func(f)| FuncType {
            params: f.params().iter().copied().map(value_type).collect(),
            results: f.results().iter().copied().map(value_type).collect(),
        })).collect(),
        Err(error) => vec![Err(error)],
    }
}

/// The imports that `wasmparser` reads in the contents of an import section.
pub uninterp spec fn wasm_imports(data: Seq<u8>, offset: usize) -> Seq<
    Result<Import<'static>, BinaryReaderError>,
>;

/// Walks a `wasmparser::ImportSectionReader` over `data`, which begins at `offset` in the module.
#[verifier::external_body]
pub(crate) fn read_imports<'a>(data: &'a [u8], offset: usize) -> (r: Vec<
    Result<Import<'a>, BinaryReaderError>,
>)
    requires
        offset + data@.len() <= usize::MAX,
    ensures
        r@ == wasm_imports(data@, offset),
{
    ImportSectionReader::new(data, offset).map_or_else(|error| vec![Err(error)], |imports|
        imports.into_iter().map(|import| import.map(|i| Import { module: i.module, name: i.name,
            ty: match i.ty {
                Func(ty) => EntityType::Function(ty),
                Table(t) => EntityType::Table(TableType {
                    element: value_type(t.element_type), minimum: t.initial, maximum: t.maximum }),
                Memory(t) => EntityType::Memory(MemoryType { minimum: t.initial,
                    maximum: t.maximum, memory64: t.memory64, shared: t.shared }),
                Global(t) => EntityType::Global(GlobalType {
                    value: value_type(t.content_type), mutable: t.mutable }),
                Tag(t) => EntityType::Tag(t.func_type_idx),
            } })).collect())
}

/// The indices that `wasmparser` reads in the contents of a function section, or in a list of
/// functions of an element segment.
pub uninterp spec fn wasm_indices(data: Seq<u8>, offset: usize) -> Seq<
    Result<u32, BinaryReaderError>,
>;

/// Walks a `wasmparser::SectionLimited` of indices over `data`, which begins at `offset` in the
/// module.
#[verifier::external_body]
pub(crate) fn read_indices(data: &[u8], offset: usize) -> (r: Vec<Result<u32, BinaryReaderError>>)
    requires
        offset + data@.len() <= usize::MAX,
    ensures
        r@ == wasm_indices(data@, offset),
{
    match wasmparser::SectionLimited::<u32>::new(data, offset) {
        Ok(indices) => indices.into_iter().collect(),
        Err(error) => vec![Err(error)],
    }
}

/// The exports that `wasmparser` reads in the contents of an export section.
pub uninterp spec fn wasm_exports(data: Seq<u8>, offset: usize) -> Seq<
    Result<Export<'static>, BinaryReaderError>,
>;

/// Walks a `wasmparser::ExportSectionReader` over `data`, which begins at `offset` in the module.
#[verifier::external_body]
pub(crate) fn read_exports<'a>(data: &'a [u8], offset: usize) -> (r: Vec<
    Result<Export<'a>, BinaryReaderError>,
>)
    requires
        offset + data@.len() <= usize::MAX,
    ensures
        r@ == wasm_exports(data@, offset),
{
    match wasmparser::ExportSectionReader::new(data, offset) {
        Ok(exports) => exports.into_iter().map(|export| export.map(|e| Export { name: e.name,
            kind: match e.kind {
            ExternalKind::Func => ExportKind::Func,
            ExternalKind::Table => ExportKind::Table,
            ExternalKind::Memory => ExportKind::Memory,
            ExternalKind::Global => ExportKind::Global,
            ExternalKind::Tag => ExportKind::Tag,
        }, index: e.index })).collect(),
        Err(error) => vec![Err(error)],
    }
}

/// The globals that `wasmparser` reads in the contents of a global section.
pub uninterp spec fn wasm_globals(data: Seq<u8>, offset: usize) -> Seq<
    Result<GlobalEntry, BinaryReaderError>,
>;

/// Walks a `wasmparser::GlobalSectionReader` over `data`, which begins at `offset` in the module.
#[verifier::external_body]
pub(crate) fn read_globals(data: &[u8], offset: usize) -> (r: Vec<
    Result<GlobalEntry, BinaryReaderError>,
>)
    requires
        offset + data@.len() <= usize::MAX,
    ensures
        r@ == wasm_globals(data@, offset),
{
    match wasmparser::GlobalSectionReader::new(data, offset) {
        Ok(globals) => globals.into_iter().map(|global| global.map(|g| GlobalEntry {
            ty: GlobalType { value: value_type(g.ty.content_type), mutable: g.ty.mutable },
            init: g.init_expr.get_binary_reader().range(),
        })).collect(),
        Err(error) => vec![Err(error)],
    }
}

/// The element segments that `wasmparser` reads in the contents of an element section.
pub uninterp spec fn wasm_elements(data: Seq<u8>, offset: usize) -> Seq<
    Result<ElementEntry, BinaryReaderError>,
>;

/// Walks a `wasmparser::ElementSectionReader` over `data`, which begins at `offset` in the module.
#[verifier::external_body]
pub(crate) fn read_elements(data: &[u8], offset: usize) -> (r: Vec<
    Result<ElementEntry, BinaryReaderError>,
>)
    requires
        offset + data@.len() <= usize::MAX,
    ensures
        r@ == wasm_elements(data@, offset),
{
    match wasmparser::ElementSectionReader::new(data, offset) {
        Ok(elements) => elements.into_iter().map(|element| element.map(|e| ElementEntry {
            mode: match e.kind {
                ElementKind::Passive => EntryMode::Passive,
                ElementKind::Declared => EntryMode::Declared,
                ElementKind::Active { table_index, offset_expr } => EntryMode::Active(table_index,
                    offset_expr.get_binary_reader().range()),
            },
            ty: value_type(e.ty),
            items: match e.items {
                ElementItems::Functions(list) => EntryItems::Functions(list.range()),
                ElementItems::Expressions(list) => EntryItems::Expressions(list.range()),
            } })).collect(),
        Err(error) => vec![Err(error)],
    }
}

/// Where the constant expressions lie that `wasmparser` reads in a list of an element segment.
pub uninterp spec fn wasm_exprs(data: Seq<u8>, offset: usize) -> Seq<
    Result<Range<usize>, BinaryReaderError>,
>;

/// Walks a `wasmparser::SectionLimited` of constant expressions over `data`, which begins at
/// `offset` in the module.
#[verifier::external_body]
pub(crate) fn read_exprs(data: &[u8], offset: usize) -> (r: Vec<
    Result<Range<usize>, BinaryReaderError>,
>)
    requires
        offset + data@.len() <= usize::MAX,
    ensures
        r@ == wasm_exprs(data@, offset),
{
    match wasmparser::SectionLimited::<wasmparser::ConstExpr>::new(data, offset) {
        Ok(e) => e.into_iter().map(|e| e.map(|e| e.get_binary_reader().range())).collect(),
        Err(error) => vec![Err(error)],
    }
}

/// The function that the first operator of a constant expression refers to, if that operator is
/// a `ref.func`, as `wasmparser` reads it.
pub uninterp spec fn wasm_ref_func(data: Seq<u8>, offset: usize) -> Result<
    Option<u32>,
    BinaryReaderError,
>;

/// Reads one operator with `wasmparser::BinaryReader::read_operator` at the beginning of the
/// constant expression `data`, which begins at `offset` in the module.
#[verifier::external_body]
pub(crate) fn read_ref_func(data: &[u8], offset: usize) -> (r: Result<
    Option<u32>,
    BinaryReaderError,
>)
    requires
        offset + data@.len() <= usize::MAX,
    ensures
        r == wasm_ref_func(data@, offset),
{
    let mut reader = wasmparser::ConstExpr::new(data, offset).get_binary_reader();
    reader.read_operator().map(|op| match op {
        wasmparser::Operator::RefFunc { function_index } => Some(function_index),
        _ => None,
    })
}

/// The subsections that `wasmparser` reads in the data of a name section.
pub uninterp spec fn wasm_names(data: Seq<u8>, offset: usize) -> Seq<
    Result<NameEntry<'static>, BinaryReaderError>,
>;

/// Walks a `wasmparser::NameSectionReader` over `data`, which begins at `offset` in the module.
/// Here alone items may follow an error.
#[verifier::external_body]
pub(crate) fn read_names<'a>(data: &'a [u8], offset: usize) -> (r: Vec<
    Result<NameEntry<'a>, BinaryReaderError>,
>)
    requires
        offset + data@.len() <= usize::MAX,
    ensures
        r@ == wasm_names(data@, offset),
{
    NameSectionReader::new(data, offset).map(|n| n.map(|n| match n {
        Name::Module { name, .. } => ModuleName(name),
        Name::Function(names) => FunctionNames(names.range()),
        Name::Local(names) => LocalNames(names.range()),
        Name::Label(names) => LabelNames(names.range()),
        Name::Type(names) => TypeNames(names.range()),
        Name::Table(names) => TableNames(names.range()),
        Name::Memory(names) => MemoryNames(names.range()),
        Name::Global(names) => GlobalNames(names.range()),
        Name::Element(names) => ElementNames(names.range()),
        Name::Data(names) => DataNames(names.range()),
        Name::Unknown { .. } => UnknownNames,
    })).collect()
}

/// The names that `wasmparser` reads in a name map.
pub uninterp spec fn wasm_name_map(data: Seq<u8>, offset: usize) -> Seq<
    Result<Naming<'static>, BinaryReaderError>,
>;

/// Walks a `wasmparser::NameMap` over `data`, which begins at `offset` in the module.
#[verifier::external_body]
pub(crate) fn read_name_map<'a>(data: &'a [u8], offset: usize) -> (r: Vec<
    Result<Naming<'a>, BinaryReaderError>,
>)
    requires
        offset + data@.len() <= usize::MAX,
    ensures
        r@ == wasm_name_map(data@, offset),
{
    match wasmparser::NameMap::new(data, offset) {
        Ok(names) => names.into_iter().map(|name| name.map(|n| Naming {
            index: n.index,
            name: n.name,
        })).collect(),
        Err(error) => vec![Err(error)],
    }
}

/// The entries that `wasmparser` reads in an indirect name map: an index, and where the name map
/// for it lies.
pub uninterp spec fn wasm_indirect_names(data: Seq<u8>, offset: usize) -> Seq<
    Result<(u32, Range<usize>), BinaryReaderError>,
>;

/// Walks a `wasmparser::IndirectNameMap` over `data`, which begins at `offset` in the module.
#[verifier::external_body]
pub(crate) fn read_indirect_names(data: &[u8], offset: usize) -> (r: Vec<
    Result<(u32, Range<usize>), BinaryReaderError>,
>)
    requires
        offset + data@.len() <= usize::MAX,
    ensures
        r@ == wasm_indirect_names(data@, offset),
{
    match wasmparser::IndirectNameMap::new(data, offset) {
        Ok(names) => names.into_iter().map(|n| n.map(|n| (n.index, n.names.range()))).collect(),
        Err(error) => vec![Err(error)],
    }
}

/// The local declarations that `wasmparser` reads in a function body, or why one of them cannot
/// be read; or else why the list cannot be read at all.
pub uninterp spec fn wasm_locals(data: Seq<u8>, offset: usize) -> Result<
    Result<Seq<(u32, ValueType)>, BinaryReaderError>,
    BinaryReaderError,
>;

/// Walks the reader that `wasmparser::FunctionBody::get_locals_reader` gives for the body `data`,
/// which begins at `offset` in the module.
#[verifier::external_body]
pub(crate) fn read_locals(data: &[u8], offset: usize) -> (r: Result<
    Result<Vec<(u32, ValueType)>, BinaryReaderError>,
    BinaryReaderError,
>)
    requires
        offset + data@.len() <= usize::MAX,
    ensures
        match r {
            Ok(Ok(locals)) => wasm_locals(data@, offset) == Ok::<
                Result<Seq<(u32, ValueType)>, BinaryReaderError>,
                BinaryReaderError,
            >(Ok(locals@)),
            Ok(Err(error)) => wasm_locals(data@, offset) == Ok::<
                Result<Seq<(u32, ValueType)>, BinaryReaderError>,
                BinaryReaderError,
            >(Err(error)),
            Err(error) => wasm_locals(data@, offset) == Err::<
                Result<Seq<(u32, ValueType)>, BinaryReaderError>,
                BinaryReaderError,
            >(error),
        },
{
    FunctionBody::new(offset, data).get_locals_reader().map(|locals| {
        locals.into_iter().map(|local| local.map(|(n, ty)| (n, value_type(ty)))).collect()
    })
}

/// The operators that `wasmparser` reads in a function body, or why there are none to be read.
pub uninterp spec fn wasm_operators(data: Seq<u8>, offset: usize) -> Result<
    Seq<Result<Operator, BinaryReaderError>>,
    BinaryReaderError,
>;

/// Walks the reader that `wasmparser::FunctionBody::get_operators_reader` gives for the body
/// `data`, which begins at `offset` in the module, and takes of each operator its position and
/// what the instrumentation tells apart.
#[verifier::external_body]
pub(crate) fn read_operators(data: &[u8], offset: usize) -> (r: Result<
    Vec<Result<Operator, BinaryReaderError>>,
    BinaryReaderError,
>)
    requires
        offset + data@.len() <= usize::MAX,
    ensures
        match r {
            Ok(operators) => wasm_operators(data@, offset) == Ok::<
                Seq<Result<Operator, BinaryReaderError>>,
                BinaryReaderError,
            >(operators@),
            Err(error) => wasm_operators(data@, offset) == Err::<
                Seq<Result<Operator, BinaryReaderError>>,
                BinaryReaderError,
            >(error),
        },
{
    FunctionBody::new(offset, data).get_operators_reader().map(|operators| {
        operators.into_iter_with_offsets().map(|o| o.map(|(op, offset)| Operator { op: match op {
            wasmparser::Operator::RefFunc { function_index } => Op::RefFunc(function_index),
            wasmparser::Operator::Call { function_index } => Op::Call(function_index),
            wasmparser::Operator::ReturnCall { function_index } => Op::ReturnCall(function_index),
            wasmparser::Operator::ReturnCallIndirect { .. } => Op::ReturnCallIndirect,
            wasmparser::Operator::Return => Op::Return,
            wasmparser::Operator::End => Op::End,
            _ => Op::Other,
        }, offset })).collect()
    })
}

} // verus!
