//! Writing the instrumented module with `wasm_encoder`.
//!
//! The builders of `wasm_encoder` are filled item by item. All that a builder keeps is the encoding
//! of its items, one behind the other, and in most cases how many they are. It is said to hold
//! every list of items that is encoded so: there can be several, as encoded operators may be those
//! of an instruction. Each function that fills a builder says what the lists that it held become.
//!
//! `wasm_encoder` panics where a length or a count is too large to be written; the functions here
//! are not to be called there.
use vstd::prelude::*;
use vstd::utf8::encode_utf8;
use wasm_encoder::{
    CodeSection, ConstExpr, ElementSection, ExportSection, Function, FunctionSection, GlobalSection,
    ImportSection, IndirectNameMap, Instruction, Module, NameMap, NameSection, StartSection,
    TypeSection,
};

use crate::error::Stop;
use crate::model::{
    views, BlockType, Body, BodyView, CodeItem, CodeItemView, EntityType, Export, ExportKind,
    ExportView, FuncType, FuncTypeView, Global, GlobalType, GlobalView, Import, ImportView,
    IndirectKind, IndirectNaming, IndirectNamingView, InitExpr, InitExprView, Instr, NameKind,
    Naming, NamingView, RawSection, RawSectionView, SectionView, Segment, SegmentItems,
    SegmentItemsView, SegmentMode, SegmentModeView, SegmentView, Subsection, SubsectionView,
    ValueType,
};
use crate::size::{
    code_size_of, elements_size_of, exports_size_of, framed, functions_size_of, globals_size_of,
    imports_size_of, indirect_map_size, leb_size, lemma_count, lemma_leb_size, lemma_list_limits,
    lemma_part, name_map_size, names_size_of, str_size, types_size_of,
};

verus! {

/// `wasm_encoder::ValType`, the type of a value.
#[verifier::external_type_specification]
#[verifier::external_body]
pub struct ExEncoderValType(wasm_encoder::ValType);

/// `wasm_encoder::TypeSection`, a type section that is being built.
#[verifier::external_type_specification]
#[verifier::external_body]
pub struct ExTypeSection(wasm_encoder::TypeSection);

/// `wasm_encoder::ImportSection`, an import section that is being built.
#[verifier::external_type_specification]
#[verifier::external_body]
pub struct ExImportSection(wasm_encoder::ImportSection);

/// `wasm_encoder::FunctionSection`, a function section that is being built.
#[verifier::external_type_specification]
#[verifier::external_body]
pub struct ExFunctionSection(wasm_encoder::FunctionSection);

/// `wasm_encoder::GlobalSection`, a global section that is being built.
#[verifier::external_type_specification]
#[verifier::external_body]
pub struct ExGlobalSection(wasm_encoder::GlobalSection);

/// `wasm_encoder::ExportSection`, an export section that is being built.
#[verifier::external_type_specification]
#[verifier::external_body]
pub struct ExExportSection(wasm_encoder::ExportSection);

/// `wasm_encoder::ElementSection`, an element section that is being built.
#[verifier::external_type_specification]
#[verifier::external_body]
pub struct ExElementSection(wasm_encoder::ElementSection);

/// `wasm_encoder::CodeSection`, a code section that is being built.
#[verifier::external_type_specification]
#[verifier::external_body]
pub struct ExCodeSection(wasm_encoder::CodeSection);

/// `wasm_encoder::Function`, a function body that is being built.
#[verifier::external_type_specification]
#[verifier::external_body]
pub struct ExFunction(wasm_encoder::Function);

/// `wasm_encoder::ConstExpr`, a constant expression.
#[verifier::external_type_specification]
#[verifier::external_body]
pub struct ExConstExpr(wasm_encoder::ConstExpr);

/// `wasm_encoder::NameMap`, a name map that is being built.
#[verifier::external_type_specification]
#[verifier::external_body]
pub struct ExNameMap(wasm_encoder::NameMap);

/// `wasm_encoder::IndirectNameMap`, an indirect name map that is being built.
#[verifier::external_type_specification]
#[verifier::external_body]
pub struct ExIndirectNameMap(wasm_encoder::IndirectNameMap);

/// `wasm_encoder::NameSection`, a name section that is being built.
#[verifier::external_type_specification]
#[verifier::external_body]
pub struct ExNameSection(wasm_encoder::NameSection);

/// `wasm_encoder::Module`, a module that is being built.
#[verifier::external_type_specification]
#[verifier::external_body]
pub struct ExModule(wasm_encoder::Module);

/// The value type that a `wasm_encoder::ValType` stands for.
pub uninterp spec fn written_type(ty: wasm_encoder::ValType) -> ValueType;

/// That a type section holds these types.
pub uninterp spec fn type_section_holds(section: TypeSection, types: Seq<FuncTypeView>) -> bool;

/// That an import section holds these imports.
pub uninterp spec fn import_section_holds(section: ImportSection, imports: Seq<ImportView>) -> bool;

/// That a function section holds functions of these types.
pub uninterp spec fn function_section_holds(section: FunctionSection, types: Seq<u32>) -> bool;

/// That a global section holds these globals.
pub uninterp spec fn global_section_holds(section: GlobalSection, globals: Seq<GlobalView>) -> bool;

/// That an export section holds these exports.
pub uninterp spec fn export_section_holds(section: ExportSection, exports: Seq<ExportView>) -> bool;

/// That an element section holds these segments.
pub uninterp spec fn element_section_holds(
    section: ElementSection,
    segments: Seq<SegmentView>,
) -> bool;

/// That a code section holds these bodies.
pub uninterp spec fn code_section_holds(section: CodeSection, bodies: Seq<BodyView>) -> bool;

/// That a function body that is being built is this body.
pub uninterp spec fn function_holds(function: Function, body: BodyView) -> bool;

/// That a constant expression is this one.
pub uninterp spec fn expr_holds(expr: ConstExpr, init: InitExprView) -> bool;

/// That a name map holds these names.
pub uninterp spec fn name_map_holds(map: NameMap, names: Seq<NamingView>) -> bool;

/// That an indirect name map holds these names.
pub uninterp spec fn indirect_map_holds(
    map: IndirectNameMap,
    names: Seq<IndirectNamingView>,
) -> bool;

/// That a name section holds these subsections.
pub uninterp spec fn name_section_holds(
    section: NameSection,
    subsections: Seq<SubsectionView>,
) -> bool;

/// That a module holds these sections.
pub uninterp spec fn module_holds(module: Module, sections: Seq<SectionView>) -> bool;

/// The bytes of the module that consists of these sections.
pub uninterp spec fn wasm_module(sections: Seq<SectionView>) -> Seq<u8>;

/// Picks the variant of `wasm_encoder::ValType` of the same name.
#[verifier::external_body]
pub(crate) fn valtype(ty: ValueType) -> (r: wasm_encoder::ValType)
    ensures
        written_type(r) == ty,
{
    match ty {
        ValueType::I32 => wasm_encoder::ValType::I32,
        ValueType::I64 => wasm_encoder::ValType::I64,
        ValueType::F32 => wasm_encoder::ValType::F32,
        ValueType::F64 => wasm_encoder::ValType::F64,
        ValueType::V128 => wasm_encoder::ValType::V128,
        ValueType::FuncRef => wasm_encoder::ValType::FuncRef,
        ValueType::ExternRef => wasm_encoder::ValType::ExternRef,
    }
}

/// `wasm_encoder::TypeSection::new` gives a section without types.
pub assume_specification[ wasm_encoder::TypeSection::new ]() -> (r: TypeSection)
    ensures
        type_section_holds(r, Seq::<FuncTypeView>::empty()),
;

/// `wasm_encoder::TypeSection::function` adds a function type behind the others. It writes the
/// numbers of parameters and of results, and counts the types, in 32 bits.
#[verifier::external_body]
fn push_type(section: &mut TypeSection, ty: &FuncType)
    requires
        ty@.params.len() <= u32::MAX,
        ty@.results.len() <= u32::MAX,
        exists|types: Seq<FuncTypeView>| #[trigger]
            type_section_holds(*old(section), types) && types.len() < u32::MAX,
    ensures
        forall|types: Seq<FuncTypeView>| #[trigger]
            type_section_holds(*old(section), types) ==> type_section_holds(
                *final(section),
                types.push(ty@),
            ),
{
    let params = ty.params.iter().copied().map(valtype);
    section.function(params, ty.results.iter().copied().map(valtype));
}

/// `wasm_encoder::ImportSection::new` gives a section without imports.
pub assume_specification[ wasm_encoder::ImportSection::new ]() -> (r: ImportSection)
    ensures
        import_section_holds(r, Seq::<ImportView>::empty()),
;

/// `wasm_encoder::ImportSection::import` adds an import behind the others. It writes the lengths
/// of both names, and counts the imports, in 32 bits.
#[verifier::external_body]
fn push_import(section: &mut ImportSection, import: &Import<'_>)
    requires
        encode_utf8(import.module@).len() <= u32::MAX,
        encode_utf8(import.name@).len() <= u32::MAX,
        exists|imports: Seq<ImportView>| #[trigger]
            import_section_holds(*old(section), imports) && imports.len() < u32::MAX,
    ensures
        forall|imports: Seq<ImportView>| #[trigger]
            import_section_holds(*old(section), imports) ==> import_section_holds(
                *final(section),
                imports.push(import@),
            ),
{
    section.import(import.module, import.name, match import.ty {
        EntityType::Function(index) => wasm_encoder::EntityType::Function(index),
        EntityType::Table(ty) => wasm_encoder::EntityType::Table(wasm_encoder::TableType {
            element_type: valtype(ty.element), minimum: ty.minimum, maximum: ty.maximum }),
        EntityType::Memory(ty) => wasm_encoder::EntityType::Memory(wasm_encoder::MemoryType {
            minimum: ty.minimum, maximum: ty.maximum, memory64: ty.memory64, shared: ty.shared }),
        EntityType::Global(ty) => wasm_encoder::EntityType::Global(wasm_encoder::GlobalType {
            val_type: valtype(ty.value), mutable: ty.mutable }),
        EntityType::Tag(func_type_idx) => wasm_encoder::EntityType::Tag(wasm_encoder::TagType {
            kind: wasm_encoder::TagKind::Exception, func_type_idx }),
    });
}

/// `wasm_encoder::FunctionSection::new` gives a section without functions.
pub assume_specification[ wasm_encoder::FunctionSection::new ]() -> (r: FunctionSection)
    ensures
        function_section_holds(r, Seq::<u32>::empty()),
;

/// `wasm_encoder::FunctionSection::function` adds a function of that type behind the others. It
/// counts the functions in 32 bits.
#[verifier::external_body]
fn push_function(section: &mut FunctionSection, ty: u32)
    requires
        exists|types: Seq<u32>| #[trigger]
            function_section_holds(*old(section), types) && types.len() < u32::MAX,
    ensures
        forall|types: Seq<u32>| #[trigger]
            function_section_holds(*old(section), types) ==> function_section_holds(
                *final(section),
                types.push(ty),
            ),
{
    section.function(ty);
}

/// `wasm_encoder::ConstExpr::ref_func` gives a constant expression that refers to a function.
pub assume_specification[ wasm_encoder::ConstExpr::ref_func ](func: u32) -> (r: ConstExpr)
    ensures
        expr_holds(r, InitExprView::RefFunc(func)),
;

/// `wasm_encoder::ConstExpr::raw` gives a constant expression made of encoded operators.
#[verifier::external_body]
fn raw_expr(bytes: &[u8]) -> (r: ConstExpr)
    ensures
        expr_holds(r, InitExprView::Raw(bytes@)),
{
    ConstExpr::raw(bytes.iter().copied())
}

/// `wasm_encoder::GlobalSection::new` gives a section without globals.
pub assume_specification[ wasm_encoder::GlobalSection::new ]() -> (r: GlobalSection)
    ensures
        global_section_holds(r, Seq::<GlobalView>::empty()),
;

/// `wasm_encoder::GlobalSection::global` adds a global behind the others. It counts the globals in
/// 32 bits.
#[verifier::external_body]
fn push_global(section: &mut GlobalSection, ty: GlobalType, init: &ConstExpr)
    requires
        exists|globals: Seq<GlobalView>| #[trigger]
            global_section_holds(*old(section), globals) && globals.len() < u32::MAX,
    ensures
        forall|globals: Seq<GlobalView>, value: InitExprView|
            #![trigger global_section_holds(*old(section), globals), expr_holds(*init, value)]
            global_section_holds(*old(section), globals) && expr_holds(*init, value)
                ==> global_section_holds(
                *final(section),
                globals.push(GlobalView { ty, init: value }),
            ),
{
    let (val_type, mutable) = (valtype(ty.value), ty.mutable);
    section.global(wasm_encoder::GlobalType { val_type, mutable }, init);
}

/// `wasm_encoder::ExportSection::new` gives a section without exports.
pub assume_specification[ wasm_encoder::ExportSection::new ]() -> (r: ExportSection)
    ensures
        export_section_holds(r, Seq::<ExportView>::empty()),
;

/// `wasm_encoder::ExportSection::export` adds an export behind the others. It writes the length of
/// the name, and counts the exports, in 32 bits.
#[verifier::external_body]
fn push_export(section: &mut ExportSection, export: &Export<'_>)
    requires
        encode_utf8(export.name@).len() <= u32::MAX,
        exists|exports: Seq<ExportView>| #[trigger]
            export_section_holds(*old(section), exports) && exports.len() < u32::MAX,
    ensures
        forall|exports: Seq<ExportView>| #[trigger]
            export_section_holds(*old(section), exports) ==> export_section_holds(
                *final(section),
                exports.push(export@),
            ),
{
    let kind = match export.kind {
        ExportKind::Func => wasm_encoder::ExportKind::Func,
        ExportKind::Table => wasm_encoder::ExportKind::Table,
        ExportKind::Memory => wasm_encoder::ExportKind::Memory,
        ExportKind::Global => wasm_encoder::ExportKind::Global,
        ExportKind::Tag => wasm_encoder::ExportKind::Tag,
    };
    section.export(export.name, kind, export.index);
}

/// Where an element segment goes, its offset ready to be written.
pub enum Place<'s> {
    Passive,
    Declared,
    Active(u32, &'s ConstExpr),
}

impl<'s> Place<'s> {
    /// That it is this place.
    pub open spec fn holds(self, mode: SegmentModeView) -> bool {
        match (self, mode) {
            (Place::Passive, SegmentModeView::Passive) => true,
            (Place::Declared, SegmentModeView::Declared) => true,
            (Place::Active(table, offset), SegmentModeView::Active(index, value)) => table == index
                && expr_holds(*offset, value),
            _ => false,
        }
    }
}

/// The elements of a segment, ready to be written.
pub enum Items<'s> {
    Functions(&'s Vec<u32>),
    Expressions(&'s Vec<ConstExpr>),
}

impl<'s> Items<'s> {
    /// How many elements there are.
    pub open spec fn count(self) -> nat {
        match self {
            Items::Functions(indices) => indices@.len(),
            Items::Expressions(exprs) => exprs@.len(),
        }
    }

    /// That they are these elements.
    pub open spec fn holds(self, items: SegmentItemsView) -> bool {
        match (self, items) {
            (Items::Functions(indices), SegmentItemsView::Functions(all)) => indices@ == all,
            (Items::Expressions(exprs), SegmentItemsView::Expressions(values)) => {
                &&& exprs@.len() == values.len()
                &&& forall|i: int|
                    0 <= i < values.len() ==> #[trigger] expr_holds(exprs@[i], values[i])
            },
            _ => false,
        }
    }
}

/// `wasm_encoder::ElementSection::new` gives a section without segments.
pub assume_specification[ wasm_encoder::ElementSection::new ]() -> (r: ElementSection)
    ensures
        element_section_holds(r, Seq::<SegmentView>::empty()),
;

/// `wasm_encoder::ElementSection::segment` adds a segment behind the others. It writes the number
/// of elements, and counts the segments, in 32 bits.
#[verifier::external_body]
fn push_segment(section: &mut ElementSection, mode: Place<'_>, ty: ValueType, items: Items<'_>)
    requires
        items.count() <= u32::MAX,
        exists|segments: Seq<SegmentView>| #[trigger]
            element_section_holds(*old(section), segments) && segments.len() < u32::MAX,
    ensures
        forall|segments: Seq<SegmentView>, place: SegmentModeView, elements: SegmentItemsView|
            #![trigger
                element_section_holds(*old(section), segments),
                mode.holds(place),
                items.holds(elements)
            ]
            element_section_holds(*old(section), segments) && mode.holds(place) && items.holds(
                elements,
            ) ==> element_section_holds(
                *final(section),
                segments.push(SegmentView { mode: place, ty, items: elements }),
            ),
{
    section.segment(wasm_encoder::ElementSegment {
        mode: match mode {
            Place::Passive => wasm_encoder::ElementMode::Passive,
            Place::Declared => wasm_encoder::ElementMode::Declared,
            Place::Active(i, offset) => {
                wasm_encoder::ElementMode::Active { table: Some(i), offset }
            }
        },
        element_type: valtype(ty),
        elements: match items {
            Items::Functions(indices) => wasm_encoder::Elements::Functions(indices),
            Items::Expressions(exprs) => wasm_encoder::Elements::Expressions(exprs),
        },
    });
}

/// `wasm_encoder::Function::new` gives a function body with these locals and no code. It writes
/// the number of the declarations in 32 bits.
#[verifier::external_body]
fn new_function(locals: Vec<(u32, wasm_encoder::ValType)>) -> (r: Function)
    requires
        locals@.len() <= u32::MAX,
    ensures
        function_holds(
            r,
            BodyView {
                locals: locals@.map_values(
                    |local: (u32, wasm_encoder::ValType)| (local.0, written_type(local.1)),
                ),
                code: Seq::empty(),
            },
        ),
{
    Function::new(locals)
}

/// `wasm_encoder::Function::instruction` adds an instruction to the code.
#[verifier::external_body]
fn push_instruction(function: &mut Function, instr: Instr)
    ensures
        forall|body: BodyView| #[trigger]
            function_holds(*old(function), body) ==> function_holds(
                *final(function),
                BodyView { code: body.code.push(CodeItemView::Instr(instr)), ..body },
            ),
{
    function.instruction(&match instr {
        Instr::Nop => Instruction::Nop,
        Instr::Block(BlockType::Empty) => Instruction::Block(wasm_encoder::BlockType::Empty),
        Instr::Block(BlockType::Result(ty)) =>
            Instruction::Block(wasm_encoder::BlockType::Result(valtype(ty))),
        Instr::Block(BlockType::FunctionType(index)) =>
            Instruction::Block(wasm_encoder::BlockType::FunctionType(index)),
        Instr::End => Instruction::End,
        Instr::Return => Instruction::Return,
        Instr::Call(index) => Instruction::Call(index),
        Instr::ReturnCall(index) => Instruction::ReturnCall(index),
        Instr::RefFunc(index) => Instruction::RefFunc(index),
        Instr::I64Const(value) => Instruction::I64Const(value),
    });
}

/// `wasm_encoder::Function::raw` adds encoded operators to the code.
#[verifier::external_body]
fn push_raw(function: &mut Function, bytes: &[u8])
    ensures
        forall|body: BodyView| #[trigger]
            function_holds(*old(function), body) ==> function_holds(
                *final(function),
                BodyView { code: body.code.push(CodeItemView::Raw(bytes@)), ..body },
            ),
{
    function.raw(bytes.iter().copied());
}

/// `wasm_encoder::CodeSection::new` gives a section without bodies.
pub assume_specification[ wasm_encoder::CodeSection::new ]() -> (r: CodeSection)
    ensures
        code_section_holds(r, Seq::<BodyView>::empty()),
;

/// `wasm_encoder::CodeSection::function` adds a body behind the others. It writes the size of the
/// body, and counts the bodies, in 32 bits.
#[verifier::external_body]
fn push_body(section: &mut CodeSection, function: &Function)
    requires
        exists|body: BodyView| #[trigger]
            function_holds(*function, body) && body.size() <= u32::MAX,
        exists|bodies: Seq<BodyView>| #[trigger]
            code_section_holds(*old(section), bodies) && bodies.len() < u32::MAX,
    ensures
        forall|bodies: Seq<BodyView>, body: BodyView|
            #![trigger code_section_holds(*old(section), bodies), function_holds(*function, body)]
            code_section_holds(*old(section), bodies) && function_holds(*function, body)
                ==> code_section_holds(*final(section), bodies.push(body)),
{
    section.function(function);
}

/// `wasm_encoder::NameMap::new` gives a map without names.
pub assume_specification[ wasm_encoder::NameMap::new ]() -> (r: NameMap)
    ensures
        name_map_holds(r, Seq::<NamingView>::empty()),
;

/// `wasm_encoder::NameMap::append` adds a name behind the others. It writes the length of the
/// name, and counts the names, in 32 bits.
pub assume_specification[ wasm_encoder::NameMap::append ](names: &mut NameMap, idx: u32, name: &str)
    requires
        encode_utf8(name@).len() <= u32::MAX,
        exists|all: Seq<NamingView>| #[trigger]
            name_map_holds(*old(names), all) && all.len() < u32::MAX,
    ensures
        forall|all: Seq<NamingView>| #[trigger]
            name_map_holds(*old(names), all) ==> name_map_holds(
                *final(names),
                all.push(NamingView { index: idx, name: name@ }),
            ),
;

/// `wasm_encoder::IndirectNameMap::new` gives a map without names.
pub assume_specification[ wasm_encoder::IndirectNameMap::new ]() -> (r: IndirectNameMap)
    ensures
        indirect_map_holds(r, Seq::<IndirectNamingView>::empty()),
;

/// `wasm_encoder::IndirectNameMap::append` adds a name map behind the others. It counts them in
/// 32 bits.
pub assume_specification[ wasm_encoder::IndirectNameMap::append ](
    map: &mut IndirectNameMap,
    idx: u32,
    names: &NameMap,
)
    requires
        exists|all: Seq<IndirectNamingView>| #[trigger]
            indirect_map_holds(*old(map), all) && all.len() < u32::MAX,
    ensures
        forall|all: Seq<IndirectNamingView>, inner: Seq<NamingView>|
            #![trigger indirect_map_holds(*old(map), all), name_map_holds(*names, inner)]
            indirect_map_holds(*old(map), all) && name_map_holds(*names, inner)
                ==> indirect_map_holds(
                *final(map),
                all.push(IndirectNamingView { index: idx, names: inner }),
            ),
;

/// `wasm_encoder::NameSection::new` gives a section without names.
pub assume_specification[ wasm_encoder::NameSection::new ]() -> (r: NameSection)
    ensures
        name_section_holds(r, Seq::<SubsectionView>::empty()),
;

/// `wasm_encoder::NameSection::module` adds the name of the module. It writes the length of the
/// name, and the size of the name with its length, in 32 bits.
pub assume_specification[ wasm_encoder::NameSection::module ](section: &mut NameSection, name: &str)
    requires
        str_size(name@) <= u32::MAX,
    ensures
        forall|all: Seq<SubsectionView>| #[trigger]
            name_section_holds(*old(section), all) ==> name_section_holds(
                *final(section),
                all.push(SubsectionView::Module(name@)),
            ),
;

/// `wasm_encoder::NameSection::functions` adds the names of functions. It writes the size of
/// the map in 32 bits.
pub assume_specification[ wasm_encoder::NameSection::functions ](
    section: &mut NameSection,
    names: &NameMap,
)
    requires
        exists|inner: Seq<NamingView>| #[trigger]
            name_map_holds(*names, inner) && name_map_size(inner) <= u32::MAX,
    ensures
        forall|all: Seq<SubsectionView>, inner: Seq<NamingView>|
            #![trigger name_section_holds(*old(section), all), name_map_holds(*names, inner)]
            name_section_holds(*old(section), all) && name_map_holds(*names, inner)
                ==> name_section_holds(
                *final(section),
                all.push(SubsectionView::Names(NameKind::Function, inner)),
            ),
;

/// `wasm_encoder::NameSection::types` adds the names of types. It writes the size of
/// the map in 32 bits.
pub assume_specification[ wasm_encoder::NameSection::types ](
    section: &mut NameSection,
    names: &NameMap,
)
    requires
        exists|inner: Seq<NamingView>| #[trigger]
            name_map_holds(*names, inner) && name_map_size(inner) <= u32::MAX,
    ensures
        forall|all: Seq<SubsectionView>, inner: Seq<NamingView>|
            #![trigger name_section_holds(*old(section), all), name_map_holds(*names, inner)]
            name_section_holds(*old(section), all) && name_map_holds(*names, inner)
                ==> name_section_holds(
                *final(section),
                all.push(SubsectionView::Names(NameKind::Type, inner)),
            ),
;

/// `wasm_encoder::NameSection::tables` adds the names of tables. It writes the size of
/// the map in 32 bits.
pub assume_specification[ wasm_encoder::NameSection::tables ](
    section: &mut NameSection,
    names: &NameMap,
)
    requires
        exists|inner: Seq<NamingView>| #[trigger]
            name_map_holds(*names, inner) && name_map_size(inner) <= u32::MAX,
    ensures
        forall|all: Seq<SubsectionView>, inner: Seq<NamingView>|
            #![trigger name_section_holds(*old(section), all), name_map_holds(*names, inner)]
            name_section_holds(*old(section), all) && name_map_holds(*names, inner)
                ==> name_section_holds(
                *final(section),
                all.push(SubsectionView::Names(NameKind::Table, inner)),
            ),
;

/// `wasm_encoder::NameSection::memories` adds the names of memories. It writes the size of
/// the map in 32 bits.
pub assume_specification[ wasm_encoder::NameSection::memories ](
    section: &mut NameSection,
    names: &NameMap,
)
    requires
        exists|inner: Seq<NamingView>| #[trigger]
            name_map_holds(*names, inner) && name_map_size(inner) <= u32::MAX,
    ensures
        forall|all: Seq<SubsectionView>, inner: Seq<NamingView>|
            #![trigger name_section_holds(*old(section), all), name_map_holds(*names, inner)]
            name_section_holds(*old(section), all) && name_map_holds(*names, inner)
                ==> name_section_holds(
                *final(section),
                all.push(SubsectionView::Names(NameKind::Memory, inner)),
            ),
;

/// `wasm_encoder::NameSection::globals` adds the names of globals. It writes the size of
/// the map in 32 bits.
pub assume_specification[ wasm_encoder::NameSection::globals ](
    section: &mut NameSection,
    names: &NameMap,
)
    requires
        exists|inner: Seq<NamingView>| #[trigger]
            name_map_holds(*names, inner) && name_map_size(inner) <= u32::MAX,
    ensures
        forall|all: Seq<SubsectionView>, inner: Seq<NamingView>|
            #![trigger name_section_holds(*old(section), all), name_map_holds(*names, inner)]
            name_section_holds(*old(section), all) && name_map_holds(*names, inner)
                ==> name_section_holds(
                *final(section),
                all.push(SubsectionView::Names(NameKind::Global, inner)),
            ),
;

/// `wasm_encoder::NameSection::elements` adds the names of element segments. It writes the size of
/// the map in 32 bits.
pub assume_specification[ wasm_encoder::NameSection::elements ](
    section: &mut NameSection,
    names: &NameMap,
)
    requires
        exists|inner: Seq<NamingView>| #[trigger]
            name_map_holds(*names, inner) && name_map_size(inner) <= u32::MAX,
    ensures
        forall|all: Seq<SubsectionView>, inner: Seq<NamingView>|
            #![trigger name_section_holds(*old(section), all), name_map_holds(*names, inner)]
            name_section_holds(*old(section), all) && name_map_holds(*names, inner)
                ==> name_section_holds(
                *final(section),
                all.push(SubsectionView::Names(NameKind::Element, inner)),
            ),
;

/// `wasm_encoder::NameSection::data` adds the names of data segments. It writes the size of
/// the map in 32 bits.
pub assume_specification[ wasm_encoder::NameSection::data ](
    section: &mut NameSection,
    names: &NameMap,
)
    requires
        exists|inner: Seq<NamingView>| #[trigger]
            name_map_holds(*names, inner) && name_map_size(inner) <= u32::MAX,
    ensures
        forall|all: Seq<SubsectionView>, inner: Seq<NamingView>|
            #![trigger name_section_holds(*old(section), all), name_map_holds(*names, inner)]
            name_section_holds(*old(section), all) && name_map_holds(*names, inner)
                ==> name_section_holds(
                *final(section),
                all.push(SubsectionView::Names(NameKind::Data, inner)),
            ),
;

/// `wasm_encoder::NameSection::locals` adds the names of locals. It writes the size of
/// the map in 32 bits.
pub assume_specification[ wasm_encoder::NameSection::locals ](
    section: &mut NameSection,
    names: &IndirectNameMap,
)
    requires
        exists|inner: Seq<IndirectNamingView>| #[trigger]
            indirect_map_holds(*names, inner) && indirect_map_size(inner) <= u32::MAX,
    ensures
        forall|all: Seq<SubsectionView>, inner: Seq<IndirectNamingView>|
            #![trigger name_section_holds(*old(section), all), indirect_map_holds(*names, inner)]
            name_section_holds(*old(section), all) && indirect_map_holds(*names, inner)
                ==> name_section_holds(
                *final(section),
                all.push(SubsectionView::Indirect(IndirectKind::Local, inner)),
            ),
;

/// `wasm_encoder::NameSection::labels` adds the names of labels. It writes the size of
/// the map in 32 bits.
pub assume_specification[ wasm_encoder::NameSection::labels ](
    section: &mut NameSection,
    names: &IndirectNameMap,
)
    requires
        exists|inner: Seq<IndirectNamingView>| #[trigger]
            indirect_map_holds(*names, inner) && indirect_map_size(inner) <= u32::MAX,
    ensures
        forall|all: Seq<SubsectionView>, inner: Seq<IndirectNamingView>|
            #![trigger name_section_holds(*old(section), all), indirect_map_holds(*names, inner)]
            name_section_holds(*old(section), all) && indirect_map_holds(*names, inner)
                ==> name_section_holds(
                *final(section),
                all.push(SubsectionView::Indirect(IndirectKind::Label, inner)),
            ),
;

/// The outcome of writing a section: nothing is written if its size cannot be told.
pub open spec fn section_written(
    before: Module,
    section: SectionView,
    after: Module,
    r: Result<(), Stop>,
) -> bool {
    if section.fits() {
        &&& r == Ok::<(), Stop>(())
        &&& forall|sections: Seq<SectionView>| #[trigger]
            module_holds(before, sections) ==> module_holds(after, sections.push(section))
    } else {
        r == Err::<(), Stop>(Stop::OutOfRange) && after == before
    }
}

/// The module that consists of these sections, if the size of each of them can be told.
pub open spec fn written(sections: Seq<SectionView>) -> Result<Seq<u8>, Stop> {
    if forall|i: int| 0 <= i < sections.len() ==> (#[trigger] sections[i]).fits() {
        Ok(wasm_module(sections))
    } else {
        Err(Stop::OutOfRange)
    }
}

/// A section that is ready to be written.
pub enum Encoded<'s> {
    Types(&'s TypeSection),
    Imports(&'s ImportSection),
    Functions(&'s FunctionSection),
    Globals(&'s GlobalSection),
    Exports(&'s ExportSection),
    Start(u32),
    Elements(&'s ElementSection),
    Code(&'s CodeSection),
    Names(&'s NameSection),
    Raw(u8, &'s [u8]),
}

impl<'s> Encoded<'s> {
    /// That it is this section.
    pub open spec fn holds(self, section: SectionView) -> bool {
        match (self, section) {
            (Encoded::Types(built), SectionView::Types(types)) => type_section_holds(*built, types),
            (Encoded::Imports(built), SectionView::Imports(imports)) => import_section_holds(
                *built,
                imports,
            ),
            (Encoded::Functions(built), SectionView::Functions(types)) => function_section_holds(
                *built,
                types,
            ),
            (Encoded::Globals(built), SectionView::Globals(globals)) => global_section_holds(
                *built,
                globals,
            ),
            (Encoded::Exports(built), SectionView::Exports(exports)) => export_section_holds(
                *built,
                exports,
            ),
            (Encoded::Start(index), SectionView::Start(start)) => index == start,
            (Encoded::Elements(built), SectionView::Elements(segments)) => element_section_holds(
                *built,
                segments,
            ),
            (Encoded::Code(built), SectionView::Code(bodies)) => code_section_holds(
                *built,
                bodies,
            ),
            (Encoded::Names(built), SectionView::Names(subsections)) => name_section_holds(
                *built,
                subsections,
            ),
            (Encoded::Raw(id, data), SectionView::Raw(raw)) => raw == (RawSectionView {
                id,
                data: data@,
            }),
            _ => false,
        }
    }
}

/// `wasm_encoder::Module::new` gives a module without sections.
pub assume_specification[ wasm_encoder::Module::new ]() -> (r: Module)
    ensures
        module_holds(r, Seq::<SectionView>::empty()),
;

/// `wasm_encoder::Module::section` adds a section behind the others. It writes the size of the
/// section in 32 bits.
#[verifier::external_body]
fn push_section(module: &mut Module, section: Encoded<'_>)
    requires
        exists|view: SectionView| #[trigger] section.holds(view) && view.fits(),
    ensures
        forall|sections: Seq<SectionView>, view: SectionView|
            #![trigger module_holds(*old(module), sections), section.holds(view)]
            module_holds(*old(module), sections) && section.holds(view) ==> module_holds(
                *final(module),
                sections.push(view),
            ),
{
    match section {
        Encoded::Types(section) => module.section(section),
        Encoded::Imports(section) => module.section(section),
        Encoded::Functions(section) => module.section(section),
        Encoded::Globals(section) => module.section(section),
        Encoded::Exports(section) => module.section(section),
        Encoded::Start(function_index) => module.section(&StartSection { function_index }),
        Encoded::Elements(section) => module.section(section),
        Encoded::Code(section) => module.section(section),
        Encoded::Names(section) => module.section(section),
        Encoded::Raw(id, data) => module.section(&wasm_encoder::RawSection { id, data }),
    };
}

/// `wasm_encoder::Module::finish` gives the bytes of the module. They depend on its sections alone.
pub assume_specification[ wasm_encoder::Module::finish ](module: Module) -> (r: Vec<u8>)
    ensures
        forall|sections: Seq<SectionView>| #[trigger]
            module_holds(module, sections) ==> r@ == wasm_module(sections),
;

/// Writes a type section.
pub(crate) fn write_types(module: &mut Module, types: &Vec<FuncType>) -> (r: Result<(), Stop>)
    ensures
        section_written(
            *old(module),
            SectionView::Types(views(types@)),
            *final(module),
            r,
        ),
{
    if types_size_of(types).is_overflowed() {
        return Err(Stop::OutOfRange);
    }
    let mut section = TypeSection::new();
    assert(views(types@).take(0) =~= Seq::empty());
    for i in 0..types.len()
        invariant
            SectionView::Types(views(types@)).fits(),
            type_section_holds(section, views(types@).take(i as int)),
    {
        proof {
            lemma_list_limits(views(types@), |ty: FuncTypeView| ty.size(), i as int);
        }
        assert(views(types@).take(i + 1) =~= views(types@).take(i as int).push(types@[i as int]@));
        push_type(&mut section, &types[i]);
    }
    assert(views(types@).take(types@.len() as int) =~= views(types@));
    let encoded = Encoded::Types(&section);
    assert(encoded.holds(SectionView::Types(views(types@))));
    push_section(module, encoded);
    Ok(())
}

/// Writes an import section.
pub(crate) fn write_imports(module: &mut Module, imports: &Vec<Import<'_>>) -> (r: Result<
    (),
    Stop,
>)
    ensures
        section_written(
            *old(module),
            SectionView::Imports(views(imports@)),
            *final(module),
            r,
        ),
{
    if imports_size_of(imports).is_overflowed() {
        return Err(Stop::OutOfRange);
    }
    let mut section = ImportSection::new();
    assert(views(imports@).take(0) =~= Seq::empty());
    for i in 0..imports.len()
        invariant
            SectionView::Imports(views(imports@)).fits(),
            import_section_holds(section, views(imports@).take(i as int)),
    {
        proof {
            lemma_list_limits(views(imports@), |import: ImportView| import.size(), i as int);
        }
        assert(views(imports@).take(i + 1) =~= views(imports@).take(i as int).push(
            imports@[i as int]@,
        ));
        push_import(&mut section, &imports[i]);
    }
    assert(views(imports@).take(imports@.len() as int) =~= views(imports@));
    let encoded = Encoded::Imports(&section);
    assert(encoded.holds(SectionView::Imports(views(imports@))));
    push_section(module, encoded);
    Ok(())
}

/// Writes an export section.
pub(crate) fn write_exports(module: &mut Module, exports: &Vec<Export<'_>>) -> (r: Result<(), Stop>)
    ensures
        section_written(
            *old(module),
            SectionView::Exports(views(exports@)),
            *final(module),
            r,
        ),
{
    if exports_size_of(exports).is_overflowed() {
        return Err(Stop::OutOfRange);
    }
    let mut section = ExportSection::new();
    assert(views(exports@).take(0) =~= Seq::empty());
    for i in 0..exports.len()
        invariant
            SectionView::Exports(views(exports@)).fits(),
            export_section_holds(section, views(exports@).take(i as int)),
    {
        proof {
            lemma_list_limits(views(exports@), |export: ExportView| export.size(), i as int);
        }
        assert(views(exports@).take(i + 1) =~= views(exports@).take(i as int).push(
            exports@[i as int]@,
        ));
        push_export(&mut section, &exports[i]);
    }
    assert(views(exports@).take(exports@.len() as int) =~= views(exports@));
    let encoded = Encoded::Exports(&section);
    assert(encoded.holds(SectionView::Exports(views(exports@))));
    push_section(module, encoded);
    Ok(())
}

/// Gets a constant expression ready to be written.
fn encoded_expr(expr: &InitExpr<'_>) -> (r: ConstExpr)
    ensures
        expr_holds(r, expr@),
{
    match expr {
        InitExpr::RefFunc(index) => ConstExpr::ref_func(*index),
        InitExpr::Raw(bytes) => raw_expr(bytes),
    }
}

/// Writes a global section.
pub(crate) fn write_globals(module: &mut Module, globals: &Vec<Global<'_>>) -> (r: Result<(), Stop>)
    ensures
        section_written(
            *old(module),
            SectionView::Globals(views(globals@)),
            *final(module),
            r,
        ),
{
    if globals_size_of(globals).is_overflowed() {
        return Err(Stop::OutOfRange);
    }
    let mut section = GlobalSection::new();
    assert(views(globals@).take(0) =~= Seq::empty());
    for i in 0..globals.len()
        invariant
            SectionView::Globals(views(globals@)).fits(),
            global_section_holds(section, views(globals@).take(i as int)),
    {
        proof {
            lemma_list_limits(views(globals@), |global: GlobalView| global.size(), i as int);
        }
        assert(views(globals@).take(i + 1) =~= views(globals@).take(i as int).push(
            globals@[i as int]@,
        ));
        let init = encoded_expr(&globals[i].init);
        push_global(&mut section, globals[i].ty, &init);
    }
    assert(views(globals@).take(globals@.len() as int) =~= views(globals@));
    let encoded = Encoded::Globals(&section);
    assert(encoded.holds(SectionView::Globals(views(globals@))));
    push_section(module, encoded);
    Ok(())
}

/// Writes a function section.
pub(crate) fn write_functions(module: &mut Module, types: &Vec<u32>) -> (r: Result<(), Stop>)
    ensures
        section_written(
            *old(module),
            SectionView::Functions(types@),
            *final(module),
            r,
        ),
{
    if functions_size_of(types).is_overflowed() {
        return Err(Stop::OutOfRange);
    }
    let mut section = FunctionSection::new();
    assert(types@.take(0) =~= Seq::empty());
    for i in 0..types.len()
        invariant
            SectionView::Functions(types@).fits(),
            function_section_holds(section, types@.take(i as int)),
    {
        proof {
            lemma_list_limits(types@, |index: u32| leb_size(index as nat), i as int);
        }
        assert(types@.take(i + 1) =~= types@.take(i as int).push(types@[i as int]));
        push_function(&mut section, types[i]);
    }
    assert(types@.take(types@.len() as int) =~= types@);
    let encoded = Encoded::Functions(&section);
    assert(encoded.holds(SectionView::Functions(types@)));
    push_section(module, encoded);
    Ok(())
}

/// Gets constant expressions ready to be written.
fn encoded_exprs(exprs: &Vec<InitExpr<'_>>) -> (r: Vec<ConstExpr>)
    ensures
        r@.len() == exprs@.len(),
        forall|i: int| 0 <= i < exprs@.len() ==> #[trigger] expr_holds(r@[i], views(exprs@)[i]),
{
    let mut r: Vec<ConstExpr> = Vec::new();
    for i in 0..exprs.len()
        invariant
            r@.len() == i,
            forall|j: int| 0 <= j < i ==> #[trigger] expr_holds(r@[j], views(exprs@)[j]),
    {
        r.push(encoded_expr(&exprs[i]));
    }
    r
}

/// Adds a segment that goes to `mode` to an element section.
fn write_segment_at(section: &mut ElementSection, mode: Place<'_>, segment: &Segment<'_>)
    requires
        segment@.size() <= u32::MAX,
        mode.holds(segment@.mode),
        exists|segments: Seq<SegmentView>| #[trigger]
            element_section_holds(*old(section), segments) && segments.len() < u32::MAX,
    ensures
        forall|segments: Seq<SegmentView>| #[trigger]
            element_section_holds(*old(section), segments) ==> element_section_holds(
                *final(section),
                segments.push(segment@),
            ),
{
    match &segment.items {
        SegmentItems::Functions(indices) => {
            proof {
                lemma_count(indices@, |index: u32| leb_size(index as nat));
            }
            let items = Items::Functions(indices);
            assert(items.holds(segment@.items));
            push_segment(section, mode, segment.ty, items);
        },
        SegmentItems::Expressions(exprs) => {
            let encoded = encoded_exprs(exprs);
            proof {
                lemma_count(views(exprs@), |expr: InitExprView| expr.size());
            }
            let items = Items::Expressions(&encoded);
            assert(items.holds(segment@.items));
            push_segment(section, mode, segment.ty, items);
        },
    }
}

/// Adds a segment to an element section.
fn write_segment(section: &mut ElementSection, segment: &Segment<'_>)
    requires
        segment@.size() <= u32::MAX,
        exists|segments: Seq<SegmentView>| #[trigger]
            element_section_holds(*old(section), segments) && segments.len() < u32::MAX,
    ensures
        forall|segments: Seq<SegmentView>| #[trigger]
            element_section_holds(*old(section), segments) ==> element_section_holds(
                *final(section),
                segments.push(segment@),
            ),
{
    match &segment.mode {
        SegmentMode::Passive => write_segment_at(section, Place::Passive, segment),
        SegmentMode::Declared => write_segment_at(section, Place::Declared, segment),
        SegmentMode::Active(table, offset) => {
            let offset = encoded_expr(offset);
            let mode = Place::Active(*table, &offset);
            assert(mode.holds(segment@.mode));
            write_segment_at(section, mode, segment);
        },
    }
}

/// Writes an element section.
pub(crate) fn write_elements(module: &mut Module, segments: &Vec<Segment<'_>>) -> (r: Result<
    (),
    Stop,
>)
    ensures
        section_written(
            *old(module),
            SectionView::Elements(views(segments@)),
            *final(module),
            r,
        ),
{
    if elements_size_of(segments).is_overflowed() {
        return Err(Stop::OutOfRange);
    }
    let mut section = ElementSection::new();
    assert(views(segments@).take(0) =~= Seq::empty());
    for i in 0..segments.len()
        invariant
            SectionView::Elements(views(segments@)).fits(),
            element_section_holds(section, views(segments@).take(i as int)),
    {
        proof {
            lemma_list_limits(
                views(segments@),
                |segment: SegmentView| segment.size(),
                i as int,
            );
        }
        assert(views(segments@).take(i + 1) =~= views(segments@).take(i as int).push(
            segments@[i as int]@,
        ));
        write_segment(&mut section, &segments[i]);
    }
    assert(views(segments@).take(segments@.len() as int) =~= views(segments@));
    let encoded = Encoded::Elements(&section);
    assert(encoded.holds(SectionView::Elements(views(segments@))));
    push_section(module, encoded);
    Ok(())
}

/// Gets locals ready to be written.
fn encoded_locals(locals: &Vec<(u32, ValueType)>) -> (r: Vec<(u32, wasm_encoder::ValType)>)
    ensures
        r@.map_values(
            |local: (u32, wasm_encoder::ValType)| (local.0, written_type(local.1)),
        ) == locals@,
{
    let mut r: Vec<(u32, wasm_encoder::ValType)> = Vec::new();
    for i in 0..locals.len()
        invariant
            r@.len() == i,
            forall|j: int|
                0 <= j < i ==> (#[trigger] r@[j].0, written_type(r@[j].1)) == locals@[j],
    {
        r.push((locals[i].0, valtype(locals[i].1)));
    }
    r
}

/// Gets a function body ready to be written.
fn encoded_body(body: &Body<'_>) -> (r: Function)
    requires
        body@.size() <= u32::MAX,
    ensures
        function_holds(r, body@),
{
    let locals = encoded_locals(&body.locals);
    proof {
        lemma_count(body.locals@, |local: (u32, ValueType)| leb_size(local.0 as nat) + 1);
        assert(locals@.len() == locals@.map_values(
            |local: (u32, wasm_encoder::ValType)| (local.0, written_type(local.1)),
        ).len());
    }
    let mut function = new_function(locals);
    assert(body@.code.take(0) =~= Seq::empty());
    for i in 0..body.code.len()
        invariant
            function_holds(
                function,
                BodyView { locals: body@.locals, code: body@.code.take(i as int) },
            ),
    {
        assert(body@.code.take(i + 1) =~= body@.code.take(i as int).push(body.code@[i as int]@));
        match &body.code[i] {
            CodeItem::Instr(instr) => push_instruction(&mut function, *instr),
            CodeItem::Raw(bytes) => push_raw(&mut function, bytes),
        }
    }
    assert(body@.code.take(body.code@.len() as int) =~= body@.code);
    function
}

/// Writes a code section.
pub(crate) fn write_code(module: &mut Module, bodies: &Vec<Body<'_>>) -> (r: Result<(), Stop>)
    ensures
        section_written(
            *old(module),
            SectionView::Code(views(bodies@)),
            *final(module),
            r,
        ),
{
    if code_size_of(bodies).is_overflowed() {
        return Err(Stop::OutOfRange);
    }
    let mut section = CodeSection::new();
    assert(views(bodies@).take(0) =~= Seq::empty());
    for i in 0..bodies.len()
        invariant
            SectionView::Code(views(bodies@)).fits(),
            code_section_holds(section, views(bodies@).take(i as int)),
    {
        proof {
            lemma_list_limits(
                views(bodies@),
                |body: BodyView| framed(body.size()),
                i as int,
            );
        }
        assert(views(bodies@).take(i + 1) =~= views(bodies@).take(i as int).push(
            bodies@[i as int]@,
        ));
        let function = encoded_body(&bodies[i]);
        push_body(&mut section, &function);
    }
    assert(views(bodies@).take(bodies@.len() as int) =~= views(bodies@));
    let encoded = Encoded::Code(&section);
    assert(encoded.holds(SectionView::Code(views(bodies@))));
    push_section(module, encoded);
    Ok(())
}

/// Gets a name map ready to be written.
fn encoded_names(names: &Vec<Naming<'_>>) -> (r: NameMap)
    requires
        name_map_size(views(names@)) <= u32::MAX,
    ensures
        name_map_holds(r, views(names@)),
{
    let mut map = NameMap::new();
    assert(views(names@).take(0) =~= Seq::empty());
    for i in 0..names.len()
        invariant
            name_map_size(views(names@)) <= u32::MAX,
            name_map_holds(map, views(names@).take(i as int)),
    {
        proof {
            lemma_list_limits(views(names@), |naming: NamingView| naming.size(), i as int);
        }
        assert(views(names@).take(i + 1) =~= views(names@).take(i as int).push(
            names@[i as int]@,
        ));
        map.append(names[i].index, names[i].name);
    }
    assert(views(names@).take(names@.len() as int) =~= views(names@));
    map
}

/// Gets an indirect name map ready to be written.
fn encoded_indirect_names(names: &Vec<IndirectNaming<'_>>) -> (r: IndirectNameMap)
    requires
        indirect_map_size(views(names@)) <= u32::MAX,
    ensures
        indirect_map_holds(r, views(names@)),
{
    let mut map = IndirectNameMap::new();
    assert(views(names@).take(0) =~= Seq::empty());
    for i in 0..names.len()
        invariant
            indirect_map_size(views(names@)) <= u32::MAX,
            indirect_map_holds(map, views(names@).take(i as int)),
    {
        proof {
            lemma_list_limits(views(names@), |naming: IndirectNamingView| naming.size(), i as int);
        }
        assert(views(names@).take(i + 1) =~= views(names@).take(i as int).push(
            names@[i as int]@,
        ));
        map.append(names[i].index, &encoded_names(&names[i].names));
    }
    assert(views(names@).take(names@.len() as int) =~= views(names@));
    map
}

/// Adds a subsection to a name section.
fn write_subsection(section: &mut NameSection, subsection: &Subsection<'_>)
    requires
        subsection@.size() <= u32::MAX,
    ensures
        forall|all: Seq<SubsectionView>| #[trigger]
            name_section_holds(*old(section), all) ==> name_section_holds(
                *final(section),
                all.push(subsection@),
            ),
{
    match subsection {
        Subsection::Module(name) => section.module(name),
        Subsection::Names(kind, names) => {
            let names = encoded_names(names);
            match kind {
                NameKind::Function => section.functions(&names),
                NameKind::Type => section.types(&names),
                NameKind::Table => section.tables(&names),
                NameKind::Memory => section.memories(&names),
                NameKind::Global => section.globals(&names),
                NameKind::Element => section.elements(&names),
                NameKind::Data => section.data(&names),
            }
        },
        Subsection::Indirect(kind, names) => {
            let names = encoded_indirect_names(names);
            match kind {
                IndirectKind::Local => section.locals(&names),
                IndirectKind::Label => section.labels(&names),
            }
        },
    }
}

/// Writes a name section.
pub(crate) fn write_names(module: &mut Module, subsections: &Vec<Subsection<'_>>) -> (r: Result<
    (),
    Stop,
>)
    ensures
        section_written(
            *old(module),
            SectionView::Names(views(subsections@)),
            *final(module),
            r,
        ),
{
    if names_size_of(subsections).is_overflowed() {
        return Err(Stop::OutOfRange);
    }
    let mut section = NameSection::new();
    assert(views(subsections@).take(0) =~= Seq::empty());
    for i in 0..subsections.len()
        invariant
            SectionView::Names(views(subsections@)).fits(),
            name_section_holds(section, views(subsections@).take(i as int)),
    {
        proof {
            lemma_part(
                views(subsections@),
                |subsection: SubsectionView| subsection.size(),
                i as int,
            );
        }
        assert(views(subsections@).take(i + 1) =~= views(subsections@).take(i as int).push(
            subsections@[i as int]@,
        ));
        write_subsection(&mut section, &subsections[i]);
    }
    assert(views(subsections@).take(subsections@.len() as int) =~= views(subsections@));
    let encoded = Encoded::Names(&section);
    assert(encoded.holds(SectionView::Names(views(subsections@))));
    push_section(module, encoded);
    Ok(())
}

/// Writes a start section.
pub(crate) fn write_start(module: &mut Module, index: u32) -> (r: Result<(), Stop>)
    ensures
        section_written(
            *old(module),
            SectionView::Start(index),
            *final(module),
            r,
        ),
{
    proof {
        lemma_leb_size(index as nat);
    }
    let encoded = Encoded::Start(index);
    assert(encoded.holds(SectionView::Start(index)));
    push_section(module, encoded);
    Ok(())
}

/// Writes a copied section.
pub(crate) fn write_raw(module: &mut Module, raw: &RawSection<'_>) -> (r: Result<(), Stop>)
    ensures
        section_written(
            *old(module),
            SectionView::Raw(raw@),
            *final(module),
            r,
        ),
{
    if raw.data.len() > u32::MAX as usize {
        return Err(Stop::OutOfRange);
    }
    let encoded = Encoded::Raw(raw.id, raw.data);
    assert(encoded.holds(SectionView::Raw(raw@)));
    push_section(module, encoded);
    Ok(())
}

} // verus!
