//! Plain descriptions of the parts of a WebAssembly module.
//!
//! The first half describes what is read out of a module: pieces that are not needed in full are
//! left as byte ranges of the module. The second half describes what is written into the
//! instrumented module; each of those types has a view made of sequences.
use std::ops::Range;
use vstd::prelude::*;

verus! {

/// The type of a WebAssembly value.
#[derive(Clone, Copy, Debug, PartialEq, Eq, Structural)]
pub enum ValueType {
    I32,
    I64,
    F32,
    F64,
    V128,
    FuncRef,
    ExternRef,
}

/// The type of a global.
#[derive(Clone, Copy, Debug, PartialEq, Eq, Structural)]
pub struct GlobalType {
    pub value: ValueType,
    pub mutable: bool,
}

/// The type of a table, its size in elements.
#[derive(Clone, Copy, Debug, PartialEq, Eq)]
pub struct TableType {
    pub element: ValueType,
    pub minimum: u32,
    pub maximum: Option<u32>,
}

/// The type of a memory, its size in pages.
#[derive(Clone, Copy, Debug, PartialEq, Eq)]
pub struct MemoryType {
    pub minimum: u64,
    pub maximum: Option<u64>,
    pub memory64: bool,
    pub shared: bool,
}

/// What an import stands for.
#[derive(Clone, Copy, Debug, PartialEq, Eq)]
pub enum EntityType {
    /// A function; the value is an index into the type section.
    Function(u32),
    Table(TableType),
    Memory(MemoryType),
    Global(GlobalType),
    /// An exception tag; the value is an index into the type section.
    Tag(u32),
}

/// What an export makes available.
#[derive(Clone, Copy, Debug, PartialEq, Eq, Structural)]
pub enum ExportKind {
    Func,
    Table,
    Memory,
    Global,
    Tag,
}

/// A piece of a module, in the order in which the module holds them.
#[derive(Debug)]
pub enum Payload<'a> {
    /// The header of the module.
    Header,
    /// The end of the module.
    Finish,
    /// The contents of a type section.
    Types(Range<usize>),
    /// The contents of an import section.
    Imports(Range<usize>),
    /// A start section, with the index of the start function.
    Start(u32),
    /// The contents of an element section.
    Elements(Range<usize>),
    /// The contents of a function section.
    Functions(Range<usize>),
    /// The beginning of a code section.
    CodeStart,
    /// The body of a function.
    Code(Range<usize>),
    /// The contents of an export section.
    Exports(Range<usize>),
    /// The contents of a global section.
    Globals(Range<usize>),
    /// A custom section: its name, where its data begins, and its contents.
    Custom(&'a str, usize, Range<usize>),
    /// Anything else, with the identifier and the contents of the section if it is one.
    Other(Option<(u8, Range<usize>)>),
}

/// A global as it is read: its initial value is a constant expression.
#[derive(Debug)]
pub struct GlobalEntry {
    pub ty: GlobalType,
    pub init: Range<usize>,
}

/// Where an element segment goes, as it is read.
#[derive(Debug)]
pub enum EntryMode {
    Passive,
    Declared,
    Active(u32, Range<usize>),
}

/// The elements of a segment, as they are read.
#[derive(Debug)]
pub enum EntryItems {
    /// A list of function indices.
    Functions(Range<usize>),
    /// A list of constant expressions.
    Expressions(Range<usize>),
}

/// An element segment as it is read.
#[derive(Debug)]
pub struct ElementEntry {
    pub mode: EntryMode,
    pub ty: ValueType,
    pub items: EntryItems,
}

/// The index spaces that a flat name map can name.
#[derive(Clone, Copy, Debug, PartialEq, Eq, Structural)]
pub enum NameKind {
    Function,
    Type,
    Table,
    Memory,
    Global,
    Element,
    Data,
}

/// The index spaces, one for each function, that an indirect name map can name.
#[derive(Clone, Copy, Debug, PartialEq, Eq, Structural)]
pub enum IndirectKind {
    Local,
    Label,
}

/// A subsection of the name section, as it is read.
#[derive(Debug)]
pub enum NameEntry<'a> {
    /// The name of the module.
    ModuleName(&'a str),
    FunctionNames(Range<usize>),
    LocalNames(Range<usize>),
    LabelNames(Range<usize>),
    TypeNames(Range<usize>),
    TableNames(Range<usize>),
    MemoryNames(Range<usize>),
    GlobalNames(Range<usize>),
    ElementNames(Range<usize>),
    DataNames(Range<usize>),
    /// A subsection that is not understood.
    UnknownNames,
}

/// An operator, as far as the instrumentation tells them apart.
#[derive(Clone, Copy, Debug, PartialEq, Eq, Structural)]
pub enum Op {
    RefFunc(u32),
    Call(u32),
    ReturnCall(u32),
    ReturnCallIndirect,
    Return,
    End,
    Other,
}

/// An operator and the position of its first byte in the module.
#[derive(Clone, Copy, Debug, PartialEq, Eq, Structural)]
pub struct Operator {
    pub op: Op,
    pub offset: usize,
}

/// The type of a function.
#[derive(Debug)]
pub struct FuncType {
    pub params: Vec<ValueType>,
    pub results: Vec<ValueType>,
}

/// An import: where it comes from and what it is.
#[derive(Clone, Copy, Debug)]
pub struct Import<'a> {
    pub module: &'a str,
    pub name: &'a str,
    pub ty: EntityType,
}

/// An export: what is exported and under which name.
#[derive(Clone, Copy, Debug)]
pub struct Export<'a> {
    pub name: &'a str,
    pub kind: ExportKind,
    pub index: u32,
}

/// A constant expression, without the `end` that closes it.
#[derive(Clone, Copy, Debug)]
pub enum InitExpr<'a> {
    /// A reference to a function.
    RefFunc(u32),
    /// Encoded operators.
    Raw(&'a [u8]),
}

/// A global.
#[derive(Clone, Copy, Debug)]
pub struct Global<'a> {
    pub ty: GlobalType,
    pub init: InitExpr<'a>,
}

/// Where an element segment goes.
#[derive(Clone, Copy, Debug)]
pub enum SegmentMode<'a> {
    Passive,
    Declared,
    /// Into the table of that index, at that offset.
    Active(u32, InitExpr<'a>),
}

/// The elements of a segment.
#[derive(Debug)]
pub enum SegmentItems<'a> {
    Functions(Vec<u32>),
    Expressions(Vec<InitExpr<'a>>),
}

/// An element segment.
#[derive(Debug)]
pub struct Segment<'a> {
    pub mode: SegmentMode<'a>,
    pub ty: ValueType,
    pub items: SegmentItems<'a>,
}

/// The name of the item of that index.
#[derive(Clone, Copy, Debug)]
pub struct Naming<'a> {
    pub index: u32,
    pub name: &'a str,
}

/// The names within the function of that index.
#[derive(Debug)]
pub struct IndirectNaming<'a> {
    pub index: u32,
    pub names: Vec<Naming<'a>>,
}

/// A subsection of the name section.
#[derive(Debug)]
pub enum Subsection<'a> {
    Module(&'a str),
    Names(NameKind, Vec<Naming<'a>>),
    Indirect(IndirectKind, Vec<IndirectNaming<'a>>),
}

/// The type of a block.
#[derive(Clone, Copy, Debug, PartialEq, Eq, Structural)]
pub enum BlockType {
    /// Nothing in, nothing out.
    Empty,
    /// Nothing in, one value out.
    Result(ValueType),
    /// As the function type of that index.
    FunctionType(u32),
}

/// The instructions that the instrumentation writes.
#[derive(Clone, Copy, Debug, PartialEq, Eq, Structural)]
pub enum Instr {
    Nop,
    Block(BlockType),
    End,
    Return,
    Call(u32),
    ReturnCall(u32),
    RefFunc(u32),
    I64Const(i64),
}

/// A stretch of a function body.
#[derive(Clone, Copy, Debug)]
pub enum CodeItem<'a> {
    Instr(Instr),
    /// Encoded operators.
    Raw(&'a [u8]),
}

/// A function body: how many locals there are of which type, and the code.
#[derive(Debug)]
pub struct Body<'a> {
    pub locals: Vec<(u32, ValueType)>,
    pub code: Vec<CodeItem<'a>>,
}

/// A section that is copied or, by its identifier, stands for one that is written anew.
#[derive(Clone, Copy, Debug)]
pub struct RawSection<'a> {
    pub id: u8,
    pub data: &'a [u8],
}

impl View for ValueType {
    type V = ValueType;

    open spec fn view(&self) -> ValueType {
        *self
    }
}

#[verifier::ext_equal]
pub struct FuncTypeView {
    pub params: Seq<ValueType>,
    pub results: Seq<ValueType>,
}

impl View for FuncType {
    type V = FuncTypeView;

    open spec fn view(&self) -> FuncTypeView {
        FuncTypeView { params: self.params@, results: self.results@ }
    }
}

#[verifier::ext_equal]
pub struct ImportView {
    pub module: Seq<char>,
    pub name: Seq<char>,
    pub ty: EntityType,
}

impl<'a> View for Import<'a> {
    type V = ImportView;

    open spec fn view(&self) -> ImportView {
        ImportView { module: self.module@, name: self.name@, ty: self.ty }
    }
}

#[verifier::ext_equal]
pub struct ExportView {
    pub name: Seq<char>,
    pub kind: ExportKind,
    pub index: u32,
}

impl<'a> View for Export<'a> {
    type V = ExportView;

    open spec fn view(&self) -> ExportView {
        ExportView { name: self.name@, kind: self.kind, index: self.index }
    }
}

#[verifier::ext_equal]
pub enum InitExprView {
    RefFunc(u32),
    Raw(Seq<u8>),
}

impl<'a> View for InitExpr<'a> {
    type V = InitExprView;

    open spec fn view(&self) -> InitExprView {
        match *self {
            InitExpr::RefFunc(index) => InitExprView::RefFunc(index),
            InitExpr::Raw(bytes) => InitExprView::Raw(bytes@),
        }
    }
}

#[verifier::ext_equal]
pub struct GlobalView {
    pub ty: GlobalType,
    pub init: InitExprView,
}

impl<'a> View for Global<'a> {
    type V = GlobalView;

    open spec fn view(&self) -> GlobalView {
        GlobalView { ty: self.ty, init: self.init@ }
    }
}

#[verifier::ext_equal]
pub enum SegmentModeView {
    Passive,
    Declared,
    Active(u32, InitExprView),
}

impl<'a> View for SegmentMode<'a> {
    type V = SegmentModeView;

    open spec fn view(&self) -> SegmentModeView {
        match *self {
            SegmentMode::Passive => SegmentModeView::Passive,
            SegmentMode::Declared => SegmentModeView::Declared,
            SegmentMode::Active(table, offset) => SegmentModeView::Active(table, offset@),
        }
    }
}

#[verifier::ext_equal]
pub enum SegmentItemsView {
    Functions(Seq<u32>),
    Expressions(Seq<InitExprView>),
}

impl<'a> View for SegmentItems<'a> {
    type V = SegmentItemsView;

    open spec fn view(&self) -> SegmentItemsView {
        match *self {
            SegmentItems::Functions(indices) => SegmentItemsView::Functions(indices@),
            SegmentItems::Expressions(exprs) => SegmentItemsView::Expressions(views(exprs@)),
        }
    }
}

#[verifier::ext_equal]
pub struct SegmentView {
    pub mode: SegmentModeView,
    pub ty: ValueType,
    pub items: SegmentItemsView,
}

impl<'a> View for Segment<'a> {
    type V = SegmentView;

    open spec fn view(&self) -> SegmentView {
        SegmentView { mode: self.mode@, ty: self.ty, items: self.items@ }
    }
}

#[verifier::ext_equal]
pub struct NamingView {
    pub index: u32,
    pub name: Seq<char>,
}

impl<'a> View for Naming<'a> {
    type V = NamingView;

    open spec fn view(&self) -> NamingView {
        NamingView { index: self.index, name: self.name@ }
    }
}

#[verifier::ext_equal]
pub struct IndirectNamingView {
    pub index: u32,
    pub names: Seq<NamingView>,
}

impl<'a> View for IndirectNaming<'a> {
    type V = IndirectNamingView;

    open spec fn view(&self) -> IndirectNamingView {
        IndirectNamingView { index: self.index, names: views(self.names@) }
    }
}

#[verifier::ext_equal]
pub enum SubsectionView {
    Module(Seq<char>),
    Names(NameKind, Seq<NamingView>),
    Indirect(IndirectKind, Seq<IndirectNamingView>),
}

impl<'a> View for Subsection<'a> {
    type V = SubsectionView;

    open spec fn view(&self) -> SubsectionView {
        match *self {
            Subsection::Module(name) => SubsectionView::Module(name@),
            Subsection::Names(kind, names) => SubsectionView::Names(kind, views(names@)),
            Subsection::Indirect(kind, names) => SubsectionView::Indirect(kind, views(names@)),
        }
    }
}

#[verifier::ext_equal]
pub enum CodeItemView {
    Instr(Instr),
    Raw(Seq<u8>),
}

impl<'a> View for CodeItem<'a> {
    type V = CodeItemView;

    open spec fn view(&self) -> CodeItemView {
        match *self {
            CodeItem::Instr(instr) => CodeItemView::Instr(instr),
            CodeItem::Raw(bytes) => CodeItemView::Raw(bytes@),
        }
    }
}

#[verifier::ext_equal]
pub struct BodyView {
    pub locals: Seq<(u32, ValueType)>,
    pub code: Seq<CodeItemView>,
}

impl<'a> View for Body<'a> {
    type V = BodyView;

    open spec fn view(&self) -> BodyView {
        BodyView { locals: self.locals@, code: views(self.code@) }
    }
}

#[verifier::ext_equal]
pub struct RawSectionView {
    pub id: u8,
    pub data: Seq<u8>,
}

impl<'a> View for RawSection<'a> {
    type V = RawSectionView;

    open spec fn view(&self) -> RawSectionView {
        RawSectionView { id: self.id, data: self.data@ }
    }
}

/// A section of the module that is written.
#[verifier::ext_equal]
pub enum SectionView {
    Types(Seq<FuncTypeView>),
    Imports(Seq<ImportView>),
    Functions(Seq<u32>),
    Globals(Seq<GlobalView>),
    Exports(Seq<ExportView>),
    Start(u32),
    Elements(Seq<SegmentView>),
    Code(Seq<BodyView>),
    Names(Seq<SubsectionView>),
    Raw(RawSectionView),
}

/// The views of the items of a sequence.
pub open spec fn views<T: View>(items: Seq<T>) -> Seq<T::V> {
    items.map_values(|item: T| item@)
}

/// The views of what was read, errors as they are.
pub open spec fn read_views<T: View, E>(items: Seq<Result<T, E>>) -> Seq<Result<T::V, E>> {
    items.map_values(|item: Result<T, E>| result_view(item))
}

/// The view of what was handled, or the reason to stop.
pub open spec fn result_view<T: View, E>(r: Result<T, E>) -> Result<T::V, E> {
    match r {
        Ok(value) => Ok(value@),
        Err(error) => Err(error),
    }
}

/// One more item has one more view.
pub broadcast proof fn lemma_views_push<T: View>(items: Seq<T>, item: T)
    ensures
        #[trigger] views(items.push(item)) == views(items).push(item@),
{
    assert(views(items.push(item)) =~= views(items).push(item@));
}

/// The views of two lists together are those of the one and those of the other.
pub broadcast proof fn lemma_views_add<T: View>(left: Seq<T>, right: Seq<T>)
    ensures
        #[trigger] views(left + right) == views(left) + views(right),
{
    assert(views(left + right) =~= views(left) + views(right));
}

/// The bytes of the module that a range covers, where it lies within the module.
pub open spec fn bytes_at(wasm: Seq<u8>, range: Range<usize>) -> Option<Seq<u8>> {
    if range.start <= range.end <= wasm.len() {
        Some(wasm.subrange(range.start as int, range.end as int))
    } else {
        None
    }
}

/// The bytes of `wasm` that `range` covers, or `None` where it does not lie within `wasm`.
pub fn slice_at<'a>(wasm: &'a [u8], range: &Range<usize>) -> (r: Option<&'a [u8]>)
    ensures
        match r {
            Some(bytes) => bytes_at(wasm@, *range) == Some(bytes@),
            None => bytes_at(wasm@, *range) is None,
        },
{
    if range.start <= range.end && range.end <= wasm.len() {
        Some(vstd::slice::slice_subrange(wasm, range.start, range.end))
    } else {
        None
    }
}

} // verus!
