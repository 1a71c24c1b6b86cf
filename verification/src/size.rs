//! How many bytes a section takes when it is written.
//!
//! The size of a section is itself written, as a number of 32 bits: no section can be larger than
//! such a number can tell.
use vstd::arithmetic::overflow::CheckedU32;
use vstd::prelude::*;
use vstd::utf8::encode_utf8;

use crate::model::{
    views, BlockType, Body, BodyView, CodeItem, CodeItemView, EntityType, Export, ExportView,
    FuncType, FuncTypeView, Global, GlobalView, Import, ImportView, IndirectNaming,
    IndirectNamingView, InitExpr, InitExprView, Instr, Naming, NamingView, SectionView, Segment,
    SegmentItems, SegmentItemsView, SegmentMode, SegmentModeView, SegmentView, Subsection,
    SubsectionView, ValueType,
};

verus! {

/// The size of an unsigned number: each byte holds seven bits of it.
pub open spec fn leb_size(n: nat) -> nat
    decreases n,
{
    if n < 128 {
        1
    } else {
        1 + leb_size(n / 128)
    }
}

/// The size of a signed number: it takes one bit more than its magnitude.
pub open spec fn signed_size(n: int) -> nat {
    leb_size(
        (2 * if n >= 0 {
            n
        } else {
            -1 - n
        }) as nat,
    )
}

/// The size of all items together.
pub open spec fn total<T>(items: Seq<T>, size: spec_fn(T) -> nat) -> nat
    decreases items.len(),
{
    if items.len() == 0 {
        0
    } else {
        total(items.drop_last(), size) + size(items.last())
    }
}

/// The size of a list: its length goes first.
pub open spec fn list_size<T>(items: Seq<T>, size: spec_fn(T) -> nat) -> nat {
    leb_size(items.len()) + total(items, size)
}

/// The size of bytes with their number in front of them.
pub open spec fn framed(size: nat) -> nat {
    leb_size(size) + size
}

/// The size of a string.
pub open spec fn str_size(s: Seq<char>) -> nat {
    framed(encode_utf8(s).len())
}

impl FuncTypeView {
    /// The size of a function type.
    pub open spec fn size(self) -> nat {
        1 + framed(self.params.len()) + framed(self.results.len())
    }
}

/// The size of what an import is, behind the byte that tells its kind.
pub open spec fn entity_size(ty: EntityType) -> nat {
    match ty {
        EntityType::Function(index) => leb_size(index as nat),
        EntityType::Table(ty) => 2 + leb_size(ty.minimum as nat) + match ty.maximum {
            Some(maximum) => leb_size(maximum as nat),
            None => 0,
        },
        EntityType::Memory(ty) => 1 + leb_size(ty.minimum as nat) + match ty.maximum {
            Some(maximum) => leb_size(maximum as nat),
            None => 0,
        },
        EntityType::Global(_) => 2,
        EntityType::Tag(index) => 1 + leb_size(index as nat),
    }
}

impl ImportView {
    /// The size of an import.
    pub open spec fn size(self) -> nat {
        str_size(self.module) + str_size(self.name) + 1 + entity_size(self.ty)
    }
}

impl ExportView {
    /// The size of an export.
    pub open spec fn size(self) -> nat {
        str_size(self.name) + 1 + leb_size(self.index as nat)
    }
}

impl InitExprView {
    /// The size of a constant expression with its `end`.
    pub open spec fn size(self) -> nat {
        match self {
            InitExprView::RefFunc(index) => 2 + leb_size(index as nat),
            InitExprView::Raw(bytes) => bytes.len() + 1,
        }
    }
}

impl GlobalView {
    /// The size of a global.
    pub open spec fn size(self) -> nat {
        2 + self.init.size()
    }
}

impl SegmentModeView {
    /// The size of the place of an element segment and of the type of its elements.
    pub open spec fn size(self) -> nat {
        match self {
            SegmentModeView::Passive => 1,
            SegmentModeView::Declared => 1,
            SegmentModeView::Active(table, offset) => leb_size(table as nat) + offset.size() + 1,
        }
    }
}

impl SegmentItemsView {
    /// The size of the elements of a segment.
    pub open spec fn size(self) -> nat {
        match self {
            SegmentItemsView::Functions(indices) => list_size(
                indices,
                |index: u32| leb_size(index as nat),
            ),
            SegmentItemsView::Expressions(exprs) => list_size(
                exprs,
                |expr: InitExprView| expr.size(),
            ),
        }
    }
}

impl SegmentView {
    /// The size of an element segment.
    pub open spec fn size(self) -> nat {
        1 + self.mode.size() + self.items.size()
    }
}

impl NamingView {
    /// The size of an entry of a name map.
    pub open spec fn size(self) -> nat {
        leb_size(self.index as nat) + str_size(self.name)
    }
}

/// The size of a name map.
pub open spec fn name_map_size(names: Seq<NamingView>) -> nat {
    list_size(names, |naming: NamingView| naming.size())
}

impl IndirectNamingView {
    /// The size of an entry of an indirect name map.
    pub open spec fn size(self) -> nat {
        leb_size(self.index as nat) + name_map_size(self.names)
    }
}

/// The size of an indirect name map.
pub open spec fn indirect_map_size(names: Seq<IndirectNamingView>) -> nat {
    list_size(names, |naming: IndirectNamingView| naming.size())
}

impl SubsectionView {
    /// The size of the contents of a subsection of the name section.
    pub open spec fn content_size(self) -> nat {
        match self {
            SubsectionView::Module(name) => str_size(name),
            SubsectionView::Names(_, names) => name_map_size(names),
            SubsectionView::Indirect(_, names) => indirect_map_size(names),
        }
    }

    /// The size of a subsection of the name section.
    pub open spec fn size(self) -> nat {
        1 + framed(self.content_size())
    }
}

/// The size of an instruction.
pub open spec fn instr_size(instr: Instr) -> nat {
    match instr {
        Instr::Nop => 1,
        Instr::Block(BlockType::FunctionType(index)) => 1 + signed_size(index as int),
        Instr::Block(_) => 2,
        Instr::End => 1,
        Instr::Return => 1,
        Instr::Call(index) => 1 + leb_size(index as nat),
        Instr::ReturnCall(index) => 1 + leb_size(index as nat),
        Instr::RefFunc(index) => 1 + leb_size(index as nat),
        Instr::I64Const(value) => 1 + signed_size(value as int),
    }
}

impl CodeItemView {
    /// The size of a stretch of a function body.
    pub open spec fn size(self) -> nat {
        match self {
            CodeItemView::Instr(instr) => instr_size(instr),
            CodeItemView::Raw(bytes) => bytes.len(),
        }
    }
}

impl BodyView {
    /// The size of a function body.
    pub open spec fn size(self) -> nat {
        list_size(self.locals, |local: (u32, ValueType)| leb_size(local.0 as nat) + 1) + total(
            self.code,
            |item: CodeItemView| item.size(),
        )
    }
}

impl SectionView {
    /// The size of the contents of a section.
    pub open spec fn size(self) -> nat {
        match self {
            SectionView::Types(types) => list_size(types, |ty: FuncTypeView| ty.size()),
            SectionView::Imports(imports) => list_size(
                imports,
                |import: ImportView| import.size(),
            ),
            SectionView::Functions(types) => list_size(types, |index: u32| leb_size(index as nat)),
            SectionView::Globals(globals) => list_size(
                globals,
                |global: GlobalView| global.size(),
            ),
            SectionView::Exports(exports) => list_size(
                exports,
                |export: ExportView| export.size(),
            ),
            SectionView::Start(index) => leb_size(index as nat),
            SectionView::Elements(segments) => list_size(
                segments,
                |segment: SegmentView| segment.size(),
            ),
            SectionView::Code(bodies) => list_size(bodies, |body: BodyView| framed(body.size())),
            // The name of the section goes first.
            SectionView::Names(subsections) => 5 + total(
                subsections,
                |subsection: SubsectionView| subsection.size(),
            ),
            SectionView::Raw(raw) => raw.data.len(),
        }
    }

    /// Whether the size of the section can be told.
    pub open spec fn fits(self) -> bool {
        self.size() <= u32::MAX
    }
}

/// A number takes at least one byte, and no number of 64 bits takes more than ten.
pub proof fn lemma_leb_size(n: nat)
    ensures
        1 <= leb_size(n),
        n <= u64::MAX ==> leb_size(n) <= 10,
{
    reveal_with_fuel(leb_size, 11);
}

/// The size of an unsigned number.
pub fn unsigned_size_of(n: u64) -> (r: CheckedU32)
    ensures
        r@ == leb_size(n as nat),
{
    let mut rest: u64 = n;
    let mut size: u32 = 1;
    proof {
        lemma_leb_size(n as nat);
    }
    while rest >= 128
        invariant
            1 <= size <= 10,
            leb_size(n as nat) == size - 1 + leb_size(rest as nat),
            leb_size(n as nat) <= 10,
        decreases rest,
    {
        proof {
            lemma_leb_size((rest / 128) as nat);
        }
        rest = rest / 128;
        size += 1;
    }
    CheckedU32::new(size)
}

/// The size of a signed number.
pub fn signed_size_of(n: i64) -> (r: CheckedU32)
    ensures
        r@ == signed_size(n as int),
{
    let magnitude: u64 = if n >= 0 {
        n as u64
    } else {
        (-(n + 1)) as u64
    };
    unsigned_size_of(2 * magnitude)
}

/// A number of bytes as a size.
fn size_of(len: usize) -> (r: CheckedU32)
    ensures
        r@ == len,
{
    if len <= u32::MAX as usize {
        CheckedU32::new(len as u32)
    } else {
        CheckedU32::new_overflowed(Ghost(len as int))
    }
}

/// The size of bytes with their number in front of them.
fn framed_size_of(len: usize) -> (r: CheckedU32)
    ensures
        r@ == framed(len as nat),
{
    unsigned_size_of(len as u64).add_checked(&size_of(len))
}

/// The size of contents with their size in front of them.
fn framed_size(content: CheckedU32) -> (r: CheckedU32)
    ensures
        r@ == framed(content@),
{
    match content.to_option() {
        Some(size) => unsigned_size_of(size as u64).add_value(size),
        None => CheckedU32::new_overflowed(Ghost(framed(content@) as int)),
    }
}

/// Two sizes together.
fn both(left: CheckedU32, right: CheckedU32) -> (r: CheckedU32)
    ensures
        r@ == left@ + right@,
{
    left.add_checked(&right)
}

/// The size of all items together, where `f` tells the size of each.
fn total_size_of<T: View, F: Fn(&T) -> CheckedU32>(
    items: &Vec<T>,
    f: F,
    Ghost(size): Ghost<spec_fn(T::V) -> nat>,
) -> (r: CheckedU32)
    requires
        forall|item: &T| call_requires(f, (item,)),
        forall|item: &T, value: CheckedU32| #[trigger]
            call_ensures(f, (item,), value) ==> value@ == size(item@),
    ensures
        r@ == total(views(items@), size),
{
    let mut sum: CheckedU32 = CheckedU32::new(0);
    for i in 0..items.len()
        invariant
            forall|item: &T| call_requires(f, (item,)),
            forall|item: &T, value: CheckedU32| #[trigger]
                call_ensures(f, (item,), value) ==> value@ == size(item@),
            sum@ == total(views(items@).take(i as int), size),
    {
        assert(views(items@).take(i + 1).drop_last() =~= views(items@).take(i as int));
        sum = both(sum, f(&items[i]));
    }
    assert(views(items@).take(items@.len() as int) =~= views(items@));
    sum
}

/// The size of a list, where `f` tells the size of each item.
fn list_size_of<T: View, F: Fn(&T) -> CheckedU32>(
    items: &Vec<T>,
    f: F,
    Ghost(size): Ghost<spec_fn(T::V) -> nat>,
) -> (r: CheckedU32)
    requires
        forall|item: &T| call_requires(f, (item,)),
        forall|item: &T, value: CheckedU32| #[trigger]
            call_ensures(f, (item,), value) ==> value@ == size(item@),
    ensures
        r@ == list_size(views(items@), size),
{
    both(unsigned_size_of(items.len() as u64), total_size_of(items, f, Ghost(size)))
}

fn index_size_of(index: &u32) -> (r: CheckedU32)
    ensures
        r@ == leb_size(*index as nat),
{
    unsigned_size_of(*index as u64)
}

/// The size of a list of indices.
fn index_list_size_of(indices: &Vec<u32>) -> (r: CheckedU32)
    ensures
        r@ == list_size(indices@, |index: u32| leb_size(index as nat)),
{
    assert(views(indices@) =~= indices@);
    list_size_of(indices, index_size_of, Ghost(|index: u32| leb_size(index as nat)))
}

fn str_size_of(s: &str) -> (r: CheckedU32)
    ensures
        r@ == str_size(s@),
{
    framed_size_of(s.as_bytes().len())
}

fn func_type_size_of(ty: &FuncType) -> (r: CheckedU32)
    ensures
        r@ == ty@.size(),
{
    let params = both(CheckedU32::new(1), framed_size_of(ty.params.len()));
    both(params, framed_size_of(ty.results.len()))
}

fn entity_size_of(ty: &EntityType) -> (r: CheckedU32)
    ensures
        r@ == entity_size(*ty),
{
    match ty {
        EntityType::Function(index) => index_size_of(index),
        EntityType::Table(ty) => {
            let size = both(CheckedU32::new(2), index_size_of(&ty.minimum));
            match &ty.maximum {
                Some(maximum) => both(size, index_size_of(maximum)),
                None => size,
            }
        },
        EntityType::Memory(ty) => {
            let size = both(CheckedU32::new(1), unsigned_size_of(ty.minimum));
            match ty.maximum {
                Some(maximum) => both(size, unsigned_size_of(maximum)),
                None => size,
            }
        },
        EntityType::Global(_) => CheckedU32::new(2),
        EntityType::Tag(index) => both(CheckedU32::new(1), index_size_of(index)),
    }
}

fn import_size_of(import: &Import<'_>) -> (r: CheckedU32)
    ensures
        r@ == import@.size(),
{
    let names = both(str_size_of(import.module), str_size_of(import.name));
    both(both(names, CheckedU32::new(1)), entity_size_of(&import.ty))
}

fn export_size_of(export: &Export<'_>) -> (r: CheckedU32)
    ensures
        r@ == export@.size(),
{
    both(both(str_size_of(export.name), CheckedU32::new(1)), index_size_of(&export.index))
}

fn init_expr_size_of(expr: &InitExpr<'_>) -> (r: CheckedU32)
    ensures
        r@ == expr@.size(),
{
    match expr {
        InitExpr::RefFunc(index) => both(CheckedU32::new(2), index_size_of(index)),
        InitExpr::Raw(bytes) => both(size_of(bytes.len()), CheckedU32::new(1)),
    }
}

fn global_size_of(global: &Global<'_>) -> (r: CheckedU32)
    ensures
        r@ == global@.size(),
{
    both(CheckedU32::new(2), init_expr_size_of(&global.init))
}

fn segment_size_of(segment: &Segment<'_>) -> (r: CheckedU32)
    ensures
        r@ == segment@.size(),
{
    let mode = match &segment.mode {
        SegmentMode::Passive => CheckedU32::new(1),
        SegmentMode::Declared => CheckedU32::new(1),
        SegmentMode::Active(table, offset) => both(
            both(index_size_of(table), init_expr_size_of(offset)),
            CheckedU32::new(1),
        ),
    };
    let items = match &segment.items {
        SegmentItems::Functions(indices) => index_list_size_of(indices),
        SegmentItems::Expressions(exprs) => list_size_of(
            exprs,
            init_expr_size_of,
            Ghost(|expr: InitExprView| expr.size()),
        ),
    };
    both(both(CheckedU32::new(1), mode), items)
}

fn naming_size_of(naming: &Naming<'_>) -> (r: CheckedU32)
    ensures
        r@ == naming@.size(),
{
    both(index_size_of(&naming.index), str_size_of(naming.name))
}

fn name_map_size_of(names: &Vec<Naming<'_>>) -> (r: CheckedU32)
    ensures
        r@ == name_map_size(views(names@)),
{
    list_size_of(names, naming_size_of, Ghost(|naming: NamingView| naming.size()))
}

fn indirect_naming_size_of(naming: &IndirectNaming<'_>) -> (r: CheckedU32)
    ensures
        r@ == naming@.size(),
{
    both(index_size_of(&naming.index), name_map_size_of(&naming.names))
}

fn subsection_size_of(subsection: &Subsection<'_>) -> (r: CheckedU32)
    ensures
        r@ == subsection@.size(),
{
    let content = match subsection {
        Subsection::Module(name) => str_size_of(name),
        Subsection::Names(_, names) => name_map_size_of(names),
        Subsection::Indirect(_, names) => list_size_of(
            names,
            indirect_naming_size_of,
            Ghost(|naming: IndirectNamingView| naming.size()),
        ),
    };
    both(CheckedU32::new(1), framed_size(content))
}

fn code_item_size_of(item: &CodeItem<'_>) -> (r: CheckedU32)
    ensures
        r@ == item@.size(),
{
    match item {
        CodeItem::Instr(instr) => match instr {
            Instr::Nop => CheckedU32::new(1),
            Instr::Block(BlockType::FunctionType(index)) => both(
                CheckedU32::new(1),
                signed_size_of(*index as i64),
            ),
            Instr::Block(_) => CheckedU32::new(2),
            Instr::End => CheckedU32::new(1),
            Instr::Return => CheckedU32::new(1),
            Instr::Call(index) => both(CheckedU32::new(1), index_size_of(index)),
            Instr::ReturnCall(index) => both(CheckedU32::new(1), index_size_of(index)),
            Instr::RefFunc(index) => both(CheckedU32::new(1), index_size_of(index)),
            Instr::I64Const(value) => both(CheckedU32::new(1), signed_size_of(*value)),
        },
        CodeItem::Raw(bytes) => size_of(bytes.len()),
    }
}

fn local_size_of(local: &(u32, ValueType)) -> (r: CheckedU32)
    ensures
        r@ == leb_size(local.0 as nat) + 1,
{
    both(index_size_of(&local.0), CheckedU32::new(1))
}

fn body_size_of(body: &Body<'_>) -> (r: CheckedU32)
    ensures
        r@ == body@.size(),
{
    assert(views(body.locals@) =~= body.locals@);
    let locals = list_size_of(
        &body.locals,
        local_size_of,
        Ghost(|local: (u32, ValueType)| leb_size(local.0 as nat) + 1),
    );
    let code = total_size_of(
        &body.code,
        code_item_size_of,
        Ghost(|item: CodeItemView| item.size()),
    );
    both(locals, code)
}

fn framed_body_size_of(body: &Body<'_>) -> (r: CheckedU32)
    ensures
        r@ == framed(body@.size()),
{
    framed_size(body_size_of(body))
}

/// The size of a type section.
pub fn types_size_of(types: &Vec<FuncType>) -> (r: CheckedU32)
    ensures
        r@ == SectionView::Types(views(types@)).size(),
{
    list_size_of(types, func_type_size_of, Ghost(|ty: FuncTypeView| ty.size()))
}

/// The size of an import section.
pub fn imports_size_of(imports: &Vec<Import<'_>>) -> (r: CheckedU32)
    ensures
        r@ == SectionView::Imports(views(imports@)).size(),
{
    list_size_of(imports, import_size_of, Ghost(|import: ImportView| import.size()))
}

/// The size of a function section.
pub fn functions_size_of(types: &Vec<u32>) -> (r: CheckedU32)
    ensures
        r@ == SectionView::Functions(types@).size(),
{
    index_list_size_of(types)
}

/// The size of a global section.
pub fn globals_size_of(globals: &Vec<Global<'_>>) -> (r: CheckedU32)
    ensures
        r@ == SectionView::Globals(views(globals@)).size(),
{
    list_size_of(globals, global_size_of, Ghost(|global: GlobalView| global.size()))
}

/// The size of an export section.
pub fn exports_size_of(exports: &Vec<Export<'_>>) -> (r: CheckedU32)
    ensures
        r@ == SectionView::Exports(views(exports@)).size(),
{
    list_size_of(exports, export_size_of, Ghost(|export: ExportView| export.size()))
}

/// The size of an element section.
pub fn elements_size_of(segments: &Vec<Segment<'_>>) -> (r: CheckedU32)
    ensures
        r@ == SectionView::Elements(views(segments@)).size(),
{
    list_size_of(segments, segment_size_of, Ghost(|segment: SegmentView| segment.size()))
}

/// The size of a code section.
pub fn code_size_of(bodies: &Vec<Body<'_>>) -> (r: CheckedU32)
    ensures
        r@ == SectionView::Code(views(bodies@)).size(),
{
    list_size_of(bodies, framed_body_size_of, Ghost(|body: BodyView| framed(body.size())))
}

/// The size of a name section.
pub fn names_size_of(subsections: &Vec<Subsection<'_>>) -> (r: CheckedU32)
    ensures
        r@ == SectionView::Names(views(subsections@)).size(),
{
    total_size_of(
        subsections,
        subsection_size_of,
        Ghost(|subsection: SubsectionView| subsection.size()),
    ).add_value(5)
}

/// No item is larger than all items together.
pub proof fn lemma_part<T>(items: Seq<T>, size: spec_fn(T) -> nat, i: int)
    requires
        0 <= i < items.len(),
    ensures
        size(items[i]) <= total(items, size),
    decreases items.len(),
{
    if i < items.len() - 1 {
        lemma_part(items.drop_last(), size, i);
    }
}

/// Where each item takes a byte, there are no more items than bytes.
pub proof fn lemma_count<T>(items: Seq<T>, size: spec_fn(T) -> nat)
    requires
        forall|item: T| #[trigger] size(item) >= 1,
    ensures
        items.len() <= total(items, size),
    decreases items.len(),
{
    if items.len() > 0 {
        lemma_count(items.drop_last(), size);
    }
}

/// Where the size of a list can be told, so can its length and the size of an item.
pub proof fn lemma_list_limits<T>(items: Seq<T>, size: spec_fn(T) -> nat, i: int)
    requires
        0 <= i < items.len(),
        forall|item: T| #[trigger] size(item) >= 1,
        list_size(items, size) <= u32::MAX,
    ensures
        items.len() < u32::MAX,
        size(items[i]) < u32::MAX,
{
    lemma_part(items, size, i);
    lemma_count(items, size);
    lemma_leb_size(items.len());
}

} // verus!
