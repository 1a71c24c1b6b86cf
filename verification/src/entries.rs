//! Transforming the entries of sections.
//!
//! Wherever an entry refers to a function, it refers to it by the index that the function has in
//! the instrumented module. Everything else is kept.
use std::ops::Range;
use vstd::prelude::*;
use wasmparser::BinaryReaderError;

use crate::code::{shift, shifted};
use crate::error::{Error, Stop};
use crate::model::{
    bytes_at, read_views, result_view, slice_at, views, ElementEntry, EntryItems, EntryMode, Export,
    ExportKind, ExportView, FuncType, FuncTypeView, Global, GlobalEntry, GlobalView, Import,
    ImportView, InitExpr, InitExprView, Segment, SegmentItems, SegmentItemsView, SegmentMode,
    SegmentModeView, SegmentView,
};
use crate::read::{read_exprs, read_indices, read_ref_func, wasm_exprs, wasm_indices, wasm_ref_func};
use crate::traverse::{all_handled, handle, handle_in, lemma_traverse_map, traverse};

verus! {

/// What an entry of a type section becomes.
pub open spec fn type_entry(entry: Result<FuncTypeView, BinaryReaderError>) -> Result<
    FuncTypeView,
    Stop,
> {
    match entry {
        Ok(ty) => Ok(ty),
        Err(error) => Err(Stop::Failed(Error::ParseType(error))),
    }
}

/// What the entries of a type section become.
pub open spec fn type_entries(entries: Seq<Result<FuncTypeView, BinaryReaderError>>) -> (
    Seq<FuncTypeView>,
    Result<(), Stop>,
) {
    traverse(entries, |entry| type_entry(entry))
}

fn transform_type(entry: Result<FuncType, BinaryReaderError>) -> (r: Result<FuncType, Stop>)
    ensures
        result_view(r) == type_entry(result_view(entry)),
{
    match entry {
        Ok(ty) => Ok(ty),
        Err(error) => Err(Stop::Failed(Error::ParseType(error))),
    }
}

/// Takes the entries of a type section.
pub fn transform_types(entries: Vec<Result<FuncType, BinaryReaderError>>) -> (r: (
    Vec<FuncType>,
    Result<(), Stop>,
))
    ensures
        (views(r.0@), r.1) == type_entries(read_views(entries@)),
{
    let ghost view = |entry: Result<FuncType, BinaryReaderError>| result_view(entry);
    let ghost step = |entry: Result<FuncTypeView, BinaryReaderError>| type_entry(entry);
    proof {
        lemma_traverse_map(entries@, view, step);
    }
    handle(entries, transform_type, Ghost(|entry| step(view(entry))))
}

/// What an entry of an import section becomes.
pub open spec fn import_entry(entry: Result<Import<'static>, BinaryReaderError>) -> Result<
    ImportView,
    Stop,
> {
    match entry {
        Ok(import) => Ok(import@),
        Err(error) => Err(Stop::Failed(Error::ParseImport(error))),
    }
}

/// What the entries of an import section become.
pub open spec fn import_entries(entries: Seq<Result<Import<'static>, BinaryReaderError>>) -> (
    Seq<ImportView>,
    Result<(), Stop>,
) {
    traverse(entries, |entry| import_entry(entry))
}

fn transform_import<'a>(entry: Result<Import<'a>, BinaryReaderError>) -> (r: Result<
    Import<'a>,
    Stop,
>)
    ensures
        result_view(r) == import_entry(entry),
{
    match entry {
        Ok(import) => Ok(import),
        Err(error) => Err(Stop::Failed(Error::ParseImport(error))),
    }
}

/// Takes the entries of an import section.
pub fn transform_imports<'a>(entries: Vec<Result<Import<'a>, BinaryReaderError>>) -> (r: (
    Vec<Import<'a>>,
    Result<(), Stop>,
))
    ensures
        (views(r.0@), r.1) == import_entries(entries@),
{
    handle(entries, transform_import, Ghost(|entry| import_entry(entry)))
}

/// What an entry of a function section becomes: the type of a function is left as it is.
pub open spec fn function_entry(entry: Result<u32, BinaryReaderError>) -> Result<u32, Stop> {
    match entry {
        Ok(ty) => Ok(ty),
        Err(error) => Err(Stop::Failed(Error::ParseFunctionTyId(error))),
    }
}

/// What the entries of a function section become, if all of them can be read.
pub open spec fn function_entries(entries: Seq<Result<u32, BinaryReaderError>>) -> Result<
    Seq<u32>,
    Stop,
> {
    all_handled(traverse(entries, |entry| function_entry(entry)))
}

fn transform_function(entry: Result<u32, BinaryReaderError>) -> (r: Result<u32, Stop>)
    ensures
        result_view(r) == function_entry(entry),
{
    match entry {
        Ok(ty) => Ok(ty),
        Err(error) => Err(Stop::Failed(Error::ParseFunctionTyId(error))),
    }
}

/// Takes the entries of a function section, all of them or none.
pub fn transform_functions(entries: Vec<Result<u32, BinaryReaderError>>) -> (r: Result<
    Vec<u32>,
    Stop,
>)
    ensures
        result_view(r) == function_entries(entries@),
{
    let (done, r) = handle(entries, transform_function, Ghost(|entry| function_entry(entry)));
    assert(views(done@) =~= done@);
    match r {
        Ok(()) => Ok(done),
        Err(stop) => Err(stop),
    }
}

/// What an entry of an export section becomes.
pub open spec fn export_entry(entry: Result<Export<'static>, BinaryReaderError>) -> Result<
    ExportView,
    Stop,
> {
    match entry {
        Ok(export) => if export.kind == ExportKind::Func {
            match shifted(export.index) {
                Ok(index) => Ok(ExportView { index, ..export@ }),
                Err(stop) => Err(stop),
            }
        } else {
            Ok(export@)
        },
        Err(error) => Err(Stop::Failed(Error::ParseExport(error))),
    }
}

/// What the entries of an export section become.
pub open spec fn export_entries(entries: Seq<Result<Export<'static>, BinaryReaderError>>) -> (
    Seq<ExportView>,
    Result<(), Stop>,
) {
    traverse(entries, |entry| export_entry(entry))
}

fn transform_export<'a>(entry: Result<Export<'a>, BinaryReaderError>) -> (r: Result<
    Export<'a>,
    Stop,
>)
    ensures
        result_view(r) == export_entry(entry),
{
    match entry {
        Ok(export) => {
            let index: u32 = match export.kind {
                ExportKind::Func => shift(export.index)?,
                ExportKind::Table => export.index,
                ExportKind::Memory => export.index,
                ExportKind::Global => export.index,
                ExportKind::Tag => export.index,
            };
            Ok(Export { name: export.name, kind: export.kind, index })
        },
        Err(error) => Err(Stop::Failed(Error::ParseExport(error))),
    }
}

/// Takes the entries of an export section.
pub fn transform_exports<'a>(entries: Vec<Result<Export<'a>, BinaryReaderError>>) -> (r: (
    Vec<Export<'a>>,
    Result<(), Stop>,
))
    ensures
        (views(r.0@), r.1) == export_entries(entries@),
{
    handle(entries, transform_export, Ghost(|entry| export_entry(entry)))
}

/// What the constant expression `data` becomes, if `first` tells of its first operator which
/// function it refers to.
pub open spec fn init_expr(data: Seq<u8>, first: Result<Option<u32>, BinaryReaderError>) -> Result<
    InitExprView,
    Stop,
> {
    match first {
        Ok(Some(index)) => match shifted(index) {
            Ok(index) => Ok(InitExprView::RefFunc(index)),
            Err(stop) => Err(stop),
        },
        Ok(None) => if data.len() > 0 {
            Ok(InitExprView::Raw(data.drop_last()))
        } else {
            Err(Stop::OutOfRange)
        },
        Err(error) => Err(Stop::Failed(Error::ParseConstExprOperator(error))),
    }
}

/// What the constant expression at `range` of the module becomes.
pub open spec fn init_expr_at(wasm: Seq<u8>, range: Range<usize>) -> Result<InitExprView, Stop> {
    match bytes_at(wasm, range) {
        Some(data) => init_expr(data, wasm_ref_func(data, range.start)),
        None => Err(Stop::OutOfRange),
    }
}

/// Transforms the constant expression `data`, where `first` tells of its first operator which
/// function it refers to. The `end` that closes the expression is dropped, as it is introduced
/// anew when the expression is written.
pub fn transform_init_expr<'a>(
    data: &'a [u8],
    first: Result<Option<u32>, BinaryReaderError>,
) -> (r: Result<InitExpr<'a>, Stop>)
    ensures
        result_view(r) == init_expr(data@, first),
{
    match first {
        Ok(Some(index)) => Ok(InitExpr::RefFunc(shift(index)?)),
        Ok(None) => if data.len() > 0 {
            let without_end = vstd::slice::slice_subrange(data, 0, data.len() - 1);
            assert(without_end@ =~= data@.drop_last());
            Ok(InitExpr::Raw(without_end))
        } else {
            Err(Stop::OutOfRange)
        },
        Err(error) => Err(Stop::Failed(Error::ParseConstExprOperator(error))),
    }
}

/// Transforms the constant expression at `range` of the module.
pub fn constexpr<'a>(wasm: &'a [u8], range: Range<usize>) -> (r: Result<InitExpr<'a>, Stop>)
    ensures
        result_view(r) == init_expr_at(wasm@, range),
{
    match slice_at(wasm, &range) {
        Some(data) => transform_init_expr(data, read_ref_func(data, range.start)),
        None => Err(Stop::OutOfRange),
    }
}

/// What an entry of a global section becomes.
pub open spec fn global_entry(
    wasm: Seq<u8>,
    entry: Result<GlobalEntry, BinaryReaderError>,
) -> Result<GlobalView, Stop> {
    match entry {
        Ok(global) => match init_expr_at(wasm, global.init) {
            Ok(init) => Ok(GlobalView { ty: global.ty, init }),
            Err(stop) => Err(stop),
        },
        Err(error) => Err(Stop::Failed(Error::ParseGlobal(error))),
    }
}

/// What the entries of a global section become.
pub open spec fn global_entries(
    wasm: Seq<u8>,
    entries: Seq<Result<GlobalEntry, BinaryReaderError>>,
) -> (Seq<GlobalView>, Result<(), Stop>) {
    traverse(entries, |entry| global_entry(wasm, entry))
}

fn transform_global<'a>(
    wasm: &'a [u8],
    entry: Result<GlobalEntry, BinaryReaderError>,
) -> (r: Result<Global<'a>, Stop>)
    ensures
        result_view(r) == global_entry(wasm@, entry),
{
    match entry {
        Ok(global) => Ok(Global { ty: global.ty, init: constexpr(wasm, global.init)? }),
        Err(error) => Err(Stop::Failed(Error::ParseGlobal(error))),
    }
}

/// Takes the entries of a global section of the module.
pub fn transform_globals<'a>(
    wasm: &'a [u8],
    entries: Vec<Result<GlobalEntry, BinaryReaderError>>,
) -> (r: (Vec<Global<'a>>, Result<(), Stop>))
    ensures
        (views(r.0@), r.1) == global_entries(wasm@, entries@),
{
    handle_in(wasm, entries, transform_global, Ghost(|entry| global_entry(wasm@, entry)))
}

/// What an item of a list of functions of an element segment becomes.
pub open spec fn element_function(entry: Result<u32, BinaryReaderError>) -> Result<u32, Stop> {
    match entry {
        Ok(index) => shifted(index),
        Err(error) => Err(Stop::Failed(Error::ParseElementItem(error))),
    }
}

/// What a list of functions of an element segment becomes, if all of them can be transformed.
pub open spec fn element_functions(entries: Seq<Result<u32, BinaryReaderError>>) -> Result<
    Seq<u32>,
    Stop,
> {
    all_handled(traverse(entries, |entry| element_function(entry)))
}

fn transform_element_function(entry: Result<u32, BinaryReaderError>) -> (r: Result<u32, Stop>)
    ensures
        result_view(r) == element_function(entry),
{
    match entry {
        Ok(index) => shift(index),
        Err(error) => Err(Stop::Failed(Error::ParseElementItem(error))),
    }
}

/// Takes a list of functions of an element segment.
pub fn transform_element_functions(entries: Vec<Result<u32, BinaryReaderError>>) -> (r: Result<
    Vec<u32>,
    Stop,
>)
    ensures
        result_view(r) == element_functions(entries@),
{
    let (done, r) = handle(
        entries,
        transform_element_function,
        Ghost(|entry| element_function(entry)),
    );
    assert(views(done@) =~= done@);
    match r {
        Ok(()) => Ok(done),
        Err(stop) => Err(stop),
    }
}

/// What an item of a list of expressions of an element segment becomes.
pub open spec fn element_expression(
    wasm: Seq<u8>,
    entry: Result<Range<usize>, BinaryReaderError>,
) -> Result<InitExprView, Stop> {
    match entry {
        Ok(range) => init_expr_at(wasm, range),
        Err(error) => Err(Stop::Failed(Error::ParseElementExpression(error))),
    }
}

/// What a list of expressions of an element segment becomes, if all of them can be transformed.
pub open spec fn element_expressions(
    wasm: Seq<u8>,
    entries: Seq<Result<Range<usize>, BinaryReaderError>>,
) -> Result<Seq<InitExprView>, Stop> {
    all_handled(traverse(entries, |entry| element_expression(wasm, entry)))
}

fn transform_element_expression<'a>(
    wasm: &'a [u8],
    entry: Result<Range<usize>, BinaryReaderError>,
) -> (r: Result<InitExpr<'a>, Stop>)
    ensures
        result_view(r) == element_expression(wasm@, entry),
{
    match entry {
        Ok(range) => constexpr(wasm, range),
        Err(error) => Err(Stop::Failed(Error::ParseElementExpression(error))),
    }
}

/// Takes a list of expressions of an element segment of the module.
pub fn transform_element_expressions<'a>(
    wasm: &'a [u8],
    entries: Vec<Result<Range<usize>, BinaryReaderError>>,
) -> (r: Result<Vec<InitExpr<'a>>, Stop>)
    ensures
        match r {
            Ok(done) => element_expressions(wasm@, entries@) == Ok::<Seq<InitExprView>, Stop>(
                views(done@),
            ),
            Err(stop) => element_expressions(wasm@, entries@) == Err::<Seq<InitExprView>, Stop>(
                stop,
            ),
        },
{
    let (done, r) = handle_in(
        wasm,
        entries,
        transform_element_expression,
        Ghost(|entry| element_expression(wasm@, entry)),
    );
    match r {
        Ok(()) => Ok(done),
        Err(stop) => Err(stop),
    }
}

/// What the elements of a segment become.
pub open spec fn element_items(wasm: Seq<u8>, items: EntryItems) -> Result<SegmentItemsView, Stop> {
    match items {
        EntryItems::Functions(range) => match bytes_at(wasm, range) {
            Some(data) => match element_functions(wasm_indices(data, range.start)) {
                Ok(functions) => Ok(SegmentItemsView::Functions(functions)),
                Err(stop) => Err(stop),
            },
            None => Err(Stop::OutOfRange),
        },
        EntryItems::Expressions(range) => match bytes_at(wasm, range) {
            Some(data) => match element_expressions(wasm, wasm_exprs(data, range.start)) {
                Ok(expressions) => Ok(SegmentItemsView::Expressions(expressions)),
                Err(stop) => Err(stop),
            },
            None => Err(Stop::OutOfRange),
        },
    }
}

fn transform_element_items<'a>(wasm: &'a [u8], items: EntryItems) -> (r: Result<
    SegmentItems<'a>,
    Stop,
>)
    ensures
        result_view(r) == element_items(wasm@, items),
{
    match items {
        EntryItems::Functions(range) => match slice_at(wasm, &range) {
            Some(data) => Ok(
                SegmentItems::Functions(
                    transform_element_functions(read_indices(data, range.start))?,
                ),
            ),
            None => Err(Stop::OutOfRange),
        },
        EntryItems::Expressions(range) => match slice_at(wasm, &range) {
            Some(data) => Ok(
                SegmentItems::Expressions(
                    transform_element_expressions(wasm, read_exprs(data, range.start))?,
                ),
            ),
            None => Err(Stop::OutOfRange),
        },
    }
}

/// What the place of an element segment becomes.
pub open spec fn element_mode(wasm: Seq<u8>, mode: EntryMode) -> Result<SegmentModeView, Stop> {
    match mode {
        EntryMode::Passive => Ok(SegmentModeView::Passive),
        EntryMode::Declared => Ok(SegmentModeView::Declared),
        EntryMode::Active(table, range) => match init_expr_at(wasm, range) {
            Ok(offset) => Ok(SegmentModeView::Active(table, offset)),
            Err(stop) => Err(stop),
        },
    }
}

fn transform_element_mode<'a>(wasm: &'a [u8], mode: EntryMode) -> (r: Result<
    SegmentMode<'a>,
    Stop,
>)
    ensures
        result_view(r) == element_mode(wasm@, mode),
{
    match mode {
        EntryMode::Passive => Ok(SegmentMode::Passive),
        EntryMode::Declared => Ok(SegmentMode::Declared),
        EntryMode::Active(table, range) => Ok(SegmentMode::Active(table, constexpr(wasm, range)?)),
    }
}

/// What an entry of an element section becomes. The elements are transformed before the offset.
pub open spec fn element_entry(
    wasm: Seq<u8>,
    entry: Result<ElementEntry, BinaryReaderError>,
) -> Result<SegmentView, Stop> {
    match entry {
        Ok(element) => match element_items(wasm, element.items) {
            Ok(items) => match element_mode(wasm, element.mode) {
                Ok(mode) => Ok(SegmentView { mode, ty: element.ty, items }),
                Err(stop) => Err(stop),
            },
            Err(stop) => Err(stop),
        },
        Err(error) => Err(Stop::Failed(Error::ParseElement(error))),
    }
}

/// What the entries of an element section become.
pub open spec fn element_entries(
    wasm: Seq<u8>,
    entries: Seq<Result<ElementEntry, BinaryReaderError>>,
) -> (Seq<SegmentView>, Result<(), Stop>) {
    traverse(entries, |entry| element_entry(wasm, entry))
}

fn transform_element<'a>(
    wasm: &'a [u8],
    entry: Result<ElementEntry, BinaryReaderError>,
) -> (r: Result<Segment<'a>, Stop>)
    ensures
        result_view(r) == element_entry(wasm@, entry),
{
    match entry {
        Ok(element) => {
            let items = transform_element_items(wasm, element.items)?;
            let mode = transform_element_mode(wasm, element.mode)?;
            Ok(Segment { mode, ty: element.ty, items })
        },
        Err(error) => Err(Stop::Failed(Error::ParseElement(error))),
    }
}

/// Takes the entries of an element section of the module.
pub fn transform_elements<'a>(
    wasm: &'a [u8],
    entries: Vec<Result<ElementEntry, BinaryReaderError>>,
) -> (r: (Vec<Segment<'a>>, Result<(), Stop>))
    ensures
        (views(r.0@), r.1) == element_entries(wasm@, entries@),
{
    handle_in(wasm, entries, transform_element, Ghost(|entry| element_entry(wasm@, entry)))
}

} // verus!
