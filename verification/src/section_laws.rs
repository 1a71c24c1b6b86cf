//! What becomes of each section of a module, entry by entry.
use std::ops::Range;
use vstd::prelude::*;
use wasmparser::BinaryReaderError;

use crate::context::ContextView;
use crate::entries::{
    element_entry, element_expression, element_function, element_items, export_entry,
    function_entry, global_entry, import_entry, init_expr_at, type_entry,
};
use crate::error::{Error, Stop};
use crate::model::{
    ElementEntry, EntityType, EntryItems, EntryMode, Export, ExportKind, ExportView, FuncTypeView,
    GlobalEntry, GlobalView, Import, ImportView, InitExprView, Payload, RawSectionView,
    SegmentItemsView, SegmentModeView, SegmentView, ValueType,
};
use crate::read::{
    wasm_elements, wasm_exports, wasm_exprs, wasm_globals, wasm_imports, wasm_indices,
    wasm_ref_func, wasm_types,
};
use crate::traverse::{law_first_stop_decides, traverse};

verus! {

/// That `added` has one item for each of `entries`, in order, up to the first entry that cannot be
/// taken, and that `r` tells why that one cannot. An entry cannot be taken if it cannot be read, or
/// if it is refused.
pub open spec fn taken<T, U>(
    entries: Seq<Result<T, BinaryReaderError>>,
    added: Seq<U>,
    r: Result<(), Stop>,
    becomes: spec_fn(T, U) -> bool,
    refused: spec_fn(T, Stop) -> bool,
    unreadable: spec_fn(BinaryReaderError) -> Error,
) -> bool {
    &&& added.len() <= entries.len()
    &&& forall|i: int|
        0 <= i < added.len() ==> entries[i] is Ok && becomes(
            entries[i]->Ok_0,
            #[trigger] added[i],
        )
    &&& r is Ok ==> added.len() == entries.len()
    &&& r is Err ==> added.len() < entries.len() && match entries[added.len() as int] {
        Ok(entry) => refused(entry, r->Err_0),
        Err(error) => r->Err_0 == Stop::Failed(unreadable(error)),
    }
}

/// A list whose items are handled one by one is taken, if what becomes of an item is known.
pub proof fn lemma_taken<T, U>(
    entries: Seq<Result<T, BinaryReaderError>>,
    f: spec_fn(Result<T, BinaryReaderError>) -> Result<U, Stop>,
    becomes: spec_fn(T, U) -> bool,
    refused: spec_fn(T, Stop) -> bool,
    unreadable: spec_fn(BinaryReaderError) -> Error,
)
    requires
        forall|entry: T|
            match #[trigger] f(Ok(entry)) {
                Ok(item) => becomes(entry, item),
                Err(stop) => refused(entry, stop),
            },
        forall|error: BinaryReaderError| #[trigger]
            f(Err(error)) == Err::<U, Stop>(Stop::Failed(unreadable(error))),
    ensures
        taken(
            entries,
            traverse(entries, f).0,
            traverse(entries, f).1,
            becomes,
            refused,
            unreadable,
        ),
{
    law_first_stop_decides(entries, f);
    let (added, r) = traverse(entries, f);
    assert forall|i: int| 0 <= i < added.len() implies entries[i] is Ok && becomes(
        entries[i]->Ok_0,
        #[trigger] added[i],
    ) by {
        match entries[i] {
            Ok(entry) => {
                assert(f(Ok(entry)) == Ok::<U, Stop>(added[i]));
            },
            Err(error) => {
                assert(f(Err(error)) == Ok::<U, Stop>(added[i]));
            },
        }
    }
    if r is Err {
        match entries[added.len() as int] {
            Ok(entry) => {
                assert(f(Ok(entry)) == Err::<U, Stop>(r->Err_0));
            },
            Err(error) => {
                assert(f(Err(error)) == Err::<U, Stop>(r->Err_0));
            },
        }
    }
}

/// That a function index is too large to leave room for the functions of the host.
pub open spec fn too_large(index: u32, stop: Stop) -> bool {
    index + 2 > u32::MAX && stop == Stop::OutOfRange
}

/// What is behind the first `count` items.
pub open spec fn behind<T>(items: Seq<T>, count: nat) -> Seq<T> {
    items.skip(count as int)
}

/// The list of sections with `id` as the next one to be written anew, if `r` is no failure.
pub open spec fn next_anew(sections: Seq<RawSectionView>, id: u8, r: Result<(), Stop>) -> Seq<
    RawSectionView,
> {
    if r is Ok {
        sections + seq![RawSectionView { id, data: Seq::empty() }]
    } else {
        sections
    }
}

/// How an entry of an export section and the export that it becomes belong together: the index of a
/// function grows by two, and all else stays.
pub open spec fn same_export(entry: Export<'static>, export: ExportView) -> bool {
    &&& export.name == entry.name@
    &&& export.kind == entry.kind
    &&& entry.kind == ExportKind::Func ==> export.index == entry.index + 2
    &&& entry.kind != ExportKind::Func ==> export.index == entry.index
}

/// A section that is written anew is scheduled behind all others, and nothing else changes.
pub proof fn law_section_is_scheduled_last(context: ContextView, id: u8)
    ensures
        context.scheduled(id) == (ContextView {
            raw_sections: context.raw_sections + seq![RawSectionView { id, data: Seq::empty() }],
            ..context
        }),
{
    assert(context.scheduled(id).raw_sections =~= context.raw_sections + seq![
        RawSectionView { id, data: Seq::empty() },
    ]);
}

/// An export section adds one export for each of its entries, in order: each has the name and the
/// kind of its entry, and its index too, except that the index of a function is larger by two.
pub proof fn law_exports_are_kept(context: ContextView, range: Range<usize>)
    requires
        range.start <= range.end <= context.wasm.len(),
    ensures
        ({
            let data = context.wasm.subrange(range.start as int, range.end as int);
            let (after, r) = context.with_payload(Payload::Exports(range));
            let added = behind(after.export_section, context.export_section.len());
            &&& after == (ContextView {
                export_section: context.export_section + added,
                raw_sections: next_anew(context.raw_sections, 7, r),
                ..context
            })
            &&& taken(
                wasm_exports(data, range.start),
                added,
                r,
                |entry: Export<'static>, export: ExportView| same_export(entry, export),
                |entry: Export<'static>, stop: Stop|
                    entry.kind == ExportKind::Func && too_large(entry.index, stop),
                |error: BinaryReaderError| Error::ParseExport(error),
            )
        }),
{
    let data = context.wasm.subrange(range.start as int, range.end as int);
    let entries = wasm_exports(data, range.start);
    let f = |entry| export_entry(entry);
    let (after, r) = context.with_payload(Payload::Exports(range));
    assert(behind(after.export_section, context.export_section.len()) =~= traverse(entries, f).0);
    assert(after.raw_sections =~= next_anew(context.raw_sections, 7, r));
    lemma_taken(
        entries,
        f,
        |entry: Export<'static>, export: ExportView| same_export(entry, export),
        |entry: Export<'static>, stop: Stop|
            entry.kind == ExportKind::Func && too_large(entry.index, stop),
        |error: BinaryReaderError| Error::ParseExport(error),
    );
}

/// A type section adds its types, in order and as they are, to those that are written and to those
/// that are remembered.
pub proof fn law_types_are_kept(context: ContextView, range: Range<usize>)
    requires
        range.start <= range.end <= context.wasm.len(),
    ensures
        ({
            let data = context.wasm.subrange(range.start as int, range.end as int);
            let (after, r) = context.with_payload(Payload::Types(range));
            let added = behind(after.types, context.types.len());
            &&& after == (ContextView {
                types: context.types + added,
                type_section: context.type_section + added,
                ..context
            })
            &&& taken(
                wasm_types(data, range.start),
                added,
                r,
                |entry: FuncTypeView, ty: FuncTypeView| ty == entry,
                |entry: FuncTypeView, stop: Stop| false,
                |error: BinaryReaderError| Error::ParseType(error),
            )
        }),
{
    let data = context.wasm.subrange(range.start as int, range.end as int);
    let entries = wasm_types(data, range.start);
    let f = |entry| type_entry(entry);
    let after = context.with_payload(Payload::Types(range)).0;
    assert(behind(after.types, context.types.len()) =~= traverse(entries, f).0);
    lemma_taken(
        entries,
        f,
        |entry: FuncTypeView, ty: FuncTypeView| ty == entry,
        |entry: FuncTypeView, stop: Stop| false,
        |error: BinaryReaderError| Error::ParseType(error),
    );
}

/// That an import is the function of the host of that name, and that its type is `ty`.
pub open spec fn is_host_import(
    context: ContextView,
    import: ImportView,
    name: Seq<char>,
    ty: nat,
) -> bool {
    &&& import.module == context.import_env
    &&& import.name == name
    &&& import.ty matches EntityType::Function(index) && index == ty
}

/// The functions of the host are imported when they are first needed: they become the first two
/// imports, and their types come behind all others. One takes a 64 bit integer, the other two, and
/// both give nothing. Nothing else changes, and nothing at all if there are imports already.
pub proof fn law_host_is_imported_once(context: ContextView)
    ensures
        ({
            let (after, r) = context.with_host_imports();
            let count = context.type_section.len();
            let gas = after.type_section[count as int];
            let stack = after.type_section[count as int + 1];
            if context.import_section.len() > 0 {
                after == context && r is Ok
            } else if count + 2 > u32::MAX {
                after == context && r == Err::<(), Stop>(Stop::OutOfRange)
            } else {
                &&& r is Ok
                &&& after == (ContextView {
                    type_section: context.type_section + behind(after.type_section, count),
                    import_section: after.import_section,
                    ..context
                })
                &&& after.type_section.len() == count + 2
                &&& gas.params == seq![ValueType::I64]
                &&& gas.results.len() == 0
                &&& stack.params == seq![ValueType::I64, ValueType::I64]
                &&& stack.results.len() == 0
                &&& after.import_section.len() == 2
                &&& is_host_import(context, after.import_section[0], "finite_wasm_gas"@, count)
                &&& is_host_import(
                    context,
                    after.import_section[1],
                    "finite_wasm_stack"@,
                    count + 1,
                )
            }
        }),
{
    let (after, r) = context.with_host_imports();
    if context.import_section.len() == 0 && r is Ok {
        let added = behind(after.type_section, context.type_section.len());
        assert(after.type_section =~= context.type_section + added);
    }
}

/// That an import is the one that was given.
pub open spec fn same_import(entry: Import<'static>, import: ImportView) -> bool {
    &&& import.module == entry.module@
    &&& import.name == entry.name@
    &&& import.ty == entry.ty
}

/// Imports that are taken are added in order and as they are.
pub proof fn law_imports_are_kept(
    context: ContextView,
    entries: Seq<Result<Import<'static>, BinaryReaderError>>,
)
    ensures
        ({
            let (after, r) = context.with_imports(entries);
            let added = behind(after.import_section, context.import_section.len());
            &&& after == (ContextView { import_section: context.import_section + added, ..context })
            &&& taken(
                entries,
                added,
                r,
                |entry: Import<'static>, import: ImportView| same_import(entry, import),
                |entry: Import<'static>, stop: Stop| false,
                |error: BinaryReaderError| Error::ParseImport(error),
            )
        }),
{
    let f = |entry| import_entry(entry);
    let after = context.with_imports(entries).0;
    assert(behind(after.import_section, context.import_section.len()) =~= traverse(entries, f).0);
    lemma_taken(
        entries,
        f,
        |entry: Import<'static>, import: ImportView| same_import(entry, import),
        |entry: Import<'static>, stop: Stop| false,
        |error: BinaryReaderError| Error::ParseImport(error),
    );
}

/// The imports of an import section come behind those of the host.
pub proof fn law_imports_come_behind_the_host(context: ContextView, range: Range<usize>)
    requires
        range.start <= range.end <= context.wasm.len(),
    ensures
        ({
            let data = context.wasm.subrange(range.start as int, range.end as int);
            let (ready, host) = context.with_host_imports();
            if host is Err {
                context.with_payload(Payload::Imports(range)) == (ready, host)
            } else {
                context.with_payload(Payload::Imports(range)) == ready.with_imports(
                    wasm_imports(data, range.start),
                )
            }
        }),
{
}

/// A function section adds its functions, in order and as they are, if all of them can be read,
/// and it is for their bodies that are to come. Otherwise nothing changes.
pub proof fn law_functions_are_kept(context: ContextView, range: Range<usize>)
    requires
        range.start <= range.end <= context.wasm.len(),
    ensures
        ({
            let data = context.wasm.subrange(range.start as int, range.end as int);
            let entries = wasm_indices(data, range.start);
            let (after, r) = context.with_payload(Payload::Functions(range));
            &&& r is Ok ==> after == (ContextView {
                function_section: context.function_section + after.function_types,
                function_types: after.function_types,
                raw_sections: next_anew(context.raw_sections, 3, r),
                ..context
            }) && after.function_types.len() == entries.len() && forall|i: int|
                0 <= i < entries.len() ==> #[trigger] entries[i] == Ok::<u32, BinaryReaderError>(
                    after.function_types[i],
                )
            &&& r is Err ==> after == context && exists|k: int|
                0 <= k < entries.len() && (#[trigger] entries[k]) is Err && r->Err_0
                    == Stop::Failed(Error::ParseFunctionTyId(entries[k]->Err_0)) && forall|i: int|
                    0 <= i < k ==> (#[trigger] entries[i]) is Ok
        }),
{
    let data = context.wasm.subrange(range.start as int, range.end as int);
    let entries = wasm_indices(data, range.start);
    let f = |entry| function_entry(entry);
    let (after, r) = context.with_payload(Payload::Functions(range));
    law_first_stop_decides(entries, f);
    let done = traverse(entries, f).0;
    assert forall|i: int| 0 <= i < done.len() implies #[trigger] entries[i] == Ok::<
        u32,
        BinaryReaderError,
    >(done[i]) by {
        assert(f(entries[i]) == Ok::<u32, Stop>(done[i]));
    }
    if r is Ok {
        assert(after.raw_sections =~= next_anew(context.raw_sections, 3, r));
    } else {
        let k = done.len() as int;
        assert(f(entries[k]) == Err::<u32, Stop>(r->Err_0));
        assert(entries[k] is Err);
    }
}

/// The start function stays the same: its index grows by two.
pub proof fn law_start_is_kept(context: ContextView, index: u32)
    ensures
        ({
            let (after, r) = context.with_payload(Payload::Start(index));
            if index + 2 <= u32::MAX {
                &&& r is Ok
                &&& after.start_section == index + 2
                &&& after == (ContextView {
                    start_section: after.start_section,
                    raw_sections: next_anew(context.raw_sections, 8, r),
                    ..context
                })
            } else {
                after == context && r == Err::<(), Stop>(Stop::OutOfRange)
            }
        }),
{
    let (after, r) = context.with_payload(Payload::Start(index));
    if r is Ok {
        assert(after.raw_sections =~= next_anew(context.raw_sections, 8, r));
    }
}

/// How a constant expression at `range` of the module and the one that is written belong together.
/// One that refers to a function refers to it by an index that is larger by two; any other is
/// written as it is, except that the `end` that closes it is left out.
pub open spec fn same_expr(wasm: Seq<u8>, range: Range<usize>, init: InitExprView) -> bool {
    let data = wasm.subrange(range.start as int, range.end as int);
    &&& range.start <= range.end <= wasm.len()
    &&& match (wasm_ref_func(data, range.start), init) {
        (Ok(Some(index)), InitExprView::RefFunc(moved)) => moved == index + 2,
        (Ok(None), InitExprView::Raw(bytes)) => data == bytes + seq![data.last()] && data.len() > 0,
        _ => false,
    }
}

/// Why a constant expression at `range` of the module cannot be taken.
pub open spec fn expr_refused(wasm: Seq<u8>, range: Range<usize>, stop: Stop) -> bool {
    if range.start <= range.end <= wasm.len() {
        let data = wasm.subrange(range.start as int, range.end as int);
        match wasm_ref_func(data, range.start) {
            Ok(Some(index)) => too_large(index, stop),
            Ok(None) => data.len() == 0 && stop == Stop::OutOfRange,
            Err(error) => stop == Stop::Failed(Error::ParseConstExprOperator(error)),
        }
    } else {
        stop == Stop::OutOfRange
    }
}

proof fn lemma_same_expr(wasm: Seq<u8>, range: Range<usize>)
    ensures
        match init_expr_at(wasm, range) {
            Ok(init) => same_expr(wasm, range, init),
            Err(stop) => expr_refused(wasm, range, stop),
        },
{
    if range.start <= range.end <= wasm.len() {
        let data = wasm.subrange(range.start as int, range.end as int);
        if data.len() > 0 {
            assert(data =~= data.drop_last() + seq![data.last()]);
        }
    }
}

/// A global section adds one global for each of its entries, in order: each has the type and the
/// initial value of its entry.
pub proof fn law_globals_are_kept(context: ContextView, range: Range<usize>)
    requires
        range.start <= range.end <= context.wasm.len(),
    ensures
        ({
            let data = context.wasm.subrange(range.start as int, range.end as int);
            let (after, r) = context.with_payload(Payload::Globals(range));
            let added = behind(after.global_section, context.global_section.len());
            &&& after == (ContextView {
                global_section: context.global_section + added,
                raw_sections: next_anew(context.raw_sections, 6, r),
                ..context
            })
            &&& taken(
                wasm_globals(data, range.start),
                added,
                r,
                |entry: GlobalEntry, global: GlobalView|
                    global.ty == entry.ty && same_expr(context.wasm, entry.init, global.init),
                |entry: GlobalEntry, stop: Stop| expr_refused(context.wasm, entry.init, stop),
                |error: BinaryReaderError| Error::ParseGlobal(error),
            )
        }),
{
    let wasm = context.wasm;
    let data = wasm.subrange(range.start as int, range.end as int);
    let entries = wasm_globals(data, range.start);
    let f = |entry| global_entry(wasm, entry);
    let (after, r) = context.with_payload(Payload::Globals(range));
    assert(behind(after.global_section, context.global_section.len()) =~= traverse(entries, f).0);
    assert(after.raw_sections =~= next_anew(context.raw_sections, 6, r));
    assert forall|entry: GlobalEntry|
        match #[trigger] f(Ok(entry)) {
            Ok(global) => global.ty == entry.ty && same_expr(wasm, entry.init, global.init),
            Err(stop) => expr_refused(wasm, entry.init, stop),
        } by {
        lemma_same_expr(wasm, entry.init);
    }
    lemma_taken(
        entries,
        f,
        |entry: GlobalEntry, global: GlobalView|
            global.ty == entry.ty && same_expr(context.wasm, entry.init, global.init),
        |entry: GlobalEntry, stop: Stop| expr_refused(context.wasm, entry.init, stop),
        |error: BinaryReaderError| Error::ParseGlobal(error),
    );
}

/// That the place of an element segment is the one that was given: a segment that is not active
/// stays so, and an active one stays in its table, at its offset.
pub open spec fn same_mode(wasm: Seq<u8>, entry: EntryMode, mode: SegmentModeView) -> bool {
    match (entry, mode) {
        (EntryMode::Passive, SegmentModeView::Passive) => true,
        (EntryMode::Declared, SegmentModeView::Declared) => true,
        (EntryMode::Active(table, range), SegmentModeView::Active(same, offset)) => same == table
            && same_expr(wasm, range, offset),
        _ => false,
    }
}

/// How the functions at `range` of the module and those that an element segment has belong
/// together: each has an index that is larger by two.
pub open spec fn functions_taken(
    wasm: Seq<u8>,
    range: Range<usize>,
    functions: Seq<u32>,
    r: Result<(), Stop>,
) -> bool {
    &&& range.start <= range.end <= wasm.len()
    &&& taken(
        wasm_indices(wasm.subrange(range.start as int, range.end as int), range.start),
        functions,
        r,
        |index: u32, moved: u32| moved == index + 2,
        |index: u32, why: Stop| too_large(index, why),
        |error: BinaryReaderError| Error::ParseElementItem(error),
    )
}

/// How the expressions at `range` of the module and those that an element segment has belong
/// together.
pub open spec fn exprs_taken(
    wasm: Seq<u8>,
    range: Range<usize>,
    exprs: Seq<InitExprView>,
    r: Result<(), Stop>,
) -> bool {
    &&& range.start <= range.end <= wasm.len()
    &&& taken(
        wasm_exprs(wasm.subrange(range.start as int, range.end as int), range.start),
        exprs,
        r,
        |at: Range<usize>, expr: InitExprView| same_expr(wasm, at, expr),
        |at: Range<usize>, why: Stop| expr_refused(wasm, at, why),
        |error: BinaryReaderError| Error::ParseElementExpression(error),
    )
}

/// That the elements of a segment are those that were given, in order: as many functions, or as
/// many expressions.
pub open spec fn same_items(wasm: Seq<u8>, entry: EntryItems, items: SegmentItemsView) -> bool {
    match (entry, items) {
        (EntryItems::Functions(range), SegmentItemsView::Functions(functions)) => functions_taken(
            wasm,
            range,
            functions,
            Ok(()),
        ),
        (EntryItems::Expressions(range), SegmentItemsView::Expressions(exprs)) => exprs_taken(
            wasm,
            range,
            exprs,
            Ok(()),
        ),
        _ => false,
    }
}

/// Why the elements of a segment cannot be taken: the first one that cannot decides.
pub open spec fn items_refused(wasm: Seq<u8>, entry: EntryItems, stop: Stop) -> bool {
    match entry {
        EntryItems::Functions(range) => if range.start <= range.end <= wasm.len() {
            exists|before: Seq<u32>| #[trigger] functions_taken(wasm, range, before, Err(stop))
        } else {
            stop == Stop::OutOfRange
        },
        EntryItems::Expressions(range) => if range.start <= range.end <= wasm.len() {
            exists|before: Seq<InitExprView>| #[trigger]
                exprs_taken(wasm, range, before, Err(stop))
        } else {
            stop == Stop::OutOfRange
        },
    }
}

proof fn lemma_same_items(wasm: Seq<u8>, entry: EntryItems)
    ensures
        match element_items(wasm, entry) {
            Ok(items) => same_items(wasm, entry, items),
            Err(stop) => items_refused(wasm, entry, stop),
        },
{
    match entry {
        EntryItems::Functions(range) => {
            if range.start <= range.end <= wasm.len() {
                let data = wasm.subrange(range.start as int, range.end as int);
                let entries = wasm_indices(data, range.start);
                let f = |entry| element_function(entry);
                let (added, r) = traverse(entries, f);
                lemma_taken(
                    entries,
                    f,
                    |index: u32, moved: u32| moved == index + 2,
                    |index: u32, why: Stop| too_large(index, why),
                    |error: BinaryReaderError| Error::ParseElementItem(error),
                );
                assert(functions_taken(wasm, range, added, r));
            }
        },
        EntryItems::Expressions(range) => {
            if range.start <= range.end <= wasm.len() {
                let data = wasm.subrange(range.start as int, range.end as int);
                let entries = wasm_exprs(data, range.start);
                let f = |entry| element_expression(wasm, entry);
                let (added, r) = traverse(entries, f);
                assert forall|at: Range<usize>|
                    match #[trigger] f(Ok(at)) {
                        Ok(expr) => same_expr(wasm, at, expr),
                        Err(stop) => expr_refused(wasm, at, stop),
                    } by {
                    lemma_same_expr(wasm, at);
                }
                lemma_taken(
                    entries,
                    f,
                    |at: Range<usize>, expr: InitExprView| same_expr(wasm, at, expr),
                    |at: Range<usize>, why: Stop| expr_refused(wasm, at, why),
                    |error: BinaryReaderError| Error::ParseElementExpression(error),
                );
                assert(exprs_taken(wasm, range, added, r));
            }
        },
    }
}

/// That an element segment is the one that was given.
pub open spec fn same_segment(wasm: Seq<u8>, entry: ElementEntry, segment: SegmentView) -> bool {
    &&& segment.ty == entry.ty
    &&& same_mode(wasm, entry.mode, segment.mode)
    &&& same_items(wasm, entry.items, segment.items)
}

/// Why an element segment cannot be taken: its elements come before its offset.
pub open spec fn segment_refused(wasm: Seq<u8>, entry: ElementEntry, stop: Stop) -> bool {
    ||| items_refused(wasm, entry.items, stop)
    ||| {
        &&& exists|items: SegmentItemsView| #[trigger] same_items(wasm, entry.items, items)
        &&& entry.mode matches EntryMode::Active(_, range) && expr_refused(wasm, range, stop)
    }
}

/// An element section adds one segment for each of its entries, in order: each has the type, the
/// place and the elements of its entry.
pub proof fn law_elements_are_kept(context: ContextView, range: Range<usize>)
    requires
        range.start <= range.end <= context.wasm.len(),
    ensures
        ({
            let data = context.wasm.subrange(range.start as int, range.end as int);
            let (after, r) = context.with_payload(Payload::Elements(range));
            let added = behind(after.element_section, context.element_section.len());
            &&& after == (ContextView {
                element_section: context.element_section + added,
                raw_sections: next_anew(context.raw_sections, 9, r),
                ..context
            })
            &&& taken(
                wasm_elements(data, range.start),
                added,
                r,
                |entry: ElementEntry, segment: SegmentView|
                    same_segment(context.wasm, entry, segment),
                |entry: ElementEntry, stop: Stop| segment_refused(context.wasm, entry, stop),
                |error: BinaryReaderError| Error::ParseElement(error),
            )
        }),
{
    let wasm = context.wasm;
    let data = wasm.subrange(range.start as int, range.end as int);
    let entries = wasm_elements(data, range.start);
    let f = |entry| element_entry(wasm, entry);
    let (after, r) = context.with_payload(Payload::Elements(range));
    assert(behind(after.element_section, context.element_section.len()) =~= traverse(
        entries,
        f,
    ).0);
    assert(after.raw_sections =~= next_anew(context.raw_sections, 9, r));
    assert forall|entry: ElementEntry|
        match #[trigger] f(Ok(entry)) {
            Ok(segment) => same_segment(wasm, entry, segment),
            Err(stop) => segment_refused(wasm, entry, stop),
        } by {
        lemma_same_items(wasm, entry.items);
        if let EntryMode::Active(_, at) = entry.mode {
            lemma_same_expr(wasm, at);
        }
        if let Ok(items) = element_items(wasm, entry.items) {
            assert(same_items(wasm, entry.items, items));
        }
    }
    lemma_taken(
        entries,
        f,
        |entry: ElementEntry, segment: SegmentView| same_segment(context.wasm, entry, segment),
        |entry: ElementEntry, stop: Stop| segment_refused(context.wasm, entry, stop),
        |error: BinaryReaderError| Error::ParseElement(error),
    );
}

/// The header and the end of a module leave no trace, and the beginning of a code section lets it
/// be the next one to be written. Every other section is copied byte for byte; a piece of the
/// module that is no section at all is refused.
pub proof fn law_other_pieces_are_copied(
    context: ContextView,
    name: &'static str,
    data_offset: usize,
    id: u8,
    range: Range<usize>,
)
    requires
        range.start <= range.end <= context.wasm.len(),
        name@ != "name"@,
    ensures
        ({
            let data = context.wasm.subrange(range.start as int, range.end as int);
            &&& context.with_payload(Payload::Header) == (context, Ok::<(), Stop>(()))
            &&& context.with_payload(Payload::Finish) == (context, Ok::<(), Stop>(()))
            &&& context.with_payload(Payload::CodeStart) == (
                ContextView {
                    raw_sections: next_anew(context.raw_sections, 10, Ok(())),
                    ..context
                },
                Ok::<(), Stop>(()),
            )
            &&& context.with_payload(Payload::Custom(name, data_offset, range)) == (
                ContextView {
                    raw_sections: context.raw_sections + seq![RawSectionView { id: 0, data }],
                    ..context
                },
                Ok::<(), Stop>(()),
            )
            &&& context.with_payload(Payload::Other(Some((id, range)))) == (
                ContextView {
                    raw_sections: context.raw_sections + seq![RawSectionView { id, data }],
                    ..context
                },
                Ok::<(), Stop>(()),
            )
            &&& context.with_payload(Payload::Other(None)) == (
                context,
                Err::<(), Stop>(Stop::OutOfRange),
            )
        }),
{
    let data = context.wasm.subrange(range.start as int, range.end as int);
    assert(next_anew(context.raw_sections, 10, Ok(())) =~= context.raw_sections.push(
        RawSectionView { id: 10, data: Seq::empty() },
    ));
    assert(context.raw_sections + seq![RawSectionView { id: 0, data }]
        =~= context.raw_sections.push(RawSectionView { id: 0, data }));
    assert(context.raw_sections + seq![RawSectionView { id, data }] =~= context.raw_sections.push(
        RawSectionView { id, data },
    ));
}

/// A piece of a module that does not lie within the module is refused, and nothing is taken of it.
pub proof fn law_pieces_lie_within_the_module(
    context: ContextView,
    name: &'static str,
    data_offset: usize,
    id: u8,
    range: Range<usize>,
)
    requires
        !(range.start <= range.end <= context.wasm.len()),
    ensures
        ({
            let refused = (context, Err::<(), Stop>(Stop::OutOfRange));
            &&& context.with_payload(Payload::Types(range)) == refused
            &&& context.with_payload(Payload::Imports(range)) == refused
            &&& context.with_payload(Payload::Functions(range)) == refused
            &&& context.with_payload(Payload::Exports(range)) == refused
            &&& context.with_payload(Payload::Globals(range)) == refused
            &&& context.with_payload(Payload::Elements(range)) == refused
            &&& context.with_payload(Payload::Other(Some((id, range)))) == refused
            &&& name@ != "name"@ ==> context.with_payload(
                Payload::Custom(name, data_offset, range),
            ) == refused
        }),
{
}

} // verus!
