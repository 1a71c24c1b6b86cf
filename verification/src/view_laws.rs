//! What the views of plain values show: every part of a value, as it is.
use vstd::prelude::*;
use wasmparser::BinaryReaderError;

use crate::analysis::AnalysisOutcome;
use crate::code::Metering;
use crate::context::locals_view;
use crate::error::Stop;
use crate::model::{
    read_views, result_view, views, Body, BodyView, CodeItem, CodeItemView, Export, FuncType,
    Global, Import, IndirectNaming, InitExpr, InitExprView, Naming, RawSection, Segment,
    SegmentItems, SegmentItemsView, SegmentMode, SegmentModeView, Subsection, SubsectionView,
    ValueType,
};
use crate::names::subsection_view;

verus! {

/// The views of a list are those of its items, in order.
pub proof fn law_views_are_those_of_the_items<T: View>(items: Seq<T>, i: int)
    requires
        0 <= i < items.len(),
    ensures
        views(items).len() == items.len(),
        views(items)[i] == items[i]@,
{
}

/// What could be read is seen as it is, and so is the reason why something could not.
pub proof fn law_results_are_seen_as_they_are<T: View, E>(
    r: Result<T, E>,
    items: Seq<Result<T, E>>,
    i: int,
)
    requires
        0 <= i < items.len(),
    ensures
        r matches Ok(value) ==> result_view(r) == Ok::<T::V, E>(value@),
        r matches Err(error) ==> result_view(r) == Err::<T::V, E>(error),
        read_views(items).len() == items.len(),
        read_views(items)[i] == result_view(items[i]),
{
}

/// The locals of a function body are seen as they are.
pub proof fn law_locals_are_seen_as_they_are(
    r: Result<Result<Vec<(u32, ValueType)>, BinaryReaderError>, BinaryReaderError>,
)
    ensures
        match (r, locals_view(r)) {
            (Ok(Ok(locals)), Ok(Ok(seen))) => seen == locals@,
            (Ok(Err(error)), Ok(Err(seen))) => seen == error,
            (Err(error), Err(seen)) => seen == error,
            _ => false,
        },
{
}

/// A part of the name section is seen as it is, if there is one.
pub proof fn law_subsections_are_seen_as_they_are(r: Result<Option<Subsection<'static>>, Stop>)
    ensures
        match (r, subsection_view(r)) {
            (Ok(Some(subsection)), Ok(Some(seen))) => seen == subsection@,
            (Ok(None), Ok(None)) => true,
            (Err(stop), Err(seen)) => seen == stop,
            _ => false,
        },
{
}

/// An analysis is seen list by list and entry by entry.
pub proof fn law_analysis_is_seen_as_it_is(outcome: AnalysisOutcome)
    ensures
        outcome@.function_operand_stack_sizes == outcome.function_operand_stack_sizes@,
        outcome@.function_frame_sizes == outcome.function_frame_sizes@,
        outcome@.gas_offsets.len() == outcome.gas_offsets@.len(),
        forall|i: int|
            0 <= i < outcome.gas_offsets@.len() ==> outcome@.gas_offsets[i]
                == (#[trigger] outcome.gas_offsets@[i])@,
        outcome@.gas_costs.len() == outcome.gas_costs@.len(),
        forall|i: int|
            0 <= i < outcome.gas_costs@.len() ==> outcome@.gas_costs[i]
                == (#[trigger] outcome.gas_costs@[i])@,
        outcome@.gas_kinds.len() == outcome.gas_kinds@.len(),
        forall|i: int|
            0 <= i < outcome.gas_kinds@.len() ==> outcome@.gas_kinds[i]
                == (#[trigger] outcome.gas_kinds@[i])@,
{
}

/// A metering is seen with both sizes, and with one point for each entry that all three lists on
/// gas have.
pub proof fn law_metering_is_seen_as_it_is(metering: Metering<'_>)
    ensures
        metering@.stack == metering.stack,
        metering@.frame == metering.frame,
        forall|i: int|
            0 <= i < metering@.points.len() <==> 0 <= i < metering.offsets@.len() && i
                < metering.costs@.len() && #[trigger] has_kind(metering, i),
        forall|i: int|
            0 <= i < metering@.points.len() ==> {
                &&& (#[trigger] metering@.points[i]).offset == metering.offsets@[i]
                &&& metering@.points[i].cost == metering.costs@[i]
                &&& metering@.points[i].kind == metering.kinds@[i]
            },
{
}

/// That the list of kinds has an entry `i`.
pub open spec fn has_kind(metering: Metering<'_>, i: int) -> bool {
    0 <= i < metering.kinds@.len()
}

/// A function type is seen with its parameters and its results, an import with its two names and
/// what it is, an export with its name, its kind and its index, and a global with its type and its
/// initial value.
pub proof fn law_entries_are_seen_as_they_are(
    ty: FuncType,
    import: Import<'_>,
    export: Export<'_>,
    global: Global<'_>,
)
    ensures
        ty@.params == ty.params@,
        ty@.results == ty.results@,
        import@.module == import.module@,
        import@.name == import.name@,
        import@.ty == import.ty,
        export@.name == export.name@,
        export@.kind == export.kind,
        export@.index == export.index,
        global@.ty == global.ty,
        global@.init == global.init@,
{
}

/// A constant expression is seen as what it is.
pub proof fn law_expressions_are_seen_as_they_are(expr: InitExpr<'_>)
    ensures
        expr matches InitExpr::RefFunc(index) ==> expr@ == InitExprView::RefFunc(index),
        expr matches InitExpr::Raw(bytes) ==> expr@ == InitExprView::Raw(bytes@),
{
}

/// An element segment is seen with its place, its type and its elements.
pub proof fn law_segments_are_seen_as_they_are(segment: Segment<'_>)
    ensures
        segment@.ty == segment.ty,
        segment.mode is Passive ==> segment@.mode is Passive,
        segment.mode is Declared ==> segment@.mode is Declared,
        segment.mode matches SegmentMode::Active(table, offset) ==> segment@.mode
            == SegmentModeView::Active(table, offset@),
        segment.items matches SegmentItems::Functions(indices) ==> segment@.items
            == SegmentItemsView::Functions(indices@),
        segment.items matches SegmentItems::Expressions(exprs) ==> segment@.items
            == SegmentItemsView::Expressions(views(exprs@)),
{
}

/// Names are seen with the indices of what they name.
pub proof fn law_names_are_seen_as_they_are(
    naming: Naming<'_>,
    inner: IndirectNaming<'_>,
    subsection: Subsection<'_>,
)
    ensures
        naming@.index == naming.index,
        naming@.name == naming.name@,
        inner@.index == inner.index,
        inner@.names == views(inner.names@),
        subsection matches Subsection::Module(name) ==> subsection@ == SubsectionView::Module(
            name@,
        ),
        subsection matches Subsection::Names(kind, names) ==> subsection@ == SubsectionView::Names(
            kind,
            views(names@),
        ),
        subsection matches Subsection::Indirect(kind, names) ==> subsection@
            == SubsectionView::Indirect(kind, views(names@)),
{
}

/// A function body is seen with its locals and its code, and a section with its identifier and its
/// contents.
pub proof fn law_code_is_seen_as_it_is(body: Body<'_>, item: CodeItem<'_>, raw: RawSection<'_>)
    ensures
        body@ == (BodyView { locals: body.locals@, code: views(body.code@) }),
        item matches CodeItem::Instr(instr) ==> item@ == CodeItemView::Instr(instr),
        item matches CodeItem::Raw(bytes) ==> item@ == CodeItemView::Raw(bytes@),
        raw@.id == raw.id,
        raw@.data == raw.data@,
{
}

} // verus!
