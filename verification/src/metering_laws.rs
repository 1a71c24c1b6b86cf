//! What holds of the metering of a function body, from the analysis to the code section.
use std::ops::Range;
use vstd::prelude::*;
use wasmparser::BinaryReaderError;

use crate::analysis::AnalysisView;
use crate::body_laws::{
    contributions, law_body_is_entry_and_contributions, law_stack_is_given_back, taken_on_entry,
};
use crate::code::{BodyText, MeteringView};
use crate::context::{block_type, ContextView};
use crate::error::{Error, Stop};
use crate::model::{
    BlockType, CodeItemView, FuncTypeView, Instr, Operator, Payload, ValueType,
};
use crate::read::{wasm_locals, wasm_operators};
use crate::section_laws::behind;

verus! {

/// That a metering is what an analysis says of the function body `index`: the two sizes, and the
/// points of which the three lists on gas speak, as far as the shortest of them reaches.
pub open spec fn meters(analysis: AnalysisView, index: int, metering: MeteringView) -> bool {
    let offsets = analysis.gas_offsets[index];
    let costs = analysis.gas_costs[index];
    let kinds = analysis.gas_kinds[index];
    let count = metering.points.len();
    &&& index < analysis.function_operand_stack_sizes.len()
    &&& index < analysis.function_frame_sizes.len()
    &&& index < analysis.gas_offsets.len()
    &&& index < analysis.gas_costs.len()
    &&& index < analysis.gas_kinds.len()
    &&& metering.stack == analysis.function_operand_stack_sizes[index]
    &&& metering.frame == analysis.function_frame_sizes[index]
    &&& count <= offsets.len() && count <= costs.len() && count <= kinds.len()
    &&& count == offsets.len() || count == costs.len() || count == kinds.len()
    &&& forall|i: int|
        0 <= i < count ==> (#[trigger] metering.points[i]).offset == offsets[i]
            && metering.points[i].cost == costs[i] && metering.points[i].kind == kinds[i]
}

/// That there is no metering of the function body `index` since the list `field` has no entry for
/// it.
pub open spec fn is_missing(
    r: Result<MeteringView, Stop>,
    field: &'static str,
    index: usize,
) -> bool {
    r == Err::<MeteringView, Stop>(
        Stop::Failed(Error::FunctionMissingInAnalysisOutcome(field, index)),
    )
}

/// That there is no metering of the function body `index` since its size in the list `field` is too
/// large.
pub open spec fn is_too_large(
    r: Result<MeteringView, Stop>,
    field: &'static str,
    index: usize,
) -> bool {
    r matches Err(Stop::Failed(Error::SizeTooLarge(list, body, _))) && list == field && body
        == index
}

/// The metering of a function body is what the analysis says of it, as it is. There is one unless a
/// list of the analysis has no entry for the body, or one of the two sizes is too large to be
/// written as a signed number.
pub proof fn law_metering_is_what_was_analysed(analysis: AnalysisView, index: usize)
    ensures
        ({
            let r = analysis.metering(index);
            if index >= analysis.gas_costs.len() {
                is_missing(r, "gas_costs", index)
            } else if index >= analysis.gas_kinds.len() {
                is_missing(r, "gas_kinds", index)
            } else if index >= analysis.gas_offsets.len() {
                is_missing(r, "gas_offsets", index)
            } else if index >= analysis.function_operand_stack_sizes.len() {
                is_missing(r, "function_operand_stack_sizes", index)
            } else if index >= analysis.function_frame_sizes.len() {
                is_missing(r, "function_frame_sizes", index)
            } else if analysis.function_operand_stack_sizes[index as int] > i64::MAX {
                is_too_large(r, "function_operand_stack_sizes", index)
            } else if analysis.function_frame_sizes[index as int] > i64::MAX {
                is_too_large(r, "function_frame_sizes", index)
            } else {
                r matches Ok(metering) && meters(analysis, index as int, metering)
            }
        }),
{
}

/// That a block of the type `block` can stand around the body of a function of the type `ty`, which
/// is the type `index`: it takes nothing and gives what the function gives. `added` is the type
/// that has to be added as `next` for it, if there is none that could be used.
pub open spec fn block_fits(
    ty: FuncTypeView,
    index: u32,
    next: nat,
    block: BlockType,
    added: Seq<FuncTypeView>,
) -> bool {
    if ty.results.len() == 1 {
        block == BlockType::Result(ty.results[0]) && added.len() == 0
    } else if ty.params.len() > 0 {
        &&& block matches BlockType::FunctionType(last) && last == next
        &&& added == seq![FuncTypeView { params: Seq::empty(), results: ty.results }]
    } else if ty.results.len() == 0 {
        block == BlockType::Empty && added.len() == 0
    } else {
        block == BlockType::FunctionType(index) && added.len() == 0
    }
}

/// That a type has to be added for the block around the body of a function of the type `ty`, and
/// that there is no room for it behind `count` types.
pub open spec fn block_has_no_room(ty: FuncTypeView, count: nat) -> bool {
    ty.results.len() != 1 && ty.params.len() > 0 && count >= u32::MAX
}

/// The block around the body of a function is of the type that fits, if there is room for it.
pub proof fn law_block_fits(ty: FuncTypeView, index: u32, next: nat)
    ensures
        match block_type(ty, index, next) {
            Ok((block, added)) => block_fits(ty, index, next, block, added) && !block_has_no_room(
                ty,
                next,
            ),
            Err(stop) => block_has_no_room(ty, next) && stop == Stop::OutOfRange,
        },
{
}

/// That `code` is what the operators of a body become: the stack is taken, and then each operator
/// contributes its part, in order.
pub open spec fn instruments(
    text: BodyText,
    metering: MeteringView,
    block: BlockType,
    code: Seq<CodeItemView>,
) -> bool {
    &&& forall|i: int|
        0 <= i < text.operators.len() ==> (#[trigger] text.contribution(metering, i)) is Ok
    &&& code == taken_on_entry(metering, block) + contributions(
        text,
        metering,
        text.operators.len(),
    ).flatten()
}

/// The body of a function is read where it lies within the module, and otherwise refused.
pub proof fn law_body_is_read_where_it_lies(
    context: ContextView,
    range: Range<usize>,
    func_type_idx: u32,
)
    ensures
        ({
            let data = context.wasm.subrange(range.start as int, range.end as int);
            if range.start <= range.end <= context.wasm.len() {
                context.with_body_at(range, func_type_idx) == context.with_body(
                    wasm_locals(data, range.start),
                    wasm_operators(data, range.start),
                    range.end,
                    func_type_idx,
                )
            } else {
                context.with_body_at(range, func_type_idx) == (
                    context,
                    Err::<(), Stop>(Stop::OutOfRange),
                )
            }
        }),
{
}

/// A body belongs to the first function of the function section that has none yet. The functions of
/// the host are imported before it.
pub proof fn law_body_belongs_to_the_next_function(context: ContextView, range: Range<usize>)
    ensures
        ({
            let (ready, host) = context.with_host_imports();
            let taken = context.with_payload(Payload::Code(range));
            if host is Err {
                taken == (ready, host)
            } else if ready.function_types.len() == 0 {
                taken == (ready, failed(Error::InsufficientFunctionTypes))
            } else {
                let left = ContextView { function_types: behind(ready.function_types, 1), ..ready };
                taken == left.with_body_at(range, ready.function_types[0])
            }
        }),
{
    let ready = context.with_host_imports().0;
    assert(ready.function_types.len() > 0 ==> behind(ready.function_types, 1)
        =~= ready.function_types.drop_first());
}

/// A function body that is taken adds one entry to the code section. The entry has the local
/// declarations of the body, whatever its metering; the code is that of the body, metered as the
/// analysis says of the body with that position in the code section, within a block that gives
/// what a function of the type `func_type_idx` gives. Nothing else changes, but for a type that is
/// added for that block.
pub proof fn law_body_is_instrumented(
    context: ContextView,
    locals: Result<Result<Seq<(u32, ValueType)>, BinaryReaderError>, BinaryReaderError>,
    operators: Result<Seq<Result<Operator, BinaryReaderError>>, BinaryReaderError>,
    end: usize,
    func_type_idx: u32,
)
    requires
        context.code_section.len() <= usize::MAX,
    ensures
        ({
            let (after, r) = context.with_body(locals, operators, end, func_type_idx);
            let body = after.code_section.last();
            let added = behind(after.type_section, context.type_section.len());
            r is Ok ==> {
                &&& func_type_idx < context.types.len()
                &&& after == (ContextView {
                    type_section: context.type_section + added,
                    code_section: context.code_section + seq![body],
                    ..context
                })
                &&& locals == Ok::<_, BinaryReaderError>(Ok::<_, BinaryReaderError>(body.locals))
                &&& operators is Ok
                &&& exists|metering: MeteringView, block: BlockType|
                    {
                        &&& meters(context.analysis, context.code_section.len() as int, metering)
                        &&& block_fits(
                            context.types[func_type_idx as int],
                            func_type_idx,
                            context.type_section.len(),
                            block,
                            added,
                        )
                        &&& #[trigger] instruments(
                            BodyText { wasm: context.wasm, operators: operators->Ok_0, end },
                            metering,
                            block,
                            body.code,
                        )
                    }
            }
        }),
{
    let (after, r) = context.with_body(locals, operators, end, func_type_idx);
    if r is Ok {
        let position = context.code_section.len() as usize;
        let body = after.code_section.last();
        let ty = context.types[func_type_idx as int];
        let text = BodyText { wasm: context.wasm, operators: operators->Ok_0, end };
        let metering = context.analysis.metering(position)->Ok_0;
        let next = context.type_section.len();
        let (block, added) = block_type(ty, func_type_idx, next)->Ok_0;
        law_metering_is_what_was_analysed(context.analysis, position);
        law_block_fits(ty, func_type_idx, next);
        law_stack_is_given_back(metering, block);
        law_body_is_entry_and_contributions(text, metering, block, text.operators.len());
        assert(instruments(text, metering, block, body.code));
        assert(behind(after.type_section, next) =~= added);
        assert(after.code_section =~= context.code_section + seq![body]);
        assert(block_fits(ty, func_type_idx, next, block, added));
        assert(meters(context.analysis, position as int, metering));
    }
}

/// The two sizes that the analysis gives for a function body are what its code tells the host on
/// entry, unless both are zero.
pub proof fn law_entry_tells_the_sizes(context: ContextView, range: Range<usize>)
    requires
        context.code_section.len() <= usize::MAX,
        context.with_payload(Payload::Code(range)).1 is Ok,
    ensures
        ({
            let position = context.code_section.len() as int;
            let code = context.with_payload(Payload::Code(range)).0.code_section.last().code;
            let stack = context.analysis.function_operand_stack_sizes[position];
            let frame = context.analysis.function_frame_sizes[position];
            stack != 0 || frame != 0 ==> {
                &&& code.len() >= 4
                &&& code[0] matches CodeItemView::Instr(Instr::Block(_))
                &&& code[1] matches CodeItemView::Instr(Instr::I64Const(size)) && size == stack
                &&& code[2] matches CodeItemView::Instr(Instr::I64Const(size)) && size == frame
                &&& code[3] == CodeItemView::Instr(Instr::Call(1))
            }
        }),
{
    let ready = context.with_host_imports().0;
    let left = ContextView { function_types: behind(ready.function_types, 1), ..ready };
    let data = context.wasm.subrange(range.start as int, range.end as int);
    law_body_belongs_to_the_next_function(context, range);
    law_body_is_read_where_it_lies(left, range, ready.function_types[0]);
    law_body_is_instrumented(
        left,
        wasm_locals(data, range.start),
        wasm_operators(data, range.start),
        range.end,
        ready.function_types[0],
    );
}

/// A function body that is taken from the module keeps its local declarations: those that are read
/// at its place are those of the entry that it adds to the code section.
pub proof fn law_body_keeps_its_locals(context: ContextView, range: Range<usize>)
    requires
        context.code_section.len() <= usize::MAX,
        context.with_payload(Payload::Code(range)).1 is Ok,
    ensures
        ({
            let after = context.with_payload(Payload::Code(range)).0.code_section;
            let data = context.wasm.subrange(range.start as int, range.end as int);
            &&& after.len() == context.code_section.len() + 1
            &&& after.take(after.len() - 1) == context.code_section
            &&& wasm_locals(data, range.start) == Ok::<_, BinaryReaderError>(
                Ok::<_, BinaryReaderError>(after.last().locals),
            )
        }),
{
    let ready = context.with_host_imports().0;
    let left = ContextView { function_types: behind(ready.function_types, 1), ..ready };
    let data = context.wasm.subrange(range.start as int, range.end as int);
    let after = context.with_payload(Payload::Code(range)).0.code_section;
    law_body_belongs_to_the_next_function(context, range);
    law_body_is_read_where_it_lies(left, range, ready.function_types[0]);
    law_body_is_instrumented(
        left,
        wasm_locals(data, range.start),
        wasm_operators(data, range.start),
        range.end,
        ready.function_types[0],
    );
    assert(after.take(after.len() - 1) =~= context.code_section);
}

/// Why a function body cannot be taken, and what is left then. The first of its faults decides:
/// that the function has a type that there is not, that its locals cannot be read, that its
/// analysis is at fault, that its operators cannot be read at all, that there is no room for the
/// type of a block, or that one of its operators cannot be instrumented.
pub proof fn law_first_fault_of_a_body_decides(
    context: ContextView,
    locals: Result<Result<Seq<(u32, ValueType)>, BinaryReaderError>, BinaryReaderError>,
    operators: Result<Seq<Result<Operator, BinaryReaderError>>, BinaryReaderError>,
    end: usize,
    func_type_idx: u32,
)
    requires
        context.code_section.len() <= usize::MAX,
    ensures
        ({
            let taken = context.with_body(locals, operators, end, func_type_idx);
            let metering = context.analysis.metering(context.code_section.len() as usize);
            let ty = context.types[func_type_idx as int];
            let next = context.type_section.len();
            if func_type_idx >= context.types.len() {
                taken == (context, failed(Error::InvalidTypeIndex))
            } else if locals is Err {
                taken == (context, failed(Error::ParseLocals(locals->Err_0)))
            } else if locals->Ok_0 is Err {
                taken == (context, failed(Error::ParseLocal(locals->Ok_0->Err_0)))
            } else if metering is Err {
                taken == (context, Err::<(), Stop>(metering->Err_0))
            } else if operators is Err {
                taken == (context, failed(Error::ParseOperators(operators->Err_0)))
            } else if block_has_no_room(ty, next) {
                taken == (context, Err::<(), Stop>(Stop::OutOfRange))
            } else {
                let text = BodyText { wasm: context.wasm, operators: operators->Ok_0, end };
                let (after, r) = taken;
                &&& r is Ok <==> forall|i: int|
                    0 <= i < text.operators.len() ==> (#[trigger] text.contribution(
                        metering->Ok_0,
                        i,
                    )) is Ok
                &&& r matches Err(stop) ==> {
                    let added = behind(after.type_section, next);
                    &&& after == (ContextView {
                        type_section: context.type_section + added,
                        ..context
                    })
                    &&& exists|block: BlockType| #[trigger]
                        block_fits(ty, func_type_idx, next, block, added)
                    &&& exists|k: int|
                        0 <= k < text.operators.len() && #[trigger] text.contribution(
                            metering->Ok_0,
                            k,
                        ) == Err::<Seq<CodeItemView>, Stop>(stop) && forall|i: int|
                            0 <= i < k ==> (#[trigger] text.contribution(
                                metering->Ok_0,
                                i,
                            )) is Ok
                }
            }
        }),
{
    let metering = context.analysis.metering(context.code_section.len() as usize);
    let ty = context.types[func_type_idx as int];
    let next = context.type_section.len();
    law_block_fits(ty, func_type_idx, next);
    if let (Ok(operators), Ok(metering)) = (operators, metering) {
        if let Ok((block, added)) = block_type(ty, func_type_idx, next) {
            let text = BodyText { wasm: context.wasm, operators, end };
            law_body_is_entry_and_contributions(text, metering, block, operators.len());
            assert(block_fits(ty, func_type_idx, next, block, added));
            assert(added =~= behind(context.type_section + added, next));
        }
    }
}

/// The result of a step that failed with that error.
pub open spec fn failed(error: Error) -> Result<(), Stop> {
    Err(Stop::Failed(error))
}

} // verus!
