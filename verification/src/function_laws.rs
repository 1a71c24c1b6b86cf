//! What holds of the functions of a module, of their bodies and of their analysis.
use std::ops::Range;
use vstd::prelude::*;
use wasmparser::BinaryReaderError;

use crate::analysis::AnalysisView;
use crate::code::{BodyText, MeteringView};
use crate::context::{fresh, ContextView};
use crate::entries::{
    element_entry, element_expression, element_function, export_entry, function_entry,
    global_entry, import_entry, type_entry,
};
use crate::error::{Error, Stop};
use crate::laws::{given_functions, law_nothing_is_taken_back, lemma_given};
use crate::model::{
    bytes_at, BlockType, ElementEntry, EntryItems, NameEntry, Payload, RawSectionView,
};
use crate::names::{indirect_entry, indirect_map_at, name_entry, name_map_at, subsection_entry};
use crate::read::{
    wasm_elements, wasm_exports, wasm_exprs, wasm_globals, wasm_imports, wasm_indices,
    wasm_indirect_names, wasm_name_map, wasm_names, wasm_payloads, wasm_types,
};
use crate::traverse::{law_first_stop_decides, traverse};

verus! {

/// How many function bodies there are.
pub open spec fn bodies(payloads: Seq<Result<Payload<'static>, BinaryReaderError>>) -> nat
    decreases payloads.len(),
{
    if payloads.len() == 0 {
        0
    } else {
        let before = bodies(payloads.drop_last());
        if payloads.last() matches Ok(Payload::Code(_)) {
            before + 1
        } else {
            before
        }
    }
}

/// That both lists have the same entry `i`, or none of them has one.
pub open spec fn same_entry<T>(left: Seq<T>, right: Seq<T>, i: int) -> bool {
    &&& i < left.len() <==> i < right.len()
    &&& i < left.len() ==> left[i] == right[i]
}

/// That two lists agree on their first `count` entries.
pub open spec fn same_entries<T>(left: Seq<T>, right: Seq<T>, count: nat) -> bool {
    forall|i: int| 0 <= i < count ==> #[trigger] same_entry(left, right, i)
}

impl AnalysisView {
    /// That two analyses agree on the first `count` functions.
    pub open spec fn agrees(self, other: AnalysisView, count: nat) -> bool {
        &&& same_entries(
            self.function_operand_stack_sizes,
            other.function_operand_stack_sizes,
            count,
        )
        &&& same_entries(self.function_frame_sizes, other.function_frame_sizes, count)
        &&& same_entries(self.gas_offsets, other.gas_offsets, count)
        &&& same_entries(self.gas_costs, other.gas_costs, count)
        &&& same_entries(self.gas_kinds, other.gas_kinds, count)
    }
}

impl ContextView {
    /// The same with another analysis.
    pub open spec fn analysed(self, analysis: AnalysisView) -> ContextView {
        ContextView { analysis, ..self }
    }
}

proof fn lemma_same_metering(left: AnalysisView, right: AnalysisView, count: nat, index: usize)
    requires
        left.agrees(right, count),
        index < count,
    ensures
        left.metering(index) == right.metering(index),
{
    let i = index as int;
    assert(same_entry(
        left.function_operand_stack_sizes,
        right.function_operand_stack_sizes,
        i,
    ));
    assert(same_entry(left.function_frame_sizes, right.function_frame_sizes, i));
    assert(same_entry(left.gas_offsets, right.gas_offsets, i));
    assert(same_entry(left.gas_costs, right.gas_costs, i));
    assert(same_entry(left.gas_kinds, right.gas_kinds, i));
}

proof fn lemma_body_analysed(
    context: ContextView,
    analysis: AnalysisView,
    range: Range<usize>,
    func_type_idx: u32,
)
    requires
        context.analysis.metering(context.code_section.len() as usize) == analysis.metering(
            context.code_section.len() as usize,
        ),
    ensures
        ({
            let (after, r) = context.with_body_at(range, func_type_idx);
            context.analysed(analysis).with_body_at(range, func_type_idx) == (
                after.analysed(analysis),
                r,
            )
        }),
{
}

proof fn lemma_payload_analysed(
    context: ContextView,
    analysis: AnalysisView,
    payload: Payload<'static>,
)
    requires
        payload is Code ==> context.analysis.metering(context.code_section.len() as usize)
            == analysis.metering(context.code_section.len() as usize),
    ensures
        ({
            let (after, r) = context.with_payload(payload);
            context.analysed(analysis).with_payload(payload) == (after.analysed(analysis), r)
        }),
{
    match payload {
        Payload::Code(range) => {
            let (ready, r) = context.with_host_imports();
            if r is Ok && ready.function_types.len() > 0 {
                let next = ContextView {
                    function_types: ready.function_types.drop_first(),
                    ..ready
                };
                lemma_body_analysed(next, analysis, range, ready.function_types.first());
            }
        },
        Payload::Types(_) => {},
        Payload::Imports(_) => {},
        Payload::Elements(_) => {},
        Payload::Functions(_) => {},
        Payload::Exports(_) => {},
        Payload::Globals(_) => {},
        Payload::Custom(_, _, _) => {},
        _ => {},
    }
}

proof fn lemma_payload_bodies(context: ContextView, payload: Payload<'static>)
    ensures
        ({
            let (after, r) = context.with_payload(payload);
            if payload is Code && r is Ok {
                after.code_section.len() == context.code_section.len() + 1
            } else {
                after.code_section == context.code_section
            }
        }),
{
    match payload {
        Payload::Code(range) => {},
        Payload::Imports(range) => {},
        _ => {},
    }
}

proof fn lemma_analysed(
    context: ContextView,
    analysis: AnalysisView,
    payloads: Seq<Result<Payload<'static>, BinaryReaderError>>,
    count: nat,
)
    requires
        context.code_section.len() + bodies(payloads) <= count,
        context.analysis.agrees(analysis, count),
    ensures
        ({
            let (after, r) = context.with_payloads(payloads);
            &&& context.analysed(analysis).with_payloads(payloads) == (after.analysed(analysis), r)
            &&& after.code_section.len() <= context.code_section.len() + bodies(payloads)
        }),
    decreases payloads.len(),
{
    if payloads.len() > 0 {
        lemma_analysed(context, analysis, payloads.drop_last(), count);
        law_nothing_is_taken_back(context, payloads.drop_last());
        let (before, r) = context.with_payloads(payloads.drop_last());
        if r is Ok {
            if let Ok(payload) = payloads.last() {
                if payload is Code {
                    // A count that no index reaches covers every index.
                    assert((before.code_section.len() as usize) < count);
                    lemma_same_metering(
                        context.analysis,
                        analysis,
                        count,
                        before.code_section.len() as usize,
                    );
                }
                lemma_payload_analysed(before, analysis, payload);
                lemma_payload_bodies(before, payload);
            }
        }
    }
}

/// Whatever the analysis says beyond the functions that have bodies is ignored: two analyses that
/// agree on as many functions as there are bodies lead to the same module, or to the same error.
pub proof fn law_surplus_analysis_is_ignored(
    wasm: Seq<u8>,
    import_env: Seq<char>,
    left: AnalysisView,
    right: AnalysisView,
)
    requires
        left.agrees(right, bodies(wasm_payloads(wasm))),
    ensures
        fresh(wasm, import_env, left).outcome() == fresh(wasm, import_env, right).outcome(),
{
    let payloads = wasm_payloads(wasm);
    let start = fresh(wasm, import_env, left);
    lemma_analysed(start, right, payloads, bodies(payloads));
    assert(start.analysed(right) == fresh(wasm, import_env, right));
    let context = start.with_payloads(payloads).0;
    assert(context.analysed(right).sections() =~= context.sections()) by {
        assert forall|raw: RawSectionView| context.analysed(right).section(raw) == #[trigger]
            context.section(raw) by {}
    }
}

impl ContextView {
    /// That every function that is defined has a body, or its body is still to come.
    pub open spec fn bodies_match(self) -> bool {
        self.function_section.len() == self.code_section.len() + self.function_types.len()
    }
}

/// Whether a piece of a module must not be followed by a function section: a body must not, as its
/// function would come too late, and neither must another function section.
pub open spec fn ends_functions(payload: Result<Payload<'static>, BinaryReaderError>) -> bool {
    payload matches Ok(Payload::Code(_)) || payload matches Ok(Payload::Functions(_))
}

/// That there is at most one function section, and no body in front of it.
pub open spec fn functions_come_once(
    payloads: Seq<Result<Payload<'static>, BinaryReaderError>>,
) -> bool {
    forall|i: int, j: int|
        0 <= i < j < payloads.len() && ends_functions(#[trigger] payloads[i])
            ==> !(#[trigger] payloads[j] matches Ok(Payload::Functions(_)))
}

proof fn lemma_functions_come_once(payloads: Seq<Result<Payload<'static>, BinaryReaderError>>)
    requires
        payloads.len() > 0,
        functions_come_once(payloads),
    ensures
        functions_come_once(payloads.drop_last()),
        payloads.last() matches Ok(Payload::Functions(_)) ==> no_functions(payloads.drop_last()),
{
    let earlier = payloads.drop_last();
    assert forall|i: int, j: int|
        0 <= i < j < earlier.len() && ends_functions(#[trigger] earlier[i]) implies !(
    #[trigger] earlier[j] matches Ok(Payload::Functions(_))) by {
        assert(payloads[i] == earlier[i] && payloads[j] == earlier[j]);
    }
    if payloads.last() matches Ok(Payload::Functions(_)) {
        assert forall|i: int| 0 <= i < earlier.len() implies !ends_functions(
            #[trigger] earlier[i],
        ) by {
            assert(payloads[i] == earlier[i]);
            assert(payloads[payloads.len() - 1] == payloads.last());
        }
    }
}

/// That there is neither a function section nor a body.
spec fn no_functions(payloads: Seq<Result<Payload<'static>, BinaryReaderError>>) -> bool {
    forall|i: int| 0 <= i < payloads.len() ==> !ends_functions(#[trigger] payloads[i])
}

proof fn lemma_no_functions(
    wasm: Seq<u8>,
    payloads: Seq<Result<Payload<'static>, BinaryReaderError>>,
)
    requires
        no_functions(payloads),
    ensures
        bodies(payloads) == 0,
        given_functions(wasm, payloads).len() == 0,
    decreases payloads.len(),
{
    if payloads.len() > 0 {
        assert(!ends_functions(payloads[payloads.len() - 1]));
        assert forall|i: int| 0 <= i < payloads.len() - 1 implies !ends_functions(
            #[trigger] payloads.drop_last()[i],
        ) by {
            assert(payloads[i] == payloads.drop_last()[i]);
        }
        lemma_no_functions(wasm, payloads.drop_last());
    }
}

proof fn lemma_payload_bodies_match(context: ContextView, payload: Payload<'static>)
    requires
        context.bodies_match(),
        payload is Functions ==> context.function_section.len() == 0,
        context.with_payload(payload).1 is Ok,
    ensures
        context.with_payload(payload).0.bodies_match(),
{
    match payload {
        Payload::Code(range) => {},
        Payload::Functions(range) => {},
        Payload::Imports(range) => {},
        _ => {},
    }
}

/// Every body belongs to a function, and every function that has no body yet waits for one: this
/// holds in every state of the walk through a module, if it has at most one function section and
/// no body in front of it.
pub proof fn law_bodies_match_functions(
    wasm: Seq<u8>,
    import_env: Seq<char>,
    analysis: AnalysisView,
    payloads: Seq<Result<Payload<'static>, BinaryReaderError>>,
)
    requires
        functions_come_once(payloads),
    ensures
        ({
            let (context, r) = fresh(wasm, import_env, analysis).with_payloads(payloads);
            r is Ok ==> {
                &&& context.bodies_match()
                &&& context.code_section.len() == bodies(payloads)
                &&& context.function_section == given_functions(wasm, payloads)
            }
        }),
    decreases payloads.len(),
{
    let start = fresh(wasm, import_env, analysis);
    if start.with_payloads(payloads).1 is Ok {
        lemma_given(wasm, import_env, analysis, payloads);
        if payloads.len() > 0 {
            lemma_functions_come_once(payloads);
            law_bodies_match_functions(wasm, import_env, analysis, payloads.drop_last());
            let before = start.with_payloads(payloads.drop_last()).0;
            let payload = payloads.last()->Ok_0;
            if payload is Functions {
                lemma_no_functions(wasm, payloads.drop_last());
            }
            lemma_payload_bodies(before, payload);
            lemma_payload_bodies_match(before, payload);
        }
    }
}

/// That there is no function for a body.
pub open spec fn insufficient() -> Stop {
    Stop::Failed(Error::InsufficientFunctionTypes)
}

proof fn lemma_other_stop<T, U>(items: Seq<T>, f: spec_fn(T) -> Result<U, Stop>)
    requires
        forall|item: T| #[trigger] f(item) != Err::<U, Stop>(insufficient()),
    ensures
        traverse(items, f).1 != Err::<(), Stop>(insufficient()),
{
    law_first_stop_decides(items, f);
}

proof fn lemma_element_stop(wasm: Seq<u8>, entry: Result<ElementEntry, BinaryReaderError>)
    ensures
        element_entry(wasm, entry) is Err ==> element_entry(wasm, entry)->Err_0 != insufficient(),
{
    if let Ok(element) = entry {
        match element.items {
            EntryItems::Functions(range) => {
                if let Some(data) = bytes_at(wasm, range) {
                    lemma_other_stop(
                        wasm_indices(data, range.start),
                        |entry| element_function(entry),
                    );
                }
            },
            EntryItems::Expressions(range) => {
                if let Some(data) = bytes_at(wasm, range) {
                    lemma_other_stop(
                        wasm_exprs(data, range.start),
                        |entry| element_expression(wasm, entry),
                    );
                }
            },
        }
    }
}

proof fn lemma_name_map_stop(wasm: Seq<u8>, range: Range<usize>, is_function: bool)
    ensures
        name_map_at(wasm, range, is_function) is Err ==> name_map_at(
            wasm,
            range,
            is_function,
        )->Err_0 != insufficient(),
{
    if let Some(data) = bytes_at(wasm, range) {
        lemma_other_stop(
            wasm_name_map(data, range.start),
            |entry| name_entry(is_function, entry),
        );
    }
}

proof fn lemma_indirect_map_stop(wasm: Seq<u8>, range: Range<usize>)
    ensures
        indirect_map_at(wasm, range) is Err ==> indirect_map_at(wasm, range)->Err_0
            != insufficient(),
{
    if let Some(data) = bytes_at(wasm, range) {
        assert forall|entry: Result<(u32, Range<usize>), BinaryReaderError>|
            (#[trigger] indirect_entry(wasm, entry)) is Err implies indirect_entry(
            wasm,
            entry,
        )->Err_0 != insufficient() by {
            if let Ok((_, names)) = entry {
                lemma_name_map_stop(wasm, names, false);
            }
        }
        lemma_other_stop(
            wasm_indirect_names(data, range.start),
            |entry| indirect_entry(wasm, entry),
        );
    }
}

proof fn lemma_subsection_stop(
    wasm: Seq<u8>,
    entry: Result<NameEntry<'static>, BinaryReaderError>,
)
    ensures
        subsection_entry(wasm, entry) is Err ==> subsection_entry(wasm, entry)->Err_0
            != insufficient(),
{
    match entry {
        Ok(NameEntry::FunctionNames(range)) => lemma_name_map_stop(wasm, range, true),
        Ok(NameEntry::LocalNames(range)) => lemma_indirect_map_stop(wasm, range),
        Ok(NameEntry::LabelNames(range)) => lemma_indirect_map_stop(wasm, range),
        Ok(NameEntry::TypeNames(range)) => lemma_name_map_stop(wasm, range, false),
        Ok(NameEntry::TableNames(range)) => lemma_name_map_stop(wasm, range, false),
        Ok(NameEntry::MemoryNames(range)) => lemma_name_map_stop(wasm, range, false),
        Ok(NameEntry::GlobalNames(range)) => lemma_name_map_stop(wasm, range, false),
        Ok(NameEntry::ElementNames(range)) => lemma_name_map_stop(wasm, range, false),
        Ok(NameEntry::DataNames(range)) => lemma_name_map_stop(wasm, range, false),
        _ => {},
    }
}

proof fn lemma_code_other_stop(
    text: BodyText,
    metering: MeteringView,
    block_type: BlockType,
    count: nat,
)
    ensures
        text.code(metering, block_type, count) is Err ==> text.code(
            metering,
            block_type,
            count,
        )->Err_0 != insufficient(),
    decreases count,
{
    if count > 0 {
        lemma_code_other_stop(text, metering, block_type, (count - 1) as nat);
    }
}

proof fn lemma_body_stop(context: ContextView, range: Range<usize>, func_type_idx: u32)
    ensures
        context.with_body_at(range, func_type_idx).1 != Err::<(), Stop>(insufficient()),
{
    if let Some(data) = bytes_at(context.wasm, range) {
        assert forall|text: BodyText, metering: MeteringView, block_type: BlockType, count: nat|
            (#[trigger] text.code(metering, block_type, count)) is Err implies text.code(
            metering,
            block_type,
            count,
        )->Err_0 != insufficient() by {
            lemma_code_other_stop(text, metering, block_type, count);
        }
    }
}

proof fn lemma_payload_stop(context: ContextView, payload: Payload<'static>)
    ensures
        context.with_payload(payload).1 == Err::<(), Stop>(insufficient()) ==> payload is Code
            && context.function_types.len() == 0,
{
    let wasm = context.wasm;
    match payload {
        Payload::Types(range) => {
            if let Some(data) = bytes_at(wasm, range) {
                lemma_other_stop(wasm_types(data, range.start), |entry| type_entry(entry));
            }
        },
        Payload::Imports(range) => {
            if let Some(data) = bytes_at(wasm, range) {
                lemma_other_stop(wasm_imports(data, range.start), |entry| import_entry(entry));
            }
        },
        Payload::Elements(range) => {
            if let Some(data) = bytes_at(wasm, range) {
                assert forall|entry: Result<ElementEntry, BinaryReaderError>|
                    (#[trigger] element_entry(wasm, entry)) is Err implies element_entry(
                    wasm,
                    entry,
                )->Err_0 != insufficient() by {
                    lemma_element_stop(wasm, entry);
                }
                lemma_other_stop(
                    wasm_elements(data, range.start),
                    |entry| element_entry(wasm, entry),
                );
            }
        },
        Payload::Functions(range) => {
            if let Some(data) = bytes_at(wasm, range) {
                lemma_other_stop(wasm_indices(data, range.start), |entry| function_entry(entry));
            }
        },
        Payload::Exports(range) => {
            if let Some(data) = bytes_at(wasm, range) {
                lemma_other_stop(wasm_exports(data, range.start), |entry| export_entry(entry));
            }
        },
        Payload::Globals(range) => {
            if let Some(data) = bytes_at(wasm, range) {
                lemma_other_stop(
                    wasm_globals(data, range.start),
                    |entry| global_entry(wasm, entry),
                );
            }
        },
        Payload::Custom(name, data_offset, range) => {
            let names = Range { start: data_offset, end: range.end };
            if let Some(data) = bytes_at(wasm, names) {
                assert forall|entry: Result<NameEntry<'static>, BinaryReaderError>|
                    (#[trigger] subsection_entry(wasm, entry)) is Err implies subsection_entry(
                    wasm,
                    entry,
                )->Err_0 != insufficient() by {
                    lemma_subsection_stop(wasm, entry);
                }
                lemma_other_stop(
                    wasm_names(data, data_offset),
                    |entry| subsection_entry(wasm, entry),
                );
            }
        },
        Payload::Code(range) => {
            let (ready, r) = context.with_host_imports();
            if r is Ok && ready.function_types.len() > 0 {
                let next = ContextView {
                    function_types: ready.function_types.drop_first(),
                    ..ready
                };
                lemma_body_stop(next, range, ready.function_types.first());
            }
        },
        _ => {},
    }
}

proof fn lemma_insufficient(
    wasm: Seq<u8>,
    import_env: Seq<char>,
    analysis: AnalysisView,
    payloads: Seq<Result<Payload<'static>, BinaryReaderError>>,
)
    requires
        functions_come_once(payloads),
        fresh(wasm, import_env, analysis).with_payloads(payloads).1 == Err::<(), Stop>(
            insufficient(),
        ),
    ensures
        bodies(payloads) > given_functions(wasm, payloads).len(),
    decreases payloads.len(),
{
    let start = fresh(wasm, import_env, analysis);
    if payloads.len() > 0 {
        let earlier = payloads.drop_last();
        let (before, r) = start.with_payloads(earlier);
        lemma_functions_come_once(payloads);
        if r is Ok {
            law_bodies_match_functions(wasm, import_env, analysis, earlier);
            lemma_payload_stop(before, payloads.last()->Ok_0);
            assert(given_functions(wasm, payloads) =~= given_functions(wasm, earlier));
        } else {
            lemma_insufficient(wasm, import_env, analysis, earlier);
            if payloads.last() matches Ok(Payload::Functions(_)) {
                lemma_no_functions(wasm, earlier);
            } else {
                assert(given_functions(wasm, payloads) =~= given_functions(wasm, earlier));
            }
        }
    }
}

/// A module with more bodies than functions is refused, and only such a module is refused for that
/// reason: where nothing else is wrong with a module, the walk through it ends with that error if
/// and only if it has more bodies than functions. This is so if it has at most one function section
/// and no body in front of it.
pub proof fn law_surplus_bodies_are_refused(
    wasm: Seq<u8>,
    import_env: Seq<char>,
    analysis: AnalysisView,
    payloads: Seq<Result<Payload<'static>, BinaryReaderError>>,
)
    requires
        functions_come_once(payloads),
    ensures
        ({
            let r = fresh(wasm, import_env, analysis).with_payloads(payloads).1;
            let surplus = bodies(payloads) > given_functions(wasm, payloads).len();
            &&& r == Err::<(), Stop>(insufficient()) ==> surplus
            &&& surplus ==> r is Err
        }),
{
    let r = fresh(wasm, import_env, analysis).with_payloads(payloads).1;
    if r is Ok {
        law_bodies_match_functions(wasm, import_env, analysis, payloads);
    }
    if r == Err::<(), Stop>(insufficient()) {
        lemma_insufficient(wasm, import_env, analysis, payloads);
    }
}

} // verus!
