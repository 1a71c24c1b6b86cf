//! What holds of the instrumentation as a whole.
use std::ops::Range;
use vstd::prelude::*;
use wasmparser::BinaryReaderError;

use crate::analysis::AnalysisView;
use crate::code::{instr, MeteringView, GAS_INSTRUMENTATION_FN, STACK_INSTRUMENTATION_FN};
use crate::context::{
    block_type, fresh, host_imports, host_types, ContextView, CODE_SECTION, CUSTOM_SECTION,
    ELEMENT_SECTION, EXPORT_SECTION, FUNCTION_SECTION, GLOBAL_SECTION, PLACEHOLDER_FOR_NAMES,
    START_SECTION,
};
use crate::entries::{
    element_function, export_entry, function_entries, import_entries, init_expr, type_entries,
};
use crate::error::{Error, Stop};
use crate::model::{
    bytes_at, BlockType, CodeItemView, EntityType, Export, ExportKind, ExportView, FuncTypeView,
    ImportView, InitExprView, Instr, Naming, NamingView, Op, Payload, RawSectionView, SectionView,
};
use crate::names::{indirect_entry, name_entry};
use crate::read::{wasm_imports, wasm_indices, wasm_types};

verus! {

/// That `longer` begins with `items`.
pub open spec fn begins_with<T>(longer: Seq<T>, items: Seq<T>) -> bool {
    &&& items.len() <= longer.len()
    &&& forall|i: int| 0 <= i < items.len() ==> #[trigger] longer[i] == items[i]
}

impl ContextView {
    /// That nothing of `self` has been changed or taken back.
    pub open spec fn kept_in(self, later: ContextView) -> bool {
        &&& later.analysis == self.analysis
        &&& later.wasm == self.wasm
        &&& later.import_env == self.import_env
        &&& begins_with(later.function_section, self.function_section)
        &&& begins_with(later.type_section, self.type_section)
        &&& begins_with(later.import_section, self.import_section)
        &&& begins_with(later.code_section, self.code_section)
        &&& begins_with(later.element_section, self.element_section)
        &&& begins_with(later.export_section, self.export_section)
        &&& begins_with(later.name_section, self.name_section)
        &&& begins_with(later.global_section, self.global_section)
        &&& begins_with(later.raw_sections, self.raw_sections)
        &&& begins_with(later.types, self.types)
    }

    /// That the functions of the host are the first imports, and that their types are what they
    /// are said to be, if there are imports.
    pub open spec fn host_comes_first(self) -> bool {
        self.import_section.len() > 0 ==> exists|ty: u32| #[trigger] self.host_has_type(ty)
    }

    /// That the first imports are the functions of the host, of the type `ty` and the one behind
    /// it.
    pub open spec fn host_has_type(self, ty: u32) -> bool {
        &&& ty < u32::MAX
        &&& begins_with(self.import_section, host_imports(self.import_env, ty))
        &&& ty + 1 < self.type_section.len()
        &&& self.type_section[ty as int] == host_types()[0]
        &&& self.type_section[ty + 1] == host_types()[1]
    }
}

proof fn lemma_kept_further(context: ContextView, later: ContextView, last: ContextView)
    requires
        context.kept_in(later),
        later.kept_in(last),
    ensures
        context.kept_in(last),
{
}

proof fn lemma_host_imports_kept(context: ContextView)
    ensures
        context.kept_in(context.with_host_imports().0),
{
}

proof fn lemma_body_kept(context: ContextView, range: Range<usize>, func_type_idx: u32)
    ensures
        context.kept_in(context.with_body_at(range, func_type_idx).0),
{
}

proof fn lemma_next_body_kept(context: ContextView, range: Range<usize>)
    ensures
        context.kept_in(context.with_next_body(range).0),
{
    let (ready, r) = context.with_host_imports();
    lemma_host_imports_kept(context);
    if r is Ok && ready.function_types.len() > 0 {
        let next = ContextView { function_types: ready.function_types.drop_first(), ..ready };
        lemma_kept_further(context, ready, next);
        lemma_body_kept(next, range, ready.function_types.first());
        lemma_kept_further(context, next, context.with_next_body(range).0);
    }
}

proof fn lemma_payload_kept(context: ContextView, payload: Payload<'static>)
    ensures
        context.kept_in(context.with_payload(payload).0),
{
    let after = context.with_payload(payload).0;
    match payload {
        Payload::Imports(range) => {
            let ready = context.with_host_imports().0;
            lemma_host_imports_kept(context);
            if bytes_at(context.wasm, range) is Some {
                assert(ready.kept_in(after));
                lemma_kept_further(context, ready, after);
            }
        },
        Payload::Code(range) => {
            lemma_next_body_kept(context, range);
        },
        Payload::Types(_) => {},
        Payload::Elements(_) => {},
        Payload::Functions(_) => {},
        Payload::Exports(_) => {},
        Payload::Globals(_) => {},
        Payload::Custom(_, _, _) => {},
        _ => {},
    }
}

/// Whatever follows in a module, nothing that has been written is changed or taken back; the
/// module, its analysis and the name to import from stay what they are.
pub proof fn law_nothing_is_taken_back(
    context: ContextView,
    payloads: Seq<Result<Payload<'static>, BinaryReaderError>>,
)
    ensures
        context.kept_in(context.with_payloads(payloads).0),
    decreases payloads.len(),
{
    if payloads.len() > 0 {
        law_nothing_is_taken_back(context, payloads.drop_last());
        let (before, r) = context.with_payloads(payloads.drop_last());
        if let Ok(payload) = payloads.last() {
            lemma_payload_kept(before, payload);
        }
    }
}

proof fn lemma_payload_host(context: ContextView, payload: Payload<'static>)
    requires
        context.host_comes_first(),
    ensures
        context.with_payload(payload).0.host_comes_first(),
{
    let after = context.with_payload(payload).0;
    lemma_payload_kept(context, payload);
    if context.import_section.len() > 0 {
        let ty = choose|ty: u32| context.host_has_type(ty);
        assert(after.host_has_type(ty));
    } else if after.import_section.len() > 0 {
        assert(after.host_has_type(context.type_section.len() as u32));
    }
}

/// In every state of the walk through a module, if there are imports then the first two are the
/// functions of the host, with the types that they are called with: their indices are
/// [`GAS_INSTRUMENTATION_FN`] and [`STACK_INSTRUMENTATION_FN`].
pub proof fn law_host_comes_first(
    wasm: Seq<u8>,
    import_env: Seq<char>,
    analysis: AnalysisView,
    payloads: Seq<Result<Payload<'static>, BinaryReaderError>>,
)
    ensures
        fresh(wasm, import_env, analysis).with_payloads(payloads).0.host_comes_first(),
    decreases payloads.len(),
{
    if payloads.len() > 0 {
        law_host_comes_first(wasm, import_env, analysis, payloads.drop_last());
        let (before, r) = fresh(wasm, import_env, analysis).with_payloads(payloads.drop_last());
        if let Ok(payload) = payloads.last() {
            lemma_payload_host(before, payload);
        }
    }
}

/// The imports of a piece of the given module, if it is an import section.
pub open spec fn imports_of(wasm: Seq<u8>, payload: Payload<'static>) -> Seq<ImportView> {
    match payload {
        Payload::Imports(range) => match bytes_at(wasm, range) {
            Some(data) => import_entries(wasm_imports(data, range.start)).0,
            None => Seq::empty(),
        },
        _ => Seq::empty(),
    }
}

/// The imports of the given module.
pub open spec fn given_imports(
    wasm: Seq<u8>,
    payloads: Seq<Result<Payload<'static>, BinaryReaderError>>,
) -> Seq<ImportView>
    decreases payloads.len(),
{
    if payloads.len() == 0 {
        Seq::empty()
    } else {
        let before = given_imports(wasm, payloads.drop_last());
        match payloads.last() {
            Ok(payload) => before + imports_of(wasm, payload),
            Err(_) => before,
        }
    }
}

/// The types of a piece of the given module, if it is a type section.
pub open spec fn types_of(wasm: Seq<u8>, payload: Payload<'static>) -> Seq<FuncTypeView> {
    match payload {
        Payload::Types(range) => match bytes_at(wasm, range) {
            Some(data) => type_entries(wasm_types(data, range.start)).0,
            None => Seq::empty(),
        },
        _ => Seq::empty(),
    }
}

/// The types of the given module.
pub open spec fn given_types(
    wasm: Seq<u8>,
    payloads: Seq<Result<Payload<'static>, BinaryReaderError>>,
) -> Seq<FuncTypeView>
    decreases payloads.len(),
{
    if payloads.len() == 0 {
        Seq::empty()
    } else {
        let before = given_types(wasm, payloads.drop_last());
        match payloads.last() {
            Ok(payload) => before + types_of(wasm, payload),
            Err(_) => before,
        }
    }
}

/// The functions of a piece of the given module, if it is a function section, by their types.
pub open spec fn functions_of(wasm: Seq<u8>, payload: Payload<'static>) -> Seq<u32> {
    match payload {
        Payload::Functions(range) => match bytes_at(wasm, range) {
            Some(data) => match function_entries(wasm_indices(data, range.start)) {
                Ok(types) => types,
                Err(_) => Seq::empty(),
            },
            None => Seq::empty(),
        },
        _ => Seq::empty(),
    }
}

/// The functions that the given module defines, by their types.
pub open spec fn given_functions(
    wasm: Seq<u8>,
    payloads: Seq<Result<Payload<'static>, BinaryReaderError>>,
) -> Seq<u32>
    decreases payloads.len(),
{
    if payloads.len() == 0 {
        Seq::empty()
    } else {
        let before = given_functions(wasm, payloads.drop_last());
        match payloads.last() {
            Ok(payload) => before + functions_of(wasm, payload),
            Err(_) => before,
        }
    }
}

/// The types of the functions among some imports.
pub open spec fn imported_functions(imports: Seq<ImportView>) -> Seq<u32>
    decreases imports.len(),
{
    if imports.len() == 0 {
        Seq::empty()
    } else {
        let before = imported_functions(imports.drop_last());
        match imports.last().ty {
            EntityType::Function(ty) => before.push(ty),
            _ => before,
        }
    }
}

/// The functions of a module by their indices: those that are imported come before those that are
/// defined. Each is told by its type.
pub open spec fn function_space(imports: Seq<ImportView>, functions: Seq<u32>) -> Seq<u32> {
    imported_functions(imports) + functions
}

proof fn lemma_imported_functions(first: Seq<ImportView>, second: Seq<ImportView>)
    ensures
        imported_functions(first + second) == imported_functions(first) + imported_functions(
            second,
        ),
    decreases second.len(),
{
    if second.len() == 0 {
        assert(first + second =~= first);
        assert(imported_functions(first) + imported_functions(second) =~= imported_functions(
            first,
        ));
    } else {
        lemma_imported_functions(first, second.drop_last());
        assert((first + second).drop_last() =~= first + second.drop_last());
        assert(imported_functions(first + second) =~= imported_functions(first)
            + imported_functions(second));
    }
}

proof fn lemma_payload_given(context: ContextView, payload: Payload<'static>)
    requires
        context.with_payload(payload).1 is Ok,
    ensures
        ({
            let after = context.with_payload(payload).0;
            &&& after.types == context.types + types_of(context.wasm, payload)
            &&& after.function_section == context.function_section + functions_of(
                context.wasm,
                payload,
            )
            &&& after.import_section == context.import_section + imports_of(context.wasm, payload)
                || context.import_section.len() == 0 && exists|ty: u32|
                after.import_section == #[trigger] host_imports(context.import_env, ty)
                    + imports_of(context.wasm, payload)
        }),
{
    let after = context.with_payload(payload).0;
    let ty = context.type_section.len() as u32;
    match payload {
        Payload::Types(_) => {
            assert(after.function_section =~= context.function_section + Seq::empty());
            assert(after.import_section =~= context.import_section + Seq::empty());
        },
        Payload::Functions(_) => {
            assert(after.types =~= context.types + Seq::empty());
            assert(after.import_section =~= context.import_section + Seq::empty());
        },
        Payload::Imports(range) => {
            assert(after.types =~= context.types + Seq::empty());
            assert(after.function_section =~= context.function_section + Seq::empty());
            if context.import_section.len() == 0 {
                assert(after.import_section == host_imports(context.import_env, ty) + imports_of(
                    context.wasm,
                    payload,
                ));
            }
        },
        Payload::Code(range) => {
            assert(after.types =~= context.types + Seq::empty());
            assert(after.function_section =~= context.function_section + Seq::empty());
            if context.import_section.len() == 0 {
                assert(after.import_section =~= host_imports(context.import_env, ty) + imports_of(
                    context.wasm,
                    payload,
                ));
            } else {
                assert(after.import_section =~= context.import_section + Seq::empty());
            }
        },
        _ => {
            assert(after.types =~= context.types + Seq::empty());
            assert(after.function_section =~= context.function_section + Seq::empty());
            assert(after.import_section =~= context.import_section + Seq::empty());
        },
    }
}

/// What has been taken of the given module once all of it could be.
pub proof fn lemma_given(
    wasm: Seq<u8>,
    import_env: Seq<char>,
    analysis: AnalysisView,
    payloads: Seq<Result<Payload<'static>, BinaryReaderError>>,
)
    requires
        fresh(wasm, import_env, analysis).with_payloads(payloads).1 is Ok,
    ensures
        ({
            let context = fresh(wasm, import_env, analysis).with_payloads(payloads).0;
            &&& context.types == given_types(wasm, payloads)
            &&& context.function_section == given_functions(wasm, payloads)
            &&& context.import_section.len() == 0 ==> given_imports(wasm, payloads).len() == 0
            &&& context.import_section.len() > 0 ==> context.import_section.len() >= 2
                && context.import_section.skip(2) == given_imports(wasm, payloads)
        }),
    decreases payloads.len(),
{
    let start = fresh(wasm, import_env, analysis);
    if payloads.len() > 0 {
        let before = start.with_payloads(payloads.drop_last()).0;
        let after = start.with_payloads(payloads).0;
        lemma_given(wasm, import_env, analysis, payloads.drop_last());
        law_nothing_is_taken_back(start, payloads.drop_last());
        let payload = payloads.last()->Ok_0;
        lemma_payload_given(before, payload);
        let added = imports_of(wasm, payload);
        if after.import_section.len() > 0 {
            if after.import_section == before.import_section + added {
                assert(before.import_section.len() > 0 || added.len() > 0);
                if before.import_section.len() > 0 {
                    assert(after.import_section.skip(2) =~= before.import_section.skip(2) + added);
                } else {
                    lemma_payload_host(before, payload);
                }
            } else {
                assert(after.import_section.skip(2) =~= given_imports(wasm, payloads));
            }
        }
    }
}

/// Where the instrumented module has imports, its functions are the two of the host, followed by
/// the functions of the given module in their order: the index of every function of the given
/// module grows by two.
pub proof fn law_functions_move_by_two(
    wasm: Seq<u8>,
    import_env: Seq<char>,
    analysis: AnalysisView,
    payloads: Seq<Result<Payload<'static>, BinaryReaderError>>,
)
    ensures
        ({
            let (context, r) = fresh(wasm, import_env, analysis).with_payloads(payloads);
            let given = function_space(
                given_imports(wasm, payloads),
                given_functions(wasm, payloads),
            );
            let space = function_space(context.import_section, context.function_section);
            r is Ok && context.import_section.len() > 0 ==> {
                &&& space.len() == given.len() + 2
                &&& context.type_section[space[GAS_INSTRUMENTATION_FN as int] as int]
                    == host_types()[0]
                &&& context.type_section[space[STACK_INSTRUMENTATION_FN as int] as int]
                    == host_types()[1]
                &&& forall|f: int| 0 <= f < given.len() ==> space[f + 2] == #[trigger] given[f]
            }
        }),
{
    let (context, r) = fresh(wasm, import_env, analysis).with_payloads(payloads);
    if r is Ok && context.import_section.len() > 0 {
        lemma_given(wasm, import_env, analysis, payloads);
        law_host_comes_first(wasm, import_env, analysis, payloads);
        let ty = choose|ty: u32| context.host_has_type(ty);
        let host = host_imports(import_env, ty);
        law_nothing_is_taken_back(fresh(wasm, import_env, analysis), payloads);
        assert(context.import_section =~= host + context.import_section.skip(2));
        lemma_imported_functions(host, context.import_section.skip(2));
        reveal_with_fuel(imported_functions, 3);
        assert(host.drop_last().drop_last() =~= Seq::empty());
        assert(imported_functions(host) =~= seq![ty, (ty + 1) as u32]);
    }
}

/// Every reference to a function follows it: an export, a start function, an element, a constant
/// expression, an operator or a name that refers to the function `index` refers to `index + 2`
/// afterwards, which is never a function of the host.
pub proof fn law_references_follow_functions(
    context: ContextView,
    metering: MeteringView,
    index: u32,
    name: &'static str,
    data: Seq<u8>,
    range: Range<usize>,
    bytes: Option<Seq<u8>>,
    last: bool,
)
    requires
        index + 2 <= u32::MAX,
    ensures
        ({
            let moved = (index + 2) as u32;
            &&& moved != GAS_INSTRUMENTATION_FN && moved != STACK_INSTRUMENTATION_FN
            &&& export_entry(Ok(Export { name, kind: ExportKind::Func, index })) == Ok::<
                ExportView,
                Stop,
            >(ExportView { name: name@, kind: ExportKind::Func, index: moved })
            &&& context.with_start(index).0.start_section == moved
            &&& element_function(Ok(index)) == Ok::<u32, Stop>(moved)
            &&& init_expr(data, Ok(Some(index))) == Ok::<InitExprView, Stop>(
                InitExprView::RefFunc(moved),
            )
            &&& metering.rewritten(Op::RefFunc(index), bytes, last) == Ok::<
                Seq<CodeItemView>,
                Stop,
            >(seq![instr(Instr::RefFunc(moved))])
            &&& metering.rewritten(Op::Call(index), bytes, last) == Ok::<Seq<CodeItemView>, Stop>(
                seq![instr(Instr::Call(moved))],
            )
            &&& metering.rewritten(Op::ReturnCall(index), bytes, last) == Ok::<
                Seq<CodeItemView>,
                Stop,
            >(metering.exit().push(instr(Instr::ReturnCall(moved))))
            &&& name_entry(true, Ok(Naming { index, name })) == Ok::<NamingView, Stop>(
                NamingView { index: moved, name: name@ },
            )
            &&& indirect_entry(context.wasm, Ok((index, range))) matches Ok(naming)
                ==> naming.index == moved
        }),
{
}

/// References to anything but functions are left as they are.
pub proof fn law_other_references_stay(
    metering: MeteringView,
    kind: ExportKind,
    index: u32,
    name: &'static str,
    bytes: Seq<u8>,
    last: bool,
)
    requires
        kind != ExportKind::Func,
    ensures
        export_entry(Ok(Export { name, kind, index })) == Ok::<ExportView, Stop>(
            ExportView { name: name@, kind, index },
        ),
        name_entry(false, Ok(Naming { index, name })) == Ok::<NamingView, Stop>(
            NamingView { index, name: name@ },
        ),
        metering.rewritten(Op::Other, Some(bytes), last) == Ok::<Seq<CodeItemView>, Stop>(
            seq![CodeItemView::Raw(bytes)],
        ),
        metering.rewritten(Op::End, Some(bytes), false) == Ok::<Seq<CodeItemView>, Stop>(
            seq![CodeItemView::Raw(bytes)],
        ),
{
}

/// That no type section comes behind an import section or a function body.
pub open spec fn types_come_first(
    payloads: Seq<Result<Payload<'static>, BinaryReaderError>>,
) -> bool {
    forall|i: int, j: int|
        0 <= i < j < payloads.len() && adds_types(#[trigger] payloads[i])
            ==> !(#[trigger] payloads[j] matches Ok(Payload::Types(_)))
}

/// That types may be added for this piece of a module which the module itself does not hold.
pub open spec fn adds_types(payload: Result<Payload<'static>, BinaryReaderError>) -> bool {
    payload matches Ok(Payload::Imports(_)) || payload matches Ok(Payload::Code(_))
}

proof fn lemma_types(
    wasm: Seq<u8>,
    import_env: Seq<char>,
    analysis: AnalysisView,
    payloads: Seq<Result<Payload<'static>, BinaryReaderError>>,
)
    requires
        types_come_first(payloads),
    ensures
        ({
            let context = fresh(wasm, import_env, analysis).with_payloads(payloads).0;
            &&& begins_with(context.type_section, context.types)
            &&& (forall|i: int| 0 <= i < payloads.len() ==> !adds_types(#[trigger] payloads[i]))
                ==> context.type_section == context.types
        }),
    decreases payloads.len(),
{
    if payloads.len() > 0 {
        let start = fresh(wasm, import_env, analysis);
        let earlier = payloads.drop_last();
        assert forall|i: int, j: int|
            0 <= i < j < earlier.len() && adds_types(#[trigger] earlier[i]) implies !(
        #[trigger] earlier[j] matches Ok(Payload::Types(_))) by {
            assert(payloads[i] == earlier[i] && payloads[j] == earlier[j]);
        }
        lemma_types(wasm, import_env, analysis, earlier);
        let (before, r) = start.with_payloads(earlier);
        if r is Ok {
            if let Ok(payload) = payloads.last() {
                if payload is Types {
                    assert forall|i: int| 0 <= i < earlier.len() implies !adds_types(
                        #[trigger] earlier[i],
                    ) by {
                        assert(payloads[i] == earlier[i]);
                        assert(payloads[payloads.len() - 1] == payloads.last());
                    }
                } else {
                    lemma_payload_kept(before, payload);
                    lemma_payload_types(before, payload);
                    assert(adds_types(payloads[payloads.len() - 1]) || before.type_section
                        == start.with_payloads(payloads).0.type_section);
                }
            }
        }
        if forall|i: int| 0 <= i < payloads.len() ==> !adds_types(#[trigger] payloads[i]) {
            assert forall|i: int| 0 <= i < earlier.len() implies !adds_types(
                #[trigger] earlier[i],
            ) by {
                assert(payloads[i] == earlier[i]);
            }
        }
    }
}

proof fn lemma_payload_types(context: ContextView, payload: Payload<'static>)
    requires
        !(payload is Types),
    ensures
        context.with_payload(payload).0.types == context.types,
        adds_types(Ok(payload)) || context.with_payload(payload).0.type_section
            == context.type_section,
{
    match payload {
        Payload::Code(range) => {},
        Payload::Imports(range) => {},
        _ => {},
    }
}

/// The types of the given module keep their indices, as all that is added comes behind them: any
/// reference to a type remains valid. (A type section behind an import section or a function body
/// would be too late.)
pub proof fn law_types_keep_their_indices(
    wasm: Seq<u8>,
    import_env: Seq<char>,
    analysis: AnalysisView,
    payloads: Seq<Result<Payload<'static>, BinaryReaderError>>,
)
    requires
        types_come_first(payloads),
    ensures
        ({
            let (context, r) = fresh(wasm, import_env, analysis).with_payloads(payloads);
            r is Ok ==> begins_with(context.type_section, given_types(wasm, payloads))
        }),
{
    lemma_types(wasm, import_env, analysis, payloads);
    if fresh(wasm, import_env, analysis).with_payloads(payloads).1 is Ok {
        lemma_given(wasm, import_env, analysis, payloads);
    }
}

/// The type that a block type stands for in a module with these types.
pub open spec fn block_signature(block: BlockType, types: Seq<FuncTypeView>) -> FuncTypeView {
    match block {
        BlockType::Empty => FuncTypeView { params: Seq::empty(), results: Seq::empty() },
        BlockType::Result(ty) => FuncTypeView { params: Seq::empty(), results: seq![ty] },
        BlockType::FunctionType(index) => types[index as int],
    }
}

/// The block around the body of a function takes nothing and gives what the function gives, once
/// the type that has to be added for it is there.
pub proof fn law_block_gives_what_the_function_gives(types: Seq<FuncTypeView>, index: u32)
    requires
        index < types.len(),
    ensures
        match block_type(types[index as int], index, types.len()) {
            Ok((block, added)) => block_signature(block, types + added) == (FuncTypeView {
                params: Seq::empty(),
                results: types[index as int].results,
            }),
            Err(stop) => stop == Stop::OutOfRange && types.len() >= u32::MAX,
        },
{
    let ty = types[index as int];
    if let Ok((block, added)) = block_type(ty, index, types.len()) {
        if ty.results.len() == 1 {
            assert(seq![ty.results[0]] =~= ty.results);
        } else if ty.params.len() == 0 {
            assert(ty.params =~= Seq::empty());
            if ty.results.len() == 0 {
                assert(ty.results =~= Seq::empty());
            }
        }
    }
}

/// The identifiers that stand for sections which are written anew.
pub open spec fn is_written_anew(id: u8) -> bool {
    ||| id == CODE_SECTION
    ||| id == ELEMENT_SECTION
    ||| id == EXPORT_SECTION
    ||| id == GLOBAL_SECTION
    ||| id == START_SECTION
    ||| id == FUNCTION_SECTION
    ||| id == PLACEHOLDER_FOR_NAMES
}

/// What stands in the list of sections for one that is written anew.
pub open spec fn written_anew(id: u8) -> Seq<RawSectionView> {
    seq![RawSectionView { id, data: Seq::empty() }]
}

/// What stands in the list of sections for one that is copied from `range` of the module.
pub open spec fn copied(wasm: Seq<u8>, id: u8, range: Range<usize>) -> Seq<RawSectionView> {
    match bytes_at(wasm, range) {
        Some(data) => seq![RawSectionView { id, data }],
        None => Seq::empty(),
    }
}

/// What stands in the list of sections for a piece of the given module. The types and the imports
/// are not in that list, and a code section is there from its beginning.
pub open spec fn sections_of(wasm: Seq<u8>, payload: Payload<'static>) -> Seq<RawSectionView> {
    match payload {
        Payload::Header => Seq::empty(),
        Payload::Finish => Seq::empty(),
        Payload::Types(_) => Seq::empty(),
        Payload::Imports(_) => Seq::empty(),
        Payload::Start(_) => written_anew(START_SECTION),
        Payload::Elements(_) => written_anew(ELEMENT_SECTION),
        Payload::Functions(_) => written_anew(FUNCTION_SECTION),
        Payload::CodeStart => written_anew(CODE_SECTION),
        Payload::Code(_) => Seq::empty(),
        Payload::Exports(_) => written_anew(EXPORT_SECTION),
        Payload::Globals(_) => written_anew(GLOBAL_SECTION),
        Payload::Custom(name, _, range) => if name@ == "name"@ {
            written_anew(PLACEHOLDER_FOR_NAMES)
        } else {
            copied(wasm, CUSTOM_SECTION, range)
        },
        Payload::Other(Some((id, range))) => copied(wasm, id, range),
        Payload::Other(None) => Seq::empty(),
    }
}

/// The sections of the given module behind the types and the imports, in their order.
pub open spec fn given_sections(
    wasm: Seq<u8>,
    payloads: Seq<Result<Payload<'static>, BinaryReaderError>>,
) -> Seq<RawSectionView>
    decreases payloads.len(),
{
    if payloads.len() == 0 {
        Seq::empty()
    } else {
        let before = given_sections(wasm, payloads.drop_last());
        match payloads.last() {
            Ok(payload) => before + sections_of(wasm, payload),
            Err(_) => before,
        }
    }
}

proof fn lemma_payload_sections(context: ContextView, payload: Payload<'static>)
    requires
        context.with_payload(payload).1 is Ok,
    ensures
        context.with_payload(payload).0.raw_sections == context.raw_sections + sections_of(
            context.wasm,
            payload,
        ),
{
    let after = context.with_payload(payload).0.raw_sections;
    let added = sections_of(context.wasm, payload);
    match payload {
        Payload::Code(_) => {
            assert(after =~= context.raw_sections + added);
        },
        Payload::Imports(_) => {
            assert(after =~= context.raw_sections + added);
        },
        _ => {
            assert(after =~= context.raw_sections + added);
        },
    }
}

proof fn lemma_given_sections(
    context: ContextView,
    payloads: Seq<Result<Payload<'static>, BinaryReaderError>>,
)
    requires
        context.with_payloads(payloads).1 is Ok,
    ensures
        context.with_payloads(payloads).0.raw_sections == context.raw_sections + given_sections(
            context.wasm,
            payloads,
        ),
    decreases payloads.len(),
{
    let after = context.with_payloads(payloads).0;
    if payloads.len() > 0 {
        let before = context.with_payloads(payloads.drop_last()).0;
        lemma_given_sections(context, payloads.drop_last());
        law_nothing_is_taken_back(context, payloads.drop_last());
        lemma_payload_sections(before, payloads.last()->Ok_0);
    }
    assert(after.raw_sections =~= context.raw_sections + given_sections(context.wasm, payloads));
}

/// The types come first in an instrumented module, then the imports, and then one section for each
/// of the given module, in their order: a section that is written anew stands where it stood, and
/// any other is copied byte for byte.
pub proof fn law_sections_keep_their_order(
    wasm: Seq<u8>,
    import_env: Seq<char>,
    analysis: AnalysisView,
    payloads: Seq<Result<Payload<'static>, BinaryReaderError>>,
)
    ensures
        ({
            let (context, r) = fresh(wasm, import_env, analysis).with_payloads(payloads);
            let given = given_sections(wasm, payloads);
            let sections = context.sections();
            r is Ok ==> {
                &&& context.raw_sections == given
                &&& sections.len() == 2 + given.len()
                &&& sections[0] == SectionView::Types(context.type_section)
                &&& sections[1] == SectionView::Imports(context.import_section)
                &&& forall|i: int|
                    0 <= i < given.len() ==> sections[2 + i] == if is_written_anew(
                        (#[trigger] given[i]).id,
                    ) {
                        context.section(given[i])
                    } else {
                        SectionView::Raw(given[i])
                    }
            }
        }),
{
    let (context, r) = fresh(wasm, import_env, analysis).with_payloads(payloads);
    if r is Ok {
        lemma_given_sections(fresh(wasm, import_env, analysis), payloads);
        assert(context.raw_sections =~= given_sections(wasm, payloads));
    }
}

/// A section that the instrumentation does not know is copied byte for byte.
pub proof fn law_other_sections_are_copied(context: ContextView, id: u8, range: Range<usize>)
    requires
        range.start <= range.end <= context.wasm.len(),
        !is_written_anew(id),
    ensures
        ({
            let (after, r) = context.with_payload(Payload::Other(Some((id, range))));
            &&& r == Ok::<(), Stop>(())
            &&& after.sections() == context.sections().push(
                SectionView::Raw(
                    RawSectionView {
                        id,
                        data: context.wasm.subrange(range.start as int, range.end as int),
                    },
                ),
            )
        }),
{
    let (after, r) = context.with_payload(Payload::Other(Some((id, range))));
    assert(after.sections() =~= context.sections().push(
        SectionView::Raw(
            RawSectionView {
                id,
                data: context.wasm.subrange(range.start as int, range.end as int),
            },
        ),
    ));
}

/// The first piece of a module that cannot be instrumented decides: it is its error that is
/// returned, whatever follows.
pub proof fn law_first_failure_decides(
    context: ContextView,
    payloads: Seq<Result<Payload<'static>, BinaryReaderError>>,
    failing: int,
)
    requires
        0 <= failing < payloads.len(),
        context.with_payloads(payloads.take(failing)).1 is Ok,
        context.with_payloads(payloads.take(failing + 1)).1 is Err,
    ensures
        context.with_payloads(payloads).1 == match payloads[failing] {
            Ok(payload) => context.with_payloads(payloads.take(failing)).0.with_payload(payload).1,
            Err(error) => Err(Stop::Failed(Error::ParseModuleSection(error))),
        },
{
    assert(payloads.take(failing + 1).drop_last() =~= payloads.take(failing));
    context.lemma_payloads_stop(payloads, failing + 1);
}

} // verus!
