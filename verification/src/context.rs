//! The instrumentation of a module as a function of what is read.
//!
//! A [`ContextView`] is a module that is being instrumented: what was given, and what has been
//! written so far. Each function here tells what becomes of it with another piece of the module.
use std::num::TryFromIntError;
use std::ops::Range;
use vstd::prelude::*;
use vstd::std_specs::convert::TryFromSpec;
use wasmparser::BinaryReaderError;

use crate::analysis::{gas_points, AnalysisView};
use crate::code::{shifted, BodyText, MeteringView};
use crate::encode::written;
use crate::entries::{
    element_entries, export_entries, function_entries, global_entries, import_entries, type_entries,
};
use crate::error::{Error, Stop};
use crate::model::{
    bytes_at, result_view, BlockType, BodyView, ElementEntry, EntityType, Export, ExportView,
    FuncTypeView, GlobalEntry, GlobalView, Import, ImportView, NameEntry, Operator, Payload,
    RawSectionView, SectionView, SegmentView, SubsectionView, ValueType,
};
use crate::names::subsection_entries;
use crate::read::{
    has_room, wasm_elements, wasm_exports, wasm_globals, wasm_imports, wasm_indices,
    wasm_locals, wasm_names, wasm_operators, wasm_payloads, wasm_types,
};

verus! {

/// The identifier of the function section.
pub const FUNCTION_SECTION: u8 = 3;

/// The identifier of the global section.
pub const GLOBAL_SECTION: u8 = 6;

/// The identifier of the export section.
pub const EXPORT_SECTION: u8 = 7;

/// The identifier of the start section.
pub const START_SECTION: u8 = 8;

/// The identifier of the element section.
pub const ELEMENT_SECTION: u8 = 9;

/// The identifier of the code section.
pub const CODE_SECTION: u8 = 10;

/// Stands for the name section, which is a custom section and has no identifier of its own.
pub const PLACEHOLDER_FOR_NAMES: u8 = 255;

/// The identifier of a custom section.
pub const CUSTOM_SECTION: u8 = 0;

/// A module that is being instrumented.
#[verifier::ext_equal]
pub struct ContextView {
    pub analysis: AnalysisView,
    pub wasm: Seq<u8>,
    pub import_env: Seq<char>,
    pub function_section: Seq<u32>,
    pub type_section: Seq<FuncTypeView>,
    pub import_section: Seq<ImportView>,
    pub code_section: Seq<BodyView>,
    pub element_section: Seq<SegmentView>,
    pub export_section: Seq<ExportView>,
    pub name_section: Seq<SubsectionView>,
    pub global_section: Seq<GlobalView>,
    pub start_section: u32,
    /// The sections behind the types and the imports, in the order in which they are written.
    pub raw_sections: Seq<RawSectionView>,
    /// The types of the module as it was given.
    pub types: Seq<FuncTypeView>,
    /// The types of the functions whose bodies are still to come, in order.
    pub function_types: Seq<u32>,
}

/// A context of which nothing has been written yet.
pub open spec fn fresh(
    wasm: Seq<u8>,
    import_env: Seq<char>,
    analysis: AnalysisView,
) -> ContextView {
    ContextView {
        analysis,
        wasm,
        import_env,
        function_section: Seq::empty(),
        type_section: Seq::empty(),
        import_section: Seq::empty(),
        code_section: Seq::empty(),
        element_section: Seq::empty(),
        export_section: Seq::empty(),
        name_section: Seq::empty(),
        global_section: Seq::empty(),
        start_section: 0,
        raw_sections: Seq::empty(),
        types: Seq::empty(),
        function_types: Seq::empty(),
    }
}

/// The types of the two functions of the host.
pub open spec fn host_types() -> Seq<FuncTypeView> {
    seq![
        FuncTypeView { params: seq![ValueType::I64], results: Seq::empty() },
        FuncTypeView { params: seq![ValueType::I64, ValueType::I64], results: Seq::empty() },
    ]
}

/// The imports of the two functions of the host, if their types are `ty` and the one behind it.
pub open spec fn host_imports(import_env: Seq<char>, ty: u32) -> Seq<ImportView> {
    seq![
        ImportView {
            module: import_env,
            name: "finite_wasm_gas"@,
            ty: EntityType::Function(ty),
        },
        ImportView {
            module: import_env,
            name: "finite_wasm_stack"@,
            ty: EntityType::Function((ty + 1) as u32),
        },
    ]
}

/// The type of the block around the body of a function of type `ty`, which is `index`, and the type
/// that has to be added as `next` for it.
pub open spec fn block_type(ty: FuncTypeView, index: u32, next: nat) -> Result<
    (BlockType, Seq<FuncTypeView>),
    Stop,
> {
    if ty.results.len() == 1 {
        Ok((BlockType::Result(ty.results[0]), Seq::empty()))
    } else if ty.params.len() == 0 && ty.results.len() == 0 {
        Ok((BlockType::Empty, Seq::empty()))
    } else if ty.params.len() == 0 {
        Ok((BlockType::FunctionType(index), Seq::empty()))
    } else if next < u32::MAX {
        Ok(
            (
                BlockType::FunctionType(next as u32),
                seq![FuncTypeView { params: Seq::empty(), results: ty.results }],
            ),
        )
    } else {
        Err(Stop::OutOfRange)
    }
}

/// A size as a signed number, if it is one: that it is widened on the way makes no difference.
pub open spec fn narrowed(size: u64) -> Result<i64, TryFromIntError> {
    <i64 as TryFromSpec<u128>>::try_from_spec(size as u128)
}

impl AnalysisView {
    /// That the list `field` has no entry for the function body `index`.
    pub open spec fn missing(field: &'static str, index: usize) -> Stop {
        Stop::Failed(Error::FunctionMissingInAnalysisOutcome(field, index))
    }

    /// What is known of the function body `index`.
    pub open spec fn metering(self, index: usize) -> Result<MeteringView, Stop> {
        if index >= self.gas_costs.len() {
            Err(Self::missing("gas_costs", index))
        } else if index >= self.gas_kinds.len() {
            Err(Self::missing("gas_kinds", index))
        } else if index >= self.gas_offsets.len() {
            Err(Self::missing("gas_offsets", index))
        } else if index >= self.function_operand_stack_sizes.len() {
            Err(Self::missing("function_operand_stack_sizes", index))
        } else if index >= self.function_frame_sizes.len() {
            Err(Self::missing("function_frame_sizes", index))
        } else {
            let i = index as int;
            match narrowed(self.function_operand_stack_sizes[i]) {
                Err(error) => Err(
                    Stop::Failed(Error::SizeTooLarge("function_operand_stack_sizes", index, error)),
                ),
                Ok(stack) => match narrowed(self.function_frame_sizes[i]) {
                    Err(error) => Err(
                        Stop::Failed(Error::SizeTooLarge("function_frame_sizes", index, error)),
                    ),
                    Ok(frame) => Ok(
                        MeteringView {
                            points: gas_points(
                                self.gas_offsets[i],
                                self.gas_costs[i],
                                self.gas_kinds[i],
                            ),
                            stack,
                            frame,
                        },
                    ),
                },
            }
        }
    }
}

/// The view of the locals of a function body as they are read.
pub open spec fn locals_view(
    locals: Result<Result<Vec<(u32, ValueType)>, BinaryReaderError>, BinaryReaderError>,
) -> Result<Result<Seq<(u32, ValueType)>, BinaryReaderError>, BinaryReaderError> {
    match locals {
        Ok(locals) => Ok(result_view(locals)),
        Err(error) => Err(error),
    }
}

/// The locals of a function body, if they can be read.
pub open spec fn local_types(
    locals: Result<Result<Seq<(u32, ValueType)>, BinaryReaderError>, BinaryReaderError>,
) -> Result<Seq<(u32, ValueType)>, Stop> {
    match locals {
        Ok(Ok(locals)) => Ok(locals),
        Ok(Err(error)) => Err(Stop::Failed(Error::ParseLocal(error))),
        Err(error) => Err(Stop::Failed(Error::ParseLocals(error))),
    }
}

impl ContextView {
    /// With the section `id` as the next one to be written.
    pub open spec fn scheduled(self, id: u8) -> ContextView {
        ContextView {
            raw_sections: self.raw_sections.push(RawSectionView { id, data: Seq::empty() }),
            ..self
        }
    }

    /// With the section `id` as the next one to be written, if all went well so far.
    pub open spec fn scheduled_if(self, id: u8, r: Result<(), Stop>) -> (
        ContextView,
        Result<(), Stop>,
    ) {
        match r {
            Ok(()) => (self.scheduled(id), Ok(())),
            Err(stop) => (self, Err(stop)),
        }
    }

    /// With the types of a type section.
    pub open spec fn with_types(self, entries: Seq<Result<FuncTypeView, BinaryReaderError>>) -> (
        ContextView,
        Result<(), Stop>,
    ) {
        let (done, r) = type_entries(entries);
        (
            ContextView {
                type_section: self.type_section + done,
                types: self.types + done,
                ..self
            },
            r,
        )
    }

    /// With the imports of the host, and their types behind all others, unless there already are
    /// imports.
    pub open spec fn with_host_imports(self) -> (ContextView, Result<(), Stop>) {
        if self.import_section.len() > 0 {
            (self, Ok(()))
        } else if self.type_section.len() + 2 <= u32::MAX {
            (
                ContextView {
                    type_section: self.type_section + host_types(),
                    import_section: host_imports(self.import_env, self.type_section.len() as u32),
                    ..self
                },
                Ok(()),
            )
        } else {
            (self, Err(Stop::OutOfRange))
        }
    }

    /// With the imports of an import section.
    pub open spec fn with_imports(
        self,
        entries: Seq<Result<Import<'static>, BinaryReaderError>>,
    ) -> (ContextView, Result<(), Stop>) {
        let (done, r) = import_entries(entries);
        (ContextView { import_section: self.import_section + done, ..self }, r)
    }

    /// With the start function `index`.
    pub open spec fn with_start(self, index: u32) -> (ContextView, Result<(), Stop>) {
        match shifted(index) {
            Ok(index) => (ContextView { start_section: index, ..self }, Ok(())),
            Err(stop) => (self, Err(stop)),
        }
    }

    /// With the functions of a function section; it is their bodies that come next.
    pub open spec fn with_functions(self, entries: Seq<Result<u32, BinaryReaderError>>) -> (
        ContextView,
        Result<(), Stop>,
    ) {
        match function_entries(entries) {
            Ok(types) => (
                ContextView {
                    function_section: self.function_section + types,
                    function_types: types,
                    ..self
                },
                Ok(()),
            ),
            Err(stop) => (self, Err(stop)),
        }
    }

    /// With the exports of an export section.
    pub open spec fn with_exports(
        self,
        entries: Seq<Result<Export<'static>, BinaryReaderError>>,
    ) -> (ContextView, Result<(), Stop>) {
        let (done, r) = export_entries(entries);
        (ContextView { export_section: self.export_section + done, ..self }, r)
    }

    /// With the globals of a global section.
    pub open spec fn with_globals(self, entries: Seq<Result<GlobalEntry, BinaryReaderError>>) -> (
        ContextView,
        Result<(), Stop>,
    ) {
        let (done, r) = global_entries(self.wasm, entries);
        (ContextView { global_section: self.global_section + done, ..self }, r)
    }

    /// With the element segments of an element section.
    pub open spec fn with_elements(self, entries: Seq<Result<ElementEntry, BinaryReaderError>>) -> (
        ContextView,
        Result<(), Stop>,
    ) {
        let (done, r) = element_entries(self.wasm, entries);
        (ContextView { element_section: self.element_section + done, ..self }, r)
    }

    /// With the names of a name section.
    pub open spec fn with_names(
        self,
        entries: Seq<Result<NameEntry<'static>, BinaryReaderError>>,
    ) -> (ContextView, Result<(), Stop>) {
        let (done, r) = subsection_entries(self.wasm, entries);
        (ContextView { name_section: self.name_section + done, ..self }, r)
    }

    /// With a copy of the section `id` at `range` of the module.
    pub open spec fn with_copy(self, id: u8, range: Range<usize>) -> (
        ContextView,
        Result<(), Stop>,
    ) {
        match bytes_at(self.wasm, range) {
            Some(data) => (
                ContextView {
                    raw_sections: self.raw_sections.push(RawSectionView { id, data }),
                    ..self
                },
                Ok(()),
            ),
            None => (self, Err(Stop::OutOfRange)),
        }
    }

    /// With the body of a function of the type `func_type_idx`. The body ends at `end`.
    pub open spec fn with_body(
        self,
        locals: Result<Result<Seq<(u32, ValueType)>, BinaryReaderError>, BinaryReaderError>,
        operators: Result<Seq<Result<Operator, BinaryReaderError>>, BinaryReaderError>,
        end: usize,
        func_type_idx: u32,
    ) -> (ContextView, Result<(), Stop>) {
        if func_type_idx >= self.types.len() {
            (self, Err(Stop::Failed(Error::InvalidTypeIndex)))
        } else {
            let ty = self.types[func_type_idx as int];
            match (
                local_types(locals),
                self.analysis.metering(self.code_section.len() as usize),
                operators,
                block_type(ty, func_type_idx, self.type_section.len()),
            ) {
                (Err(stop), _, _, _) => (self, Err(stop)),
                (_, Err(stop), _, _) => (self, Err(stop)),
                (_, _, Err(error), _) => (self, Err(Stop::Failed(Error::ParseOperators(error)))),
                (_, _, _, Err(stop)) => (self, Err(stop)),
                (Ok(locals), Ok(metering), Ok(operators), Ok((block_type, added))) => {
                    let context = ContextView { type_section: self.type_section + added, ..self };
                    let text = BodyText { wasm: self.wasm, operators, end };
                    match text.code(metering, block_type, operators.len()) {
                        Ok(code) => (
                            ContextView {
                                code_section: self.code_section.push(BodyView { locals, code }),
                                ..context
                            },
                            Ok(()),
                        ),
                        Err(stop) => (context, Err(stop)),
                    }
                },
            }
        }
    }

    /// With the body of a function of the type `func_type_idx` at `range` of the module.
    pub open spec fn with_body_at(self, range: Range<usize>, func_type_idx: u32) -> (
        ContextView,
        Result<(), Stop>,
    ) {
        match bytes_at(self.wasm, range) {
            Some(data) => self.with_body(
                wasm_locals(data, range.start),
                wasm_operators(data, range.start),
                range.end,
                func_type_idx,
            ),
            None => (self, Err(Stop::OutOfRange)),
        }
    }

    /// With the body of the next function, at `range` of the module.
    pub open spec fn with_next_body(self, range: Range<usize>) -> (ContextView, Result<(), Stop>) {
        let (context, r) = self.with_host_imports();
        match r {
            Ok(()) => if context.function_types.len() > 0 {
                ContextView {
                    function_types: context.function_types.drop_first(),
                    ..context
                }.with_body_at(range, context.function_types.first())
            } else {
                (context, Err(Stop::Failed(Error::InsufficientFunctionTypes)))
            },
            Err(stop) => (context, Err(stop)),
        }
    }

    /// With another piece of the module.
    pub open spec fn with_payload(self, payload: Payload<'static>) -> (
        ContextView,
        Result<(), Stop>,
    ) {
        match payload {
            Payload::Header => (self, Ok(())),
            Payload::Finish => (self, Ok(())),
            Payload::Types(range) => match bytes_at(self.wasm, range) {
                Some(data) => self.with_types(wasm_types(data, range.start)),
                None => (self, Err(Stop::OutOfRange)),
            },
            Payload::Imports(range) => match bytes_at(self.wasm, range) {
                Some(data) => {
                    let (context, r) = self.with_host_imports();
                    match r {
                        Ok(()) => context.with_imports(wasm_imports(data, range.start)),
                        Err(stop) => (context, Err(stop)),
                    }
                },
                None => (self, Err(Stop::OutOfRange)),
            },
            Payload::Start(index) => {
                let (context, r) = self.with_start(index);
                context.scheduled_if(START_SECTION, r)
            },
            Payload::Elements(range) => match bytes_at(self.wasm, range) {
                Some(data) => {
                    let (context, r) = self.with_elements(wasm_elements(data, range.start));
                    context.scheduled_if(ELEMENT_SECTION, r)
                },
                None => (self, Err(Stop::OutOfRange)),
            },
            Payload::Functions(range) => match bytes_at(self.wasm, range) {
                Some(data) => {
                    let (context, r) = self.with_functions(wasm_indices(data, range.start));
                    context.scheduled_if(FUNCTION_SECTION, r)
                },
                None => (self, Err(Stop::OutOfRange)),
            },
            Payload::CodeStart => (self.scheduled(CODE_SECTION), Ok(())),
            Payload::Code(range) => self.with_next_body(range),
            Payload::Exports(range) => match bytes_at(self.wasm, range) {
                Some(data) => {
                    let (context, r) = self.with_exports(wasm_exports(data, range.start));
                    context.scheduled_if(EXPORT_SECTION, r)
                },
                None => (self, Err(Stop::OutOfRange)),
            },
            Payload::Globals(range) => match bytes_at(self.wasm, range) {
                Some(data) => {
                    let (context, r) = self.with_globals(wasm_globals(data, range.start));
                    context.scheduled_if(GLOBAL_SECTION, r)
                },
                None => (self, Err(Stop::OutOfRange)),
            },
            Payload::Custom(name, data_offset, range) => if name@ == "name"@ {
                match bytes_at(self.wasm, Range { start: data_offset, end: range.end }) {
                    Some(data) => {
                        let (context, r) = self.with_names(wasm_names(data, data_offset));
                        context.scheduled_if(PLACEHOLDER_FOR_NAMES, r)
                    },
                    None => (self, Err(Stop::OutOfRange)),
                }
            } else {
                self.with_copy(CUSTOM_SECTION, range)
            },
            Payload::Other(Some((id, range))) => self.with_copy(id, range),
            Payload::Other(None) => (self, Err(Stop::OutOfRange)),
        }
    }

    /// With the pieces of the module, up to the first that cannot be instrumented.
    pub open spec fn with_payloads(
        self,
        payloads: Seq<Result<Payload<'static>, BinaryReaderError>>,
    ) -> (ContextView, Result<(), Stop>)
        decreases payloads.len(),
    {
        if payloads.len() == 0 {
            (self, Ok(()))
        } else {
            let (context, r) = self.with_payloads(payloads.drop_last());
            match (r, payloads.last()) {
                (Err(stop), _) => (context, Err(stop)),
                (Ok(()), Ok(payload)) => context.with_payload(payload),
                (Ok(()), Err(error)) => (
                    context,
                    Err(Stop::Failed(Error::ParseModuleSection(error))),
                ),
            }
        }
    }

    /// Once a piece of the module cannot be instrumented, those that follow make no difference.
    pub proof fn lemma_payloads_stop(
        self,
        payloads: Seq<Result<Payload<'static>, BinaryReaderError>>,
        count: int,
    )
        requires
            0 <= count <= payloads.len(),
            self.with_payloads(payloads.take(count)).1 is Err,
        ensures
            self.with_payloads(payloads) == self.with_payloads(payloads.take(count)),
        decreases payloads.len(),
    {
        if count < payloads.len() {
            assert(payloads.drop_last().take(count) =~= payloads.take(count));
            self.lemma_payloads_stop(payloads.drop_last(), count);
        } else {
            assert(payloads.take(count) =~= payloads);
        }
    }

    /// What is written for an entry of the list of sections: the section that its identifier stands
    /// for, if it is one that is written anew.
    pub open spec fn section(self, raw: RawSectionView) -> SectionView {
        if raw.id == CODE_SECTION {
            SectionView::Code(self.code_section)
        } else if raw.id == ELEMENT_SECTION {
            SectionView::Elements(self.element_section)
        } else if raw.id == EXPORT_SECTION {
            SectionView::Exports(self.export_section)
        } else if raw.id == GLOBAL_SECTION {
            SectionView::Globals(self.global_section)
        } else if raw.id == START_SECTION {
            SectionView::Start(self.start_section)
        } else if raw.id == FUNCTION_SECTION {
            SectionView::Functions(self.function_section)
        } else if raw.id == PLACEHOLDER_FOR_NAMES {
            SectionView::Names(self.name_section)
        } else {
            SectionView::Raw(raw)
        }
    }

    /// The instrumented module, or why there is none.
    pub open spec fn outcome(self) -> Result<Seq<u8>, Stop> {
        if has_room(self.wasm) {
            let (context, r) = self.with_payloads(wasm_payloads(self.wasm));
            match r {
                Ok(()) => written(context.sections()),
                Err(stop) => Err(stop),
            }
        } else {
            Err(Stop::OutOfRange)
        }
    }

    /// The sections of the instrumented module. The types and the imports always come first.
    pub open spec fn sections(self) -> Seq<SectionView> {
        seq![SectionView::Types(self.type_section), SectionView::Imports(self.import_section)]
            + self.raw_sections.map_values(|raw: RawSectionView| self.section(raw))
    }
}

} // verus!
