//! Instrumenting a module.
//!
//! The module is walked section by section. Sections that refer to functions, or that the
//! instrumentation adds to, are written anew; all others are copied.
use std::ops::Range;
use vstd::prelude::*;
use wasm_encoder::Module;
use wasmparser::BinaryReaderError;

use crate::analysis::{AnalysisOutcome, AnalysisView};
use crate::code::{instrument_body, shift, Metering, MeteringView};
use crate::context::{
    block_type, fresh, host_imports, host_types, local_types, locals_view, ContextView,
    CODE_SECTION, CUSTOM_SECTION, ELEMENT_SECTION, EXPORT_SECTION, FUNCTION_SECTION, GLOBAL_SECTION,
    PLACEHOLDER_FOR_NAMES, START_SECTION,
};
use crate::encode::{
    module_holds, section_written, write_code, write_elements, write_exports, write_functions,
    write_globals, write_imports, write_names, write_raw, write_start, write_types, written,
};
use crate::entries::{
    transform_elements, transform_exports, transform_functions, transform_globals,
    transform_imports, transform_types,
};
use crate::error::{Error, Stop};
use crate::model::{
    lemma_views_add, lemma_views_push, read_views, result_view, slice_at, views, BlockType, Body,
    ElementEntry, EntityType, Export, FuncType, FuncTypeView, Global, GlobalEntry, Import,
    NameEntry, Operator, Payload, RawSection, RawSectionView, SectionView, Segment, Subsection,
    ValueType,
};
use crate::names::transform_subsections;
use crate::read::{
    check_room, read_elements, read_exports, read_globals, read_imports, read_indices, read_locals,
    read_names, read_operators, read_payloads, read_types,
};

verus! {

/// A module that is being instrumented: what was given, and what has been written so far.
pub struct InstrumentContext<'a> {
    analysis: &'a AnalysisOutcome,
    wasm: &'a [u8],
    import_env: &'a str,
    function_section: Vec<u32>,
    type_section: Vec<FuncType>,
    import_section: Vec<Import<'a>>,
    code_section: Vec<Body<'a>>,
    element_section: Vec<Segment<'a>>,
    export_section: Vec<Export<'a>>,
    name_section: Vec<Subsection<'a>>,
    global_section: Vec<Global<'a>>,
    start_section: u32,
    /// The sections behind the types and the imports, in the order in which they are written.
    raw_sections: Vec<RawSection<'a>>,
    /// The types of the module as it was given.
    types: Vec<FuncType>,
    /// The types of the functions whose bodies are still to come, the next one last.
    function_types: Vec<u32>,
}

impl<'a> View for InstrumentContext<'a> {
    type V = ContextView;

    closed spec fn view(&self) -> ContextView {
        ContextView {
            analysis: self.analysis@,
            wasm: self.wasm@,
            import_env: self.import_env@,
            function_section: self.function_section@,
            type_section: views(self.type_section@),
            import_section: views(self.import_section@),
            code_section: views(self.code_section@),
            element_section: views(self.element_section@),
            export_section: views(self.export_section@),
            name_section: views(self.name_section@),
            global_section: views(self.global_section@),
            start_section: self.start_section,
            raw_sections: views(self.raw_sections@),
            types: views(self.types@),
            function_types: self.function_types@.reverse(),
        }
    }
}

impl AnalysisOutcome {
    /// What is known of the function body `index`.
    pub fn metering(&self, index: usize) -> (r: Result<Metering<'_>, Stop>)
        ensures
            match r {
                Ok(metering) => self@.metering(index) == Ok::<MeteringView, Stop>(metering@)
                    && metering.stack >= 0 && metering.frame >= 0,
                Err(stop) => self@.metering(index) == Err::<MeteringView, Stop>(stop),
            },
    {
        let missing = |field: &'static str| -> (r: Stop)
            ensures
                r == AnalysisView::missing(field, index),
            { Stop::Failed(Error::FunctionMissingInAnalysisOutcome(field, index)) };
        if index >= self.gas_costs.len() {
            return Err(missing("gas_costs"));
        }
        if index >= self.gas_kinds.len() {
            return Err(missing("gas_kinds"));
        }
        if index >= self.gas_offsets.len() {
            return Err(missing("gas_offsets"));
        }
        if index >= self.function_operand_stack_sizes.len() {
            return Err(missing("function_operand_stack_sizes"));
        }
        if index >= self.function_frame_sizes.len() {
            return Err(missing("function_frame_sizes"));
        }
        let stack: i64 = match i64::try_from(self.function_operand_stack_sizes[index] as u128) {
            Ok(stack) => stack,
            Err(error) => {
                return Err(
                    Stop::Failed(Error::SizeTooLarge("function_operand_stack_sizes", index, error)),
                );
            },
        };
        let frame: i64 = match i64::try_from(self.function_frame_sizes[index] as u128) {
            Ok(frame) => frame,
            Err(error) => {
                return Err(Stop::Failed(Error::SizeTooLarge("function_frame_sizes", index, error)));
            },
        };
        Ok(
            Metering {
                offsets: &self.gas_offsets[index],
                costs: &self.gas_costs[index],
                kinds: &self.gas_kinds[index],
                stack,
                frame,
            },
        )
    }
}

/// A copy of a list of value types.
fn copied(types: &Vec<ValueType>) -> (r: Vec<ValueType>)
    ensures
        r@ == types@,
{
    let r = types.clone();
    assert(r@ =~= types@);
    r
}

/// A copy of a list of function types.
fn copied_types(types: &Vec<FuncType>) -> (r: Vec<FuncType>)
    ensures
        views(r@) == views(types@),
{
    broadcast use lemma_views_push;

    let mut r: Vec<FuncType> = Vec::new();
    for i in 0..types.len()
        invariant
            views(r@) == views(types@.take(i as int)),
    {
        let ty = FuncType { params: copied(&types[i].params), results: copied(&types[i].results) };
        assert(ty@ == types@[i as int]@);
        assert(types@.take(i + 1) =~= types@.take(i as int).push(types@[i as int]));
        assert(views(types@.take(i + 1)) == views(types@.take(i as int)).push(ty@));
        r.push(ty);
    }
    assert(types@.take(types@.len() as int) =~= types@);
    r
}

/// A list the other way round.
fn reversed(items: &Vec<u32>) -> (r: Vec<u32>)
    ensures
        r@ == items@.reverse(),
{
    let mut r: Vec<u32> = Vec::new();
    let mut left: usize = items.len();
    while left > 0
        invariant
            left <= items.len(),
            r@ =~= items@.skip(left as int).reverse(),
        decreases left,
    {
        left -= 1;
        r.push(items[left]);
    }
    assert(items@.skip(0) =~= items@);
    r
}

/// The locals of a function body, if they can be read.
fn transform_locals(
    locals: Result<Result<Vec<(u32, ValueType)>, BinaryReaderError>, BinaryReaderError>,
) -> (r: Result<Vec<(u32, ValueType)>, Stop>)
    ensures
        result_view(r) == local_types(locals_view(locals)),
{
    match locals {
        Ok(Ok(locals)) => Ok(locals),
        Ok(Err(error)) => Err(Stop::Failed(Error::ParseLocal(error))),
        Err(error) => Err(Stop::Failed(Error::ParseLocals(error))),
    }
}

/// The type of the block around the body of a function of type `ty`, which is `index`, and the type
/// that has to be added as `next` for it.
pub fn transform_block_type(ty: &FuncType, index: u32, next: usize) -> (r: Result<
    (BlockType, Vec<FuncType>),
    Stop,
>)
    ensures
        match r {
            Ok((block, added)) => block_type(ty@, index, next as nat) == Ok::<
                (BlockType, Seq<FuncTypeView>),
                Stop,
            >((block, views(added@))),
            Err(stop) => block_type(ty@, index, next as nat) == Err::<
                (BlockType, Seq<FuncTypeView>),
                Stop,
            >(stop),
        },
{
    let mut added: Vec<FuncType> = Vec::new();
    assert(views(added@) =~= Seq::empty());
    let block = if ty.results.len() == 1 {
        BlockType::Result(ty.results[0])
    } else if ty.params.len() > 0 {
        if next >= u32::MAX as usize {
            return Err(Stop::OutOfRange);
        }
        added.push(FuncType { params: Vec::new(), results: copied(&ty.results) });
        assert(views(added@) =~= seq![
            FuncTypeView { params: Seq::empty(), results: ty@.results },
        ]);
        BlockType::FunctionType(next as u32)
    } else if ty.results.len() > 0 {
        BlockType::FunctionType(index)
    } else {
        BlockType::Empty
    };
    Ok((block, added))
}

/// Whether a custom section of that name is the name section.
pub fn is_name_section(name: &str) -> (r: bool)
    ensures
        r == (name@ == "name"@),
{
    proof {
        reveal_strlit("name");
    }
    let r = name.unicode_len() == 4 && name.get_char(0) == 'n' && name.get_char(1) == 'a'
        && name.get_char(2) == 'm' && name.get_char(3) == 'e';
    if r {
        assert(name@ =~= "name"@);
    }
    r
}

impl<'a> InstrumentContext<'a> {
    /// Begins with a module, the name of the module that the functions of the host are imported
    /// from, and the outcome of the analysis of the module.
    pub fn new(wasm: &'a [u8], import_env: &'a str, analysis: &'a AnalysisOutcome) -> (r: Self)
        ensures
            r@ == fresh(wasm@, import_env@, analysis@),
    {
        let r = Self {
            analysis,
            wasm,
            import_env,
            function_section: Vec::new(),
            type_section: Vec::new(),
            import_section: Vec::new(),
            code_section: Vec::new(),
            element_section: Vec::new(),
            export_section: Vec::new(),
            name_section: Vec::new(),
            global_section: Vec::new(),
            start_section: 0,
            raw_sections: Vec::new(),
            types: Vec::new(),
            function_types: Vec::new(),
        };
        assert(r@ =~= fresh(wasm@, import_env@, analysis@));
        r
    }

    /// Lets the section `id` be the next one to be written.
    pub fn schedule_section(&mut self, id: u8)
        ensures
            final(self)@ == old(self)@.scheduled(id),
    {
        broadcast use lemma_views_push;

        let raw = RawSection { id, data: &[] };
        assert(raw@ =~= RawSectionView { id, data: Seq::empty() });
        self.raw_sections.push(raw);
    }

    /// Takes the types of a type section.
    pub fn transform_type_section(
        &mut self,
        types: Vec<Result<FuncType, BinaryReaderError>>,
    ) -> (r: Result<(), Stop>)
        ensures
            (final(self)@, r) == old(self)@.with_types(read_views(types@)),
    {
        broadcast use lemma_views_add;

        let (mut done, r) = transform_types(types);
        let mut copy = copied_types(&done);
        self.type_section.append(&mut copy);
        self.types.append(&mut done);
        r
    }

    /// Adds the imports of the host, and their types behind all others, unless there already are
    /// imports.
    pub fn maybe_add_imports(&mut self) -> (r: Result<(), Stop>)
        ensures
            (final(self)@, r) == old(self)@.with_host_imports(),
    {
        broadcast use lemma_views_push;

        if self.import_section.len() == 0 {
            if self.type_section.len() > u32::MAX as usize - 2 {
                return Err(Stop::OutOfRange);
            }
            let instrument_fn_ty: u32 = self.type_section.len() as u32;
            // By adding the types at the end of the type section we guarantee that any other
            // type references remain valid.
            self.type_section.push(FuncType { params: vec![ValueType::I64], results: Vec::new() });
            self.type_section.push(
                FuncType { params: vec![ValueType::I64, ValueType::I64], results: Vec::new() },
            );
            // By inserting the imports at the beginning of the import section we make the new
            // function index mapping trivial (it is always just an increment by 2).
            self.import_section.push(
                Import {
                    module: self.import_env,
                    name: "finite_wasm_gas",
                    ty: EntityType::Function(instrument_fn_ty),
                },
            );
            self.import_section.push(
                Import {
                    module: self.import_env,
                    name: "finite_wasm_stack",
                    ty: EntityType::Function(instrument_fn_ty + 1),
                },
            );
            assert(self@.type_section =~~= old(self)@.type_section + host_types());
            assert(self@.import_section =~~= host_imports(self@.import_env, instrument_fn_ty));
        }
        Ok(())
    }

    /// Takes the imports of an import section.
    pub fn transform_imports_section(
        &mut self,
        imports: Vec<Result<Import<'a>, BinaryReaderError>>,
    ) -> (r: Result<(), Stop>)
        ensures
            (final(self)@, r) == old(self)@.with_imports(imports@),
    {
        broadcast use lemma_views_add;

        let (mut done, r) = transform_imports(imports);
        self.import_section.append(&mut done);
        r
    }

    /// Takes the index of the start function.
    pub fn transform_start_section(&mut self, func: u32) -> (r: Result<(), Stop>)
        ensures
            (final(self)@, r) == old(self)@.with_start(func),
    {
        self.start_section = shift(func)?;
        Ok(())
    }

    /// Takes the functions of a function section. They are not modified, but their types are
    /// needed for their bodies.
    pub fn transform_function_section(
        &mut self,
        functions: Vec<Result<u32, BinaryReaderError>>,
    ) -> (r: Result<(), Stop>)
        ensures
            (final(self)@, r) == old(self)@.with_functions(functions@),
    {
        let mut fn_types: Vec<u32> = transform_functions(functions)?;
        self.function_types = reversed(&fn_types);
        assert(fn_types@.reverse().reverse() =~= fn_types@);
        self.function_section.append(&mut fn_types);
        Ok(())
    }

    /// Takes the exports of an export section.
    pub fn transform_export_section(
        &mut self,
        exports: Vec<Result<Export<'a>, BinaryReaderError>>,
    ) -> (r: Result<(), Stop>)
        ensures
            (final(self)@, r) == old(self)@.with_exports(exports@),
    {
        broadcast use lemma_views_add;

        let (mut done, r) = transform_exports(exports);
        self.export_section.append(&mut done);
        r
    }

    /// Takes the globals of a global section.
    pub fn transform_global_section(
        &mut self,
        globals: Vec<Result<GlobalEntry, BinaryReaderError>>,
    ) -> (r: Result<(), Stop>)
        ensures
            (final(self)@, r) == old(self)@.with_globals(globals@),
    {
        broadcast use lemma_views_add;

        let (mut done, r) = transform_globals(self.wasm, globals);
        self.global_section.append(&mut done);
        r
    }

    /// Takes the element segments of an element section.
    pub fn transform_elem_section(
        &mut self,
        elements: Vec<Result<ElementEntry, BinaryReaderError>>,
    ) -> (r: Result<(), Stop>)
        ensures
            (final(self)@, r) == old(self)@.with_elements(elements@),
    {
        broadcast use lemma_views_add;

        let (mut done, r) = transform_elements(self.wasm, elements);
        self.element_section.append(&mut done);
        r
    }

    /// Takes the names of a name section.
    pub fn transform_name_section(
        &mut self,
        names: Vec<Result<NameEntry<'a>, BinaryReaderError>>,
    ) -> (r: Result<(), Stop>)
        ensures
            (final(self)@, r) == old(self)@.with_names(names@),
    {
        broadcast use lemma_views_add;

        let (mut done, r) = transform_subsections(self.wasm, names);
        self.name_section.append(&mut done);
        r
    }

    /// Copies the section `id` at `range` of the module.
    pub fn copy_section(&mut self, id: u8, range: Range<usize>) -> (r: Result<(), Stop>)
        ensures
            (final(self)@, r) == old(self)@.with_copy(id, range),
    {
        broadcast use lemma_views_push;

        match slice_at(self.wasm, &range) {
            Some(data) => {
                self.raw_sections.push(RawSection { id, data });
                Ok(())
            },
            None => Err(Stop::OutOfRange),
        }
    }

    /// Takes the body of a function of the type `func_type_idx`, as its locals and operators are
    /// read. The body ends at `end`.
    pub fn transform_body(
        &mut self,
        locals: Result<Result<Vec<(u32, ValueType)>, BinaryReaderError>, BinaryReaderError>,
        operators: Result<Vec<Result<Operator, BinaryReaderError>>, BinaryReaderError>,
        end: usize,
        func_type_idx: u32,
    ) -> (r: Result<(), Stop>)
        ensures
            (final(self)@, r) == old(self)@.with_body(
                locals_view(locals),
                result_view(operators),
                end,
                func_type_idx,
            ),
    {
        broadcast use {lemma_views_add, lemma_views_push};

        if func_type_idx as usize >= self.types.len() {
            return Err(Stop::Failed(Error::InvalidTypeIndex));
        }
        let locals = transform_locals(locals)?;
        let analysis = self.analysis;
        let metering = analysis.metering(self.code_section.len())?;
        let operators = match operators {
            Ok(operators) => operators,
            Err(error) => return Err(Stop::Failed(Error::ParseOperators(error))),
        };
        // In order to enable us to insert the stack termination, we'll wrap the function body into
        // a `block`.
        let (block, mut added) = transform_block_type(
            &self.types[func_type_idx as usize],
            func_type_idx,
            self.type_section.len(),
        )?;
        self.type_section.append(&mut added);
        let body = instrument_body(self.wasm, locals, operators, end, &metering, block)?;
        self.code_section.push(body);
        Ok(())
    }

    /// Instruments the body of a function of the type `func_type_idx` at `range` of the module.
    pub fn transform_code_section(&mut self, range: Range<usize>, func_type_idx: u32) -> (r: Result<
        (),
        Stop,
    >)
        ensures
            (final(self)@, r) == old(self)@.with_body_at(range, func_type_idx),
    {
        match slice_at(self.wasm, &range) {
            Some(data) => self.transform_body(
                read_locals(data, range.start),
                read_operators(data, range.start),
                range.end,
                func_type_idx,
            ),
            None => Err(Stop::OutOfRange),
        }
    }

    /// Instruments the body of the next function, at `range` of the module.
    fn transform_next_body(&mut self, range: Range<usize>) -> (r: Result<(), Stop>)
        ensures
            (final(self)@, r) == old(self)@.with_next_body(range),
    {
        self.maybe_add_imports()?;
        let ghost types = self.function_types@;
        match self.function_types.pop() {
            Some(type_index) => {
                assert(types.reverse().drop_first() =~= self.function_types@.reverse());
                self.transform_code_section(range, type_index)
            },
            None => {
                assert(types.reverse() =~= Seq::empty());
                Err(Stop::Failed(Error::InsufficientFunctionTypes))
            },
        }
    }

    /// Takes another piece of the module.
    pub fn transform_payload(&mut self, payload: Payload<'a>) -> (r: Result<(), Stop>)
        ensures
            (final(self)@, r) == old(self)@.with_payload(payload),
    {
        match payload {
            // These two are generated anew when the module is written.
            Payload::Header => Ok(()),
            Payload::Finish => Ok(()),
            Payload::Types(range) => match slice_at(self.wasm, &range) {
                Some(data) => self.transform_type_section(read_types(data, range.start)),
                None => Err(Stop::OutOfRange),
            },
            Payload::Imports(range) => match slice_at(self.wasm, &range) {
                Some(data) => {
                    self.maybe_add_imports()?;
                    self.transform_imports_section(read_imports(data, range.start))
                },
                None => Err(Stop::OutOfRange),
            },
            Payload::Start(func) => {
                self.transform_start_section(func)?;
                self.schedule_section(START_SECTION);
                Ok(())
            },
            Payload::Elements(range) => match slice_at(self.wasm, &range) {
                Some(data) => {
                    self.transform_elem_section(read_elements(data, range.start))?;
                    self.schedule_section(ELEMENT_SECTION);
                    Ok(())
                },
                None => Err(Stop::OutOfRange),
            },
            Payload::Functions(range) => match slice_at(self.wasm, &range) {
                Some(data) => {
                    self.transform_function_section(read_indices(data, range.start))?;
                    self.schedule_section(FUNCTION_SECTION);
                    Ok(())
                },
                None => Err(Stop::OutOfRange),
            },
            Payload::CodeStart => {
                self.schedule_section(CODE_SECTION);
                Ok(())
            },
            Payload::Code(range) => self.transform_next_body(range),
            Payload::Exports(range) => match slice_at(self.wasm, &range) {
                Some(data) => {
                    self.transform_export_section(read_exports(data, range.start))?;
                    self.schedule_section(EXPORT_SECTION);
                    Ok(())
                },
                None => Err(Stop::OutOfRange),
            },
            Payload::Globals(range) => match slice_at(self.wasm, &range) {
                Some(data) => {
                    self.transform_global_section(read_globals(data, range.start))?;
                    self.schedule_section(GLOBAL_SECTION);
                    Ok(())
                },
                None => Err(Stop::OutOfRange),
            },
            Payload::Custom(name, data_offset, range) => if is_name_section(name) {
                match slice_at(self.wasm, &(data_offset..range.end)) {
                    Some(data) => {
                        self.transform_name_section(read_names(data, data_offset))?;
                        self.schedule_section(PLACEHOLDER_FOR_NAMES);
                        Ok(())
                    },
                    None => Err(Stop::OutOfRange),
                }
            } else {
                self.copy_section(CUSTOM_SECTION, range)
            },
            // All the other sections are transparently copied over (they cannot reference a
            // function index, or we don't know how to handle it anyhow).
            Payload::Other(Some((id, range))) => self.copy_section(id, range),
            Payload::Other(None) => Err(Stop::OutOfRange),
        }
    }

    /// Takes the pieces of the module, up to the first that cannot be instrumented.
    pub fn transform_payloads(
        &mut self,
        payloads: Vec<Result<Payload<'a>, BinaryReaderError>>,
    ) -> (r: Result<(), Stop>)
        ensures
            (final(self)@, r) == old(self)@.with_payloads(payloads@),
    {
        assert(payloads@.take(0) =~= Seq::empty());
        for payload in it: payloads
            invariant
                it.seq() == payloads@,
                old(self)@.with_payloads(payloads@.take(it.index() as int)) == (
                    self@,
                    Ok::<(), Stop>(()),
                ),
        {
            proof {
                let count = it.index() as int;
                assert(payloads@.take(count + 1).drop_last() =~= payloads@.take(count));
                if old(self)@.with_payloads(payloads@.take(count + 1)).1 is Err {
                    old(self)@.lemma_payloads_stop(payloads@, count + 1);
                }
            }
            match payload {
                Ok(payload) => self.transform_payload(payload)?,
                Err(error) => return Err(Stop::Failed(Error::ParseModuleSection(error))),
            }
        }
        assert(payloads@.take(payloads@.len() as int) =~= payloads@);
        Ok(())
    }

    /// Writes what an entry of the list of sections stands for.
    fn write_section(&self, module: &mut Module, raw: &RawSection<'a>) -> (r: Result<(), Stop>)
        ensures
            section_written(
                *old(module),
                self@.section(raw@),
                *final(module),
                r,
            ),
    {
        match raw.id {
            CODE_SECTION => write_code(module, &self.code_section),
            ELEMENT_SECTION => write_elements(module, &self.element_section),
            EXPORT_SECTION => write_exports(module, &self.export_section),
            GLOBAL_SECTION => write_globals(module, &self.global_section),
            START_SECTION => write_start(module, self.start_section),
            FUNCTION_SECTION => write_functions(module, &self.function_section),
            PLACEHOLDER_FOR_NAMES => write_names(module, &self.name_section),
            _ => write_raw(module, raw),
        }
    }

    /// Writes the instrumented module.
    pub fn finish(&self) -> (r: Result<Vec<u8>, Stop>)
        ensures
            result_view(r) == written(self@.sections()),
    {
        // The type and import sections always come first in a module. They may potentially be
        // preceded or interspersed by custom sections in the module as it was given.
        let mut output = Module::new();
        let ghost sections = self@.sections();
        assert(sections[0] == SectionView::Types(self@.type_section));
        assert(sections[1] == SectionView::Imports(self@.import_section));
        write_types(&mut output, &self.type_section)?;
        write_imports(&mut output, &self.import_section)?;
        assert(Seq::empty().push(sections[0]).push(sections[1]) =~= sections.take(2));
        for i in 0..self.raw_sections.len()
            invariant
                sections == self@.sections(),
                module_holds(output, sections.take(2 + i)),
                forall|j: int| 0 <= j < 2 + i ==> (#[trigger] sections[j]).fits(),
        {
            assert(sections[2 + i] == self@.section(self.raw_sections@[i as int]@));
            assert(sections.take(3 + i) =~= sections.take(2 + i).push(sections[2 + i]));
            self.write_section(&mut output, &self.raw_sections[i])?;
        }
        assert(sections.take(sections.len() as int) =~= sections);
        Ok(output.finish())
    }

    /// Instruments the module.
    pub fn run(self) -> (r: Result<Vec<u8>, Stop>)
        ensures
            result_view(r) == self@.outcome(),
    {
        let mut context = self;
        if !check_room(context.wasm) {
            return Err(Stop::OutOfRange);
        }
        context.transform_payloads(read_payloads(context.wasm))?;
        context.finish()
    }
}

} // verus!
