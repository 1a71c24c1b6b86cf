use finite_wasm::analysis::{AnalysisOutcome, InstrumentationKind};
use finite_wasm::error::{Error, Stop};
use finite_wasm::instrument::InstrumentContext;
use finite_wasm::model::{ElementEntry, EntryItems, EntryMode, Import, NameEntry, ValueType};
use finite_wasm::read::{check_room, find_large_number};
use wasm_encoder::{
    BlockType, CodeSection, ConstExpr, CustomSection, DataSection, ElementMode, ElementSection,
    ElementSegment, Elements, EntityType, ExportKind, ExportSection, Function, FunctionSection,
    GlobalSection, GlobalType, ImportSection, IndirectNameMap, Instruction, MemorySection,
    MemoryType, Module, NameMap, NameSection, RawSection, StartSection, TableSection, TableType,
    TagKind, TagType, TypeSection, ValType,
};

const HEADER: [u8; 8] = [0x00, 0x61, 0x73, 0x6d, 0x01, 0x00, 0x00, 0x00];

/// What is known of one function: stack size, frame size, and points of offset, cost and kind.
type Known = (u64, u64, Vec<(usize, u64, InstrumentationKind)>);

fn outcome(functions: Vec<Known>) -> AnalysisOutcome {
    let mut outcome = AnalysisOutcome {
        function_operand_stack_sizes: vec![],
        function_frame_sizes: vec![],
        gas_offsets: vec![],
        gas_costs: vec![],
        gas_kinds: vec![],
    };
    for (stack, frame, points) in functions {
        outcome.function_operand_stack_sizes.push(stack);
        outcome.function_frame_sizes.push(frame);
        outcome.gas_offsets.push(points.iter().map(|p| p.0).collect());
        outcome.gas_costs.push(points.iter().map(|p| p.1).collect());
        outcome.gas_kinds.push(points.iter().map(|p| p.2).collect());
    }
    outcome
}

fn run(wasm: &[u8], functions: Vec<Known>) -> Result<Vec<u8>, Stop> {
    InstrumentContext::new(wasm, "env", &outcome(functions)).run()
}

/// The position of the first operator of each function body that has no locals.
fn first_operators(wasm: &[u8]) -> Vec<usize> {
    let mut offsets = vec![];
    for payload in wasmparser::Parser::new(0).parse_all(wasm) {
        if let Ok(wasmparser::Payload::CodeSectionEntry(body)) = payload {
            offsets.push(body.get_operators_reader().unwrap().original_position());
        }
    }
    offsets
}

/// The types of the host behind `types`.
fn add_host_types(types: &mut TypeSection) {
    types.function([ValType::I64], []);
    types.function([ValType::I64, ValType::I64], []);
}

/// The imports of the host, the first of them of the type `ty`.
fn host_imports(ty: u32) -> ImportSection {
    let mut imports = ImportSection::new();
    imports.import("env", "finite_wasm_gas", EntityType::Function(ty));
    imports.import("env", "finite_wasm_stack", EntityType::Function(ty + 1));
    imports
}

fn body(instructions: &[Instruction]) -> Function {
    let mut function = Function::new([]);
    for instruction in instructions {
        function.instruction(instruction);
    }
    function
}

/// A module with one type, one function of it and its body.
fn one_function(params: &[ValType], results: &[ValType], function: &Function) -> Vec<u8> {
    let mut module = Module::new();
    let mut types = TypeSection::new();
    types.function(params.iter().copied(), results.iter().copied());
    let mut functions = FunctionSection::new();
    functions.function(0);
    let mut code = CodeSection::new();
    code.function(function);
    module.section(&types).section(&functions).section(&code);
    module.finish()
}

/// What a module with one function becomes, if its body becomes `function` and the types `added`
/// are needed for that.
fn one_instrumented(
    params: &[ValType],
    results: &[ValType],
    added: &[ValType],
    function: &Function,
) -> Vec<u8> {
    let mut module = Module::new();
    let mut types = TypeSection::new();
    types.function(params.iter().copied(), results.iter().copied());
    add_host_types(&mut types);
    if !added.is_empty() {
        types.function([], added.iter().copied());
    }
    let mut functions = FunctionSection::new();
    functions.function(0);
    let mut code = CodeSection::new();
    code.function(function);
    module.section(&types).section(&host_imports(1)).section(&functions).section(&code);
    module.finish()
}

#[test]
fn an_empty_module_gets_empty_types_and_imports() {
    let mut expected = HEADER.to_vec();
    expected.extend([1, 1, 0, 2, 1, 0]);
    assert_eq!(run(&HEADER, vec![]).unwrap(), expected);
}

#[test]
fn a_function_is_metered_byte_by_byte() {
    let mut wasm = HEADER.to_vec();
    wasm.extend([0x01, 0x04, 0x01, 0x60, 0x00, 0x00]);
    wasm.extend([0x03, 0x02, 0x01, 0x00]);
    wasm.extend([0x0a, 0x05, 0x01, 0x03, 0x00, 0x01, 0x0b]);
    let mut expected = HEADER.to_vec();
    expected.extend([0x01, 0x0d, 0x03]);
    expected.extend([0x60, 0x00, 0x00]);
    expected.extend([0x60, 0x01, 0x7e, 0x00]);
    expected.extend([0x60, 0x02, 0x7e, 0x7e, 0x00]);
    expected.extend([0x02, 0x2f, 0x02]);
    expected.extend(b"\x03env\x0ffinite_wasm_gas\x00\x01");
    expected.extend(b"\x03env\x11finite_wasm_stack\x00\x02");
    expected.extend([0x03, 0x02, 0x01, 0x00]);
    expected.extend([0x0a, 0x19, 0x01, 0x17, 0x00]);
    // Block, and what the function takes of the stack.
    expected.extend([0x02, 0x40, 0x42, 0x05, 0x42, 0x07, 0x10, 0x01]);
    // Gas.
    expected.extend([0x42, 0x03, 0x10, 0x00]);
    // The function itself.
    expected.extend([0x01]);
    // The end of the block, what is given back, and the end of the function.
    expected.extend([0x0b, 0x42, 0x7b, 0x42, 0x79, 0x01, 0x10, 0x01, 0x0b]);
    let known = vec![(5, 7, vec![(23, 3, InstrumentationKind::Pure)])];
    assert_eq!(run(&wasm, known).unwrap(), expected);
}

#[test]
fn a_function_without_stack_is_not_wrapped() {
    let wasm = one_function(&[], &[], &body(&[Instruction::Nop, Instruction::End]));
    let first = first_operators(&wasm)[0];
    let expected = body(&[
        Instruction::I64Const(9),
        Instruction::Call(0),
        Instruction::Nop,
        Instruction::I64Const(2),
        Instruction::Call(0),
        Instruction::End,
    ]);
    let points = vec![
        (first, 9, InstrumentationKind::Pure),
        (first + 1, 2, InstrumentationKind::PreControlFlow),
    ];
    assert_eq!(
        run(&wasm, vec![(0, 0, points)]).unwrap(),
        one_instrumented(&[], &[], &[], &expected),
    );
}

#[test]
fn unreachable_points_and_points_without_cost_are_not_charged() {
    let wasm = one_function(
        &[],
        &[],
        &body(&[Instruction::Nop, Instruction::Nop, Instruction::Nop, Instruction::End]),
    );
    let first = first_operators(&wasm)[0];
    let points = vec![
        (first, 9, InstrumentationKind::Unreachable),
        (first + 1, 0, InstrumentationKind::Pure),
        (first + 2, u64::MAX, InstrumentationKind::Pure),
    ];
    let expected = body(&[
        Instruction::Nop,
        Instruction::Nop,
        Instruction::I64Const(-1),
        Instruction::Call(0),
        Instruction::Nop,
        Instruction::End,
    ]);
    assert_eq!(
        run(&wasm, vec![(0, 0, points)]).unwrap(),
        one_instrumented(&[], &[], &[], &expected),
    );
}

#[test]
fn a_point_between_operators_holds_up_those_behind_it() {
    let wasm = one_function(
        &[],
        &[],
        &body(&[Instruction::I32Const(1), Instruction::Drop, Instruction::End]),
    );
    let first = first_operators(&wasm)[0];
    let points = vec![
        (first + 1, 4, InstrumentationKind::Pure),
        (first + 2, 5, InstrumentationKind::Pure),
    ];
    let expected = body(&[Instruction::I32Const(1), Instruction::Drop, Instruction::End]);
    assert_eq!(
        run(&wasm, vec![(0, 0, points)]).unwrap(),
        one_instrumented(&[], &[], &[], &expected),
    );
}

#[test]
fn the_block_gives_the_only_result() {
    let code = [Instruction::LocalGet(0), Instruction::Return, Instruction::End];
    let wasm = one_function(&[ValType::F32], &[ValType::F32], &body(&code));
    let expected = body(&[
        Instruction::Block(BlockType::Result(ValType::F32)),
        Instruction::I64Const(1),
        Instruction::I64Const(0),
        Instruction::Call(1),
        Instruction::LocalGet(0),
        Instruction::I64Const(-1),
        Instruction::I64Const(0),
        Instruction::Nop,
        Instruction::Call(1),
        Instruction::Return,
        Instruction::End,
        Instruction::I64Const(-1),
        Instruction::I64Const(0),
        Instruction::Nop,
        Instruction::Call(1),
        Instruction::End,
    ]);
    assert_eq!(
        run(&wasm, vec![(1, 0, vec![])]).unwrap(),
        one_instrumented(&[ValType::F32], &[ValType::F32], &[], &expected),
    );
}

fn wrapped(block: BlockType, code: &[Instruction]) -> Function {
    let mut function = body(&[
        Instruction::Block(block),
        Instruction::I64Const(0),
        Instruction::I64Const(64),
        Instruction::Call(1),
    ]);
    for instruction in code {
        function.instruction(instruction);
    }
    for instruction in [
        Instruction::End,
        Instruction::I64Const(0),
        Instruction::I64Const(-64),
        Instruction::Nop,
        Instruction::Call(1),
        Instruction::End,
    ] {
        function.instruction(&instruction);
    }
    function
}

#[test]
fn the_block_is_of_the_type_of_a_function_without_parameters() {
    let results = [ValType::I32, ValType::V128];
    let wasm = one_function(&[], &results, &body(&[Instruction::Unreachable, Instruction::End]));
    let expected = wrapped(BlockType::FunctionType(0), &[Instruction::Unreachable]);
    assert_eq!(
        run(&wasm, vec![(0, 64, vec![])]).unwrap(),
        one_instrumented(&[], &results, &[], &expected),
    );
}

#[test]
fn a_type_is_added_for_the_block_of_a_function_with_parameters() {
    let params = [ValType::F64];
    let results = [ValType::FuncRef, ValType::ExternRef];
    let code = body(&[Instruction::Unreachable, Instruction::End]);
    let wasm = one_function(&params, &results, &code);
    let expected = wrapped(BlockType::FunctionType(3), &[Instruction::Unreachable]);
    assert_eq!(
        run(&wasm, vec![(0, 64, vec![])]).unwrap(),
        one_instrumented(&params, &results, &results, &expected),
    );
}

#[test]
fn a_type_is_added_even_where_there_is_no_block() {
    let code = body(&[Instruction::Nop, Instruction::End]);
    let wasm = one_function(&[ValType::I32], &[], &code);
    let mut module = Module::new();
    let mut types = TypeSection::new();
    types.function([ValType::I32], []);
    add_host_types(&mut types);
    types.function([], []);
    let mut functions = FunctionSection::new();
    functions.function(0);
    let mut section = CodeSection::new();
    section.function(&code);
    module.section(&types).section(&host_imports(1)).section(&functions).section(&section);
    assert_eq!(run(&wasm, vec![(0, 0, vec![])]).unwrap(), module.finish());
}

#[test]
fn calls_follow_the_functions_that_they_call() {
    let code = [
        Instruction::Call(0),
        Instruction::RefFunc(7),
        Instruction::Drop,
        Instruction::CallIndirect { ty: 0, table: 0 },
        Instruction::Block(BlockType::Empty),
        Instruction::ReturnCallIndirect { ty: 0, table: 0 },
        Instruction::End,
        Instruction::ReturnCall(128),
        Instruction::End,
    ];
    let wasm = one_function(&[], &[], &body(&code));
    let exit = [
        Instruction::I64Const(-3),
        Instruction::I64Const(-4),
        Instruction::Nop,
        Instruction::Call(1),
    ];
    let mut expected = body(&[
        Instruction::Block(BlockType::Empty),
        Instruction::I64Const(3),
        Instruction::I64Const(4),
        Instruction::Call(1),
        Instruction::Call(2),
        Instruction::RefFunc(9),
        Instruction::Drop,
        Instruction::CallIndirect { ty: 0, table: 0 },
        Instruction::Block(BlockType::Empty),
    ]);
    for instruction in &exit {
        expected.instruction(instruction);
    }
    expected.instruction(&Instruction::ReturnCallIndirect { ty: 0, table: 0 });
    expected.instruction(&Instruction::End);
    for instruction in &exit {
        expected.instruction(instruction);
    }
    expected.instruction(&Instruction::ReturnCall(130));
    expected.instruction(&Instruction::End);
    for instruction in &exit {
        expected.instruction(instruction);
    }
    expected.instruction(&Instruction::End);
    assert_eq!(
        run(&wasm, vec![(3, 4, vec![])]).unwrap(),
        one_instrumented(&[], &[], &[], &expected),
    );
}

#[test]
fn locals_of_every_type_are_kept() {
    let locals = [
        (1, ValType::I32),
        (2, ValType::I64),
        (3, ValType::F32),
        (300, ValType::F64),
        (5, ValType::V128),
        (6, ValType::FuncRef),
        (7, ValType::ExternRef),
    ];
    let mut function = Function::new(locals);
    function.instruction(&Instruction::End);
    let wasm = one_function(&[], &[], &function);
    assert_eq!(
        run(&wasm, vec![(0, 0, vec![])]).unwrap(),
        one_instrumented(&[], &[], &[], &function),
    );
}

#[test]
fn the_imports_of_the_module_follow_those_of_the_host() {
    let given = |imports: &mut ImportSection| {
        imports.import("a", "function", EntityType::Function(0));
        imports.import("b", "table", EntityType::Table(TableType {
            element_type: ValType::ExternRef,
            minimum: 200,
            maximum: Some(300),
        }));
        imports.import("c", "other table", EntityType::Table(TableType {
            element_type: ValType::FuncRef,
            minimum: 1,
            maximum: None,
        }));
        imports.import("d", "memory", EntityType::Memory(MemoryType {
            minimum: 1,
            maximum: Some(65536),
            memory64: false,
            shared: true,
        }));
        imports.import("e", "other memory", EntityType::Memory(MemoryType {
            minimum: 1 << 40,
            maximum: None,
            memory64: true,
            shared: false,
        }));
        imports.import("f", "global", EntityType::Global(GlobalType {
            val_type: ValType::F64,
            mutable: true,
        }));
        imports.import("g", "tag", EntityType::Tag(TagType {
            kind: TagKind::Exception,
            func_type_idx: 0,
        }));
        imports.import("h", "", EntityType::Function(0));
    };
    let mut types = TypeSection::new();
    types.function([], []);
    let mut imports = ImportSection::new();
    given(&mut imports);
    let mut wasm = Module::new();
    wasm.section(&types).section(&imports);
    let mut expected = Module::new();
    add_host_types(&mut types);
    let mut imports = host_imports(1);
    given(&mut imports);
    expected.section(&types).section(&imports);
    assert_eq!(run(&wasm.finish(), vec![]).unwrap(), expected.finish());
}

#[test]
fn exports_and_the_start_function_follow_their_functions() {
    let exports = |moved: u32| {
        let mut exports = ExportSection::new();
        exports.export("function", ExportKind::Func, 126 + moved);
        exports.export("table", ExportKind::Table, 1);
        exports.export("memory", ExportKind::Memory, 2);
        exports.export("global", ExportKind::Global, 3);
        exports.export("tag", ExportKind::Tag, 4);
        exports
    };
    let mut wasm = Module::new();
    wasm.section(&exports(0)).section(&StartSection { function_index: 127 });
    let mut expected = Module::new();
    expected.section(&TypeSection::new()).section(&ImportSection::new());
    expected.section(&exports(2)).section(&StartSection { function_index: 129 });
    assert_eq!(run(&wasm.finish(), vec![]).unwrap(), expected.finish());
}

#[test]
fn globals_follow_the_functions_that_they_refer_to() {
    let globals = |moved: u32| {
        let mut globals = GlobalSection::new();
        let counter = GlobalType { val_type: ValType::I32, mutable: true };
        let reference = GlobalType { val_type: ValType::FuncRef, mutable: false };
        globals.global(counter, &ConstExpr::i32_const(-100));
        globals.global(reference, &ConstExpr::ref_func(4 + moved));
        globals.global(reference, &ConstExpr::global_get(4));
        globals
    };
    let mut wasm = Module::new();
    wasm.section(&globals(0));
    let mut expected = Module::new();
    expected.section(&TypeSection::new()).section(&ImportSection::new()).section(&globals(2));
    assert_eq!(run(&wasm.finish(), vec![]).unwrap(), expected.finish());
}

#[test]
fn elements_follow_the_functions_that_they_refer_to() {
    let elements = |moved: u32| {
        let functions = [0 + moved, 126 + moved];
        let expressions = [
            ConstExpr::ref_func(5 + moved),
            ConstExpr::ref_null(ValType::FuncRef),
            ConstExpr::global_get(5),
        ];
        let offset = ConstExpr::i32_const(77);
        let far = ConstExpr::ref_func(6 + moved);
        let mut elements = ElementSection::new();
        elements.segment(ElementSegment {
            mode: ElementMode::Passive,
            element_type: ValType::FuncRef,
            elements: Elements::Functions(&functions),
        });
        elements.segment(ElementSegment {
            mode: ElementMode::Declared,
            element_type: ValType::FuncRef,
            elements: Elements::Expressions(&expressions),
        });
        elements.segment(ElementSegment {
            mode: ElementMode::Active { table: Some(3), offset: &offset },
            element_type: ValType::FuncRef,
            elements: Elements::Functions(&functions),
        });
        elements.segment(ElementSegment {
            mode: ElementMode::Active { table: Some(4), offset: &far },
            element_type: ValType::ExternRef,
            elements: Elements::Expressions(&expressions),
        });
        elements
    };
    let mut wasm = Module::new();
    wasm.section(&elements(0));
    let mut expected = Module::new();
    expected.section(&TypeSection::new()).section(&ImportSection::new()).section(&elements(2));
    assert_eq!(run(&wasm.finish(), vec![]).unwrap(), expected.finish());
}

#[test]
fn names_follow_the_functions_that_they_name() {
    let map = |moved: u32| {
        let mut map = NameMap::new();
        map.append(moved, "first");
        map.append(200 + moved, "second");
        map
    };
    let indirect = |moved: u32| {
        let mut names = IndirectNameMap::new();
        names.append(moved, &map(0));
        names.append(9 + moved, &NameMap::new());
        names
    };
    let names = |moved: u32| {
        let mut functions = map(moved);
        if moved > 0 {
            functions.append(0, "finite_wasm_gas");
            functions.append(1, "finite_wasm_stack");
        }
        let mut names = NameSection::new();
        names.module("the module");
        names.functions(&functions);
        names.locals(&indirect(moved));
        names.labels(&indirect(moved));
        names.types(&map(0));
        names.tables(&map(0));
        names.memories(&map(0));
        names.globals(&map(0));
        names.elements(&map(0));
        names.data(&map(0));
        names
    };
    let mut wasm = Module::new();
    wasm.section(&names(0));
    let mut expected = Module::new();
    expected.section(&TypeSection::new()).section(&ImportSection::new()).section(&names(2));
    assert_eq!(run(&wasm.finish(), vec![]).unwrap(), expected.finish());
}

#[test]
fn names_that_are_not_understood_are_left_out() {
    let mut wasm = Module::new();
    wasm.section(&CustomSection { name: "name", data: &[0, 2, 1, b'm', 100, 2, 1, 2] });
    let mut names = NameSection::new();
    names.module("m");
    let mut expected = Module::new();
    expected.section(&TypeSection::new()).section(&ImportSection::new()).section(&names);
    assert_eq!(run(&wasm.finish(), vec![]).unwrap(), expected.finish());
}

#[test]
fn other_sections_are_copied_in_their_order() {
    let early = CustomSection { name: "early", data: &[1, 2, 3] };
    let late = CustomSection { name: "names", data: &[] };
    let mut tables = TableSection::new();
    tables.table(TableType { element_type: ValType::FuncRef, minimum: 1, maximum: None });
    let mut memories = MemorySection::new();
    memories.memory(MemoryType { minimum: 1, maximum: None, memory64: false, shared: false });
    let mut data = DataSection::new();
    data.passive(*b"some bytes");
    let mut types = TypeSection::new();
    types.function([], []);
    let mut wasm = Module::new();
    wasm.section(&early).section(&types).section(&tables).section(&memories);
    wasm.section(&data).section(&late).section(&RawSection { id: 99, data: &[9, 9] });
    let mut expected = Module::new();
    expected.section(&types).section(&ImportSection::new());
    expected.section(&early).section(&tables).section(&memories);
    expected.section(&data).section(&late).section(&RawSection { id: 99, data: &[9, 9] });
    assert_eq!(run(&wasm.finish(), vec![]).unwrap(), expected.finish());
}

#[test]
fn functions_are_metered_each_by_its_own_entry() {
    let code = body(&[Instruction::Nop, Instruction::End]);
    let mut types = TypeSection::new();
    types.function([], []);
    types.function([], [ValType::I64]);
    let mut functions = FunctionSection::new();
    functions.function(0).function(1);
    let value = body(&[Instruction::I64Const(0), Instruction::End]);
    let mut section = CodeSection::new();
    section.function(&code).function(&value);
    let mut wasm = Module::new();
    wasm.section(&types).section(&functions).section(&section);
    let wasm = wasm.finish();
    let first = first_operators(&wasm);
    let known = vec![
        (0, 0, vec![(first[0], 1, InstrumentationKind::PostControlFlow)]),
        (2, 2, vec![(first[1], 300, InstrumentationKind::BetweenControlFlow)]),
    ];
    let mut section = CodeSection::new();
    section.function(&body(&[
        Instruction::I64Const(1),
        Instruction::Call(0),
        Instruction::Nop,
        Instruction::End,
    ]));
    section.function(&body(&[
        Instruction::Block(BlockType::Result(ValType::I64)),
        Instruction::I64Const(2),
        Instruction::I64Const(2),
        Instruction::Call(1),
        Instruction::I64Const(300),
        Instruction::Call(0),
        Instruction::I64Const(0),
        Instruction::End,
        Instruction::I64Const(-2),
        Instruction::I64Const(-2),
        Instruction::Nop,
        Instruction::Call(1),
        Instruction::End,
    ]));
    add_host_types(&mut types);
    let mut expected = Module::new();
    expected.section(&types).section(&host_imports(2)).section(&functions).section(&section);
    assert_eq!(run(&wasm, known).unwrap(), expected.finish());
}

#[test]
fn the_environment_is_where_the_host_is_imported_from() {
    let wasm = one_function(&[], &[], &body(&[Instruction::End]));
    let known = outcome(vec![(0, 0, vec![])]);
    let output = InstrumentContext::new(&wasm, "somewhere else", &known).run().unwrap();
    let mut imports = vec![];
    for payload in wasmparser::Parser::new(0).parse_all(&output) {
        if let wasmparser::Payload::ImportSection(section) = payload.unwrap() {
            for import in section {
                let import = import.unwrap();
                imports.push((import.module.to_string(), import.name.to_string()));
            }
        }
    }
    assert_eq!(imports, vec![
        ("somewhere else".to_string(), "finite_wasm_gas".to_string()),
        ("somewhere else".to_string(), "finite_wasm_stack".to_string()),
    ]);
}

#[test]
fn instrumented_modules_are_valid() {
    let results = [ValType::I32, ValType::I32];
    let code = [
        Instruction::LocalGet(0),
        Instruction::I32Const(5),
        Instruction::Block(BlockType::Empty),
        Instruction::End,
        Instruction::Return,
        Instruction::End,
    ];
    let wasm = one_function(&[ValType::I32], &results, &body(&code));
    let first = first_operators(&wasm)[0];
    let known = vec![(16, 8, vec![(first, 5, InstrumentationKind::PreControlFlow)])];
    assert!(wasmparser::validate(&wasm).is_ok());
    assert!(wasmparser::validate(&run(&wasm, known).unwrap()).is_ok());
}

#[test]
fn an_index_without_room_for_the_host_is_out_of_range() {
    let mut exports = ExportSection::new();
    exports.export("last", ExportKind::Func, u32::MAX - 2);
    let mut wasm = Module::new();
    wasm.section(&exports);
    assert!(run(&wasm.finish(), vec![]).is_ok());
    let mut exports = ExportSection::new();
    exports.export("too far", ExportKind::Func, u32::MAX - 1);
    let mut wasm = Module::new();
    wasm.section(&exports);
    assert!(matches!(run(&wasm.finish(), vec![]), Err(Stop::OutOfRange)));
    let mut wasm = Module::new();
    wasm.section(&StartSection { function_index: u32::MAX });
    assert!(matches!(run(&wasm.finish(), vec![]), Err(Stop::OutOfRange)));
}

#[test]
fn the_first_failure_decides() {
    let mut wasm = HEADER.to_vec();
    // A global section whose only entry is cut short, and then an export section of that kind.
    wasm.extend([0x06, 0x02, 0x01, 0x7f]);
    wasm.extend([0x07, 0x02, 0x01, 0x7f]);
    assert!(matches!(run(&wasm, vec![]), Err(Stop::Failed(Error::ParseGlobal(_)))));
}

#[test]
fn what_is_written_stays_when_more_follows() {
    let mut exports = ExportSection::new();
    exports.export("function", ExportKind::Func, 0);
    let mut wasm = Module::new();
    wasm.section(&exports).section(&CustomSection { name: "a", data: &[1] });
    let mut longer = wasm.clone();
    longer.section(&CustomSection { name: "b", data: &[2] });
    let first = run(&wasm.finish(), vec![]).unwrap();
    let second = run(&longer.finish(), vec![]).unwrap();
    assert!(second.starts_with(&first));
    assert!(second.len() > first.len());
}

#[test]
fn types_keep_their_indices() {
    let mut types = TypeSection::new();
    types.function([ValType::I32, ValType::I64], []);
    types.function([ValType::F32], [ValType::F64, ValType::F64]);
    types.function([], [ValType::I32]);
    let mut functions = FunctionSection::new();
    functions.function(1).function(0);
    let code = body(&[Instruction::Unreachable, Instruction::End]);
    let mut section = CodeSection::new();
    section.function(&code).function(&code);
    let mut wasm = Module::new();
    wasm.section(&types).section(&functions).section(&section);
    add_host_types(&mut types);
    types.function([], [ValType::F64, ValType::F64]);
    types.function([], []);
    let mut section = CodeSection::new();
    section.function(&wrapped(BlockType::FunctionType(5), &[Instruction::Unreachable]));
    section.function(&wrapped(BlockType::FunctionType(6), &[Instruction::Unreachable]));
    let mut expected = Module::new();
    expected.section(&types).section(&host_imports(3)).section(&functions).section(&section);
    assert_eq!(
        run(&wasm.finish(), vec![(0, 64, vec![]), (0, 64, vec![])]).unwrap(),
        expected.finish(),
    );
}

#[test]
fn a_section_that_reaches_beyond_the_module_is_out_of_range() {
    // A component that announces a module, which is cut short.
    let wasm = [0x00, 0x61, 0x73, 0x6d, 0x0c, 0x00, 0x01, 0x00, 0x01, 0x40];
    assert!(matches!(run(&wasm, vec![]), Err(Stop::OutOfRange)));
}

#[test]
fn the_parts_of_a_section_are_taken_without_the_section_being_written() {
    let known = outcome(vec![]);
    let wasm = [1, 4, 0];
    let mut context = InstrumentContext::new(&wasm, "env", &known);
    let element = ElementEntry {
        mode: EntryMode::Passive,
        ty: ValueType::FuncRef,
        items: EntryItems::Functions(0..2),
    };
    assert!(context.transform_elem_section(vec![Ok(element)]).is_ok());
    assert!(context.transform_name_section(vec![Ok(NameEntry::ModuleName("m"))]).is_ok());
    let mut expected = HEADER.to_vec();
    expected.extend([1, 1, 0, 2, 1, 0]);
    assert_eq!(context.finish().unwrap(), expected);
    context.schedule_section(9);
    expected.extend([9, 5, 1, 1, 0, 1, 6]);
    assert_eq!(context.finish().unwrap(), expected);
}

#[test]
fn imports_are_taken_without_those_of_the_host() {
    let known = outcome(vec![]);
    let mut context = InstrumentContext::new(&[], "env", &known);
    let import = Import { module: "m", name: "n", ty: finite_wasm::model::EntityType::Function(7) };
    let broken = wasmparser::Parser::new(0).parse_all(&[0]).next().unwrap().unwrap_err();
    let r = context.transform_imports_section(vec![Ok(import), Err(broken), Ok(import)]);
    assert!(matches!(r, Err(Stop::Failed(Error::ParseImport(_)))));
    let mut expected = HEADER.to_vec();
    expected.extend([1, 1, 0]);
    expected.extend([2, 7, 1, 1, b'm', 1, b'n', 0, 7]);
    assert_eq!(context.finish().unwrap(), expected);
}

#[test]
fn surplus_analysis_is_ignored() {
    let wasm = one_function(&[], &[], &body(&[Instruction::Nop, Instruction::End]));
    let first = first_operators(&wasm)[0];
    let known = || (5, 7, vec![(first, 3, InstrumentationKind::Pure)]);
    let surplus = || (u64::MAX, u64::MAX, vec![(first, 9, InstrumentationKind::Pure)]);
    let expected = run(&wasm, vec![known()]).unwrap();
    assert_eq!(run(&wasm, vec![known(), surplus()]).unwrap(), expected);
    let mut uneven = outcome(vec![known()]);
    uneven.gas_costs.push(vec![1, 2, 3]);
    assert_eq!(InstrumentContext::new(&wasm, "env", &uneven).run().unwrap(), expected);
}

#[test]
fn bodies_without_functions_are_refused() {
    let code = body(&[Instruction::End]);
    let with = |functions: u32, bodies: u32| {
        let mut types = TypeSection::new();
        types.function([], []);
        let mut section = FunctionSection::new();
        for _ in 0..functions {
            section.function(0);
        }
        let mut all = CodeSection::new();
        for _ in 0..bodies {
            all.function(&code);
        }
        let mut wasm = Module::new();
        wasm.section(&types).section(&section).section(&all);
        run(&wasm.finish(), vec![(0, 0, vec![]); 4])
    };
    assert!(with(2, 2).is_ok());
    assert!(with(3, 2).is_ok());
    assert!(matches!(with(2, 3), Err(Stop::Failed(Error::InsufficientFunctionTypes))));
}

#[test]
fn large_numbers_are_found_wherever_they_are() {
    assert!(find_large_number(&[0xff, 0xff, 0xff, 0xff, 0x0f]));
    assert!(find_large_number(&[0, 0x80, 0x80, 0x80, 0x80, 0x08, 0]));
    assert!(!find_large_number(&[0xff, 0xff, 0xff, 0xff, 0x07]));
    assert!(!find_large_number(&[0xff, 0xff, 0xff, 0xff, 0x10]));
    assert!(!find_large_number(&[0xff, 0xff, 0x7f, 0xff, 0x0f]));
    assert!(!find_large_number(&[0xff, 0xff, 0xff, 0xff]));
    assert!(!find_large_number(&[]));
    assert!(check_room(&HEADER));
}

#[test]
fn a_length_beyond_the_module_is_no_section() {
    let mut wasm = HEADER.to_vec();
    wasm.extend([0x01, 0xff, 0xff, 0xff, 0xff, 0x0f]);
    match run(&wasm, vec![]) {
        Err(Stop::Failed(Error::ParseModuleSection(_))) => assert!(check_room(&wasm)),
        Err(Stop::OutOfRange) => assert!(!check_room(&wasm)),
        _ => panic!("this section is cut short"),
    }
}
