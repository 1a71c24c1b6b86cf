use finite_wasm::model::{
    BlockType, Body, CodeItem, EntityType, Export, ExportKind, FuncType, Global, GlobalType, Import,
    IndirectKind, IndirectNaming, InitExpr, Instr, MemoryType, NameKind, Naming, Segment,
    SegmentItems, SegmentMode, Subsection, TableType, ValueType,
};
use finite_wasm::size::{
    code_size_of, elements_size_of, exports_size_of, functions_size_of, globals_size_of,
    imports_size_of, names_size_of, signed_size_of, types_size_of, unsigned_size_of,
};

#[test]
fn numbers_take_a_byte_for_seven_bits() {
    for (n, size) in [
        (0, 1),
        (127, 1),
        (128, 2),
        (16383, 2),
        (16384, 3),
        (u32::MAX as u64, 5),
        (u64::MAX, 10),
    ] {
        assert_eq!(unsigned_size_of(n).unwrap(), size);
    }
    for (n, size) in [
        (0, 1),
        (63, 1),
        (64, 2),
        (-64, 1),
        (-65, 2),
        (8191, 2),
        (8192, 3),
        (-8192, 2),
        (-8193, 3),
        (i64::MAX, 10),
        (i64::MIN, 10),
    ] {
        assert_eq!(signed_size_of(n).unwrap(), size);
    }
}

#[test]
fn types_and_functions_have_the_size_that_they_take() {
    let types = vec![
        FuncType { params: vec![], results: vec![] },
        FuncType { params: vec![ValueType::I32; 200], results: vec![ValueType::I64] },
    ];
    // The count, an empty type, and a type with a number of two bytes.
    assert_eq!(types_size_of(&types).unwrap(), 1 + 3 + (1 + 2 + 200 + 1 + 1));
    assert_eq!(functions_size_of(&vec![0, 128, u32::MAX]).unwrap(), 1 + 1 + 2 + 5);
}

#[test]
fn imports_have_the_size_that_they_take() {
    let import = |ty| Import { module: "ab", name: "\u{e4}", ty };
    let size = |ty| imports_size_of(&vec![import(ty)]).unwrap();
    // The count, both names with their lengths, and the kind.
    let names = 1 + 3 + 3 + 1;
    assert_eq!(size(EntityType::Function(128)), names + 2);
    let table = |maximum| TableType { element: ValueType::FuncRef, minimum: 1, maximum };
    assert_eq!(size(EntityType::Table(table(None))), names + 3);
    assert_eq!(size(EntityType::Table(table(Some(128)))), names + 5);
    let memory = |maximum| MemoryType { minimum: 1 << 40, maximum, memory64: true, shared: false };
    assert_eq!(size(EntityType::Memory(memory(None))), names + 1 + 6);
    assert_eq!(size(EntityType::Memory(memory(Some(u64::MAX)))), names + 1 + 6 + 10);
    let global = GlobalType { value: ValueType::I32, mutable: false };
    assert_eq!(size(EntityType::Global(global)), names + 2);
    assert_eq!(size(EntityType::Tag(3)), names + 2);
}

#[test]
fn exports_and_globals_have_the_size_that_they_take() {
    let export = Export { name: "abc", kind: ExportKind::Func, index: 128 };
    assert_eq!(exports_size_of(&vec![export, export]).unwrap(), 1 + 2 * (4 + 1 + 2));
    let ty = GlobalType { value: ValueType::I32, mutable: false };
    let globals = vec![
        Global { ty, init: InitExpr::RefFunc(128) },
        Global { ty, init: InitExpr::Raw(&[1, 2, 3]) },
    ];
    assert_eq!(globals_size_of(&globals).unwrap(), 1 + (2 + 4) + (2 + 4));
}

#[test]
fn elements_have_the_size_that_they_take() {
    let segments = vec![
        Segment {
            mode: SegmentMode::Passive,
            ty: ValueType::FuncRef,
            items: SegmentItems::Functions(vec![1, 128]),
        },
        Segment {
            mode: SegmentMode::Active(128, InitExpr::Raw(&[0x41, 0])),
            ty: ValueType::FuncRef,
            items: SegmentItems::Expressions(vec![InitExpr::RefFunc(0)]),
        },
        Segment {
            mode: SegmentMode::Declared,
            ty: ValueType::FuncRef,
            items: SegmentItems::Functions(vec![]),
        },
    ];
    let sizes = [1 + 1 + 1 + 3, 1 + (2 + 3 + 1) + 1 + 3, 1 + 1 + 1];
    assert_eq!(elements_size_of(&segments).unwrap(), 1 + sizes[0] + sizes[1] + sizes[2]);
}

#[test]
fn code_has_the_size_that_it_takes() {
    let code = [
        (Instr::Nop, 1),
        (Instr::Block(BlockType::Empty), 2),
        (Instr::Block(BlockType::Result(ValueType::F32)), 2),
        (Instr::Block(BlockType::FunctionType(63)), 2),
        (Instr::Block(BlockType::FunctionType(64)), 3),
        (Instr::End, 1),
        (Instr::Return, 1),
        (Instr::Call(127), 2),
        (Instr::ReturnCall(128), 3),
        (Instr::RefFunc(0), 2),
        (Instr::I64Const(-64), 2),
        (Instr::I64Const(64), 3),
    ];
    for (instr, size) in code {
        let body = Body { locals: vec![], code: vec![CodeItem::Instr(instr)] };
        assert_eq!(code_size_of(&vec![body]).unwrap(), 1 + 1 + 1 + size);
    }
    let bytes = [0; 200];
    let body = Body {
        locals: vec![(1, ValueType::I32), (128, ValueType::I64)],
        code: vec![CodeItem::Raw(&bytes), CodeItem::Instr(Instr::End)],
    };
    assert_eq!(code_size_of(&vec![body]).unwrap(), 1 + 2 + (1 + 2 + 3 + 200 + 1));
}

#[test]
fn names_have_the_size_that_they_take() {
    let names = || vec![Naming { index: 128, name: "abc" }];
    let subsections = vec![
        Subsection::Module("ab"),
        Subsection::Names(NameKind::Type, names()),
        Subsection::Indirect(
            IndirectKind::Label,
            vec![IndirectNaming { index: 1, names: names() }],
        ),
    ];
    // The name of the section goes first.
    let sizes = [1 + 1 + 3, 1 + 1 + (1 + 6), 1 + 1 + (1 + 1 + 7)];
    assert_eq!(names_size_of(&subsections).unwrap(), 5 + sizes[0] + sizes[1] + sizes[2]);
}

/// The size of the contents of a section as it is written, if its size takes one byte.
fn written_size(section: &impl wasm_encoder::Section) -> u32 {
    let mut bytes = vec![];
    section.encode(&mut bytes);
    assert_eq!(bytes[0] as usize, bytes.len() - 1);
    bytes[0] as u32
}

#[test]
fn sizes_are_those_that_are_written() {
    let mut types = wasm_encoder::TypeSection::new();
    types.function([wasm_encoder::ValType::I32], [wasm_encoder::ValType::I64]);
    let own = vec![FuncType { params: vec![ValueType::I32], results: vec![ValueType::I64] }];
    assert_eq!(types_size_of(&own).unwrap(), written_size(&types));

    let mut imports = wasm_encoder::ImportSection::new();
    imports.import("m", "table", wasm_encoder::TableType {
        element_type: wasm_encoder::ValType::FuncRef,
        minimum: 300,
        maximum: Some(400),
    });
    imports.import("m", "memory", wasm_encoder::MemoryType {
        minimum: 1,
        maximum: Some(1 << 33),
        memory64: true,
        shared: true,
    });
    imports.import("m", "tag", wasm_encoder::TagType {
        kind: wasm_encoder::TagKind::Exception,
        func_type_idx: 200,
    });
    let import = |name, ty| Import { module: "m", name, ty };
    let own = vec![
        import("table", EntityType::Table(TableType {
            element: ValueType::FuncRef,
            minimum: 300,
            maximum: Some(400),
        })),
        import("memory", EntityType::Memory(MemoryType {
            minimum: 1,
            maximum: Some(1 << 33),
            memory64: true,
            shared: true,
        })),
        import("tag", EntityType::Tag(200)),
    ];
    assert_eq!(imports_size_of(&own).unwrap(), written_size(&imports));

    let mut code = wasm_encoder::CodeSection::new();
    let mut function = wasm_encoder::Function::new([(200, wasm_encoder::ValType::F32)]);
    for block in [64, 8191, 8192, u32::MAX] {
        let block = wasm_encoder::BlockType::FunctionType(block);
        function.instruction(&wasm_encoder::Instruction::Block(block));
    }
    for value in [-65, 1 << 40, i64::MIN] {
        function.instruction(&wasm_encoder::Instruction::I64Const(value));
    }
    function.instruction(&wasm_encoder::Instruction::ReturnCall(1 << 30));
    code.function(&function);
    let mut own = Body { locals: vec![(200, ValueType::F32)], code: vec![] };
    for block in [64, 8191, 8192, u32::MAX] {
        own.instruction(Instr::Block(BlockType::FunctionType(block)));
    }
    for value in [-65, 1 << 40, i64::MIN] {
        own.instruction(Instr::I64Const(value));
    }
    own.instruction(Instr::ReturnCall(1 << 30));
    assert_eq!(code_size_of(&vec![own]).unwrap(), written_size(&code));

    let mut names = wasm_encoder::NameSection::new();
    let mut map = wasm_encoder::NameMap::new();
    map.append(300, "n");
    let mut indirect = wasm_encoder::IndirectNameMap::new();
    indirect.append(400, &map);
    names.module("m");
    names.types(&map);
    names.labels(&indirect);
    let naming = || vec![Naming { index: 300, name: "n" }];
    let own = vec![
        Subsection::Module("m"),
        Subsection::Names(NameKind::Type, naming()),
        Subsection::Indirect(
            IndirectKind::Label,
            vec![IndirectNaming { index: 400, names: naming() }],
        ),
    ];
    assert_eq!(names_size_of(&own).unwrap(), written_size(&names));

    let offset = wasm_encoder::ConstExpr::i32_const(1000);
    let mut elements = wasm_encoder::ElementSection::new();
    elements.active(
        Some(200),
        &offset,
        wasm_encoder::ValType::FuncRef,
        wasm_encoder::Elements::Functions(&[1, 1000]),
    );
    elements.passive(
        wasm_encoder::ValType::FuncRef,
        wasm_encoder::Elements::Expressions(&[wasm_encoder::ConstExpr::ref_func(1000)]),
    );
    let own = vec![
        Segment {
            mode: SegmentMode::Active(200, InitExpr::Raw(&[0x41, 0xe8, 0x07])),
            ty: ValueType::FuncRef,
            items: SegmentItems::Functions(vec![1, 1000]),
        },
        Segment {
            mode: SegmentMode::Passive,
            ty: ValueType::FuncRef,
            items: SegmentItems::Expressions(vec![InitExpr::RefFunc(1000)]),
        },
    ];
    assert_eq!(elements_size_of(&own).unwrap(), written_size(&elements));
}

#[test]
fn a_section_can_be_too_large() {
    // Many exports of one long name: no more than a few megabytes, counted over and over.
    let name = "n".repeat(1 << 20);
    let export = Export { name: &name, kind: ExportKind::Memory, index: 0 };
    assert!(!exports_size_of(&vec![export; 4095]).is_overflowed());
    assert!(exports_size_of(&vec![export; 4096]).is_overflowed());
}
