use finite_wasm::entries::{
    constexpr, transform_element_expressions, transform_element_functions, transform_elements,
    transform_exports, transform_functions, transform_globals, transform_imports,
    transform_init_expr, transform_types,
};
use finite_wasm::error::{Error, Stop};
use finite_wasm::instrument::{is_name_section, transform_block_type};
use finite_wasm::model::{
    slice_at, BlockType, ElementEntry, EntityType, EntryItems, EntryMode, Export, ExportKind,
    FuncType, GlobalEntry, GlobalType, Import, InitExpr, NameEntry, Naming, SegmentItems,
    SegmentMode, Subsection, ValueType,
};
use finite_wasm::names::{
    indirectnamemap, namemap, transform_indirect_names, transform_names, transform_subsections,
};
use wasmparser::BinaryReaderError;

fn broken() -> BinaryReaderError {
    match wasmparser::Parser::new(0).parse_all(&[0]).next() {
        Some(Err(error)) => error,
        _ => panic!("this is no module"),
    }
}

fn export(kind: ExportKind, index: u32) -> Export<'static> {
    Export { name: "e", kind, index }
}

#[test]
fn exports_up_to_the_first_error_are_taken() {
    let entries = vec![
        Ok(export(ExportKind::Func, 5)),
        Ok(export(ExportKind::Memory, 5)),
        Err(broken()),
        Ok(export(ExportKind::Func, 6)),
    ];
    let (done, r) = transform_exports(entries);
    assert!(matches!(r, Err(Stop::Failed(Error::ParseExport(_)))));
    assert_eq!(done.len(), 2);
    assert_eq!(done[0].index, 7);
    assert_eq!(done[1].index, 5);
    let (done, r) = transform_exports(vec![Ok(export(ExportKind::Func, u32::MAX))]);
    assert!(matches!(r, Err(Stop::OutOfRange)));
    assert_eq!(done.len(), 0);
}

#[test]
fn types_and_imports_up_to_the_first_error_are_taken() {
    let ty = FuncType { params: vec![ValueType::I32], results: vec![] };
    let (types, r) = transform_types(vec![Ok(ty), Err(broken())]);
    assert!(matches!(r, Err(Stop::Failed(Error::ParseType(_)))));
    assert_eq!(types.len(), 1);
    assert_eq!(types[0].params, vec![ValueType::I32]);
    let import = Import { module: "m", name: "n", ty: EntityType::Function(3) };
    let (imports, r) = transform_imports(vec![Ok(import), Err(broken())]);
    assert!(matches!(r, Err(Stop::Failed(Error::ParseImport(_)))));
    assert_eq!(imports.len(), 1);
    assert_eq!(imports[0].ty, EntityType::Function(3));
}

#[test]
fn functions_are_taken_as_a_whole() {
    assert_eq!(transform_functions(vec![Ok(3), Ok(u32::MAX)]).unwrap(), vec![3, u32::MAX]);
    let r = transform_functions(vec![Ok(3), Err(broken())]);
    assert!(matches!(r, Err(Stop::Failed(Error::ParseFunctionTyId(_)))));
}

#[test]
fn a_constant_expression_loses_its_end() {
    let expr = transform_init_expr(&[0x41, 0x07, 0x0b], Ok(None)).unwrap();
    assert!(matches!(expr, InitExpr::Raw([0x41, 0x07])));
    let expr = transform_init_expr(&[0xd2, 0x07, 0x0b], Ok(Some(7))).unwrap();
    assert!(matches!(expr, InitExpr::RefFunc(9)));
    let r = transform_init_expr(&[], Ok(None));
    assert!(matches!(r, Err(Stop::OutOfRange)));
    let r = transform_init_expr(&[0], Ok(Some(u32::MAX - 1)));
    assert!(matches!(r, Err(Stop::OutOfRange)));
    let r = transform_init_expr(&[0], Err(broken()));
    assert!(matches!(r, Err(Stop::Failed(Error::ParseConstExprOperator(_)))));
}

#[test]
fn a_constant_expression_is_read_where_it_lies() {
    let wasm = [0, 0, 0xd2, 0x80, 0x01, 0x0b, 0x41, 0x05, 0x0b];
    assert!(matches!(constexpr(&wasm, 2..6), Ok(InitExpr::RefFunc(130))));
    assert!(matches!(constexpr(&wasm, 6..9), Ok(InitExpr::Raw([0x41, 0x05]))));
    assert!(matches!(constexpr(&wasm, 6..10), Err(Stop::OutOfRange)));
    assert!(matches!(
        constexpr(&wasm, 4..4),
        Err(Stop::Failed(Error::ParseConstExprOperator(_))),
    ));
}

#[test]
fn globals_hold_their_types() {
    let wasm = [0xd2, 0x00, 0x0b];
    let ty = GlobalType { value: ValueType::FuncRef, mutable: true };
    let entries = vec![Ok(GlobalEntry { ty, init: 0..3 }), Err(broken())];
    let (done, r) = transform_globals(&wasm, entries);
    assert!(matches!(r, Err(Stop::Failed(Error::ParseGlobal(_)))));
    assert_eq!(done.len(), 1);
    assert_eq!(done[0].ty, ty);
    assert!(matches!(done[0].init, InitExpr::RefFunc(2)));
}

#[test]
fn elements_tell_their_errors_apart() {
    assert_eq!(transform_element_functions(vec![Ok(0), Ok(9)]).unwrap(), vec![2, 11]);
    let r = transform_element_functions(vec![Ok(0), Err(broken())]);
    assert!(matches!(r, Err(Stop::Failed(Error::ParseElementItem(_)))));
    let r = transform_element_expressions(&[0x41, 0, 0x0b], vec![Ok(0..3), Err(broken())]);
    assert!(matches!(r, Err(Stop::Failed(Error::ParseElementExpression(_)))));
    let r = transform_element_expressions(&[0xff], vec![Ok(0..1), Err(broken())]);
    assert!(matches!(r, Err(Stop::Failed(Error::ParseConstExprOperator(_)))));
    let (done, r) = transform_elements(&[], vec![Err(broken())]);
    assert!(matches!(r, Err(Stop::Failed(Error::ParseElement(_)))));
    assert_eq!(done.len(), 0);
}

#[test]
fn the_elements_of_a_segment_come_before_its_offset() {
    // One function index at 0, an offset at 2, and bytes that are neither at 5.
    let wasm = [1, 4, 0x41, 3, 0x0b, 0xff];
    let entry = |items, mode| ElementEntry { mode, ty: ValueType::FuncRef, items };
    let (done, r) = transform_elements(&wasm, vec![
        Ok(entry(EntryItems::Functions(0..2), EntryMode::Active(8, 2..5))),
        Ok(entry(EntryItems::Functions(5..6), EntryMode::Active(8, 5..6))),
    ]);
    assert!(matches!(r, Err(Stop::Failed(Error::ParseElementItem(_)))));
    assert_eq!(done.len(), 1);
    assert!(matches!(done[0].mode, SegmentMode::Active(8, InitExpr::Raw([0x41, 3]))));
    match &done[0].items {
        SegmentItems::Functions(functions) => assert_eq!(functions, &vec![6]),
        _ => panic!("these are functions"),
    }
    let (_, r) = transform_elements(&wasm, vec![
        Ok(entry(EntryItems::Functions(0..2), EntryMode::Active(8, 5..6))),
    ]);
    assert!(matches!(r, Err(Stop::Failed(Error::ParseConstExprOperator(_)))));
}

#[test]
fn names_move_only_where_they_name_functions() {
    let entries = || vec![Ok(Naming { index: 1, name: "n" })];
    assert_eq!(transform_names(true, entries()).unwrap()[0].index, 3);
    assert_eq!(transform_names(false, entries()).unwrap()[0].index, 1);
    let last = || vec![Ok(Naming { index: u32::MAX, name: "n" })];
    assert!(matches!(transform_names(true, last()), Err(Stop::OutOfRange)));
    assert_eq!(transform_names(false, last()).unwrap()[0].index, u32::MAX);
    let r = transform_names(false, vec![Err(broken())]);
    assert!(matches!(r, Err(Stop::Failed(Error::ParseNameMapName(_)))));
}

#[test]
fn name_maps_are_read_where_they_lie() {
    let wasm = [9, 1, 5, 2, b'h', b'i', 1, 7, 1, 5, 2, b'h', b'o'];
    let names = namemap(&wasm, 1..6, true).unwrap();
    assert_eq!(names.len(), 1);
    assert_eq!((names[0].index, names[0].name), (7, "hi"));
    let names = namemap(&wasm, 1..6, false).unwrap();
    assert_eq!((names[0].index, names[0].name), (5, "hi"));
    let names = indirectnamemap(&wasm, 6..13).unwrap();
    assert_eq!(names.len(), 1);
    assert_eq!(names[0].index, 9);
    assert_eq!((names[0].names[0].index, names[0].names[0].name), (5, "ho"));
    assert!(matches!(namemap(&wasm, 1..20, true), Err(Stop::OutOfRange)));
    let r = transform_indirect_names(&wasm, vec![Err(broken())]);
    assert!(matches!(r, Err(Stop::Failed(Error::ParseIndirectNameMapName(_)))));
    let r = transform_indirect_names(&wasm, vec![Ok((u32::MAX, 1..6))]);
    assert!(matches!(r, Err(Stop::OutOfRange)));
}

#[test]
fn the_host_is_named_behind_the_functions() {
    let wasm = [0];
    let (done, r) = transform_subsections(&wasm, vec![
        Ok(NameEntry::UnknownNames),
        Ok(NameEntry::FunctionNames(0..1)),
        Ok(NameEntry::ModuleName("m")),
        Err(broken()),
    ]);
    assert!(matches!(r, Err(Stop::Failed(Error::ParseName(_)))));
    assert_eq!(done.len(), 2);
    match &done[0] {
        Subsection::Names(_, names) => {
            assert_eq!(names.len(), 2);
            assert_eq!((names[0].index, names[0].name), (0, "finite_wasm_gas"));
            assert_eq!((names[1].index, names[1].name), (1, "finite_wasm_stack"));
        }
        _ => panic!("these are names of functions"),
    }
    assert!(matches!(done[1], Subsection::Module("m")));
}

#[test]
fn only_one_name_is_that_of_the_name_section() {
    assert!(is_name_section("name"));
    assert!(!is_name_section("names"));
    assert!(!is_name_section("nam"));
    assert!(!is_name_section("Name"));
    assert!(!is_name_section(""));
    assert!(!is_name_section("n\u{e4}me"));
}

#[test]
fn block_types_give_what_functions_give() {
    let ty = |params: usize, results: usize| FuncType {
        params: vec![ValueType::I32; params],
        results: vec![ValueType::F64; results],
    };
    let block = |ty: &FuncType, next: usize| {
        let (block, added) = transform_block_type(ty, 4, next).unwrap();
        (block, added.len())
    };
    assert_eq!(block(&ty(0, 0), 9), (BlockType::Empty, 0));
    assert_eq!(block(&ty(0, 1), 9), (BlockType::Result(ValueType::F64), 0));
    assert_eq!(block(&ty(3, 1), 9), (BlockType::Result(ValueType::F64), 0));
    assert_eq!(block(&ty(0, 2), 9), (BlockType::FunctionType(4), 0));
    assert_eq!(block(&ty(1, 0), 9), (BlockType::FunctionType(9), 1));
    assert_eq!(block(&ty(1, 2), 9), (BlockType::FunctionType(9), 1));
    let (_, added) = transform_block_type(&ty(1, 2), 4, 9).unwrap();
    assert_eq!(added[0].params, vec![]);
    assert_eq!(added[0].results, vec![ValueType::F64, ValueType::F64]);
    let r = transform_block_type(&ty(1, 2), 4, u32::MAX as usize);
    assert!(matches!(r, Err(Stop::OutOfRange)));
}

#[test]
fn ranges_lie_within_the_bytes_or_not() {
    let bytes = [1, 2, 3];
    assert_eq!(slice_at(&bytes, &(1..3)), Some(&bytes[1..3]));
    assert_eq!(slice_at(&bytes, &(3..3)), Some(&bytes[3..3]));
    assert_eq!(slice_at(&bytes, &(2..4)), None);
    let backwards = std::ops::Range { start: 2, end: 1 };
    assert_eq!(slice_at(&bytes, &backwards), None);
}
