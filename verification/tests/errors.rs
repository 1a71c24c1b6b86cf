use finite_wasm::analysis::{AnalysisOutcome, InstrumentationKind};
use finite_wasm::error::{Error, Stop};
use finite_wasm::instrument::InstrumentContext;
use finite_wasm::model::{Op, Operator};
use wasmparser::BinaryReaderError;

const HEADER: [u8; 8] = [0x00, 0x61, 0x73, 0x6d, 0x01, 0x00, 0x00, 0x00];

fn no_analysis() -> AnalysisOutcome {
    AnalysisOutcome {
        function_operand_stack_sizes: vec![],
        function_frame_sizes: vec![],
        gas_offsets: vec![],
        gas_costs: vec![],
        gas_kinds: vec![],
    }
}

fn one_analysis() -> AnalysisOutcome {
    AnalysisOutcome {
        function_operand_stack_sizes: vec![1],
        function_frame_sizes: vec![1],
        gas_offsets: vec![vec![]],
        gas_costs: vec![vec![]],
        gas_kinds: vec![vec![]],
    }
}

/// The module that consists of these sections.
fn module(sections: &[(u8, &[u8])]) -> Vec<u8> {
    let mut wasm = HEADER.to_vec();
    for (id, data) in sections {
        wasm.push(*id);
        wasm.push(data.len() as u8);
        wasm.extend(*data);
    }
    wasm
}

fn error_of(wasm: &[u8], analysis: &AnalysisOutcome) -> Error {
    match InstrumentContext::new(wasm, "env", analysis).run() {
        Err(Stop::Failed(error)) => error,
        Err(Stop::OutOfRange) => panic!("out of range"),
        Ok(_) => panic!("no error"),
    }
}

fn error_in(sections: &[(u8, &[u8])]) -> Error {
    error_of(&module(sections), &one_analysis())
}

fn broken() -> BinaryReaderError {
    match wasmparser::Parser::new(0).parse_all(&[0]).next() {
        Some(Err(error)) => error,
        _ => panic!("this is no module"),
    }
}

const TYPES: (u8, &[u8]) = (1, &[1, 0x60, 0, 0]);

const FUNCTIONS: (u8, &[u8]) = (3, &[1, 0]);

const CODE: (u8, &[u8]) = (10, &[1, 2, 0, 0x0b]);

#[test]
fn bytes_that_are_no_module() {
    let error = error_of(&[1, 2, 3], &no_analysis());
    assert!(matches!(error, Error::ParseModuleSection(_)));
    assert_eq!(error.message(), "could not parse a module section header");
}

#[test]
fn bytes_that_are_no_type() {
    let error = error_in(&[(1, &[1, 0x11])]);
    assert!(matches!(error, Error::ParseType(_)));
    assert_eq!(error.message(), "could not parse a type section entry");
}

#[test]
fn bytes_that_are_no_import() {
    let error = error_in(&[(2, &[1, 0])]);
    assert!(matches!(error, Error::ParseImport(_)));
    assert_eq!(error.message(), "could not parse an import section entry");
}

#[test]
fn bytes_that_are_no_function() {
    let error = error_in(&[(3, &[2, 0])]);
    assert!(matches!(error, Error::ParseFunctionTyId(_)));
    assert_eq!(error.message(), "could not parse a function section entry");
}

#[test]
fn bytes_that_are_no_export() {
    let error = error_in(&[(7, &[1, 0, 9])]);
    assert!(matches!(error, Error::ParseExport(_)));
    assert_eq!(error.message(), "could not parse an export");
}

#[test]
fn bytes_that_are_no_global() {
    let error = error_in(&[(6, &[1, 0x7f])]);
    assert!(matches!(error, Error::ParseGlobal(_)));
    assert_eq!(error.message(), "could not parse a global");
}

#[test]
fn bytes_that_are_no_element() {
    let error = error_in(&[(9, &[1, 0x7f])]);
    assert!(matches!(error, Error::ParseElement(_)));
    assert_eq!(error.message(), "could not parse an element");
}

#[test]
fn a_function_body_without_a_function() {
    let error = error_in(&[TYPES, CODE]);
    assert!(matches!(error, Error::InsufficientFunctionTypes));
    assert_eq!(error.message(), "module contains fewer function types than definitions");
}

#[test]
fn a_function_without_a_type() {
    let error = error_in(&[TYPES, (3, &[1, 1]), CODE]);
    assert!(matches!(error, Error::InvalidTypeIndex));
    assert_eq!(error.message(), "module contains a reference to an invalid type index");
}

#[test]
fn bytes_that_are_no_locals() {
    // A body of two groups of locals, the second of which is cut short.
    let error = error_in(&[TYPES, FUNCTIONS, (10, &[1, 4, 2, 1, 0x7f, 1])]);
    assert!(matches!(error, Error::ParseLocal(_)));
    assert_eq!(error.message(), "could not parse a function local");
}

#[test]
fn bytes_that_are_no_number_of_locals() {
    let error = error_in(&[TYPES, FUNCTIONS, (10, &[1, 1, 0xff])]);
    assert!(matches!(error, Error::ParseLocals(_)));
    assert_eq!(error.message(), "could not parse the function locals");
}

#[test]
fn bytes_that_are_no_operator() {
    let error = error_in(&[TYPES, FUNCTIONS, (10, &[1, 3, 0, 1, 0xff])]);
    assert!(matches!(error, Error::ParseOperator(_)));
    assert_eq!(error.message(), "could not parse an operator");
}

#[test]
fn bytes_that_are_no_operators() {
    let wasm = module(&[]);
    let analysis = one_analysis();
    let mut context = InstrumentContext::new(&wasm, "env", &analysis);
    let types = vec![Ok(finite_wasm::model::FuncType { params: vec![], results: vec![] })];
    assert!(context.transform_type_section(types).is_ok());
    let r = context.transform_body(Ok(Ok(vec![])), Err(broken()), 0, 0);
    match r {
        Err(Stop::Failed(error)) => {
            assert!(matches!(error, Error::ParseOperators(_)));
            assert_eq!(error.message(), "could not parse the function operators");
        }
        _ => panic!("no error"),
    }
    let operators = vec![Ok(Operator { op: Op::End, offset: 0 })];
    assert!(context.transform_body(Ok(Ok(vec![])), Ok(operators), 0, 0).is_ok());
}

#[test]
fn bytes_that_are_no_constant_expression() {
    // An immutable i32 whose initial value begins with an unknown operator.
    let analysis = no_analysis();
    let wasm = [0xff, 0x0b];
    let mut context = InstrumentContext::new(&wasm, "env", &analysis);
    let global = finite_wasm::model::GlobalEntry {
        ty: finite_wasm::model::GlobalType {
            value: finite_wasm::model::ValueType::I32,
            mutable: false,
        },
        init: 0..2,
    };
    match context.transform_global_section(vec![Ok(global)]) {
        Err(Stop::Failed(error)) => {
            assert!(matches!(error, Error::ParseConstExprOperator(_)));
            assert_eq!(error.message(), "could not parse a constant expression operator");
        }
        _ => panic!("no error"),
    }
}

#[test]
fn bytes_that_are_no_names() {
    let error = error_in(&[(0, &[4, b'n', b'a', b'm', b'e', 1])]);
    assert!(matches!(error, Error::ParseName(_)));
    assert_eq!(error.message(), "could not parse a name section entry");
}

#[test]
fn bytes_that_are_no_name() {
    let error = error_in(&[(0, &[4, b'n', b'a', b'm', b'e', 4, 2, 1, 0])]);
    assert!(matches!(error, Error::ParseNameMapName(_)));
    assert_eq!(error.message(), "could not parse a name map entry");
}

#[test]
fn bytes_that_are_no_indirect_name() {
    let error = error_in(&[(0, &[4, b'n', b'a', b'm', b'e', 2, 2, 1, 0])]);
    assert!(matches!(error, Error::ParseIndirectNameMapName(_)));
    assert_eq!(error.message(), "could not parse an indirect name map entry");
}

#[test]
fn an_analysis_that_misses_a_function() {
    let wasm = module(&[TYPES, FUNCTIONS, CODE]);
    let mut analysis = no_analysis();
    let missing = |analysis: &AnalysisOutcome, field: &str| {
        let error = error_of(&wasm, analysis);
        match error {
            Error::FunctionMissingInAnalysisOutcome(name, index) => {
                assert_eq!(name, field);
                assert_eq!(index, 0);
            }
            _ => panic!("another error"),
        }
    };
    missing(&analysis, "gas_costs");
    analysis.gas_costs.push(vec![]);
    missing(&analysis, "gas_kinds");
    analysis.gas_kinds.push(vec![]);
    missing(&analysis, "gas_offsets");
    analysis.gas_offsets.push(vec![]);
    missing(&analysis, "function_operand_stack_sizes");
    analysis.function_operand_stack_sizes.push(0);
    missing(&analysis, "function_frame_sizes");
    analysis.function_frame_sizes.push(0);
    assert!(InstrumentContext::new(&wasm, "env", &analysis).run().is_ok());
}

#[test]
fn an_analysis_that_misses_the_second_function() {
    let wasm = module(&[TYPES, (3, &[2, 0, 0]), (10, &[2, 2, 0, 0x0b, 2, 0, 0x0b])]);
    let error = error_of(&wasm, &one_analysis());
    assert_eq!(
        error.message(),
        "the analysis outcome missing a gas_costs entry for code section entry `1`",
    );
}

#[test]
fn sizes_that_are_too_large() {
    let wasm = module(&[TYPES, FUNCTIONS, CODE]);
    let mut analysis = one_analysis();
    analysis.function_frame_sizes[0] = 1 << 63;
    let error = error_of(&wasm, &analysis);
    assert!(matches!(error, Error::SizeTooLarge("function_frame_sizes", 0, _)));
    assert_eq!(
        error.message(),
        "function_frame_sizes is too large to fit into i64 for code section entry `0`",
    );
    analysis.function_operand_stack_sizes[0] = u64::MAX;
    let error = error_of(&wasm, &analysis);
    assert!(matches!(error, Error::SizeTooLarge("function_operand_stack_sizes", 0, _)));
    analysis.function_operand_stack_sizes[0] = (1 << 63) - 1;
    analysis.function_frame_sizes[0] = (1 << 63) - 1;
    assert!(InstrumentContext::new(&wasm, "env", &analysis).run().is_ok());
}

#[test]
fn what_is_wrong_with_a_function_is_told_in_order() {
    // The locals are read before the analysis is looked at, and that is done before the operators
    // are read.
    let wasm = module(&[TYPES, FUNCTIONS, (10, &[1, 4, 2, 1, 0x7f, 1])]);
    assert!(matches!(error_of(&wasm, &no_analysis()), Error::ParseLocal(_)));
    let wasm = module(&[TYPES, FUNCTIONS, (10, &[1, 3, 0, 1, 0xff])]);
    assert!(matches!(
        error_of(&wasm, &no_analysis()),
        Error::FunctionMissingInAnalysisOutcome("gas_costs", 0),
    ));
}

#[test]
fn every_error_says_what_is_wrong() {
    assert_eq!(
        Error::ParseElementItem(broken()).message(),
        "could not parse an element item",
    );
    assert_eq!(
        Error::ParseElementExpression(broken()).message(),
        "could not parse an element expression",
    );
    assert_eq!(
        Error::FunctionMissingInAnalysisOutcome("gas_kinds", 1234567890).message(),
        "the analysis outcome missing a gas_kinds entry for code section entry `1234567890`",
    );
    assert_eq!(
        Error::FunctionMissingInAnalysisOutcome("", usize::MAX).message(),
        format!("the analysis outcome missing a  entry for code section entry `{}`", usize::MAX),
    );
}

#[test]
fn the_kinds_of_points_are_told_apart() {
    assert_ne!(InstrumentationKind::Pure, InstrumentationKind::Unreachable);
}
