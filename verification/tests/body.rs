use finite_wasm::analysis::InstrumentationKind;
use finite_wasm::code::{
    call_gas_instrumentation, call_stack_instrumentation, instrument_body, shift, Metering,
};
use finite_wasm::error::{Error, Stop};
use finite_wasm::model::{BlockType, Body, CodeItem, Instr, Op, Operator, ValueType};

fn empty() -> Body<'static> {
    Body { locals: vec![], code: vec![] }
}

/// The code of a body in a form that can be told apart.
fn shown(body: &Body) -> Vec<String> {
    let mut shown = vec![];
    for item in &body.code {
        shown.push(match item {
            CodeItem::Instr(instr) => format!("{:?}", instr),
            CodeItem::Raw(bytes) => format!("{:?}", bytes),
        });
    }
    shown
}

#[test]
fn functions_move_by_two() {
    assert!(matches!(shift(0), Ok(2)));
    assert!(matches!(shift(u32::MAX - 2), Ok(u32::MAX)));
    assert!(matches!(shift(u32::MAX - 1), Err(Stop::OutOfRange)));
}

#[test]
fn the_code_on_exit_is_as_long_as_that_on_entry() {
    let mut entry = empty();
    entry.instruction(Instr::Block(BlockType::Empty));
    call_stack_instrumentation(&mut entry, 3, 0);
    let mut exit = empty();
    call_stack_instrumentation(&mut exit, -3, 0);
    assert_eq!(shown(&entry), vec!["Block(Empty)", "I64Const(3)", "I64Const(0)", "Call(1)"]);
    assert_eq!(shown(&exit), vec!["I64Const(-3)", "I64Const(0)", "Nop", "Call(1)"]);
    let mut exit = empty();
    call_stack_instrumentation(&mut exit, 0, -1);
    assert_eq!(shown(&exit), vec!["I64Const(0)", "I64Const(-1)", "Nop", "Call(1)"]);
}

#[test]
fn gas_is_handed_over_bit_by_bit() {
    let mut body = empty();
    call_gas_instrumentation(&mut body, 0);
    assert_eq!(body.code.len(), 0);
    for gas in [1, 1 << 63, (1 << 63) - 1, u64::MAX, 123456789] {
        let mut body = empty();
        call_gas_instrumentation(&mut body, gas);
        assert_eq!(body.code.len(), 2);
        match body.code[0] {
            CodeItem::Instr(Instr::I64Const(amount)) => assert_eq!(amount as u64, gas),
            _ => panic!("this is no amount"),
        }
        assert!(matches!(body.code[1], CodeItem::Instr(Instr::Call(0))));
    }
}

fn at(op: Op, offset: usize) -> Result<Operator, wasmparser::BinaryReaderError> {
    Ok(Operator { op, offset })
}

#[test]
fn every_way_out_gives_back_the_stack() {
    let wasm = [10, 11, 12, 13, 14, 15, 16];
    let (offsets, costs, kinds) = (vec![], vec![], vec![]);
    let metering = Metering { offsets: &offsets, costs: &costs, kinds: &kinds, stack: 2, frame: 5 };
    let operators = vec![
        at(Op::Other, 0),
        at(Op::Return, 2),
        at(Op::ReturnCall(8), 3),
        at(Op::ReturnCallIndirect, 4),
        at(Op::End, 5),
        at(Op::End, 6),
    ];
    let locals = vec![(3, ValueType::I64)];
    let body = instrument_body(&wasm, locals, operators, 7, &metering, BlockType::FunctionType(6))
        .unwrap();
    assert_eq!(body.locals, vec![(3, ValueType::I64)]);
    let out = ["I64Const(-2)", "I64Const(-5)", "Nop", "Call(1)"];
    let mut expected = vec!["Block(FunctionType(6))", "I64Const(2)", "I64Const(5)", "Call(1)"];
    expected.push("[10, 11]");
    expected.extend(out);
    expected.push("Return");
    expected.extend(out);
    expected.push("ReturnCall(10)");
    expected.extend(out);
    expected.push("[14]");
    expected.push("[15]");
    expected.push("End");
    expected.extend(out);
    expected.push("End");
    assert_eq!(shown(&body), expected);
}

#[test]
fn each_point_is_charged_at_its_operator() {
    let wasm = [10, 11, 12, 13];
    let offsets = vec![0, 1, 3];
    let costs = vec![5, 6, 7, 8];
    let kinds = vec![
        InstrumentationKind::Pure,
        InstrumentationKind::Unreachable,
        InstrumentationKind::PreControlFlow,
    ];
    let metering = Metering { offsets: &offsets, costs: &costs, kinds: &kinds, stack: 0, frame: 0 };
    let operators = vec![
        at(Op::Other, 0),
        at(Op::Call(1), 1),
        at(Op::RefFunc(2), 2),
        at(Op::End, 3),
    ];
    let body = instrument_body(&wasm, vec![], operators, 4, &metering, BlockType::Empty).unwrap();
    assert_eq!(shown(&body), vec![
        "I64Const(5)",
        "Call(0)",
        "[10]",
        "Call(3)",
        "RefFunc(4)",
        "I64Const(7)",
        "Call(0)",
        "End",
    ]);
}

#[test]
fn the_shortest_list_tells_how_many_points_there_are() {
    let wasm = [10, 11];
    let (offsets, costs) = (vec![0, 1], vec![5, 6]);
    let kinds = vec![InstrumentationKind::Pure];
    let metering = Metering { offsets: &offsets, costs: &costs, kinds: &kinds, stack: 0, frame: 0 };
    let operators = || vec![at(Op::Other, 0), at(Op::End, 1)];
    let body = instrument_body(&wasm, vec![], operators(), 2, &metering, BlockType::Empty).unwrap();
    assert_eq!(shown(&body), vec!["I64Const(5)", "Call(0)", "[10]", "End"]);
    let (costs, kinds) = (vec![], vec![InstrumentationKind::Pure; 2]);
    let metering = Metering { offsets: &offsets, costs: &costs, kinds: &kinds, stack: 0, frame: 0 };
    let body = instrument_body(&wasm, vec![], operators(), 2, &metering, BlockType::Empty).unwrap();
    assert_eq!(shown(&body), vec!["[10]", "End"]);
}

#[test]
fn the_first_operator_that_cannot_be_instrumented_decides() {
    let wasm = [10, 11];
    let (offsets, costs, kinds) = (vec![], vec![], vec![]);
    let metering = Metering { offsets: &offsets, costs: &costs, kinds: &kinds, stack: 1, frame: 1 };
    let broken = match wasmparser::Parser::new(0).parse_all(&[0]).next() {
        Some(Err(error)) => error,
        _ => panic!("this is no module"),
    };
    let operators = vec![at(Op::Other, 0), Err(broken)];
    let r = instrument_body(&wasm, vec![], operators, 2, &metering, BlockType::Empty);
    assert!(matches!(r, Err(Stop::Failed(Error::ParseOperator(_)))));
    let operators = vec![at(Op::Call(u32::MAX), 0), at(Op::End, 1)];
    let r = instrument_body(&wasm, vec![], operators, 2, &metering, BlockType::Empty);
    assert!(matches!(r, Err(Stop::OutOfRange)));
    let operators = vec![at(Op::Other, 1), at(Op::End, 9)];
    let r = instrument_body(&wasm, vec![], operators, 10, &metering, BlockType::Empty);
    assert!(matches!(r, Err(Stop::OutOfRange)));
}

#[test]
fn an_end_closes_the_function_only_if_it_is_the_last_operator() {
    let wasm = [10, 11];
    let (offsets, costs, kinds) = (vec![], vec![], vec![]);
    let metering = Metering { offsets: &offsets, costs: &costs, kinds: &kinds, stack: 0, frame: 0 };
    let operators = vec![at(Op::End, 0), at(Op::Other, 1)];
    let body = instrument_body(&wasm, vec![], operators, 2, &metering, BlockType::Empty).unwrap();
    assert_eq!(shown(&body), vec!["[10]", "[11]"]);
}
