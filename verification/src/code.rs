//! Instrumenting the body of a function.
//!
//! The body is wrapped into a block. At the beginning of the block the host is told how much stack
//! the function takes, and behind the block, as in front of every other way out of the function,
//! that the stack is given back. Gas is charged in front of the operators that the analysis has
//! picked. The operators themselves are copied as they are, except that they refer to functions by
//! indices that leave room for the two functions of the host.
use std::ops::Range;
use vstd::prelude::*;
use wasmparser::BinaryReaderError;

use crate::analysis::{gas_points, GasPoint, InstrumentationKind};
use crate::error::{Error, Stop};
use crate::model::{
    bytes_at, slice_at, BlockType, Body, BodyView, CodeItem, CodeItemView, Instr, Op, Operator,
    ValueType,
};

verus! {

/// The index of the function of the host that charges gas.
///
/// It and [`STACK_INSTRUMENTATION_FN`] are known to be constant, as these functions are imported
/// before all others. This makes it easy to transform references to other functions: two is added
/// to every function index.
pub const GAS_INSTRUMENTATION_FN: u32 = 0;

/// The index of the function of the host that accounts for the stack.
///
/// See [`GAS_INSTRUMENTATION_FN`].
pub const STACK_INSTRUMENTATION_FN: u32 = 1;

/// The index that a function has once the functions of the host come first.
pub open spec fn shifted(index: u32) -> Result<u32, Stop> {
    if index + 2 <= u32::MAX {
        Ok((index + 2) as u32)
    } else {
        Err(Stop::OutOfRange)
    }
}

/// The index that the function `index` has once the functions of the host come first.
pub fn shift(index: u32) -> (r: Result<u32, Stop>)
    ensures
        r == shifted(index),
{
    if index <= u32::MAX - 2 {
        Ok(index + 2)
    } else {
        Err(Stop::OutOfRange)
    }
}

/// An instruction as a part of a function body.
pub open spec fn instr(instr: Instr) -> CodeItemView {
    CodeItemView::Instr(instr)
}

/// The instructions that tell the host of a change of the stack. A release of stack is padded to
/// the length of a reservation and the block in front of it.
pub open spec fn stack_call(max_operand_stack_size: i64, function_frame_size: i64) -> Seq<
    CodeItemView,
> {
    let sizes = seq![
        instr(Instr::I64Const(max_operand_stack_size)),
        instr(Instr::I64Const(function_frame_size)),
    ];
    if max_operand_stack_size < 0 || function_frame_size < 0 {
        sizes + seq![instr(Instr::Nop), instr(Instr::Call(STACK_INSTRUMENTATION_FN))]
    } else {
        sizes + seq![instr(Instr::Call(STACK_INSTRUMENTATION_FN))]
    }
}

/// The instructions that charge gas: none if there is nothing to be charged.
///
/// The amount is handed over with its bits as they are, for the host to read back as unsigned.
pub open spec fn gas_call(gas: u64) -> Seq<CodeItemView> {
    if gas == 0 {
        Seq::empty()
    } else {
        seq![
            instr(Instr::I64Const(gas as i64)),
            instr(Instr::Call(GAS_INSTRUMENTATION_FN)),
        ]
    }
}

impl<'a> Body<'a> {
    /// Writes an instruction.
    pub fn instruction(&mut self, instruction: Instr)
        ensures
            final(self)@ == (BodyView {
                code: old(self)@.code.push(instr(instruction)),
                ..old(self)@
            }),
    {
        self.code.push(CodeItem::Instr(instruction));
        assert(self@.code =~= old(self)@.code.push(instr(instruction)));
    }

    /// Writes encoded operators.
    pub fn raw(&mut self, bytes: &'a [u8])
        ensures
            final(self)@ == (BodyView {
                code: old(self)@.code.push(CodeItemView::Raw(bytes@)),
                ..old(self)@
            }),
    {
        self.code.push(CodeItem::Raw(bytes));
        assert(self@.code =~= old(self)@.code.push(CodeItemView::Raw(bytes@)));
    }
}

/// Tells the host of a change of the stack.
pub fn call_stack_instrumentation(
    func: &mut Body<'_>,
    max_operand_stack_size: i64,
    function_frame_size: i64,
)
    ensures
        final(func)@ == (BodyView {
            code: old(func)@.code + stack_call(max_operand_stack_size, function_frame_size),
            ..old(func)@
        }),
{
    func.instruction(Instr::I64Const(max_operand_stack_size));
    func.instruction(Instr::I64Const(function_frame_size));
    // The interpreter prices this sequence as -4 gas to account for the leading `block` on
    // entry.
    //
    // It however does not exist on exit so introduce a dummy instruction to compensate.
    if max_operand_stack_size < 0 || function_frame_size < 0 {
        func.instruction(Instr::Nop);
    }
    func.instruction(Instr::Call(STACK_INSTRUMENTATION_FN));
    assert(func@.code =~= old(func)@.code + stack_call(
        max_operand_stack_size,
        function_frame_size,
    ));
}

/// Charges gas.
pub fn call_gas_instrumentation(func: &mut Body<'_>, gas: u64)
    ensures
        final(func)@ == (BodyView { code: old(func)@.code + gas_call(gas), ..old(func)@ }),
{
    if gas != 0 {
        // The reinterpreting cast is intentional here. On the other side the host function is
        // expected to reinterpret the argument back to u64.
        let amount: i64 = #[verifier::truncate]
        (gas as i64);
        func.instruction(Instr::I64Const(amount));
        func.instruction(Instr::Call(GAS_INSTRUMENTATION_FN));
    }
    assert(func@.code =~= old(func)@.code + gas_call(gas));
}

/// What is known of a function: where its gas is charged and what it takes of the stack.
#[derive(Clone, Copy)]
pub struct Metering<'a> {
    pub offsets: &'a Vec<usize>,
    pub costs: &'a Vec<u64>,
    pub kinds: &'a Vec<InstrumentationKind>,
    pub stack: i64,
    pub frame: i64,
}

#[verifier::ext_equal]
pub struct MeteringView {
    pub points: Seq<GasPoint>,
    pub stack: i64,
    pub frame: i64,
}

impl<'a> View for Metering<'a> {
    type V = MeteringView;

    open spec fn view(&self) -> MeteringView {
        MeteringView {
            points: gas_points(self.offsets@, self.costs@, self.kinds@),
            stack: self.stack,
            frame: self.frame,
        }
    }
}

impl MeteringView {
    /// Whether the function takes anything of the stack.
    pub open spec fn takes_stack(self) -> bool {
        self.stack != 0 || self.frame != 0
    }

    /// The code in front of the first operator.
    pub open spec fn entry(self, block_type: BlockType) -> Seq<CodeItemView> {
        if self.takes_stack() {
            seq![instr(Instr::Block(block_type))] + stack_call(self.stack, self.frame)
        } else {
            Seq::empty()
        }
    }

    /// The code in front of every way out of the function.
    pub open spec fn exit(self) -> Seq<CodeItemView> {
        if self.takes_stack() {
            stack_call((-self.stack) as i64, (-self.frame) as i64)
        } else {
            Seq::empty()
        }
    }

    /// The code in front of an operator at `offset` if all points before `next` are behind it.
    pub open spec fn charge(self, next: int, offset: usize) -> Seq<CodeItemView> {
        if self.due(next, offset) && self.points[next].kind != InstrumentationKind::Unreachable {
            gas_call(self.points[next].cost)
        } else {
            Seq::empty()
        }
    }

    /// The code that takes the place of an operator: `bytes` is the operator as it is, where it
    /// lies within the module, and `last` tells that no other operator follows.
    pub open spec fn rewritten(self, op: Op, bytes: Option<Seq<u8>>, last: bool) -> Result<
        Seq<CodeItemView>,
        Stop,
    > {
        match op {
            Op::RefFunc(index) => match shifted(index) {
                Ok(index) => Ok(seq![instr(Instr::RefFunc(index))]),
                Err(stop) => Err(stop),
            },
            Op::Call(index) => match shifted(index) {
                Ok(index) => Ok(seq![instr(Instr::Call(index))]),
                Err(stop) => Err(stop),
            },
            Op::ReturnCall(index) => match shifted(index) {
                Ok(index) => Ok(self.exit().push(instr(Instr::ReturnCall(index)))),
                Err(stop) => Err(stop),
            },
            Op::ReturnCallIndirect => match bytes {
                Some(bytes) => Ok(self.exit().push(CodeItemView::Raw(bytes))),
                None => Err(Stop::OutOfRange),
            },
            Op::Return => Ok(self.exit().push(instr(Instr::Return))),
            Op::End if last => if self.takes_stack() {
                Ok((seq![instr(Instr::End)] + self.exit()).push(instr(Instr::End)))
            } else {
                Ok(seq![instr(Instr::End)])
            },
            _ => match bytes {
                Some(bytes) => Ok(seq![CodeItemView::Raw(bytes)]),
                None => Err(Stop::OutOfRange),
            },
        }
    }

    /// Whether the point `next` lies at `offset`.
    pub open spec fn due(self, next: int, offset: usize) -> bool {
        0 <= next < self.points.len() && self.points[next].offset == offset
    }
}

/// The position behind the operator `i`, where the next one begins, or `end` if it is the last.
/// Which position it is in front of bytes that are no operator makes no difference.
pub open spec fn operator_end(
    operators: Seq<Result<Operator, BinaryReaderError>>,
    end: usize,
    i: int,
) -> usize {
    if i + 1 < operators.len() {
        match operators[i + 1] {
            Ok(next) => next.offset,
            Err(_) => operators[i]->Ok_0.offset,
        }
    } else {
        end
    }
}

/// The operators of a function body within a module.
#[verifier::ext_equal]
pub struct BodyText {
    /// The module.
    pub wasm: Seq<u8>,
    /// The operators, the last of them an error if there are bytes that are none.
    pub operators: Seq<Result<Operator, BinaryReaderError>>,
    /// The position behind the body.
    pub end: usize,
}

impl BodyText {
    /// The position behind the operator `i`.
    pub open spec fn end_of(self, i: int) -> usize {
        operator_end(self.operators, self.end, i)
    }

    /// The code that takes the place of the operator `i`.
    pub open spec fn rewritten(self, metering: MeteringView, i: int) -> Result<
        Seq<CodeItemView>,
        Stop,
    > {
        let operator = self.operators[i]->Ok_0;
        let range = Range { start: operator.offset, end: self.end_of(i) };
        metering.rewritten(
            operator.op,
            bytes_at(self.wasm, range),
            i + 1 == self.operators.len(),
        )
    }

    /// How many instrumentation points are behind the first `count` operators.
    pub open spec fn passed(self, metering: MeteringView, count: nat) -> nat
        decreases count,
    {
        if count == 0 {
            0
        } else {
            let before = self.passed(metering, (count - 1) as nat);
            if metering.due(before as int, self.operators[count - 1]->Ok_0.offset) {
                before + 1
            } else {
                before
            }
        }
    }

    /// The code that the operator `i` contributes: the charge for it and what takes its place.
    pub open spec fn contribution(self, metering: MeteringView, i: int) -> Result<
        Seq<CodeItemView>,
        Stop,
    > {
        match self.operators[i] {
            Ok(operator) => match self.rewritten(metering, i) {
                Ok(code) => Ok(
                    metering.charge(self.passed(metering, i as nat) as int, operator.offset) + code,
                ),
                Err(stop) => Err(stop),
            },
            Err(error) => Err(Stop::Failed(Error::ParseOperator(error))),
        }
    }

    /// The code for the first `count` operators, or why there is none.
    pub open spec fn code(
        self,
        metering: MeteringView,
        block_type: BlockType,
        count: nat,
    ) -> Result<Seq<CodeItemView>, Stop>
        decreases count,
    {
        if count == 0 {
            Ok(metering.entry(block_type))
        } else {
            match self.code(metering, block_type, (count - 1) as nat) {
                Ok(before) => match self.contribution(metering, count - 1) {
                    Ok(code) => Ok(before + code),
                    Err(stop) => Err(stop),
                },
                Err(stop) => Err(stop),
            }
        }
    }

    /// Once there is no code for a part of the operators, there is none for more of them.
    pub proof fn lemma_code_stop(
        self,
        metering: MeteringView,
        block_type: BlockType,
        count: nat,
        all: nat,
    )
        requires
            count <= all,
            self.code(metering, block_type, count) is Err,
        ensures
            self.code(metering, block_type, all) == self.code(metering, block_type, count),
        decreases all,
    {
        if count < all {
            self.lemma_code_stop(metering, block_type, count, (all - 1) as nat);
        }
    }
}

impl<'a> Metering<'a> {
    /// Whether the function takes anything of the stack.
    fn takes_stack(&self) -> (r: bool)
        ensures
            r == self@.takes_stack(),
    {
        self.stack != 0 || self.frame != 0
    }

    /// Writes what comes in front of every way out of the function.
    fn write_exit(&self, func: &mut Body<'_>)
        requires
            self.stack > i64::MIN,
            self.frame > i64::MIN,
        ensures
            final(func)@ == (BodyView { code: old(func)@.code + self@.exit(), ..old(func)@ }),
    {
        if self.takes_stack() {
            call_stack_instrumentation(func, -self.stack, -self.frame);
        }
        assert(func@.code =~= old(func)@.code + self@.exit());
    }

    /// Charges for an operator at `offset` if the point `next` lies there, and returns the point
    /// that is next then.
    pub fn write_charge(&self, func: &mut Body<'_>, next: usize, offset: usize) -> (r: usize)
        ensures
            final(func)@ == (BodyView {
                code: old(func)@.code + self@.charge(next as int, offset),
                ..old(func)@
            }),
            r == if self@.due(next as int, offset) {
                next + 1
            } else {
                next as int
            },
    {
        if next < self.offsets.len() && next < self.costs.len() && next < self.kinds.len()
            && self.offsets[next] == offset {
            if self.kinds[next] != InstrumentationKind::Unreachable {
                call_gas_instrumentation(func, self.costs[next]);
            }
            assert(func@.code =~= old(func)@.code + self@.charge(next as int, offset));
            next + 1
        } else {
            assert(func@.code =~= old(func)@.code + self@.charge(next as int, offset));
            next
        }
    }

    /// Writes the code that takes the place of an operator: `bytes` is the operator as it is,
    /// where it lies within the module, and `last` tells that no other operator follows. Where
    /// there is no such code nothing is written.
    pub fn write_operator<'w>(
        &self,
        func: &mut Body<'w>,
        op: Op,
        bytes: Option<&'w [u8]>,
        last: bool,
    ) -> (r: Result<(), Stop>)
        requires
            self.stack > i64::MIN,
            self.frame > i64::MIN,
        ensures
            ({
                let bytes = match bytes {
                    Some(bytes) => Some(bytes@),
                    None => None,
                };
                match (r, self@.rewritten(op, bytes, last)) {
                    (Ok(()), Ok(code)) => final(func)@ == (BodyView {
                        code: old(func)@.code + code,
                        ..old(func)@
                    }),
                    (Err(stop), Err(expected)) => stop == expected && final(func)@ == old(func)@,
                    _ => false,
                }
            }),
    {
        match op {
            Op::RefFunc(index) => {
                let index: u32 = shift(index)?;
                func.instruction(Instr::RefFunc(index));
                assert(func@.code =~= old(func)@.code + seq![instr(Instr::RefFunc(index))]);
            },
            Op::Call(index) => {
                let index: u32 = shift(index)?;
                func.instruction(Instr::Call(index));
                assert(func@.code =~= old(func)@.code + seq![instr(Instr::Call(index))]);
            },
            Op::ReturnCall(index) => {
                let index: u32 = shift(index)?;
                self.write_exit(func);
                func.instruction(Instr::ReturnCall(index));
                assert(func@.code =~= old(func)@.code + self@.exit().push(
                    instr(Instr::ReturnCall(index)),
                ));
            },
            Op::ReturnCallIndirect => {
                match bytes {
                    Some(bytes) => {
                        self.write_exit(func);
                        func.raw(bytes);
                        assert(func@.code =~= old(func)@.code + self@.exit().push(
                            CodeItemView::Raw(bytes@),
                        ));
                    },
                    None => {
                        return Err(Stop::OutOfRange);
                    },
                }
            },
            Op::Return => {
                self.write_exit(func);
                func.instruction(Instr::Return);
                assert(func@.code =~= old(func)@.code + self@.exit().push(instr(Instr::Return)));
            },
            Op::End if last => {
                // This is the last function end.
                if self.takes_stack() {
                    func.instruction(Instr::End);
                    self.write_exit(func);
                    func.instruction(Instr::End);
                    assert(func@.code =~= old(func)@.code + (seq![instr(Instr::End)]
                        + self@.exit()).push(instr(Instr::End)));
                } else {
                    func.instruction(Instr::End);
                    assert(func@.code =~= old(func)@.code + seq![instr(Instr::End)]);
                }
            },
            _ => {
                match bytes {
                    Some(bytes) => {
                        func.raw(bytes);
                        assert(func@.code =~= old(func)@.code + seq![CodeItemView::Raw(bytes@)]);
                    },
                    None => {
                        return Err(Stop::OutOfRange);
                    },
                }
            },
        }
        Ok(())
    }
}

/// The position behind each operator, if the last of them ends at `end`.
fn operator_ends(
    operators: &Vec<Result<Operator, BinaryReaderError>>,
    end: usize,
) -> (r: Vec<usize>)
    ensures
        r@.len() == operators@.len(),
        forall|i: int|
            0 <= i < operators@.len() && operators@[i] is Ok ==> #[trigger] r@[i] == operator_end(
                operators@,
                end,
                i,
            ),
{
    let mut ends: Vec<usize> = Vec::new();
    for i in 0..operators.len()
        invariant
            ends@.len() == i,
            forall|j: int|
                0 <= j < i && operators@[j] is Ok ==> #[trigger] ends@[j] == operator_end(
                    operators@,
                    end,
                    j,
                ),
    {
        let position: usize = if i + 1 == operators.len() {
            end
        } else {
            match (&operators[i], &operators[i + 1]) {
                (_, Ok(next)) => next.offset,
                (Ok(operator), Err(_)) => operator.offset,
                (Err(_), Err(_)) => end,
            }
        };
        ends.push(position);
    }
    ends
}

/// Instruments the body of a function that has these locals and consists of these operators of
/// the module `wasm`, the last of which ends at `end`. The block around the body is of the type
/// `block_type`.
pub fn instrument_body<'w>(
    wasm: &'w [u8],
    locals: Vec<(u32, ValueType)>,
    operators: Vec<Result<Operator, BinaryReaderError>>,
    end: usize,
    metering: &Metering<'_>,
    block_type: BlockType,
) -> (r: Result<Body<'w>, Stop>)
    requires
        metering.stack > i64::MIN,
        metering.frame > i64::MIN,
    ensures
        ({
            let text = BodyText { wasm: wasm@, operators: operators@, end };
            match text.code(metering@, block_type, operators@.len()) {
                Ok(code) => r matches Ok(body) && body@ == (BodyView { locals: locals@, code }),
                Err(stop) => r == Err::<Body<'w>, Stop>(stop),
            }
        }),
{
    let ghost text = BodyText { wasm: wasm@, operators: operators@, end };
    let mut func: Body<'w> = Body { locals, code: Vec::new() };
    if metering.takes_stack() {
        func.instruction(Instr::Block(block_type));
        call_stack_instrumentation(&mut func, metering.stack, metering.frame);
    }
    assert(func@.code =~= metering@.entry(block_type));
    let ends = operator_ends(&operators, end);
    let mut next: usize = 0;
    let mut i: usize = 0;
    for operator in it: operators
        invariant
            it.seq() == operators@,
            i == it.index(),
            ends@.len() == operators@.len(),
            text == (BodyText { wasm: wasm@, operators: operators@, end }),
            forall|j: int|
                0 <= j < operators@.len() && operators@[j] is Ok ==> #[trigger] ends@[j]
                    == text.end_of(j),
            metering.stack > i64::MIN,
            metering.frame > i64::MIN,
            next == text.passed(metering@, i as nat),
            func@.locals == locals@,
            text.code(metering@, block_type, i as nat) == Ok::<Seq<CodeItemView>, Stop>(func@.code),
    {
        proof {
            if text.code(metering@, block_type, (i + 1) as nat) is Err {
                text.lemma_code_stop(metering@, block_type, (i + 1) as nat, operators@.len());
            }
        }
        let operator: Operator = match operator {
            Ok(operator) => operator,
            Err(error) => return Err(Stop::Failed(Error::ParseOperator(error))),
        };
        let ghost before = func@.code;
        let ghost point = next as int;
        next = metering.write_charge(&mut func, next, operator.offset);
        let bytes: Option<&'w [u8]> = slice_at(wasm, &(operator.offset..ends[i]));
        metering.write_operator(&mut func, operator.op, bytes, i == ends.len() - 1)?;
        assert(func@.code =~= before + (metering@.charge(point, operator.offset) + text.rewritten(
            metering@,
            i as int,
        )->Ok_0));
        i += 1;
    }
    Ok(func)
}

} // verus!
