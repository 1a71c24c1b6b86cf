//! What holds of an instrumented function body.
use vstd::prelude::*;

use crate::analysis::{GasPoint, InstrumentationKind};
use crate::code::{gas_call, stack_call, BodyText, MeteringView};
use crate::error::{Error, Stop};
use crate::model::{BlockType, CodeItemView, Instr, Op};

verus! {

/// The code that tells the host of a change of the stack by these two sizes. If one of them is
/// negative there is an instruction more, which does nothing.
pub open spec fn told_of_stack(stack: i64, frame: i64) -> Seq<CodeItemView> {
    if stack < 0 || frame < 0 {
        seq![
            CodeItemView::Instr(Instr::I64Const(stack)),
            CodeItemView::Instr(Instr::I64Const(frame)),
            CodeItemView::Instr(Instr::Nop),
            CodeItemView::Instr(Instr::Call(1)),
        ]
    } else {
        seq![
            CodeItemView::Instr(Instr::I64Const(stack)),
            CodeItemView::Instr(Instr::I64Const(frame)),
            CodeItemView::Instr(Instr::Call(1)),
        ]
    }
}

/// The code that takes the stack of a function: the block around its body is entered, and the host
/// is told the two sizes. There is none for a function that takes nothing.
pub open spec fn taken_on_entry(metering: MeteringView, block_type: BlockType) -> Seq<
    CodeItemView,
> {
    if metering.stack == 0 && metering.frame == 0 {
        Seq::empty()
    } else {
        seq![CodeItemView::Instr(Instr::Block(block_type))] + told_of_stack(
            metering.stack,
            metering.frame,
        )
    }
}

/// The code that gives the stack of a function back: the host is told the two sizes as negative
/// numbers. There is none for a function that takes nothing.
pub open spec fn given_on_exit(metering: MeteringView) -> Seq<CodeItemView> {
    if metering.stack == 0 && metering.frame == 0 {
        Seq::empty()
    } else {
        told_of_stack((0 - metering.stack) as i64, (0 - metering.frame) as i64)
    }
}

/// What a function takes of the stack on entry it gives back on exit. The code on entry, with the
/// block, is as long as the code on exit; a function that takes nothing gets neither.
pub proof fn law_stack_is_given_back(metering: MeteringView, block_type: BlockType)
    ensures
        metering.entry(block_type) == taken_on_entry(metering, block_type),
        metering.exit() == given_on_exit(metering),
        metering.stack >= 0 && metering.frame >= 0 ==> metering.entry(block_type).len()
            == metering.exit().len(),
{
    law_host_is_told_of_stack(metering.stack, metering.frame);
    law_host_is_told_of_stack((0 - metering.stack) as i64, (0 - metering.frame) as i64);
    assert(metering.entry(block_type) =~= taken_on_entry(metering, block_type));
    assert(metering.exit() =~= given_on_exit(metering));
}

/// The host is told of every change of the stack by both of its sizes.
pub proof fn law_host_is_told_of_stack(stack: i64, frame: i64)
    ensures
        stack_call(stack, frame) == told_of_stack(stack, frame),
{
    assert(stack_call(stack, frame) =~= told_of_stack(stack, frame));
}

/// Whether an operator leaves the function; `last` tells that no other operator follows.
pub open spec fn leaves(op: Op, last: bool) -> bool {
    match op {
        Op::Return => true,
        Op::ReturnCall(_) => true,
        Op::ReturnCallIndirect => true,
        Op::End => last,
        _ => false,
    }
}

/// The stack is given back right in front of every instruction that leaves the function, and
/// nowhere else: any other operator is replaced by a single piece of code.
pub proof fn law_every_way_out_gives_back(
    metering: MeteringView,
    op: Op,
    bytes: Option<Seq<u8>>,
    last: bool,
)
    ensures
        metering.rewritten(op, bytes, last) matches Ok(code) ==> if leaves(op, last) {
            let out = code.len() - 1;
            &&& out >= metering.exit().len()
            &&& code.subrange(out - metering.exit().len(), out) == metering.exit()
        } else {
            code.len() == 1
        },
{
    if let Ok(code) = metering.rewritten(op, bytes, last) {
        if leaves(op, last) {
            let out = code.len() - 1;
            assert(code.subrange(out - metering.exit().len(), out) =~= metering.exit());
        }
    }
}

/// The code that each of the first `count` operators contributes.
pub open spec fn contributions(text: BodyText, metering: MeteringView, count: nat) -> Seq<
    Seq<CodeItemView>,
> {
    Seq::new(count, |i: int| text.contribution(metering, i)->Ok_0)
}

/// An instrumented body is the code on entry, followed by what each operator contributes, in
/// order: nothing is lost, and nothing else is added. There is such a body if and only if every
/// operator can be instrumented; otherwise the first one that cannot decides.
pub proof fn law_body_is_entry_and_contributions(
    text: BodyText,
    metering: MeteringView,
    block_type: BlockType,
    count: nat,
)
    ensures
        text.code(metering, block_type, count) is Ok <==> forall|i: int|
            0 <= i < count ==> (#[trigger] text.contribution(metering, i)) is Ok,
        text.code(metering, block_type, count) matches Ok(code) ==> code == metering.entry(
            block_type,
        ) + contributions(text, metering, count).flatten(),
        text.code(metering, block_type, count) matches Err(stop) ==> exists|k: int|
            0 <= k < count && #[trigger] text.contribution(metering, k) == Err::<
                Seq<CodeItemView>,
                Stop,
            >(stop) && forall|i: int|
                0 <= i < k ==> (#[trigger] text.contribution(metering, i)) is Ok,
    decreases count,
{
    let parts = contributions(text, metering, count);
    if count == 0 {
        assert(metering.entry(block_type) + parts.flatten() =~= metering.entry(block_type));
    } else {
        let earlier = contributions(text, metering, (count - 1) as nat);
        law_body_is_entry_and_contributions(text, metering, block_type, (count - 1) as nat);
        if text.code(metering, block_type, count) is Ok {
            assert(parts =~= earlier.push(text.contribution(metering, count - 1)->Ok_0));
            earlier.lemma_flatten_push(text.contribution(metering, count - 1)->Ok_0);
            assert(text.code(metering, block_type, count)->Ok_0 =~= metering.entry(block_type)
                + parts.flatten());
        } else if text.code(metering, block_type, (count - 1) as nat) is Ok {
            assert(text.contribution(metering, count - 1) is Err);
        }
    }
}

/// The amount of gas that the host reads back from what it is handed is the amount that is
/// charged; where nothing is charged the host is not called.
pub proof fn law_gas_is_read_back(gas: u64)
    ensures
        gas == 0 ==> gas_call(gas).len() == 0,
        gas != 0 ==> exists|amount: i64|
            (#[trigger] (amount as u64)) == gas && gas_call(gas) == seq![
                CodeItemView::Instr(Instr::I64Const(amount)),
                CodeItemView::Instr(Instr::Call(0)),
            ],
{
    assert((gas as i64) as u64 == gas) by (bit_vector);
}

/// That the operators follow each other in the module, and so do the points where gas is charged,
/// each of which lies at an operator.
pub open spec fn well_placed(text: BodyText, metering: MeteringView) -> bool {
    &&& forall|i: int| 0 <= i < text.operators.len() ==> (#[trigger] text.operators[i]) is Ok
    &&& forall|i: int, j: int|
        0 <= i < j < text.operators.len() ==> (#[trigger] text.operators[i])->Ok_0.offset < (
        #[trigger] text.operators[j])->Ok_0.offset
    &&& forall|p: int, q: int|
        0 <= p < q < metering.points.len() ==> (#[trigger] metering.points[p]).offset < (
        #[trigger] metering.points[q]).offset
    &&& forall|p: int|
        0 <= p < metering.points.len() ==> is_operator_offset(
            text,
            (#[trigger] metering.points[p]).offset,
        )
}

/// That an operator lies at `offset`.
pub open spec fn is_operator_offset(text: BodyText, offset: usize) -> bool {
    exists|i: int|
        0 <= i < text.operators.len() && (#[trigger] text.operators[i])->Ok_0.offset == offset
}

/// The code that charges for a point: none if it is unreachable.
pub open spec fn charge_for(point: GasPoint) -> Seq<CodeItemView> {
    if point.kind == InstrumentationKind::Unreachable {
        Seq::empty()
    } else {
        gas_call(point.cost)
    }
}

proof fn lemma_passed(text: BodyText, metering: MeteringView, count: nat)
    requires
        well_placed(text, metering),
        count <= text.operators.len(),
    ensures
        text.passed(metering, count) <= metering.points.len(),
        forall|p: int, i: int|
            0 <= p < text.passed(metering, count) && count <= i < text.operators.len() ==> (
            #[trigger] metering.points[p]).offset < (#[trigger] text.operators[i])->Ok_0.offset,
        forall|p: int, i: int|
            text.passed(metering, count) <= p < metering.points.len() && 0 <= i < count ==> (
            #[trigger] metering.points[p]).offset > (#[trigger] text.operators[i])->Ok_0.offset,
    decreases count,
{
    if count > 0 {
        lemma_passed(text, metering, (count - 1) as nat);
        let before = text.passed(metering, (count - 1) as nat) as int;
        let offset = text.operators[count - 1]->Ok_0.offset;
        if before < metering.points.len() {
            let point = metering.points[before].offset;
            assert(is_operator_offset(text, point));
            let k = choose|k: int|
                0 <= k < text.operators.len() && (#[trigger] text.operators[k])->Ok_0.offset
                    == point;
            assert(k >= count - 1);
            assert(point >= offset);
        }
    }
}

/// Where the points lie at operators, in order, each is reached exactly once, right in front of the
/// operator that it lies at, and is charged for there unless it is unreachable; in front of any
/// other operator nothing is charged.
pub proof fn law_gas_is_charged_at_its_operator(text: BodyText, metering: MeteringView)
    requires
        well_placed(text, metering),
    ensures
        text.passed(metering, text.operators.len()) == metering.points.len(),
        forall|i: int, p: int|
            0 <= i < text.operators.len() && 0 <= p < metering.points.len() && (
            #[trigger] metering.points[p]).offset == (#[trigger] text.operators[i])->Ok_0.offset
                ==> text.passed(metering, i as nat) == p && text.passed(metering, (i + 1) as nat)
                == p + 1 && metering.charge(p, metering.points[p].offset) == charge_for(
                metering.points[p],
            ),
        forall|i: int|
            0 <= i < text.operators.len() && (forall|p: int|
                0 <= p < metering.points.len() ==> (#[trigger] metering.points[p]).offset
                    != text.operators[i]->Ok_0.offset) ==> metering.charge(
                text.passed(metering, i as nat) as int,
                (#[trigger] text.operators[i])->Ok_0.offset,
            ).len() == 0,
{
    let all = text.operators.len();
    lemma_passed(text, metering, all);
    let passed = text.passed(metering, all) as int;
    if passed < metering.points.len() {
        let point = metering.points[passed].offset;
        assert(is_operator_offset(text, point));
        let k = choose|k: int|
            0 <= k < text.operators.len() && (#[trigger] text.operators[k])->Ok_0.offset == point;
        assert(false);
    }
    assert forall|i: int, p: int|
        0 <= i < text.operators.len() && 0 <= p < metering.points.len() && (
        #[trigger] metering.points[p]).offset == (
        #[trigger] text.operators[i])->Ok_0.offset implies text.passed(metering, i as nat) == p
        && text.passed(metering, (i + 1) as nat) == p + 1 && metering.charge(
        p,
        metering.points[p].offset,
    ) == charge_for(metering.points[p]) by {
        lemma_passed(text, metering, i as nat);
        let before = text.passed(metering, i as nat) as int;
        assert(before <= p);
        if before < p {
            let point = metering.points[before].offset;
            assert(is_operator_offset(text, point));
            let k = choose|k: int|
                0 <= k < text.operators.len() && (#[trigger] text.operators[k])->Ok_0.offset
                    == point;
            assert(k >= i);
            assert(point < metering.points[p].offset);
            assert(false);
        }
    }
}

/// That `code` is the charge for a point: the host reads the cost of the point back from what it is
/// handed. There is no charge if the point is unreachable or costs nothing.
pub open spec fn pays(point: GasPoint, code: Seq<CodeItemView>) -> bool {
    if point.kind == InstrumentationKind::Unreachable || point.cost == 0 {
        code.len() == 0
    } else {
        &&& code.len() == 2
        &&& code[0] matches CodeItemView::Instr(Instr::I64Const(amount)) && amount as u64
            == point.cost
        &&& code[1] == CodeItemView::Instr(Instr::Call(0))
    }
}

/// The position behind the operator `i`: of the operators of a body each begins where the one in
/// front of it ends. In front of bytes that are no operator none is copied.
pub open spec fn next_offset(text: BodyText, i: int) -> int {
    if i == text.operators.len() - 1 {
        text.end as int
    } else if text.operators[i + 1] is Ok {
        text.operators[i + 1]->Ok_0.offset as int
    } else {
        text.operators[i]->Ok_0.offset as int
    }
}

/// That the operator `i` lies within the module.
pub open spec fn is_within(text: BodyText, i: int) -> bool {
    text.operators[i]->Ok_0.offset <= next_offset(text, i) <= text.wasm.len()
}

/// That `code` is the operator `i` as it is.
pub open spec fn is_copy(text: BodyText, i: int, code: CodeItemView) -> bool {
    &&& is_within(text, i)
    &&& code == CodeItemView::Raw(
        text.wasm.subrange(text.operators[i]->Ok_0.offset as int, next_offset(text, i)),
    )
}

/// That `code` takes the place of the operator `i`. An operator that names a function names it by
/// an index that is larger by two. One that leaves the function gives the stack back first; the one
/// that closes the body of a function that takes stack closes the block around it first. Any other
/// operator is copied.
pub open spec fn replaces(
    text: BodyText,
    metering: MeteringView,
    i: int,
    code: Seq<CodeItemView>,
) -> bool {
    let out = given_on_exit(metering);
    match text.operators[i]->Ok_0.op {
        Op::RefFunc(index) => {
            &&& code.len() == 1
            &&& code[0] matches CodeItemView::Instr(Instr::RefFunc(moved)) && moved == index + 2
        },
        Op::Call(index) => {
            &&& code.len() == 1
            &&& code[0] matches CodeItemView::Instr(Instr::Call(moved)) && moved == index + 2
        },
        Op::ReturnCall(index) => {
            &&& code == out + seq![code.last()]
            &&& code.last() matches CodeItemView::Instr(Instr::ReturnCall(moved)) && moved == index
                + 2
        },
        Op::ReturnCallIndirect => code == out + seq![code.last()] && is_copy(text, i, code.last()),
        Op::Return => code == out + seq![CodeItemView::Instr(Instr::Return)],
        Op::End if i == text.operators.len() - 1 => {
            let end = seq![CodeItemView::Instr(Instr::End)];
            if metering.stack == 0 && metering.frame == 0 {
                code == end
            } else {
                code == end + out + end
            }
        },
        _ => code.len() == 1 && is_copy(text, i, code[0]),
    }
}

/// Why the operator `i` cannot be replaced: it names a function whose index leaves no room for the
/// functions of the host, or it would have to be copied and does not lie within the module.
pub open spec fn irreplaceable(text: BodyText, i: int, stop: Stop) -> bool {
    &&& stop == Stop::OutOfRange
    &&& match text.operators[i]->Ok_0.op {
        Op::RefFunc(index) => index + 2 > u32::MAX,
        Op::Call(index) => index + 2 > u32::MAX,
        Op::ReturnCall(index) => index + 2 > u32::MAX,
        Op::Return => false,
        Op::End => i < text.operators.len() - 1 && !is_within(text, i),
        _ => !is_within(text, i),
    }
}

/// In front of an operator the next point is charged for if it lies there, and no other.
pub proof fn law_next_point_is_charged(metering: MeteringView, next: int, offset: usize)
    requires
        0 <= next,
    ensures
        if next < metering.points.len() && metering.points[next].offset == offset {
            pays(metering.points[next], metering.charge(next, offset))
        } else {
            metering.charge(next, offset).len() == 0
        },
{
    if next < metering.points.len() {
        law_gas_is_read_back(metering.points[next].cost);
    }
}

/// The points are gone through in the order in which they are listed: none before the first
/// operator, and then at each operator the next point, if it lies there, and no other.
pub proof fn law_points_are_gone_through_in_order(text: BodyText, metering: MeteringView, i: int)
    requires
        0 <= i < text.operators.len(),
    ensures
        text.passed(metering, 0) == 0,
        ({
            let next = text.passed(metering, i as nat) as int;
            let offset = text.operators[i]->Ok_0.offset;
            if next < metering.points.len() && metering.points[next].offset == offset {
                text.passed(metering, (i + 1) as nat) == next + 1
            } else {
                text.passed(metering, (i + 1) as nat) == next
            }
        }),
{
}

/// Every operator contributes the charge for the next point, if that lies at the operator, and
/// then what takes the place of the operator, whatever operator it is. What cannot be read is
/// refused.
pub proof fn law_operator_is_charged_and_replaced(text: BodyText, metering: MeteringView, i: int)
    requires
        0 <= i < text.operators.len(),
    ensures
        ({
            let next = text.passed(metering, i as nat) as int;
            let is_due = next < metering.points.len() && metering.points[next].offset
                == text.operators[i]->Ok_0.offset;
            match text.contribution(metering, i) {
                Ok(code) => text.operators[i] is Ok && exists|
                    charge: Seq<CodeItemView>,
                    rest: Seq<CodeItemView>,
                |
                    {
                        &&& code == #[trigger] (charge + rest)
                        &&& is_due ==> pays(metering.points[next], charge)
                        &&& !is_due ==> charge.len() == 0
                        &&& replaces(text, metering, i, rest)
                    },
                Err(stop) => match text.operators[i] {
                    Ok(_) => irreplaceable(text, i, stop),
                    Err(error) => stop == Stop::Failed(Error::ParseOperator(error)),
                },
            }
        }),
{
    let next = text.passed(metering, i as nat) as int;
    let offset = text.operators[i]->Ok_0.offset;
    law_stack_is_given_back(metering, BlockType::Empty);
    if let Ok(code) = text.contribution(metering, i) {
        let charge = metering.charge(next, offset);
        let rest = text.rewritten(metering, i)->Ok_0;
        law_next_point_is_charged(metering, next, offset);
        let out = given_on_exit(metering);
        let end = seq![CodeItemView::Instr(Instr::End)];
        match text.operators[i]->Ok_0.op {
            Op::ReturnCall(_) => {
                assert(rest =~= out + seq![rest.last()]);
            },
            Op::ReturnCallIndirect => {
                assert(rest =~= out + seq![rest.last()]);
            },
            Op::Return => {
                assert(rest =~= out + seq![CodeItemView::Instr(Instr::Return)]);
            },
            Op::End if i == text.operators.len() - 1 => {
                if metering.takes_stack() {
                    assert(rest =~= end + out + end);
                } else {
                    assert(rest =~= end);
                }
            },
            _ => {},
        }
        assert(replaces(text, metering, i, rest));
        assert(code == charge + rest);
    }
}

/// Where the points lie at operators, in order, an operator that a point lies at contributes the
/// charge for that point and then what takes its place; any other operator contributes the latter
/// alone. This holds of every kind of operator.
pub proof fn law_contribution_has_its_charge(text: BodyText, metering: MeteringView, i: int)
    requires
        well_placed(text, metering),
        0 <= i < text.operators.len(),
    ensures
        text.contribution(metering, i) matches Ok(code) ==> {
            &&& forall|p: int|
                0 <= p < metering.points.len() && (#[trigger] metering.points[p]).offset
                    == text.operators[i]->Ok_0.offset ==> exists|
                    charge: Seq<CodeItemView>,
                    rest: Seq<CodeItemView>,
                |
                    {
                        &&& code == #[trigger] (charge + rest)
                        &&& charge == charge_for(metering.points[p])
                        &&& pays(metering.points[p], charge)
                        &&& replaces(text, metering, i, rest)
                    }
            &&& (forall|p: int|
                0 <= p < metering.points.len() ==> (#[trigger] metering.points[p]).offset
                    != text.operators[i]->Ok_0.offset) ==> replaces(text, metering, i, code)
        },
        text.contribution(metering, i) matches Err(stop) ==> irreplaceable(text, i, stop),
{
    law_operator_is_charged_and_replaced(text, metering, i);
    law_gas_is_charged_at_its_operator(text, metering);
    let next = text.passed(metering, i as nat) as int;
    lemma_passed(text, metering, i as nat);
    if let Ok(code) = text.contribution(metering, i) {
        let (charge, rest) = choose|charge: Seq<CodeItemView>, rest: Seq<CodeItemView>|
            {
                let is_due = next < metering.points.len() && metering.points[next].offset
                    == text.operators[i]->Ok_0.offset;
                &&& code == #[trigger] (charge + rest)
                &&& is_due ==> pays(metering.points[next], charge)
                &&& !is_due ==> charge.len() == 0
                &&& replaces(text, metering, i, rest)
            };
        assert forall|p: int|
            0 <= p < metering.points.len() && (#[trigger] metering.points[p]).offset
                == text.operators[i]->Ok_0.offset implies exists|
            charge: Seq<CodeItemView>,
            rest: Seq<CodeItemView>,
        |
            {
                &&& code == #[trigger] (charge + rest)
                &&& charge == charge_for(metering.points[p])
                &&& pays(metering.points[p], charge)
                &&& replaces(text, metering, i, rest)
            } by {
            assert(next == p);
            law_gas_is_read_back(metering.points[p].cost);
            lemma_pays_once(metering.points[p], charge);
        }
        if forall|p: int|
            0 <= p < metering.points.len() ==> (#[trigger] metering.points[p]).offset
                != text.operators[i]->Ok_0.offset {
            assert(charge + rest =~= rest);
        }
    }
}

proof fn lemma_pays_once(point: GasPoint, charge: Seq<CodeItemView>)
    requires
        pays(point, charge),
    ensures
        charge == charge_for(point),
{
    law_gas_is_read_back(point.cost);
    if point.kind != InstrumentationKind::Unreachable && point.cost != 0 {
        let amount = charge[0]->Instr_0->I64Const_0;
        let cost = point.cost;
        assert(amount == cost as i64) by (bit_vector)
            requires
                amount as u64 == cost,
        ;
    }
    assert(charge =~= charge_for(point));
}

/// A function that takes nothing of the stack and has no points is left as it is, but for the
/// indices of functions: each operator is replaced by a single piece of code, which mostly is the
/// operator itself.
pub proof fn law_unmetered_body_is_kept(
    text: BodyText,
    metering: MeteringView,
    block_type: BlockType,
    i: int,
)
    requires
        metering.stack == 0,
        metering.frame == 0,
        metering.points.len() == 0,
        0 <= i < text.operators.len(),
    ensures
        metering.entry(block_type).len() == 0,
        text.contribution(metering, i) matches Ok(code) ==> {
            &&& code.len() == 1
            &&& text.operators[i]->Ok_0.op == Op::Other ==> code[0] == CodeItemView::Raw(
                text.wasm.subrange(
                    text.operators[i]->Ok_0.offset as int,
                    text.end_of(i) as int,
                ),
            )
        },
{
    if let Ok(code) = text.contribution(metering, i) {
        let last = i + 1 == text.operators.len();
        assert(metering.exit() =~= Seq::empty());
        assert(code =~= text.rewritten(metering, i)->Ok_0);
    }
}

} // verus!
