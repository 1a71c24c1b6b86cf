//! What the instrumentation is told about the functions of a module.
use vstd::prelude::*;

verus! {

/// What an instrumentation point lies in front of.
#[derive(Clone, Copy, Debug, PartialEq, Eq, Structural)]
pub enum InstrumentationKind {
    /// Operators that only compute.
    Pure,
    /// Operators that are followed by a change of control flow.
    PreControlFlow,
    /// Operators that are preceded by a change of control flow.
    PostControlFlow,
    /// Operators between two changes of control flow.
    BetweenControlFlow,
    /// Operators that are never executed.
    Unreachable,
}

/// The outcome of the analysis of a module.
///
/// Each list has one entry for each function body, in the order of the code section. The three
/// lists on gas describe, point by point, where gas is charged, how much, and in front of what.
#[derive(Debug)]
pub struct AnalysisOutcome {
    /// The largest size, in bytes, that the operand stack of the function may have.
    pub function_operand_stack_sizes: Vec<u64>,
    /// The size, in bytes, of the frame of the function.
    pub function_frame_sizes: Vec<u64>,
    /// The positions of the operators, counted from the beginning of the module.
    pub gas_offsets: Vec<Vec<usize>>,
    /// The gas that is charged.
    pub gas_costs: Vec<Vec<u64>>,
    /// What is charged for.
    pub gas_kinds: Vec<Vec<InstrumentationKind>>,
}

/// A place where gas is charged.
pub struct GasPoint {
    pub offset: usize,
    pub cost: u64,
    pub kind: InstrumentationKind,
}

#[verifier::ext_equal]
pub struct AnalysisView {
    pub function_operand_stack_sizes: Seq<u64>,
    pub function_frame_sizes: Seq<u64>,
    pub gas_offsets: Seq<Seq<usize>>,
    pub gas_costs: Seq<Seq<u64>>,
    pub gas_kinds: Seq<Seq<InstrumentationKind>>,
}

impl View for AnalysisOutcome {
    type V = AnalysisView;

    open spec fn view(&self) -> AnalysisView {
        AnalysisView {
            function_operand_stack_sizes: self.function_operand_stack_sizes@,
            function_frame_sizes: self.function_frame_sizes@,
            gas_offsets: self.gas_offsets@.map_values(|v: Vec<usize>| v@),
            gas_costs: self.gas_costs@.map_values(|v: Vec<u64>| v@),
            gas_kinds: self.gas_kinds@.map_values(|v: Vec<InstrumentationKind>| v@),
        }
    }
}

/// The instrumentation points of which the three lists speak, as far as the shortest reaches.
pub open spec fn gas_points(
    offsets: Seq<usize>,
    costs: Seq<u64>,
    kinds: Seq<InstrumentationKind>,
) -> Seq<GasPoint> {
    let count = if offsets.len() <= costs.len() {
        offsets.len()
    } else {
        costs.len()
    };
    Seq::new(
        if count <= kinds.len() {
            count
        } else {
            kinds.len()
        },
        |i: int| GasPoint { offset: offsets[i], cost: costs[i], kind: kinds[i] },
    )
}

} // verus!
