use vstd::prelude::*;

use super::basic_block::BasicBlockId;
use super::value::SystemFunction;
use crate::ast::BinaryOperator;

verus! {

/// An instruction of the intermediate representation. Instructions work on
/// an abstract operand stack and never transfer control between blocks.
pub enum FlowInstruction {
    FunctionPrologue,
    FunctionEpilogue,
    Assign,
    PushLiteralBoolean(bool),
    PushLiteralString(String),
    PushLiteralNumber(u64),
    PushLiteralNull,
    PushFunctionParameter(usize),
    PushStackVariable(usize),
    ApplyBinaryOperator(BinaryOperator),
    CallFunction { basic_block_id: BasicBlockId, argument_count: usize },
    CallSystemFunction(SystemFunction),
    ReturnValue,
    Return,
    GoToBlock(BasicBlockId),
    DiscardValue,
}

impl FlowInstruction {
    /// By how much the instruction changes the depth of the operand stack.
    pub open spec fn stack_effect(self) -> int {
        match self {
            FlowInstruction::FunctionPrologue => 0,
            FlowInstruction::FunctionEpilogue => 0,
            FlowInstruction::Assign => -2,
            FlowInstruction::PushLiteralBoolean(_) => 1,
            FlowInstruction::PushLiteralString(_) => 1,
            FlowInstruction::PushLiteralNumber(_) => 1,
            FlowInstruction::PushLiteralNull => 1,
            FlowInstruction::PushFunctionParameter(_) => 1,
            FlowInstruction::PushStackVariable(_) => 1,
            FlowInstruction::ApplyBinaryOperator(_) => -1,
            FlowInstruction::CallFunction { argument_count, .. } => 1 - argument_count,
            FlowInstruction::CallSystemFunction(function) => 1 - function.spec_arity(),
            FlowInstruction::ReturnValue => -1,
            FlowInstruction::Return => 0,
            FlowInstruction::GoToBlock(_) => 0,
            FlowInstruction::DiscardValue => -1,
        }
    }

    /// How many operands the instruction takes from the operand stack.
    pub open spec fn operands(self) -> int {
        match self {
            FlowInstruction::Assign => 2,
            FlowInstruction::ApplyBinaryOperator(_) => 2,
            FlowInstruction::CallFunction { argument_count, .. } => argument_count as int,
            FlowInstruction::CallSystemFunction(function) => function.spec_arity() as int,
            FlowInstruction::ReturnValue => 1,
            FlowInstruction::DiscardValue => 1,
            _ => 0,
        }
    }

    /// Whether the instruction is one of a statement's own: it neither opens
    /// nor closes a frame, and it does not transfer control.
    pub open spec fn is_plain(self) -> bool {
        !(self is FunctionPrologue) && !(self is FunctionEpilogue) && !(self is GoToBlock)
    }

    /// A copy of the instruction.
    pub fn duplicate(&self) -> (copy: FlowInstruction)
        ensures
            copy == *self,
    {
        match self {
            FlowInstruction::FunctionPrologue => FlowInstruction::FunctionPrologue,
            FlowInstruction::FunctionEpilogue => FlowInstruction::FunctionEpilogue,
            FlowInstruction::Assign => FlowInstruction::Assign,
            FlowInstruction::PushLiteralBoolean(literal) => FlowInstruction::PushLiteralBoolean(
                *literal,
            ),
            FlowInstruction::PushLiteralString(literal) => FlowInstruction::PushLiteralString(
                literal.clone(),
            ),
            FlowInstruction::PushLiteralNumber(literal) => FlowInstruction::PushLiteralNumber(
                *literal,
            ),
            FlowInstruction::PushLiteralNull => FlowInstruction::PushLiteralNull,
            FlowInstruction::PushFunctionParameter(index) => FlowInstruction::PushFunctionParameter(
                *index,
            ),
            FlowInstruction::PushStackVariable(offset) => FlowInstruction::PushStackVariable(
                *offset,
            ),
            FlowInstruction::ApplyBinaryOperator(operator) => FlowInstruction::ApplyBinaryOperator(
                *operator,
            ),
            FlowInstruction::CallFunction { basic_block_id, argument_count } => {
                FlowInstruction::CallFunction {
                    basic_block_id: *basic_block_id,
                    argument_count: *argument_count,
                }
            },
            FlowInstruction::CallSystemFunction(function) => FlowInstruction::CallSystemFunction(
                function.duplicate(),
            ),
            FlowInstruction::ReturnValue => FlowInstruction::ReturnValue,
            FlowInstruction::Return => FlowInstruction::Return,
            FlowInstruction::GoToBlock(basic_block_id) => FlowInstruction::GoToBlock(
                *basic_block_id,
            ),
            FlowInstruction::DiscardValue => FlowInstruction::DiscardValue,
        }
    }
}

/// The sum of the stack effects of a sequence of instructions.
pub open spec fn net_effect(code: Seq<FlowInstruction>) -> int
    decreases code.len(),
{
    if code.len() == 0 {
        0
    } else {
        net_effect(code.drop_last()) + code.last().stack_effect()
    }
}

/// Appending one instruction adds its effect.
pub proof fn lemma_net_effect_push(code: Seq<FlowInstruction>, instruction: FlowInstruction)
    ensures
        net_effect(code.push(instruction)) == net_effect(code) + instruction.stack_effect(),
{
    assert(code.push(instruction).drop_last() == code);
}

/// The effect of a concatenation is the sum of the effects of its parts.
pub proof fn lemma_net_effect_concat(first: Seq<FlowInstruction>, second: Seq<FlowInstruction>)
    ensures
        net_effect(first + second) == net_effect(first) + net_effect(second),
    decreases second.len(),
{
    if second.len() == 0 {
        assert(first + second == first);
    } else {
        lemma_net_effect_concat(first, second.drop_last());
        assert((first + second).drop_last() == first + second.drop_last());
        assert((first + second).last() == second.last());
    }
}

/// Whether no instruction of `code` opens or closes a frame or transfers
/// control.
pub open spec fn all_plain(code: Seq<FlowInstruction>) -> bool {
    forall|index: int| 0 <= index < code.len() ==> (#[trigger] code[index]).is_plain()
}

/// Whether `after` is `before` with instructions appended of which none
/// opens or closes a frame or transfers control.
pub open spec fn extends_plainly(
    before: Seq<FlowInstruction>,
    after: Seq<FlowInstruction>,
) -> bool {
    &&& before.len() <= after.len()
    &&& forall|index: int|
        0 <= index < after.len() ==> if index < before.len() {
            (#[trigger] after[index]) == before[index]
        } else {
            after[index].is_plain()
        }
}

/// Whether every instruction of `code` finds its operands on the operand
/// stack when the code runs from a stack of depth `depth`.
pub open spec fn finds_operands(code: Seq<FlowInstruction>, depth: int) -> bool
    decreases code.len(),
{
    if code.len() == 0 {
        true
    } else {
        &&& finds_operands(code.drop_last(), depth)
        &&& depth + net_effect(code.drop_last()) >= code.last().operands()
    }
}

/// Code with one more instruction finds its operands where the code before
/// does and leaves enough for the instruction.
pub proof fn lemma_finds_operands_push(
    code: Seq<FlowInstruction>,
    instruction: FlowInstruction,
    depth: int,
)
    ensures
        finds_operands(code.push(instruction), depth) <==> (finds_operands(code, depth) && depth
            + net_effect(code) >= instruction.operands()),
{
    assert(code.push(instruction).drop_last() == code);
}

/// A concatenation finds its operands where the first part does, and the
/// second part does from the depth that the first part leaves.
pub proof fn lemma_finds_operands_concat(
    first: Seq<FlowInstruction>,
    second: Seq<FlowInstruction>,
    depth: int,
)
    ensures
        finds_operands(first + second, depth) <==> (finds_operands(first, depth)
            && finds_operands(second, depth + net_effect(first))),
    decreases second.len(),
{
    if second.len() == 0 {
        assert(first + second == first);
    } else {
        lemma_finds_operands_concat(first, second.drop_last(), depth);
        lemma_net_effect_concat(first, second.drop_last());
        assert((first + second).drop_last() == first + second.drop_last());
        assert((first + second).last() == second.last());
    }
}

/// Code that finds its operands from some depth finds them from any deeper
/// stack.
pub proof fn lemma_finds_operands_deeper(code: Seq<FlowInstruction>, depth: int, deeper: int)
    requires
        finds_operands(code, depth),
        depth <= deeper,
    ensures
        finds_operands(code, deeper),
    decreases code.len(),
{
    if code.len() > 0 {
        lemma_finds_operands_deeper(code.drop_last(), depth, deeper);
    }
}

} // verus!
