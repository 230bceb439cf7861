use vstd::prelude::*;

use crate::ast::Node;
use crate::flow_graph::basic_block::BasicBlock;
use crate::flow_graph::flow_instruction::{
    extends_plainly, finds_operands, lemma_finds_operands_push, lemma_net_effect_push, net_effect,
    FlowInstruction,
};
use crate::flow_graph::lowering::{lower_expression, LoweringError, LoweringErrorKind};
use crate::flow_graph::nodes::expression::evaluate_expression;
use crate::flow_graph::scope::{parents_precede, ScopeArena};
use crate::source_location::SourcePosition;

verus! {

/// Lowers a `return` statement found at `at`: the argument is evaluated and
/// becomes the return value. A `return` without an argument is refused.
/// Where the statement is refused, nothing is emitted: the block is left as
/// it was.
pub fn handle_return_statement(
    block: &mut BasicBlock,
    scopes: &ScopeArena,
    argument: &Option<Box<Node>>,
    at: SourcePosition,
) -> (result: Result<(), LoweringError>)
    requires
        parents_precede(scopes@),
        old(block).scope.0 < scopes@.len(),
    ensures
        match result {
            Ok(()) => argument matches Some(argument) && lower_expression(
                scopes@,
                old(block).scope,
                **argument,
            ) matches Ok(code) && final(block)@ == old(block)@.append(code).push(
                FlowInstruction::ReturnValue,
            ) && net_effect(final(block)@.instructions) == net_effect(old(block)@.instructions),
            Err(error) => final(block)@ == old(block)@ && match argument {
                Some(argument) => lower_expression(
                    scopes@,
                    old(block).scope,
                    **argument,
                ) matches Err(e) && e == error,
                None => error == (LoweringError {
                    kind: LoweringErrorKind::ReturnWithoutArgument,
                    at,
                }),
            },
        },
        final(block).id == old(block).id,
        final(block).scope == old(block).scope,
        extends_plainly(old(block)@.instructions, final(block)@.instructions),
        result is Ok && finds_operands(old(block)@.instructions, 0) && net_effect(
            old(block)@.instructions,
        ) >= 0 ==> finds_operands(final(block)@.instructions, 0),
{
    match argument {
        Some(argument) => {
            match evaluate_expression(block, scopes, argument) {
                Ok(()) => {},
                Err(error) => {
                    return Err(error);
                },
            }
            proof {
                lemma_net_effect_push(block@.instructions, FlowInstruction::ReturnValue);
                lemma_finds_operands_push(block@.instructions, FlowInstruction::ReturnValue, 0);
            }
            block.push(FlowInstruction::ReturnValue);
            Ok(())
        },
        None => Err(LoweringError { kind: LoweringErrorKind::ReturnWithoutArgument, at }),
    }
}

} // verus!
