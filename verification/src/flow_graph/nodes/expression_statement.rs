use vstd::prelude::*;

use crate::ast::Node;
use crate::flow_graph::basic_block::BasicBlock;
use crate::flow_graph::flow_instruction::{
    extends_plainly, finds_operands, lemma_finds_operands_push, lemma_net_effect_push, net_effect,
    FlowInstruction,
};
use crate::flow_graph::lowering::{lower_expression, LoweringError};
use crate::flow_graph::nodes::expression::evaluate_expression;
use crate::flow_graph::scope::{parents_precede, ScopeArena};

verus! {

/// Lowers an expression statement: the expression is evaluated and its value
/// dropped. Where the expression is refused, the block is left as it was.
pub fn handle_expression_statement(
    parent_block: &mut BasicBlock,
    scopes: &ScopeArena,
    expression: &Node,
) -> (result: Result<(), LoweringError>)
    requires
        parents_precede(scopes@),
        old(parent_block).scope.0 < scopes@.len(),
    ensures
        match result {
            Ok(()) => lower_expression(scopes@, old(parent_block).scope, *expression) matches Ok(
                code,
            ) && final(parent_block)@ == old(parent_block)@.append(code).push(
                FlowInstruction::DiscardValue,
            ) && net_effect(final(parent_block)@.instructions) == net_effect(
                old(parent_block)@.instructions,
            ),
            Err(error) => lower_expression(
                scopes@,
                old(parent_block).scope,
                *expression,
            ) matches Err(e) && e == error && final(parent_block)@ == old(parent_block)@,
        },
        final(parent_block).id == old(parent_block).id,
        final(parent_block).scope == old(parent_block).scope,
        extends_plainly(old(parent_block)@.instructions, final(parent_block)@.instructions),
        result is Ok && finds_operands(old(parent_block)@.instructions, 0) && net_effect(
            old(parent_block)@.instructions,
        ) >= 0 ==> finds_operands(final(parent_block)@.instructions, 0),
{
    match evaluate_expression(parent_block, scopes, expression) {
        Ok(()) => {},
        Err(error) => {
            return Err(error);
        },
    }
    proof {
        lemma_net_effect_push(parent_block@.instructions, FlowInstruction::DiscardValue);
        lemma_finds_operands_push(parent_block@.instructions, FlowInstruction::DiscardValue, 0);
    }
    parent_block.instructions.push(FlowInstruction::DiscardValue);
    Ok(())
}

} // verus!
