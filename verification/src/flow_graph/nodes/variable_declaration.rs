use vstd::prelude::*;

use crate::ast::{Node, NodeKind};
use crate::flow_graph::basic_block::BasicBlock;
use crate::flow_graph::flow_instruction::{
    extends_plainly, finds_operands, lemma_finds_operands_push, lemma_net_effect_push, net_effect,
    FlowInstruction,
};
use crate::flow_graph::lowering::{
    lower_declarations, lower_expression, scopes_kept, LoweringError, LoweringErrorKind,
    VARIABLE_SLOT_SIZE,
};
use crate::flow_graph::nodes::expression::{evaluate_expression, lookup_identifier};
use crate::flow_graph::scope::{parents_precede, resolve, Id, ScopeArena, ScopeId, ScopeView};
use crate::flow_graph::value::{Value, ValueView};

verus! {

/// The scopes stay well placed and consistent when one of them allocates a
/// slot and binds a name to it, and the name then resolves to that binding.
pub proof fn lemma_declaring_keeps_scopes(
    scopes: Seq<ScopeView>,
    scope: ScopeId,
    name: Seq<char>,
    value: ValueView,
)
    requires
        scope.0 < scopes.len(),
        parents_precede(scopes),
        forall|i: int| 0 <= i < scopes.len() ==> (#[trigger] scopes[i]).wf(),
        scopes[scope.0 as int].stack_offset + VARIABLE_SLOT_SIZE <= usize::MAX,
    ensures
        ({
            let declared = scopes.update(
                scope.0 as int,
                scopes[scope.0 as int].allocate(VARIABLE_SLOT_SIZE).insert(name, value),
            );
            &&& parents_precede(declared)
            &&& forall|i: int| 0 <= i < declared.len() ==> (#[trigger] declared[i]).wf()
            &&& resolve(declared, scope, name) == Some(value)
        }),
{
    let declared = scopes.update(
        scope.0 as int,
        scopes[scope.0 as int].allocate(VARIABLE_SLOT_SIZE).insert(name, value),
    );
    assert forall|i: int| 0 <= i < declared.len() implies (#[trigger] declared[i]).wf() by {
        assert(scopes[i].wf());
    }
    assert forall|i: int| 0 <= i < declared.len() implies (#[trigger] declared[i].parent matches Some(
        parent,
    ) ==> parent.0 < i) by {
        assert(declared[i].parent == scopes[i].parent);
    }
    assert(declared[scope.0 as int].bindings.last() == (name, value));
}

/// Lowers the declarators of a variable declaration, in order: each gets an
/// 8-byte slot in the block's scope, bound to its name, and the instructions
/// that evaluate the initialiser (or push null) and assign it to the slot.
#[verifier::loop_isolation(false)]
pub fn handle_variable_declarations(
    block: &mut BasicBlock,
    scopes: &mut ScopeArena,
    declarations: &Vec<Node>,
) -> (result: Result<(), LoweringError>)
    requires
        old(scopes).wf(),
        old(block).scope.0 < old(scopes)@.len(),
    ensures
        match result {
            Ok(()) => lower_declarations(old(scopes)@, old(block)@, declarations@, 0) matches Ok(
                (declared, lowered),
            ) && final(scopes)@ == declared && final(block)@ == lowered && net_effect(
                final(block)@.instructions,
            ) == net_effect(old(block)@.instructions),
            Err(error) => lower_declarations(old(scopes)@, old(block)@, declarations@, 0) matches Err(
                e,
            ) && e == error,
        },
        final(scopes).wf(),
        final(scopes)@.len() == old(scopes)@.len(),
        final(block).id == old(block).id,
        final(block).scope == old(block).scope,
        final(block).location == old(block).location,
        final(block).tails@ == old(block).tails@,
        scopes_kept(old(scopes)@, final(scopes)@, old(block).scope),
        result is Ok ==> extends_plainly(old(block)@.instructions, final(block)@.instructions),
        result is Ok && finds_operands(old(block)@.instructions, 0) && net_effect(
            old(block)@.instructions,
        ) >= 0 ==> finds_operands(final(block)@.instructions, 0),
{
    let mut i: usize = 0;
    while i < declarations.len()
        invariant
            i <= declarations.len(),
            scopes.wf(),
            scopes@.len() == old(scopes)@.len(),
            block.id == old(block).id,
            block.scope == old(block).scope,
            block.location == old(block).location,
            block.tails@ == old(block).tails@,
            net_effect(block@.instructions) == net_effect(old(block)@.instructions),
            scopes_kept(old(scopes)@, scopes@, block.scope),
            extends_plainly(old(block)@.instructions, block@.instructions),
            finds_operands(old(block)@.instructions, 0) && net_effect(old(block)@.instructions)
                >= 0 ==> finds_operands(block@.instructions, 0),
            lower_declarations(old(scopes)@, old(block)@, declarations@, 0) == lower_declarations(
                scopes@,
                block@,
                declarations@,
                i as int,
            ),
        decreases declarations.len() - i,
    {
        let declaration = &declarations[i];
        let ghost scopes_before = scopes@;
        let ghost block_before = block@;
        match &declaration.kind {
            NodeKind::VariableDeclarator { id: node, init } => {
                let id = match &node.kind {
                    NodeKind::Identifier { name } => Id::new(name.as_str()),
                    _ => {
                        return Err(
                            LoweringError {
                                kind: LoweringErrorKind::UnsupportedNode,
                                at: node.start,
                            },
                        );
                    },
                };
                if scopes.get(block.scope).stack_offset() > usize::MAX - VARIABLE_SLOT_SIZE {
                    return Err(
                        LoweringError {
                            kind: LoweringErrorKind::FrameTooLarge,
                            at: declaration.start,
                        },
                    );
                }
                proof {
                    lemma_declaring_keeps_scopes(
                        scopes_before,
                        block.scope,
                        id@,
                        ValueView::StackVariable {
                            offset: scopes_before[block.scope.0 as int].stack_offset,
                        },
                    );
                }
                let offset = scopes.allocate_stack(block.scope, VARIABLE_SLOT_SIZE);
                scopes.insert(block.scope, id.duplicate(), Value::StackVariable { offset });
                let ghost declared = scopes@;
                assert(declared =~= scopes_before.update(
                    block.scope.0 as int,
                    scopes_before[block.scope.0 as int].allocate(VARIABLE_SLOT_SIZE).insert(
                        id@,
                        ValueView::StackVariable { offset },
                    ),
                ));
                let ghost code;
                match init {
                    Some(init) => {
                        proof {
                            code = lower_expression(declared, block.scope, **init)->Ok_0;
                        }
                        match evaluate_expression(block, scopes, init) {
                            Ok(()) => {},
                            Err(error) => {
                                return Err(error);
                            },
                        }
                    },
                    None => {
                        proof {
                            code = seq![FlowInstruction::PushLiteralNull];
                            lemma_net_effect_push(
                                block_before.instructions,
                                FlowInstruction::PushLiteralNull,
                            );
                            lemma_finds_operands_push(
                                block_before.instructions,
                                FlowInstruction::PushLiteralNull,
                                0,
                            );
                        }
                        block.instructions.push(FlowInstruction::PushLiteralNull);
                        assert(block@ =~= block_before.append(code));
                    },
                }
                proof {
                    lemma_net_effect_push(
                        block@.instructions,
                        FlowInstruction::PushStackVariable(offset),
                    );
                    lemma_net_effect_push(
                        block@.instructions.push(FlowInstruction::PushStackVariable(offset)),
                        FlowInstruction::Assign,
                    );
                    lemma_finds_operands_push(
                        block@.instructions,
                        FlowInstruction::PushStackVariable(offset),
                        0,
                    );
                    lemma_finds_operands_push(
                        block@.instructions.push(FlowInstruction::PushStackVariable(offset)),
                        FlowInstruction::Assign,
                        0,
                    );
                }
                // The name was bound above, so it resolves to its slot.
                match lookup_identifier(block, scopes, &id, node.start) {
                    Ok(()) => {},
                    Err(error) => {
                        return Err(error);
                    },
                }
                block.instructions.push(FlowInstruction::Assign);
            },
            _ => {
                return Err(
                    LoweringError {
                        kind: LoweringErrorKind::UnsupportedNode,
                        at: declaration.start,
                    },
                );
            },
        }
        i += 1;
    }
    Ok(())
}

} // verus!
