use vstd::prelude::*;

use crate::ast::{Node, NodeKind};
use crate::flow_graph::basic_block::BasicBlock;
use crate::flow_graph::flow_instruction::{finds_operands, net_effect};
use crate::flow_graph::lowering::{fits, lower_for, GraphView, LoweringError, LoweringErrorKind};
use crate::flow_graph::nodes::variable_declaration::handle_variable_declarations;
use crate::flow_graph::scope::{
    lemma_resolve_sees_no_later_scope, lemma_resolves_through_parent, resolve, Scope, ScopeId,
    ScopeView,
};
use crate::flow_graph::tail_instruction::TailInstruction;
use crate::flow_graph::{BlockView, FlowGraph};

verus! {

/// Whether a `for` statement is refused for the shape of its clauses alone,
/// before anything is lowered: it has a test or an update clause, or an init
/// clause that is not a variable declaration.
pub open spec fn refused_at_once(
    init: Option<Box<Node>>,
    test: Option<Box<Node>>,
    update: Option<Box<Node>>,
) -> bool {
    ||| test is Some
    ||| update is Some
    ||| init matches Some(init) && !(init.kind is VariableDeclaration)
}

/// The body of a lowered `for` statement sees what its block sees: from
/// the body's scope, every name that the body does not bind itself resolves
/// as it does from the block's scope, the variables of the init clause
/// included.
pub proof fn lemma_for_body_resolves_as_block(
    before: GraphView,
    after: GraphView,
    block_before: BlockView,
    block_after: BlockView,
    name: Seq<char>,
)
    requires
        block_before.scope.0 < before.scopes.len(),
        after.has_lowered_for(before, block_before, block_after),
        after.scopes[before.scopes.len() as int].local(name) is None,
    ensures
        resolve(after.scopes, ScopeId(before.scopes.len() as usize), name) == resolve(
            after.scopes,
            block_before.scope,
            name,
        ),
{
    lemma_resolves_through_parent(after.scopes, ScopeId(before.scopes.len() as usize), name);
}

/// What the body of a lowered `for` statement binds does not show in its
/// block: from the block's scope a name resolves by the scopes up to the
/// block's own, whatever the scopes after them hold.
pub proof fn lemma_for_body_is_hidden_from_block(
    before: GraphView,
    after: GraphView,
    block_before: BlockView,
    block_after: BlockView,
    later: Seq<ScopeView>,
    name: Seq<char>,
)
    requires
        block_before.scope.0 < before.scopes.len(),
        after.has_lowered_for(before, block_before, block_after),
        after.scopes.len() <= later.len(),
        forall|index: int|
            0 <= index < before.scopes.len() ==> #[trigger] later[index] == after.scopes[index],
    ensures
        resolve(later, block_before.scope, name) == resolve(
            after.scopes,
            block_before.scope,
            name,
        ),
{
    lemma_resolve_sees_no_later_scope(after.scopes, later, block_before.scope, name);
}

/// Lowers a `for` statement: the init clause goes into the current block,
/// the body becomes a block of its own in a scope under the current one, and
/// the current block gets a jump to it. A test or an update clause is
/// refused: no meaning is defined for them. A statement that is refused
/// gives the block no jump, and one that is refused for the shape of its
/// clauses leaves block and graph as they were.
pub fn handle_for_statement(
    flow_graph: &mut FlowGraph,
    parent_node: &Node,
    block: &mut BasicBlock,
    init: &Option<Box<Node>>,
    test: &Option<Box<Node>>,
    update: &Option<Box<Node>>,
    body: &Node,
) -> (result: Result<(), LoweringError>)
    requires
        fits(old(flow_graph)@, old(block)@),
    ensures
        match result {
            Ok(()) => lower_for(
                old(flow_graph)@,
                old(block)@,
                parent_node.spec_location(),
                *init,
                *test,
                *update,
                *body,
            ) == Ok::<(GraphView, BlockView), LoweringError>((final(flow_graph)@, final(block)@))
                && fits(final(flow_graph)@, final(block)@) && net_effect(
                final(block)@.instructions,
            ) == net_effect(old(block)@.instructions),
            Err(error) => lower_for(
                old(flow_graph)@,
                old(block)@,
                parent_node.spec_location(),
                *init,
                *test,
                *update,
                *body,
            ) == Err::<(GraphView, BlockView), LoweringError>(error),
        },
        final(block).id == old(block).id,
        final(block).scope == old(block).scope,
        result is Err && refused_at_once(*init, *test, *update) ==> final(block)@ == old(block)@
            && final(flow_graph)@ == old(flow_graph)@,
        result is Err ==> final(block).tails@ == old(block).tails@,
        result is Ok ==> final(flow_graph)@.has_lowered_for(
            old(flow_graph)@,
            old(block)@,
            final(block)@,
        ),
        result is Ok && finds_operands(old(block)@.instructions, 0) && net_effect(
            old(block)@.instructions,
        ) >= 0 ==> finds_operands(final(block)@.instructions, 0),
        old(flow_graph)@.scopes.len() <= final(flow_graph)@.scopes.len(),
        old(flow_graph)@.next_basic_block_id.0 <= final(flow_graph)@.next_basic_block_id.0,
    decreases body,
{
    if let Some(test) = test {
        return Err(
            LoweringError { kind: LoweringErrorKind::UnsupportedLoopClause, at: test.start },
        );
    }
    if let Some(update) = update {
        return Err(
            LoweringError { kind: LoweringErrorKind::UnsupportedLoopClause, at: update.start },
        );
    }
    let ghost graph = flow_graph@;
    if let Some(init) = init {
        match &init.kind {
            NodeKind::VariableDeclaration { declarations } => {
                match handle_variable_declarations(block, &mut flow_graph.scopes, declarations) {
                    Ok(()) => {},
                    Err(error) => {
                        return Err(error);
                    },
                }
            },
            _ => {
                return Err(
                    LoweringError { kind: LoweringErrorKind::UnsupportedNode, at: init.start },
                );
            },
        }
    }
    let ghost initialised = flow_graph@;
    assert(initialised =~= graph.with_scopes(flow_graph.scopes@));
    assert(initialised.wf());

    let statements = match &body.kind {
        NodeKind::BlockStatement { body } => body,
        _ => {
            return Err(LoweringError { kind: LoweringErrorKind::UnsupportedNode, at: body.start });
        },
    };
    let parent = flow_graph.scopes.get(block.scope);
    if parent.stack_offset() > usize::MAX - parent.stack_allocation() {
        return Err(LoweringError { kind: LoweringErrorKind::FrameTooLarge, at: body.start });
    }
    let scope = Scope::new(&flow_graph.scopes, Some(block.scope));
    let body_block = match flow_graph.create_basic_block(
        parent_node,
        scope,
        statements,
        false,
        Some(block.id),
    ) {
        Ok(id) => id,
        Err(error) => {
            return Err(error);
        },
    };
    block.tails.push(TailInstruction::Jump(body_block));
    Ok(())
}

} // verus!
