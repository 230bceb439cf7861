use vstd::prelude::*;

use crate::ast::{Function, NodeKind};
use crate::flow_graph::basic_block::BasicBlock;
use crate::flow_graph::lowering::{
    bind_parameters, fits, lower_function, parameter_names, GraphView, LoweringError,
    LoweringErrorKind,
};
use crate::flow_graph::scope::{Id, Scope};
use crate::flow_graph::value::{names_of, Value, ValueView};
use crate::flow_graph::{BlockView, FlowGraph};

verus! {

/// Binding a name in a scope of a well-formed graph leaves it well formed.
pub proof fn lemma_bind_keeps_graph(
    graph: GraphView,
    scope: crate::flow_graph::scope::ScopeId,
    name: Seq<char>,
    value: ValueView,
)
    requires
        graph.wf(),
        scope.0 < graph.scopes.len(),
    ensures
        graph.bind(scope, name, value).wf(),
{
    let bound = graph.bind(scope, name, value);
    assert forall|i: int| 0 <= i < bound.scopes.len() implies (#[trigger] bound.scopes[i]).wf() by {
        assert(graph.scopes[i].wf());
    }
    assert forall|i: int| 0 <= i < bound.scopes.len() implies (
    #[trigger] bound.scopes[i].parent matches Some(parent) ==> parent.0 < i) by {
        assert(bound.scopes[i].parent == graph.scopes[i].parent);
    }
}

/// Lowers a function declaration: the body becomes a block of its own in a
/// scope that binds the parameters, and the function's name is bound in the
/// scope of the declaring block. Nothing is emitted into the declaring block.
#[verifier::loop_isolation(false)]
pub fn handle_function_decl(
    flow_graph: &mut FlowGraph,
    parent_block: &mut BasicBlock,
    function_node: &Function,
) -> (result: Result<(), LoweringError>)
    requires
        fits(old(flow_graph)@, old(parent_block)@),
    ensures
        match result {
            Ok(()) => lower_function(old(flow_graph)@, old(parent_block)@, *function_node) == Ok::<
                (GraphView, BlockView),
                LoweringError,
            >((final(flow_graph)@, final(parent_block)@)) && fits(
                final(flow_graph)@,
                final(parent_block)@,
            ),
            Err(error) => lower_function(old(flow_graph)@, old(parent_block)@, *function_node)
                == Err::<(GraphView, BlockView), LoweringError>(error),
        },
        final(parent_block)@ == old(parent_block)@,
        result is Ok ==> final(flow_graph)@.grows_from(old(flow_graph)@, old(parent_block).scope),
        old(flow_graph)@.scopes.len() <= final(flow_graph)@.scopes.len(),
        old(flow_graph)@.next_basic_block_id.0 <= final(flow_graph)@.next_basic_block_id.0,
    decreases function_node,
{
    let body = match &function_node.body.kind {
        NodeKind::BlockStatement { body } => body,
        _ => {
            return Err(
                LoweringError {
                    kind: LoweringErrorKind::UnsupportedNode,
                    at: function_node.body.start,
                },
            );
        },
    };
    let id = match &function_node.id {
        Some(id) => match &id.kind {
            NodeKind::Identifier { name } => Some(Id::new(name.as_str())),
            _ => {
                return Err(
                    LoweringError { kind: LoweringErrorKind::UnsupportedNode, at: id.start },
                );
            },
        },
        None => None,
    };
    let parent = flow_graph.scopes.get(parent_block.scope);
    if parent.stack_offset() > usize::MAX - parent.stack_allocation() {
        return Err(
            LoweringError {
                kind: LoweringErrorKind::FrameTooLarge,
                at: function_node.body.start,
            },
        );
    }
    let mut scope = Scope::new(&flow_graph.scopes, Some(parent_block.scope));
    let ghost child = scope@;

    let mut params: Vec<Id> = Vec::new();
    let mut i: usize = 0;
    assert(names_of(params@) =~= Seq::empty());
    while i < function_node.params.len()
        invariant
            i <= function_node.params.len(),
            parameter_names(function_node.params@, 0, Seq::empty()) == parameter_names(
                function_node.params@,
                i as int,
                names_of(params@),
            ),
        decreases function_node.params.len() - i,
    {
        let param = &function_node.params[i];
        let ghost names = names_of(params@);
        match &param.kind {
            NodeKind::Identifier { name } => {
                params.push(Id::new(name.as_str()));
                assert(names_of(params@) =~= names.push(name@));
            },
            _ => {
                return Err(
                    LoweringError { kind: LoweringErrorKind::UnsupportedNode, at: param.start },
                );
            },
        }
        i += 1;
    }
    let ghost names = names_of(params@);

    let mut index: usize = 0;
    while index < params.len()
        invariant
            index <= params.len(),
            scope@.wf(),
            scope@.parent == child.parent,
            bind_parameters(child, names, 0) == bind_parameters(scope@, names, index as int),
        decreases params.len() - index,
    {
        scope.insert(params[index].duplicate(), Value::FunctionParameter(index));
        index += 1;
    }

    let body = match flow_graph.create_basic_block(&function_node.body, scope, body, true, None) {
        Ok(body) => body,
        Err(error) => {
            return Err(error);
        },
    };
    let ghost built = flow_graph@;

    if let Some(id) = id {
        let value = Value::Function { id: Some(id.duplicate()), params, body };
        proof {
            lemma_bind_keeps_graph(built, parent_block.scope, id@, value@);
        }
        flow_graph.scopes.insert(parent_block.scope, id, value);
        assert(flow_graph@ =~= built.bind(parent_block.scope, id@, value@));
    }
    Ok(())
}

} // verus!
