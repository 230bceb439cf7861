//! The flow graph: basic blocks of stack-machine instructions, the scopes
//! that name their operands, and the lowering from syntax trees.

pub mod basic_block;
pub mod flow_instruction;
pub mod lowering;
pub mod nodes;
pub mod scope;
pub mod tail_instruction;
pub mod value;

use std::collections::HashMap;
use vstd::prelude::*;

use crate::ast::{Node, NodeKind};
use crate::flow_graph::flow_instruction::{
    all_plain, extends_plainly, finds_operands, lemma_finds_operands_push, lemma_net_effect_push,
    net_effect,
};
use crate::flow_graph::lowering::{
    block_wf, blocks_wf, fits, lower_block, lower_program, lower_statement, lower_statements,
};
use crate::flow_graph::nodes::expression_statement::handle_expression_statement;
use crate::flow_graph::nodes::for_statement::handle_for_statement;
use crate::flow_graph::nodes::function_decl::handle_function_decl;
use crate::flow_graph::nodes::return_statement::handle_return_statement;
use crate::flow_graph::nodes::variable_declaration::handle_variable_declarations;

pub use self::basic_block::{BasicBlock, BasicBlockId, BlockView};
pub use self::flow_instruction::FlowInstruction;
pub use self::lowering::{GraphView, LoweringError, LoweringErrorKind};
pub use self::scope::{Binding, Id, Scope, ScopeArena, ScopeId, ScopeView};
pub use self::tail_instruction::TailInstruction;
pub use self::value::{
    HandlerGenerator, HandlerRow, HandlerTable, OperandKind, SystemFunction,
    SystemFunctionGeneratorFn, SystemFunctionHandlerFn, Value, ValueView,
};

verus! {

broadcast use vstd::std_specs::hash::group_hash_axioms;

/// The basic blocks of a program, keyed by dense identifiers, with the
/// identifier of the entry block and the scopes that the blocks live in.
pub struct FlowGraph {
    pub root_block_id: Option<BasicBlockId>,
    next_basic_block_id: BasicBlockId,
    basic_blocks: HashMap<usize, BasicBlock>,
    scopes: ScopeArena,
}

impl View for FlowGraph {
    type V = GraphView;

    closed spec fn view(&self) -> GraphView {
        GraphView {
            root_block_id: self.root_block_id,
            next_basic_block_id: self.next_basic_block_id,
            basic_blocks: self.basic_blocks@.map_values(|block: BasicBlock| block@),
            scopes: self.scopes@,
        }
    }
}

impl Default for FlowGraph {
    fn default() -> (graph: FlowGraph)
        ensures
            graph@ == GraphView::empty(),
            graph@.wf(),
    {
        let graph = FlowGraph {
            root_block_id: None,
            next_basic_block_id: BasicBlockId(0),
            basic_blocks: HashMap::new(),
            scopes: ScopeArena::new(),
        };
        assert(graph@ =~= GraphView::empty());
        graph
    }
}

impl FlowGraph {
    /// Builds the flow graph of a program. The host's scope becomes the scope
    /// of the entry block, which gets a prologue and an epilogue around the
    /// program's statements.
    pub fn from_root_node(node: &Node, scope: Scope) -> (result: Result<Self, LoweringError>)
        requires
            scope@.wf(),
            scope@.parent is None,
        ensures
            match result {
                Ok(graph) => lower_program(*node, scope@) == Ok::<GraphView, LoweringError>(graph@)
                    && graph@.wf() && graph@.root_block_id is Some,
                Err(error) => lower_program(*node, scope@) == Err::<GraphView, LoweringError>(
                    error,
                ),
            },
    {
        match &node.kind {
            NodeKind::Program { body } => {
                let mut graph = FlowGraph::default();
                let root_block_id = match graph.create_basic_block(node, scope, body, true, None) {
                    Ok(id) => id,
                    Err(error) => {
                        return Err(error);
                    },
                };
                let ghost lowered = graph@;
                graph.root_block_id = Some(root_block_id);
                assert(graph@ =~= GraphView { root_block_id: Some(root_block_id), ..lowered });
                Ok(graph)
            },
            _ => Err(LoweringError { kind: LoweringErrorKind::UnsupportedNode, at: node.start }),
        }
    }

    /// Reserves the next block identifier, if one is left.
    fn next_basic_block_id(&mut self) -> (id: Option<BasicBlockId>)
        ensures
            match id {
                Some(id) => id == old(self)@.next_basic_block_id && id.0 < usize::MAX
                    && final(self)@ == (GraphView {
                    next_basic_block_id: BasicBlockId((id.0 + 1) as usize),
                    ..old(self)@
                }),
                None => old(self)@.next_basic_block_id.0 == usize::MAX
                    && final(self)@ == old(self)@,
            },
    {
        let id = self.next_basic_block_id;
        if id.0 == usize::MAX {
            return None;
        }
        self.next_basic_block_id = BasicBlockId(id.0 + 1);
        Some(id)
    }

    /// Puts a finished block under its identifier.
    pub(crate) fn insert_block(&mut self, block: BasicBlock)
        ensures
            final(self)@ == old(self)@.insert_block(block@),
    {
        let index = block.id.0;
        self.basic_blocks.insert(index, block);
        assert(final(self)@.basic_blocks =~= old(self)@.basic_blocks.insert(index, block@));
    }

    /// Lowers one statement into the block.
    pub(crate) fn add_node_to_block(&mut self, block: &mut BasicBlock, node: &Node) -> (result:
        Result<(), LoweringError>)
        requires
            fits(old(self)@, old(block)@),
        ensures
            match result {
                Ok(()) => lower_statement(old(self)@, old(block)@, *node) == Ok::<
                    (GraphView, BlockView),
                    LoweringError,
                >((final(self)@, final(block)@)) && fits(final(self)@, final(block)@)
                    && net_effect(final(block)@.instructions) == net_effect(
                    old(block)@.instructions,
                ),
                Err(error) => lower_statement(old(self)@, old(block)@, *node) == Err::<
                    (GraphView, BlockView),
                    LoweringError,
                >(error),
            },
            final(block).id == old(block).id,
            final(block).scope == old(block).scope,
            result is Ok ==> final(self)@.grows_from(old(self)@, old(block).scope)
                && extends_plainly(old(block)@.instructions, final(block)@.instructions),
            result is Ok && finds_operands(old(block)@.instructions, 0) && net_effect(
                old(block)@.instructions,
            ) >= 0 ==> finds_operands(final(block)@.instructions, 0),
            old(self)@.scopes.len() <= final(self)@.scopes.len(),
            old(self)@.next_basic_block_id.0 <= final(self)@.next_basic_block_id.0,
        decreases node,
    {
        let ghost graph = self@;
        let ghost before = block@;
        match &node.kind {
            NodeKind::FunctionDeclaration { function } => handle_function_decl(
                self,
                block,
                function,
            ),
            NodeKind::ExpressionStatement { expression, directive: _ } => {
                let result = handle_expression_statement(block, &self.scopes, expression);
                result
            },
            NodeKind::ReturnStatement { argument } => handle_return_statement(
                block,
                &self.scopes,
                argument,
                node.start,
            ),
            NodeKind::ForStatement { body, init, test, update } => handle_for_statement(
                self,
                node,
                block,
                init,
                test,
                update,
                body,
            ),
            NodeKind::VariableDeclaration { declarations } => {
                let result = handle_variable_declarations(block, &mut self.scopes, declarations);
                assert(self@ =~= graph.with_scopes(self.scopes@));
                result
            },
            _ => Err(LoweringError { kind: LoweringErrorKind::UnsupportedNode, at: node.start }),
        }
    }

    /// Builds a new block from `nodes` in the scope `scope`, which is added
    /// to the graph, and returns the block's identifier. With
    /// `include_prologue_epilogue` the statements stand between a function
    /// prologue and a function epilogue.
    #[verifier::loop_isolation(false)]
    pub fn create_basic_block(
        &mut self,
        parent: &Node,
        scope: Scope,
        nodes: &Vec<Node>,
        include_prologue_epilogue: bool,
        next_basic_block_id: Option<BasicBlockId>,
    ) -> (result: Result<BasicBlockId, LoweringError>)
        requires
            old(self)@.wf(),
            scope@.wf(),
            scope@.parent matches Some(parent) ==> parent.0 < old(self)@.scopes.len(),
        ensures
            match result {
                Ok(id) => lower_block(
                    old(self)@,
                    parent.spec_location(),
                    scope@,
                    nodes@,
                    include_prologue_epilogue,
                ) == Ok::<(GraphView, BasicBlockId), LoweringError>((final(self)@, id))
                    && final(self)@.wf() && final(self)@.block(id) is Some
                    && final(self)@.has_built(
                    old(self)@,
                    id,
                    scope@.parent,
                    include_prologue_epilogue,
                ),
                Err(error) => lower_block(
                    old(self)@,
                    parent.spec_location(),
                    scope@,
                    nodes@,
                    include_prologue_epilogue,
                ) == Err::<(GraphView, BasicBlockId), LoweringError>(error),
            },
            old(self)@.scopes.len() <= final(self)@.scopes.len(),
            old(self)@.next_basic_block_id.0 <= final(self)@.next_basic_block_id.0,
        decreases nodes,
    {
        let scope_id = self.scopes.add(scope);
        let id = match self.next_basic_block_id() {
            Some(id) => id,
            None => {
                return Err(
                    LoweringError { kind: LoweringErrorKind::TooManyBlocks, at: parent.start },
                );
            },
        };
        let ghost begun = self@;
        assert(begun =~= old(self)@.begin_block(scope@));
        assert(blocks_wf(
            begun.basic_blocks,
            begun.next_basic_block_id.0,
            begun.scopes.len(),
        )) by {
            assert(blocks_wf(
                old(self)@.basic_blocks,
                old(self)@.next_basic_block_id.0,
                old(self)@.scopes.len(),
            ));
            assert forall|other: usize| #[trigger]
                begun.basic_blocks.contains_key(other) implies other
                < begun.next_basic_block_id.0 && block_wf(
                begun.basic_blocks[other],
                other as int,
                begun.scopes.len(),
            ) by {
                assert(old(self)@.basic_blocks.contains_key(other));
                assert(block_wf(
                    old(self)@.basic_blocks[other],
                    other as int,
                    old(self)@.scopes.len(),
                ));
            }
        }
        assert(begun.wf()) by {
            assert forall|i: int| 0 <= i < begun.scopes.len() implies (
            #[trigger] begun.scopes[i]).wf() by {
                if i < old(self)@.scopes.len() {
                    assert(begun.scopes[i] == old(self)@.scopes[i]);
                }
            }
            assert forall|i: int| 0 <= i < begun.scopes.len() implies (
            #[trigger] begun.scopes[i].parent matches Some(parent) ==> parent.0 < i) by {
                if i < old(self)@.scopes.len() {
                    assert(begun.scopes[i] == old(self)@.scopes[i]);
                }
            }
        }
        let mut block = BasicBlock::new(id, scope_id, parent.location(), next_basic_block_id);
        if include_prologue_epilogue {
            block.instructions.push(FlowInstruction::FunctionPrologue);
        }
        let ghost opened = block@;
        proof {
            lemma_net_effect_push(Seq::empty(), FlowInstruction::FunctionPrologue);
            lemma_finds_operands_push(Seq::empty(), FlowInstruction::FunctionPrologue, 0);
        }
        let mut i: usize = 0;
        while i < nodes.len()
            invariant
                i <= nodes.len(),
                fits(self@, block@),
                block.id == id,
                block.scope == scope_id,
                self@.grows_from(begun, scope_id),
                !include_prologue_epilogue ==> all_plain(block@.instructions),
                net_effect(block@.instructions) == 0,
                finds_operands(block@.instructions, 0),
                begun.scopes.len() <= self@.scopes.len(),
                begun.next_basic_block_id.0 <= self@.next_basic_block_id.0,
                lower_statements(begun, opened, nodes@, 0) == lower_statements(
                    self@,
                    block@,
                    nodes@,
                    i as int,
                ),
            decreases nodes.len() - i,
        {
            match self.add_node_to_block(&mut block, &nodes[i]) {
                Ok(()) => {},
                Err(error) => {
                    return Err(error);
                },
            }
            i += 1;
        }
        if include_prologue_epilogue {
            proof {
                lemma_net_effect_push(block@.instructions, FlowInstruction::FunctionEpilogue);
                lemma_finds_operands_push(block@.instructions, FlowInstruction::FunctionEpilogue, 0);
            }
            block.instructions.push(FlowInstruction::FunctionEpilogue);
        }
        let ghost lowered = self@;
        let ghost closed = block@;
        self.insert_block(block);
        assert(self@.wf()) by {
            assert(blocks_wf(
                lowered.basic_blocks,
                lowered.next_basic_block_id.0,
                lowered.scopes.len(),
            ));
            assert forall|other: usize| #[trigger]
                self@.basic_blocks.contains_key(other) implies other
                < self@.next_basic_block_id.0 && block_wf(
                self@.basic_blocks[other],
                other as int,
                self@.scopes.len(),
            ) by {
                if other != id.0 {
                    assert(lowered.basic_blocks.contains_key(other));
                    assert(block_wf(
                        lowered.basic_blocks[other],
                        other as int,
                        lowered.scopes.len(),
                    ));
                }
            }
        }
        Ok(id)
    }

    /// The block with the given identifier, if the graph holds one.
    pub fn get_basic_block(&self, basic_block_id: &BasicBlockId) -> (block: Option<&BasicBlock>)
        ensures
            match block {
                Some(block) => self@.block(*basic_block_id) == Some(block@),
                None => self@.block(*basic_block_id) is None,
            },
    {
        self.basic_blocks.get(&basic_block_id.0)
    }

    /// The identifier of the entry block.
    pub fn root_block(&self) -> (root: Option<BasicBlockId>)
        ensures
            root == self@.root_block_id,
    {
        self.root_block_id
    }

    /// The scopes of the graph.
    pub fn scopes(&self) -> (scopes: &ScopeArena)
        ensures
            scopes@ == self@.scopes,
    {
        &self.scopes
    }
}

} // verus!
