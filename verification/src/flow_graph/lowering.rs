//! What lowering means: the instructions, scopes and blocks that a syntax
//! tree stands for, as mathematical functions of the tree.
//!
//! The functions here are the reference that the builder is verified against.
//! Lowering either succeeds with the new state or is refused with the first
//! error met in evaluation order.

use vstd::prelude::*;

use super::basic_block::{BasicBlockId, BlockView};
use super::flow_instruction::{
    all_plain, extends_plainly, finds_operands, net_effect, FlowInstruction,
};
use super::scope::{parents_precede, resolve, ScopeId, ScopeView};
use super::tail_instruction::TailInstruction;
use super::value::ValueView;
use crate::ast::{Function, LiteralValue, Node, NodeKind};
use crate::source_location::{SourceLocation, SourcePosition};

verus! {

/// Why a syntax tree was refused.
#[derive(Clone, Copy, Debug, PartialEq, Eq, Structural)]
pub enum LoweringErrorKind {
    /// A kind of node that has no lowering where it stands.
    UnsupportedNode,
    /// An identifier that no enclosing scope binds.
    UndefinedIdentifier,
    /// A call whose argument count differs from the callee's arity.
    ArityMismatch,
    /// A literal without a lowering: a regular expression.
    UnsupportedLiteral,
    /// A `return` without an argument.
    ReturnWithoutArgument,
    /// A call of something that is neither a function nor a system function.
    NotCallable,
    /// An identifier bound to a value that cannot be pushed as an operand.
    UnsupportedIdentifier,
    /// A `for` statement with a test or an update clause.
    UnsupportedLoopClause,
    /// A stack frame whose offsets do not fit the machine word.
    FrameTooLarge,
    /// More blocks than there are block identifiers.
    TooManyBlocks,
}

/// A refusal, with the place of the offending construct.
#[derive(Clone, Copy, Debug, PartialEq, Eq, Structural)]
pub struct LoweringError {
    pub kind: LoweringErrorKind,
    pub at: SourcePosition,
}

/// The size in bytes of the stack slot of a variable.
pub const VARIABLE_SLOT_SIZE: usize = 8;

/// The mathematical content of a flow graph: its finished blocks by
/// identifier, and its scopes by identifier. A block that has been begun
/// and not yet finished has its identifier reserved, below the next one, and
/// is not in the map.
#[verifier::ext_equal]
pub struct GraphView {
    pub root_block_id: Option<BasicBlockId>,
    pub next_basic_block_id: BasicBlockId,
    pub basic_blocks: Map<usize, BlockView>,
    pub scopes: Seq<ScopeView>,
}

impl GraphView {
    /// The graph without blocks or scopes.
    pub open spec fn empty() -> GraphView {
        GraphView {
            root_block_id: None,
            next_basic_block_id: BasicBlockId(0),
            basic_blocks: Map::empty(),
            scopes: Seq::empty(),
        }
    }

    /// The graph with other scopes.
    pub open spec fn with_scopes(self, scopes: Seq<ScopeView>) -> GraphView {
        GraphView { scopes, ..self }
    }

    /// The graph after a block has been begun in a new scope: the scope is
    /// added and the next block identifier is reserved.
    pub open spec fn begin_block(self, scope: ScopeView) -> GraphView {
        GraphView {
            next_basic_block_id: BasicBlockId((self.next_basic_block_id.0 + 1) as usize),
            scopes: self.scopes.push(scope),
            ..self
        }
    }

    /// The graph after a finished block has been put under its identifier.
    pub open spec fn insert_block(self, block: BlockView) -> GraphView {
        GraphView {
            basic_blocks: self.basic_blocks.insert(block.id.0, block),
            ..self
        }
    }

    /// The graph after `name` has been bound to `value` in scope `scope`.
    pub open spec fn bind(self, scope: ScopeId, name: Seq<char>, value: ValueView) -> GraphView {
        self.with_scopes(
            self.scopes.update(scope.0 as int, self.scopes[scope.0 as int].insert(name, value)),
        )
    }

    /// The block with the given identifier, if it is finished.
    pub open spec fn block(self, id: BasicBlockId) -> Option<BlockView> {
        if self.basic_blocks.contains_key(id.0) {
            Some(self.basic_blocks[id.0])
        } else {
            None
        }
    }

    /// The invariant of a flow graph: every finished block sits under its
    /// own identifier, which has been handed out, lives in a scope of the
    /// graph and leaves the operand stack as deep as it found it, and every
    /// scope's parent precedes it.
    pub open spec fn wf(self) -> bool {
        &&& parents_precede(self.scopes)
        &&& forall|i: int| 0 <= i < self.scopes.len() ==> (#[trigger] self.scopes[i]).wf()
        &&& blocks_wf(self.basic_blocks, self.next_basic_block_id.0, self.scopes.len())
        &&& self.root_block_id matches Some(root) ==> root.0 < self.next_basic_block_id.0
    }
}

/// A finished block under identifier `index` in a graph of `scope_count`
/// scopes: it carries that identifier, names one of the scopes, and its body
/// is balanced: run from an empty operand stack, every instruction finds
/// its operands, and the stack is empty again at the end.
pub open spec fn block_wf(block: BlockView, index: int, scope_count: nat) -> bool {
    &&& block.id.0 == index
    &&& block.scope.0 < scope_count
    &&& net_effect(block.instructions) == 0
    &&& finds_operands(block.instructions, 0)
}

/// What lowering into a block of scope `changed` may do to the scopes that
/// were there: none is removed, none gets another parent, and none but
/// `changed` is touched at all.
pub open spec fn scopes_kept(
    before: Seq<ScopeView>,
    after: Seq<ScopeView>,
    changed: ScopeId,
) -> bool {
    &&& before.len() <= after.len()
    &&& forall|index: int|
        0 <= index < before.len() ==> (#[trigger] after[index]).parent == before[index].parent
            && (index != changed.0 ==> after[index] == before[index])
}

impl GraphView {
    /// What lowering into a block of scope `changed` may do to a graph that
    /// was `before`: scopes are kept as [`scopes_kept`] says, every finished
    /// block stays as it is, and new blocks get identifiers that had not
    /// been handed out.
    pub open spec fn grows_from(self, before: GraphView, changed: ScopeId) -> bool {
        &&& scopes_kept(before.scopes, self.scopes, changed)
        &&& before.next_basic_block_id.0 <= self.next_basic_block_id.0
        &&& forall|id: usize| #[trigger]
            before.basic_blocks.contains_key(id) ==> self.basic_blocks.contains_key(id)
                && self.basic_blocks[id] == before.basic_blocks[id]
        &&& forall|id: usize| #[trigger]
            self.basic_blocks.contains_key(id) ==> before.basic_blocks.contains_key(id) || id
                >= before.next_basic_block_id.0
    }

    /// What building a block does to a graph that was `before`: the block
    /// gets the identifier that was next, which no block had, and a scope of
    /// its own, added after those that were there, under the parent given
    /// for it; it stands finished in the graph; without prologue and
    /// epilogue its body holds only instructions of statements; and nothing
    /// that was in the graph is touched.
    pub open spec fn has_built(
        self,
        before: GraphView,
        id: BasicBlockId,
        parent: Option<ScopeId>,
        include_prologue_epilogue: bool,
    ) -> bool {
        &&& id == before.next_basic_block_id
        &&& !before.basic_blocks.contains_key(id.0)
        &&& self.grows_from(before, ScopeId(before.scopes.len() as usize))
        &&& before.scopes.len() < self.scopes.len()
        &&& self.scopes[before.scopes.len() as int].parent == parent
        &&& self.block(id) matches Some(block)
        &&& block.id == id
        &&& block.scope.0 == before.scopes.len()
        &&& !include_prologue_epilogue ==> all_plain(block.instructions)
    }

    /// What a `for` statement that is lowered does: the block gets one more
    /// tail, a jump to a new block, and only instructions of statements;
    /// the new block stands finished in the graph, under an identifier that
    /// no block had, without prologue or epilogue; its scope is a new one
    /// whose parent is the scope of the block; and nothing else that was in
    /// the graph is touched.
    pub open spec fn has_lowered_for(
        self,
        before: GraphView,
        block_before: BlockView,
        block_after: BlockView,
    ) -> bool {
        let body = before.next_basic_block_id;
        &&& block_after.tails == block_before.tails.push(TailInstruction::Jump(body))
        &&& extends_plainly(block_before.instructions, block_after.instructions)
        &&& !before.basic_blocks.contains_key(body.0)
        &&& self.grows_from(before, block_before.scope)
        &&& before.scopes.len() < self.scopes.len()
        &&& self.scopes[before.scopes.len() as int].parent == Some(block_before.scope)
        &&& self.block(body) matches Some(built)
        &&& built.id == body
        &&& built.scope.0 == before.scopes.len()
        &&& all_plain(built.instructions)
    }
}

/// Every finished block sits under an identifier below `next` and is well
/// formed for it.
pub open spec fn blocks_wf(blocks: Map<usize, BlockView>, next: usize, scope_count: nat) -> bool {
    forall|id: usize| #[trigger]
        blocks.contains_key(id) ==> id < next && block_wf(blocks[id], id as int, scope_count)
}

/// A block under construction fits a graph when the graph is well formed,
/// the block's scope is one of the graph's, and the block's identifier has
/// been reserved in it.
pub open spec fn fits(graph: GraphView, block: BlockView) -> bool {
    &&& graph.wf()
    &&& block.scope.0 < graph.scopes.len()
    &&& block.id.0 < graph.next_basic_block_id.0
}

pub open spec fn refuse<T>(kind: LoweringErrorKind, at: SourcePosition) -> Result<
    T,
    LoweringError,
> {
    Err(LoweringError { kind, at })
}

/// The instruction that pushes a literal.
pub open spec fn lower_literal(value: LiteralValue, at: SourcePosition) -> Result<
    FlowInstruction,
    LoweringError,
> {
    match value {
        LiteralValue::String(literal) => Ok(FlowInstruction::PushLiteralString(literal)),
        LiteralValue::Boolean(literal) => Ok(FlowInstruction::PushLiteralBoolean(literal)),
        LiteralValue::Null => Ok(FlowInstruction::PushLiteralNull),
        LiteralValue::Number(literal) => Ok(FlowInstruction::PushLiteralNumber(literal)),
        LiteralValue::RegExp(_) => refuse(LoweringErrorKind::UnsupportedLiteral, at),
    }
}

/// The instruction that pushes what `name` is bound to.
pub open spec fn lower_identifier(
    scopes: Seq<ScopeView>,
    scope: ScopeId,
    name: Seq<char>,
    at: SourcePosition,
) -> Result<FlowInstruction, LoweringError> {
    match resolve(scopes, scope, name) {
        Some(ValueView::StackVariable { offset }) => Ok(FlowInstruction::PushStackVariable(offset)),
        Some(ValueView::FunctionParameter(index)) => Ok(
            FlowInstruction::PushFunctionParameter(index),
        ),
        Some(_) => refuse(LoweringErrorKind::UnsupportedIdentifier, at),
        None => refuse(LoweringErrorKind::UndefinedIdentifier, at),
    }
}

/// The instructions that evaluate an expression and leave its value on the
/// operand stack: operands first, left to right, then the operation.
pub open spec fn lower_expression(scopes: Seq<ScopeView>, scope: ScopeId, node: Node) -> Result<
    Seq<FlowInstruction>,
    LoweringError,
>
    decreases node, 0nat,
{
    match node.kind {
        NodeKind::CallExpression { callee, arguments } => match callee.kind {
            NodeKind::Identifier { name } => match resolve(scopes, scope, name@) {
                Some(ValueView::Function { id, params, body }) => {
                    if params.len() != arguments@.len() {
                        refuse(LoweringErrorKind::ArityMismatch, node.start)
                    } else {
                        match lower_arguments(scopes, scope, arguments@, 0, Seq::empty()) {
                            Ok(code) => Ok(
                                code.push(
                                    FlowInstruction::CallFunction {
                                        basic_block_id: body,
                                        argument_count: arguments.len(),
                                    },
                                ),
                            ),
                            Err(error) => Err(error),
                        }
                    }
                },
                Some(ValueView::SystemFunction(function)) => {
                    if function.spec_arity() != arguments@.len() {
                        refuse(LoweringErrorKind::ArityMismatch, node.start)
                    } else {
                        match lower_arguments(scopes, scope, arguments@, 0, Seq::empty()) {
                            Ok(code) => Ok(
                                code.push(FlowInstruction::CallSystemFunction(function)),
                            ),
                            Err(error) => Err(error),
                        }
                    }
                },
                Some(_) => refuse(LoweringErrorKind::NotCallable, callee.start),
                None => refuse(LoweringErrorKind::UndefinedIdentifier, callee.start),
            },
            _ => refuse(LoweringErrorKind::UnsupportedNode, callee.start),
        },
        NodeKind::BinaryExpression { operator, left, right } => match lower_expression(
            scopes,
            scope,
            *left,
        ) {
            Ok(left_code) => match lower_expression(scopes, scope, *right) {
                Ok(right_code) => Ok(
                    (left_code + right_code).push(FlowInstruction::ApplyBinaryOperator(operator)),
                ),
                Err(error) => Err(error),
            },
            Err(error) => Err(error),
        },
        NodeKind::Identifier { name } => match lower_identifier(scopes, scope, name@, node.start) {
            Ok(instruction) => Ok(seq![instruction]),
            Err(error) => Err(error),
        },
        NodeKind::Literal { value } => match lower_literal(value, node.start) {
            Ok(instruction) => Ok(seq![instruction]),
            Err(error) => Err(error),
        },
        _ => refuse(LoweringErrorKind::UnsupportedNode, node.start),
    }
}

/// `code` followed by the instructions that evaluate the arguments from
/// index `from` on, in order.
pub open spec fn lower_arguments(
    scopes: Seq<ScopeView>,
    scope: ScopeId,
    arguments: Seq<Node>,
    from: int,
    code: Seq<FlowInstruction>,
) -> Result<Seq<FlowInstruction>, LoweringError>
    decreases arguments, arguments.len() - from,
{
    if from < 0 || from >= arguments.len() {
        Ok(code)
    } else {
        match lower_expression(scopes, scope, arguments[from]) {
            Ok(argument_code) => lower_arguments(
                scopes,
                scope,
                arguments,
                from + 1,
                code + argument_code,
            ),
            Err(error) => Err(error),
        }
    }
}

/// The state after one declarator: a slot is allocated in the block's scope
/// and bound to the declared name, then the initialiser (or null) and the
/// slot are pushed and assigned.
pub open spec fn lower_declarator(
    scopes: Seq<ScopeView>,
    block: BlockView,
    declaration: Node,
) -> Result<(Seq<ScopeView>, BlockView), LoweringError> {
    match declaration.kind {
        NodeKind::VariableDeclarator { id, init } => match id.kind {
            NodeKind::Identifier { name } => {
                let scope = scopes[block.scope.0 as int];
                if scope.stack_offset + VARIABLE_SLOT_SIZE > usize::MAX {
                    refuse(LoweringErrorKind::FrameTooLarge, declaration.start)
                } else {
                    let offset = scope.stack_offset;
                    let declared = scopes.update(
                        block.scope.0 as int,
                        scope.allocate(VARIABLE_SLOT_SIZE).insert(
                            name@,
                            ValueView::StackVariable { offset },
                        ),
                    );
                    let value = match init {
                        Some(init) => lower_expression(declared, block.scope, *init),
                        None => Ok(seq![FlowInstruction::PushLiteralNull]),
                    };
                    match value {
                        Ok(code) => Ok(
                            (
                                declared,
                                block.append(code).push(
                                    FlowInstruction::PushStackVariable(offset),
                                ).push(FlowInstruction::Assign),
                            ),
                        ),
                        Err(error) => Err(error),
                    }
                }
            },
            _ => refuse(LoweringErrorKind::UnsupportedNode, id.start),
        },
        _ => refuse(LoweringErrorKind::UnsupportedNode, declaration.start),
    }
}

/// The state after the declarators from index `from` on, in order.
pub open spec fn lower_declarations(
    scopes: Seq<ScopeView>,
    block: BlockView,
    declarations: Seq<Node>,
    from: int,
) -> Result<(Seq<ScopeView>, BlockView), LoweringError>
    decreases declarations.len() - from,
{
    if from < 0 || from >= declarations.len() {
        Ok((scopes, block))
    } else {
        match lower_declarator(scopes, block, declarations[from]) {
            Ok((scopes, block)) => lower_declarations(scopes, block, declarations, from + 1),
            Err(error) => Err(error),
        }
    }
}

/// The name that a function is declared under, if it has one.
pub open spec fn function_name(id: Option<Box<Node>>) -> Result<Option<Seq<char>>, LoweringError> {
    match id {
        Some(id) => match id.kind {
            NodeKind::Identifier { name } => Ok(Some(name@)),
            _ => refuse(LoweringErrorKind::UnsupportedNode, id.start),
        },
        None => Ok(None),
    }
}

/// `names` followed by the names of the parameters from index `from` on.
pub open spec fn parameter_names(params: Seq<Node>, from: int, names: Seq<Seq<char>>) -> Result<
    Seq<Seq<char>>,
    LoweringError,
>
    decreases params.len() - from,
{
    if from < 0 || from >= params.len() {
        Ok(names)
    } else {
        match params[from].kind {
            NodeKind::Identifier { name } => parameter_names(params, from + 1, names.push(name@)),
            _ => refuse(LoweringErrorKind::UnsupportedNode, params[from].start),
        }
    }
}

/// The scope after the parameters from index `from` on have been bound, each
/// to its position.
pub open spec fn bind_parameters(scope: ScopeView, names: Seq<Seq<char>>, from: int) -> ScopeView
    decreases names.len() - from,
{
    if from < 0 || from >= names.len() {
        scope
    } else {
        bind_parameters(
            scope.insert(names[from], ValueView::FunctionParameter(from as usize)),
            names,
            from + 1,
        )
    }
}

/// The state after a statement: the graph and the block that the statement
/// is lowered into.
pub open spec fn lower_statement(graph: GraphView, block: BlockView, node: Node) -> Result<
    (GraphView, BlockView),
    LoweringError,
>
    decreases node, 0nat,
{
    match node.kind {
        NodeKind::FunctionDeclaration { function } => lower_function(graph, block, function),
        NodeKind::ExpressionStatement { expression, directive } => match lower_expression(
            graph.scopes,
            block.scope,
            *expression,
        ) {
            Ok(code) => Ok((graph, block.append(code).push(FlowInstruction::DiscardValue))),
            Err(error) => Err(error),
        },
        NodeKind::ReturnStatement { argument } => match argument {
            Some(argument) => match lower_expression(graph.scopes, block.scope, *argument) {
                Ok(code) => Ok((graph, block.append(code).push(FlowInstruction::ReturnValue))),
                Err(error) => Err(error),
            },
            None => refuse(LoweringErrorKind::ReturnWithoutArgument, node.start),
        },
        NodeKind::ForStatement { init, test, update, body } => lower_for(
            graph,
            block,
            node.spec_location(),
            init,
            test,
            update,
            *body,
        ),
        NodeKind::VariableDeclaration { declarations } => match lower_declarations(
            graph.scopes,
            block,
            declarations@,
            0,
        ) {
            Ok((scopes, block)) => Ok((graph.with_scopes(scopes), block)),
            Err(error) => Err(error),
        },
        _ => refuse(LoweringErrorKind::UnsupportedNode, node.start),
    }
}

/// The state after the statements from index `from` on, in order.
pub open spec fn lower_statements(
    graph: GraphView,
    block: BlockView,
    nodes: Seq<Node>,
    from: int,
) -> Result<(GraphView, BlockView), LoweringError>
    decreases nodes, nodes.len() - from,
{
    if from < 0 || from >= nodes.len() {
        Ok((graph, block))
    } else {
        match lower_statement(graph, block, nodes[from]) {
            Ok((graph, block)) => lower_statements(graph, block, nodes, from + 1),
            Err(error) => Err(error),
        }
    }
}

/// The graph after a new block has been built from `nodes` in the new scope
/// `scope`, and the block's identifier. The scope is added to the graph and
/// the identifier reserved before the statements are lowered; the finished
/// block is put into the graph after them. Where no identifier is left, the
/// block is refused.
pub open spec fn lower_block(
    graph: GraphView,
    location: SourceLocation,
    scope: ScopeView,
    nodes: Seq<Node>,
    include_prologue_epilogue: bool,
) -> Result<(GraphView, BasicBlockId), LoweringError>
    decreases nodes, nodes.len() + 1,
{
    let id = graph.next_basic_block_id;
    if id.0 >= usize::MAX {
        refuse(LoweringErrorKind::TooManyBlocks, location.start)
    } else {
        let begun = BlockView::empty(id, ScopeId(graph.scopes.len() as usize), location);
        let opened = if include_prologue_epilogue {
            begun.push(FlowInstruction::FunctionPrologue)
        } else {
            begun
        };
        match lower_statements(graph.begin_block(scope), opened, nodes, 0) {
            Ok((graph, block)) => {
                let closed = if include_prologue_epilogue {
                    block.push(FlowInstruction::FunctionEpilogue)
                } else {
                    block
                };
                Ok((graph.insert_block(closed), id))
            },
            Err(error) => Err(error),
        }
    }
}

/// The state after a function declaration: the body becomes a block of its
/// own, with prologue and epilogue, in a scope under the declaring block's
/// that binds the parameters; then the function's name, if it has one, is
/// bound in the declaring block's scope. Nothing is emitted into the
/// declaring block.
pub open spec fn lower_function(graph: GraphView, block: BlockView, function: Function) -> Result<
    (GraphView, BlockView),
    LoweringError,
>
    decreases function, 0nat,
{
    match function.body.kind {
        NodeKind::BlockStatement { body } => match function_name(function.id) {
            Ok(id) => {
                let parent = graph.scopes[block.scope.0 as int];
                if parent.child_offset() > usize::MAX {
                    refuse(LoweringErrorKind::FrameTooLarge, function.body.start)
                } else {
                    match parameter_names(function.params@, 0, Seq::empty()) {
                        Ok(params) => match lower_block(
                            graph,
                            function.body.spec_location(),
                            bind_parameters(parent.child(block.scope), params, 0),
                            body@,
                            true,
                        ) {
                            Ok((graph, body)) => match id {
                                Some(name) => Ok(
                                    (
                                        graph.bind(
                                            block.scope,
                                            name,
                                            ValueView::Function { id: Some(name), params, body },
                                        ),
                                        block,
                                    ),
                                ),
                                None => Ok((graph, block)),
                            },
                            Err(error) => Err(error),
                        },
                        Err(error) => Err(error),
                    }
                }
            },
            Err(error) => Err(error),
        },
        _ => refuse(LoweringErrorKind::UnsupportedNode, function.body.start),
    }
}

/// The state after a `for` statement: the init clause is lowered into the
/// current block, the body becomes a block of its own in a scope under the
/// current one, without prologue or epilogue, and the current block gets a
/// jump to it. A test or an update clause is refused.
pub open spec fn lower_for(
    graph: GraphView,
    block: BlockView,
    location: SourceLocation,
    init: Option<Box<Node>>,
    test: Option<Box<Node>>,
    update: Option<Box<Node>>,
    body: Node,
) -> Result<(GraphView, BlockView), LoweringError>
    decreases body, 0nat,
{
    if let Some(test) = test {
        refuse(LoweringErrorKind::UnsupportedLoopClause, test.start)
    } else if let Some(update) = update {
        refuse(LoweringErrorKind::UnsupportedLoopClause, update.start)
    } else {
        let initialised = match init {
            Some(init) => match init.kind {
                NodeKind::VariableDeclaration { declarations } => lower_declarations(
                    graph.scopes,
                    block,
                    declarations@,
                    0,
                ),
                _ => refuse(LoweringErrorKind::UnsupportedNode, init.start),
            },
            None => Ok((graph.scopes, block)),
        };
        match initialised {
            Ok((scopes, block)) => match body.kind {
                NodeKind::BlockStatement { body: statements } => {
                    let parent = scopes[block.scope.0 as int];
                    if parent.child_offset() > usize::MAX {
                        refuse(LoweringErrorKind::FrameTooLarge, body.start)
                    } else {
                        match lower_block(
                            graph.with_scopes(scopes),
                            location,
                            parent.child(block.scope),
                            statements@,
                            false,
                        ) {
                            Ok((graph, body)) => Ok(
                                (graph, block.push_tail(TailInstruction::Jump(body))),
                            ),
                            Err(error) => Err(error),
                        }
                    }
                },
                _ => refuse(LoweringErrorKind::UnsupportedNode, body.start),
            },
            Err(error) => Err(error),
        }
    }
}

/// The flow graph of a program: its statements become the entry block, with
/// prologue and epilogue, in the scope that the host provides.
pub open spec fn lower_program(node: Node, scope: ScopeView) -> Result<GraphView, LoweringError> {
    match node.kind {
        NodeKind::Program { body } => match lower_block(
            GraphView::empty(),
            node.spec_location(),
            scope,
            body@,
            true,
        ) {
            Ok((graph, root)) => Ok(GraphView { root_block_id: Some(root), ..graph }),
            Err(error) => Err(error),
        },
        _ => refuse(LoweringErrorKind::UnsupportedNode, node.start),
    }
}

} // verus!
