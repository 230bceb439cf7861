use vstd::prelude::*;

use super::flow_instruction::FlowInstruction;
use super::scope::{parents_precede, resolve, Id, ScopeArena, ScopeId};
use super::tail_instruction::TailInstruction;
use super::value::Value;
use crate::source_location::SourceLocation;

verus! {

/// Names a basic block within its flow graph. Identifiers are handed out
/// densely, in the order in which blocks are begun.
#[derive(Copy, Clone, Debug, Default, PartialEq, Eq, Hash, Structural)]
pub struct BasicBlockId(pub usize);

/// A straight-line sequence of instructions, followed by the control
/// transfers that end it.
pub struct BasicBlock {
    pub id: BasicBlockId,
    pub scope: ScopeId,
    pub instructions: Vec<FlowInstruction>,
    pub location: SourceLocation,
    pub tails: Vec<TailInstruction>,
}

/// The mathematical content of a [`BasicBlock`].
#[verifier::ext_equal]
pub struct BlockView {
    pub id: BasicBlockId,
    pub scope: ScopeId,
    pub instructions: Seq<FlowInstruction>,
    pub location: SourceLocation,
    pub tails: Seq<TailInstruction>,
}

impl BlockView {
    /// A block without instructions or tails.
    pub open spec fn empty(
        id: BasicBlockId,
        scope: ScopeId,
        location: SourceLocation,
    ) -> BlockView {
        BlockView { id, scope, instructions: Seq::empty(), location, tails: Seq::empty() }
    }

    /// The block with one more instruction at the end of its body.
    pub open spec fn push(self, instruction: FlowInstruction) -> BlockView {
        BlockView { instructions: self.instructions.push(instruction), ..self }
    }

    /// The block with more instructions at the end of its body.
    pub open spec fn append(self, code: Seq<FlowInstruction>) -> BlockView {
        BlockView { instructions: self.instructions + code, ..self }
    }

    /// The block with one more tail.
    pub open spec fn push_tail(self, tail: TailInstruction) -> BlockView {
        BlockView { tails: self.tails.push(tail), ..self }
    }
}

impl View for BasicBlock {
    type V = BlockView;

    open spec fn view(&self) -> BlockView {
        BlockView {
            id: self.id,
            scope: self.scope,
            instructions: self.instructions@,
            location: self.location,
            tails: self.tails@,
        }
    }
}

impl BasicBlock {
    /// An empty block. The successor, where one is given, is not recorded:
    /// control leaves a block through its tails alone.
    pub fn new(
        id: BasicBlockId,
        scope: ScopeId,
        span: SourceLocation,
        next_basic_block_id: Option<BasicBlockId>,
    ) -> (block: Self)
        ensures
            block@ == BlockView::empty(id, scope, span),
    {
        Self { id, instructions: Vec::new(), scope, location: span, tails: Vec::new() }
    }

    pub fn push(&mut self, instruction: FlowInstruction)
        ensures
            final(self)@ == old(self)@.push(instruction),
    {
        self.instructions.push(instruction);
    }

    /// What `id` resolves to from the block's scope.
    pub fn lookup(&self, scopes: &ScopeArena, id: &Id) -> (value: Option<Value>)
        requires
            parents_precede(scopes@),
            self.scope.0 < scopes@.len(),
        ensures
            value.is_some() == resolve(scopes@, self.scope, id@).is_some(),
            value matches Some(value) ==> Some(value@) == resolve(scopes@, self.scope, id@),
    {
        scopes.lookup(self.scope, id)
    }

    /// A copy of the block's body.
    pub fn instructions(&self) -> (instructions: Vec<FlowInstruction>)
        ensures
            instructions@ == self@.instructions,
    {
        let mut copy: Vec<FlowInstruction> = Vec::new();
        let mut i: usize = 0;
        while i < self.instructions.len()
            invariant
                i <= self.instructions.len(),
                copy@ == self.instructions@.take(i as int),
            decreases self.instructions.len() - i,
        {
            copy.push(self.instructions[i].duplicate());
            assert(self.instructions@.take(i as int + 1) == self.instructions@.take(
                i as int,
            ).push(self.instructions@[i as int]));
            i += 1;
        }
        assert(self.instructions@.take(i as int) == self.instructions@);
        copy
    }

    /// The bytes of stack that have been handed out in the block's scope.
    pub fn stack_allocation(&self, scopes: &ScopeArena) -> (allocation: usize)
        requires
            self.scope.0 < scopes@.len(),
        ensures
            allocation == scopes@[self.scope.0 as int].stack_allocation,
    {
        scopes.get(self.scope).stack_allocation()
    }
}

} // verus!
