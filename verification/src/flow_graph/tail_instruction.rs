use vstd::prelude::*;

use super::basic_block::BasicBlockId;

verus! {

/// A control transfer at the end of a basic block.
#[derive(Debug, Clone, Copy, PartialEq, Eq, Structural)]
pub enum TailInstruction {
    Jump(BasicBlockId),
    ConditionalJump(BasicBlockId),
}

} // verus!
