use vstd::prelude::*;

verus! {

/// A point in the source text.
#[derive(Clone, Copy, Debug, Default, PartialEq, Eq, Structural)]
pub struct SourcePosition {
    /// Byte offset from the start of the text.
    pub offset: usize,
    /// Line number, counted from one.
    pub line: u32,
}

/// The stretch of source text that a construct was read from.
#[derive(Clone, Copy, Debug, Default, PartialEq, Eq, Structural)]
pub struct SourceLocation {
    pub start: SourcePosition,
    pub end: SourcePosition,
}

} // verus!
