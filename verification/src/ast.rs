//! The syntax tree that the flow graph builder consumes.
//!
//! The tree is plain data: a parser front end fills it in, and the builder
//! reads it. Constructs that the builder has no lowering for are carried as
//! [`NodeKind::Unsupported`], so that they can be named when they are refused.

use vstd::prelude::*;

use crate::source_location::{SourceLocation, SourcePosition};

verus! {

/// A binary operator token.
#[derive(Clone, Copy, Debug, PartialEq, Eq, Structural)]
pub enum BinaryOperator {
    EqualsEquals,
    NotEquals,
    TripleEquals,
    TripleNotEquals,
    LessThan,
    LessThanEquals,
    GreaterThan,
    GreaterThanEquals,
    ZeroFillLeftShift,
    SignedRightShift,
    ZeroFillRightShift,
    Exponentiation,
    Plus,
    Minus,
    Asterisk,
    Slash,
    Percent,
    BitwiseOr,
    BitwiseXor,
    BitwiseAnd,
    In,
    Instanceof,
}

/// A literal value. Numbers are carried as the 64-bit integer that the
/// generated code materialises.
#[derive(Clone, Debug, PartialEq, Eq)]
pub enum LiteralValue {
    String(String),
    Boolean(bool),
    Null,
    Number(u64),
    RegExp(String),
}

/// A function declaration: optional name, parameter patterns and body.
#[derive(Debug, PartialEq, Eq)]
pub struct Function {
    pub id: Option<Box<Node>>,
    pub params: Vec<Node>,
    pub body: Box<Node>,
    pub is_async: bool,
}

/// The kinds of node that the builder distinguishes.
#[derive(Debug, PartialEq, Eq)]
pub enum NodeKind {
    Identifier { name: String },
    Literal { value: LiteralValue },
    Program { body: Vec<Node> },
    ExpressionStatement { expression: Box<Node>, directive: Option<String> },
    BlockStatement { body: Vec<Node> },
    ReturnStatement { argument: Option<Box<Node>> },
    ForStatement {
        init: Option<Box<Node>>,
        test: Option<Box<Node>>,
        update: Option<Box<Node>>,
        body: Box<Node>,
    },
    FunctionDeclaration { function: Function },
    VariableDeclaration { declarations: Vec<Node> },
    VariableDeclarator { id: Box<Node>, init: Option<Box<Node>> },
    BinaryExpression { operator: BinaryOperator, left: Box<Node>, right: Box<Node> },
    CallExpression { callee: Box<Node>, arguments: Vec<Node> },
    /// Any construct without a lowering, under the name of its kind.
    Unsupported { name: String },
}

/// A node of the syntax tree with the span of source text it covers.
#[derive(Debug, PartialEq, Eq)]
pub struct Node {
    pub kind: NodeKind,
    pub start: SourcePosition,
    pub end: SourcePosition,
}

impl Node {
    /// The stretch of source text that the node covers.
    pub open spec fn spec_location(&self) -> SourceLocation {
        SourceLocation { start: self.start, end: self.end }
    }

    /// The stretch of source text that the node covers.
    #[verifier::when_used_as_spec(spec_location)]
    pub fn location(&self) -> (location: SourceLocation)
        ensures
            location == self.spec_location(),
    {
        SourceLocation { start: self.start, end: self.end }
    }
}

} // verus!
