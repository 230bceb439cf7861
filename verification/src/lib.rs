//! A lazy, block-at-a-time just-in-time compiler core: syntax trees are lowered
//! into a flow graph of basic blocks over a stack-machine instruction set, and
//! each block is turned into x86-64 machine code the first time it is needed.

pub mod ast;
pub mod codegen;
pub mod environment;
pub mod flow_graph;
pub mod source_location;

pub use self::codegen::CodegenStackEntry;
pub use self::environment::Environment;
pub use self::flow_graph::{
    FlowGraph, HandlerGenerator, HandlerRow, HandlerTable, Id, OperandKind, Scope, SystemFunction,
    SystemFunctionGeneratorFn, SystemFunctionHandlerFn, Value,
};
pub use self::source_location::{SourceLocation, SourcePosition};
