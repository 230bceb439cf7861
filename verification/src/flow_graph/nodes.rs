//! The lowering of each kind of node.

pub mod expression;
pub mod expression_statement;
pub mod for_statement;
pub mod function_decl;
pub mod return_statement;
pub mod variable_declaration;
