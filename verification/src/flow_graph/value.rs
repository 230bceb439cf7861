pub mod system_function;

use vstd::prelude::*;

pub use self::system_function::{
    HandlerGenerator, HandlerRow, HandlerTable, OperandKind, SystemFunction,
    SystemFunctionGeneratorFn, SystemFunctionHandlerFn,
};
use super::basic_block::BasicBlockId;
use super::scope::Id;

verus! {

/// What an identifier can be bound to in a scope.
pub enum Value {
    /// A local slot at the given byte offset within the frame's local area.
    StackVariable { offset: usize },
    /// A user-defined function whose body is a basic block.
    Function { id: Option<Id>, params: Vec<Id>, body: BasicBlockId },
    /// The nth incoming parameter.
    FunctionParameter(usize),
    /// A host-provided call target.
    SystemFunction(SystemFunction),
}

/// The mathematical content of a [`Value`]: names are character sequences.
pub enum ValueView {
    StackVariable { offset: usize },
    Function { id: Option<Seq<char>>, params: Seq<Seq<char>>, body: BasicBlockId },
    FunctionParameter(usize),
    SystemFunction(SystemFunction),
}

/// The names in a list of identifiers.
pub open spec fn names_of(ids: Seq<Id>) -> Seq<Seq<char>> {
    Seq::new(ids.len(), |i: int| ids[i]@)
}

impl View for Value {
    type V = ValueView;

    open spec fn view(&self) -> ValueView {
        match *self {
            Value::StackVariable { offset } => ValueView::StackVariable { offset },
            Value::Function { id, params, body } => ValueView::Function {
                id: match id {
                    Some(id) => Some(id@),
                    None => None,
                },
                params: names_of(params@),
                body,
            },
            Value::FunctionParameter(index) => ValueView::FunctionParameter(index),
            Value::SystemFunction(function) => ValueView::SystemFunction(function),
        }
    }
}

/// Copies a list of identifiers.
fn clone_ids(ids: &Vec<Id>) -> (copy: Vec<Id>)
    ensures
        copy@ == ids@,
{
    let mut copy: Vec<Id> = Vec::new();
    let mut i: usize = 0;
    while i < ids.len()
        invariant
            i <= ids.len(),
            copy@ == ids@.take(i as int),
        decreases ids.len() - i,
    {
        copy.push(ids[i].duplicate());
        assert(ids@.take(i as int + 1) == ids@.take(i as int).push(ids@[i as int]));
        i += 1;
    }
    copy
}

impl Value {
    /// A copy of the value.
    pub fn duplicate(&self) -> (copy: Value)
        ensures
            copy@ == self@,
    {
        match self {
            Value::StackVariable { offset } => Value::StackVariable { offset: *offset },
            Value::Function { id, params, body } => {
                let id = match id {
                    Some(id) => Some(id.duplicate()),
                    None => None,
                };
                Value::Function { id, params: clone_ids(params), body: *body }
            },
            Value::FunctionParameter(index) => Value::FunctionParameter(*index),
            Value::SystemFunction(function) => Value::SystemFunction(function.duplicate()),
        }
    }
}

} // verus!
