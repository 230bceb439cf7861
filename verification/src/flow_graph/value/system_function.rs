use std::rc::Rc;
use vstd::prelude::*;

use crate::codegen::CodegenStackEntry;

verus! {

/// The address of a native routine that follows the integer-argument calling
/// convention and returns a 64-bit integer.
pub type SystemFunctionHandlerFn = u64;

/// Chooses the native routine that serves a call of a system function, from
/// the compile-time categories of the arguments about to be passed.
///
/// The choice is a function of the categories alone: `handler_for` says what
/// it is, and `handler` computes it.
pub trait HandlerGenerator {
    /// The handler for the given argument categories, or `None` where the
    /// combination is not supported.
    spec fn handler_for(&self, arguments: Seq<CodegenStackEntry>) -> Option<
        SystemFunctionHandlerFn,
    >;

    fn handler(&self, arguments: &[CodegenStackEntry]) -> (handler: Option<
        SystemFunctionHandlerFn,
    >)
        ensures
            handler == self.handler_for(arguments@),
    ;
}

/// A boxed handler generator, as a host hands it over.
pub type SystemFunctionGeneratorFn = Box<dyn HandlerGenerator>;

/// A host-provided callable: its name, its arity and its handler generator.
pub struct SystemFunction {
    name: String,
    arity: usize,
    generator: Rc<SystemFunctionGeneratorFn>,
}

/// `Rc::clone`: the new pointer shares the allocation, so it stands for the
/// same value as the one it was cloned from.
#[verifier::external_body]
fn share_generator(generator: &Rc<SystemFunctionGeneratorFn>) -> (shared: Rc<
    SystemFunctionGeneratorFn,
>)
    ensures
        shared == *generator,
{
    Rc::clone(generator)
}

impl SystemFunction {
    pub fn new(name: String, arity: usize, generator: SystemFunctionGeneratorFn) -> (function:
        Self)
        ensures
            function.spec_name() == name@,
            function.spec_arity() == arity,
            forall|arguments: Seq<CodegenStackEntry>|
                #[trigger] function.spec_handler_fn(arguments) == generator.handler_for(
                    arguments,
                ),
    {
        let shared = Rc::new(generator);
        assert(forall|arguments: Seq<CodegenStackEntry>|
            shared.handler_for(arguments) == generator.handler_for(arguments));
        Self { name, arity, generator: shared }
    }

    pub closed spec fn spec_name(&self) -> Seq<char> {
        self.name@
    }

    pub closed spec fn spec_arity(&self) -> usize {
        self.arity
    }

    pub closed spec fn spec_generator(&self) -> Rc<SystemFunctionGeneratorFn> {
        self.generator
    }

    /// The handler that the generator chooses for the given categories.
    pub open spec fn spec_handler_fn(&self, arguments: Seq<CodegenStackEntry>) -> Option<
        SystemFunctionHandlerFn,
    > {
        self.spec_generator().handler_for(arguments)
    }

    pub fn name(&self) -> (name: &str)
        ensures
            name@ == self.spec_name(),
    {
        self.name.as_str()
    }

    #[verifier::when_used_as_spec(spec_arity)]
    pub fn arity(&self) -> (arity: usize)
        ensures
            arity == self.spec_arity(),
    {
        self.arity
    }

    pub fn handler_fn(&self, arguments: &[CodegenStackEntry]) -> (handler: Option<
        SystemFunctionHandlerFn,
    >)
        ensures
            handler == self.spec_handler_fn(arguments@),
    {
        let generator: &SystemFunctionGeneratorFn = &self.generator;
        generator.handler(arguments)
    }

    /// A copy that shares the handler generator.
    pub fn duplicate(&self) -> (copy: SystemFunction)
        ensures
            copy == *self,
    {
        SystemFunction {
            name: self.name.clone(),
            arity: self.arity,
            generator: share_generator(&self.generator),
        }
    }
}

/// The category of an operand without what it carries.
#[derive(Clone, Copy, Debug, PartialEq, Eq, Hash, Structural)]
pub enum OperandKind {
    Boolean,
    String,
    Number,
    Null,
    StackVariable,
    Id,
}

/// The kind of an operand category.
pub open spec fn kind_of(entry: CodegenStackEntry) -> OperandKind {
    match entry {
        CodegenStackEntry::Boolean => OperandKind::Boolean,
        CodegenStackEntry::String => OperandKind::String,
        CodegenStackEntry::Number => OperandKind::Number,
        CodegenStackEntry::Null => OperandKind::Null,
        CodegenStackEntry::StackVariable(_) => OperandKind::StackVariable,
        CodegenStackEntry::Id(_) => OperandKind::Id,
    }
}

/// The kinds of a list of operand categories.
pub open spec fn kinds_of(entries: Seq<CodegenStackEntry>) -> Seq<OperandKind> {
    Seq::new(entries.len(), |index: int| kind_of(entries[index]))
}

/// One row of a handler table: the handler that serves operands of exactly
/// these kinds, in this order.
pub struct HandlerRow {
    pub arguments: Vec<OperandKind>,
    pub handler: SystemFunctionHandlerFn,
}

/// The handler of the first row from index `from` on that serves `kinds`.
pub open spec fn first_match(rows: Seq<HandlerRow>, kinds: Seq<OperandKind>, from: int) -> Option<
    SystemFunctionHandlerFn,
>
    decreases rows.len() - from,
{
    if from < 0 || from >= rows.len() {
        None
    } else if rows[from].arguments@ == kinds {
        Some(rows[from].handler)
    } else {
        first_match(rows, kinds, from + 1)
    }
}

/// A handler generator that is a table: the first row whose kinds are those
/// of the operands gives the handler, and operands that no row serves are
/// declined.
pub struct HandlerTable {
    pub rows: Vec<HandlerRow>,
}

/// Whether two lists of kinds are the same.
fn same_kinds(first: &Vec<OperandKind>, second: &Vec<OperandKind>) -> (same: bool)
    ensures
        same == (first@ == second@),
{
    if first.len() != second.len() {
        return false;
    }
    let mut index: usize = 0;
    while index < first.len()
        invariant
            index <= first.len(),
            first.len() == second.len(),
            first@.take(index as int) == second@.take(index as int),
        decreases first.len() - index,
    {
        if first[index] != second[index] {
            return false;
        }
        assert(first@.take(index as int + 1) == first@.take(index as int).push(
            first@[index as int],
        ));
        assert(second@.take(index as int + 1) == second@.take(index as int).push(
            second@[index as int],
        ));
        index += 1;
    }
    assert(first@.take(index as int) == first@);
    assert(second@.take(index as int) == second@);
    true
}

impl CodegenStackEntry {
    /// The kind of the category.
    pub fn kind(&self) -> (kind: OperandKind)
        ensures
            kind == kind_of(*self),
    {
        match self {
            CodegenStackEntry::Boolean => OperandKind::Boolean,
            CodegenStackEntry::String => OperandKind::String,
            CodegenStackEntry::Number => OperandKind::Number,
            CodegenStackEntry::Null => OperandKind::Null,
            CodegenStackEntry::StackVariable(_) => OperandKind::StackVariable,
            CodegenStackEntry::Id(_) => OperandKind::Id,
        }
    }
}

impl HandlerGenerator for HandlerTable {
    open spec fn handler_for(&self, arguments: Seq<CodegenStackEntry>) -> Option<
        SystemFunctionHandlerFn,
    > {
        first_match(self.rows@, kinds_of(arguments), 0)
    }

    fn handler(&self, arguments: &[CodegenStackEntry]) -> (handler: Option<
        SystemFunctionHandlerFn,
    >) {
        let mut kinds: Vec<OperandKind> = Vec::new();
        let mut index: usize = 0;
        while index < arguments.len()
            invariant
                index <= arguments@.len(),
                kinds@ == kinds_of(arguments@.take(index as int)),
            decreases arguments@.len() - index,
        {
            kinds.push(arguments[index].kind());
            assert(kinds@ =~= kinds_of(arguments@.take(index as int + 1)));
            index += 1;
        }
        assert(arguments@.take(index as int) == arguments@);
        let mut row: usize = 0;
        while row < self.rows.len()
            invariant
                row <= self.rows.len(),
                kinds@ == kinds_of(arguments@),
                first_match(self.rows@, kinds@, 0) == first_match(self.rows@, kinds@, row as int),
            decreases self.rows.len() - row,
        {
            if same_kinds(&self.rows[row].arguments, &kinds) {
                return Some(self.rows[row].handler);
            }
            row += 1;
        }
        None
    }
}

} // verus!
