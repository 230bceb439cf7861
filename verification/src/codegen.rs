//! The native code generator.
//!
//! Code is generated for one basic block at a time. The block's instructions
//! are first turned into machine instructions, with the operand stack of the
//! intermediate representation held in a fixed pool of registers.

pub mod assembler;
pub mod gdb_jit;
pub mod machine;
pub mod memory;
pub mod selection;

use vstd::prelude::*;

use crate::ast::BinaryOperator;
use crate::environment::{Environment, RuntimeLinks, TypeInfo};
use crate::flow_graph::basic_block::{BasicBlock, BlockView};
use crate::flow_graph::scope::{parents_precede, ScopeArena, ScopeId};
use crate::flow_graph::BasicBlockId;
use crate::flow_graph::{FlowInstruction, Id, SystemFunction, TailInstruction, Value};

use self::assembler::{assemble, assembles, machine_code};
use self::gdb_jit::{GdbJitImageRegistration, JITDescriptor};
use self::memory::{make_executable, map_page, page_address, write_page};
use self::machine::{
    argument_register, argument_register_at, epilogue, frame_size, local_displacement_of, prologue,
    restore_registers, save_registers, stack_register, stack_register_at, ARGUMENT_REGISTER_COUNT,
    REGISTER_STACK_DEPTH,
};
use self::selection::{
    assign_code, assignment_slot, block_code, body_code, body_refusal, call_code, declined_function,
    instruction_code, lemma_block_fails_in_selection, literal_code, local_code, operator_code,
    parameter_code, pass_arguments, pass_operands, popped, pushed, refused_construct,
    restore_arguments, return_value_code, save_arguments, system_call_code, tails_code,
    tails_refusal, take_result, target_at, trampoline_code, yields, TRAMPOLINE_FRAME,
};

pub use self::machine::{MachineInstruction, Register};
pub use self::selection::{CodegenError, RefusedConstruct};

verus! {

/// The entry address of generated code. Code at such an address follows the
/// calling convention of the generator and is entered by a call.
pub type UnaryFunction = u64;

/// The bytes of a page of generated code.
pub const CODE_PAGE_SIZE: usize = 4096;

/// The compile-time category of a value on the operand stack.
#[derive(Debug, PartialEq, Eq)]
pub enum CodegenStackEntry {
    Boolean,
    String,
    Number,
    Null,
    StackVariable(usize),
    Id(Id),
}

/// The compile-time model of the operand stack: the category of each value
/// on it, bottom first. The value at depth `n` lives in the `n`th register
/// of the pool.
#[derive(Debug)]
pub struct CodegenContext {
    pub stack: Vec<CodegenStackEntry>,
}

impl CodegenContext {
    pub fn new() -> (context: Self)
        ensures
            context.stack@ == Seq::<CodegenStackEntry>::empty(),
    {
        Self { stack: Vec::new() }
    }

    /// The register that the next pushed value will live in. Fails with a
    /// register stack overflow where the pool is used up.
    pub fn current_stack_register(&self) -> (register: Result<Register, CodegenError>)
        ensures
            match register {
                Ok(register) => stack_register(self.stack@.len() as int) == Some(register),
                Err(error) => error == CodegenError::RegisterStackOverflow && stack_register(
                    self.stack@.len() as int,
                ) is None,
            },
    {
        match stack_register_at(self.stack.len()) {
            Some(register) => Ok(register),
            None => Err(CodegenError::RegisterStackOverflow),
        }
    }

    /// Pushes a value of the given category and returns the register it
    /// lives in.
    pub fn push(&mut self, entry: CodegenStackEntry) -> (register: Result<Register, CodegenError>)
        ensures
            match register {
                Ok(register) => pushed(old(self).stack@, entry) == Ok::<
                    (Seq<CodegenStackEntry>, Register),
                    CodegenError,
                >((final(self).stack@, register)),
                Err(error) => pushed(old(self).stack@, entry) == Err::<
                    (Seq<CodegenStackEntry>, Register),
                    CodegenError,
                >(error) && final(self).stack@ == old(self).stack@,
            },
    {
        let register = match self.current_stack_register() {
            Ok(register) => register,
            Err(error) => {
                return Err(error);
            },
        };
        self.stack.push(entry);
        Ok(register)
    }

    /// The register that carries argument `index` of a call. Fails with an
    /// argument register overflow beyond the fourth argument.
    pub fn argument_register(&self, index: usize) -> (register: Result<Register, CodegenError>)
        ensures
            match register {
                Ok(register) => argument_register(index as int) == Some(register),
                Err(error) => error == CodegenError::ArgumentRegisterOverflow && argument_register(
                    index as int,
                ) is None,
            },
    {
        match argument_register_at(index) {
            Some(register) => Ok(register),
            None => Err(CodegenError::ArgumentRegisterOverflow),
        }
    }

    /// Pops the top value: returns its category and the register it lived
    /// in. Fails with a stack underflow on an empty stack.
    pub fn pop(&mut self) -> (entry: Result<(CodegenStackEntry, Register), CodegenError>)
        ensures
            match entry {
                Ok((entry, register)) => popped(old(self).stack@) == Ok::<
                    (Seq<CodegenStackEntry>, CodegenStackEntry, Register),
                    CodegenError,
                >((final(self).stack@, entry, register)),
                Err(error) => popped(old(self).stack@) == Err::<
                    (Seq<CodegenStackEntry>, CodegenStackEntry, Register),
                    CodegenError,
                >(error) && final(self).stack@ == old(self).stack@,
            },
    {
        if self.stack.len() == 0 {
            return Err(CodegenError::StackUnderflow);
        }
        let register = match stack_register_at(self.stack.len() - 1) {
            Some(register) => register,
            None => {
                return Err(CodegenError::RegisterStackOverflow);
            },
        };
        match self.stack.pop() {
            Some(entry) => Ok((entry, register)),
            None => Err(CodegenError::StackUnderflow),
        }
    }
}

/// Appends a block's prologue.
fn emit_prologue(code: &mut Vec<MachineInstruction>, frame: i32)
    ensures
        final(code)@ == old(code)@ + prologue(frame),
{
    code.push(MachineInstruction::SubImmediate { target: Register::Rsp, value: frame });
    let mut index: usize = 0;
    assert(code@ + save_registers(0) =~= old(code)@ + prologue(frame));
    while index < REGISTER_STACK_DEPTH
        invariant
            index <= REGISTER_STACK_DEPTH,
            code@ + save_registers(index as int) == old(code)@ + prologue(frame),
        decreases REGISTER_STACK_DEPTH - index,
    {
        let ghost before = code@;
        if let Some(source) = stack_register_at(index) {
            code.push(
                MachineInstruction::Store {
                    base: Register::Rsp,
                    displacement: (8 * index) as i32,
                    source,
                },
            );
        }
        assert(code@ + save_registers(index as int + 1) =~= before + save_registers(index as int));
        index += 1;
    }
    assert(code@ + save_registers(index as int) =~= code@);
}

/// Appends a block's epilogue.
fn emit_epilogue(code: &mut Vec<MachineInstruction>, frame: i32)
    ensures
        final(code)@ == old(code)@ + epilogue(frame),
{
    let mut index: usize = 0;
    assert(code@ + restore_registers(0) =~= old(code)@ + restore_registers(0));
    while index < REGISTER_STACK_DEPTH
        invariant
            index <= REGISTER_STACK_DEPTH,
            code@ + restore_registers(index as int) == old(code)@ + restore_registers(0),
        decreases REGISTER_STACK_DEPTH - index,
    {
        let ghost before = code@;
        if let Some(target) = stack_register_at(index) {
            code.push(
                MachineInstruction::Load {
                    target,
                    base: Register::Rsp,
                    displacement: (8 * index) as i32,
                },
            );
        }
        assert(code@ + restore_registers(index as int + 1) =~= before + restore_registers(
            index as int,
        ));
        index += 1;
    }
    assert(code@ + restore_registers(index as int) =~= code@);
    code.push(MachineInstruction::AddImmediate { target: Register::Rsp, value: frame });
    code.push(MachineInstruction::Return);
    assert(code@ =~= old(code)@ + epilogue(frame));
}

/// Moves the arguments of a call of a user function from the operand stack
/// into the argument registers, each into the register of its position.
#[verifier::loop_isolation(false)]
fn emit_arguments(
    context: &mut CodegenContext,
    code: &mut Vec<MachineInstruction>,
    argument_count: usize,
) -> (result: Result<(), CodegenError>)
    ensures
        yields(
            result,
            pass_arguments(old(context).stack@, old(code)@, argument_count as int),
            final(context).stack@,
            final(code)@,
        ),
{
    let mut remaining: usize = argument_count;
    while remaining > 0
        invariant
            pass_arguments(old(context).stack@, old(code)@, argument_count as int)
                == pass_arguments(context.stack@, code@, remaining as int),
        decreases remaining,
    {
        let (entry, source) = match context.pop() {
            Ok(popped) => popped,
            Err(error) => {
                return Err(error);
            },
        };
        match entry {
            CodegenStackEntry::Number => {},
            _ => {
                return Err(CodegenError::NonNumericArgument);
            },
        }
        let target = match context.argument_register(remaining - 1) {
            Ok(register) => register,
            Err(error) => {
                return Err(error);
            },
        };
        code.push(MachineInstruction::MoveRegister { target, source });
        remaining -= 1;
    }
    Ok(())
}

/// Moves the operands of a call of a system function from the operand stack
/// into the argument registers, top of the stack first, and returns their
/// categories in that order.
#[verifier::loop_isolation(false)]
fn emit_operands(
    context: &mut CodegenContext,
    code: &mut Vec<MachineInstruction>,
    arity: usize,
) -> (result: Result<Vec<CodegenStackEntry>, CodegenError>)
    ensures
        match result {
            Ok(categories) => pass_operands(
                old(context).stack@,
                old(code)@,
                Seq::empty(),
                arity as int,
            ) == Ok::<(selection::Selection, Seq<CodegenStackEntry>), CodegenError>(
                ((final(context).stack@, final(code)@), categories@),
            ),
            Err(error) => pass_operands(old(context).stack@, old(code)@, Seq::empty(), arity as int)
                == Err::<(selection::Selection, Seq<CodegenStackEntry>), CodegenError>(error),
        },
{
    let mut categories: Vec<CodegenStackEntry> = Vec::new();
    let mut index: usize = 0;
    while index < arity
        invariant
            index <= arity,
            categories@.len() == index,
            pass_operands(old(context).stack@, old(code)@, Seq::empty(), arity as int)
                == pass_operands(context.stack@, code@, categories@, arity as int),
        decreases arity - index,
    {
        let (entry, source) = match context.pop() {
            Ok(popped) => popped,
            Err(error) => {
                return Err(error);
            },
        };
        let target = match context.argument_register(index) {
            Ok(register) => register,
            Err(error) => {
                return Err(error);
            },
        };
        categories.push(entry);
        code.push(MachineInstruction::MoveRegister { target, source });
        index += 1;
    }
    Ok(categories)
}

/// Pushes the return value of a call, which comes back in `rax`.
fn emit_result(context: &mut CodegenContext, code: &mut Vec<MachineInstruction>) -> (result: Result<
    (),
    CodegenError,
>)
    ensures
        yields(
            result,
            take_result(old(context).stack@, old(code)@),
            final(context).stack@,
            final(code)@,
        ),
{
    let target = match context.push(CodegenStackEntry::Number) {
        Ok(register) => register,
        Err(error) => {
            return Err(error);
        },
    };
    code.push(MachineInstruction::MoveRegister { target, source: Register::Rax });
    Ok(())
}

/// The byte offset of the local slot that an assignment target names.
fn assignment_target(target: &CodegenStackEntry, scopes: &ScopeArena, scope: ScopeId) -> (slot:
    Option<usize>)
    requires
        parents_precede(scopes@),
        scope.0 < scopes@.len(),
    ensures
        slot == assignment_slot(*target, scopes@, scope),
{
    match target {
        CodegenStackEntry::StackVariable(offset) => Some(*offset),
        CodegenStackEntry::Id(id) => match scopes.lookup(scope, id) {
            Some(Value::StackVariable { offset }) => Some(offset),
            _ => None,
        },
        _ => None,
    }
}

/// Selects the store of an assignment.
fn emit_assign(
    context: &mut CodegenContext,
    code: &mut Vec<MachineInstruction>,
    scopes: &ScopeArena,
    scope: ScopeId,
) -> (result: Result<(), CodegenError>)
    requires
        parents_precede(scopes@),
        scope.0 < scopes@.len(),
    ensures
        yields(
            result,
            assign_code(old(context).stack@, old(code)@, scopes@, scope),
            final(context).stack@,
            final(code)@,
        ),
{
    let (left, _) = match context.pop() {
        Ok(popped) => popped,
        Err(error) => {
            return Err(error);
        },
    };
    let (_, source) = match context.pop() {
        Ok(popped) => popped,
        Err(error) => {
            return Err(error);
        },
    };
    let offset = match assignment_target(&left, scopes, scope) {
        Some(offset) => offset,
        None => {
            return Err(CodegenError::UnsupportedAssignment);
        },
    };
    let displacement = match local_displacement_of(offset) {
        Some(displacement) => displacement,
        None => {
            return Err(CodegenError::FrameTooLarge);
        },
    };
    code.push(MachineInstruction::Store { base: Register::Rsp, displacement, source });
    Ok(())
}

/// Selects the load of a number literal.
fn emit_literal(
    context: &mut CodegenContext,
    code: &mut Vec<MachineInstruction>,
    literal: u64,
) -> (result: Result<(), CodegenError>)
    ensures
        yields(
            result,
            literal_code(old(context).stack@, old(code)@, literal),
            final(context).stack@,
            final(code)@,
        ),
{
    let register = match context.push(CodegenStackEntry::Number) {
        Ok(register) => register,
        Err(error) => {
            return Err(error);
        },
    };
    code.push(MachineInstruction::MoveImmediate { target: register, value: literal });
    Ok(())
}

/// Selects the push of an incoming parameter.
fn emit_parameter(
    context: &mut CodegenContext,
    code: &mut Vec<MachineInstruction>,
    index: usize,
) -> (result: Result<(), CodegenError>)
    ensures
        yields(
            result,
            parameter_code(old(context).stack@, old(code)@, index),
            final(context).stack@,
            final(code)@,
        ),
{
    let register = match context.push(CodegenStackEntry::Number) {
        Ok(register) => register,
        Err(error) => {
            return Err(error);
        },
    };
    let source = match context.argument_register(index) {
        Ok(register) => register,
        Err(error) => {
            return Err(error);
        },
    };
    code.push(MachineInstruction::MoveRegister { target: register, source });
    Ok(())
}

/// Selects the load of a local.
fn emit_local(
    context: &mut CodegenContext,
    code: &mut Vec<MachineInstruction>,
    offset: usize,
) -> (result: Result<(), CodegenError>)
    ensures
        yields(
            result,
            local_code(old(context).stack@, old(code)@, offset),
            final(context).stack@,
            final(code)@,
        ),
{
    let register = match context.push(CodegenStackEntry::StackVariable(offset)) {
        Ok(register) => register,
        Err(error) => {
            return Err(error);
        },
    };
    let displacement = match local_displacement_of(offset) {
        Some(displacement) => displacement,
        None => {
            return Err(CodegenError::FrameTooLarge);
        },
    };
    code.push(MachineInstruction::Load { target: register, base: Register::Rsp, displacement });
    Ok(())
}

/// Selects the code of a binary operator.
fn emit_operator(
    context: &mut CodegenContext,
    code: &mut Vec<MachineInstruction>,
    operator: BinaryOperator,
) -> (result: Result<(), CodegenError>)
    ensures
        yields(
            result,
            operator_code(old(context).stack@, old(code)@, operator),
            final(context).stack@,
            final(code)@,
        ),
{
    let (right_entry, right) = match context.pop() {
        Ok(popped) => popped,
        Err(error) => {
            return Err(error);
        },
    };
    let (left_entry, left) = match context.pop() {
        Ok(popped) => popped,
        Err(error) => {
            return Err(error);
        },
    };
    match left_entry {
        CodegenStackEntry::Number => {},
        _ => {
            return Err(CodegenError::NonNumericOperand);
        },
    }
    match right_entry {
        CodegenStackEntry::Number => {},
        _ => {
            return Err(CodegenError::NonNumericOperand);
        },
    }
    match context.push(CodegenStackEntry::Number) {
        Ok(_) => {},
        Err(error) => {
            return Err(error);
        },
    }
    match operator {
        BinaryOperator::Plus => {
            code.push(MachineInstruction::AddRegister { target: left, source: right });
            Ok(())
        },
        _ => Err(CodegenError::UnsupportedOperator),
    }
}

/// Selects a call of a user function.
fn emit_call(
    context: &mut CodegenContext,
    code: &mut Vec<MachineInstruction>,
    argument_count: usize,
    target: Option<u64>,
) -> (result: Result<(), CodegenError>)
    ensures
        yields(
            result,
            call_code(old(context).stack@, old(code)@, argument_count, target),
            final(context).stack@,
            final(code)@,
        ),
{
    match emit_arguments(context, code, argument_count) {
        Ok(()) => {},
        Err(error) => {
            return Err(error);
        },
    }
    let address = match target {
        Some(address) => address,
        None => {
            return Err(CodegenError::UnresolvedTarget);
        },
    };
    code.push(MachineInstruction::CallAddress(address));
    emit_result(context, code)
}

/// Selects a call of a system function.
fn emit_system_call(
    context: &mut CodegenContext,
    code: &mut Vec<MachineInstruction>,
    function: &SystemFunction,
) -> (result: Result<(), CodegenError>)
    ensures
        yields(
            result,
            system_call_code(old(context).stack@, old(code)@, *function),
            final(context).stack@,
            final(code)@,
        ),
{
    let categories = match emit_operands(context, code, function.arity()) {
        Ok(categories) => categories,
        Err(error) => {
            return Err(error);
        },
    };
    let callee = match function.handler_fn(categories.as_slice()) {
        Some(callee) => callee,
        None => {
            return Err(CodegenError::HandlerNotImplemented);
        },
    };
    code.push(MachineInstruction::CallAddress(callee));
    emit_result(context, code)
}

/// Selects the move of the return value into `rax`.
fn emit_return_value(
    context: &mut CodegenContext,
    code: &mut Vec<MachineInstruction>,
) -> (result: Result<(), CodegenError>)
    ensures
        yields(
            result,
            return_value_code(old(context).stack@, old(code)@),
            final(context).stack@,
            final(code)@,
        ),
{
    let (_, return_value) = match context.pop() {
        Ok(popped) => popped,
        Err(error) => {
            return Err(error);
        },
    };
    code.push(MachineInstruction::MoveRegister { target: Register::Rax, source: return_value });
    Ok(())
}

/// Selects the machine instructions of one instruction of the intermediate
/// representation and appends them to `code`, keeping `context` in step
/// with the operand stack.
///
/// `frame` is the frame size of the block, `target` the entry address of
/// the callee where the instruction calls a user function, and `scope` the
/// block's scope.
pub fn codegen_instruction(
    context: &mut CodegenContext,
    code: &mut Vec<MachineInstruction>,
    instruction: &FlowInstruction,
    frame: i32,
    target: Option<u64>,
    scopes: &ScopeArena,
    scope: ScopeId,
) -> (result: Result<(), CodegenError>)
    requires
        parents_precede(scopes@),
        scope.0 < scopes@.len(),
    ensures
        yields(
            result,
            instruction_code(
                old(context).stack@,
                old(code)@,
                *instruction,
                frame,
                target,
                scopes@,
                scope,
            ),
            final(context).stack@,
            final(code)@,
        ),
{
    match instruction {
        FlowInstruction::FunctionPrologue => {
            emit_prologue(code, frame);
            Ok(())
        },
        FlowInstruction::FunctionEpilogue => {
            emit_epilogue(code, frame);
            Ok(())
        },
        FlowInstruction::Assign => emit_assign(context, code, scopes, scope),
        FlowInstruction::PushLiteralBoolean(_) => Err(CodegenError::UnsupportedInstruction),
        FlowInstruction::PushLiteralString(_) => Err(CodegenError::UnsupportedInstruction),
        FlowInstruction::PushLiteralNumber(literal) => emit_literal(context, code, *literal),
        FlowInstruction::PushLiteralNull => Err(CodegenError::UnsupportedInstruction),
        FlowInstruction::PushFunctionParameter(index) => emit_parameter(context, code, *index),
        FlowInstruction::PushStackVariable(offset) => emit_local(context, code, *offset),
        FlowInstruction::ApplyBinaryOperator(operator) => emit_operator(context, code, *operator),
        FlowInstruction::CallFunction { basic_block_id: _, argument_count } => emit_call(
            context,
            code,
            *argument_count,
            target,
        ),
        FlowInstruction::CallSystemFunction(function) => emit_system_call(context, code, function),
        FlowInstruction::ReturnValue => emit_return_value(context, code),
        FlowInstruction::Return => {
            code.push(MachineInstruction::MoveImmediate { target: Register::Rax, value: 0 });
            Ok(())
        },
        FlowInstruction::GoToBlock(_) => Err(CodegenError::UnsupportedInstruction),
        FlowInstruction::DiscardValue => {
            match context.pop() {
                Ok(_) => Ok(()),
                Err(error) => Err(error),
            }
        },
    }
}

/// The entry address supplied at `index`, if any.
fn target_of(targets: &Vec<Option<u64>>, index: usize) -> (target: Option<u64>)
    ensures
        target == target_at(targets@, index as int),
{
    if index < targets.len() {
        targets[index]
    } else {
        None
    }
}

/// Why selection refused a block: the error, the construct that was
/// refused, and, where the handler generator of a system function declined
/// the operands, the name of that function.
#[derive(Debug, PartialEq, Eq)]
pub struct Refusal {
    pub error: CodegenError,
    pub construct: RefusedConstruct,
    pub system_function: Option<String>,
}

impl Refusal {
    /// The refusal says what selection does with the block: it names the
    /// error that selection gives, the first construct that it refuses, and
    /// the system function that declined, where one did.
    pub open spec fn explains(
        &self,
        block: BlockView,
        scopes: Seq<crate::flow_graph::ScopeView>,
        call_targets: Seq<Option<u64>>,
        jump_targets: Seq<Option<u64>>,
    ) -> bool {
        &&& block_code(block, scopes, call_targets, jump_targets) == Err::<
            Seq<MachineInstruction>,
            CodegenError,
        >(self.error)
        &&& refused_construct(block, scopes, call_targets, jump_targets) == Some(self.construct)
        &&& match self.system_function {
            Some(name) => declined_function(block, self.construct, self.error) == Some(name@),
            None => declined_function(block, self.construct, self.error) is None,
        }
    }
}

/// Selects the machine instructions of a block: its body, from an empty
/// operand stack, then its tails.
///
/// `call_targets` gives, at the index of each call of a user function in
/// the body, the entry address of the callee; `jump_targets` gives, at the
/// index of each tail, the entry address of the block it leads to.
pub fn codegen_block(
    block: &BasicBlock,
    scopes: &ScopeArena,
    call_targets: &Vec<Option<u64>>,
    jump_targets: &Vec<Option<u64>>,
) -> (result: Result<Vec<MachineInstruction>, CodegenError>)
    requires
        parents_precede(scopes@),
    ensures
        match result {
            Ok(code) => block_code(block@, scopes@, call_targets@, jump_targets@) == Ok::<
                Seq<MachineInstruction>,
                CodegenError,
            >(code@),
            Err(error) => block_code(block@, scopes@, call_targets@, jump_targets@) == Err::<
                Seq<MachineInstruction>,
                CodegenError,
            >(error),
        },
{
    match codegen_block_explained(block, scopes, call_targets, jump_targets) {
        Ok(code) => Ok(code),
        Err(refusal) => Err(refusal.error),
    }
}

/// Selects the machine instructions of a block, as [`codegen_block`] does,
/// and where the block is refused says why: which construct of the block is
/// the first that selection refuses, with what error, and which system
/// function declined its operands, if that is the error.
#[verifier::loop_isolation(false)]
pub fn codegen_block_explained(
    block: &BasicBlock,
    scopes: &ScopeArena,
    call_targets: &Vec<Option<u64>>,
    jump_targets: &Vec<Option<u64>>,
) -> (result: Result<Vec<MachineInstruction>, Refusal>)
    requires
        parents_precede(scopes@),
    ensures
        match result {
            Ok(code) => block_code(block@, scopes@, call_targets@, jump_targets@) == Ok::<
                Seq<MachineInstruction>,
                CodegenError,
            >(code@) && refused_construct(block@, scopes@, call_targets@, jump_targets@)
                is None,
            Err(refusal) => refusal.explains(block@, scopes@, call_targets@, jump_targets@),
        },
{
    if block.scope.0 >= scopes.len() {
        return Err(
            Refusal {
                error: CodegenError::InvalidBlock,
                construct: RefusedConstruct::Block,
                system_function: None,
            },
        );
    }
    let frame = match frame_size(block.stack_allocation(scopes)) {
        Some(frame) => frame,
        None => {
            return Err(
                Refusal {
                    error: CodegenError::FrameTooLarge,
                    construct: RefusedConstruct::Block,
                    system_function: None,
                },
            );
        },
    };
    let mut context = CodegenContext::new();
    let mut code: Vec<MachineInstruction> = Vec::new();
    let mut index: usize = 0;
    while index < block.instructions.len()
        invariant
            index <= block.instructions.len(),
            body_code(
                Seq::empty(),
                Seq::empty(),
                block@.instructions,
                0,
                frame,
                call_targets@,
                scopes@,
                block.scope,
            ) == body_code(
                context.stack@,
                code@,
                block@.instructions,
                index as int,
                frame,
                call_targets@,
                scopes@,
                block.scope,
            ),
            body_refusal(
                Seq::empty(),
                Seq::empty(),
                block@.instructions,
                0,
                frame,
                call_targets@,
                scopes@,
                block.scope,
            ) == body_refusal(
                context.stack@,
                code@,
                block@.instructions,
                index as int,
                frame,
                call_targets@,
                scopes@,
                block.scope,
            ),
        decreases block.instructions.len() - index,
    {
        match codegen_instruction(
            &mut context,
            &mut code,
            &block.instructions[index],
            frame,
            target_of(call_targets, index),
            scopes,
            block.scope,
        ) {
            Ok(()) => {},
            Err(error) => {
                let system_function = match &block.instructions[index] {
                    FlowInstruction::CallSystemFunction(function) => {
                        if error == CodegenError::HandlerNotImplemented {
                            Some(function.name().to_owned())
                        } else {
                            None
                        }
                    },
                    _ => None,
                };
                return Err(
                    Refusal {
                        error,
                        construct: RefusedConstruct::Instruction(index),
                        system_function,
                    },
                );
            },
        }
        index += 1;
    }
    let ghost body = code@;
    let mut index: usize = 0;
    while index < block.tails.len()
        invariant
            index <= block.tails.len(),
            tails_code(body, block@.tails, 0, jump_targets@) == tails_code(
                code@,
                block@.tails,
                index as int,
                jump_targets@,
            ),
            tails_refusal(body, block@.tails, 0, jump_targets@) == tails_refusal(
                code@,
                block@.tails,
                index as int,
                jump_targets@,
            ),
        decreases block.tails.len() - index,
    {
        match block.tails[index] {
            TailInstruction::Jump(_) => {
                let address = match target_of(jump_targets, index) {
                    Some(address) => address,
                    None => {
                        return Err(
                            Refusal {
                                error: CodegenError::UnresolvedTarget,
                                construct: RefusedConstruct::Tail(index),
                                system_function: None,
                            },
                        );
                    },
                };
                code.push(MachineInstruction::JumpAddress(address));
            },
            TailInstruction::ConditionalJump(_) => {
                return Err(
                    Refusal {
                        error: CodegenError::UnsupportedTail,
                        construct: RefusedConstruct::Tail(index),
                        system_function: None,
                    },
                );
            },
        }
        index += 1;
    }
    Ok(code)
}

/// The trampoline of a block, as a listing.
fn trampoline_listing(links: RuntimeLinks, basic_block_id: &BasicBlockId) -> (listing: Vec<
    MachineInstruction,
>)
    ensures
        listing@ == trampoline_code(
            links.environment,
            basic_block_id.0 as u64,
            links.trampoline_routine,
        ),
{
    let mut listing: Vec<MachineInstruction> = Vec::new();
    listing.push(
        MachineInstruction::SubImmediate { target: Register::Rsp, value: TRAMPOLINE_FRAME },
    );
    let ghost taken = listing@;
    let mut index: usize = 0;
    assert(listing@ + save_arguments(0) =~= taken + save_arguments(0));
    while index < ARGUMENT_REGISTER_COUNT
        invariant
            index <= ARGUMENT_REGISTER_COUNT,
            listing@ + save_arguments(index as int) == taken + save_arguments(0),
        decreases ARGUMENT_REGISTER_COUNT - index,
    {
        let ghost before = listing@;
        if let Some(source) = argument_register_at(index) {
            listing.push(
                MachineInstruction::Store {
                    base: Register::Rsp,
                    displacement: (32 + 8 * index) as i32,
                    source,
                },
            );
        }
        assert(listing@ + save_arguments(index as int + 1) =~= before + save_arguments(
            index as int,
        ));
        index += 1;
    }
    assert(listing@ =~= taken + save_arguments(0));
    listing.push(
        MachineInstruction::MoveImmediate { target: Register::Rcx, value: links.environment },
    );
    listing.push(
        MachineInstruction::MoveImmediate { target: Register::Rdx, value: basic_block_id.0 as u64 },
    );
    listing.push(MachineInstruction::CallAddress(links.trampoline_routine));
    let ghost called = listing@;
    let mut index: usize = 0;
    assert(listing@ + restore_arguments(0) =~= called + restore_arguments(0));
    while index < ARGUMENT_REGISTER_COUNT
        invariant
            index <= ARGUMENT_REGISTER_COUNT,
            listing@ + restore_arguments(index as int) == called + restore_arguments(0),
        decreases ARGUMENT_REGISTER_COUNT - index,
    {
        let ghost before = listing@;
        if let Some(target) = argument_register_at(index) {
            listing.push(
                MachineInstruction::Load {
                    target,
                    base: Register::Rsp,
                    displacement: (32 + 8 * index) as i32,
                },
            );
        }
        assert(listing@ + restore_arguments(index as int + 1) =~= before + restore_arguments(
            index as int,
        ));
        index += 1;
    }
    assert(listing@ =~= called + restore_arguments(0));
    listing.push(
        MachineInstruction::AddImmediate { target: Register::Rsp, value: TRAMPOLINE_FRAME },
    );
    listing.push(MachineInstruction::JumpRegister(Register::Rax));
    assert(listing@ =~= trampoline_code(
        links.environment,
        basic_block_id.0 as u64,
        links.trampoline_routine,
    ));
    listing
}

/// Publishes a listing as executable code: a fresh page is mapped, the
/// listing is encoded for the page's address and written to it, the page is
/// made executable, and the image is registered with the debugger's list.
/// Returns the address of the code, the registration that owns the page, and
/// the length of the code in bytes. The page is one of [`CODE_PAGE_SIZE`]
/// bytes, and the code stands at its start.
///
/// Whether memory can be had and the listing encoded is for the system and
/// the assembler to say; where either fails, the list is as it was.
pub(crate) fn assemble_code(
    listing: &Vec<MachineInstruction>,
    descriptor: &mut JITDescriptor,
) -> (result: Result<(u64, GdbJitImageRegistration, usize), CodegenError>)
    requires
        old(descriptor).wf(),
    ensures
        final(descriptor).wf(),
        match result {
            Ok((base_address, registration, size)) => {
                &&& registration.spec_file().len() == CODE_PAGE_SIZE
                &&& size <= CODE_PAGE_SIZE
                &&& assembles(listing@, base_address)
                &&& registration.spec_file().take(size as int) == machine_code(
                    listing@,
                    base_address,
                )
                &&& registration.spec_entry() == old(descriptor).entries@.len()
                &&& final(descriptor).list() == seq![registration.spec_entry()]
                    + old(descriptor).list()
            },
            Err(error) => (error == CodegenError::Assembler || error == CodegenError::Memory)
                && final(descriptor).list() == old(descriptor).list(),
        },
{
    let mut page = match map_page(CODE_PAGE_SIZE) {
        Ok(page) => page,
        Err(_) => {
            return Err(CodegenError::Memory);
        },
    };
    let base_address = page_address(&page);
    let instructions = match assemble(listing, base_address) {
        Ok(instructions) => instructions,
        Err(error) => {
            return Err(error);
        },
    };
    let size = instructions.len();
    match write_page(&mut page, instructions.as_slice()) {
        Ok(()) => {},
        Err(_) => {
            return Err(CodegenError::Memory);
        },
    }
    let image = match make_executable(page) {
        Ok(image) => image,
        Err(_) => {
            return Err(CodegenError::Memory);
        },
    };
    let registration = GdbJitImageRegistration::register(image, descriptor);
    assert(registration.spec_file().take(size as int) =~= instructions@);
    Ok((base_address, registration, size))
}

/// Emits the trampoline of a block: a stub that has the block compiled when
/// it is entered, and then enters the compiled code.
///
/// On success the published code is the encoding, at the returned address,
/// of [`trampoline_code`] for the environment's links and the block. The
/// caches are not touched.
pub fn codegen_trampoline(environment: &mut Environment, basic_block_id: &BasicBlockId) -> (result:
    Result<(GdbJitImageRegistration, UnaryFunction, usize), CodegenError>)
    requires
        old(environment).wf(),
    ensures
        final(environment).wf(),
        final(environment).same_code(old(environment)),
        match result {
            Ok((registration, entry, size)) => {
                &&& final(environment).newly_holds(registration)
                &&& old(environment).spec_links() matches Some(links)
                &&& registration.spec_file().len() == CODE_PAGE_SIZE
                &&& size <= CODE_PAGE_SIZE
                &&& registration.spec_file().take(size as int) == machine_code(
                    trampoline_code(
                        links.environment,
                        basic_block_id.0 as u64,
                        links.trampoline_routine,
                    ),
                    entry,
                )
            },
            Err(error) => (error == CodegenError::NotAttached <==> old(environment).spec_links()
                is None) && (error == CodegenError::NotAttached || error
                == CodegenError::Assembler || error == CodegenError::Memory),
        },
{
    let links = match environment.links() {
        Some(links) => links,
        None => {
            return Err(CodegenError::NotAttached);
        },
    };
    let listing = trampoline_listing(links, basic_block_id);
    environment.publish(&listing)
}

/// The entry addresses of the callees of a block's body: at the index of
/// each call of a user function, what the callee resolves to.
pub open spec fn call_targets(
    resolve: spec_fn(BasicBlockId) -> Option<u64>,
    instructions: Seq<FlowInstruction>,
) -> Seq<Option<u64>> {
    Seq::new(
        instructions.len(),
        |index: int|
            match instructions[index] {
                FlowInstruction::CallFunction { basic_block_id, .. } => resolve(basic_block_id),
                _ => None,
            },
    )
}

/// The entry addresses of the blocks that a block's tails lead to: at the
/// index of each jump, what its target resolves to.
pub open spec fn jump_targets(
    resolve: spec_fn(BasicBlockId) -> Option<u64>,
    tails: Seq<TailInstruction>,
) -> Seq<Option<u64>> {
    Seq::new(
        tails.len(),
        |index: int|
            match tails[index] {
                TailInstruction::Jump(target) => resolve(target),
                TailInstruction::ConditionalJump(_) => None,
            },
    )
}

/// The block that an instruction calls, where it calls a user function.
pub open spec fn callee_of(instruction: FlowInstruction) -> Option<BasicBlockId> {
    match instruction {
        FlowInstruction::CallFunction { basic_block_id, .. } => Some(basic_block_id),
        _ => None,
    }
}

/// The block that a tail jumps to, where it is a jump.
pub open spec fn successor_of(tail: TailInstruction) -> Option<BasicBlockId> {
    match tail {
        TailInstruction::Jump(target) => Some(target),
        TailInstruction::ConditionalJump(_) => None,
    }
}

/// Whether `block` is a block that the environment has neither code nor a
/// trampoline for.
pub open spec fn unentered(environment: &Environment, block: Option<BasicBlockId>) -> bool {
    match block {
        Some(block) => environment.entry_point(block, TypeInfo) is None,
        None => false,
    }
}

/// Whether the environment lacks an entry for one of `blocks`.
pub open spec fn any_unentered(
    environment: &Environment,
    blocks: Seq<Option<BasicBlockId>>,
) -> bool {
    exists|at: int| 0 <= at < blocks.len() && unentered(environment, #[trigger] blocks[at])
}

/// Whether generating code for `block` has a trampoline emitted: the block
/// calls, or jumps to, a block that the environment has no entry for.
pub open spec fn needs_trampoline(environment: &Environment, block: BlockView) -> bool {
    ||| exists|index: int|
        0 <= index < block.instructions.len() && unentered(
            environment,
            callee_of(#[trigger] block.instructions[index]),
        )
    ||| exists|index: int|
        0 <= index < block.tails.len() && unentered(
            environment,
            successor_of(#[trigger] block.tails[index]),
        )
}

/// The blocks that the body of a block calls: at the index of each call of
/// a user function, the callee.
fn callees_of(block: &BasicBlock) -> (callees: Vec<Option<BasicBlockId>>)
    ensures
        callees@.len() == block.instructions@.len(),
        forall|index: int|
            0 <= index < callees@.len() ==> #[trigger] callees@[index]
                == match block.instructions@[index] {
                FlowInstruction::CallFunction { basic_block_id, .. } => Some(basic_block_id),
                _ => None,
            },
{
    let mut callees: Vec<Option<BasicBlockId>> = Vec::new();
    let mut index: usize = 0;
    while index < block.instructions.len()
        invariant
            index <= block.instructions.len(),
            callees@.len() == index,
            forall|at: int|
                0 <= at < index ==> #[trigger] callees@[at] == match block.instructions@[at] {
                    FlowInstruction::CallFunction { basic_block_id, .. } => Some(basic_block_id),
                    _ => None,
                },
        decreases block.instructions.len() - index,
    {
        let callee = match &block.instructions[index] {
            FlowInstruction::CallFunction { basic_block_id, argument_count: _ } => Some(
                *basic_block_id,
            ),
            _ => None,
        };
        callees.push(callee);
        index += 1;
    }
    callees
}

/// The blocks that the tails of a block jump to.
fn successors_of(block: &BasicBlock) -> (successors: Vec<Option<BasicBlockId>>)
    ensures
        successors@.len() == block.tails@.len(),
        forall|index: int|
            0 <= index < successors@.len() ==> #[trigger] successors@[index]
                == match block.tails@[index] {
                TailInstruction::Jump(target) => Some(target),
                TailInstruction::ConditionalJump(_) => None,
            },
{
    let mut successors: Vec<Option<BasicBlockId>> = Vec::new();
    let mut index: usize = 0;
    while index < block.tails.len()
        invariant
            index <= block.tails.len(),
            successors@.len() == index,
            forall|at: int|
                0 <= at < index ==> #[trigger] successors@[at] == match block.tails@[at] {
                    TailInstruction::Jump(target) => Some(target),
                    TailInstruction::ConditionalJump(_) => None,
                },
        decreases block.tails.len() - index,
    {
        let successor = match block.tails[index] {
            TailInstruction::Jump(target) => Some(target),
            TailInstruction::ConditionalJump(_) => None,
        };
        successors.push(successor);
        index += 1;
    }
    successors
}

/// What `blocks` resolve to in the environment, index by index.
pub open spec fn resolved(environment: &Environment, blocks: Seq<Option<BasicBlockId>>) -> Seq<
    Option<u64>,
> {
    Seq::new(
        blocks.len(),
        |index: int|
            match blocks[index] {
                Some(block) => environment.entry_point(block, TypeInfo),
                None => None,
            },
    )
}

/// Resolves each of `blocks` to the address at which it is entered, which
/// emits a trampoline for each block that has neither code nor trampoline.
#[verifier::loop_isolation(false)]
fn resolve_targets(environment: &mut Environment, blocks: &Vec<Option<BasicBlockId>>) -> (result:
    Result<Vec<Option<u64>>, CodegenError>)
    requires
        old(environment).wf(),
    ensures
        final(environment).wf(),
        final(environment).extends(old(environment)),
        final(environment).compilations() == old(environment).compilations(),
        forall|id: BasicBlockId, type_info: TypeInfo|
            #![all_triggers]
            final(environment).compiled_for(id, type_info) == old(environment).compiled_for(
                id,
                type_info,
            ),
        match result {
            Ok(targets) => {
                &&& targets@ == resolved(final(environment), blocks@)
                &&& forall|at: int|
                    0 <= at < blocks@.len() && blocks@[at] is Some ==> (#[trigger] targets@[at])
                        is Some
                &&& old(environment).spec_links() is None ==> final(environment).same_code(
                    old(environment),
                ) && !any_unentered(old(environment), blocks@)
            },
            Err(error) => {
                &&& error == CodegenError::NotAttached <==> old(environment).spec_links() is None
                &&& error == CodegenError::NotAttached || error == CodegenError::Assembler
                    || error == CodegenError::Memory
                &&& old(environment).spec_links() is None ==> any_unentered(
                    old(environment),
                    blocks@,
                )
            },
        },
{
    let mut targets: Vec<Option<u64>> = Vec::new();
    let mut index: usize = 0;
    while index < blocks.len()
        invariant
            index <= blocks.len(),
            environment.wf(),
            environment.extends(old(environment)),
            environment.compilations() == old(environment).compilations(),
            forall|id: BasicBlockId, type_info: TypeInfo|
                #![all_triggers]
                environment.compiled_for(id, type_info) == old(environment).compiled_for(
                    id,
                    type_info,
                ),
            targets@ == resolved(environment, blocks@.take(index as int)),
            forall|at: int|
                0 <= at < index && blocks@[at] is Some ==> (#[trigger] targets@[at]) is Some,
            old(environment).spec_links() is None ==> environment.same_code(old(environment))
                && forall|at: int|
                0 <= at < index ==> !unentered(old(environment), #[trigger] blocks@[at]),
        decreases blocks.len() - index,
    {
        let ghost earlier = *environment;
        let ghost done = targets@;
        let target = match blocks[index] {
            Some(block) => match environment.basic_block_fn(block, TypeInfo) {
                Ok(entry) => Some(entry),
                Err(error) => {
                    assert(old(environment).spec_links() is None ==> unentered(
                        old(environment),
                        blocks@[index as int],
                    ));
                    return Err(error);
                },
            },
            None => None,
        };
        targets.push(target);
        proof {
            let prefix = blocks@.take(index as int);
            let longer = blocks@.take(index as int + 1);
            assert forall|at: int| 0 <= at < longer.len() implies targets@[at] == resolved(
                environment,
                longer,
            )[at] by {
                if at < index {
                    assert(done[at] == resolved(&earlier, prefix)[at]);
                    assert(longer[at] == prefix[at]);
                    assert(prefix[at] == blocks@[at]);
                    if let Some(block) = prefix[at] {
                        assert(done[at] is Some);
                        assert(earlier.entry_point(block, TypeInfo) == done[at]);
                        if earlier.compiled(block, TypeInfo) is None {
                            assert(earlier.trampoline(block, TypeInfo) is Some);
                        }
                    }
                }
            }
            assert(targets@ =~= resolved(environment, longer));
        }
        index += 1;
    }
    assert(blocks@.take(index as int) == blocks@);
    Ok(targets)
}

/// Generates the native code of a basic block and publishes it.
///
/// The callees of the block and the blocks its tails jump to are resolved
/// to their entry addresses first, which emits trampolines for those that
/// have none; then the machine instructions of the block are selected,
/// encoded and published. On success the published code is the encoding, at
/// the returned address, of [`block_code`] for the block with those entry
/// addresses. Compiled code is neither added to the cache nor replaced.
pub fn codegen_basic_block(environment: &mut Environment, basic_block_id: &BasicBlockId) -> (result:
    Result<(GdbJitImageRegistration, UnaryFunction, usize), CodegenError>)
    requires
        old(environment).wf(),
    ensures
        final(environment).wf(),
        final(environment).extends(old(environment)),
        final(environment).compilations() == old(environment).compilations(),
        forall|id: BasicBlockId, type_info: TypeInfo|
            #![all_triggers]
            final(environment).compiled_for(id, type_info) == old(environment).compiled_for(
                id,
                type_info,
            ),
        match result {
            Ok((registration, entry, size)) => {
                &&& final(environment).newly_holds(registration)
                &&& old(environment).graph().block(*basic_block_id) matches Some(block)
                &&& block_code(
                    block,
                    old(environment).graph().scopes,
                    call_targets(final(environment).entries(), block.instructions),
                    jump_targets(final(environment).entries(), block.tails),
                ) matches Ok(listing)
                &&& registration.spec_file().len() == CODE_PAGE_SIZE
                &&& size <= CODE_PAGE_SIZE
                &&& registration.spec_file().take(size as int) == machine_code(listing, entry)
            },
            Err(error) => match old(environment).graph().block(*basic_block_id) {
                Some(block) => {
                    &&& error == CodegenError::NotAttached <==> old(environment).spec_links()
                        is None && needs_trampoline(old(environment), block)
                    &&& error == CodegenError::NotAttached || error == CodegenError::Assembler
                        || error == CodegenError::Memory || block_code(
                        block,
                        old(environment).graph().scopes,
                        call_targets(final(environment).entries(), block.instructions),
                        jump_targets(final(environment).entries(), block.tails),
                    ) == Err::<Seq<MachineInstruction>, CodegenError>(error)
                },
                None => error == CodegenError::InvalidBlock,
            },
        },
{
    let ghost found = old(environment).graph().block(*basic_block_id);
    let (callees, successors) = match environment.get_basic_block(basic_block_id) {
        Some(block) => (callees_of(block), successors_of(block)),
        None => {
            return Err(CodegenError::InvalidBlock);
        },
    };
    let ghost block = found->Some_0;
    let call_entries = match resolve_targets(environment, &callees) {
        Ok(entries) => entries,
        Err(error) => {
            proof {
                if old(environment).spec_links() is None {
                    let at = choose|at: int|
                        0 <= at < callees@.len() && unentered(
                            old(environment),
                            #[trigger] callees@[at],
                        );
                    assert(callees@[at] == callee_of(block.instructions[at]));
                }
            }
            return Err(error);
        },
    };
    let ghost resolving = *environment;
    let jump_entries = match resolve_targets(environment, &successors) {
        Ok(entries) => entries,
        Err(error) => {
            proof {
                if old(environment).spec_links() is None {
                    let at = choose|at: int|
                        0 <= at < successors@.len() && unentered(
                            &resolving,
                            #[trigger] successors@[at],
                        );
                    assert(successors@[at] == successor_of(block.tails[at]));
                    assert(unentered(old(environment), successor_of(block.tails[at])));
                }
            }
            return Err(error);
        },
    };
    let ghost resolved_environment = *environment;
    proof {
        if old(environment).spec_links() is None {
            assert(resolving.same_code(old(environment)));
            assert(!needs_trampoline(old(environment), block)) by {
                assert forall|index: int| 0 <= index < block.instructions.len() implies !unentered(
                    old(environment),
                    callee_of(#[trigger] block.instructions[index]),
                ) by {
                    assert(callees@[index] == callee_of(block.instructions[index]));
                }
                assert forall|index: int| 0 <= index < block.tails.len() implies !unentered(
                    old(environment),
                    successor_of(#[trigger] block.tails[index]),
                ) by {
                    assert(successors@[index] == successor_of(block.tails[index]));
                    assert(!unentered(&resolving, successors@[index]));
                }
            }
        }
        lemma_block_fails_in_selection(
            block,
            old(environment).graph().scopes,
            call_entries@,
            jump_entries@,
        );
    }
    proof {
        let earlier = resolved(&resolving, callees@);
        let later = call_targets(resolved_environment.entries(), block.instructions);
        assert forall|index: int| 0 <= index < earlier.len() implies earlier[index]
            == later[index] by {
            if let Some(callee) = callees@[index] {
                assert(call_entries@[index] is Some);
                if resolving.compiled(callee, TypeInfo) is None {
                    assert(resolving.trampoline(callee, TypeInfo) is Some);
                }
            }
        }
        assert(call_entries@ =~= later);
        assert(jump_entries@ =~= jump_targets(resolved_environment.entries(), block.tails));
    }
    let selected = match environment.get_basic_block(basic_block_id) {
        Some(block) => codegen_block(
            block,
            environment.scopes(),
            &call_entries,
            &jump_entries,
        ),
        None => Err(CodegenError::InvalidBlock),
    };
    let listing = match selected {
        Ok(listing) => listing,
        Err(error) => {
            return Err(error);
        },
    };
    let published = environment.publish(&listing);
    proof {
        assert forall|id: BasicBlockId| #![all_triggers]
            environment.entry_point(id, TypeInfo) == resolved_environment.entry_point(
                id,
                TypeInfo,
            ) by {}
        assert(call_targets(environment.entries(), block.instructions) =~= call_targets(
            resolved_environment.entries(),
            block.instructions,
        ));
        assert(jump_targets(environment.entries(), block.tails) =~= jump_targets(
            resolved_environment.entries(),
            block.tails,
        ));
    }
    published
}

} // verus!
