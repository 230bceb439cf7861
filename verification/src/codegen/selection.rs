//! What instruction selection means: the machine instructions that a block
//! of the intermediate representation stands for, as mathematical functions
//! of the block.
//!
//! The operand stack of the intermediate representation lives in registers:
//! the operand at depth `n` is held by the `n`th register of a fixed pool.
//! Selection tracks the category of each operand on the stack and is refused
//! with the first error met in instruction order.

use vstd::prelude::*;

use super::machine::{
    argument_register, epilogue, frame_bytes, local_displacement, prologue, stack_register,
    MachineInstruction, Register, ARGUMENT_REGISTER_COUNT,
};
use super::CodegenStackEntry;
use crate::ast::BinaryOperator;
use crate::flow_graph::basic_block::BlockView;
use crate::flow_graph::basic_block::BasicBlockId;
use crate::flow_graph::flow_instruction::{
    finds_operands, lemma_finds_operands_concat, lemma_finds_operands_push, lemma_net_effect_concat,
    lemma_net_effect_push, net_effect, FlowInstruction,
};
use crate::flow_graph::lowering::GraphView;
use crate::flow_graph::scope::{resolve, ScopeId, ScopeView};
use crate::flow_graph::tail_instruction::TailInstruction;
use crate::flow_graph::value::{SystemFunction, ValueView};

verus! {

/// Why code generation failed.
#[derive(Clone, Copy, Debug, PartialEq, Eq, Structural)]
pub enum CodegenError {
    /// The operand stack is deeper than the register pool.
    RegisterStackOverflow,
    /// A call passes more arguments than travel in registers.
    ArgumentRegisterOverflow,
    /// An instruction takes an operand from an empty operand stack.
    StackUnderflow,
    /// An instruction that has no code: a boolean, string or null literal,
    /// or a jump in the body of a block.
    UnsupportedInstruction,
    /// A tail that has no code: a conditional jump.
    UnsupportedTail,
    /// A binary operator applied to an operand that is not a number.
    NonNumericOperand,
    /// A call of a user function with an argument that is not a number.
    NonNumericArgument,
    /// A binary operator that has no code.
    UnsupportedOperator,
    /// An assignment to something that is not a local slot.
    UnsupportedAssignment,
    /// The handler generator of a system function declines the categories
    /// of the arguments.
    HandlerNotImplemented,
    /// A call or a jump whose target address was not supplied.
    UnresolvedTarget,
    /// No block with the requested identifier.
    InvalidBlock,
    /// The environment has not been told the addresses to link against.
    NotAttached,
    /// The frame or a local's displacement does not fit 32 bits.
    FrameTooLarge,
    /// The assembler refused the selected instructions.
    Assembler,
    /// Executable memory could not be had, written or protected.
    Memory,
}

/// An operand stack and the instructions selected so far.
pub type Selection = (Seq<CodegenStackEntry>, Seq<MachineInstruction>);

/// An operation on a selection did what `expected` says: it succeeded with
/// the stack and the code that `expected` gives, or failed with the error
/// that `expected` gives.
pub open spec fn yields(
    result: Result<(), CodegenError>,
    expected: Result<Selection, CodegenError>,
    stack: Seq<CodegenStackEntry>,
    code: Seq<MachineInstruction>,
) -> bool {
    match result {
        Ok(()) => expected == Ok::<Selection, CodegenError>((stack, code)),
        Err(error) => expected == Err::<Selection, CodegenError>(error),
    }
}

/// The stack after `entry` has been pushed, and the register that holds it.
pub open spec fn pushed(stack: Seq<CodegenStackEntry>, entry: CodegenStackEntry) -> Result<
    (Seq<CodegenStackEntry>, Register),
    CodegenError,
> {
    match stack_register(stack.len() as int) {
        Some(register) => Ok((stack.push(entry), register)),
        None => Err(CodegenError::RegisterStackOverflow),
    }
}

/// The stack after its top entry has been popped, that entry, and the register
/// that held it.
pub open spec fn popped(stack: Seq<CodegenStackEntry>) -> Result<
    (Seq<CodegenStackEntry>, CodegenStackEntry, Register),
    CodegenError,
> {
    if stack.len() == 0 {
        Err(CodegenError::StackUnderflow)
    } else {
        match stack_register(stack.len() - 1) {
            Some(register) => Ok((stack.drop_last(), stack.last(), register)),
            None => Err(CodegenError::RegisterStackOverflow),
        }
    }
}

/// The local slot that an assignment target names, as a byte offset.
pub open spec fn assignment_slot(
    target: CodegenStackEntry,
    scopes: Seq<ScopeView>,
    scope: ScopeId,
) -> Option<usize> {
    match target {
        CodegenStackEntry::StackVariable(offset) => Some(offset),
        CodegenStackEntry::Id(id) => match resolve(scopes, scope, id@) {
            Some(ValueView::StackVariable { offset }) => Some(offset),
            _ => None,
        },
        _ => None,
    }
}

/// The selection after the arguments of a call of a user function have been
/// moved into their registers: argument `count - 1` is on top of the stack,
/// and each argument goes to the register of its own position.
pub open spec fn pass_arguments(
    stack: Seq<CodegenStackEntry>,
    code: Seq<MachineInstruction>,
    count: int,
) -> Result<Selection, CodegenError>
    decreases count,
{
    if count <= 0 {
        Ok((stack, code))
    } else {
        match popped(stack) {
            Ok((rest, entry, source)) => if entry != CodegenStackEntry::Number {
                Err(CodegenError::NonNumericArgument)
            } else {
                match argument_register(count - 1) {
                    Some(target) => pass_arguments(
                        rest,
                        code.push(MachineInstruction::MoveRegister { target, source }),
                        count - 1,
                    ),
                    None => Err(CodegenError::ArgumentRegisterOverflow),
                }
            },
            Err(error) => Err(error),
        }
    }
}

/// The selection after the operands of a call of a system function have
/// been moved into registers, and their categories: the operand on top of
/// the stack goes to the first argument register and is recorded first.
pub open spec fn pass_operands(
    stack: Seq<CodegenStackEntry>,
    code: Seq<MachineInstruction>,
    categories: Seq<CodegenStackEntry>,
    arity: int,
) -> Result<(Selection, Seq<CodegenStackEntry>), CodegenError>
    decreases arity - categories.len(),
{
    if categories.len() >= arity {
        Ok(((stack, code), categories))
    } else {
        match popped(stack) {
            Ok((rest, entry, source)) => match argument_register(categories.len() as int) {
                Some(target) => pass_operands(
                    rest,
                    code.push(MachineInstruction::MoveRegister { target, source }),
                    categories.push(entry),
                    arity,
                ),
                None => Err(CodegenError::ArgumentRegisterOverflow),
            },
            Err(error) => Err(error),
        }
    }
}

/// The selection after the return value of a call has been pushed: it comes
/// back in `rax` and is a number.
pub open spec fn take_result(
    stack: Seq<CodegenStackEntry>,
    code: Seq<MachineInstruction>,
) -> Result<Selection, CodegenError> {
    match pushed(stack, CodegenStackEntry::Number) {
        Ok((stack, target)) => Ok(
            (stack, code.push(MachineInstruction::MoveRegister { target, source: Register::Rax })),
        ),
        Err(error) => Err(error),
    }
}

/// The selection after an assignment: the target is popped, then the value,
/// which is stored into the target's slot.
pub open spec fn assign_code(
    stack: Seq<CodegenStackEntry>,
    code: Seq<MachineInstruction>,
    scopes: Seq<ScopeView>,
    scope: ScopeId,
) -> Result<Selection, CodegenError> {
    match popped(stack) {
        Ok((rest, left, _)) => match popped(rest) {
            Ok((rest, _, source)) => match assignment_slot(left, scopes, scope) {
                Some(offset) => if local_displacement(offset as int) > i32::MAX {
                    Err(CodegenError::FrameTooLarge)
                } else {
                    Ok(
                        (
                            rest,
                            code.push(
                                MachineInstruction::Store {
                                    base: Register::Rsp,
                                    displacement: local_displacement(offset as int) as i32,
                                    source,
                                },
                            ),
                        ),
                    )
                },
                None => Err(CodegenError::UnsupportedAssignment),
            },
            Err(error) => Err(error),
        },
        Err(error) => Err(error),
    }
}

/// The selection after a number literal has been pushed.
pub open spec fn literal_code(
    stack: Seq<CodegenStackEntry>,
    code: Seq<MachineInstruction>,
    value: u64,
) -> Result<Selection, CodegenError> {
    match pushed(stack, CodegenStackEntry::Number) {
        Ok((stack, target)) => Ok(
            (stack, code.push(MachineInstruction::MoveImmediate { target, value })),
        ),
        Err(error) => Err(error),
    }
}

/// The selection after an incoming parameter has been pushed.
pub open spec fn parameter_code(
    stack: Seq<CodegenStackEntry>,
    code: Seq<MachineInstruction>,
    index: usize,
) -> Result<Selection, CodegenError> {
    match pushed(stack, CodegenStackEntry::Number) {
        Ok((stack, target)) => match argument_register(index as int) {
            Some(source) => Ok(
                (stack, code.push(MachineInstruction::MoveRegister { target, source })),
            ),
            None => Err(CodegenError::ArgumentRegisterOverflow),
        },
        Err(error) => Err(error),
    }
}

/// The selection after the local at byte offset `offset` has been pushed.
pub open spec fn local_code(
    stack: Seq<CodegenStackEntry>,
    code: Seq<MachineInstruction>,
    offset: usize,
) -> Result<Selection, CodegenError> {
    match pushed(stack, CodegenStackEntry::StackVariable(offset)) {
        Ok((stack, target)) => if local_displacement(offset as int) > i32::MAX {
            Err(CodegenError::FrameTooLarge)
        } else {
            Ok(
                (
                    stack,
                    code.push(
                        MachineInstruction::Load {
                            target,
                            base: Register::Rsp,
                            displacement: local_displacement(offset as int) as i32,
                        },
                    ),
                ),
            )
        },
        Err(error) => Err(error),
    }
}

/// The selection after a binary operator: both operands are popped, right
/// one first, and must be numbers; the result takes the left operand's
/// place. Addition adds the right register into the left one.
pub open spec fn operator_code(
    stack: Seq<CodegenStackEntry>,
    code: Seq<MachineInstruction>,
    operator: BinaryOperator,
) -> Result<Selection, CodegenError> {
    match popped(stack) {
        Ok((rest, right, source)) => match popped(rest) {
            Ok((rest, left, target)) => if left != CodegenStackEntry::Number || right
                != CodegenStackEntry::Number {
                Err(CodegenError::NonNumericOperand)
            } else {
                match pushed(rest, CodegenStackEntry::Number) {
                    Ok((stack, _)) => match operator {
                        BinaryOperator::Plus => Ok(
                            (stack, code.push(MachineInstruction::AddRegister { target, source })),
                        ),
                        _ => Err(CodegenError::UnsupportedOperator),
                    },
                    Err(error) => Err(error),
                }
            },
            Err(error) => Err(error),
        },
        Err(error) => Err(error),
    }
}

/// The selection after a call of a user function with `argument_count`
/// arguments, whose entry address is `target`.
pub open spec fn call_code(
    stack: Seq<CodegenStackEntry>,
    code: Seq<MachineInstruction>,
    argument_count: usize,
    target: Option<u64>,
) -> Result<Selection, CodegenError> {
    match pass_arguments(stack, code, argument_count as int) {
        Ok((stack, code)) => match target {
            Some(address) => take_result(
                stack,
                code.push(MachineInstruction::CallAddress(address)),
            ),
            None => Err(CodegenError::UnresolvedTarget),
        },
        Err(error) => Err(error),
    }
}

/// The selection after a call of a system function: the handler is the one
/// that the function's generator chooses for the categories of the operands.
pub open spec fn system_call_code(
    stack: Seq<CodegenStackEntry>,
    code: Seq<MachineInstruction>,
    function: SystemFunction,
) -> Result<Selection, CodegenError> {
    match pass_operands(stack, code, Seq::empty(), function.spec_arity() as int) {
        Ok(((stack, code), categories)) => match function.spec_handler_fn(categories) {
            Some(handler) => take_result(
                stack,
                code.push(MachineInstruction::CallAddress(handler)),
            ),
            None => Err(CodegenError::HandlerNotImplemented),
        },
        Err(error) => Err(error),
    }
}

/// The selection after the top of the stack has become the return value.
pub open spec fn return_value_code(
    stack: Seq<CodegenStackEntry>,
    code: Seq<MachineInstruction>,
) -> Result<Selection, CodegenError> {
    match popped(stack) {
        Ok((rest, _, source)) => Ok(
            (rest, code.push(MachineInstruction::MoveRegister { target: Register::Rax, source })),
        ),
        Err(error) => Err(error),
    }
}

/// The selection after the top of the stack has been dropped.
pub open spec fn discard_code(
    stack: Seq<CodegenStackEntry>,
    code: Seq<MachineInstruction>,
) -> Result<Selection, CodegenError> {
    match popped(stack) {
        Ok((rest, _, _)) => Ok((rest, code)),
        Err(error) => Err(error),
    }
}

/// The selection after one instruction of the intermediate representation.
///
/// `frame` is the block's frame size, `target` the entry address of the
/// callee where the instruction calls a user function, and `scope` the
/// block's scope among `scopes`.
pub open spec fn instruction_code(
    stack: Seq<CodegenStackEntry>,
    code: Seq<MachineInstruction>,
    instruction: FlowInstruction,
    frame: i32,
    target: Option<u64>,
    scopes: Seq<ScopeView>,
    scope: ScopeId,
) -> Result<Selection, CodegenError> {
    match instruction {
        FlowInstruction::FunctionPrologue => Ok((stack, code + prologue(frame))),
        FlowInstruction::FunctionEpilogue => Ok((stack, code + epilogue(frame))),
        FlowInstruction::Assign => assign_code(stack, code, scopes, scope),
        FlowInstruction::PushLiteralBoolean(_) => Err(CodegenError::UnsupportedInstruction),
        FlowInstruction::PushLiteralString(_) => Err(CodegenError::UnsupportedInstruction),
        FlowInstruction::PushLiteralNumber(value) => literal_code(stack, code, value),
        FlowInstruction::PushLiteralNull => Err(CodegenError::UnsupportedInstruction),
        FlowInstruction::PushFunctionParameter(index) => parameter_code(stack, code, index),
        FlowInstruction::PushStackVariable(offset) => local_code(stack, code, offset),
        FlowInstruction::ApplyBinaryOperator(operator) => operator_code(stack, code, operator),
        FlowInstruction::CallFunction { basic_block_id, argument_count } => call_code(
            stack,
            code,
            argument_count,
            target,
        ),
        FlowInstruction::CallSystemFunction(function) => system_call_code(stack, code, function),
        FlowInstruction::ReturnValue => return_value_code(stack, code),
        FlowInstruction::Return => Ok(
            (
                stack,
                code.push(MachineInstruction::MoveImmediate { target: Register::Rax, value: 0 }),
            ),
        ),
        FlowInstruction::GoToBlock(_) => Err(CodegenError::UnsupportedInstruction),
        FlowInstruction::DiscardValue => discard_code(stack, code),
    }
}

/// The bytes that a trampoline takes from the stack: 32 bytes of shadow
/// space for the routine it calls, a slot for each of the four argument
/// registers above them, and 8 more, so that the stack pointer, which is 8
/// below a multiple of 16 when the trampoline is entered, is on a multiple
/// of 16 at the call.
pub const TRAMPOLINE_FRAME: i32 = 72;

/// The displacement from the stack pointer of the slot in which a
/// trampoline keeps argument register `index`: the slots lie above the
/// shadow space of the routine that the trampoline calls.
pub open spec fn argument_slot(index: int) -> int {
    32 + 8 * index
}

/// The instructions that save the argument registers from `from` on into
/// their slots.
pub open spec fn save_arguments(from: int) -> Seq<MachineInstruction>
    decreases ARGUMENT_REGISTER_COUNT - from,
{
    if from < 0 || from >= ARGUMENT_REGISTER_COUNT {
        Seq::empty()
    } else {
        seq![
            MachineInstruction::Store {
                base: Register::Rsp,
                displacement: argument_slot(from) as i32,
                source: argument_register(from)->Some_0,
            },
        ] + save_arguments(from + 1)
    }
}

/// The instructions that restore the argument registers from `from` on out
/// of their slots.
pub open spec fn restore_arguments(from: int) -> Seq<MachineInstruction>
    decreases ARGUMENT_REGISTER_COUNT - from,
{
    if from < 0 || from >= ARGUMENT_REGISTER_COUNT {
        Seq::empty()
    } else {
        seq![
            MachineInstruction::Load {
                target: argument_register(from)->Some_0,
                base: Register::Rsp,
                displacement: argument_slot(from) as i32,
            },
        ] + restore_arguments(from + 1)
    }
}

/// The instructions of the trampoline of a block: all four argument
/// registers are saved, the host's routine is called with the environment
/// and the block's identifier, the argument registers are restored, and
/// control goes on, by a tail call, to the code whose address the routine
/// returned. The code that is entered so finds the arguments as the caller
/// of the trampoline passed them.
pub open spec fn trampoline_code(environment: u64, block: u64, routine: u64) -> Seq<
    MachineInstruction,
> {
    seq![MachineInstruction::SubImmediate { target: Register::Rsp, value: TRAMPOLINE_FRAME }]
        + save_arguments(0) + seq![
        MachineInstruction::MoveImmediate { target: Register::Rcx, value: environment },
        MachineInstruction::MoveImmediate { target: Register::Rdx, value: block },
        MachineInstruction::CallAddress(routine),
    ] + restore_arguments(0) + seq![
        MachineInstruction::AddImmediate { target: Register::Rsp, value: TRAMPOLINE_FRAME },
        MachineInstruction::JumpRegister(Register::Rax),
    ]
}

/// A trampoline keeps every argument register: for each of the four, its
/// code holds the store that saves the register before the call of the
/// host's routine and, after the call, the load that restores it from the
/// same slot. The frame leaves the stack pointer on a multiple of 16 at the
/// call, and the slots clear the 32 bytes of shadow space below them.
pub proof fn lemma_trampoline_keeps_arguments(
    environment: u64,
    block: u64,
    routine: u64,
    index: int,
)
    requires
        0 <= index < ARGUMENT_REGISTER_COUNT,
    ensures
        ({
            let code = trampoline_code(environment, block, routine);
            let register = argument_register(index)->Some_0;
            &&& code.len() == 14
            &&& code[0] == MachineInstruction::SubImmediate {
                target: Register::Rsp,
                value: TRAMPOLINE_FRAME,
            }
            &&& code[1 + index] == MachineInstruction::Store {
                base: Register::Rsp,
                displacement: argument_slot(index) as i32,
                source: register,
            }
            &&& code[7] == MachineInstruction::CallAddress(routine)
            &&& code[8 + index] == MachineInstruction::Load {
                target: register,
                base: Register::Rsp,
                displacement: argument_slot(index) as i32,
            }
            &&& code[13] == MachineInstruction::JumpRegister(Register::Rax)
            &&& 32 <= argument_slot(index) && argument_slot(index) + 8 <= TRAMPOLINE_FRAME
            &&& (TRAMPOLINE_FRAME + 8) % 16 == 0
        }),
{
    reveal_with_fuel(save_arguments, 5);
    reveal_with_fuel(restore_arguments, 5);
    let saves = save_arguments(0);
    let restores = restore_arguments(0);
    assert(saves.len() == 4);
    assert(restores.len() == 4);
    assert(saves[index] == MachineInstruction::Store {
        base: Register::Rsp,
        displacement: argument_slot(index) as i32,
        source: argument_register(index)->Some_0,
    });
    assert(restores[index] == MachineInstruction::Load {
        target: argument_register(index)->Some_0,
        base: Register::Rsp,
        displacement: argument_slot(index) as i32,
    });
}

/// The entry address supplied for the instruction or tail at `index`.
pub open spec fn target_at(targets: Seq<Option<u64>>, index: int) -> Option<u64> {
    if 0 <= index < targets.len() {
        targets[index]
    } else {
        None
    }
}

/// The selection after the instructions from index `from` on, in order.
pub open spec fn body_code(
    stack: Seq<CodegenStackEntry>,
    code: Seq<MachineInstruction>,
    instructions: Seq<FlowInstruction>,
    from: int,
    frame: i32,
    targets: Seq<Option<u64>>,
    scopes: Seq<ScopeView>,
    scope: ScopeId,
) -> Result<Selection, CodegenError>
    decreases instructions.len() - from,
{
    if from < 0 || from >= instructions.len() {
        Ok((stack, code))
    } else {
        match instruction_code(
            stack,
            code,
            instructions[from],
            frame,
            target_at(targets, from),
            scopes,
            scope,
        ) {
            Ok((stack, code)) => body_code(
                stack,
                code,
                instructions,
                from + 1,
                frame,
                targets,
                scopes,
                scope,
            ),
            Err(error) => Err(error),
        }
    }
}

/// The instructions after the tails from index `from` on, in order: a jump
/// becomes a jump to the entry address of its target.
pub open spec fn tails_code(
    code: Seq<MachineInstruction>,
    tails: Seq<TailInstruction>,
    from: int,
    targets: Seq<Option<u64>>,
) -> Result<Seq<MachineInstruction>, CodegenError>
    decreases tails.len() - from,
{
    if from < 0 || from >= tails.len() {
        Ok(code)
    } else {
        match tails[from] {
            TailInstruction::Jump(_) => match target_at(targets, from) {
                Some(address) => tails_code(
                    code.push(MachineInstruction::JumpAddress(address)),
                    tails,
                    from + 1,
                    targets,
                ),
                None => Err(CodegenError::UnresolvedTarget),
            },
            TailInstruction::ConditionalJump(_) => Err(CodegenError::UnsupportedTail),
        }
    }
}

/// The machine instructions of a block: its body, selected from an empty
/// operand stack, then its tails.
///
/// `call_targets` gives, at the index of each call of a user function in
/// the body, the entry address of the callee; `jump_targets` gives, at the
/// index of each tail, the entry address of the block it leads to.
pub open spec fn block_code(
    block: BlockView,
    scopes: Seq<ScopeView>,
    call_targets: Seq<Option<u64>>,
    jump_targets: Seq<Option<u64>>,
) -> Result<Seq<MachineInstruction>, CodegenError> {
    if block.scope.0 >= scopes.len() {
        Err(CodegenError::InvalidBlock)
    } else if frame_bytes(scopes[block.scope.0 as int].stack_allocation as int) > i32::MAX {
        Err(CodegenError::FrameTooLarge)
    } else {
        match body_code(
            Seq::empty(),
            Seq::empty(),
            block.instructions,
            0,
            frame_bytes(scopes[block.scope.0 as int].stack_allocation as int) as i32,
            call_targets,
            scopes,
            block.scope,
        ) {
            Ok((_, code)) => tails_code(code, block.tails, 0, jump_targets),
            Err(error) => Err(error),
        }
    }
}

/// Passing the arguments of a call takes exactly that many operands off
/// the stack.
pub proof fn lemma_arguments_leave_the_stack(
    stack: Seq<CodegenStackEntry>,
    code: Seq<MachineInstruction>,
    count: int,
)
    requires
        count >= 0,
    ensures
        pass_arguments(stack, code, count) matches Ok((rest, _)) ==> rest.len() == stack.len()
            - count,
    decreases count,
{
    if count > 0 {
        if let Ok((rest, entry, source)) = popped(stack) {
            if let Some(target) = argument_register(count - 1) {
                lemma_arguments_leave_the_stack(
                    rest,
                    code.push(MachineInstruction::MoveRegister { target, source }),
                    count - 1,
                );
            }
        }
    }
}

/// Passing the operands of a system call takes as many operands off the
/// stack as are still to be passed.
pub proof fn lemma_operands_leave_the_stack(
    stack: Seq<CodegenStackEntry>,
    code: Seq<MachineInstruction>,
    categories: Seq<CodegenStackEntry>,
    arity: int,
)
    requires
        categories.len() <= arity,
    ensures
        pass_operands(stack, code, categories, arity) matches Ok(((rest, _), _)) ==> rest.len()
            == stack.len() - (arity - categories.len()),
    decreases arity - categories.len(),
{
    if categories.len() < arity {
        if let Ok((rest, entry, source)) = popped(stack) {
            if let Some(target) = argument_register(categories.len() as int) {
                lemma_operands_leave_the_stack(
                    rest,
                    code.push(MachineInstruction::MoveRegister { target, source }),
                    categories.push(entry),
                    arity,
                );
            }
        }
    }
}

/// The code generator's operand stack moves as the stack effect of each
/// instruction says: where an instruction is selected, the stack is deeper
/// afterwards by exactly its stack effect.
pub proof fn lemma_selection_follows_stack_effect(
    stack: Seq<CodegenStackEntry>,
    code: Seq<MachineInstruction>,
    instruction: FlowInstruction,
    frame: i32,
    target: Option<u64>,
    scopes: Seq<ScopeView>,
    scope: ScopeId,
)
    ensures
        instruction_code(stack, code, instruction, frame, target, scopes, scope) matches Ok(
            (after, _),
        ) ==> after.len() == stack.len() + instruction.stack_effect(),
{
    match instruction {
        FlowInstruction::CallFunction { basic_block_id, argument_count } => {
            lemma_arguments_leave_the_stack(stack, code, argument_count as int);
        },
        FlowInstruction::CallSystemFunction(function) => {
            lemma_operands_leave_the_stack(
                stack,
                code,
                Seq::empty(),
                function.spec_arity() as int,
            );
        },
        _ => {},
    }
}

/// Over the body of a block the operand stack moves by the sum of the stack
/// effects: where the instructions from `from` on are selected, the stack
/// is deeper afterwards by their net effect. A block whose body has no net
/// effect leaves the stack as deep as it found it.
pub proof fn lemma_body_follows_net_effect(
    stack: Seq<CodegenStackEntry>,
    code: Seq<MachineInstruction>,
    instructions: Seq<FlowInstruction>,
    from: int,
    frame: i32,
    targets: Seq<Option<u64>>,
    scopes: Seq<ScopeView>,
    scope: ScopeId,
)
    requires
        0 <= from <= instructions.len(),
    ensures
        body_code(stack, code, instructions, from, frame, targets, scopes, scope) matches Ok(
            (after, _),
        ) ==> after.len() == stack.len() + net_effect(
            instructions.subrange(from, instructions.len() as int),
        ),
    decreases instructions.len() - from,
{
    let rest = instructions.subrange(from, instructions.len() as int);
    if from < instructions.len() {
        let first = instructions[from];
        let tail = instructions.subrange(from + 1, instructions.len() as int);
        lemma_selection_follows_stack_effect(
            stack,
            code,
            first,
            frame,
            target_at(targets, from),
            scopes,
            scope,
        );
        if let Ok((stack, code)) = instruction_code(
            stack,
            code,
            first,
            frame,
            target_at(targets, from),
            scopes,
            scope,
        ) {
            lemma_body_follows_net_effect(
                stack,
                code,
                instructions,
                from + 1,
                frame,
                targets,
                scopes,
                scope,
            );
        }
        assert(rest == seq![first] + tail);
        lemma_net_effect_concat(seq![first], tail);
        lemma_net_effect_push(Seq::empty(), first);
        assert(seq![first] == Seq::<FlowInstruction>::empty().push(first));
    } else {
        assert(rest.len() == 0);
    }
}

/// Passing the arguments of a call does not run out of operands where the
/// stack holds as many as the call takes.
pub proof fn lemma_arguments_are_found(
    stack: Seq<CodegenStackEntry>,
    code: Seq<MachineInstruction>,
    count: int,
)
    requires
        stack.len() >= count,
    ensures
        pass_arguments(stack, code, count) != Err::<Selection, CodegenError>(
            CodegenError::StackUnderflow,
        ),
    decreases count,
{
    if count > 0 {
        if let Ok((rest, entry, source)) = popped(stack) {
            if let Some(target) = argument_register(count - 1) {
                lemma_arguments_are_found(
                    rest,
                    code.push(MachineInstruction::MoveRegister { target, source }),
                    count - 1,
                );
            }
        }
    }
}

/// Passing the operands of a system call does not run out of operands
/// where the stack holds as many as are still to be passed.
pub proof fn lemma_operands_are_found(
    stack: Seq<CodegenStackEntry>,
    code: Seq<MachineInstruction>,
    categories: Seq<CodegenStackEntry>,
    arity: int,
)
    requires
        stack.len() >= arity - categories.len(),
    ensures
        pass_operands(stack, code, categories, arity) != Err::<
            (Selection, Seq<CodegenStackEntry>),
            CodegenError,
        >(CodegenError::StackUnderflow),
    decreases arity - categories.len(),
{
    if categories.len() < arity {
        if let Ok((rest, entry, source)) = popped(stack) {
            if let Some(target) = argument_register(categories.len() as int) {
                lemma_operands_are_found(
                    rest,
                    code.push(MachineInstruction::MoveRegister { target, source }),
                    categories.push(entry),
                    arity,
                );
            }
        }
    }
}

/// An instruction that finds its operands on the stack is not refused for
/// want of operands.
pub proof fn lemma_instruction_finds_operands(
    stack: Seq<CodegenStackEntry>,
    code: Seq<MachineInstruction>,
    instruction: FlowInstruction,
    frame: i32,
    target: Option<u64>,
    scopes: Seq<ScopeView>,
    scope: ScopeId,
)
    requires
        stack.len() >= instruction.operands(),
    ensures
        instruction_code(stack, code, instruction, frame, target, scopes, scope) != Err::<
            Selection,
            CodegenError,
        >(CodegenError::StackUnderflow),
{
    match instruction {
        FlowInstruction::CallFunction { basic_block_id, argument_count } => {
            lemma_arguments_are_found(stack, code, argument_count as int);
        },
        FlowInstruction::CallSystemFunction(function) => {
            lemma_operands_are_found(stack, code, Seq::empty(), function.spec_arity() as int);
        },
        _ => {},
    }
}

/// Selection of a body whose instructions find their operands does not fail
/// with a stack underflow.
pub proof fn lemma_body_finds_operands(
    stack: Seq<CodegenStackEntry>,
    code: Seq<MachineInstruction>,
    instructions: Seq<FlowInstruction>,
    from: int,
    frame: i32,
    targets: Seq<Option<u64>>,
    scopes: Seq<ScopeView>,
    scope: ScopeId,
)
    requires
        0 <= from <= instructions.len(),
        finds_operands(
            instructions.subrange(from, instructions.len() as int),
            stack.len() as int,
        ),
    ensures
        body_code(stack, code, instructions, from, frame, targets, scopes, scope) != Err::<
            Selection,
            CodegenError,
        >(CodegenError::StackUnderflow),
    decreases instructions.len() - from,
{
    if from < instructions.len() {
        let first = instructions[from];
        let rest = instructions.subrange(from, instructions.len() as int);
        let tail = instructions.subrange(from + 1, instructions.len() as int);
        assert(rest == seq![first] + tail);
        assert(seq![first] == Seq::<FlowInstruction>::empty().push(first));
        lemma_finds_operands_concat(seq![first], tail, stack.len() as int);
        lemma_finds_operands_push(Seq::empty(), first, stack.len() as int);
        lemma_net_effect_push(Seq::empty(), first);
        lemma_instruction_finds_operands(
            stack,
            code,
            first,
            frame,
            target_at(targets, from),
            scopes,
            scope,
        );
        lemma_selection_follows_stack_effect(
            stack,
            code,
            first,
            frame,
            target_at(targets, from),
            scopes,
            scope,
        );
        if let Ok((stack, code)) = instruction_code(
            stack,
            code,
            first,
            frame,
            target_at(targets, from),
            scopes,
            scope,
        ) {
            lemma_body_finds_operands(
                stack,
                code,
                instructions,
                from + 1,
                frame,
                targets,
                scopes,
                scope,
            );
        }
    }
}

/// Tails take nothing from the operand stack.
pub proof fn lemma_tails_take_no_operands(
    code: Seq<MachineInstruction>,
    tails: Seq<TailInstruction>,
    from: int,
    targets: Seq<Option<u64>>,
)
    ensures
        tails_code(code, tails, from, targets) != Err::<Seq<MachineInstruction>, CodegenError>(
            CodegenError::StackUnderflow,
        ),
    decreases tails.len() - from,
{
    if 0 <= from < tails.len() {
        if let TailInstruction::Jump(_) = tails[from] {
            if let Some(address) = target_at(targets, from) {
                lemma_tails_take_no_operands(
                    code.push(MachineInstruction::JumpAddress(address)),
                    tails,
                    from + 1,
                    targets,
                );
            }
        }
    }
}

/// The code generator never runs out of operands on a block of a
/// well-formed flow graph: whatever the entry addresses, selection of such a
/// block does not fail with a stack underflow.
pub proof fn lemma_graph_blocks_never_underflow(
    graph: GraphView,
    id: BasicBlockId,
    call_targets: Seq<Option<u64>>,
    jump_targets: Seq<Option<u64>>,
)
    requires
        graph.wf(),
        graph.block(id) is Some,
    ensures
        block_code(graph.block(id)->Some_0, graph.scopes, call_targets, jump_targets) != Err::<
            Seq<MachineInstruction>,
            CodegenError,
        >(CodegenError::StackUnderflow),
{
    let block = graph.block(id)->Some_0;
    assert(graph.basic_blocks.contains_key(id.0) && graph.basic_blocks[id.0] == block);
    assert(block.instructions.subrange(0, block.instructions.len() as int)
        == block.instructions);
    let frame = frame_bytes(graph.scopes[block.scope.0 as int].stack_allocation as int) as i32;
    lemma_body_finds_operands(
        Seq::empty(),
        Seq::empty(),
        block.instructions,
        0,
        frame,
        call_targets,
        graph.scopes,
        block.scope,
    );
    if let Ok((_, code)) = body_code(
        Seq::empty(),
        Seq::empty(),
        block.instructions,
        0,
        frame,
        call_targets,
        graph.scopes,
        block.scope,
    ) {
        lemma_tails_take_no_operands(code, block.tails, 0, jump_targets);
    }
}

/// The construct of a block that selection refuses.
#[derive(Clone, Copy, Debug, PartialEq, Eq, Structural)]
pub enum RefusedConstruct {
    /// The block as a whole: its scope or its frame.
    Block,
    /// The instruction at this index of the body.
    Instruction(usize),
    /// The tail at this index.
    Tail(usize),
}

/// The index of the first instruction from `from` on that selection
/// refuses, if it refuses one.
pub open spec fn body_refusal(
    stack: Seq<CodegenStackEntry>,
    code: Seq<MachineInstruction>,
    instructions: Seq<FlowInstruction>,
    from: int,
    frame: i32,
    targets: Seq<Option<u64>>,
    scopes: Seq<ScopeView>,
    scope: ScopeId,
) -> Option<int>
    decreases instructions.len() - from,
{
    if from < 0 || from >= instructions.len() {
        None
    } else {
        match instruction_code(
            stack,
            code,
            instructions[from],
            frame,
            target_at(targets, from),
            scopes,
            scope,
        ) {
            Ok((stack, code)) => body_refusal(
                stack,
                code,
                instructions,
                from + 1,
                frame,
                targets,
                scopes,
                scope,
            ),
            Err(_) => Some(from),
        }
    }
}

/// The index of the first tail from `from` on that selection refuses, if
/// it refuses one.
pub open spec fn tails_refusal(
    code: Seq<MachineInstruction>,
    tails: Seq<TailInstruction>,
    from: int,
    targets: Seq<Option<u64>>,
) -> Option<int>
    decreases tails.len() - from,
{
    if from < 0 || from >= tails.len() {
        None
    } else {
        match tails[from] {
            TailInstruction::Jump(_) => match target_at(targets, from) {
                Some(address) => tails_refusal(
                    code.push(MachineInstruction::JumpAddress(address)),
                    tails,
                    from + 1,
                    targets,
                ),
                None => Some(from),
            },
            TailInstruction::ConditionalJump(_) => Some(from),
        }
    }
}

/// The construct of a block that selection refuses first, if it refuses
/// the block: the block itself where its scope is missing or its frame too
/// large, else the first refused instruction of the body, else the first
/// refused tail.
pub open spec fn refused_construct(
    block: BlockView,
    scopes: Seq<ScopeView>,
    call_targets: Seq<Option<u64>>,
    jump_targets: Seq<Option<u64>>,
) -> Option<RefusedConstruct> {
    if block.scope.0 >= scopes.len() || frame_bytes(
        scopes[block.scope.0 as int].stack_allocation as int,
    ) > i32::MAX {
        Some(RefusedConstruct::Block)
    } else {
        let frame = frame_bytes(scopes[block.scope.0 as int].stack_allocation as int) as i32;
        match body_code(
            Seq::empty(),
            Seq::empty(),
            block.instructions,
            0,
            frame,
            call_targets,
            scopes,
            block.scope,
        ) {
            Ok((_, code)) => match tails_refusal(code, block.tails, 0, jump_targets) {
                Some(index) => Some(RefusedConstruct::Tail(index as usize)),
                None => None,
            },
            Err(_) => match body_refusal(
                Seq::empty(),
                Seq::empty(),
                block.instructions,
                0,
                frame,
                call_targets,
                scopes,
                block.scope,
            ) {
                Some(index) => Some(RefusedConstruct::Instruction(index as usize)),
                None => None,
            },
        }
    }
}

/// The name of the system function whose handler generator declined, where
/// that is why the construct was refused.
pub open spec fn declined_function(
    block: BlockView,
    construct: RefusedConstruct,
    error: CodegenError,
) -> Option<Seq<char>> {
    match construct {
        RefusedConstruct::Instruction(index) => if index < block.instructions.len() && error
            == CodegenError::HandlerNotImplemented {
            match block.instructions[index as int] {
                FlowInstruction::CallSystemFunction(function) => Some(function.spec_name()),
                _ => None,
            }
        } else {
            None
        },
        _ => None,
    }
}

/// Whether an error is one that selection gives: it is not one of the
/// errors of resolving entry addresses, of assembling or of memory.
pub open spec fn from_selection(error: CodegenError) -> bool {
    error != CodegenError::NotAttached && error != CodegenError::Assembler && error
        != CodegenError::Memory
}

/// Passing arguments fails only with errors of selection.
pub proof fn lemma_arguments_fail_in_selection(
    stack: Seq<CodegenStackEntry>,
    code: Seq<MachineInstruction>,
    count: int,
)
    ensures
        pass_arguments(stack, code, count) matches Err(error) ==> from_selection(error),
    decreases count,
{
    if count > 0 {
        if let Ok((rest, entry, source)) = popped(stack) {
            if let Some(target) = argument_register(count - 1) {
                lemma_arguments_fail_in_selection(
                    rest,
                    code.push(MachineInstruction::MoveRegister { target, source }),
                    count - 1,
                );
            }
        }
    }
}

/// Passing operands fails only with errors of selection.
pub proof fn lemma_operands_fail_in_selection(
    stack: Seq<CodegenStackEntry>,
    code: Seq<MachineInstruction>,
    categories: Seq<CodegenStackEntry>,
    arity: int,
)
    ensures
        pass_operands(stack, code, categories, arity) matches Err(error) ==> from_selection(
            error,
        ),
    decreases arity - categories.len(),
{
    if categories.len() < arity {
        if let Ok((rest, entry, source)) = popped(stack) {
            if let Some(target) = argument_register(categories.len() as int) {
                lemma_operands_fail_in_selection(
                    rest,
                    code.push(MachineInstruction::MoveRegister { target, source }),
                    categories.push(entry),
                    arity,
                );
            }
        }
    }
}

/// Selection of a body fails only with errors of selection.
pub proof fn lemma_body_fails_in_selection(
    stack: Seq<CodegenStackEntry>,
    code: Seq<MachineInstruction>,
    instructions: Seq<FlowInstruction>,
    from: int,
    frame: i32,
    targets: Seq<Option<u64>>,
    scopes: Seq<ScopeView>,
    scope: ScopeId,
)
    ensures
        body_code(stack, code, instructions, from, frame, targets, scopes, scope) matches Err(
            error,
        ) ==> from_selection(error),
    decreases instructions.len() - from,
{
    if 0 <= from < instructions.len() {
        match instructions[from] {
            FlowInstruction::CallFunction { basic_block_id, argument_count } => {
                lemma_arguments_fail_in_selection(stack, code, argument_count as int);
            },
            FlowInstruction::CallSystemFunction(function) => {
                lemma_operands_fail_in_selection(
                    stack,
                    code,
                    Seq::empty(),
                    function.spec_arity() as int,
                );
            },
            _ => {},
        }
        if let Ok((stack, code)) = instruction_code(
            stack,
            code,
            instructions[from],
            frame,
            target_at(targets, from),
            scopes,
            scope,
        ) {
            lemma_body_fails_in_selection(
                stack,
                code,
                instructions,
                from + 1,
                frame,
                targets,
                scopes,
                scope,
            );
        }
    }
}

/// Selection of tails fails only with errors of selection.
pub proof fn lemma_tails_fail_in_selection(
    code: Seq<MachineInstruction>,
    tails: Seq<TailInstruction>,
    from: int,
    targets: Seq<Option<u64>>,
)
    ensures
        tails_code(code, tails, from, targets) matches Err(error) ==> from_selection(error),
    decreases tails.len() - from,
{
    if 0 <= from < tails.len() {
        if let TailInstruction::Jump(_) = tails[from] {
            if let Some(address) = target_at(targets, from) {
                lemma_tails_fail_in_selection(
                    code.push(MachineInstruction::JumpAddress(address)),
                    tails,
                    from + 1,
                    targets,
                );
            }
        }
    }
}

/// Selection of a block fails only with errors of selection: never for
/// want of links, of memory or of the assembler.
pub proof fn lemma_block_fails_in_selection(
    block: BlockView,
    scopes: Seq<ScopeView>,
    call_targets: Seq<Option<u64>>,
    jump_targets: Seq<Option<u64>>,
)
    ensures
        block_code(block, scopes, call_targets, jump_targets) matches Err(error)
            ==> from_selection(error),
{
    if block.scope.0 < scopes.len() {
        let frame = frame_bytes(scopes[block.scope.0 as int].stack_allocation as int) as i32;
        lemma_body_fails_in_selection(
            Seq::empty(),
            Seq::empty(),
            block.instructions,
            0,
            frame,
            call_targets,
            scopes,
            block.scope,
        );
        if let Ok((_, code)) = body_code(
            Seq::empty(),
            Seq::empty(),
            block.instructions,
            0,
            frame,
            call_targets,
            scopes,
            block.scope,
        ) {
            lemma_tails_fail_in_selection(code, block.tails, 0, jump_targets);
        }
    }
}

} // verus!
