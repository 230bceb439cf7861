//! The machine-level vocabulary of the code generator: the registers it
//! uses and the instructions it selects.

use vstd::prelude::*;

verus! {

/// A 64-bit general purpose register that generated code touches.
#[derive(Clone, Copy, Debug, PartialEq, Eq, Hash, Structural)]
pub enum Register {
    Rax,
    Rcx,
    Rdx,
    Rbx,
    Rsp,
    R8,
    R9,
    R10,
    R11,
    R12,
    R13,
    R14,
    R15,
}

/// One selected machine instruction. Immediates and displacements are the
/// values that are encoded; branch targets are absolute addresses.
#[derive(Clone, Copy, Debug, PartialEq, Eq, Hash, Structural)]
pub enum MachineInstruction {
    /// `sub target, value`
    SubImmediate { target: Register, value: i32 },
    /// `add target, value`
    AddImmediate { target: Register, value: i32 },
    /// `add target, source`
    AddRegister { target: Register, source: Register },
    /// `mov target, source`
    MoveRegister { target: Register, source: Register },
    /// `mov target, value`
    MoveImmediate { target: Register, value: u64 },
    /// `mov [base + displacement], source`
    Store { base: Register, displacement: i32, source: Register },
    /// `mov target, [base + displacement]`
    Load { target: Register, base: Register, displacement: i32 },
    /// `call address`
    CallAddress(u64),
    /// `jmp address`
    JumpAddress(u64),
    /// `jmp target`
    JumpRegister(Register),
    /// `ret`
    Return,
}

/// How many registers hold the operand stack.
pub const REGISTER_STACK_DEPTH: usize = 7;

/// How many arguments travel in registers.
pub const ARGUMENT_REGISTER_COUNT: usize = 4;

/// The bytes at the bottom of a frame in which the operand-stack registers
/// are saved: one 8-byte slot each.
pub const SHADOW_SPACE: usize = 56;

/// The register that holds the operand at depth `depth` of the operand
/// stack, if the pool reaches that deep.
pub open spec fn stack_register(depth: int) -> Option<Register> {
    if depth == 0 {
        Some(Register::Rbx)
    } else if depth == 1 {
        Some(Register::R10)
    } else if depth == 2 {
        Some(Register::R11)
    } else if depth == 3 {
        Some(Register::R12)
    } else if depth == 4 {
        Some(Register::R13)
    } else if depth == 5 {
        Some(Register::R14)
    } else if depth == 6 {
        Some(Register::R15)
    } else {
        None
    }
}

/// The register that carries argument `index` of a call, if it travels in a
/// register.
pub open spec fn argument_register(index: int) -> Option<Register> {
    if index == 0 {
        Some(Register::Rcx)
    } else if index == 1 {
        Some(Register::Rdx)
    } else if index == 2 {
        Some(Register::R8)
    } else if index == 3 {
        Some(Register::R9)
    } else {
        None
    }
}

/// The operand-stack register at depth `depth`.
pub fn stack_register_at(depth: usize) -> (register: Option<Register>)
    ensures
        register == stack_register(depth as int),
{
    match depth {
        0 => Some(Register::Rbx),
        1 => Some(Register::R10),
        2 => Some(Register::R11),
        3 => Some(Register::R12),
        4 => Some(Register::R13),
        5 => Some(Register::R14),
        6 => Some(Register::R15),
        _ => None,
    }
}

/// The register of argument `index`.
pub fn argument_register_at(index: usize) -> (register: Option<Register>)
    ensures
        register == argument_register(index as int),
{
    match index {
        0 => Some(Register::Rcx),
        1 => Some(Register::Rdx),
        2 => Some(Register::R8),
        3 => Some(Register::R9),
        _ => None,
    }
}

/// The bytes that a block's frame takes from the stack: the shadow space and
/// the locals, rounded up to a multiple of 16, plus 8 for the return address
/// that the caller pushed.
pub open spec fn frame_bytes(stack_allocation: int) -> int {
    8 + 16 * ((SHADOW_SPACE + stack_allocation + 15) / 16)
}

/// The frame size of a block whose scope has handed out `stack_allocation`
/// bytes, or `None` where it does not fit a 32-bit immediate.
///
/// Taken from a stack pointer that is 8 below a multiple of 16, as it is on
/// entry to a called block, the frame leaves the stack pointer on a multiple
/// of 16 at the block's own call sites.
pub fn frame_size(stack_allocation: usize) -> (size: Option<i32>)
    ensures
        match size {
            Some(size) => size == frame_bytes(stack_allocation as int) && size % 16 == 8 && size
                >= 8 + SHADOW_SPACE + stack_allocation,
            None => frame_bytes(stack_allocation as int) > i32::MAX,
        },
{
    let ghost units = (SHADOW_SPACE + stack_allocation + 15) / 16;
    assert(16 * units <= SHADOW_SPACE + stack_allocation + 15 < 16 * units + 16);
    assert((8 + 16 * units) % 16 == 8) by (nonlinear_arith);
    if stack_allocation > 0x7fff_ffff {
        None
    } else {
        let rounded: u64 = 16 * ((SHADOW_SPACE as u64 + stack_allocation as u64 + 15) / 16);
        let size: u64 = 8 + rounded;
        if size > 0x7fff_ffff {
            None
        } else {
            Some(size as i32)
        }
    }
}

/// A frame keeps call sites aligned: a block is entered with the stack
/// pointer 8 below a multiple of 16, and once its frame is taken the stack
/// pointer is on a multiple of 16, where it stays up to each nested call.
pub proof fn lemma_frame_aligns_call_sites(stack_allocation: int, stack_pointer: int)
    requires
        stack_allocation >= 0,
        stack_pointer % 16 == 8,
    ensures
        (stack_pointer - frame_bytes(stack_allocation)) % 16 == 0,
        frame_bytes(stack_allocation) >= SHADOW_SPACE + stack_allocation + 8,
{
    let units = (SHADOW_SPACE + stack_allocation + 15) / 16;
    assert(16 * units <= SHADOW_SPACE + stack_allocation + 15 < 16 * units + 16);
    assert((stack_pointer - (8 + 16 * units)) % 16 == 0) by (nonlinear_arith)
        requires
            stack_pointer % 16 == 8,
    ;
}

/// The displacement from the stack pointer of the local at byte offset
/// `offset`: locals lie above the shadow space.
pub open spec fn local_displacement(offset: int) -> int {
    SHADOW_SPACE + offset
}

/// The displacement of the local at `offset`, or `None` where it does not
/// fit a 32-bit displacement.
pub fn local_displacement_of(offset: usize) -> (displacement: Option<i32>)
    ensures
        match displacement {
            Some(displacement) => displacement == local_displacement(offset as int),
            None => local_displacement(offset as int) > i32::MAX,
        },
{
    if offset > 0x7fff_ffff - SHADOW_SPACE {
        None
    } else {
        Some((SHADOW_SPACE + offset) as i32)
    }
}

/// The instructions that save the operand-stack registers from depth `from`
/// on into their shadow slots.
pub open spec fn save_registers(from: int) -> Seq<MachineInstruction>
    decreases REGISTER_STACK_DEPTH - from,
{
    if from < 0 || from >= REGISTER_STACK_DEPTH {
        Seq::empty()
    } else {
        seq![
            MachineInstruction::Store {
                base: Register::Rsp,
                displacement: (8 * from) as i32,
                source: stack_register(from)->Some_0,
            },
        ] + save_registers(from + 1)
    }
}

/// The instructions that restore the operand-stack registers from depth
/// `from` on out of their shadow slots.
pub open spec fn restore_registers(from: int) -> Seq<MachineInstruction>
    decreases REGISTER_STACK_DEPTH - from,
{
    if from < 0 || from >= REGISTER_STACK_DEPTH {
        Seq::empty()
    } else {
        seq![
            MachineInstruction::Load {
                target: stack_register(from)->Some_0,
                base: Register::Rsp,
                displacement: (8 * from) as i32,
            },
        ] + restore_registers(from + 1)
    }
}

/// A block's prologue: the frame is taken from the stack and the
/// operand-stack registers are saved in its shadow space.
pub open spec fn prologue(frame: i32) -> Seq<MachineInstruction> {
    seq![MachineInstruction::SubImmediate { target: Register::Rsp, value: frame }]
        + save_registers(0)
}

/// A block's epilogue: the operand-stack registers are restored, the frame
/// is given back and control returns to the caller.
pub open spec fn epilogue(frame: i32) -> Seq<MachineInstruction> {
    restore_registers(0) + seq![
        MachineInstruction::AddImmediate { target: Register::Rsp, value: frame },
        MachineInstruction::Return,
    ]
}

} // verus!
