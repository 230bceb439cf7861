//! Encoding of selected instructions into machine code, by the `iced-x86`
//! code assembler.
//!
//! The assembler is an outside type. What it holds is spoken of through
//! [`assembler_listing`], which instructions it takes through [`accepted`],
//! and the bytes it produces through [`encoding`]; the functions that call
//! it are trusted to do what their contracts say, and everything around them
//! is verified.

use iced_x86::code_asm::{AsmRegister64, CodeAssembler};
use iced_x86::IcedError;
use vstd::prelude::*;

use super::machine::{MachineInstruction, Register};
use super::selection::CodegenError;

verus! {

#[verifier::external_type_specification]
#[verifier::external_body]
pub struct ExCodeAssembler(iced_x86::code_asm::CodeAssembler);

#[verifier::external_type_specification]
#[verifier::external_body]
pub struct ExIcedError(iced_x86::IcedError);

#[verifier::external_type_specification]
#[verifier::external_body]
pub struct ExAsmRegister64(iced_x86::code_asm::AsmRegister64);

/// The instructions that have been added to an assembler, in order.
pub uninterp spec fn assembler_listing(assembler: CodeAssembler) -> Seq<MachineInstruction>;

/// Whether the assembler takes an instruction: whether the method of the
/// assembler for it succeeds with these operands. The assemblers made here
/// have no label and no prefix pending, so nothing but the operands decides.
pub uninterp spec fn accepted(instruction: MachineInstruction) -> bool;

/// What the assembler makes of a listing when the first instruction is
/// placed at address `base`: the bytes that it encodes the listing to, or
/// `None` where it fails to encode it.
pub uninterp spec fn encoding(listing: Seq<MachineInstruction>, base: u64) -> Option<Seq<u8>>;

/// The bytes of a listing that the assembler encodes, placed at `base`.
pub open spec fn machine_code(listing: Seq<MachineInstruction>, base: u64) -> Seq<u8> {
    encoding(listing, base)->Some_0
}

/// Whether the assembler takes every instruction of a listing.
pub open spec fn all_accepted(listing: Seq<MachineInstruction>) -> bool {
    forall|index: int| 0 <= index < listing.len() ==> accepted(#[trigger] listing[index])
}

/// Whether a listing can be assembled at `base`: the assembler takes every
/// instruction and encodes the whole.
pub open spec fn assembles(listing: Seq<MachineInstruction>, base: u64) -> bool {
    all_accepted(listing) && encoding(listing, base) is Some
}

/// What adding `instruction` does to an assembler: on success the
/// instruction is at the end of the listing, and on failure the listing is
/// as it was.
pub open spec fn added(
    before: CodeAssembler,
    after: CodeAssembler,
    outcome: Result<(), IcedError>,
    instruction: MachineInstruction,
) -> bool {
    assembler_listing(after) == if outcome is Ok {
        assembler_listing(before).push(instruction)
    } else {
        assembler_listing(before)
    }
}

/// The `iced-x86` operand for a register: the 64-bit general purpose
/// register of the same name.
#[verifier::external_body]
fn gpr(register: Register) -> AsmRegister64 {
    match register {
        Register::Rax => iced_x86::code_asm::rax, Register::Rcx => iced_x86::code_asm::rcx,
        Register::Rdx => iced_x86::code_asm::rdx, Register::Rbx => iced_x86::code_asm::rbx,
        Register::Rsp => iced_x86::code_asm::rsp, Register::R8 => iced_x86::code_asm::r8,
        Register::R9 => iced_x86::code_asm::r9, Register::R10 => iced_x86::code_asm::r10,
        Register::R11 => iced_x86::code_asm::r11, Register::R12 => iced_x86::code_asm::r12,
        Register::R13 => iced_x86::code_asm::r13, Register::R14 => iced_x86::code_asm::r14,
        Register::R15 => iced_x86::code_asm::r15,
    }
}

/// `CodeAssembler::new` for 64-bit code, a bitness that it takes: a new
/// assembler holds no instructions.
#[verifier::external_body]
fn new_assembler() -> (created: Result<CodeAssembler, IcedError>)
    ensures
        created is Ok,
        created matches Ok(assembler) ==> assembler_listing(assembler).len() == 0,
{
    CodeAssembler::new(64)
}

/// `CodeAssembler::sub` with a register and a 32-bit immediate: adds that
/// one instruction, or nothing where it fails.
#[verifier::external_body]
fn add_sub_immediate(assembler: &mut CodeAssembler, target: Register, value: i32) -> (outcome:
    Result<(), IcedError>)
    ensures
        outcome is Ok <==> accepted(MachineInstruction::SubImmediate { target, value }),
        added(
            *old(assembler),
            *final(assembler),
            outcome,
            MachineInstruction::SubImmediate { target, value },
        ),
{
    assembler.sub(gpr(target), value)
}

/// `CodeAssembler::add` with a register and a 32-bit immediate: adds that
/// one instruction, or nothing where it fails.
#[verifier::external_body]
fn add_add_immediate(assembler: &mut CodeAssembler, target: Register, value: i32) -> (outcome:
    Result<(), IcedError>)
    ensures
        outcome is Ok <==> accepted(MachineInstruction::AddImmediate { target, value }),
        added(
            *old(assembler),
            *final(assembler),
            outcome,
            MachineInstruction::AddImmediate { target, value },
        ),
{
    assembler.add(gpr(target), value)
}

/// `CodeAssembler::add` with two registers: adds that one instruction, or
/// nothing where it fails.
#[verifier::external_body]
fn add_add_register(assembler: &mut CodeAssembler, target: Register, source: Register) -> (outcome:
    Result<(), IcedError>)
    ensures
        outcome is Ok <==> accepted(MachineInstruction::AddRegister { target, source }),
        added(
            *old(assembler),
            *final(assembler),
            outcome,
            MachineInstruction::AddRegister { target, source },
        ),
{
    assembler.add(gpr(target), gpr(source))
}

/// `CodeAssembler::mov` with two registers: adds that one instruction, or
/// nothing where it fails.
#[verifier::external_body]
fn add_move_register(assembler: &mut CodeAssembler, target: Register, source: Register) -> (outcome:
    Result<(), IcedError>)
    ensures
        outcome is Ok <==> accepted(MachineInstruction::MoveRegister { target, source }),
        added(
            *old(assembler),
            *final(assembler),
            outcome,
            MachineInstruction::MoveRegister { target, source },
        ),
{
    assembler.mov(gpr(target), gpr(source))
}

/// `CodeAssembler::mov` with a register and a 64-bit immediate: adds that
/// one instruction, or nothing where it fails.
#[verifier::external_body]
fn add_move_immediate(assembler: &mut CodeAssembler, target: Register, value: u64) -> (outcome:
    Result<(), IcedError>)
    ensures
        outcome is Ok <==> accepted(MachineInstruction::MoveImmediate { target, value }),
        added(
            *old(assembler),
            *final(assembler),
            outcome,
            MachineInstruction::MoveImmediate { target, value },
        ),
{
    assembler.mov(gpr(target), value)
}

/// `CodeAssembler::mov` with a memory operand, base register plus
/// displacement, and a register: adds that one instruction, or nothing
/// where it fails.
#[verifier::external_body]
fn add_store(
    assembler: &mut CodeAssembler,
    base: Register,
    displacement: i32,
    source: Register,
) -> (outcome: Result<(), IcedError>)
    ensures
        outcome is Ok <==> accepted(MachineInstruction::Store { base, displacement, source }),
        added(
            *old(assembler),
            *final(assembler),
            outcome,
            MachineInstruction::Store { base, displacement, source },
        ),
{
    assembler.mov(gpr(base) + displacement, gpr(source))
}

/// `CodeAssembler::mov` with a register and a memory operand, base register
/// plus displacement: adds that one instruction, or nothing where it fails.
#[verifier::external_body]
fn add_load(
    assembler: &mut CodeAssembler,
    target: Register,
    base: Register,
    displacement: i32,
) -> (outcome: Result<(), IcedError>)
    ensures
        outcome is Ok <==> accepted(MachineInstruction::Load { target, base, displacement }),
        added(
            *old(assembler),
            *final(assembler),
            outcome,
            MachineInstruction::Load { target, base, displacement },
        ),
{
    assembler.mov(gpr(target), gpr(base) + displacement)
}

/// `CodeAssembler::call` with an absolute address: adds that one
/// instruction, or nothing where it fails.
#[verifier::external_body]
fn add_call_address(assembler: &mut CodeAssembler, address: u64) -> (outcome: Result<
    (),
    IcedError,
>)
    ensures
        outcome is Ok <==> accepted(MachineInstruction::CallAddress(address)),
        added(
            *old(assembler),
            *final(assembler),
            outcome,
            MachineInstruction::CallAddress(address),
        ),
{
    assembler.call(address)
}

/// `CodeAssembler::jmp` with an absolute address: adds that one
/// instruction, or nothing where it fails.
#[verifier::external_body]
fn add_jump_address(assembler: &mut CodeAssembler, address: u64) -> (outcome: Result<
    (),
    IcedError,
>)
    ensures
        outcome is Ok <==> accepted(MachineInstruction::JumpAddress(address)),
        added(
            *old(assembler),
            *final(assembler),
            outcome,
            MachineInstruction::JumpAddress(address),
        ),
{
    assembler.jmp(address)
}

/// `CodeAssembler::jmp` with a register: adds that one instruction, or
/// nothing where it fails.
#[verifier::external_body]
fn add_jump_register(assembler: &mut CodeAssembler, target: Register) -> (outcome: Result<
    (),
    IcedError,
>)
    ensures
        outcome is Ok <==> accepted(MachineInstruction::JumpRegister(target)),
        added(
            *old(assembler),
            *final(assembler),
            outcome,
            MachineInstruction::JumpRegister(target),
        ),
{
    assembler.jmp(gpr(target))
}

/// `CodeAssembler::ret`: adds that one instruction, or nothing where it
/// fails.
#[verifier::external_body]
fn add_return(assembler: &mut CodeAssembler) -> (outcome: Result<(), IcedError>)
    ensures
        outcome is Ok <==> accepted(MachineInstruction::Return),
        added(*old(assembler), *final(assembler), outcome, MachineInstruction::Return),
{
    assembler.ret()
}

/// `CodeAssembler::assemble`: the encoding of the instructions that the
/// assembler holds, placed at `base`, or an error where it does not encode
/// them. The assembler keeps its instructions.
#[verifier::external_body]
fn assemble_at(assembler: &mut CodeAssembler, base: u64) -> (bytes: Result<Vec<u8>, IcedError>)
    ensures
        assembler_listing(*final(assembler)) == assembler_listing(*old(assembler)),
        match bytes {
            Ok(code) => encoding(assembler_listing(*old(assembler)), base) == Some(code@),
            Err(_) => encoding(assembler_listing(*old(assembler)), base) is None,
        },
{
    assembler.assemble(base)
}

/// Adds one instruction to the assembler.
fn add_instruction(assembler: &mut CodeAssembler, instruction: MachineInstruction) -> (outcome:
    Result<(), IcedError>)
    ensures
        outcome is Ok <==> accepted(instruction),
        added(*old(assembler), *final(assembler), outcome, instruction),
{
    match instruction {
        MachineInstruction::SubImmediate { target, value } => add_sub_immediate(
            assembler,
            target,
            value,
        ),
        MachineInstruction::AddImmediate { target, value } => add_add_immediate(
            assembler,
            target,
            value,
        ),
        MachineInstruction::AddRegister { target, source } => add_add_register(
            assembler,
            target,
            source,
        ),
        MachineInstruction::MoveRegister { target, source } => add_move_register(
            assembler,
            target,
            source,
        ),
        MachineInstruction::MoveImmediate { target, value } => add_move_immediate(
            assembler,
            target,
            value,
        ),
        MachineInstruction::Store { base, displacement, source } => add_store(
            assembler,
            base,
            displacement,
            source,
        ),
        MachineInstruction::Load { target, base, displacement } => add_load(
            assembler,
            target,
            base,
            displacement,
        ),
        MachineInstruction::CallAddress(address) => add_call_address(assembler, address),
        MachineInstruction::JumpAddress(address) => add_jump_address(assembler, address),
        MachineInstruction::JumpRegister(target) => add_jump_register(assembler, target),
        MachineInstruction::Return => add_return(assembler),
    }
}

/// Encodes a listing for execution at `base`. It succeeds exactly where
/// the assembler takes every instruction of the listing and encodes the
/// whole, and the bytes are then the machine code of exactly these
/// instructions, in this order, at that address.
pub fn assemble(listing: &Vec<MachineInstruction>, base: u64) -> (bytes: Result<
    Vec<u8>,
    CodegenError,
>)
    ensures
        bytes is Ok <==> assembles(listing@, base),
        match bytes {
            Ok(code) => encoding(listing@, base) == Some(code@) && code@ == machine_code(
                listing@,
                base,
            ),
            Err(error) => error == CodegenError::Assembler,
        },
{
    let mut assembler = match new_assembler() {
        Ok(assembler) => assembler,
        Err(_) => {
            return Err(CodegenError::Assembler);
        },
    };
    let mut index: usize = 0;
    while index < listing.len()
        invariant
            index <= listing.len(),
            assembler_listing(assembler) == listing@.take(index as int),
            all_accepted(listing@.take(index as int)),
        decreases listing.len() - index,
    {
        match add_instruction(&mut assembler, listing[index]) {
            Ok(()) => {},
            Err(_) => {
                return Err(CodegenError::Assembler);
            },
        }
        assert(listing@.take(index as int + 1) == listing@.take(index as int).push(
            listing@[index as int],
        ));
        index += 1;
    }
    assert(listing@.take(index as int) == listing@);
    match assemble_at(&mut assembler, base) {
        Ok(bytes) => Ok(bytes),
        Err(_) => Err(CodegenError::Assembler),
    }
}

} // verus!
