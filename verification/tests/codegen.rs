use iced_x86::{Decoder, DecoderOptions, Instruction, Mnemonic, OpKind};
use omjit::ast::BinaryOperator;
use omjit::codegen::assembler::assemble;
use omjit::codegen::machine::{frame_size, local_displacement_of};
use omjit::codegen::{
    codegen_block, codegen_block_explained, codegen_instruction, CodegenContext, CodegenError,
    CodegenStackEntry, MachineInstruction, Refusal, RefusedConstruct, Register,
};
use omjit::flow_graph::{
    BasicBlock, BasicBlockId, FlowInstruction, HandlerGenerator, HandlerRow, HandlerTable, Id,
    OperandKind, Scope, ScopeArena, ScopeId, SystemFunction, TailInstruction, Value,
};
use omjit::source_location::SourceLocation;

const POOL: [Register; 7] = [
    Register::Rbx,
    Register::R10,
    Register::R11,
    Register::R12,
    Register::R13,
    Register::R14,
    Register::R15,
];

fn root_scopes() -> ScopeArena {
    let mut scopes = ScopeArena::new();
    scopes.add(Scope::default());
    scopes
}

fn block(instructions: Vec<FlowInstruction>, tails: Vec<TailInstruction>) -> BasicBlock {
    BasicBlock {
        id: BasicBlockId(0),
        scope: ScopeId(0),
        instructions,
        location: SourceLocation::default(),
        tails,
    }
}

fn select(instructions: Vec<FlowInstruction>) -> Result<Vec<MachineInstruction>, CodegenError> {
    let targets = vec![Some(0x5000u64); instructions.len()];
    codegen_block(&block(instructions, vec![]), &root_scopes(), &targets, &vec![])
}

fn prologue(frame: i32) -> Vec<MachineInstruction> {
    let mut code = vec![MachineInstruction::SubImmediate { target: Register::Rsp, value: frame }];
    for (index, register) in POOL.iter().enumerate() {
        code.push(MachineInstruction::Store {
            base: Register::Rsp,
            displacement: 8 * index as i32,
            source: *register,
        });
    }
    code
}

fn epilogue(frame: i32) -> Vec<MachineInstruction> {
    let mut code = Vec::new();
    for (index, register) in POOL.iter().enumerate() {
        code.push(MachineInstruction::Load {
            target: *register,
            base: Register::Rsp,
            displacement: 8 * index as i32,
        });
    }
    code.push(MachineInstruction::AddImmediate { target: Register::Rsp, value: frame });
    code.push(MachineInstruction::Return);
    code
}

fn decode(bytes: &[u8], base: u64) -> Vec<Instruction> {
    let mut decoder = Decoder::with_ip(64, bytes, base, DecoderOptions::NONE);
    let mut instructions = Vec::new();
    while decoder.can_decode() {
        instructions.push(decoder.decode());
    }
    instructions
}

fn table(rows: Vec<(Vec<OperandKind>, u64)>) -> Box<dyn HandlerGenerator> {
    Box::new(HandlerTable {
        rows: rows
            .into_iter()
            .map(|(arguments, handler)| HandlerRow { arguments, handler })
            .collect(),
    })
}

#[test]
fn add_function_selects_register_stack_code() {
    let selected = select(vec![
        FlowInstruction::FunctionPrologue,
        FlowInstruction::PushFunctionParameter(0),
        FlowInstruction::PushFunctionParameter(1),
        FlowInstruction::ApplyBinaryOperator(BinaryOperator::Plus),
        FlowInstruction::ReturnValue,
        FlowInstruction::FunctionEpilogue,
    ])
    .expect("selection");
    let mut expected = prologue(72);
    expected.extend([
        MachineInstruction::MoveRegister { target: Register::Rbx, source: Register::Rcx },
        MachineInstruction::MoveRegister { target: Register::R10, source: Register::Rdx },
        MachineInstruction::AddRegister { target: Register::Rbx, source: Register::R10 },
        MachineInstruction::MoveRegister { target: Register::Rax, source: Register::Rbx },
    ]);
    expected.extend(epilogue(72));
    assert_eq!(selected, expected);
}

#[test]
fn call_moves_each_argument_to_the_register_of_its_position() {
    let selected = select(vec![
        FlowInstruction::PushLiteralNumber(1),
        FlowInstruction::PushLiteralNumber(2),
        FlowInstruction::PushLiteralNumber(3),
        FlowInstruction::CallFunction { basic_block_id: BasicBlockId(1), argument_count: 3 },
        FlowInstruction::DiscardValue,
    ])
    .expect("selection");
    assert_eq!(
        selected,
        vec![
            MachineInstruction::MoveImmediate { target: Register::Rbx, value: 1 },
            MachineInstruction::MoveImmediate { target: Register::R10, value: 2 },
            MachineInstruction::MoveImmediate { target: Register::R11, value: 3 },
            MachineInstruction::MoveRegister { target: Register::R8, source: Register::R11 },
            MachineInstruction::MoveRegister { target: Register::Rdx, source: Register::R10 },
            MachineInstruction::MoveRegister { target: Register::Rcx, source: Register::Rbx },
            MachineInstruction::CallAddress(0x5000),
            MachineInstruction::MoveRegister { target: Register::Rbx, source: Register::Rax },
        ]
    );
}

#[test]
fn eight_arguments_overflow_the_register_stack() {
    // h(1, 2, 3, 4, 5, 6, 7, 8);
    let mut instructions: Vec<FlowInstruction> =
        (1..=8).map(FlowInstruction::PushLiteralNumber).collect();
    instructions
        .push(FlowInstruction::CallFunction { basic_block_id: BasicBlockId(2), argument_count: 8 });
    instructions.push(FlowInstruction::DiscardValue);
    assert_eq!(select(instructions), Err(CodegenError::RegisterStackOverflow));
}

#[test]
fn seven_operands_fit_the_register_stack() {
    let instructions: Vec<FlowInstruction> =
        (1..=7).map(FlowInstruction::PushLiteralNumber).collect();
    let selected = select(instructions).expect("selection");
    for (index, register) in POOL.iter().enumerate() {
        assert_eq!(
            selected[index],
            MachineInstruction::MoveImmediate { target: *register, value: index as u64 + 1 }
        );
    }
}

#[test]
fn locals_live_above_the_shadow_space() {
    let mut scopes = ScopeArena::new();
    let mut scope = Scope::default();
    assert_eq!(scope.allocate_stack(8), 0);
    assert_eq!(scope.allocate_stack(8), 8);
    scopes.add(scope);
    let body = block(
        vec![
            FlowInstruction::FunctionPrologue,
            FlowInstruction::PushLiteralNumber(9),
            FlowInstruction::PushStackVariable(8),
            FlowInstruction::Assign,
            FlowInstruction::Return,
            FlowInstruction::FunctionEpilogue,
        ],
        vec![TailInstruction::Jump(BasicBlockId(3))],
    );
    let selected =
        codegen_block(&body, &scopes, &vec![None; 6], &vec![Some(0x9000)]).expect("selection");
    // 56 bytes of shadow space and 16 of locals, rounded to 80, plus 8.
    let mut expected = prologue(88);
    expected.extend([
        MachineInstruction::MoveImmediate { target: Register::Rbx, value: 9 },
        MachineInstruction::Load { target: Register::R10, base: Register::Rsp, displacement: 64 },
        MachineInstruction::Store { base: Register::Rsp, displacement: 64, source: Register::Rbx },
        MachineInstruction::MoveImmediate { target: Register::Rax, value: 0 },
    ]);
    expected.extend(epilogue(88));
    expected.push(MachineInstruction::JumpAddress(0x9000));
    assert_eq!(selected, expected);
}

#[test]
fn frame_sizes_keep_the_stack_aligned() {
    assert_eq!(frame_size(0), Some(72));
    assert_eq!(frame_size(8), Some(72));
    assert_eq!(frame_size(9), Some(88));
    assert_eq!(frame_size(24), Some(88));
    assert_eq!(frame_size(0x7fff_ffff), None);
    assert_eq!(frame_size(usize::MAX), None);
    for allocation in 0..200 {
        let frame = frame_size(allocation).expect("frame");
        assert_eq!(frame % 16, 8);
        assert!(frame as usize >= 56 + allocation + 8);
    }
    assert_eq!(local_displacement_of(0), Some(56));
    assert_eq!(local_displacement_of(16), Some(72));
    assert_eq!(local_displacement_of(0x7fff_ffff), None);
}

fn refused(instructions: Vec<FlowInstruction>, error: CodegenError) {
    assert_eq!(select(instructions), Err(error));
}

#[test]
fn selection_errors() {
    let number = || FlowInstruction::PushLiteralNumber(1);
    let local = || FlowInstruction::PushStackVariable(0);
    let call = |argument_count| FlowInstruction::CallFunction {
        basic_block_id: BasicBlockId(1),
        argument_count,
    };
    refused(vec![FlowInstruction::DiscardValue], CodegenError::StackUnderflow);
    refused(vec![FlowInstruction::ReturnValue], CodegenError::StackUnderflow);
    refused(vec![number(), FlowInstruction::Assign], CodegenError::StackUnderflow);
    refused(
        vec![FlowInstruction::PushFunctionParameter(4)],
        CodegenError::ArgumentRegisterOverflow,
    );
    refused(
        vec![number(), number(), number(), number(), number(), call(5)],
        CodegenError::ArgumentRegisterOverflow,
    );
    refused(vec![FlowInstruction::PushLiteralNull], CodegenError::UnsupportedInstruction);
    refused(vec![FlowInstruction::PushLiteralBoolean(true)], CodegenError::UnsupportedInstruction);
    refused(
        vec![FlowInstruction::PushLiteralString("s".to_string())],
        CodegenError::UnsupportedInstruction,
    );
    refused(vec![FlowInstruction::GoToBlock(BasicBlockId(0))], CodegenError::UnsupportedInstruction);
    refused(
        vec![local(), number(), FlowInstruction::ApplyBinaryOperator(BinaryOperator::Plus)],
        CodegenError::NonNumericOperand,
    );
    refused(
        vec![number(), local(), FlowInstruction::ApplyBinaryOperator(BinaryOperator::Plus)],
        CodegenError::NonNumericOperand,
    );
    refused(
        vec![number(), number(), FlowInstruction::ApplyBinaryOperator(BinaryOperator::Minus)],
        CodegenError::UnsupportedOperator,
    );
    refused(vec![local(), call(1)], CodegenError::NonNumericArgument);
    refused(vec![number(), number(), FlowInstruction::Assign], CodegenError::UnsupportedAssignment);
    refused(vec![FlowInstruction::PushStackVariable(usize::MAX)], CodegenError::FrameTooLarge);
    let select_with = |block: BasicBlock, scopes: ScopeArena, jumps: Vec<Option<u64>>| {
        codegen_block(&block, &scopes, &vec![], &jumps)
    };
    assert_eq!(
        select_with(block(vec![call(0)], vec![]), root_scopes(), vec![]),
        Err(CodegenError::UnresolvedTarget)
    );
    assert_eq!(
        select_with(
            block(vec![], vec![TailInstruction::Jump(BasicBlockId(1))]),
            root_scopes(),
            vec![None],
        ),
        Err(CodegenError::UnresolvedTarget)
    );
    assert_eq!(
        select_with(
            block(vec![], vec![TailInstruction::ConditionalJump(BasicBlockId(1))]),
            root_scopes(),
            vec![Some(1)],
        ),
        Err(CodegenError::UnsupportedTail)
    );
    assert_eq!(
        select_with(block(vec![], vec![]), ScopeArena::new(), vec![]),
        Err(CodegenError::InvalidBlock)
    );
}

#[test]
fn assignment_through_an_identifier_resolves_it_in_the_scope() {
    let mut scopes = ScopeArena::new();
    let mut scope = Scope::default();
    scope.insert(Id::new("slot"), Value::StackVariable { offset: 24 });
    scope.insert(Id::new("parameter"), Value::FunctionParameter(0));
    scopes.add(scope);
    let mut code = Vec::new();
    let mut context = CodegenContext {
        stack: vec![CodegenStackEntry::Number, CodegenStackEntry::Id(Id::new("slot"))],
    };
    let result = codegen_instruction(
        &mut context,
        &mut code,
        &FlowInstruction::Assign,
        72,
        None,
        &scopes,
        ScopeId(0),
    );
    assert_eq!(result, Ok(()));
    assert!(context.stack.is_empty());
    assert_eq!(
        code,
        vec![MachineInstruction::Store {
            base: Register::Rsp,
            displacement: 80,
            source: Register::Rbx
        }]
    );

    let mut context = CodegenContext {
        stack: vec![CodegenStackEntry::Number, CodegenStackEntry::Id(Id::new("parameter"))],
    };
    let result = codegen_instruction(
        &mut context,
        &mut code,
        &FlowInstruction::Assign,
        72,
        None,
        &scopes,
        ScopeId(0),
    );
    assert_eq!(result, Err(CodegenError::UnsupportedAssignment));
}

#[test]
fn context_tracks_registers() {
    let mut context = CodegenContext::new();
    assert_eq!(context.current_stack_register(), Ok(Register::Rbx));
    assert_eq!(context.push(CodegenStackEntry::Number), Ok(Register::Rbx));
    assert_eq!(context.push(CodegenStackEntry::StackVariable(8)), Ok(Register::R10));
    assert_eq!(context.current_stack_register(), Ok(Register::R11));
    assert_eq!(context.pop(), Ok((CodegenStackEntry::StackVariable(8), Register::R10)));
    assert_eq!(context.pop(), Ok((CodegenStackEntry::Number, Register::Rbx)));
    assert_eq!(context.pop(), Err(CodegenError::StackUnderflow));
    assert_eq!(context.argument_register(0), Ok(Register::Rcx));
    assert_eq!(context.argument_register(1), Ok(Register::Rdx));
    assert_eq!(context.argument_register(2), Ok(Register::R8));
    assert_eq!(context.argument_register(3), Ok(Register::R9));
    assert_eq!(context.argument_register(4), Err(CodegenError::ArgumentRegisterOverflow));
    for _ in 0..7 {
        context.push(CodegenStackEntry::Number).expect("room");
    }
    assert_eq!(context.push(CodegenStackEntry::Number), Err(CodegenError::RegisterStackOverflow));
    assert_eq!(context.stack.len(), 7);
}

#[test]
fn system_call_asks_the_generator_for_the_operand_kinds() {
    let log = SystemFunction::new(
        "console_log".to_string(),
        1,
        table(vec![(vec![OperandKind::String], 0x1111), (vec![OperandKind::Number], 0x2222)]),
    );
    assert_eq!(log.name(), "console_log");
    assert_eq!(log.arity(), 1);
    assert_eq!(log.handler_fn(&[CodegenStackEntry::Number]), Some(0x2222));
    assert_eq!(log.handler_fn(&[CodegenStackEntry::StackVariable(3)]), None);
    assert_eq!(log.handler_fn(&[]), None);

    let selected = select(vec![
        FlowInstruction::PushLiteralNumber(42),
        FlowInstruction::CallSystemFunction(log.duplicate()),
        FlowInstruction::DiscardValue,
    ])
    .expect("selection");
    assert_eq!(
        selected,
        vec![
            MachineInstruction::MoveImmediate { target: Register::Rbx, value: 42 },
            MachineInstruction::MoveRegister { target: Register::Rcx, source: Register::Rbx },
            MachineInstruction::CallAddress(0x2222),
            MachineInstruction::MoveRegister { target: Register::Rbx, source: Register::Rax },
        ]
    );

    assert_eq!(
        select(vec![
            FlowInstruction::PushStackVariable(0),
            FlowInstruction::CallSystemFunction(log),
        ]),
        Err(CodegenError::HandlerNotImplemented)
    );
}

#[test]
fn system_call_passes_the_top_of_the_stack_first() {
    let pair = SystemFunction::new(
        "pair".to_string(),
        2,
        table(vec![(vec![OperandKind::StackVariable, OperandKind::Number], 0x3333)]),
    );
    let selected = select(vec![
        FlowInstruction::PushLiteralNumber(1),
        FlowInstruction::PushStackVariable(0),
        FlowInstruction::CallSystemFunction(pair),
    ])
    .expect("selection");
    assert_eq!(
        &selected[2..],
        &[
            MachineInstruction::MoveRegister { target: Register::Rcx, source: Register::R10 },
            MachineInstruction::MoveRegister { target: Register::Rdx, source: Register::Rbx },
            MachineInstruction::CallAddress(0x3333),
            MachineInstruction::MoveRegister { target: Register::Rbx, source: Register::Rax },
        ]
    );
}

#[test]
fn assembler_encodes_every_instruction_kind() {
    let base = 0x10_0000u64;
    let listing = vec![
        MachineInstruction::SubImmediate { target: Register::Rsp, value: 72 },
        MachineInstruction::AddImmediate { target: Register::Rsp, value: 1000 },
        MachineInstruction::AddRegister { target: Register::Rbx, source: Register::R10 },
        MachineInstruction::MoveRegister { target: Register::R8, source: Register::R15 },
        MachineInstruction::MoveImmediate { target: Register::Rdx, value: 0x1122_3344_5566_7788 },
        MachineInstruction::Store { base: Register::Rsp, displacement: 48, source: Register::R14 },
        MachineInstruction::Load { target: Register::R9, base: Register::Rsp, displacement: 64 },
        MachineInstruction::CallAddress(base + 0x800),
        MachineInstruction::JumpRegister(Register::Rax),
        MachineInstruction::JumpAddress(base + 0x900),
        MachineInstruction::Return,
    ];
    let bytes = assemble(&listing, base).expect("assembly");
    let decoded = decode(&bytes, base);
    assert_eq!(decoded.len(), listing.len());

    assert_eq!(decoded[0].mnemonic(), Mnemonic::Sub);
    assert_eq!(decoded[0].op0_register(), iced_x86::Register::RSP);
    assert_eq!(decoded[0].immediate(1), 72);

    assert_eq!(decoded[1].mnemonic(), Mnemonic::Add);
    assert_eq!(decoded[1].op0_register(), iced_x86::Register::RSP);
    assert_eq!(decoded[1].immediate(1), 1000);

    assert_eq!(decoded[2].mnemonic(), Mnemonic::Add);
    assert_eq!(decoded[2].op0_register(), iced_x86::Register::RBX);
    assert_eq!(decoded[2].op1_register(), iced_x86::Register::R10);

    assert_eq!(decoded[3].mnemonic(), Mnemonic::Mov);
    assert_eq!(decoded[3].op0_register(), iced_x86::Register::R8);
    assert_eq!(decoded[3].op1_register(), iced_x86::Register::R15);

    assert_eq!(decoded[4].mnemonic(), Mnemonic::Mov);
    assert_eq!(decoded[4].op0_register(), iced_x86::Register::RDX);
    assert_eq!(decoded[4].immediate(1), 0x1122_3344_5566_7788);

    assert_eq!(decoded[5].mnemonic(), Mnemonic::Mov);
    assert_eq!(decoded[5].op0_kind(), OpKind::Memory);
    assert_eq!(decoded[5].memory_base(), iced_x86::Register::RSP);
    assert_eq!(decoded[5].memory_displacement64(), 48);
    assert_eq!(decoded[5].op1_register(), iced_x86::Register::R14);

    assert_eq!(decoded[6].mnemonic(), Mnemonic::Mov);
    assert_eq!(decoded[6].op0_register(), iced_x86::Register::R9);
    assert_eq!(decoded[6].op1_kind(), OpKind::Memory);
    assert_eq!(decoded[6].memory_base(), iced_x86::Register::RSP);
    assert_eq!(decoded[6].memory_displacement64(), 64);

    assert_eq!(decoded[7].mnemonic(), Mnemonic::Call);
    assert_eq!(decoded[7].near_branch_target(), base + 0x800);

    assert_eq!(decoded[8].mnemonic(), Mnemonic::Jmp);
    assert_eq!(decoded[8].op0_register(), iced_x86::Register::RAX);

    assert_eq!(decoded[9].mnemonic(), Mnemonic::Jmp);
    assert_eq!(decoded[9].near_branch_target(), base + 0x900);

    assert_eq!(decoded[10].mnemonic(), Mnemonic::Ret);
    assert_eq!(bytes.last(), Some(&0xC3));
}

#[test]
fn assembler_names_every_register() {
    let registers = [
        (Register::Rax, iced_x86::Register::RAX),
        (Register::Rcx, iced_x86::Register::RCX),
        (Register::Rdx, iced_x86::Register::RDX),
        (Register::Rbx, iced_x86::Register::RBX),
        (Register::Rsp, iced_x86::Register::RSP),
        (Register::R8, iced_x86::Register::R8),
        (Register::R9, iced_x86::Register::R9),
        (Register::R10, iced_x86::Register::R10),
        (Register::R11, iced_x86::Register::R11),
        (Register::R12, iced_x86::Register::R12),
        (Register::R13, iced_x86::Register::R13),
        (Register::R14, iced_x86::Register::R14),
        (Register::R15, iced_x86::Register::R15),
    ];
    let listing: Vec<MachineInstruction> = registers
        .iter()
        .map(|(register, _)| MachineInstruction::MoveRegister {
            target: *register,
            source: Register::Rax,
        })
        .collect();
    let bytes = assemble(&listing, 0x4000).expect("assembly");
    let decoded = decode(&bytes, 0x4000);
    assert_eq!(decoded.len(), registers.len());
    for (instruction, (_, expected)) in decoded.iter().zip(registers.iter()) {
        assert_eq!(instruction.op0_register(), *expected);
        assert_eq!(instruction.op1_register(), iced_x86::Register::RAX);
    }
    assert!(assemble(&vec![], 0x4000).expect("assembly").is_empty());
}

#[test]
fn refused_tail_is_named() {
    let refused = codegen_block_explained(
        &block(
            vec![FlowInstruction::Return],
            vec![
                TailInstruction::Jump(BasicBlockId(1)),
                TailInstruction::ConditionalJump(BasicBlockId(2)),
            ],
        ),
        &root_scopes(),
        &vec![None],
        &vec![Some(0x9000), Some(0xa000)],
    );
    assert_eq!(
        refused,
        Err(Refusal {
            error: CodegenError::UnsupportedTail,
            construct: RefusedConstruct::Tail(1),
            system_function: None,
        })
    );
    let refused = codegen_block_explained(
        &block(vec![], vec![]),
        &ScopeArena::new(),
        &vec![],
        &vec![],
    );
    assert_eq!(refused.map_err(|refusal| refusal.construct), Err(RefusedConstruct::Block));
}
