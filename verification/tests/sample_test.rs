use almond::ast::{LiteralValue as ParsedLiteral, Node as ParsedNode, NodeKind as Parsed};
use iced_x86::{Decoder, DecoderOptions, Instruction, Mnemonic};
use omjit::ast;
use omjit::codegen::{CodegenError, Refusal, RefusedConstruct};
use omjit::environment::{Environment, RuntimeLinks, TypeInfo};
use omjit::flow_graph::{
    BasicBlockId, FlowGraph, FlowInstruction, HandlerTable, Id, Scope, SystemFunction, Value,
};
use omjit::source_location::SourcePosition;

const LINKS: RuntimeLinks =
    RuntimeLinks { environment: 0x7000_0000_1000, trampoline_routine: 0x7000_0000_2000 };

fn position(span: &ParsedNode, end: bool) -> SourcePosition {
    let span = if end { &span.end } else { &span.start };
    SourcePosition { offset: span.location_offset(), line: span.location_line() }
}

fn convert_all(nodes: &[ParsedNode]) -> Vec<ast::Node> {
    nodes.iter().map(convert).collect()
}

fn convert_option(node: &Option<ParsedNode>) -> Option<Box<ast::Node>> {
    node.as_ref().map(|node| Box::new(convert(node)))
}

fn convert_operator(operator: almond::ast::BinaryOperator) -> ast::BinaryOperator {
    match operator {
        almond::ast::BinaryOperator::Plus => ast::BinaryOperator::Plus,
        almond::ast::BinaryOperator::Minus => ast::BinaryOperator::Minus,
        almond::ast::BinaryOperator::Asterisk => ast::BinaryOperator::Asterisk,
        almond::ast::BinaryOperator::Slash => ast::BinaryOperator::Slash,
        _ => ast::BinaryOperator::Percent,
    }
}

fn convert(node: &ParsedNode) -> ast::Node {
    let kind = match &node.kind {
        Parsed::Identifier { name } => ast::NodeKind::Identifier { name: name.clone() },
        Parsed::Literal { value } => ast::NodeKind::Literal {
            value: match value {
                ParsedLiteral::String(value) => ast::LiteralValue::String(value.clone()),
                ParsedLiteral::Boolean(value) => ast::LiteralValue::Boolean(*value),
                ParsedLiteral::Null => ast::LiteralValue::Null,
                ParsedLiteral::Number(value) => ast::LiteralValue::Number(*value as u64),
                ParsedLiteral::RegExp(value) => ast::LiteralValue::RegExp(value.clone()),
            },
        },
        Parsed::Program { body } => ast::NodeKind::Program { body: convert_all(body) },
        Parsed::ExpressionStatement { expression, directive } => {
            ast::NodeKind::ExpressionStatement {
                expression: Box::new(convert(expression)),
                directive: directive.clone(),
            }
        }
        Parsed::BlockStatement { body } => ast::NodeKind::BlockStatement { body: convert_all(body) },
        Parsed::ReturnStatement { argument } => {
            ast::NodeKind::ReturnStatement { argument: convert_option(argument) }
        }
        Parsed::ForStatement { init, test, update, body } => ast::NodeKind::ForStatement {
            init: convert_option(init),
            test: convert_option(test),
            update: convert_option(update),
            body: Box::new(convert(body)),
        },
        Parsed::FunctionDeclaration { function } => ast::NodeKind::FunctionDeclaration {
            function: ast::Function {
                id: convert_option(&function.id),
                params: convert_all(&function.params),
                body: Box::new(convert(&function.body)),
                is_async: function.is_async,
            },
        },
        Parsed::VariableDeclaration { declarations, .. } => {
            ast::NodeKind::VariableDeclaration { declarations: convert_all(declarations) }
        }
        Parsed::VariableDeclarator { id, init } => ast::NodeKind::VariableDeclarator {
            id: Box::new(convert(id)),
            init: convert_option(init),
        },
        Parsed::BinaryExpression { operator, left, right } => ast::NodeKind::BinaryExpression {
            operator: convert_operator(*operator),
            left: Box::new(convert(left)),
            right: Box::new(convert(right)),
        },
        Parsed::CallExpression { callee, arguments } => ast::NodeKind::CallExpression {
            callee: Box::new(convert(callee)),
            arguments: convert_all(arguments),
        },
        other => ast::NodeKind::Unsupported { name: format!("{:?}", other) },
    };
    ast::Node { kind, start: position(node, false), end: position(node, true) }
}

fn lower(code: &str) -> FlowGraph {
    let (_, node) = almond::parse_program(code.into()).expect("parse");
    FlowGraph::from_root_node(&convert(&node), Scope::default()).expect("lowering")
}

fn attached(code: &str) -> Environment {
    let mut environment = Environment::new(lower(code), true);
    environment.attach(LINKS);
    environment
}

fn decode(bytes: &[u8], base: u64) -> Vec<Instruction> {
    let mut decoder = Decoder::with_ip(64, bytes, base, DecoderOptions::NONE);
    let mut instructions = Vec::new();
    while decoder.can_decode() {
        instructions.push(decoder.decode());
    }
    instructions
}

fn compiled(environment: &Environment, index: usize) -> Vec<Instruction> {
    let code = &environment.compiled_code()[index];
    decode(&code.registration.file()[0..code.size], code.entry)
}

fn moves_of_immediates(instructions: &[Instruction]) -> Vec<u64> {
    instructions
        .iter()
        .filter(|instruction| {
            instruction.mnemonic() == Mnemonic::Mov
                && instruction.op1_kind() == iced_x86::OpKind::Immediate64
        })
        .map(|instruction| instruction.immediate(1))
        .collect()
}

#[test]
fn test_add() {
    let code = "function add(a, b) { return a + b; } add(2, 3);";

    let scope = Scope::default();

    let (_, node) = almond::parse_program(code.into()).expect("parse");
    let flow_graph = FlowGraph::from_root_node(&convert(&node), scope).expect("lowering");
    let mut environment = Environment::new(flow_graph, true);
    environment.attach(LINKS);
    environment.run().expect("run failed");

    println!("Done");
}

#[test]
fn add_runs_through_one_trampoline_per_block() {
    let mut environment = attached("function add(a, b) { return a + b; } add(2, 3);");
    assert!(environment.dump_disassembly());

    // The host enters the program through the trampoline of the entry block.
    let entry = environment.run().expect("run");
    assert_eq!(environment.trampoline_code().len(), 1);
    assert_eq!(environment.trampoline_code()[0].entry, entry);
    assert_eq!(environment.trampoline_code()[0].basic_block_id, BasicBlockId(0));
    assert!(environment.compiled_code().is_empty());

    // Entered, the trampoline has the entry block compiled. Its call of
    // `add` is resolved to a new trampoline.
    let root = environment.compile_basic_block(&BasicBlockId(0), &TypeInfo).expect("compile");
    assert_eq!(environment.compiled_code().len(), 1);
    assert_eq!(environment.trampoline_code().len(), 2);
    let add_trampoline = environment.trampoline_code()[1].entry;
    assert_eq!(environment.trampoline_code()[1].basic_block_id, BasicBlockId(1));
    assert_eq!(environment.basic_block_fn(BasicBlockId(0), TypeInfo), Ok(root));
    assert_eq!(environment.basic_block_fn(BasicBlockId(1), TypeInfo), Ok(add_trampoline));

    let root_code = compiled(&environment, 0);
    assert_eq!(moves_of_immediates(&root_code), vec![2, 3]);
    let calls: Vec<&Instruction> =
        root_code.iter().filter(|instruction| instruction.mnemonic() == Mnemonic::Call).collect();
    assert_eq!(calls.len(), 1);
    assert_eq!(calls[0].near_branch_target(), add_trampoline);

    // Entered, the trampoline of `add` has its block compiled: it adds the
    // second parameter to the first and returns the sum.
    let add = environment.compile_basic_block(&BasicBlockId(1), &TypeInfo).expect("compile");
    assert_eq!(environment.compiled_code().len(), 2);
    assert_eq!(environment.trampoline_code().len(), 2);
    let add_code = compiled(&environment, 1);
    let sum = add_code
        .iter()
        .position(|instruction| {
            instruction.mnemonic() == Mnemonic::Add
                && instruction.op1_kind() == iced_x86::OpKind::Register
        })
        .expect("addition");
    assert_eq!(add_code[sum].op0_register(), iced_x86::Register::RBX);
    assert_eq!(add_code[sum].op1_register(), iced_x86::Register::R10);
    assert_eq!(add_code[sum - 2].op1_register(), iced_x86::Register::RCX);
    assert_eq!(add_code[sum - 1].op1_register(), iced_x86::Register::RDX);
    assert_eq!(add_code[sum + 1].op0_register(), iced_x86::Register::RAX);
    assert_eq!(add_code[sum + 1].op1_register(), iced_x86::Register::RBX);
    assert_eq!(add_code.last().map(|instruction| instruction.mnemonic()), Some(Mnemonic::Ret));

    // From now on callers of `add` get the compiled code, and nothing is
    // compiled a second time.
    assert_eq!(environment.basic_block_fn(BasicBlockId(1), TypeInfo), Ok(add));
    assert_eq!(environment.compile_basic_block(&BasicBlockId(1), &TypeInfo), Ok(add));
    assert_eq!(environment.compile_basic_block(&BasicBlockId(0), &TypeInfo), Ok(root));
    assert_eq!(environment.compiled_code().len(), 2);
    assert_eq!(environment.trampoline_code().len(), 2);
}

#[test]
fn identity_returns_its_argument() {
    let mut environment = attached("function id(x) { return x; } id(42);");
    environment.compile_basic_block(&BasicBlockId(0), &TypeInfo).expect("compile");
    environment.compile_basic_block(&BasicBlockId(1), &TypeInfo).expect("compile");
    assert_eq!(moves_of_immediates(&compiled(&environment, 0)), vec![42]);
    let id = compiled(&environment, 1);
    // The frame leaves the stack pointer on a multiple of 16 for calls.
    assert_eq!(id[0].mnemonic(), Mnemonic::Sub);
    assert_eq!(id[0].op0_register(), iced_x86::Register::RSP);
    assert_eq!(id[0].immediate(1), 72);
    assert_eq!((id[0].immediate(1) + 8) % 16, 0);
    // sub, seven saves, then the parameter is pushed and returned.
    assert_eq!(id[8].op0_register(), iced_x86::Register::RBX);
    assert_eq!(id[8].op1_register(), iced_x86::Register::RCX);
    assert_eq!(id[9].op0_register(), iced_x86::Register::RAX);
    assert_eq!(id[9].op1_register(), iced_x86::Register::RBX);
}

#[test]
fn three_arguments_travel_in_three_registers() {
    let mut environment = attached("function add3(a, b, c) { return a + b + c; } add3(1, 2, 3);");
    environment.compile_basic_block(&BasicBlockId(0), &TypeInfo).expect("compile");
    let root = compiled(&environment, 0);
    assert_eq!(moves_of_immediates(&root), vec![1, 2, 3]);
    let call = root
        .iter()
        .position(|instruction| instruction.mnemonic() == Mnemonic::Call)
        .expect("call");
    let passed: Vec<(iced_x86::Register, iced_x86::Register)> = root[call - 3..call]
        .iter()
        .map(|instruction| (instruction.op0_register(), instruction.op1_register()))
        .collect();
    assert_eq!(
        passed,
        vec![
            (iced_x86::Register::R8, iced_x86::Register::R11),
            (iced_x86::Register::RDX, iced_x86::Register::R10),
            (iced_x86::Register::RCX, iced_x86::Register::RBX),
        ]
    );
    environment.compile_basic_block(&BasicBlockId(1), &TypeInfo).expect("compile");
    let additions = compiled(&environment, 1)
        .iter()
        .filter(|instruction| {
            instruction.mnemonic() == Mnemonic::Add
                && instruction.op1_kind() == iced_x86::OpKind::Register
        })
        .count();
    assert_eq!(additions, 2);
}

#[test]
fn second_call_finds_the_block_in_the_cache() {
    let mut environment = attached("function f(x) { return x + x; } f(f(7));");
    environment.compile_basic_block(&BasicBlockId(0), &TypeInfo).expect("compile");
    // Both calls of `f` are resolved to the one trampoline of `f`.
    assert_eq!(environment.trampoline_code().len(), 1);
    let trampoline = environment.trampoline_code()[0].entry;
    let root = compiled(&environment, 0);
    let targets: Vec<u64> = root
        .iter()
        .filter(|instruction| instruction.mnemonic() == Mnemonic::Call)
        .map(|instruction| instruction.near_branch_target())
        .collect();
    assert_eq!(targets, vec![trampoline, trampoline]);

    let f = environment.compile_basic_block(&BasicBlockId(1), &TypeInfo).expect("compile");
    assert_ne!(f, trampoline);
    assert_eq!(environment.basic_block_fn(BasicBlockId(1), TypeInfo), Ok(f));
    assert_eq!(environment.compile_basic_block(&BasicBlockId(1), &TypeInfo), Ok(f));
    assert_eq!(environment.compiled_code().len(), 2);
    assert_eq!(environment.trampoline_code().len(), 1);
}

#[test]
fn eight_arguments_fail_with_register_stack_overflow() {
    let code = "function g(a){ return a+1; } \
                function h(a,b,c,d,e,f,g,h){ return a; } h(1,2,3,4,5,6,7,8);";
    for _ in 0..2 {
        let mut environment = attached(code);
        assert_eq!(
            environment.compile_basic_block(&BasicBlockId(0), &TypeInfo),
            Err(CodegenError::RegisterStackOverflow)
        );
        assert!(environment.compiled_code().is_empty());
    }
}

#[test]
fn parsed_loop_has_one_jump_to_its_body() {
    let graph = lower("function loop() { for (var i = 0;;) { } }");
    let function = graph.get_basic_block(&BasicBlockId(1)).expect("function");
    assert_eq!(function.tails.len(), 1);
    let body = graph.get_basic_block(&BasicBlockId(2)).expect("body");
    assert_eq!(graph.scopes().get(body.scope).parent(), Some(function.scope));
    assert!(matches!(function.instructions()[1], FlowInstruction::PushLiteralNumber(0)));
}

#[test]
fn trampoline_asks_the_host_to_compile_its_block() {
    let mut environment = attached("function id(x) { return x; } id(42);");
    let entry = environment.basic_block_fn(BasicBlockId(1), TypeInfo).expect("trampoline");
    let trampoline = &environment.trampoline_code()[0];
    assert_eq!(trampoline.entry, entry);
    let code = decode(&trampoline.registration.file()[0..trampoline.size], entry);
    let mnemonics: Vec<Mnemonic> =
        code.iter().take(14).map(|instruction| instruction.mnemonic()).collect();
    let mut expected = vec![Mnemonic::Sub];
    expected.extend([Mnemonic::Mov; 4]);
    expected.extend([Mnemonic::Mov, Mnemonic::Mov, Mnemonic::Call]);
    expected.extend([Mnemonic::Mov; 4]);
    expected.extend([Mnemonic::Add, Mnemonic::Jmp]);
    assert_eq!(mnemonics, expected);
    // The frame keeps the stack pointer on a multiple of 16 at the call.
    assert_eq!(code[0].immediate(1), 72);
    assert_eq!((code[0].immediate(1) + 8) % 16, 0);
    // All four argument registers are stored above the shadow space before
    // the call and loaded from the same slots after it.
    let arguments = [
        iced_x86::Register::RCX,
        iced_x86::Register::RDX,
        iced_x86::Register::R8,
        iced_x86::Register::R9,
    ];
    for (index, register) in arguments.iter().enumerate() {
        let store = &code[1 + index];
        assert_eq!(store.op0_kind(), iced_x86::OpKind::Memory);
        assert_eq!(store.memory_base(), iced_x86::Register::RSP);
        assert_eq!(store.memory_displacement64(), 32 + 8 * index as u64);
        assert_eq!(store.op1_register(), *register);
        let load = &code[8 + index];
        assert_eq!(load.op0_register(), *register);
        assert_eq!(load.op1_kind(), iced_x86::OpKind::Memory);
        assert_eq!(load.memory_base(), iced_x86::Register::RSP);
        assert_eq!(load.memory_displacement64(), 32 + 8 * index as u64);
    }
    assert_eq!(code[5].op0_register(), iced_x86::Register::RCX);
    assert_eq!(code[5].immediate(1), LINKS.environment);
    assert_eq!(code[6].op0_register(), iced_x86::Register::RDX);
    assert_eq!(code[6].immediate(1), 1);
    // The routine is out of reach of a relative call from the page, so the
    // call goes through a pointer that the assembler places behind the code.
    assert!(code[7].is_ip_rel_memory_operand());
    let pointer = (code[7].ip_rel_memory_address() - entry) as usize;
    let mut target = [0u8; 8];
    target.copy_from_slice(&trampoline.registration.file()[pointer..pointer + 8]);
    assert_eq!(u64::from_le_bytes(target), LINKS.trampoline_routine);
    assert_eq!(code[12].immediate(1), 72);
    assert_eq!(code[13].op0_register(), iced_x86::Register::RAX);
    assert_eq!(trampoline.registration.file().len(), 4096);
}

#[test]
fn environment_errors() {
    let mut environment = Environment::new(lower("function id(x) { return x; } id(42);"), false);
    assert!(!environment.dump_disassembly());
    assert_eq!(environment.links(), None);
    assert_eq!(environment.run(), Err(CodegenError::NotAttached));
    assert_eq!(
        environment.compile_basic_block(&BasicBlockId(9), &TypeInfo),
        Err(CodegenError::InvalidBlock)
    );
    assert_eq!(
        environment.compile_basic_block(&BasicBlockId(0), &TypeInfo),
        Err(CodegenError::NotAttached)
    );
    assert!(environment.get_basic_block(&BasicBlockId(9)).is_none());

    // Nothing is missing for a block that calls nothing, links or not.
    let mut alone = Environment::new(lower("function id(x) { return x; }"), false);
    assert!(alone.compile_basic_block(&BasicBlockId(0), &TypeInfo).is_ok());
    assert_eq!(alone.compiled_code()[0].registration.file().len(), 4096);

    let mut empty = Environment::new(FlowGraph::default(), false);
    empty.attach(LINKS);
    assert_eq!(empty.links(), Some(LINKS));
    assert_eq!(empty.run(), Err(CodegenError::InvalidBlock));
}

#[test]
fn every_image_is_on_the_debugger_list() {
    let mut environment = attached("function f(x) { return x + x; } f(f(7));");
    environment.run().expect("run");
    environment.compile_basic_block(&BasicBlockId(0), &TypeInfo).expect("compile");
    environment.compile_basic_block(&BasicBlockId(1), &TypeInfo).expect("compile");
    let descriptor = environment.descriptor();
    assert_eq!(descriptor.version, 1);
    assert_eq!(descriptor.action_flag, 0);
    assert_eq!(descriptor.relevant_entry, None);
    // Newest first: the code of `f`, the code of the entry block, the
    // trampoline of `f` and the trampoline of the entry block.
    let mut listed = Vec::new();
    let mut previous = None;
    let mut next = descriptor.first_entry;
    while let Some(slot) = next {
        let entry = descriptor.entries[slot].expect("live entry");
        assert_eq!(entry.prev_entry, previous);
        assert_eq!(entry.symfile_size, 4096);
        listed.push((slot, entry.symfile_addr));
        previous = Some(slot);
        next = entry.next_entry;
    }
    let expected: Vec<(usize, u64)> = vec![
        (environment.compiled_code()[1].registration.entry(), environment.compiled_code()[1].entry),
        (environment.compiled_code()[0].registration.entry(), environment.compiled_code()[0].entry),
        (
            environment.trampoline_code()[1].registration.entry(),
            environment.trampoline_code()[1].entry,
        ),
        (
            environment.trampoline_code()[0].registration.entry(),
            environment.trampoline_code()[0].entry,
        ),
    ];
    assert_eq!(listed, expected);
}

#[test]
fn teardown_takes_the_code_off_the_debugger_list() {
    let mut environment = attached("function f(x) { return x + x; } f(f(7));");
    environment.run().expect("run");
    environment.compile_basic_block(&BasicBlockId(0), &TypeInfo).expect("compile");
    environment.compile_basic_block(&BasicBlockId(1), &TypeInfo).expect("compile");
    assert_eq!(environment.descriptor().entries.iter().flatten().count(), 4);

    // An image that is published and not cached stays on the list.
    let (kept, _, _) = environment
        .publish(&vec![omjit::codegen::MachineInstruction::Return])
        .expect("publish");

    assert_eq!(environment.take_announcements().len(), 5);
    let descriptor = environment.teardown();
    assert_eq!(descriptor.announcements.len(), 4);
    assert!(descriptor.announcements.iter().all(|announcement| announcement.action_flag == 2));
    assert_eq!(descriptor.first_entry, Some(kept.entry()));
    let live: Vec<usize> = descriptor
        .entries
        .iter()
        .enumerate()
        .filter(|(_, entry)| entry.is_some())
        .map(|(slot, _)| slot)
        .collect();
    assert_eq!(live, vec![kept.entry()]);
    let entry = descriptor.entries[kept.entry()].expect("entry");
    assert_eq!(entry.prev_entry, None);
    assert_eq!(entry.next_entry, None);
    assert_eq!(kept.file()[0], 0xC3);

    let mut descriptor = descriptor;
    kept.unregister(&mut descriptor);
    assert_eq!(descriptor.first_entry, None);
}

#[test]
fn refusals_name_the_construct_and_the_function() {
    let mut scope = Scope::default();
    scope.insert(
        Id::new("log"),
        Value::SystemFunction(SystemFunction::new(
            "console_log".to_string(),
            1,
            Box::new(HandlerTable { rows: vec![] }),
        )),
    );
    let (_, node) = almond::parse_program("log(7);".into()).expect("parse");
    let graph = FlowGraph::from_root_node(&convert(&node), scope).expect("lowering");
    let mut environment = Environment::new(graph, false);
    environment.attach(LINKS);
    assert_eq!(
        environment.compile_basic_block(&BasicBlockId(0), &TypeInfo),
        Err(CodegenError::HandlerNotImplemented)
    );
    // Prologue, push of 7, then the call that is declined.
    assert_eq!(
        environment.explain_refusal(&BasicBlockId(0)),
        Some(Refusal {
            error: CodegenError::HandlerNotImplemented,
            construct: RefusedConstruct::Instruction(2),
            system_function: Some("console_log".to_string()),
        })
    );
    assert_eq!(
        environment.explain_refusal(&BasicBlockId(5)),
        Some(Refusal {
            error: CodegenError::InvalidBlock,
            construct: RefusedConstruct::Block,
            system_function: None,
        })
    );

    let mut overflow = attached(
        "function h(a,b,c,d,e,f,g,h){ return a; } h(1,2,3,4,5,6,7,8);",
    );
    assert!(overflow.compile_basic_block(&BasicBlockId(0), &TypeInfo).is_err());
    // The eighth push, after the prologue and seven pushes.
    assert_eq!(
        overflow.explain_refusal(&BasicBlockId(0)),
        Some(Refusal {
            error: CodegenError::RegisterStackOverflow,
            construct: RefusedConstruct::Instruction(8),
            system_function: None,
        })
    );
    assert_eq!(overflow.entry_point_of(BasicBlockId(0), TypeInfo), None);

    let mut fine = attached("function id(x) { return x; } id(42);");
    assert_eq!(fine.explain_refusal(&BasicBlockId(1)), None);
    let entry = fine.compile_basic_block(&BasicBlockId(1), &TypeInfo).expect("compile");
    assert_eq!(fine.entry_point_of(BasicBlockId(1), TypeInfo), Some(entry));
}
