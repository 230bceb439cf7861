use omjit::ast::{BinaryOperator, Function, LiteralValue, Node, NodeKind};
use omjit::flow_graph::nodes::expression::evaluate_expression;
use omjit::flow_graph::nodes::expression_statement::handle_expression_statement;
use omjit::flow_graph::nodes::for_statement::handle_for_statement;
use omjit::flow_graph::nodes::return_statement::handle_return_statement;
use omjit::flow_graph::{
    BasicBlock, BasicBlockId, FlowGraph, FlowInstruction, Id, LoweringErrorKind, Scope, ScopeArena,
    ScopeId, TailInstruction, Value,
};
use omjit::source_location::{SourceLocation, SourcePosition};

fn at(offset: usize) -> SourcePosition {
    SourcePosition { offset, line: 1 }
}

fn node(kind: NodeKind, start: usize, end: usize) -> Node {
    Node { kind, start: at(start), end: at(end) }
}

fn identifier(name: &str, start: usize) -> Node {
    node(NodeKind::Identifier { name: name.to_string() }, start, start + name.len())
}

fn number(value: u64, start: usize) -> Node {
    node(NodeKind::Literal { value: LiteralValue::Number(value) }, start, start + 1)
}

fn binary(operator: BinaryOperator, left: Node, right: Node) -> Node {
    let (start, end) = (left.start.offset, right.end.offset);
    node(
        NodeKind::BinaryExpression { operator, left: Box::new(left), right: Box::new(right) },
        start,
        end,
    )
}

fn call(callee: &str, arguments: Vec<Node>, start: usize) -> Node {
    node(
        NodeKind::CallExpression { callee: Box::new(identifier(callee, start)), arguments },
        start,
        start + 10,
    )
}

fn statement(expression: Node) -> Node {
    let (start, end) = (expression.start.offset, expression.end.offset + 1);
    node(
        NodeKind::ExpressionStatement { expression: Box::new(expression), directive: None },
        start,
        end,
    )
}

fn return_statement(argument: Option<Node>, start: usize) -> Node {
    node(NodeKind::ReturnStatement { argument: argument.map(Box::new) }, start, start + 6)
}

fn function(name: &str, params: &[&str], body: Vec<Node>, start: usize) -> Node {
    let params = params.iter().enumerate().map(|(i, p)| identifier(p, start + 10 + i)).collect();
    node(
        NodeKind::FunctionDeclaration {
            function: Function {
                id: Some(Box::new(identifier(name, start + 9))),
                params,
                body: Box::new(node(NodeKind::BlockStatement { body }, start + 20, start + 40)),
                is_async: false,
            },
        },
        start,
        start + 40,
    )
}

fn program(body: Vec<Node>) -> Node {
    node(NodeKind::Program { body }, 0, 100)
}

fn instructions(graph: &FlowGraph, id: usize) -> Vec<FlowInstruction> {
    graph.get_basic_block(&BasicBlockId(id)).expect("block").instructions()
}

fn operands(instruction: &FlowInstruction) -> i64 {
    match instruction {
        FlowInstruction::Assign | FlowInstruction::ApplyBinaryOperator(_) => 2,
        FlowInstruction::CallFunction { argument_count, .. } => *argument_count as i64,
        FlowInstruction::CallSystemFunction(function) => function.arity() as i64,
        FlowInstruction::ReturnValue | FlowInstruction::DiscardValue => 1,
        _ => 0,
    }
}

fn stack_effect(instruction: &FlowInstruction) -> i64 {
    match instruction {
        FlowInstruction::FunctionPrologue
        | FlowInstruction::FunctionEpilogue
        | FlowInstruction::Return
        | FlowInstruction::GoToBlock(_) => 0,
        FlowInstruction::Assign => -2,
        FlowInstruction::PushLiteralBoolean(_)
        | FlowInstruction::PushLiteralString(_)
        | FlowInstruction::PushLiteralNumber(_)
        | FlowInstruction::PushLiteralNull
        | FlowInstruction::PushFunctionParameter(_)
        | FlowInstruction::PushStackVariable(_) => 1,
        FlowInstruction::ApplyBinaryOperator(_)
        | FlowInstruction::ReturnValue
        | FlowInstruction::DiscardValue => -1,
        FlowInstruction::CallFunction { argument_count, .. } => 1 - *argument_count as i64,
        FlowInstruction::CallSystemFunction(function) => 1 - function.arity() as i64,
    }
}

#[test]
fn add_program_lowers_to_two_blocks() {
    // function add(a, b) { return a + b; } add(2, 3);
    let tree = program(vec![
        function(
            "add",
            &["a", "b"],
            vec![return_statement(
                Some(binary(BinaryOperator::Plus, identifier("a", 30), identifier("b", 34))),
                23,
            )],
            0,
        ),
        statement(call("add", vec![number(2, 45), number(3, 48)], 41)),
    ]);
    let graph = FlowGraph::from_root_node(&tree, Scope::default()).expect("lowering");
    assert_eq!(graph.root_block_id, Some(BasicBlockId(0)));

    let root = instructions(&graph, 0);
    assert_eq!(root.len(), 6);
    assert!(matches!(root[0], FlowInstruction::FunctionPrologue));
    assert!(matches!(root[1], FlowInstruction::PushLiteralNumber(2)));
    assert!(matches!(root[2], FlowInstruction::PushLiteralNumber(3)));
    assert!(matches!(
        root[3],
        FlowInstruction::CallFunction { basic_block_id: BasicBlockId(1), argument_count: 2 }
    ));
    assert!(matches!(root[4], FlowInstruction::DiscardValue));
    assert!(matches!(root[5], FlowInstruction::FunctionEpilogue));

    let add = instructions(&graph, 1);
    assert_eq!(add.len(), 6);
    assert!(matches!(add[0], FlowInstruction::FunctionPrologue));
    assert!(matches!(add[1], FlowInstruction::PushFunctionParameter(0)));
    assert!(matches!(add[2], FlowInstruction::PushFunctionParameter(1)));
    assert!(matches!(add[3], FlowInstruction::ApplyBinaryOperator(BinaryOperator::Plus)));
    assert!(matches!(add[4], FlowInstruction::ReturnValue));
    assert!(matches!(add[5], FlowInstruction::FunctionEpilogue));
    assert!(graph.get_basic_block(&BasicBlockId(2)).is_none());
}

#[test]
fn every_block_is_stack_balanced() {
    // function f(x) { return x + x; } f(f(7));
    let tree = program(vec![
        function(
            "f",
            &["x"],
            vec![return_statement(
                Some(binary(BinaryOperator::Plus, identifier("x", 30), identifier("x", 34))),
                23,
            )],
            0,
        ),
        statement(call("f", vec![call("f", vec![number(7, 45)], 43)], 41)),
    ]);
    let graph = FlowGraph::from_root_node(&tree, Scope::default()).expect("lowering");
    for id in 0..2 {
        let mut depth = 0;
        for instruction in instructions(&graph, id).iter() {
            assert!(depth >= operands(instruction));
            depth += stack_effect(instruction);
        }
        assert_eq!(depth, 0);
    }
    let root = instructions(&graph, 0);
    assert!(matches!(root[1], FlowInstruction::PushLiteralNumber(7)));
    assert!(matches!(root[2], FlowInstruction::CallFunction { argument_count: 1, .. }));
    assert!(matches!(root[3], FlowInstruction::CallFunction { argument_count: 1, .. }));
    assert!(matches!(root[4], FlowInstruction::DiscardValue));
}

#[test]
fn empty_for_loop_jumps_to_a_body_block_in_a_child_scope() {
    // function loop() { for (var i = 0;;) { } }
    let declarator = node(
        NodeKind::VariableDeclarator {
            id: Box::new(identifier("i", 27)),
            init: Some(Box::new(number(0, 31))),
        },
        27,
        32,
    );
    let init = node(NodeKind::VariableDeclaration { declarations: vec![declarator] }, 23, 32);
    let for_statement = node(
        NodeKind::ForStatement {
            init: Some(Box::new(init)),
            test: None,
            update: None,
            body: Box::new(node(NodeKind::BlockStatement { body: vec![] }, 36, 39)),
        },
        18,
        39,
    );
    let tree = program(vec![function("loop", &[], vec![for_statement], 0)]);
    let graph = FlowGraph::from_root_node(&tree, Scope::default()).expect("lowering");

    let function_block = graph.get_basic_block(&BasicBlockId(1)).expect("function block");
    assert_eq!(function_block.tails, vec![TailInstruction::Jump(BasicBlockId(2))]);
    let body = function_block.instructions();
    assert_eq!(body.len(), 5);
    assert!(matches!(body[1], FlowInstruction::PushLiteralNumber(0)));
    assert!(matches!(body[2], FlowInstruction::PushStackVariable(0)));
    assert!(matches!(body[3], FlowInstruction::Assign));

    let body_block = graph.get_basic_block(&BasicBlockId(2)).expect("body block");
    assert!(body_block.instructions().is_empty());
    assert!(body_block.tails.is_empty());
    assert_ne!(body_block.scope, function_block.scope);
    let body_scope = graph.scopes().get(body_block.scope);
    assert_eq!(body_scope.parent(), Some(function_block.scope));
    // The body sees the variable of the init clause, as its block does.
    for block in [body_block, function_block] {
        assert!(matches!(
            block.lookup(graph.scopes(), &Id::new("i")),
            Some(Value::StackVariable { offset: 0 })
        ));
    }
    assert!(body_block
        .instructions
        .iter()
        .all(|instruction| !matches!(instruction, FlowInstruction::FunctionPrologue)));
    // The loop's scope starts above the slot of `i`.
    assert_eq!(body_scope.stack_offset(), 16);
    assert_eq!(function_block.stack_allocation(graph.scopes()), 8);
}

#[test]
fn for_loop_with_a_test_is_refused() {
    let for_statement = node(
        NodeKind::ForStatement {
            init: None,
            test: Some(Box::new(number(1, 5))),
            update: None,
            body: Box::new(node(NodeKind::BlockStatement { body: vec![] }, 8, 10)),
        },
        0,
        10,
    );
    let error = FlowGraph::from_root_node(&program(vec![for_statement]), Scope::default())
        .err()
        .expect("refused");
    assert_eq!(error.kind, LoweringErrorKind::UnsupportedLoopClause);
    assert_eq!(error.at, at(5));
}

#[test]
fn lowering_errors_name_the_offending_node() {
    let lower = |body: Vec<Node>| {
        FlowGraph::from_root_node(&program(body), Scope::default()).err().expect("refused")
    };

    let error = lower(vec![statement(identifier("missing", 3))]);
    assert_eq!(error.kind, LoweringErrorKind::UndefinedIdentifier);
    assert_eq!(error.at, at(3));

    let error = lower(vec![statement(call("missing", vec![], 7))]);
    assert_eq!(error.kind, LoweringErrorKind::UndefinedIdentifier);
    assert_eq!(error.at, at(7));

    let error = lower(vec![
        function("id", &["x"], vec![return_statement(Some(identifier("x", 30)), 23)], 0),
        statement(call("id", vec![number(1, 45), number(2, 47)], 41)),
    ]);
    assert_eq!(error.kind, LoweringErrorKind::ArityMismatch);
    assert_eq!(error.at, at(41));

    let error = lower(vec![return_statement(None, 9)]);
    assert_eq!(error.kind, LoweringErrorKind::ReturnWithoutArgument);
    assert_eq!(error.at, at(9));

    let regexp =
        node(NodeKind::Literal { value: LiteralValue::RegExp("a+".to_string()) }, 2, 6);
    let error = lower(vec![statement(regexp)]);
    assert_eq!(error.kind, LoweringErrorKind::UnsupportedLiteral);

    let error = lower(vec![node(NodeKind::Unsupported { name: "WhileStatement".into() }, 4, 9)]);
    assert_eq!(error.kind, LoweringErrorKind::UnsupportedNode);
    assert_eq!(error.at, at(4));

    let error = lower(vec![
        function("f", &[], vec![], 0),
        statement(identifier("f", 50)),
    ]);
    assert_eq!(error.kind, LoweringErrorKind::UnsupportedIdentifier);

    let declarator = node(
        NodeKind::VariableDeclarator { id: Box::new(identifier("v", 4)), init: None },
        4,
        5,
    );
    let error = lower(vec![
        node(NodeKind::VariableDeclaration { declarations: vec![declarator] }, 0, 5),
        statement(call("v", vec![], 8)),
    ]);
    assert_eq!(error.kind, LoweringErrorKind::NotCallable);

    let error = FlowGraph::from_root_node(&number(1, 0), Scope::default()).err().expect("refused");
    assert_eq!(error.kind, LoweringErrorKind::UnsupportedNode);
}

#[test]
fn variable_without_initialiser_is_assigned_null() {
    let declarator = |name: &str, start: usize| {
        node(
            NodeKind::VariableDeclarator { id: Box::new(identifier(name, start)), init: None },
            start,
            start + 1,
        )
    };
    let tree = program(vec![node(
        NodeKind::VariableDeclaration { declarations: vec![declarator("a", 4), declarator("b", 7)] },
        0,
        8,
    )]);
    let graph = FlowGraph::from_root_node(&tree, Scope::default()).expect("lowering");
    let root = instructions(&graph, 0);
    assert_eq!(root.len(), 8);
    assert!(matches!(root[1], FlowInstruction::PushLiteralNull));
    assert!(matches!(root[2], FlowInstruction::PushStackVariable(0)));
    assert!(matches!(root[3], FlowInstruction::Assign));
    assert!(matches!(root[4], FlowInstruction::PushLiteralNull));
    assert!(matches!(root[5], FlowInstruction::PushStackVariable(8)));
    assert!(matches!(root[6], FlowInstruction::Assign));
    let root_block = graph.get_basic_block(&BasicBlockId(0)).expect("root");
    assert_eq!(root_block.stack_allocation(graph.scopes()), 16);
}

#[test]
fn sibling_functions_start_their_slots_at_the_same_offset() {
    // function f() { var a; } function g() { var b; }
    let declaration = |name: &str, start: usize| {
        let declarator = node(
            NodeKind::VariableDeclarator { id: Box::new(identifier(name, start)), init: None },
            start,
            start + 1,
        );
        node(NodeKind::VariableDeclaration { declarations: vec![declarator] }, start - 4, start + 2)
    };
    let tree = program(vec![
        function("f", &[], vec![declaration("a", 24)], 0),
        function("g", &[], vec![declaration("b", 64)], 40),
    ]);
    let graph = FlowGraph::from_root_node(&tree, Scope::default()).expect("lowering");
    // Each function has a frame of its own, so both use the slot at 0.
    for id in 1..3 {
        let body = instructions(&graph, id);
        assert!(matches!(body[2], FlowInstruction::PushStackVariable(0)));
        let block = graph.get_basic_block(&BasicBlockId(id)).expect("block");
        assert_eq!(block.stack_allocation(graph.scopes()), 8);
    }
}

#[test]
fn a_refused_construct_emits_nothing() {
    let mut scopes = ScopeArena::new();
    let scope = scopes.add(Scope::default());
    let mut block = BasicBlock::new(BasicBlockId(0), scope, SourceLocation::default(), None);
    block.push(FlowInstruction::FunctionPrologue);

    // A regular expression, also as the right operand of a sum.
    let regexp =
        || node(NodeKind::Literal { value: LiteralValue::RegExp("a+".to_string()) }, 6, 10);
    assert!(evaluate_expression(&mut block, &scopes, &regexp()).is_err());
    assert_eq!(block.instructions.len(), 1);
    let sum = binary(BinaryOperator::Plus, number(1, 2), regexp());
    let error = evaluate_expression(&mut block, &scopes, &sum).err().expect("refused");
    assert_eq!(error.kind, LoweringErrorKind::UnsupportedLiteral);
    assert_eq!(block.instructions.len(), 1);
    assert!(handle_expression_statement(&mut block, &scopes, &sum).is_err());
    assert_eq!(block.instructions.len(), 1);

    // A return without argument, and one whose argument is refused.
    let error = handle_return_statement(&mut block, &scopes, &None, at(3)).err().expect("refused");
    assert_eq!(error.kind, LoweringErrorKind::ReturnWithoutArgument);
    assert!(handle_return_statement(&mut block, &scopes, &Some(Box::new(sum)), at(3)).is_err());
    assert_eq!(block.instructions.len(), 1);
    assert!(block.tails.is_empty());

    // What is taken is appended.
    assert!(evaluate_expression(&mut block, &scopes, &number(5, 0)).is_ok());
    assert_eq!(block.instructions.len(), 2);
}

#[test]
fn a_refused_for_statement_adds_no_jump() {
    let for_statement = |test: Option<Node>, update: Option<Node>| {
        node(
            NodeKind::ForStatement {
                init: None,
                test: test.map(Box::new),
                update: update.map(Box::new),
                body: Box::new(node(NodeKind::BlockStatement { body: vec![] }, 8, 10)),
            },
            0,
            10,
        )
    };
    for statement in
        [for_statement(Some(number(1, 5)), None), for_statement(None, Some(number(1, 6)))]
    {
        let tree = program(vec![function("f", &[], vec![statement], 0)]);
        let error = FlowGraph::from_root_node(&tree, Scope::default()).err().expect("refused");
        assert_eq!(error.kind, LoweringErrorKind::UnsupportedLoopClause);
    }
    let mut graph = FlowGraph::default();
    graph
        .create_basic_block(&program(vec![]), Scope::default(), &vec![], false, None)
        .expect("block");
    let mut block =
        BasicBlock::new(BasicBlockId(7), ScopeId(0), SourceLocation::default(), None);
    let refused = for_statement(None, Some(number(1, 6)));
    if let NodeKind::ForStatement { init, test, update, body } = &refused.kind {
        let result =
            handle_for_statement(&mut graph, &refused, &mut block, init, test, update, body);
        assert!(result.is_err());
    }
    assert!(block.tails.is_empty());
    assert!(block.instructions.is_empty());
    assert!(graph.get_basic_block(&BasicBlockId(1)).is_none());
    assert_eq!(graph.scopes().len(), 1);
}
