use vstd::prelude::*;

use crate::ast::{LiteralValue, Node, NodeKind};
use crate::flow_graph::basic_block::BasicBlock;
use crate::flow_graph::flow_instruction::{
    all_plain, extends_plainly, finds_operands, lemma_finds_operands_concat,
    lemma_finds_operands_deeper, lemma_finds_operands_push, lemma_net_effect_concat,
    lemma_net_effect_push, net_effect, FlowInstruction,
};
use crate::flow_graph::lowering::{
    lower_arguments, lower_expression, lower_identifier, lower_literal, LoweringError,
    LoweringErrorKind,
};
use crate::flow_graph::scope::{parents_precede, resolve, Id, ScopeArena, ScopeId, ScopeView};
use crate::flow_graph::value::{Value, ValueView};
use crate::source_location::SourcePosition;

verus! {

/// An expression leaves exactly one value on the operand stack, and takes
/// nothing from below where it starts: the stack effects of the instructions
/// it lowers to add up to one, and each of them finds its operands among
/// the values that the expression itself has pushed.
pub proof fn lemma_expression_pushes_one_value(scopes: Seq<ScopeView>, scope: ScopeId, node: Node)
    ensures
        lower_expression(scopes, scope, node) matches Ok(code) ==> net_effect(code) == 1
            && finds_operands(code, 0) && all_plain(code),
    decreases node, 0nat,
{
    match node.kind {
        NodeKind::CallExpression { callee, arguments } => {
            lemma_arguments_push_one_value_each(scopes, scope, arguments@, 0, Seq::empty());
            if let Ok(code) = lower_arguments(scopes, scope, arguments@, 0, Seq::empty()) {
                if let NodeKind::Identifier { name } = callee.kind {
                    match resolve(scopes, scope, name@) {
                        Some(ValueView::Function { id, params, body }) => {
                            let call = FlowInstruction::CallFunction {
                                basic_block_id: body,
                                argument_count: arguments.len(),
                            };
                            lemma_net_effect_push(code, call);
                            lemma_finds_operands_push(code, call, 0);
                        },
                        Some(ValueView::SystemFunction(function)) => {
                            let call = FlowInstruction::CallSystemFunction(function);
                            lemma_net_effect_push(code, call);
                            lemma_finds_operands_push(code, call, 0);
                        },
                        _ => {},
                    }
                }
            }
        },
        NodeKind::BinaryExpression { operator, left, right } => {
            lemma_expression_pushes_one_value(scopes, scope, *left);
            lemma_expression_pushes_one_value(scopes, scope, *right);
            if let Ok(left_code) = lower_expression(scopes, scope, *left) {
                if let Ok(right_code) = lower_expression(scopes, scope, *right) {
                    let apply = FlowInstruction::ApplyBinaryOperator(operator);
                    lemma_net_effect_concat(left_code, right_code);
                    lemma_net_effect_push(left_code + right_code, apply);
                    lemma_finds_operands_deeper(right_code, 0, 1);
                    lemma_finds_operands_concat(left_code, right_code, 0);
                    lemma_finds_operands_push(left_code + right_code, apply, 0);
                }
            }
        },
        NodeKind::Identifier { name } => {
            if let Ok(instruction) = lower_identifier(scopes, scope, name@, node.start) {
                lemma_net_effect_push(Seq::empty(), instruction);
                lemma_finds_operands_push(Seq::empty(), instruction, 0);
                assert(seq![instruction] == Seq::<FlowInstruction>::empty().push(instruction));
            }
        },
        NodeKind::Literal { value } => {
            if let Ok(instruction) = lower_literal(value, node.start) {
                lemma_net_effect_push(Seq::empty(), instruction);
                lemma_finds_operands_push(Seq::empty(), instruction, 0);
                assert(seq![instruction] == Seq::<FlowInstruction>::empty().push(instruction));
            }
        },
        _ => {},
    }
}

/// Each argument of a call leaves one value on the operand stack, above
/// those of the arguments before it.
pub proof fn lemma_arguments_push_one_value_each(
    scopes: Seq<ScopeView>,
    scope: ScopeId,
    arguments: Seq<Node>,
    from: int,
    code: Seq<FlowInstruction>,
)
    requires
        0 <= from <= arguments.len(),
    ensures
        lower_arguments(scopes, scope, arguments, from, code) matches Ok(all) ==> net_effect(all)
            == net_effect(code) + arguments.len() - from && (finds_operands(code, 0)
            && net_effect(code) >= 0 ==> finds_operands(all, 0)) && (all_plain(code)
            ==> all_plain(all)),
    decreases arguments, arguments.len() - from,
{
    if from < arguments.len() {
        lemma_expression_pushes_one_value(scopes, scope, arguments[from]);
        if let Ok(argument_code) = lower_expression(scopes, scope, arguments[from]) {
            lemma_net_effect_concat(code, argument_code);
            if net_effect(code) >= 0 {
                lemma_finds_operands_deeper(argument_code, 0, net_effect(code));
            }
            lemma_finds_operands_concat(code, argument_code, 0);
            lemma_arguments_push_one_value_each(
                scopes,
                scope,
                arguments,
                from + 1,
                code + argument_code,
            );
        }
    }
}

/// Code that finds its operands, followed by an expression, still finds its
/// operands.
pub proof fn lemma_expression_extends_code(
    scopes: Seq<ScopeView>,
    scope: ScopeId,
    node: Node,
    before: Seq<FlowInstruction>,
)
    requires
        finds_operands(before, 0),
        net_effect(before) >= 0,
    ensures
        lower_expression(scopes, scope, node) matches Ok(code) ==> finds_operands(before + code, 0)
            && net_effect(before + code) == net_effect(before) + 1,
{
    lemma_expression_pushes_one_value(scopes, scope, node);
    if let Ok(code) = lower_expression(scopes, scope, node) {
        lemma_finds_operands_deeper(code, 0, net_effect(before));
        lemma_finds_operands_concat(before, code, 0);
        lemma_net_effect_concat(before, code);
    }
}

/// Appends the instruction that pushes what `id` is bound to.
pub fn lookup_identifier(
    block: &mut BasicBlock,
    scopes: &ScopeArena,
    id: &Id,
    at: SourcePosition,
) -> (result: Result<(), LoweringError>)
    requires
        parents_precede(scopes@),
        old(block).scope.0 < scopes@.len(),
    ensures
        match result {
            Ok(()) => lower_identifier(scopes@, old(block).scope, id@, at) matches Ok(instruction)
                && final(block)@ == old(block)@.push(instruction),
            Err(error) => lower_identifier(scopes@, old(block).scope, id@, at) matches Err(e) && e
                == error && final(block)@ == old(block)@,
        },
{
    match block.lookup(scopes, id) {
        Some(Value::StackVariable { offset }) => {
            block.push(FlowInstruction::PushStackVariable(offset));
            Ok(())
        },
        Some(Value::FunctionParameter(index)) => {
            block.push(FlowInstruction::PushFunctionParameter(index));
            Ok(())
        },
        Some(_) => Err(LoweringError { kind: LoweringErrorKind::UnsupportedIdentifier, at }),
        None => Err(LoweringError { kind: LoweringErrorKind::UndefinedIdentifier, at }),
    }
}

/// Lowers an expression into the block: appends the instructions that
/// evaluate it and leave its value on the operand stack. Where the
/// expression is refused, the block is left as it was.
pub fn evaluate_expression(
    parent_block: &mut BasicBlock,
    scopes: &ScopeArena,
    node: &Node,
) -> (result: Result<(), LoweringError>)
    requires
        parents_precede(scopes@),
        old(parent_block).scope.0 < scopes@.len(),
    ensures
        match result {
            Ok(()) => lower_expression(scopes@, old(parent_block).scope, *node) matches Ok(code)
                && final(parent_block)@ == old(parent_block)@.append(code) && net_effect(
                final(parent_block)@.instructions,
            ) == net_effect(old(parent_block)@.instructions) + 1,
            Err(error) => lower_expression(scopes@, old(parent_block).scope, *node) matches Err(e)
                && e == error && final(parent_block)@ == old(parent_block)@,
        },
        final(parent_block).id == old(parent_block).id,
        final(parent_block).scope == old(parent_block).scope,
        final(parent_block).location == old(parent_block).location,
        final(parent_block).tails@ == old(parent_block).tails@,
        old(parent_block).instructions@.is_prefix_of(final(parent_block).instructions@),
        extends_plainly(old(parent_block)@.instructions, final(parent_block)@.instructions),
        result is Ok && finds_operands(old(parent_block)@.instructions, 0) && net_effect(
            old(parent_block)@.instructions,
        ) >= 0 ==> finds_operands(final(parent_block)@.instructions, 0),
    decreases node, 1nat,
{
    let mark = parent_block.instructions.len();
    proof {
        lemma_expression_pushes_one_value(scopes@, parent_block.scope, *node);
    }
    let result = append_expression(parent_block, scopes, node);
    if result.is_err() {
        let ghost appended = parent_block.instructions@;
        parent_block.instructions.truncate(mark);
        assert(appended.subrange(0, mark as int) =~= old(parent_block).instructions@);
        assert(parent_block@ =~= old(parent_block)@);
    }
    result
}

/// Appends the instructions of an expression to the block. Where the
/// expression is refused, what was appended before the refusal stays.
#[verifier::loop_isolation(false)]
fn append_expression(
    parent_block: &mut BasicBlock,
    scopes: &ScopeArena,
    node: &Node,
) -> (result: Result<(), LoweringError>)
    requires
        parents_precede(scopes@),
        old(parent_block).scope.0 < scopes@.len(),
    ensures
        match result {
            Ok(()) => lower_expression(scopes@, old(parent_block).scope, *node) matches Ok(code)
                && final(parent_block)@ == old(parent_block)@.append(code) && net_effect(
                final(parent_block)@.instructions,
            ) == net_effect(old(parent_block)@.instructions) + 1,
            Err(error) => lower_expression(scopes@, old(parent_block).scope, *node) matches Err(e)
                && e == error,
        },
        final(parent_block).id == old(parent_block).id,
        final(parent_block).scope == old(parent_block).scope,
        final(parent_block).location == old(parent_block).location,
        final(parent_block).tails@ == old(parent_block).tails@,
        old(parent_block).instructions@.is_prefix_of(final(parent_block).instructions@),
        result is Ok && finds_operands(old(parent_block)@.instructions, 0) && net_effect(
            old(parent_block)@.instructions,
        ) >= 0 ==> finds_operands(final(parent_block)@.instructions, 0),
    decreases node, 0nat,
{
    let ghost scope = parent_block.scope;
    let ghost before = parent_block@;
    proof {
        lemma_expression_pushes_one_value(scopes@, scope, *node);
        if let Ok(code) = lower_expression(scopes@, scope, *node) {
            lemma_net_effect_concat(before.instructions, code);
            if finds_operands(before.instructions, 0) && net_effect(before.instructions) >= 0 {
                lemma_expression_extends_code(scopes@, scope, *node, before.instructions);
            }
        }
    }
    match &node.kind {
        NodeKind::CallExpression { callee, arguments } => {
            let callee_id = match &callee.kind {
                NodeKind::Identifier { name } => Id::new(name.as_str()),
                _ => {
                    return Err(
                        LoweringError {
                            kind: LoweringErrorKind::UnsupportedNode,
                            at: callee.start,
                        },
                    );
                },
            };
            let call = match parent_block.lookup(scopes, &callee_id) {
                Some(Value::Function { id: _, params, body }) => {
                    if params.len() != arguments.len() {
                        return Err(
                            LoweringError {
                                kind: LoweringErrorKind::ArityMismatch,
                                at: node.start,
                            },
                        );
                    }
                    FlowInstruction::CallFunction {
                        basic_block_id: body,
                        argument_count: arguments.len(),
                    }
                },
                Some(Value::SystemFunction(function)) => {
                    if function.arity() != arguments.len() {
                        return Err(
                            LoweringError {
                                kind: LoweringErrorKind::ArityMismatch,
                                at: node.start,
                            },
                        );
                    }
                    FlowInstruction::CallSystemFunction(function)
                },
                Some(_) => {
                    return Err(
                        LoweringError { kind: LoweringErrorKind::NotCallable, at: callee.start },
                    );
                },
                None => {
                    return Err(
                        LoweringError {
                            kind: LoweringErrorKind::UndefinedIdentifier,
                            at: callee.start,
                        },
                    );
                },
            };
            let ghost mut code: Seq<FlowInstruction> = Seq::empty();
            let mut i: usize = 0;
            assert(before.append(code) =~= before);
            while i < arguments.len()
                invariant
                    parents_precede(scopes@),
                    scope.0 < scopes@.len(),
                    i <= arguments.len(),
                    parent_block@ == before.append(code),
                    before.scope == scope,
                    lower_arguments(scopes@, scope, arguments@, 0, Seq::empty()) == lower_arguments(
                        scopes@,
                        scope,
                        arguments@,
                        i as int,
                        code,
                    ),
                    decreases_to!(node => arguments),
                decreases arguments.len() - i,
            {
                let ghost argument_code = lower_expression(scopes@, scope, arguments@[i as int]);
                match evaluate_expression(parent_block, scopes, &arguments[i]) {
                    Ok(()) => {},
                    Err(error) => {
                        return Err(error);
                    },
                }
                proof {
                    assert(before.append(code).append(argument_code->Ok_0) =~= before.append(
                        code + argument_code->Ok_0,
                    ));
                    code = code + argument_code->Ok_0;
                }
                i += 1;
            }
            parent_block.push(call);
            assert(parent_block@ =~= before.append(code.push(call)));
            Ok(())
        },
        NodeKind::BinaryExpression { operator, left, right } => {
            let ghost left_code = lower_expression(scopes@, scope, **left);
            let ghost right_code = lower_expression(scopes@, scope, **right);
            match evaluate_expression(parent_block, scopes, left) {
                Ok(()) => {},
                Err(error) => {
                    return Err(error);
                },
            }
            match evaluate_expression(parent_block, scopes, right) {
                Ok(()) => {},
                Err(error) => {
                    return Err(error);
                },
            }
            parent_block.push(FlowInstruction::ApplyBinaryOperator(*operator));
            assert(parent_block@ =~= before.append(
                (left_code->Ok_0 + right_code->Ok_0).push(
                    FlowInstruction::ApplyBinaryOperator(*operator),
                ),
            ));
            Ok(())
        },
        NodeKind::Identifier { name } => {
            let id = Id::new(name.as_str());
            let result = lookup_identifier(parent_block, scopes, &id, node.start);
            proof {
                if let Ok(instruction) = lower_identifier(scopes@, scope, name@, node.start) {
                    assert(before.push(instruction) =~= before.append(seq![instruction]));
                }
            }
            result
        },
        NodeKind::Literal { value } => {
            let instruction = match value {
                LiteralValue::String(literal) => FlowInstruction::PushLiteralString(
                    literal.clone(),
                ),
                LiteralValue::Boolean(literal) => FlowInstruction::PushLiteralBoolean(*literal),
                LiteralValue::Null => FlowInstruction::PushLiteralNull,
                LiteralValue::Number(literal) => FlowInstruction::PushLiteralNumber(*literal),
                LiteralValue::RegExp(_) => {
                    return Err(
                        LoweringError {
                            kind: LoweringErrorKind::UnsupportedLiteral,
                            at: node.start,
                        },
                    );
                },
            };
            parent_block.push(instruction);
            assert(before.push(instruction) =~= before.append(seq![instruction]));
            Ok(())
        },
        _ => Err(LoweringError { kind: LoweringErrorKind::UnsupportedNode, at: node.start }),
    }
}

} // verus!
