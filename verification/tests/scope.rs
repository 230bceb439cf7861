use omjit::flow_graph::{BasicBlockId, Id, Scope, ScopeArena, ScopeId, Value};

#[test]
fn id_new_copies_the_name() {
    let id = Id::new("console");
    assert_eq!(id, Id("console".to_string()));
    assert!(id.same(&Id::new("console")));
    assert!(!id.same(&Id::new("Console")));
}

#[test]
fn allocation_returns_the_offset_before_and_advances_both_counters() {
    let mut scope = Scope::default();
    assert_eq!(scope.stack_offset(), 0);
    assert_eq!(scope.allocate_stack(8), 0);
    assert_eq!(scope.allocate_stack(16), 8);
    assert_eq!(scope.allocate_stack(8), 24);
    assert_eq!(scope.stack_offset(), 32);
    assert_eq!(scope.stack_allocation, 32);
    assert_eq!(scope.stack_allocation(), 32);
}

#[test]
fn child_starts_at_parent_offset_plus_allocation() {
    let mut scopes = ScopeArena::new();
    let mut root = Scope::new(&scopes, None);
    assert_eq!(root.parent(), None);
    root.allocate_stack(8);
    let root_id = scopes.add(root);
    assert_eq!(root_id, ScopeId(0));

    let mut first = Scope::new(&scopes, Some(root_id));
    assert_eq!(first.parent(), Some(root_id));
    assert_eq!(first.stack_offset(), 16);
    assert_eq!(first.stack_allocation(), 0);
    assert_eq!(first.allocate_stack(8), 16);

    // The parent hands out two more slots before the second child starts.
    assert_eq!(scopes.allocate_stack(root_id, 8), 8);
    assert_eq!(scopes.allocate_stack(root_id, 8), 16);
    let mut second = Scope::new(&scopes, Some(root_id));
    assert_eq!(second.stack_offset(), 48);
    assert_eq!(second.allocate_stack(8), 48);
    assert!(first.stack_offset() <= second.stack_offset() - second.stack_allocation());
    assert_eq!(scopes.len(), 1);
}

#[test]
fn lookup_walks_the_chain_of_scopes() {
    let mut scopes = ScopeArena::new();
    let mut root = Scope::default();
    root.insert(Id::new("a"), Value::StackVariable { offset: 0 });
    root.insert(Id::new("b"), Value::FunctionParameter(1));
    let root_id = scopes.add(root);
    let mut child = Scope::new(&scopes, Some(root_id));
    child.insert(Id::new("a"), Value::FunctionParameter(7));
    child.insert(
        Id::new("f"),
        Value::Function {
            id: Some(Id::new("f")),
            params: vec![Id::new("x"), Id::new("y")],
            body: BasicBlockId(4),
        },
    );
    let child_id = scopes.add(child);

    assert!(matches!(scopes.lookup(child_id, &Id::new("a")), Some(Value::FunctionParameter(7))));
    assert!(matches!(scopes.lookup(child_id, &Id::new("b")), Some(Value::FunctionParameter(1))));
    assert!(matches!(
        scopes.lookup(root_id, &Id::new("a")),
        Some(Value::StackVariable { offset: 0 })
    ));
    assert!(scopes.lookup(root_id, &Id::new("f")).is_none());
    assert!(scopes.lookup(child_id, &Id::new("missing")).is_none());
    match scopes.lookup(child_id, &Id::new("f")) {
        Some(Value::Function { id, params, body }) => {
            assert_eq!(id, Some(Id::new("f")));
            assert_eq!(params, vec![Id::new("x"), Id::new("y")]);
            assert_eq!(body, BasicBlockId(4));
        }
        _ => panic!("f is a function"),
    }

    // A later binding hides an earlier one, also one made after the child
    // was created.
    scopes.insert(root_id, Id::new("b"), Value::StackVariable { offset: 8 });
    assert!(matches!(
        scopes.lookup(child_id, &Id::new("b")),
        Some(Value::StackVariable { offset: 8 })
    ));
    assert!(matches!(
        scopes.get(child_id).lookup(&scopes, &Id::new("b")),
        Some(Value::StackVariable { offset: 8 })
    ));
    assert!(scopes.get(child_id).lookup_local(&Id::new("b")).is_none());
}
