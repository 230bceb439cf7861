use vstd::prelude::*;

use super::value::{Value, ValueView};

verus! {

/// An identifier, used as the key of a scope binding.
#[derive(Clone, Debug, PartialEq, Eq, Hash)]
pub struct Id(pub String);

impl View for Id {
    type V = Seq<char>;

    open spec fn view(&self) -> Seq<char> {
        self.0@
    }
}

impl Id {
    /// The identifier that spells `name`.
    pub fn new(name: &str) -> (id: Id)
        ensures
            id@ == name@,
    {
        Id(name.to_owned())
    }

    /// Whether two identifiers spell the same name.
    pub fn same(&self, other: &Id) -> (same: bool)
        ensures
            same == (self@ == other@),
    {
        self.0 == other.0
    }

    /// A copy of the identifier.
    pub fn duplicate(&self) -> (copy: Id)
        ensures
            copy == *self,
    {
        Id(self.0.clone())
    }
}

/// Names a scope within a [`ScopeArena`].
#[derive(Copy, Clone, Debug, PartialEq, Eq, Hash, Structural)]
pub struct ScopeId(pub usize);

/// One binding of a scope.
pub struct Binding {
    pub name: Id,
    pub value: Value,
}

/// A lexical scope: bindings from identifiers to values, a link to the
/// enclosing scope, and the bookkeeping of the stack slots handed out in it.
pub struct Scope {
    parent: Option<ScopeId>,
    bindings: Vec<Binding>,
    stack_offset: usize,
    pub stack_allocation: usize,
}

/// The mathematical content of a [`Scope`]. Bindings are kept in the order in
/// which they were made; a later binding of a name hides an earlier one.
#[verifier::ext_equal]
pub struct ScopeView {
    pub parent: Option<ScopeId>,
    pub bindings: Seq<(Seq<char>, ValueView)>,
    pub stack_offset: usize,
    pub stack_allocation: usize,
}

/// The value that the most recent binding of `name` gives, if there is one.
pub open spec fn find_binding(bindings: Seq<(Seq<char>, ValueView)>, name: Seq<char>) -> Option<
    ValueView,
>
    decreases bindings.len(),
{
    if bindings.len() == 0 {
        None
    } else if bindings.last().0 == name {
        Some(bindings.last().1)
    } else {
        find_binding(bindings.drop_last(), name)
    }
}

impl ScopeView {
    /// A scope without parent, bindings or slots.
    pub open spec fn root() -> ScopeView {
        ScopeView { parent: None, bindings: Seq::empty(), stack_offset: 0, stack_allocation: 0 }
    }

    /// The offset at which a scope created under this one starts.
    pub open spec fn child_offset(self) -> int {
        self.stack_offset + self.stack_allocation
    }

    /// A fresh scope under `parent`, whose content is `self`.
    pub open spec fn child(self, parent: ScopeId) -> ScopeView {
        ScopeView {
            parent: Some(parent),
            bindings: Seq::empty(),
            stack_offset: self.child_offset() as usize,
            stack_allocation: 0,
        }
    }

    /// The scope after `name` has been bound to `value`.
    pub open spec fn insert(self, name: Seq<char>, value: ValueView) -> ScopeView {
        ScopeView { bindings: self.bindings.push((name, value)), ..self }
    }

    /// The scope after `size` bytes have been allocated. The slot starts at
    /// the offset that the scope had before.
    pub open spec fn allocate(self, size: usize) -> ScopeView {
        ScopeView {
            stack_offset: (self.stack_offset + size) as usize,
            stack_allocation: (self.stack_allocation + size) as usize,
            ..self
        }
    }

    /// The offset at which the scope's first slot lies.
    pub open spec fn slots_start(self) -> int {
        self.stack_offset - self.stack_allocation
    }

    /// The value bound to `name` in this scope itself.
    pub open spec fn local(self, name: Seq<char>) -> Option<ValueView> {
        find_binding(self.bindings, name)
    }

    /// The counters are consistent: no more was allocated than the offset
    /// has advanced.
    pub open spec fn wf(self) -> bool {
        self.stack_allocation <= self.stack_offset
    }
}

impl ScopeView {
    /// Whether `offset` lies in the stretch of the frame that has been handed
    /// out in this scope: every slot allocated in the scope starts there.
    pub open spec fn holds_slot(self, offset: int) -> bool {
        self.slots_start() <= offset < self.stack_offset
    }
}

/// Allocation hands out a fresh slot and keeps the ones handed out before:
/// the new slot starts at an offset that was not in the scope's stretch, the
/// stretch grows to hold it, and its start does not move.
pub proof fn lemma_allocation_is_fresh(scope: ScopeView, size: usize)
    requires
        scope.wf(),
        size > 0,
        scope.stack_offset + size <= usize::MAX,
    ensures
        !scope.holds_slot(scope.stack_offset as int),
        scope.allocate(size).holds_slot(scope.stack_offset as int),
        scope.allocate(size).slots_start() == scope.slots_start(),
        scope.allocate(size).wf(),
        forall|offset: int| scope.holds_slot(offset) ==> scope.allocate(size).holds_slot(offset),
{
}

/// A child scope lies above its parent: every offset handed out in the
/// parent before the child was created is strictly below every offset that
/// is ever handed out in the child.
pub proof fn lemma_child_slots_above_parent(
    parent: ScopeView,
    id: ScopeId,
    child: ScopeView,
    parent_slot: int,
    child_slot: int,
)
    requires
        parent.wf(),
        parent.child_offset() <= usize::MAX,
        child.wf(),
        child.slots_start() == parent.child(id).slots_start(),
        parent.holds_slot(parent_slot),
        child.holds_slot(child_slot),
    ensures
        parent_slot < child_slot,
{
}

/// Two scopes created under the same parent share no offset, provided that
/// the first of them had handed out no offset at or above the point where
/// the second was started, or that one of them has handed out nothing.
///
/// `first` and `second` are the two scopes as they are now; `second` was
/// created when the parent's offset and allocation added up to
/// `second.slots_start()`.
pub proof fn lemma_sibling_slots_disjoint(first: ScopeView, second: ScopeView, offset: int)
    requires
        first.wf(),
        second.wf(),
        first.stack_allocation == 0 || second.stack_allocation == 0 || first.stack_offset
            <= second.slots_start(),
    ensures
        !(first.holds_slot(offset) && second.holds_slot(offset)),
{
}

/// The scopes of an arena are well placed when each scope's parent was
/// created before it.
pub open spec fn parents_precede(scopes: Seq<ScopeView>) -> bool {
    forall|i: int|
        0 <= i < scopes.len() ==> (#[trigger] scopes[i].parent matches Some(parent) ==> parent.0
            < i)
}

/// The value that `name` resolves to from scope `scope`: the innermost
/// binding on the chain of enclosing scopes.
pub open spec fn resolve(scopes: Seq<ScopeView>, scope: ScopeId, name: Seq<char>) -> Option<
    ValueView,
>
    decreases scope.0,
{
    if scope.0 >= scopes.len() {
        None
    } else {
        match scopes[scope.0 as int].local(name) {
            Some(value) => Some(value),
            None => match scopes[scope.0 as int].parent {
                Some(parent) => if parent.0 < scope.0 {
                    resolve(scopes, parent, name)
                } else {
                    None
                },
                None => None,
            },
        }
    }
}

/// A name that a scope does not bind itself resolves from it as it does
/// from the scope's parent.
pub proof fn lemma_resolves_through_parent(scopes: Seq<ScopeView>, scope: ScopeId, name: Seq<char>)
    requires
        scope.0 < scopes.len(),
        scopes[scope.0 as int].parent matches Some(parent) && parent.0 < scope.0,
        scopes[scope.0 as int].local(name) is None,
    ensures
        resolve(scopes, scope, name) == resolve(
            scopes,
            scopes[scope.0 as int].parent->Some_0,
            name,
        ),
{
}

/// What a name resolves to from a scope depends on that scope and on the
/// scopes before it alone: scopes that are added later, and what is bound
/// in them, do not show.
pub proof fn lemma_resolve_sees_no_later_scope(
    before: Seq<ScopeView>,
    after: Seq<ScopeView>,
    scope: ScopeId,
    name: Seq<char>,
)
    requires
        scope.0 < before.len() <= after.len(),
        forall|index: int| 0 <= index <= scope.0 ==> #[trigger] after[index] == before[index],
    ensures
        resolve(after, scope, name) == resolve(before, scope, name),
    decreases scope.0,
{
    assert(after[scope.0 as int] == before[scope.0 as int]);
    if before[scope.0 as int].local(name) is None {
        if let Some(parent) = before[scope.0 as int].parent {
            if parent.0 < scope.0 {
                lemma_resolve_sees_no_later_scope(before, after, parent, name);
            }
        }
    }
}

impl View for Scope {
    type V = ScopeView;

    closed spec fn view(&self) -> ScopeView {
        ScopeView {
            parent: self.parent,
            bindings: Seq::new(
                self.bindings.len() as nat,
                |i: int| (self.bindings[i].name@, self.bindings[i].value@),
            ),
            stack_offset: self.stack_offset,
            stack_allocation: self.stack_allocation,
        }
    }
}

impl Default for Scope {
    fn default() -> (scope: Scope)
        ensures
            scope@ == ScopeView::root(),
    {
        let scope = Scope {
            parent: None,
            bindings: Vec::new(),
            stack_offset: 0,
            stack_allocation: 0,
        };
        assert(scope@.bindings =~= Seq::empty());
        scope
    }
}

impl Scope {
    /// A fresh scope. Under a parent it starts at the parent's offset plus
    /// the parent's allocation, as they stand at this moment.
    pub fn new(scopes: &ScopeArena, parent: Option<ScopeId>) -> (scope: Scope)
        requires
            parent matches Some(parent) ==> parent.0 < scopes@.len()
                && scopes@[parent.0 as int].child_offset() <= usize::MAX,
        ensures
            scope@ == match parent {
                Some(parent) => scopes@[parent.0 as int].child(parent),
                None => ScopeView::root(),
            },
    {
        let stack_offset = match parent {
            Some(parent) => {
                let parent = scopes.get(parent);
                parent.stack_offset + parent.stack_allocation
            },
            None => 0,
        };
        let scope = Scope { parent, bindings: Vec::new(), stack_offset, stack_allocation: 0 };
        assert(scope@.bindings =~= Seq::empty());
        scope
    }

    /// Binds `name` to `value`, hiding any earlier binding of the name.
    pub fn insert(&mut self, name: Id, value: Value)
        ensures
            final(self)@ == old(self)@.insert(name@, value@),
    {
        self.bindings.push(Binding { name, value });
        assert(final(self)@.bindings =~= old(self)@.bindings.push((name@, value@)));
    }

    /// Hands out `size` bytes of stack: returns the offset at which the new
    /// slot starts, and advances the offset and the allocation by `size`.
    pub fn allocate_stack(&mut self, size: usize) -> (offset: usize)
        requires
            old(self)@.stack_offset + size <= usize::MAX,
            old(self)@.wf(),
        ensures
            offset == old(self)@.stack_offset,
            final(self)@ == old(self)@.allocate(size),
            final(self)@.wf(),
    {
        let offset = self.stack_offset;
        self.stack_offset += size;
        self.stack_allocation += size;
        offset
    }

    /// The value bound to `name` in this scope or, failing that, in the
    /// nearest enclosing scope that binds it.
    pub fn lookup(&self, scopes: &ScopeArena, name: &Id) -> (value: Option<Value>)
        requires
            parents_precede(scopes@),
            self@.parent matches Some(parent) ==> parent.0 < scopes@.len(),
        ensures
            value.is_some() == self@.chain_lookup(scopes@, name@).is_some(),
            value matches Some(value) ==> Some(value@) == self@.chain_lookup(scopes@, name@),
        decreases
            (match self@.parent {
                Some(parent) => parent.0 + 1,
                None => 0,
            }),
    {
        match self.lookup_local(name) {
            Some(value) => Some(value),
            None => match self.parent {
                Some(parent) => scopes.get(parent).lookup(scopes, name),
                None => None,
            },
        }
    }

    /// The value bound to `name` in this scope itself.
    pub fn lookup_local(&self, name: &Id) -> (value: Option<Value>)
        ensures
            value.is_some() == self@.local(name@).is_some(),
            value matches Some(value) ==> Some(value@) == self@.local(name@),
    {
        let mut i: usize = self.bindings.len();
        assert(self@.bindings.take(i as int) == self@.bindings);
        while i > 0
            invariant
                i <= self.bindings.len(),
                self@.local(name@) == find_binding(self@.bindings.take(i as int), name@),
            decreases i,
        {
            let ghost prefix = self@.bindings.take(i as int);
            assert(prefix.drop_last() == self@.bindings.take(i as int - 1));
            assert(prefix.last() == self@.bindings[i as int - 1]);
            i -= 1;
            if self.bindings[i].name.same(name) {
                return Some(self.bindings[i].value.duplicate());
            }
        }
        None
    }

    pub fn parent(&self) -> (parent: Option<ScopeId>)
        ensures
            parent == self@.parent,
    {
        self.parent
    }

    pub fn stack_allocation(&self) -> (allocation: usize)
        ensures
            allocation == self@.stack_allocation,
    {
        self.stack_allocation
    }

    pub fn stack_offset(&self) -> (offset: usize)
        ensures
            offset == self@.stack_offset,
    {
        self.stack_offset
    }
}

impl ScopeView {
    /// What `name` resolves to from this scope, which need not itself be in
    /// `scopes`, though its parent is.
    pub open spec fn chain_lookup(self, scopes: Seq<ScopeView>, name: Seq<char>) -> Option<
        ValueView,
    > {
        match self.local(name) {
            Some(value) => Some(value),
            None => match self.parent {
                Some(parent) => resolve(scopes, parent, name),
                None => None,
            },
        }
    }
}

/// The scopes of one flow graph, each under the identifier it was given when
/// it was added.
pub struct ScopeArena {
    scopes: Vec<Scope>,
}

impl View for ScopeArena {
    type V = Seq<ScopeView>;

    closed spec fn view(&self) -> Seq<ScopeView> {
        Seq::new(self.scopes.len() as nat, |i: int| self.scopes[i]@)
    }
}

impl ScopeArena {
    pub fn new() -> (scopes: ScopeArena)
        ensures
            scopes@ == Seq::<ScopeView>::empty(),
    {
        let scopes = ScopeArena { scopes: Vec::new() };
        assert(scopes@ =~= Seq::empty());
        scopes
    }

    /// Every scope's parent precedes it and every scope's counters are
    /// consistent.
    pub open spec fn wf(&self) -> bool {
        &&& parents_precede(self@)
        &&& forall|i: int| 0 <= i < self@.len() ==> (#[trigger] self@[i]).wf()
    }

    pub fn len(&self) -> (len: usize)
        ensures
            len == self@.len(),
    {
        self.scopes.len()
    }

    pub fn get(&self, scope: ScopeId) -> (found: &Scope)
        requires
            scope.0 < self@.len(),
        ensures
            found@ == self@[scope.0 as int],
    {
        &self.scopes[scope.0]
    }

    /// Adds a scope and returns the identifier it gets.
    pub fn add(&mut self, scope: Scope) -> (id: ScopeId)
        ensures
            id.0 == old(self)@.len(),
            final(self)@ == old(self)@.push(scope@),
    {
        let id = ScopeId(self.scopes.len());
        self.scopes.push(scope);
        assert(final(self)@ =~= old(self)@.push(scope@));
        id
    }

    /// Binds `name` to `value` in the given scope.
    pub fn insert(&mut self, scope: ScopeId, name: Id, value: Value)
        requires
            scope.0 < old(self)@.len(),
        ensures
            final(self)@ == old(self)@.update(
                scope.0 as int,
                old(self)@[scope.0 as int].insert(name@, value@),
            ),
    {
        self.scopes[scope.0].insert(name, value);
        assert(final(self)@ =~= old(self)@.update(
            scope.0 as int,
            old(self)@[scope.0 as int].insert(name@, value@),
        ));
    }

    /// Hands out `size` bytes of stack in the given scope and returns the
    /// offset of the new slot.
    pub fn allocate_stack(&mut self, scope: ScopeId, size: usize) -> (offset: usize)
        requires
            scope.0 < old(self)@.len(),
            old(self)@[scope.0 as int].stack_offset + size <= usize::MAX,
            old(self)@[scope.0 as int].wf(),
        ensures
            offset == old(self)@[scope.0 as int].stack_offset,
            final(self)@ == old(self)@.update(
                scope.0 as int,
                old(self)@[scope.0 as int].allocate(size),
            ),
    {
        let offset = self.scopes[scope.0].allocate_stack(size);
        assert(final(self)@ =~= old(self)@.update(
            scope.0 as int,
            old(self)@[scope.0 as int].allocate(size),
        ));
        offset
    }

    /// What `name` resolves to from the given scope.
    pub fn lookup(&self, scope: ScopeId, name: &Id) -> (value: Option<Value>)
        requires
            parents_precede(self@),
            scope.0 < self@.len(),
        ensures
            value.is_some() == resolve(self@, scope, name@).is_some(),
            value matches Some(value) ==> Some(value@) == resolve(self@, scope, name@),
    {
        self.get(scope).lookup(self, name)
    }
}

} // verus!
