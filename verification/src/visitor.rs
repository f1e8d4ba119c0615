//! The coherency visitor: the scope tree with its cursor, name lookup from
//! the active scope outward, and reconciliation of expected and actual types.

use vstd::prelude::*;
use vstd::string::StringExecFns;
use crate::entity::{spec_binop_name, spec_builtin_binop, Entity, Op};
use crate::logging::{Level, Logger, Message, MessageView};
use crate::path::{FullPath, Path};
use crate::scope::{
    spec_builtin_result, spec_is_builtin_entities, spec_is_builtin_types, FoundItem, Return, Scope,
    ScopeLevel,
};
use crate::space::lemma_resolve_fixed_len;
use crate::span::Span;
use crate::ty::{spec_ty_key, AstRef, Ty};

verus! {

/// Why the cursor could not be moved.
#[derive(Clone, Copy, Debug, PartialEq, Eq, Structural)]
pub enum ScopeError {
    /// The active scope is the root, which has no parent to go back to.
    LeaveRoot,
    /// The scope to enter is not in the tree.
    UnknownScope,
}

/// Scope `i` has a parent of lower index that lists it among its children.
pub open spec fn spec_linked_up(scopes: Seq<Scope>, i: int) -> bool {
    &&& scopes[i].parent is Some
    &&& scopes[i].parent->Some_0 < i
    &&& scopes[scopes[i].parent->Some_0 as int].children@.contains(i as usize)
}

/// The `k`-th child of scope `i` is a scope of higher index whose parent is
/// scope `i`.
pub open spec fn spec_linked_down(scopes: Seq<Scope>, i: int, k: int) -> bool {
    &&& i < scopes[i].children@[k] < scopes.len()
    &&& scopes[scopes[i].children@[k] as int].parent == Some(i as usize)
}

/// The scopes form a tree rooted at index 0: every other scope has a parent
/// of lower index and stands exactly once among that parent's children, and
/// children lists name nothing else.
pub open spec fn spec_tree_wf(scopes: Seq<Scope>) -> bool {
    &&& scopes.len() >= 1
    &&& scopes[0].parent is None
    &&& forall|i: int| 1 <= i < scopes.len() ==> #[trigger] spec_linked_up(scopes, i)
    &&& forall|i: int, k: int|
        0 <= i < scopes.len() && 0 <= k < scopes[i].children@.len() ==> #[trigger] spec_linked_down(
            scopes,
            i,
            k,
        )
    &&& forall|i: int| 0 <= i < scopes.len() ==> (#[trigger] scopes[i]).children@.no_duplicates()
    &&& forall|i: int|
        0 <= i < scopes.len() ==> (#[trigger] scopes[i]).types.wf() && scopes[i].entities.wf()
}

/// A scope's fields other than its children, and its children, as one
/// relation between the scope before and after it got the child `id`.
pub open spec fn spec_with_child(after: Scope, before: Scope, id: usize) -> bool {
    &&& after.children@ == before.children@.push(id)
    &&& after.parent == before.parent
    &&& after.level == before.level
    &&& after.types == before.types
    &&& after.entities == before.entities
    &&& after.return_type == before.return_type
    &&& after.decl == before.decl
}

/// In a tree every scope but the root has a parent, of lower index.
pub proof fn lemma_parent_below(scopes: Seq<Scope>, i: int)
    requires
        spec_tree_wf(scopes),
        0 <= i < scopes.len(),
    ensures
        match scopes[i].parent {
            Some(p) => p < i,
            None => i == 0,
        },
{
    if i >= 1 {
        assert(spec_linked_up(scopes, i));
    }
}

/// Scope `i` can be reached from the root by following child links.
pub open spec fn spec_reachable(scopes: Seq<Scope>, i: int) -> bool
    decreases i,
{
    if i == 0 {
        true
    } else if 0 < i < scopes.len() {
        match scopes[i].parent {
            Some(p) => p < i && scopes[p as int].children@.contains(i as usize) && spec_reachable(
                scopes,
                p as int,
            ),
            None => false,
        }
    } else {
        false
    }
}

/// In a tree every scope can be reached from the root by following child
/// links; so can the active scope, wherever the cursor is.
pub proof fn lemma_reachable_from_root(scopes: Seq<Scope>, i: int)
    requires
        spec_tree_wf(scopes),
        0 <= i < scopes.len(),
    ensures
        spec_reachable(scopes, i),
    decreases i,
{
    if i > 0 {
        assert(spec_linked_up(scopes, i));
        lemma_reachable_from_root(scopes, scopes[i].parent->Some_0 as int);
    }
}

/// A tree stays a tree when its scopes keep their parents and children and
/// their spaces stay well-formed.
pub proof fn lemma_same_links_wf(before: Seq<Scope>, after: Seq<Scope>)
    requires
        spec_tree_wf(before),
        after.len() == before.len(),
        forall|i: int|
            0 <= i < before.len() ==> (#[trigger] after[i]).parent == before[i].parent
                && after[i].children@ == before[i].children@ && after[i].types.wf()
                && after[i].entities.wf(),
    ensures
        spec_tree_wf(after),
{
    assert forall|i: int| 1 <= i < after.len() implies #[trigger] spec_linked_up(after, i) by {
        assert(spec_linked_up(before, i));
        let p = before[i].parent->Some_0 as int;
        assert(after[p].children@ == before[p].children@);
    }
    assert forall|i: int, k: int|
        0 <= i < after.len() && 0 <= k < after[i].children@.len() implies #[trigger] spec_linked_down(
        after,
        i,
        k,
    ) by {
        assert(spec_linked_down(before, i, k));
        let c = before[i].children@[k] as int;
        assert(after[c].parent == before[c].parent);
    }
    assert forall|i: int| 0 <= i < after.len() implies (#[trigger] after[i]).children@.no_duplicates() by {
        assert(before[i].children@.no_duplicates());
    }
}

/// A tree stays a tree when an empty scope is added as a child of one of
/// its scopes.
pub proof fn lemma_add_child_wf(before: Seq<Scope>, after: Seq<Scope>, cur: usize, id: usize)
    requires
        spec_tree_wf(before),
        0 <= cur < before.len(),
        id == before.len(),
        after.len() == before.len() + 1,
        after[id as int].parent == Some(cur),
        after[id as int].children@.len() == 0,
        after[id as int].types.wf(),
        after[id as int].entities.wf(),
        forall|i: int| 0 <= i < before.len() && i != cur ==> #[trigger] after[i] == before[i],
        spec_with_child(after[cur as int], before[cur as int], id),
    ensures
        spec_tree_wf(after),
{
    let cur = cur as int;
    let id = id as int;
    assert forall|i: int| 1 <= i < after.len() implies #[trigger] spec_linked_up(after, i) by {
        if i == id {
            assert(after[cur].children@[before[cur].children@.len() as int] == id as usize);
        } else {
            assert(spec_linked_up(before, i));
            let p = before[i].parent->Some_0 as int;
            let k = before[p].children@.index_of(i as usize);
            assert(before[p].children@[k] == i as usize);
            assert(after[p].children@[k] == i as usize);
        }
    }
    assert forall|i: int, k: int|
        0 <= i < after.len() && 0 <= k < after[i].children@.len() implies #[trigger] spec_linked_down(
        after,
        i,
        k,
    ) by {
        if i == cur && k == before[cur].children@.len() {
        } else {
            assert(spec_linked_down(before, i, k));
            assert(after[i].children@[k] == before[i].children@[k]);
        }
    }
    assert forall|i: int| 0 <= i < after.len() implies (#[trigger] after[i]).children@.no_duplicates() by {
        if i == cur {
            assert(before[cur].children@.no_duplicates());
            assert forall|a: int, b: int|
                0 <= a < after[cur].children@.len() && 0 <= b < after[cur].children@.len() && a
                    != b implies after[cur].children@[a] != after[cur].children@[b] by {
                if a < before[cur].children@.len() {
                    assert(spec_linked_down(before, cur, a));
                }
                if b < before[cur].children@.len() {
                    assert(spec_linked_down(before, cur, b));
                }
            }
        } else if i < before.len() {
            assert(before[i].children@.no_duplicates());
        }
    }
    assert forall|i: int| 0 <= i < after.len() implies (#[trigger] after[i]).types.wf()
        && after[i].entities.wf() by {
        if i < before.len() {
            assert(before[i].types.wf() && before[i].entities.wf());
        }
    }
}

/// What a lookup of the type `path` finds from scope `at` outward: the
/// value in the first scope on the way to the root whose type space knows
/// the path.
pub open spec fn spec_find_ty_from(scopes: Seq<Scope>, at: int, path: Seq<Seq<char>>) -> FoundItem<
    Ty,
>
    decreases at,
{
    if at < 0 || at >= scopes.len() {
        FoundItem::Missing
    } else {
        match scopes[at].types.spec_lookup(path) {
            Some(t) => FoundItem::Found(t),
            None => match scopes[at].parent {
                Some(p) => if p < at {
                    spec_find_ty_from(scopes, p as int, path)
                } else {
                    FoundItem::Missing
                },
                None => FoundItem::Missing,
            },
        }
    }
}

/// What a lookup of the entity `path` finds from scope `at` outward, when
/// `crossed` says whether a function boundary was already left behind: the
/// entity in the first scope on the way to the root that knows the path,
/// usable if no boundary was crossed before that scope or the entity may be
/// used across one. A scope of level `Function` is a boundary for all the
/// scopes outside it, not for itself.
pub open spec fn spec_find_entity_from(
    scopes: Seq<Scope>,
    at: int,
    path: Seq<Seq<char>>,
    crossed: bool,
) -> FoundItem<Entity>
    decreases at,
{
    if at < 0 || at >= scopes.len() {
        FoundItem::Missing
    } else {
        match scopes[at].entities.spec_lookup(path) {
            Some(e) => if !crossed || e.spec_can_access_outside_function() {
                FoundItem::Found(e)
            } else {
                FoundItem::NotAvailable(e)
            },
            None => {
                let crossed_next = crossed || scopes[at].level.spec_at_least(ScopeLevel::Function);
                match scopes[at].parent {
                    Some(p) => if p < at {
                        spec_find_entity_from(scopes, p as int, path, crossed_next)
                    } else {
                        FoundItem::Missing
                    },
                    None => FoundItem::Missing,
                }
            },
        }
    }
}

/// The text of the diagnostic for a type that is not the expected one.
pub open spec fn spec_mismatch_text(actual: Ty, expected: Ty) -> Seq<char> {
    "Expected type "@ + expected.spec_name() + ", got type "@ + actual.spec_name()
}

/// The scope tree, the cursor on its active scope, and the sink for
/// diagnostics.
pub struct CoherencyVisitor {
    logger: Logger,
    scopes: Vec<Scope>,
    current: usize,
}

impl CoherencyVisitor {
    /// The scopes of the tree; a scope's index never changes.
    pub closed spec fn spec_scopes(&self) -> Seq<Scope> {
        self.scopes@
    }

    /// The index of the active scope.
    pub closed spec fn spec_current(&self) -> int {
        self.current as int
    }

    /// The diagnostics in the sink, oldest first.
    pub closed spec fn spec_messages(&self) -> Seq<MessageView> {
        self.logger@
    }

    /// The scopes form a tree and the cursor is on one of them.
    pub open spec fn wf(&self) -> bool {
        &&& spec_tree_wf(self.spec_scopes())
        &&& 0 <= self.spec_current() < self.spec_scopes().len()
    }

    /// The active scope.
    pub open spec fn spec_active(&self) -> Scope {
        self.spec_scopes()[self.spec_current()]
    }

    /// What a lookup of the type `path` finds from the active scope.
    pub open spec fn spec_find_ty(&self, path: Seq<Seq<char>>) -> FoundItem<Ty> {
        spec_find_ty_from(self.spec_scopes(), self.spec_current(), path)
    }

    /// What a lookup of the entity `path` finds from the active scope.
    pub open spec fn spec_find_entity(&self, path: Seq<Seq<char>>) -> FoundItem<Entity> {
        spec_find_entity_from(self.spec_scopes(), self.spec_current(), path, false)
    }

    /// `self` is `before` after a new scope was entered: the tree has one
    /// more scope, empty, a child of the scope that was active, and the
    /// cursor is on it. Nothing else has changed.
    pub open spec fn spec_entered(
        &self,
        before: &CoherencyVisitor,
        level: ScopeLevel,
        decl: AstRef,
        return_type: Return,
    ) -> bool {
        let old_scopes = before.spec_scopes();
        let new_scopes = self.spec_scopes();
        let cur = before.spec_current();
        &&& self.spec_messages() == before.spec_messages()
        &&& new_scopes.len() == old_scopes.len() + 1
        &&& self.spec_current() == old_scopes.len()
        &&& new_scopes[self.spec_current()].spec_is_new(
            Some(cur as usize),
            level,
            decl,
            return_type,
        )
        &&& forall|i: int|
            0 <= i < old_scopes.len() && i != cur ==> #[trigger] new_scopes[i] == old_scopes[i]
        &&& spec_with_child(new_scopes[cur], old_scopes[cur], old_scopes.len() as usize)
    }

    /// `self` is `before` with the cursor moved to the scope `id`.
    pub open spec fn spec_moved(&self, before: &CoherencyVisitor, id: int) -> bool {
        &&& self.spec_messages() == before.spec_messages()
        &&& self.spec_scopes() == before.spec_scopes()
        &&& self.spec_current() == id
    }

    /// `self` is `before` after the active scope was left for its parent.
    pub open spec fn spec_left(&self, before: &CoherencyVisitor) -> bool {
        &&& before.spec_active().parent is Some
        &&& self.spec_moved(before, before.spec_active().parent->Some_0 as int)
    }

    /// A visitor on a new tree: the root scope alone, with the primitive
    /// types and the built-in operators, active.
    pub fn new(logger: Logger) -> (r: Self)
        ensures
            r.wf(),
            r.spec_current() == 0,
            r.spec_scopes().len() == 1,
            r.spec_scopes()[0].spec_is_top(),
            r.spec_messages() == logger@,
    {
        let root_scope = Scope::new_top();
        let mut scopes: Vec<Scope> = Vec::new();
        scopes.push(root_scope);
        CoherencyVisitor { logger, scopes, current: 0 }
    }

    /// The index of the active scope.
    pub fn current_scope(&self) -> (r: usize)
        ensures
            r == self.spec_current(),
    {
        self.current
    }

    /// The scope at `id`, if the tree has one there.
    pub fn scope(&self, id: usize) -> (r: Option<&Scope>)
        ensures
            match r {
                Some(s) => id < self.spec_scopes().len() && *s == self.spec_scopes()[id as int],
                None => id >= self.spec_scopes().len(),
            },
    {
        if id < self.scopes.len() {
            Some(&self.scopes[id])
        } else {
            None
        }
    }

    /// The sink for diagnostics.
    pub fn logger(&self) -> (r: &Logger)
        ensures
            r@ == self.spec_messages(),
    {
        &self.logger
    }

    /// Looks the entity `name` up from the active scope outward.
    pub fn find_entity(&self, name: Path) -> (r: FoundItem<&Entity>)
        requires
            self.wf(),
        ensures
            match (r, self.spec_find_entity(name@)) {
                (FoundItem::Found(e), FoundItem::Found(f)) => *e == f,
                (FoundItem::NotAvailable(e), FoundItem::NotAvailable(f)) => *e == f,
                (FoundItem::Missing, FoundItem::Missing) => true,
                _ => false,
            },
    {
        let mut outside_function = false;
        let mut at: usize = self.current;
        loop
            invariant
                self.wf(),
                at < self.scopes.len(),
                self.spec_find_entity(name@) == spec_find_entity_from(
                    self.spec_scopes(),
                    at as int,
                    name@,
                    outside_function,
                ),
            decreases at,
        {
            proof {
                lemma_parent_below(self.spec_scopes(), at as int);
            }
            let scope = &self.scopes[at];
            match scope.entities.lookup(&name) {
                Some(e) => {
                    return if !outside_function || e.can_access_outside_function() {
                        FoundItem::Found(e)
                    } else {
                        FoundItem::NotAvailable(e)
                    };
                },
                None => {},
            }
            if scope.level.at_least(&ScopeLevel::Function) {
                outside_function = true;
            }
            match scope.parent {
                Some(p) => {
                    at = p;
                },
                None => {
                    return FoundItem::Missing;
                },
            }
        }
    }

    /// Looks the type `name` up from the active scope outward.
    pub fn find_ty(&self, name: Path) -> (r: FoundItem<&Ty>)
        requires
            self.wf(),
        ensures
            match (r, self.spec_find_ty(name@)) {
                (FoundItem::Found(t), FoundItem::Found(u)) => *t == u,
                (FoundItem::Missing, FoundItem::Missing) => true,
                _ => false,
            },
    {
        let mut at: usize = self.current;
        loop
            invariant
                self.wf(),
                at < self.scopes.len(),
                self.spec_find_ty(name@) == spec_find_ty_from(self.spec_scopes(), at as int, name@),
            decreases at,
        {
            proof {
                lemma_parent_below(self.spec_scopes(), at as int);
            }
            let scope = &self.scopes[at];
            match scope.types.lookup(&name) {
                Some(t) => {
                    return FoundItem::Found(t);
                },
                None => {},
            }
            match scope.parent {
                Some(p) => {
                    at = p;
                },
                None => {
                    return FoundItem::Missing;
                },
            }
        }
    }

    /// Makes a scope the active one. Where `scope` names one, that scope is
    /// entered, if the tree has it. Where it names none, `or_create` says
    /// what the new scope is; it becomes a child of the active scope, and
    /// `scope` then names it.
    pub fn enter_scope<F: FnOnce() -> (ScopeLevel, AstRef, Return)>(
        &mut self,
        scope: &mut Option<usize>,
        or_create: F,
    ) -> (r: Result<(), ScopeError>)
        requires
            old(self).wf(),
            *old(scope) is None ==> or_create.requires(()),
        ensures
            final(self).wf(),
            match *old(scope) {
                Some(id) => {
                    &&& *final(scope) == *old(scope)
                    &&& if id < old(self).spec_scopes().len() {
                        r is Ok && final(self).spec_moved(old(self), id as int)
                    } else {
                        r == Err::<(), ScopeError>(ScopeError::UnknownScope) && final(self).spec_moved(old(self), old(self).spec_current())
                    }
                },
                None => {
                    &&& r is Ok
                    &&& *final(scope) == Some(old(self).spec_scopes().len() as usize)
                    &&& exists|init: (ScopeLevel, AstRef, Return)|
                        or_create.ensures((), init) && final(self).spec_entered(
                            old(self),
                            init.0,
                            init.1,
                            init.2,
                        )
                },
            },
    {
        match *scope {
            Some(id) => {
                if id < self.scopes.len() {
                    self.current = id;
                    Ok(())
                } else {
                    Err(ScopeError::UnknownScope)
                }
            },
            None => {
                let init = or_create();
                let id: usize = self.scopes.len();
                let cur: usize = self.current;
                let new_scope = Scope::new(Some(cur), init.0, init.1, init.2);
                self.scopes[cur].children.push(id);
                self.scopes.push(new_scope);
                self.current = id;
                *scope = Some(id);
                proof {
                    lemma_add_child_wf(old(self).spec_scopes(), self.spec_scopes(), cur, id);
                    assert(self.spec_entered(old(self), init.0, init.1, init.2));
                }
                Ok(())
            },
        }
    }

    /// Goes back to the parent of the active scope. The root has none: the
    /// call then fails and changes nothing.
    pub fn leave_scope(&mut self) -> (r: Result<(), ScopeError>)
        requires
            old(self).wf(),
        ensures
            final(self).wf(),
            match old(self).spec_active().parent {
                Some(p) => r is Ok && final(self).spec_left(old(self)),
                None => r == Err::<(), ScopeError>(ScopeError::LeaveRoot) && final(self).spec_moved(
                    old(self),
                    old(self).spec_current(),
                ),
            },
            old(self).spec_active().parent is None <==> old(self).spec_current() == 0,
    {
        proof {
            lemma_parent_below(self.spec_scopes(), self.spec_current());
        }
        match self.scopes[self.current].parent {
            Some(p) => {
                self.current = p;
                Ok(())
            },
            None => Err(ScopeError::LeaveRoot),
        }
    }

    /// Declares `entity` in the active scope under its own name, in place
    /// of what that name stood for there.
    pub fn declare_entity(&mut self, entity: Entity)
        requires
            old(self).wf(),
        ensures
            final(self).wf(),
            final(self).spec_current() == old(self).spec_current(),
            final(self).spec_messages() == old(self).spec_messages(),
            final(self).spec_scopes().len() == old(self).spec_scopes().len(),
            forall|i: int|
                0 <= i < old(self).spec_scopes().len() && i != old(self).spec_current()
                    ==> #[trigger] final(self).spec_scopes()[i] == old(self).spec_scopes()[i],
            final(self).spec_active().entities@ == old(self).spec_active().entities@.insert(
                entity@.name,
                entity,
            ),
            final(self).spec_active().types == old(self).spec_active().types,
            final(self).spec_active().parent == old(self).spec_active().parent,
            final(self).spec_active().children == old(self).spec_active().children,
            final(self).spec_active().level == old(self).spec_active().level,
            final(self).spec_active().decl == old(self).spec_active().decl,
            final(self).spec_active().return_type == old(self).spec_active().return_type,
    {
        let name = entity.name();
        let cur: usize = self.current;
        self.scopes[cur].entities.push(name, entity);
        proof {
            lemma_same_links_wf(old(self).spec_scopes(), self.spec_scopes());
        }
    }

    /// Declares the type `ty` in the active scope under `name`, in place of
    /// what that name stood for there.
    pub fn declare_ty(&mut self, name: FullPath, ty: Ty)
        requires
            old(self).wf(),
        ensures
            final(self).wf(),
            final(self).spec_current() == old(self).spec_current(),
            final(self).spec_messages() == old(self).spec_messages(),
            final(self).spec_scopes().len() == old(self).spec_scopes().len(),
            forall|i: int|
                0 <= i < old(self).spec_scopes().len() && i != old(self).spec_current()
                    ==> #[trigger] final(self).spec_scopes()[i] == old(self).spec_scopes()[i],
            final(self).spec_active().types@ == old(self).spec_active().types@.insert(name@, ty),
            final(self).spec_active().entities == old(self).spec_active().entities,
            final(self).spec_active().parent == old(self).spec_active().parent,
            final(self).spec_active().children == old(self).spec_active().children,
            final(self).spec_active().level == old(self).spec_active().level,
            final(self).spec_active().decl == old(self).spec_active().decl,
            final(self).spec_active().return_type == old(self).spec_active().return_type,
    {
        let cur: usize = self.current;
        self.scopes[cur].types.push(name, ty);
        proof {
            lemma_same_links_wf(old(self).spec_scopes(), self.spec_scopes());
        }
    }

    /// Hands one diagnostic to the sink.
    pub fn emit_msg(&mut self, msg: Message)
        ensures
            final(self).spec_messages() == old(self).spec_messages().push(msg@),
            final(self).spec_scopes() == old(self).spec_scopes(),
            final(self).spec_current() == old(self).spec_current(),
    {
        self.logger.log_msg(msg);
    }

    /// Puts another sink in place of the one in use.
    pub fn set_logger(&mut self, logger: Logger)
        ensures
            final(self).spec_messages() == logger@,
            final(self).spec_scopes() == old(self).spec_scopes(),
            final(self).spec_current() == old(self).spec_current(),
    {
        self.logger = logger;
    }

    /// Hands out the diagnostics in the sink, oldest first, and empties it.
    pub fn take_messages(&mut self) -> (r: Vec<Message>)
        ensures
            crate::logging::messages_view(r@) == old(self).spec_messages(),
            final(self).spec_messages() == Seq::<MessageView>::empty(),
            final(self).spec_scopes() == old(self).spec_scopes(),
            final(self).spec_current() == old(self).spec_current(),
    {
        self.logger.drain()
    }

    /// Checks that a value of type `a` can stand where `b` is expected. If
    /// it cannot, one error is logged at `span`. Either way the type to go
    /// on with comes back: `b`, or `a` where `b` carries no information.
    pub fn expect_eq(&mut self, a: Ty, b: Ty, span: &Span) -> (r: Ty)
        ensures
            r == b.spec_or(a),
            final(self).spec_scopes() == old(self).spec_scopes(),
            final(self).spec_current() == old(self).spec_current(),
            a.spec_convertible_to(b) ==> final(self).spec_messages() == old(self).spec_messages(),
            !a.spec_convertible_to(b) ==> final(self).spec_messages() == old(self).spec_messages().push(
                MessageView {
                    level: Level::Error,
                    text: spec_mismatch_text(a, b),
                    span: *span,
                },
            ),
    {
        if !a.convertible_to(&b) {
            let mut text = String::from_str("Expected type ");
            text.append(b.name().as_str());
            text.append(", got type ");
            text.append(a.name().as_str());
            self.emit_msg(Message::from_span(Level::Error, text, span));
        }
        b.or(a)
    }
}

/// From the root of a tree that holds the built-in types, a name of at
/// least one segment finds a type exactly when it is the name of one of
/// the five primitive types, and then finds that type.
pub proof fn lemma_primitive_types_found(v: CoherencyVisitor, path: Seq<Seq<char>>)
    requires
        v.wf(),
        v.spec_current() == 0,
        spec_is_builtin_types(v.spec_scopes()[0].types),
        path.len() >= 1,
    ensures
        forall|t: Ty|
            t.spec_is_primitive() && path == #[trigger] spec_ty_key(t) ==> v.spec_find_ty(path)
                == FoundItem::Found(t),
        (forall|t: Ty| t.spec_is_primitive() ==> path != #[trigger] spec_ty_key(t))
            ==> v.spec_find_ty(path) == FoundItem::<Ty>::Missing,
{
    let types = v.spec_scopes()[0].types;
    assert forall|k: Seq<Seq<char>>| #[trigger] types@.contains_key(k) implies k.len() == 1 by {
        let t = choose|t: Ty| t.spec_is_primitive() && k == spec_ty_key(t);
        assert(spec_ty_key(t).len() == 1);
    }
    lemma_resolve_fixed_len(types, path, 1);
}

/// From the root of a tree that holds the built-in operators, the name of
/// each operator of the table finds that operator, with the operand types
/// and the result type of its row.
pub proof fn lemma_builtin_operator_found(v: CoherencyVisitor, lhs: Ty, op: Op, rhs: Ty)
    requires
        v.wf(),
        v.spec_current() == 0,
        spec_is_builtin_entities(v.spec_scopes()[0].entities),
        spec_builtin_result(lhs, op, rhs) is Some,
    ensures
        v.spec_find_entity(spec_binop_name(lhs, op, rhs)) is Found,
        v.spec_find_entity(spec_binop_name(lhs, op, rhs))->Found_0@ == spec_builtin_binop(
            lhs,
            op,
            rhs,
            spec_builtin_result(lhs, op, rhs)->Some_0,
        ),
{
    let entities = v.spec_scopes()[0].entities;
    let path = spec_binop_name(lhs, op, rhs);
    assert forall|k: Seq<Seq<char>>| #[trigger] entities@.contains_key(k) implies k.len() == 3 by {
        let (l, o, r) = choose|l: Ty, o: Op, r: Ty|
            spec_builtin_result(l, o, r) is Some && k == spec_binop_name(l, o, r);
        assert(spec_binop_name(l, o, r).len() == 3);
    }
    lemma_resolve_fixed_len(entities, path, 3);
    assert(entities@.contains_key(path));
}

/// An entity is found, whatever it is, from the scope that declares it.
pub proof fn lemma_found_where_declared(
    scopes: Seq<Scope>,
    at: int,
    path: Seq<Seq<char>>,
    e: Entity,
)
    requires
        0 <= at < scopes.len(),
        scopes[at].entities.spec_lookup(path) == Some(e),
    ensures
        spec_find_entity_from(scopes, at, path, false) == FoundItem::Found(e),
{
}

/// An entity is found from a block inside the function that declares it,
/// whatever it is: the block is no boundary.
pub proof fn lemma_found_inside_function(
    scopes: Seq<Scope>,
    function: usize,
    block: usize,
    path: Seq<Seq<char>>,
    e: Entity,
)
    requires
        spec_tree_wf(scopes),
        block < scopes.len(),
        scopes[block as int].parent == Some(function),
        scopes[block as int].level == ScopeLevel::Block,
        scopes[block as int].entities.spec_lookup(path) is None,
        scopes[function as int].entities.spec_lookup(path) == Some(e),
    ensures
        spec_find_entity_from(scopes, block as int, path, false) == FoundItem::Found(e),
{
    lemma_parent_below(scopes, block as int);
    reveal_with_fuel(spec_find_entity_from, 3);
}

/// An entity declared in a scope, looked up from a function scope inside it
/// or from a block inside that function, where neither declares the name:
/// it is found if it may be used across a function boundary, and found but
/// not available if it may not.
pub proof fn lemma_visibility_across_function(
    scopes: Seq<Scope>,
    outer: usize,
    function: usize,
    block: usize,
    path: Seq<Seq<char>>,
    e: Entity,
)
    requires
        spec_tree_wf(scopes),
        block < scopes.len(),
        scopes[function as int].parent == Some(outer),
        scopes[block as int].parent == Some(function),
        scopes[function as int].level == ScopeLevel::Function,
        scopes[block as int].level == ScopeLevel::Block,
        scopes[outer as int].entities.spec_lookup(path) == Some(e),
        scopes[function as int].entities.spec_lookup(path) is None,
        scopes[block as int].entities.spec_lookup(path) is None,
    ensures
        e.spec_can_access_outside_function() ==> spec_find_entity_from(
            scopes,
            block as int,
            path,
            false,
        ) == FoundItem::Found(e) && spec_find_entity_from(scopes, function as int, path, false)
            == FoundItem::Found(e),
        !e.spec_can_access_outside_function() ==> spec_find_entity_from(
            scopes,
            block as int,
            path,
            false,
        ) == FoundItem::NotAvailable(e) && spec_find_entity_from(
            scopes,
            function as int,
            path,
            false,
        ) == FoundItem::NotAvailable(e),
{
    lemma_parent_below(scopes, block as int);
    lemma_parent_below(scopes, function as int);
    reveal_with_fuel(spec_find_entity_from, 4);
}

/// Entering a new scope and leaving it again puts the cursor back where it
/// was.
pub proof fn lemma_enter_leave_restores(
    start: CoherencyVisitor,
    entered: CoherencyVisitor,
    left: CoherencyVisitor,
    level: ScopeLevel,
    decl: AstRef,
    return_type: Return,
)
    requires
        start.wf(),
        entered.spec_entered(&start, level, decl, return_type),
        left.spec_left(&entered),
    ensures
        left.spec_current() == start.spec_current(),
        left.spec_messages() == start.spec_messages(),
{
}

/// Entering a child of the active scope that the tree already has and
/// leaving it again puts the cursor back where it was.
pub proof fn lemma_reenter_leave_restores(
    start: CoherencyVisitor,
    entered: CoherencyVisitor,
    left: CoherencyVisitor,
    id: usize,
)
    requires
        start.wf(),
        id < start.spec_scopes().len(),
        start.spec_scopes()[id as int].parent is Some,
        start.spec_scopes()[id as int].parent->Some_0 == start.spec_current(),
        entered.spec_moved(&start, id as int),
        left.spec_left(&entered),
    ensures
        left.spec_current() == start.spec_current(),
        left.spec_scopes() == start.spec_scopes(),
{
}

/// Two scopes entered one inside the other are left in reverse order: the
/// first leave puts the cursor on the scope entered first, the second on
/// the scope that was active before both.
pub proof fn lemma_nested_enter_leave_restores(
    start: CoherencyVisitor,
    first: CoherencyVisitor,
    second: CoherencyVisitor,
    left_second: CoherencyVisitor,
    left_first: CoherencyVisitor,
    init_first: (ScopeLevel, AstRef, Return),
    init_second: (ScopeLevel, AstRef, Return),
)
    requires
        start.wf(),
        first.spec_entered(&start, init_first.0, init_first.1, init_first.2),
        second.spec_entered(&first, init_second.0, init_second.1, init_second.2),
        left_second.spec_left(&second),
        left_first.spec_left(&left_second),
    ensures
        left_second.spec_current() == first.spec_current(),
        left_first.spec_current() == start.spec_current(),
{
}

} // verus!
