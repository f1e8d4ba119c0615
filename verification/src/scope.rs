//! Lexical scopes and the environment that every program starts with.

use vstd::prelude::*;
use crate::entity::{lemma_binop_name_unique, spec_binop_name, spec_builtin_binop, Entity, Op};
use crate::space::Space;
use crate::ty::{lemma_primitive_name_unique, spec_ty_key, AstRef, Ty};

verus! {

/// How much a scope closes off. `Block` is below `Function`.
#[derive(Clone, Copy, Debug, PartialEq, Eq, PartialOrd, Ord, Structural)]
pub enum ScopeLevel {
    /// An ordinary block: everything outside it can be used inside.
    Block,
    /// A function body: of what lies outside, only constants, types and
    /// functions can be used inside.
    Function,
}

impl ScopeLevel {
    /// The level's place in the order.
    pub open spec fn spec_rank(self) -> int {
        match self {
            ScopeLevel::Block => 0,
            ScopeLevel::Function => 1,
        }
    }

    /// This level is `min` or above it.
    pub open spec fn spec_at_least(self, min: ScopeLevel) -> bool {
        self.spec_rank() >= min.spec_rank()
    }

    /// Whether this level is `min` or above it.
    pub fn at_least(&self, min: &ScopeLevel) -> (b: bool)
        ensures
            b == self.spec_at_least(*min),
    {
        match (self, min) {
            (ScopeLevel::Block, ScopeLevel::Function) => false,
            _ => true,
        }
    }
}

/// What a scope has to yield.
#[derive(Clone, Copy, Debug, PartialEq, Eq, Structural)]
pub enum Return {
    /// No value.
    Void,
    /// A value of a declared type.
    Explicit(Ty),
    /// A value whose type was taken from the given expression.
    Inferred(Ty, AstRef),
}

/// One scope of the tree. Scopes live in one arena and name each other by
/// index: `parent` is absent for the root alone.
pub struct Scope {
    pub parent: Option<usize>,
    pub children: Vec<usize>,
    pub level: ScopeLevel,
    pub types: Space<Ty>,
    pub entities: Space<Entity>,
    pub return_type: Return,
    pub decl: AstRef,
}

/// The table of built-in operators: what `op` gives on operands of types
/// `lhs` and `rhs`, where it is defined.
pub open spec fn spec_builtin_result(lhs: Ty, op: Op, rhs: Ty) -> Option<Ty> {
    let arithmetic = op is Add || op is Sub || op is Div || op is Mul || op is Mod;
    let comparison = op is Eq || op is Gtr || op is Lss;
    if lhs is Void && rhs is Void {
        if op is Eq {
            Some(Ty::Bool)
        } else {
            None
        }
    } else if lhs is Int && rhs is Int {
        if arithmetic {
            Some(Ty::Int)
        } else if comparison {
            Some(Ty::Bool)
        } else {
            None
        }
    } else if lhs is Float && rhs is Float {
        if arithmetic {
            Some(Ty::Float)
        } else if comparison {
            Some(Ty::Bool)
        } else {
            None
        }
    } else if lhs is String && rhs is String {
        if op is Eq {
            Some(Ty::Bool)
        } else if op is Add {
            Some(Ty::String)
        } else {
            None
        }
    } else if lhs is String && rhs is Int {
        if op is Mul {
            Some(Ty::String)
        } else {
            None
        }
    } else if lhs is Bool && rhs is Bool {
        if op is Eq || op is And || op is Or {
            Some(Ty::Bool)
        } else {
            None
        }
    } else {
        None
    }
}

/// The type space holds the five primitive types, each under its name, and
/// nothing else.
pub open spec fn spec_is_builtin_types(types: Space<Ty>) -> bool {
    &&& types.wf()
    &&& forall|t: Ty|
        t.spec_is_primitive() ==> types@.contains_key(#[trigger] spec_ty_key(t))
            && types@[spec_ty_key(t)] == t
    &&& forall|k: Seq<Seq<char>>| #[trigger]
        types@.contains_key(k) ==> exists|t: Ty| t.spec_is_primitive() && k == spec_ty_key(t)
}

/// The entity space holds one operator for each row of the table of
/// built-in operators, under its signature, and nothing else.
pub open spec fn spec_is_builtin_entities(entities: Space<Entity>) -> bool {
    &&& entities.wf()
    &&& forall|lhs: Ty, op: Op, rhs: Ty|
        match spec_builtin_result(lhs, op, rhs) {
            Some(ret) => entities@.contains_key(#[trigger] spec_binop_name(lhs, op, rhs))
                && entities@[spec_binop_name(lhs, op, rhs)]@ == spec_builtin_binop(
                lhs,
                op,
                rhs,
                ret,
            ),
            None => !entities@.contains_key(spec_binop_name(lhs, op, rhs)),
        }
    &&& forall|k: Seq<Seq<char>>| #[trigger]
        entities@.contains_key(k) ==> exists|lhs: Ty, op: Op, rhs: Ty|
            spec_builtin_result(lhs, op, rhs) is Some && k == spec_binop_name(lhs, op, rhs)
}

/// Two type keys are the same only for the same type, if one is primitive.
proof fn lemma_ty_key_unique(p: Ty, t: Ty)
    requires
        p.spec_is_primitive(),
    ensures
        spec_ty_key(p) == spec_ty_key(t) ==> p == t,
{
    if spec_ty_key(p) == spec_ty_key(t) {
        assert(spec_ty_key(p)[0] == spec_ty_key(t)[0]);
        lemma_primitive_name_unique(p, t);
    }
}

fn push_binop(entities: &mut Space<Entity>, lhs: Ty, op: Op, rhs: Ty, ret: Ty)
    requires
        old(entities).wf(),
    ensures
        final(entities).wf(),
        final(entities)@.dom() == old(entities)@.dom().insert(spec_binop_name(lhs, op, rhs)),
        final(entities)@[spec_binop_name(lhs, op, rhs)]@ == spec_builtin_binop(lhs, op, rhs, ret),
        forall|k: Seq<Seq<char>>|
            k != spec_binop_name(lhs, op, rhs) ==> #[trigger] final(entities)@[k] == old(entities)@[k],
{
    let binop = Entity::new_builtin_binop(lhs, op, rhs, ret);
    let name = binop.name();
    entities.push(name, binop);
}

impl Scope {
    /// A scope with nothing declared in it and no children.
    pub open spec fn spec_is_new(
        &self,
        parent: Option<usize>,
        level: ScopeLevel,
        decl: AstRef,
        return_type: Return,
    ) -> bool {
        &&& self.parent == parent
        &&& self.level == level
        &&& self.decl == decl
        &&& self.return_type == return_type
        &&& self.children@ == Seq::<usize>::empty()
        &&& self.types.wf()
        &&& self.entities.wf()
        &&& self.types@ == Map::<Seq<Seq<char>>, Ty>::empty()
        &&& self.entities@ == Map::<Seq<Seq<char>>, Entity>::empty()
    }

    /// The root of a tree as it is before the program declares anything: a
    /// `Block` that nothing declared, without parent or children, which
    /// holds the primitive types and the built-in operators.
    pub open spec fn spec_is_top(&self) -> bool {
        &&& self.parent is None
        &&& self.level == ScopeLevel::Block
        &&& self.decl == AstRef::Builtin
        &&& self.return_type == Return::Void
        &&& self.children@ == Seq::<usize>::empty()
        &&& spec_is_builtin_types(self.types)
        &&& spec_is_builtin_entities(self.entities)
    }

    /// An empty scope under `parent`, introduced by `decl`.
    pub fn new(parent: Option<usize>, level: ScopeLevel, decl: AstRef, return_type: Return) -> (r:
        Scope)
        ensures
            r.spec_is_new(parent, level, decl, return_type),
    {
        Scope {
            parent,
            children: Vec::new(),
            level,
            types: Space::new(),
            entities: Space::new(),
            return_type,
            decl,
        }
    }

    /// The root scope, with the primitive types and the built-in operators.
    #[verifier::rlimit(100)]
    pub fn new_top() -> (r: Scope)
        ensures
            r.spec_is_top(),
    {
        let mut res = Scope::new(None, ScopeLevel::Block, AstRef::Builtin, Return::Void);
        res.types.push_ty(Ty::Void);
        res.types.push_ty(Ty::Bool);
        res.types.push_ty(Ty::Int);
        res.types.push_ty(Ty::Float);
        res.types.push_ty(Ty::String);
        proof {
            assert forall|t: Ty| t.spec_is_primitive() implies res.types@.contains_key(
                #[trigger] spec_ty_key(t),
            ) && res.types@[spec_ty_key(t)] == t by {
                lemma_ty_key_unique(Ty::Void, t);
                lemma_ty_key_unique(Ty::Bool, t);
                lemma_ty_key_unique(Ty::Int, t);
                lemma_ty_key_unique(Ty::Float, t);
                lemma_ty_key_unique(Ty::String, t);
            }
            assert forall|k: Seq<Seq<char>>| #[trigger]
                res.types@.contains_key(k) implies exists|t: Ty|
                t.spec_is_primitive() && k == spec_ty_key(t) by {
                if k == spec_ty_key(Ty::Void) {
                    assert(Ty::Void.spec_is_primitive());
                } else if k == spec_ty_key(Ty::Bool) {
                    assert(Ty::Bool.spec_is_primitive());
                } else if k == spec_ty_key(Ty::Int) {
                    assert(Ty::Int.spec_is_primitive());
                } else if k == spec_ty_key(Ty::Float) {
                    assert(Ty::Float.spec_is_primitive());
                } else {
                    assert(k == spec_ty_key(Ty::String));
                    assert(Ty::String.spec_is_primitive());
                }
            }
        }
        let ents = &mut res.entities;
        push_binop(ents, Ty::Void, Op::Eq, Ty::Void, Ty::Bool);

        push_binop(ents, Ty::Int, Op::Add, Ty::Int, Ty::Int);
        push_binop(ents, Ty::Int, Op::Sub, Ty::Int, Ty::Int);
        push_binop(ents, Ty::Int, Op::Div, Ty::Int, Ty::Int);
        push_binop(ents, Ty::Int, Op::Mul, Ty::Int, Ty::Int);
        push_binop(ents, Ty::Int, Op::Mod, Ty::Int, Ty::Int);
        push_binop(ents, Ty::Int, Op::Eq, Ty::Int, Ty::Bool);
        push_binop(ents, Ty::Int, Op::Gtr, Ty::Int, Ty::Bool);
        push_binop(ents, Ty::Int, Op::Lss, Ty::Int, Ty::Bool);

        push_binop(ents, Ty::Float, Op::Add, Ty::Float, Ty::Float);
        push_binop(ents, Ty::Float, Op::Sub, Ty::Float, Ty::Float);
        push_binop(ents, Ty::Float, Op::Div, Ty::Float, Ty::Float);
        push_binop(ents, Ty::Float, Op::Mul, Ty::Float, Ty::Float);
        push_binop(ents, Ty::Float, Op::Mod, Ty::Float, Ty::Float);
        push_binop(ents, Ty::Float, Op::Eq, Ty::Float, Ty::Bool);
        push_binop(ents, Ty::Float, Op::Gtr, Ty::Float, Ty::Bool);
        push_binop(ents, Ty::Float, Op::Lss, Ty::Float, Ty::Bool);

        push_binop(ents, Ty::String, Op::Eq, Ty::String, Ty::Bool);
        push_binop(ents, Ty::String, Op::Add, Ty::String, Ty::String);
        push_binop(ents, Ty::String, Op::Mul, Ty::Int, Ty::String);

        push_binop(ents, Ty::Bool, Op::Eq, Ty::Bool, Ty::Bool);
        push_binop(ents, Ty::Bool, Op::And, Ty::Bool, Ty::Bool);
        push_binop(ents, Ty::Bool, Op::Or, Ty::Bool, Ty::Bool);
        proof {
            assert forall|lhs: Ty, op: Op, rhs: Ty|
                match spec_builtin_result(lhs, op, rhs) {
                    Some(ret) => res.entities@.contains_key(
                        #[trigger] spec_binop_name(lhs, op, rhs),
                    ) && res.entities@[spec_binop_name(lhs, op, rhs)]@ == spec_builtin_binop(
                        lhs,
                        op,
                        rhs,
                        ret,
                    ),
                    None => !res.entities@.contains_key(spec_binop_name(lhs, op, rhs)),
                } by {
                lemma_builtin_keys(lhs, op, rhs);
            }
            assert forall|k: Seq<Seq<char>>| #[trigger]
                res.entities@.contains_key(k) implies exists|lhs: Ty, op: Op, rhs: Ty|
                spec_builtin_result(lhs, op, rhs) is Some && k == spec_binop_name(lhs, op, rhs) by {
                assert(spec_builtin_result(Ty::Void, Op::Eq, Ty::Void) is Some);
            }
        }
        res
    }

    /// The declaration that introduced the scope.
    pub fn decl(&self) -> (r: AstRef)
        ensures
            r == self.decl,
    {
        self.decl
    }
}

/// The name of a signature is the name of an operator on primitive
/// operands only where the signature is that operator's.
proof fn lemma_builtin_keys(lhs: Ty, op: Op, rhs: Ty)
    ensures
        forall|l: Ty, o: Op, r: Ty|
            l.spec_is_primitive() && r.spec_is_primitive() && #[trigger] spec_binop_name(l, o, r)
                == spec_binop_name(lhs, op, rhs) ==> lhs == l && op == o && rhs == r,
{
    assert forall|l: Ty, o: Op, r: Ty|
        l.spec_is_primitive() && r.spec_is_primitive() && #[trigger] spec_binop_name(l, o, r)
            == spec_binop_name(lhs, op, rhs) implies lhs == l && op == o && rhs == r by {
        lemma_binop_name_unique(l, o, r, lhs, op, rhs);
    }
}

/// What a lookup through the scopes found.
#[derive(Debug)]
pub enum FoundItem<T> {
    /// Found, and usable from where the lookup started.
    Found(T),
    /// Found, but a function boundary lies between it and the lookup.
    NotAvailable(T),
    /// Nothing of that name in any scope on the way out.
    Missing,
}

impl<T> FoundItem<T> {
    /// The item if it is usable; nothing otherwise.
    pub open spec fn spec_option(self) -> Option<T> {
        match self {
            FoundItem::Found(t) => Option::Some(t),
            _ => Option::None,
        }
    }

    /// The item if it is usable; nothing otherwise.
    pub fn option(self) -> (r: Option<T>)
        ensures
            r == self.spec_option(),
    {
        match self {
            FoundItem::Found(t) => Option::Some(t),
            _ => Option::None,
        }
    }
}

/// What to look for when searching the scopes.
#[derive(Clone, Copy, Debug)]
pub enum FindScope {
    /// A scope of at least the given level.
    ByLevel(ScopeLevel),
    /// The scope that the given declaration introduced.
    ByDecl(AstRef),
    /// Any scope: the first one met.
    TopMost,
}

impl FindScope {
    /// Whether `scope` is what the search is looking for.
    pub open spec fn spec_matches(&self, scope: &Scope) -> bool {
        match self {
            FindScope::ByLevel(level) => scope.level.spec_at_least(*level),
            FindScope::ByDecl(decl) => scope.decl == *decl,
            FindScope::TopMost => true,
        }
    }

    /// Whether `scope` is what the search is looking for.
    pub fn matches(&self, scope: &Scope) -> (b: bool)
        ensures
            b == self.spec_matches(scope),
    {
        match self {
            FindScope::ByLevel(level) => scope.level.at_least(level),
            FindScope::ByDecl(decl) => scope.decl == *decl,
            FindScope::TopMost => true,
        }
    }
}

} // verus!
