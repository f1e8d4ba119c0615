//! Named program elements: values, functions and built-in operators.

use vstd::prelude::*;
use vstd::string::StringExecFns;
use crate::path::{segments_view, FullPath};
use crate::ty::Ty;

verus! {

/// A binary operator token.
#[derive(Clone, Copy, Debug, PartialEq, Eq, Structural)]
pub enum Op {
    Add,
    Sub,
    Mul,
    Div,
    Mod,
    Eq,
    Neq,
    Lss,
    Leq,
    Gtr,
    Geq,
    And,
    Or,
}

impl Op {
    /// The operator as it is written.
    pub open spec fn spec_symbol(self) -> Seq<char> {
        match self {
            Op::Add => "+"@,
            Op::Sub => "-"@,
            Op::Mul => "*"@,
            Op::Div => "/"@,
            Op::Mod => "%"@,
            Op::Eq => "=="@,
            Op::Neq => "!="@,
            Op::Lss => "<"@,
            Op::Leq => "<="@,
            Op::Gtr => ">"@,
            Op::Geq => ">="@,
            Op::And => "&&"@,
            Op::Or => "||"@,
        }
    }

    fn symbol_str(&self) -> (r: &'static str)
        ensures
            r@ == self.spec_symbol(),
    {
        match self {
            Op::Add => "+",
            Op::Sub => "-",
            Op::Mul => "*",
            Op::Div => "/",
            Op::Mod => "%",
            Op::Eq => "==",
            Op::Neq => "!=",
            Op::Lss => "<",
            Op::Leq => "<=",
            Op::Gtr => ">",
            Op::Geq => ">=",
            Op::And => "&&",
            Op::Or => "||",
        }
    }

    /// The operator as it is written, as an owned string.
    pub fn symbol(&self) -> (r: String)
        ensures
            r@ == self.spec_symbol(),
    {
        String::from_str(self.symbol_str())
    }
}

/// No two operators are written the same way.
pub proof fn lemma_symbol_unique(a: Op, b: Op)
    requires
        a.spec_symbol() == b.spec_symbol(),
    ensures
        a == b,
{
    reveal_strlit("+");
    reveal_strlit("-");
    reveal_strlit("*");
    reveal_strlit("/");
    reveal_strlit("%");
    reveal_strlit("==");
    reveal_strlit("!=");
    reveal_strlit("<");
    reveal_strlit("<=");
    reveal_strlit(">");
    reveal_strlit(">=");
    reveal_strlit("&&");
    reveal_strlit("||");
    assert("+"@.len() == 1 && "+"@[0] == '+');
    assert("-"@.len() == 1 && "-"@[0] == '-');
    assert("*"@.len() == 1 && "*"@[0] == '*');
    assert("/"@.len() == 1 && "/"@[0] == '/');
    assert("%"@.len() == 1 && "%"@[0] == '%');
    assert("<"@.len() == 1 && "<"@[0] == '<');
    assert(">"@.len() == 1 && ">"@[0] == '>');
    assert("=="@.len() == 2 && "=="@[0] == '=');
    assert("!="@.len() == 2 && "!="@[0] == '!');
    assert("<="@.len() == 2 && "<="@[0] == '<');
    assert(">="@.len() == 2 && ">="@[0] == '>');
    assert("&&"@.len() == 2 && "&&"@[0] == '&');
    assert("||"@.len() == 2 && "||"@[0] == '|');
}

/// What kind of program element an entity is.
#[derive(Clone, Copy, Debug, PartialEq, Eq, Structural)]
pub enum EntityKind {
    /// An ordinary mutable binding.
    Variable,
    /// A binding that never changes.
    Constant,
    /// A declared function.
    Function,
    /// A built-in binary operator on the given operand types.
    BinOp { lhs: Ty, op: Op, rhs: Ty },
}

/// A named, referenceable program element. `ty` is the type of a value, or
/// what a function or an operator gives.
#[derive(Debug)]
pub struct Entity {
    pub name: FullPath,
    pub kind: EntityKind,
    pub ty: Ty,
}

/// An entity as plain values.
pub struct EntityView {
    pub name: Seq<Seq<char>>,
    pub kind: EntityKind,
    pub ty: Ty,
}

impl View for Entity {
    type V = EntityView;

    open spec fn view(&self) -> EntityView {
        EntityView { name: self.name@, kind: self.kind, ty: self.ty }
    }
}

/// The full path under which the operator `op` on operands of types `lhs`
/// and `rhs` is stored: the operand types' names, then the operator.
pub open spec fn spec_binop_name(lhs: Ty, op: Op, rhs: Ty) -> Seq<Seq<char>> {
    seq![lhs.spec_name(), rhs.spec_name(), op.spec_symbol()]
}

/// The built-in operator `op` on `lhs` and `rhs` that gives `ret`.
pub open spec fn spec_builtin_binop(lhs: Ty, op: Op, rhs: Ty, ret: Ty) -> EntityView {
    EntityView {
        name: spec_binop_name(lhs, op, rhs),
        kind: EntityKind::BinOp { lhs, op, rhs },
        ty: ret,
    }
}

/// An operator on primitive operand types shares its stored name with no
/// other operator signature.
pub proof fn lemma_binop_name_unique(lhs: Ty, op: Op, rhs: Ty, lhs2: Ty, op2: Op, rhs2: Ty)
    requires
        lhs.spec_is_primitive(),
        rhs.spec_is_primitive(),
        spec_binop_name(lhs, op, rhs) == spec_binop_name(lhs2, op2, rhs2),
    ensures
        lhs == lhs2,
        op == op2,
        rhs == rhs2,
{
    let a = spec_binop_name(lhs, op, rhs);
    let b = spec_binop_name(lhs2, op2, rhs2);
    assert(a[0] == b[0] && a[1] == b[1] && a[2] == b[2]);
    crate::ty::lemma_primitive_name_unique(lhs, lhs2);
    crate::ty::lemma_primitive_name_unique(rhs, rhs2);
    lemma_symbol_unique(op, op2);
}

impl Entity {
    /// Whether the entity may be referred to from inside a function that is
    /// nested in the scope that declares it.
    pub open spec fn spec_can_access_outside_function(&self) -> bool {
        !(self.kind is Variable)
    }

    /// An entity of the given name, kind and type.
    pub fn new(name: FullPath, kind: EntityKind, ty: Ty) -> (r: Entity)
        ensures
            r@ == (EntityView { name: name@, kind, ty }),
    {
        Entity { name, kind, ty }
    }

    /// The built-in operator `op` on `lhs` and `rhs` that gives `ret`.
    pub fn new_builtin_binop(lhs: Ty, op: Op, rhs: Ty, ret: Ty) -> (r: Entity)
        ensures
            r@ == spec_builtin_binop(lhs, op, rhs, ret),
    {
        let mut segments: Vec<String> = Vec::new();
        segments.push(lhs.name());
        segments.push(rhs.name());
        segments.push(op.symbol());
        assert(segments_view(segments@) =~= spec_binop_name(lhs, op, rhs));
        Entity { name: FullPath::new(segments), kind: EntityKind::BinOp { lhs, op, rhs }, ty: ret }
    }

    /// The full path under which the entity is stored.
    pub fn name(&self) -> (r: FullPath)
        ensures
            r@ == self@.name,
    {
        self.name.clone()
    }

    /// Whether the entity may be referred to from inside a function that is
    /// nested in the scope that declares it.
    pub fn can_access_outside_function(&self) -> (b: bool)
        ensures
            b == self.spec_can_access_outside_function(),
    {
        match self.kind {
            EntityKind::Variable => false,
            _ => true,
        }
    }
}

} // verus!
