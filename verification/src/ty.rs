//! Types as the coherency check sees them.

use vstd::prelude::*;
use vstd::string::StringExecFns;

verus! {

/// An opaque handle on the syntax node that declared something.
#[derive(Clone, Copy, Debug, PartialEq, Eq, Structural)]
pub enum AstRef {
    /// What the compiler itself defines; no syntax node declared it.
    Builtin,
    /// The syntax node with this number.
    Node(u64),
}

/// A type. Cheap to copy and to compare.
#[derive(Clone, Copy, Debug, PartialEq, Eq, Structural)]
pub enum Ty {
    /// Placeholder that stands in after an error; carries no information.
    Invalid,
    Void,
    Bool,
    Int,
    Float,
    String,
    /// A type that the program declares, known by its declaration.
    Declared(AstRef),
}

impl Ty {
    /// Whether this type carries no usable information.
    pub open spec fn spec_is_unknown(self) -> bool {
        self is Invalid
    }

    /// Whether this is one of the five primitive types.
    pub open spec fn spec_is_primitive(self) -> bool {
        self is Void || self is Bool || self is Int || self is Float || self is String
    }

    /// A value of this type can stand where `expected` is asked for: the two
    /// are the same type, or one of them carries no information (an earlier
    /// error was already reported for it).
    pub open spec fn spec_convertible_to(self, expected: Ty) -> bool {
        self.spec_is_unknown() || expected.spec_is_unknown() || self == expected
    }

    /// This type, unless it carries no information; then `other`.
    pub open spec fn spec_or(self, other: Ty) -> Ty {
        if self.spec_is_unknown() {
            other
        } else {
            self
        }
    }

    /// The name under which the type is shown and, for a primitive, stored.
    pub open spec fn spec_name(self) -> Seq<char> {
        match self {
            Ty::Invalid => "<invalid>"@,
            Ty::Void => "Void"@,
            Ty::Bool => "Bool"@,
            Ty::Int => "Int"@,
            Ty::Float => "Float"@,
            Ty::String => "String"@,
            Ty::Declared(_) => "<declared>"@,
        }
    }

    /// Whether this type carries no usable information.
    pub fn is_unknown(&self) -> (b: bool)
        ensures
            b == self.spec_is_unknown(),
    {
        match self {
            Ty::Invalid => true,
            _ => false,
        }
    }

    /// Whether a value of this type can stand where `expected` is asked for.
    pub fn convertible_to(&self, expected: &Ty) -> (b: bool)
        ensures
            b == self.spec_convertible_to(*expected),
    {
        self.is_unknown() || expected.is_unknown() || *self == *expected
    }

    /// This type, unless it carries no information; then `other`.
    pub fn or(self, other: Ty) -> (r: Ty)
        ensures
            r == self.spec_or(other),
    {
        if self.is_unknown() {
            other
        } else {
            self
        }
    }

    fn name_str(&self) -> (r: &'static str)
        ensures
            r@ == self.spec_name(),
    {
        match self {
            Ty::Invalid => "<invalid>",
            Ty::Void => "Void",
            Ty::Bool => "Bool",
            Ty::Int => "Int",
            Ty::Float => "Float",
            Ty::String => "String",
            Ty::Declared(_) => "<declared>",
        }
    }

    /// The type's name as an owned string.
    pub fn name(&self) -> (r: String)
        ensures
            r@ == self.spec_name(),
    {
        String::from_str(self.name_str())
    }
}

/// The full path under which a primitive type is stored: its name alone.
pub open spec fn spec_ty_key(t: Ty) -> Seq<Seq<char>> {
    seq![t.spec_name()]
}

/// A primitive type has a name that no other type has.
pub proof fn lemma_primitive_name_unique(p: Ty, t: Ty)
    requires
        p.spec_is_primitive(),
        p.spec_name() == t.spec_name(),
    ensures
        p == t,
{
    reveal_strlit("<invalid>");
    reveal_strlit("Void");
    reveal_strlit("Bool");
    reveal_strlit("Int");
    reveal_strlit("Float");
    reveal_strlit("String");
    reveal_strlit("<declared>");
    assert("Void"@.len() == 4 && "Void"@[0] == 'V');
    assert("Bool"@.len() == 4 && "Bool"@[0] == 'B');
    assert("Int"@.len() == 3);
    assert("Float"@.len() == 5);
    assert("String"@.len() == 6);
    assert("<invalid>"@.len() == 9);
    assert("<declared>"@.len() == 10);
}

} // verus!
