use coherency::entity::{Entity, EntityKind, Op};
use coherency::path::FullPath;
use coherency::scope::{FindScope, FoundItem, Return, Scope, ScopeLevel};
use coherency::ty::{AstRef, Ty};

#[test]
fn a_type_converts_to_itself_only() {
    assert!(Ty::Int.convertible_to(&Ty::Int));
    assert!(!Ty::Int.convertible_to(&Ty::Bool));
    assert!(!Ty::Float.convertible_to(&Ty::Int));
    assert!(Ty::Declared(AstRef::Node(4)).convertible_to(&Ty::Declared(AstRef::Node(4))));
    assert!(!Ty::Declared(AstRef::Node(4)).convertible_to(&Ty::Declared(AstRef::Node(5))));
}

#[test]
fn the_placeholder_converts_both_ways() {
    assert!(Ty::Invalid.convertible_to(&Ty::Int));
    assert!(Ty::String.convertible_to(&Ty::Invalid));
}

#[test]
fn or_prefers_the_type_that_says_something() {
    assert_eq!(Ty::Bool.or(Ty::Int), Ty::Bool);
    assert_eq!(Ty::Invalid.or(Ty::Int), Ty::Int);
    assert_eq!(Ty::Invalid.or(Ty::Invalid), Ty::Invalid);
}

#[test]
fn primitive_names() {
    assert_eq!(Ty::Void.name(), "Void");
    assert_eq!(Ty::Bool.name(), "Bool");
    assert_eq!(Ty::Int.name(), "Int");
    assert_eq!(Ty::Float.name(), "Float");
    assert_eq!(Ty::String.name(), "String");
}

#[test]
fn operator_symbols() {
    assert_eq!(Op::Add.symbol(), "+");
    assert_eq!(Op::Sub.symbol(), "-");
    assert_eq!(Op::Mul.symbol(), "*");
    assert_eq!(Op::Div.symbol(), "/");
    assert_eq!(Op::Mod.symbol(), "%");
    assert_eq!(Op::Eq.symbol(), "==");
    assert_eq!(Op::Neq.symbol(), "!=");
    assert_eq!(Op::Lss.symbol(), "<");
    assert_eq!(Op::Leq.symbol(), "<=");
    assert_eq!(Op::Gtr.symbol(), ">");
    assert_eq!(Op::Geq.symbol(), ">=");
    assert_eq!(Op::And.symbol(), "&&");
    assert_eq!(Op::Or.symbol(), "||");
}

#[test]
fn a_builtin_operator_is_named_by_its_signature() {
    let e = Entity::new_builtin_binop(Ty::String, Op::Mul, Ty::Int, Ty::String);
    assert_eq!(e.name().segments, vec!["String".to_string(), "Int".to_string(), "*".to_string()]);
    assert_eq!(e.kind, EntityKind::BinOp { lhs: Ty::String, op: Op::Mul, rhs: Ty::Int });
    assert_eq!(e.ty, Ty::String);
    assert!(e.can_access_outside_function());
}

#[test]
fn only_variables_stay_inside_their_function() {
    let name = || FullPath::single("x");
    assert!(!Entity::new(name(), EntityKind::Variable, Ty::Int).can_access_outside_function());
    assert!(Entity::new(name(), EntityKind::Constant, Ty::Int).can_access_outside_function());
    assert!(Entity::new(name(), EntityKind::Function, Ty::Int).can_access_outside_function());
}

#[test]
fn block_is_below_function() {
    assert!(ScopeLevel::Block < ScopeLevel::Function);
    assert!(ScopeLevel::Function.at_least(&ScopeLevel::Block));
    assert!(ScopeLevel::Function.at_least(&ScopeLevel::Function));
    assert!(ScopeLevel::Block.at_least(&ScopeLevel::Block));
    assert!(!ScopeLevel::Block.at_least(&ScopeLevel::Function));
}

#[test]
fn find_scope_by_level_takes_that_level_or_above() {
    let block = Scope::new(None, ScopeLevel::Block, AstRef::Node(1), Return::Void);
    let function = Scope::new(None, ScopeLevel::Function, AstRef::Node(2), Return::Void);
    assert!(FindScope::ByLevel(ScopeLevel::Block).matches(&block));
    assert!(FindScope::ByLevel(ScopeLevel::Block).matches(&function));
    assert!(!FindScope::ByLevel(ScopeLevel::Function).matches(&block));
    assert!(FindScope::ByLevel(ScopeLevel::Function).matches(&function));
}

#[test]
fn find_scope_by_decl_takes_that_declaration() {
    let scope = Scope::new(None, ScopeLevel::Block, AstRef::Node(1), Return::Explicit(Ty::Int));
    assert!(FindScope::ByDecl(AstRef::Node(1)).matches(&scope));
    assert!(!FindScope::ByDecl(AstRef::Node(2)).matches(&scope));
    assert!(!FindScope::ByDecl(AstRef::Builtin).matches(&scope));
    assert_eq!(scope.decl(), AstRef::Node(1));
}

#[test]
fn find_scope_topmost_takes_any() {
    let scope = Scope::new(None, ScopeLevel::Block, AstRef::Builtin, Return::Void);
    assert!(FindScope::TopMost.matches(&scope));
}

#[test]
fn the_top_scope_is_a_builtin_block() {
    let top = Scope::new_top();
    assert_eq!(top.decl(), AstRef::Builtin);
    assert_eq!(top.level, ScopeLevel::Block);
    assert_eq!(top.parent, None);
    assert_eq!(top.return_type, Return::Void);
    assert!(top.children.is_empty());
}

#[test]
fn option_keeps_only_what_is_usable() {
    assert_eq!(FoundItem::Found(3).option(), Some(3));
    assert_eq!(FoundItem::NotAvailable(3).option(), None);
    assert_eq!(FoundItem::<u8>::Missing.option(), None);
}
