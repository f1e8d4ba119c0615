use coherency::entity::{Entity, EntityKind, Op};
use coherency::logging::{Level, Logger, Message};
use coherency::path::{FullPath, Path};
use coherency::scope::{FoundItem, Return, ScopeLevel};
use coherency::span::Span;
use coherency::ty::{AstRef, Ty};
use coherency::visitor::{CoherencyVisitor, ScopeError};

fn fresh() -> CoherencyVisitor {
    CoherencyVisitor::new(Logger::new())
}

fn enter(v: &mut CoherencyVisitor, level: ScopeLevel, node: u64) -> usize {
    let mut id = None;
    let r = v.enter_scope(&mut id, || (level, AstRef::Node(node), Return::Void));
    assert_eq!(r, Ok(()));
    id.unwrap()
}

fn binop_path(lhs: Ty, op: Op, rhs: Ty) -> Path {
    Path::new(vec![lhs.name(), rhs.name(), op.symbol()])
}

fn check_row(lhs: Ty, op: Op, rhs: Ty, ret: Ty) {
    let v = fresh();
    match v.find_entity(binop_path(lhs, op, rhs)) {
        FoundItem::Found(e) => {
            assert_eq!(e.kind, EntityKind::BinOp { lhs, op, rhs });
            assert_eq!(e.ty, ret);
            assert!(e.can_access_outside_function());
        }
        _ => panic!("operator not found"),
    }
}

#[test]
fn the_five_primitives_are_found_from_the_root() {
    let v = fresh();
    for (name, ty) in [
        ("Void", Ty::Void),
        ("Bool", Ty::Bool),
        ("Int", Ty::Int),
        ("Float", Ty::Float),
        ("String", Ty::String),
    ] {
        assert!(matches!(v.find_ty(Path::single(name)), FoundItem::Found(t) if *t == ty));
    }
}

#[test]
fn other_type_names_are_missing() {
    let v = fresh();
    for name in ["int", "Integer", "Char", "", "<invalid>", "<declared>", "Int "] {
        assert!(matches!(v.find_ty(Path::single(name)), FoundItem::Missing));
    }
    let long = Path::new(vec!["std".to_string(), "Int".to_string()]);
    assert!(matches!(v.find_ty(long), FoundItem::Missing));
}

#[test]
fn void_operators() {
    check_row(Ty::Void, Op::Eq, Ty::Void, Ty::Bool);
}

#[test]
fn int_operators() {
    for op in [Op::Add, Op::Sub, Op::Div, Op::Mul, Op::Mod] {
        check_row(Ty::Int, op, Ty::Int, Ty::Int);
    }
    for op in [Op::Eq, Op::Gtr, Op::Lss] {
        check_row(Ty::Int, op, Ty::Int, Ty::Bool);
    }
}

#[test]
fn float_operators() {
    for op in [Op::Add, Op::Sub, Op::Div, Op::Mul, Op::Mod] {
        check_row(Ty::Float, op, Ty::Float, Ty::Float);
    }
    for op in [Op::Eq, Op::Gtr, Op::Lss] {
        check_row(Ty::Float, op, Ty::Float, Ty::Bool);
    }
}

#[test]
fn string_operators() {
    check_row(Ty::String, Op::Eq, Ty::String, Ty::Bool);
    check_row(Ty::String, Op::Add, Ty::String, Ty::String);
    check_row(Ty::String, Op::Mul, Ty::Int, Ty::String);
}

#[test]
fn bool_operators() {
    check_row(Ty::Bool, Op::Eq, Ty::Bool, Ty::Bool);
    check_row(Ty::Bool, Op::And, Ty::Bool, Ty::Bool);
    check_row(Ty::Bool, Op::Or, Ty::Bool, Ty::Bool);
}

#[test]
fn the_operator_table_holds_nothing_else() {
    let v = fresh();
    let types = [Ty::Void, Ty::Bool, Ty::Int, Ty::Float, Ty::String];
    let ops = [
        Op::Add, Op::Sub, Op::Mul, Op::Div, Op::Mod, Op::Eq, Op::Neq, Op::Lss, Op::Leq, Op::Gtr,
        Op::Geq, Op::And, Op::Or,
    ];
    let mut found = 0;
    for lhs in types {
        for rhs in types {
            for op in ops {
                if let FoundItem::Found(_) = v.find_entity(binop_path(lhs, op, rhs)) {
                    found += 1;
                }
            }
        }
    }
    assert_eq!(found, 23);
    assert!(matches!(v.find_entity(binop_path(Ty::Int, Op::And, Ty::Int)), FoundItem::Missing));
    assert!(matches!(v.find_entity(binop_path(Ty::Int, Op::Mul, Ty::String)), FoundItem::Missing));
    assert!(matches!(v.find_entity(binop_path(Ty::Bool, Op::Neq, Ty::Bool)), FoundItem::Missing));
}

#[test]
fn an_unknown_entity_is_missing() {
    let v = fresh();
    assert!(matches!(v.find_entity(Path::single("x")), FoundItem::Missing));
}

#[test]
fn a_variable_is_not_available_across_a_function() {
    let mut v = fresh();
    enter(&mut v, ScopeLevel::Block, 1);
    v.declare_entity(Entity::new(FullPath::single("x"), EntityKind::Variable, Ty::Int));
    enter(&mut v, ScopeLevel::Function, 2);
    enter(&mut v, ScopeLevel::Block, 3);
    assert!(matches!(
        v.find_entity(Path::single("x")),
        FoundItem::NotAvailable(e) if e.ty == Ty::Int && e.kind == EntityKind::Variable
    ));
}

#[test]
fn a_constant_is_found_across_a_function() {
    let mut v = fresh();
    enter(&mut v, ScopeLevel::Block, 1);
    v.declare_entity(Entity::new(FullPath::single("c"), EntityKind::Constant, Ty::Float));
    v.declare_entity(Entity::new(FullPath::single("f"), EntityKind::Function, Ty::Void));
    enter(&mut v, ScopeLevel::Function, 2);
    enter(&mut v, ScopeLevel::Block, 3);
    assert!(matches!(v.find_entity(Path::single("c")), FoundItem::Found(e) if e.ty == Ty::Float));
    assert!(matches!(v.find_entity(Path::single("f")), FoundItem::Found(e) if e.ty == Ty::Void));
}

#[test]
fn a_variable_is_found_inside_the_function_that_declares_it() {
    let mut v = fresh();
    enter(&mut v, ScopeLevel::Function, 1);
    v.declare_entity(Entity::new(FullPath::single("x"), EntityKind::Variable, Ty::Int));
    assert!(matches!(v.find_entity(Path::single("x")), FoundItem::Found(_)));
    enter(&mut v, ScopeLevel::Block, 2);
    assert!(matches!(v.find_entity(Path::single("x")), FoundItem::Found(_)));
    enter(&mut v, ScopeLevel::Block, 3);
    assert!(matches!(v.find_entity(Path::single("x")), FoundItem::Found(_)));
}

#[test]
fn a_function_scope_closes_off_what_lies_outside_it() {
    let mut v = fresh();
    v.declare_entity(Entity::new(FullPath::single("x"), EntityKind::Variable, Ty::Int));
    assert!(matches!(v.find_entity(Path::single("x")), FoundItem::Found(_)));
    enter(&mut v, ScopeLevel::Block, 1);
    assert!(matches!(v.find_entity(Path::single("x")), FoundItem::Found(_)));
    enter(&mut v, ScopeLevel::Function, 2);
    assert!(matches!(v.find_entity(Path::single("x")), FoundItem::NotAvailable(_)));
}

#[test]
fn the_innermost_declaration_wins() {
    let mut v = fresh();
    v.declare_entity(Entity::new(FullPath::single("x"), EntityKind::Constant, Ty::Int));
    enter(&mut v, ScopeLevel::Function, 1);
    v.declare_entity(Entity::new(FullPath::single("x"), EntityKind::Variable, Ty::Bool));
    assert!(matches!(v.find_entity(Path::single("x")), FoundItem::Found(e) if e.ty == Ty::Bool));
    assert_eq!(v.leave_scope(), Ok(()));
    assert!(matches!(v.find_entity(Path::single("x")), FoundItem::Found(e) if e.ty == Ty::Int));
}

#[test]
fn operators_are_found_across_functions() {
    let mut v = fresh();
    enter(&mut v, ScopeLevel::Function, 1);
    enter(&mut v, ScopeLevel::Function, 2);
    assert!(matches!(
        v.find_entity(binop_path(Ty::Int, Op::Add, Ty::Int)),
        FoundItem::Found(e) if e.ty == Ty::Int
    ));
}

#[test]
fn types_are_found_across_functions() {
    let mut v = fresh();
    enter(&mut v, ScopeLevel::Block, 1);
    let point = Ty::Declared(AstRef::Node(9));
    v.declare_ty(FullPath::new(vec!["geo".to_string(), "Point".to_string()]), point);
    enter(&mut v, ScopeLevel::Function, 2);
    enter(&mut v, ScopeLevel::Block, 3);
    assert!(matches!(v.find_ty(Path::single("Point")), FoundItem::Found(t) if *t == point));
    assert!(matches!(v.find_ty(Path::single("Int")), FoundItem::Found(t) if *t == Ty::Int));
    assert!(matches!(v.find_ty(Path::single("Line")), FoundItem::Missing));
}

#[test]
fn enter_then_leave_restores_the_active_scope() {
    let mut v = fresh();
    let before = v.current_scope();
    let inner = enter(&mut v, ScopeLevel::Block, 1);
    assert_eq!(v.current_scope(), inner);
    assert_ne!(inner, before);
    assert_eq!(v.leave_scope(), Ok(()));
    assert_eq!(v.current_scope(), before);
}

#[test]
fn nested_scopes_are_left_in_reverse_order() {
    let mut v = fresh();
    let root = v.current_scope();
    let first = enter(&mut v, ScopeLevel::Function, 1);
    let second = enter(&mut v, ScopeLevel::Block, 2);
    assert_eq!(v.current_scope(), second);
    assert_eq!(v.leave_scope(), Ok(()));
    assert_eq!(v.current_scope(), first);
    assert_eq!(v.leave_scope(), Ok(()));
    assert_eq!(v.current_scope(), root);
}

#[test]
fn a_new_scope_is_a_child_of_the_active_one() {
    let mut v = fresh();
    let a = enter(&mut v, ScopeLevel::Function, 11);
    let b = enter(&mut v, ScopeLevel::Block, 12);
    let scope = v.scope(b).unwrap();
    assert_eq!(scope.parent, Some(a));
    assert_eq!(scope.level, ScopeLevel::Block);
    assert_eq!(scope.decl(), AstRef::Node(12));
    assert_eq!(v.scope(a).unwrap().children, vec![b]);
    assert_eq!(v.scope(0).unwrap().children, vec![a]);
    assert!(v.scope(b + 1).is_none());
}

#[test]
fn entering_a_known_scope_builds_nothing() {
    let mut v = fresh();
    let first = enter(&mut v, ScopeLevel::Function, 1);
    assert_eq!(v.leave_scope(), Ok(()));
    let mut id = Some(first);
    let r = v.enter_scope(&mut id, || panic!("the scope is there already"));
    assert_eq!(r, Ok(()));
    assert_eq!(id, Some(first));
    assert_eq!(v.current_scope(), first);
    assert!(v.scope(first + 1).is_none());
    assert_eq!(v.leave_scope(), Ok(()));
    assert_eq!(v.current_scope(), 0);
}

#[test]
fn entering_a_scope_that_is_not_there_fails() {
    let mut v = fresh();
    let mut id = Some(5);
    let r = v.enter_scope(&mut id, || (ScopeLevel::Block, AstRef::Builtin, Return::Void));
    assert_eq!(r, Err(ScopeError::UnknownScope));
    assert_eq!(v.current_scope(), 0);
}

#[test]
fn leaving_the_root_fails() {
    let mut v = fresh();
    assert_eq!(v.leave_scope(), Err(ScopeError::LeaveRoot));
    assert_eq!(v.current_scope(), 0);
    enter(&mut v, ScopeLevel::Block, 1);
    assert_eq!(v.leave_scope(), Ok(()));
    assert_eq!(v.leave_scope(), Err(ScopeError::LeaveRoot));
}

#[test]
fn expect_eq_reports_a_mismatch_once() {
    let mut v = fresh();
    let span = Span::new(2, 10, 14);
    let ty = v.expect_eq(Ty::Int, Ty::Bool, &span);
    assert_eq!(ty, Ty::Bool);
    assert_eq!(v.logger().len(), 1);
    let msg = v.logger().get(0).unwrap();
    assert_eq!(msg.level, Level::Error);
    assert_eq!(msg.text, "Expected type Bool, got type Int");
    assert_eq!(msg.span, span);
}

#[test]
fn expect_eq_is_silent_on_a_match() {
    let mut v = fresh();
    let ty = v.expect_eq(Ty::Int, Ty::Int, &Span::builtin());
    assert_eq!(ty, Ty::Int);
    assert_eq!(v.logger().len(), 0);
}

#[test]
fn expect_eq_falls_back_on_the_actual_type() {
    let mut v = fresh();
    assert_eq!(v.expect_eq(Ty::Float, Ty::Invalid, &Span::builtin()), Ty::Float);
    assert_eq!(v.expect_eq(Ty::Invalid, Ty::String, &Span::builtin()), Ty::String);
    assert_eq!(v.logger().len(), 0);
}

#[test]
fn messages_keep_their_order() {
    let mut v = fresh();
    let span = Span::new(1, 0, 1);
    v.emit_msg(Message::from_span(Level::Info, "first".to_string(), &span));
    v.expect_eq(Ty::String, Ty::Void, &span);
    v.emit_msg(Message::from_span(Level::Warning, "last".to_string(), &span));
    let msgs = v.take_messages();
    assert_eq!(msgs.len(), 3);
    assert_eq!(msgs[0].text, "first");
    assert_eq!(msgs[0].level, Level::Info);
    assert_eq!(msgs[1].text, "Expected type Void, got type String");
    assert_eq!(msgs[2].text, "last");
    assert_eq!(msgs[2].level, Level::Warning);
    assert_eq!(v.logger().len(), 0);
}

#[test]
fn set_logger_puts_another_sink_in_place() {
    let mut v = fresh();
    v.emit_msg(Message::from_span(Level::Info, "old".to_string(), &Span::builtin()));
    let mut other = Logger::new();
    other.log_msg(Message::from_span(Level::Error, "kept".to_string(), &Span::builtin()));
    v.set_logger(other);
    assert_eq!(v.logger().len(), 1);
    assert_eq!(v.logger().get(0).unwrap().text, "kept");
    assert!(v.logger().get(1).is_none());
}

#[test]
fn a_partial_path_finds_a_qualified_entity() {
    let mut v = fresh();
    let name = FullPath::new(vec!["math".to_string(), "pi".to_string()]);
    v.declare_entity(Entity::new(name, EntityKind::Constant, Ty::Float));
    assert!(matches!(v.find_entity(Path::single("pi")), FoundItem::Found(e) if e.ty == Ty::Float));
    let qualified = Path::new(vec!["math".to_string(), "pi".to_string()]);
    assert!(matches!(v.find_entity(qualified), FoundItem::Found(_)));
    assert!(matches!(v.find_entity(Path::single("math")), FoundItem::Missing));
}

#[test]
fn the_empty_path_finds_some_primitive() {
    let v = fresh();
    assert!(matches!(v.find_ty(Path::new(vec![])), FoundItem::Found(_)));
}
