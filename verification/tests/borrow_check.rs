use riven::borrow_check::borrows::{BorrowKind, BorrowSet};
use riven::borrow_check::errors::{BorrowError, ErrorCode, SpanLabel};
use riven::borrow_check::lifetimes::{LifetimeChecker, LifetimeErrorKind, SelfRefMode};
use riven::borrow_check::moves::MoveChecker;
use riven::borrow_check::ownership::{BindingState, OwnershipState};
use riven::borrow_check::regions::{ScopeId, ScopeKind, ScopeStack};
use riven::hir::types::Ty;
use riven::lexer::token::Span;

fn span(line: u32, col: u32) -> Span {
    Span::new(0, 1, line, col)
}

#[test]
fn create_shared_borrow() {
    let mut set = BorrowSet::new();
    let scope = ScopeId(0);
    let id = set.create(BorrowKind::Shared, 10, 20, span(1, 1), scope);
    let active = set.active_borrows_of(10);
    assert_eq!(active.len(), 1);
    assert_eq!(active[0].id, id);
    assert_eq!(active[0].kind, BorrowKind::Shared);
}

#[test]
fn multiple_shared_borrows_allowed() {
    let mut set = BorrowSet::new();
    let scope = ScopeId(0);
    set.create(BorrowKind::Shared, 10, 20, span(1, 1), scope);
    set.create(BorrowKind::Shared, 10, 21, span(2, 1), scope);
    assert!(set.check_new_borrow(BorrowKind::Shared, 10).is_ok());
}

#[test]
fn mutable_borrow_conflicts_with_shared() {
    let mut set = BorrowSet::new();
    let scope = ScopeId(0);
    set.create(BorrowKind::Shared, 10, 20, span(1, 1), scope);
    let result = set.check_new_borrow(BorrowKind::Mutable, 10);
    assert!(result.is_err());
}

#[test]
fn shared_borrow_conflicts_with_mutable() {
    let mut set = BorrowSet::new();
    let scope = ScopeId(0);
    set.create(BorrowKind::Mutable, 10, 20, span(1, 1), scope);
    let result = set.check_new_borrow(BorrowKind::Shared, 10);
    assert!(result.is_err());
}

#[test]
fn double_mutable_borrow_conflicts() {
    let mut set = BorrowSet::new();
    let scope = ScopeId(0);
    set.create(BorrowKind::Mutable, 10, 20, span(1, 1), scope);
    let result = set.check_new_borrow(BorrowKind::Mutable, 10);
    assert!(result.is_err());
}

#[test]
fn move_conflicts_with_active_borrow() {
    let mut set = BorrowSet::new();
    let scope = ScopeId(0);
    set.create(BorrowKind::Shared, 10, 20, span(1, 1), scope);
    let result = set.check_move(10);
    assert!(result.is_err());
}

#[test]
fn kill_scope_removes_borrows() {
    let mut set = BorrowSet::new();
    let scope = ScopeId(0);
    set.create(BorrowKind::Shared, 10, 20, span(1, 1), scope);
    set.kill_scope(scope);
    assert!(set.active_borrows_of(10).is_empty());
}

#[test]
fn nll_expire_dead_borrows() {
    let mut set = BorrowSet::new();
    let scope = ScopeId(0);
    let id = set.create(BorrowKind::Shared, 10, 20, span(1, 1), scope);
    set.record_use(id, span(3, 1));
    set.expire_before(Span::new(50, 51, 5, 1));
    assert!(set.active_borrows_of(10).is_empty());
}

#[test]
fn nll_borrow_alive_before_last_use() {
    let mut set = BorrowSet::new();
    let scope = ScopeId(0);
    let id = set.create(BorrowKind::Shared, 10, 20, Span::new(0, 1, 1, 1), scope);
    set.record_use(id, Span::new(50, 55, 5, 1));
    set.expire_before(Span::new(30, 31, 3, 1));
    assert_eq!(set.active_borrows_of(10).len(), 1);
}

#[test]
fn use_after_move_display() {
    let err = BorrowError {
        code: ErrorCode::E1001,
        primary: SpanLabel { span: Span::new(100, 104, 8, 11), label: "used here, but it's already gone".into() },
        secondary: vec![
            SpanLabel { span: Span::new(50, 54, 6, 5), label: "value created here".into() },
            SpanLabel { span: Span::new(70, 74, 7, 11), label: "value given to `consume()` here".into() },
        ],
        help: vec!["pass a borrow instead: `consume(&data)`".into(), "or clone: `consume(data.clone)`".into()],
    };
    let rendered = err.to_string();
    assert!(rendered.contains("E1001"));
    assert!(rendered.contains("value used after move"));
    assert!(rendered.contains("used here, but it's already gone"));
    assert!(rendered.contains("help: pass a borrow instead"));
}

#[test]
fn all_error_codes_have_titles() {
    let codes = [
        ErrorCode::E1001, ErrorCode::E1002, ErrorCode::E1003,
        ErrorCode::E1004, ErrorCode::E1005, ErrorCode::E1006,
        ErrorCode::E1007, ErrorCode::E1008, ErrorCode::E1009,
        ErrorCode::E1010,
    ];
    for code in &codes {
        let title = code.title();
        assert!(!title.is_empty(), "{:?} has no title", code);
    }
}

#[test]
fn elision_rule_2_single_input_ref() {
    let params = vec![Ty::Ref(Box::new(Ty::String))];
    let ret = Ty::Ref(Box::new(Ty::Str));
    let result = LifetimeChecker::check_elision(&params, &ret, None);
    assert!(result.is_ok(), "single ref input → output inherits its lifetime");
}

#[test]
fn elision_rule_3_method_self_ref() {
    let params = vec![];
    let ret = Ty::Ref(Box::new(Ty::String));
    let self_mode = Some(SelfRefMode::Shared);
    let result = LifetimeChecker::check_elision(&params, &ret, self_mode);
    assert!(result.is_ok(), "&self method → output gets self's lifetime");
}

#[test]
fn elision_fails_ambiguous_two_refs() {
    let params = vec![Ty::Ref(Box::new(Ty::String)), Ty::Ref(Box::new(Ty::String))];
    let ret = Ty::Ref(Box::new(Ty::String));
    let result = LifetimeChecker::check_elision(&params, &ret, None);
    assert!(result.is_err(), "ambiguous lifetimes should require annotation");
}

#[test]
fn no_ref_output_always_ok() {
    let params = vec![Ty::Ref(Box::new(Ty::String)), Ty::Ref(Box::new(Ty::String))];
    let ret = Ty::Int;
    let result = LifetimeChecker::check_elision(&params, &ret, None);
    assert!(result.is_ok(), "non-ref return type never needs lifetime annotation");
}

#[test]
fn return_ref_to_local_detected() {
    let checker = LifetimeChecker::new();
    let func_scope = ScopeId(0);
    let local_scope = ScopeId(1);
    let result = checker.check_return_ref(42, local_scope, func_scope, span(1, 1));
    assert!(result.is_err(), "returning reference to local should fail");
}

#[test]
fn copy_type_does_not_move() {
    let mut checker = MoveChecker::new();
    checker.declare(10, Ty::Int, span(1, 1));
    let result = checker.check_use(10, span(3, 1));
    assert!(result.is_ok());
    checker.process_transfer(10, Some(20), &Ty::Int, span(2, 1));
    let result = checker.check_use(10, span(3, 1));
    assert!(result.is_ok(), "Copy type should still be usable after transfer");
}

#[test]
fn move_type_invalidates_source() {
    let mut checker = MoveChecker::new();
    checker.declare(10, Ty::String, span(1, 1));
    checker.process_transfer(10, Some(20), &Ty::String, span(2, 1));
    let result = checker.check_use(10, span(3, 1));
    assert!(result.is_err(), "Move type should be invalid after transfer");
}

#[test]
fn use_after_move_returns_error_info() {
    let mut checker = MoveChecker::new();
    checker.declare(10, Ty::String, span(1, 1));
    checker.process_transfer(10, None, &Ty::String, span(5, 1));
    let err = checker.check_use(10, span(8, 1)).unwrap_err();
    assert_eq!(err.move_span.line, 5);
    assert_eq!(err.use_span.line, 8);
}

#[test]
fn branch_merge_conservative() {
    let mut checker = MoveChecker::new();
    checker.declare(10, Ty::String, span(1, 1));
    let snap = checker.snapshot();
    checker.process_transfer(10, None, &Ty::String, span(3, 1));
    let branch_a = checker.clone();
    checker.restore(&snap);
    let branch_b = checker.clone();
    checker.merge(vec![branch_a, branch_b]);
    let result = checker.check_use(10, span(10, 1));
    assert!(result.is_err(), "moved on any branch → invalid after merge");
}

#[test]
fn reinitialize_after_move() {
    let mut checker = MoveChecker::new();
    checker.declare(10, Ty::String, span(1, 1));
    checker.process_transfer(10, None, &Ty::String, span(2, 1));
    assert!(checker.check_use(10, span(3, 1)).is_err());
    checker.reinitialize(10, span(4, 1));
    assert!(checker.check_use(10, span(5, 1)).is_ok());
}

fn one_span() -> Span {
    Span::new(0, 1, 1, 1)
}

#[test]
fn new_binding_is_owned() {
    let mut state = OwnershipState::new();
    state.declare(10);
    assert!(state.is_owned(10));
    assert!(!state.is_moved(10));
}

#[test]
fn move_invalidates_source() {
    let mut state = OwnershipState::new();
    state.declare(10);
    state.record_move(10, 20, one_span());
    assert!(state.is_moved(10));
    assert!(!state.is_owned(10));
}

#[test]
fn move_into_call_invalidates() {
    let mut state = OwnershipState::new();
    state.declare(10);
    state.record_move_into_call(10, "consume".into(), one_span());
    assert!(state.is_moved(10));
}

#[test]
fn uninitialized_is_not_owned() {
    let mut state = OwnershipState::new();
    state.declare_uninitialized(10);
    assert!(!state.is_owned(10));
    assert!(!state.is_moved(10));
}

#[test]
fn snapshot_and_merge_conservative() {
    let mut state = OwnershipState::new();
    state.declare(10);
    state.declare(20);
    let snapshot = state.snapshot();
    state.record_move(10, 30, one_span());
    let branch_a = state.clone();
    let branch_b = snapshot.clone();
    state = OwnershipState::merge(vec![branch_a, branch_b]);
    assert!(state.is_moved(10), "moved on any branch → moved after merge");
    assert!(state.is_owned(20), "untouched → still owned");
}

#[test]
fn move_info_preserved() {
    let mut state = OwnershipState::new();
    state.declare(10);
    let s = Span::new(50, 55, 7, 3);
    state.record_move_into_call(10, "process".into(), s);
    let info = state.move_info(10);
    assert!(info.is_some());
    let (callee, move_span) = info.unwrap();
    assert_eq!(callee, "process");
    assert_eq!(move_span.line, 7);
}

#[test]
fn push_and_pop_scope() {
    let mut stack = ScopeStack::new();
    let root = stack.push(ScopeKind::Function);
    assert_eq!(stack.current(), root);
    let inner = stack.push(ScopeKind::Block);
    assert_eq!(stack.current(), inner);
    assert_eq!(stack.parent_of(inner), Some(root));
    stack.pop();
    assert_eq!(stack.current(), root);
}

#[test]
fn scope_contains_checks_ancestry() {
    let mut stack = ScopeStack::new();
    let outer = stack.push(ScopeKind::Function);
    let middle = stack.push(ScopeKind::Block);
    let inner = stack.push(ScopeKind::Block);
    assert!(stack.scope_contains(outer, inner));
    assert!(stack.scope_contains(outer, middle));
    assert!(stack.scope_contains(middle, inner));
    assert!(!stack.scope_contains(inner, outer));
}

#[test]
fn register_binding_in_scope() {
    let mut stack = ScopeStack::new();
    let scope = stack.push(ScopeKind::Function);
    stack.register_binding(42);
    let bindings = stack.bindings_in(scope);
    assert_eq!(bindings, &[42]);
}

#[test]
fn bindings_dropped_in_reverse_order() {
    let mut stack = ScopeStack::new();
    let _scope = stack.push(ScopeKind::Function);
    stack.register_binding(1);
    stack.register_binding(2);
    stack.register_binding(3);
    let drop_order = stack.drop_order_for_current();
    assert_eq!(drop_order, vec![3, 2, 1]);
}

// Own tests.

#[test]
fn conflict_reports_first_blocking_borrow() {
    let mut set = BorrowSet::new();
    set.create(BorrowKind::Shared, 10, 20, span(1, 1), ScopeId(0));
    let m = set.create(BorrowKind::Mutable, 10, 21, span(2, 1), ScopeId(0));
    let conflict = set.check_new_borrow(BorrowKind::Shared, 10).unwrap_err();
    assert_eq!(conflict.existing.id, m);
    assert_eq!(conflict.new_kind, BorrowKind::Shared);
    let mv = set.check_mutation(10).unwrap_err();
    assert_eq!(mv.new_kind, BorrowKind::Mutable);
    assert!(set.check_move(11).is_ok());
}

#[test]
fn checkpoint_and_snapshot_restore() {
    let mut set = BorrowSet::new();
    set.create(BorrowKind::Shared, 1, 2, span(1, 1), ScopeId(0));
    let cp = set.checkpoint();
    assert_eq!(cp, 1);
    set.create(BorrowKind::Mutable, 1, 3, span(2, 1), ScopeId(1));
    let snap = set.snapshot();
    set.kill_after_checkpoint(cp);
    assert_eq!(set.active_borrows_of(1).len(), 1);
    assert_eq!(set.borrows_held_by(3).len(), 0);
    set.restore(&snap);
    assert_eq!(set.active_borrows_of(1).len(), 2);
    let next = set.create(BorrowKind::Shared, 5, 6, span(3, 1), ScopeId(0));
    assert_eq!(next.0, 2);
}

#[test]
fn lifetime_checks_on_values() {
    let checker = LifetimeChecker::default();
    assert!(checker.check_return_ref(1, ScopeId(0), ScopeId(0), span(1, 1)).is_ok());
    let e = checker.check_outlives(1, 2, ScopeId(3), ScopeId(1), span(4, 2)).unwrap_err();
    assert!(matches!(e.kind, LifetimeErrorKind::BorrowOutlivesOwner { borrow_def: 1, owner_def: 2 }));
    assert!(checker.check_outlives(1, 2, ScopeId(1), ScopeId(3), span(4, 2)).is_ok());
    let e = LifetimeChecker::check_elision(&[Ty::Int], &Ty::Str, None).unwrap_err();
    assert_eq!(e.kind.input_count(), 0);
    let params = vec![Ty::Tuple(vec![Ty::Int, Ty::Ref(Box::new(Ty::Int))]), Ty::Option(Box::new(Ty::Str)), Ty::Int];
    let e = LifetimeChecker::check_elision(&params, &Ty::Vec(Box::new(Ty::Str)), None).unwrap_err();
    assert_eq!(e.kind.input_count(), 2);
}

#[test]
fn partial_moves_accumulate_and_merge() {
    let mut a = OwnershipState::new();
    a.declare(1);
    a.record_partial_move(1, "x".into());
    a.record_partial_move(1, "x".into());
    a.record_partial_move(1, "y".into());
    assert!(a.is_partially_moved(1));
    match a.state_of(1) {
        Some(BindingState::PartiallyMoved { moved_fields }) => assert_eq!(moved_fields, &vec!["x".to_string(), "y".to_string()]),
        _ => panic!("expected a partial move"),
    }
    let mut b = OwnershipState::new();
    b.declare(1);
    b.record_partial_move(1, "z".into());
    b.record_partial_move(1, "x".into());
    let merged = OwnershipState::merge(vec![a, b]);
    match merged.state_of(1) {
        Some(BindingState::PartiallyMoved { moved_fields }) => {
            assert_eq!(moved_fields, &vec!["x".to_string(), "y".to_string(), "z".to_string()])
        },
        _ => panic!("expected a partial move"),
    }
    assert!(OwnershipState::merge(vec![]).state_of(1).is_none());
    let mut c = OwnershipState::new();
    c.record_move(5, 9, one_span());
    assert_eq!(c.move_info(5).unwrap().0, "variable 9");
    c.reinitialize(5);
    assert!(c.is_owned(5) && c.move_info(5).is_none());
}

#[test]
fn scope_queries_on_values() {
    let mut stack = ScopeStack::new();
    let f = stack.push(ScopeKind::Function);
    assert!(!stack.is_in_loop());
    let _l = stack.push(ScopeKind::Loop);
    let _b = stack.push(ScopeKind::Block);
    assert!(stack.is_in_loop());
    assert_eq!(stack.enclosing_function(), Some(f));
    assert_eq!(stack.current_kind(), ScopeKind::Block);
    stack.pop();
    stack.pop();
    assert!(!stack.is_in_loop());
    let empty = ScopeStack::new();
    assert_eq!(empty.enclosing_function(), None);
}

#[test]
fn move_checker_queries() {
    let mut checker = MoveChecker::new();
    checker.declare(3, Ty::Vec(Box::new(Ty::Int)), span(1, 1));
    assert!(checker.is_live(3));
    assert!(checker.is_live(99));
    checker.process_call_move(3, "take".into(), &Ty::Vec(Box::new(Ty::Int)), span(2, 4));
    assert!(!checker.is_live(3));
    let err = checker.check_use(3, span(3, 1)).unwrap_err();
    assert_eq!(err.callee, Some("take".to_string()));
    assert_eq!(err.declared_span.line, 1);
    assert_eq!(checker.binding_ty(3).unwrap().display_name(), "Vec[Int]");
    assert!(checker.binding_ty(4).is_none());
}

#[test]
fn borrow_error_rendering_exact() {
    let err = BorrowError {
        code: ErrorCode::E1009,
        primary: SpanLabel { span: Span::new(0, 1, 2, 3), label: "moved here".into() },
        secondary: vec![],
        help: vec!["clone it".into()],
    };
    assert_eq!(
        err.to_string(),
        "error[E1009]: cannot move value — currently borrowed\n  --> 2:3\n   | 2:3 — moved here\n   = help: clone it\n"
    );
    assert_eq!(ErrorCode::E1010.code_str(), "E1010");
}

#[test]
fn full_move_on_one_branch_wins_over_partial_move_on_another() {
    let mut a = OwnershipState::new();
    a.declare(10);
    a.record_partial_move(10, "x".into());
    let mut b = OwnershipState::new();
    b.declare(10);
    b.record_move(10, 20, Span::new(0, 1, 1, 1));
    let merged = OwnershipState::merge(vec![a, b]);
    assert!(merged.is_moved(10));
    let mut c = OwnershipState::new();
    c.declare(10);
    c.record_move(10, 20, Span::new(0, 1, 1, 1));
    let mut d = OwnershipState::new();
    d.declare(10);
    d.record_partial_move(10, "x".into());
    assert!(OwnershipState::merge(vec![c, d]).is_moved(10));
}

#[test]
fn a_scope_contains_itself_even_unregistered() {
    let stack = ScopeStack::new();
    assert!(stack.scope_contains(ScopeId(99), ScopeId(99)));
}

#[test]
fn returned_borrow_fields_can_be_read() {
    let mut set = BorrowSet::new();
    let id = set.create(BorrowKind::Mutable, 10, 20, span(1, 1), ScopeId(0));
    let active = set.active_borrows_of(10);
    let f = active[0].fields();
    assert_eq!(f.id, id);
    assert_eq!(f.borrower, 20);
    assert!(f.live);
}

#[test]
fn merge_keeps_the_move_of_the_first_branch_that_moved() {
    let mut checker = MoveChecker::new();
    checker.declare(10, Ty::String, span(1, 1));
    let snap = checker.snapshot();
    let live = checker.clone();
    checker.process_transfer(10, None, &Ty::String, span(3, 1));
    let moved_at_3 = checker.clone();
    checker.restore(&snap);
    checker.process_transfer(10, None, &Ty::String, span(7, 1));
    let moved_at_7 = checker.clone();
    checker.restore(&snap);
    checker.merge(vec![live, moved_at_7, moved_at_3]);
    let err = checker.check_use(10, span(10, 1)).unwrap_err();
    assert_eq!(err.move_span.line, 7);
}

#[test]
fn created_borrow_ids_stay_fresh_across_restore() {
    let mut set = BorrowSet::new();
    let a = set.create(BorrowKind::Shared, 10, 20, span(1, 1), ScopeId(0));
    let snap = set.snapshot();
    let b = set.create(BorrowKind::Shared, 10, 21, span(2, 1), ScopeId(0));
    set.restore(&snap);
    let c = set.create(BorrowKind::Mutable, 11, 22, span(3, 1), ScopeId(0));
    assert!(a != b && b != c && a != c);
    assert_eq!(set.active_borrows_of(10).len(), 1);
    assert_eq!(set.active_borrows_of(11).len(), 1);
}
