use riven::borrow_check::borrow_check;
use riven::borrow_check::errors::ErrorCode;
use riven::hir::nodes::{HirExpr, HirExprKind, HirFuncDef, HirItem, HirPattern, HirProgram, HirStatement};
use riven::hir::types::{MoveSemantics, Ty};
use riven::lexer::token::Span;
use riven::parser::ast::Visibility;
use riven::resolve::symbols::{DefKind, SymbolTable};

fn span(line: u32, col: u32) -> Span {
    Span::new(line as usize * 10, line as usize * 10 + 5, line, col)
}

fn make_program(body_stmts: Vec<HirStatement>) -> (HirProgram, SymbolTable) {
    let symbols = SymbolTable::new();
    let func = HirFuncDef {
        def_id: 100, // use a high id to avoid collisions with test bindings
        name: "test_fn".to_string(),
        visibility: Visibility::Private,
        self_mode: None,
        is_class_method: false,
        generic_params: vec![],
        params: vec![],
        return_ty: Ty::Unit,
        body: Box::new(HirExpr {
            kind: HirExprKind::Block(body_stmts, None),
            ty: Ty::Unit,
            span: span(1, 1),
        }),
        span: span(1, 1),
    };
    let program = HirProgram {
        items: vec![HirItem::Function(func)],
        span: span(1, 1),
    };
    (program, symbols)
}

/// Test 1: Use-after-move is detected.
///
/// ```riven
/// let s = String.from("hello")   // def_id 0, Ty::String
/// let t = s                      // def_id 1, moves from 0
/// puts s                          // ERROR E1001
/// ```
#[test]
fn detects_use_after_move() {
    let stmts = vec![
        // let s = String.from("hello")
        HirStatement::Let {
            def_id: 0,
            pattern: HirPattern::Binding {
                def_id: 0,
                name: "s".to_string(),
                mutable: false,
                span: span(1, 5),
            },
            ty: Ty::String,
            value: Some(HirExpr {
                kind: HirExprKind::StringLiteral("hello".to_string()),
                ty: Ty::String,
                span: span(1, 9),
            }),
            mutable: false,
            span: span(1, 1),
        },
        // let t = s  (move)
        HirStatement::Let {
            def_id: 1,
            pattern: HirPattern::Binding {
                def_id: 1,
                name: "t".to_string(),
                mutable: false,
                span: span(2, 5),
            },
            ty: Ty::String,
            value: Some(HirExpr {
                kind: HirExprKind::VarRef(0),
                ty: Ty::String,
                span: span(2, 9),
            }),
            mutable: false,
            span: span(2, 1),
        },
        // puts s  (use after move)
        HirStatement::Expr(HirExpr {
            kind: HirExprKind::FnCall {
                callee: 99,
                callee_name: "puts".to_string(),
                args: vec![HirExpr {
                    kind: HirExprKind::VarRef(0),
                    ty: Ty::String,
                    span: span(3, 6),
                }],
            },
            ty: Ty::Unit,
            span: span(3, 1),
        }),
    ];

    let (program, mut symbols) = make_program(stmts);

    // Register variables in the symbol table so the checker can look up names
    symbols.define(
        "s".to_string(),
        DefKind::Variable {
            mutable: false,
            ty: Ty::String,
        },
        Visibility::Private,
        span(1, 5),
    ); // def_id 0
    symbols.define(
        "t".to_string(),
        DefKind::Variable {
            mutable: false,
            ty: Ty::String,
        },
        Visibility::Private,
        span(2, 5),
    ); // def_id 1

    // The function def_id must match — adjust to use the symbols table properly
    // Since symbols.define allocates sequentially starting from 0, our def_ids 0 and 1
    // are already taken. Update the function's def_id to avoid overlap.
    // Actually, it's fine — the function def_id of 100 won't collide.

    let errors = borrow_check(&program, &symbols);

    assert!(
        !errors.is_empty(),
        "expected use-after-move error, got no errors"
    );
    assert_eq!(
        errors[0].code,
        ErrorCode::E1001,
        "expected E1001 (use after move), got {:?}",
        errors[0].code
    );
}

/// Test 2: Copy types do not trigger use-after-move.
///
/// ```riven
/// let x = 42   // def_id 0, Ty::Int (Copy)
/// let y = x    // def_id 1, Copy — no move
/// puts x       // OK
/// ```
#[test]
fn copy_type_no_error() {
    let stmts = vec![
        // let x = 42
        HirStatement::Let {
            def_id: 0,
            pattern: HirPattern::Binding {
                def_id: 0,
                name: "x".to_string(),
                mutable: false,
                span: span(1, 5),
            },
            ty: Ty::Int,
            value: Some(HirExpr {
                kind: HirExprKind::IntLiteral(42),
                ty: Ty::Int,
                span: span(1, 9),
            }),
            mutable: false,
            span: span(1, 1),
        },
        // let y = x  (copy, no move)
        HirStatement::Let {
            def_id: 1,
            pattern: HirPattern::Binding {
                def_id: 1,
                name: "y".to_string(),
                mutable: false,
                span: span(2, 5),
            },
            ty: Ty::Int,
            value: Some(HirExpr {
                kind: HirExprKind::VarRef(0),
                ty: Ty::Int,
                span: span(2, 9),
            }),
            mutable: false,
            span: span(2, 1),
        },
        // puts x  (should be fine — Int is Copy)
        HirStatement::Expr(HirExpr {
            kind: HirExprKind::FnCall {
                callee: 99,
                callee_name: "puts".to_string(),
                args: vec![HirExpr {
                    kind: HirExprKind::VarRef(0),
                    ty: Ty::Int,
                    span: span(3, 6),
                }],
            },
            ty: Ty::Unit,
            span: span(3, 1),
        }),
    ];

    let (program, mut symbols) = make_program(stmts);

    symbols.define(
        "x".to_string(),
        DefKind::Variable {
            mutable: false,
            ty: Ty::Int,
        },
        Visibility::Private,
        span(1, 5),
    );
    symbols.define(
        "y".to_string(),
        DefKind::Variable {
            mutable: false,
            ty: Ty::Int,
        },
        Visibility::Private,
        span(2, 5),
    );

    let errors = borrow_check(&program, &symbols);

    assert!(
        errors.is_empty(),
        "expected no errors for copy types, got: {:?}",
        errors
    );
}

/// Test 4: Mutable borrow of immutable variable is detected (E1007).
///
/// ```riven
/// let x = 42       // def_id 0, immutable, Ty::Int
/// let r = &mut x   // ERROR E1007 — can't mut-borrow an immutable var
/// ```
#[test]
fn detects_mut_borrow_of_immutable() {
    let stmts = vec![
        // let x = 42
        HirStatement::Let {
            def_id: 0,
            pattern: HirPattern::Binding {
                def_id: 0,
                name: "x".to_string(),
                mutable: false,
                span: span(1, 5),
            },
            ty: Ty::Int,
            value: Some(HirExpr {
                kind: HirExprKind::IntLiteral(42),
                ty: Ty::Int,
                span: span(1, 9),
            }),
            mutable: false,
            span: span(1, 1),
        },
        // let r = &mut x  (mutable borrow of immutable variable)
        HirStatement::Let {
            def_id: 1,
            pattern: HirPattern::Binding {
                def_id: 1,
                name: "r".to_string(),
                mutable: false,
                span: span(2, 5),
            },
            ty: Ty::RefMut(Box::new(Ty::Int)),
            value: Some(HirExpr {
                kind: HirExprKind::Borrow {
                    mutable: true,
                    expr: Box::new(HirExpr {
                        kind: HirExprKind::VarRef(0),
                        ty: Ty::Int,
                        span: span(2, 14),
                    }),
                },
                ty: Ty::RefMut(Box::new(Ty::Int)),
                span: span(2, 9),
            }),
            mutable: false,
            span: span(2, 1),
        },
    ];

    let (program, mut symbols) = make_program(stmts);

    symbols.define(
        "x".to_string(),
        DefKind::Variable {
            mutable: false,
            ty: Ty::Int,
        },
        Visibility::Private,
        span(1, 5),
    ); // def_id 0
    symbols.define(
        "r".to_string(),
        DefKind::Variable {
            mutable: false,
            ty: Ty::RefMut(Box::new(Ty::Int)),
        },
        Visibility::Private,
        span(2, 5),
    ); // def_id 1

    let errors = borrow_check(&program, &symbols);

    assert!(
        !errors.is_empty(),
        "expected E1007 (mut borrow of immutable variable), got no errors"
    );
    assert!(
        errors.iter().any(|e| e.code == ErrorCode::E1007),
        "expected at least one E1007 error, got: {:?}",
        errors.iter().map(|e| e.code).collect::<Vec<_>>()
    );
}

/// Test 5: Move while borrowed is detected (E1009).
///
/// ```riven
/// let mut s = String.from("hello")  // def_id 0, mutable, Ty::String
/// let r = &s                         // def_id 1, shared borrow of s
/// s = String.from("world")           // ERROR E1009 — can't mutate s while borrowed
/// ```
///
/// This uses an assignment to `s` (which calls `check_mutation`) while the
/// shared borrow held by `r` is still active, triggering E1009.
#[test]
fn detects_move_while_borrowed() {
    let stmts = vec![
        // let mut s = "hello"
        HirStatement::Let {
            def_id: 0,
            pattern: HirPattern::Binding {
                def_id: 0,
                name: "s".to_string(),
                mutable: true,
                span: span(1, 9),
            },
            ty: Ty::String,
            value: Some(HirExpr {
                kind: HirExprKind::StringLiteral("hello".to_string()),
                ty: Ty::String,
                span: span(1, 13),
            }),
            mutable: true,
            span: span(1, 1),
        },
        // let r = &s  (shared borrow of s)
        HirStatement::Let {
            def_id: 1,
            pattern: HirPattern::Binding {
                def_id: 1,
                name: "r".to_string(),
                mutable: false,
                span: span(2, 5),
            },
            ty: Ty::Ref(Box::new(Ty::String)),
            value: Some(HirExpr {
                kind: HirExprKind::Borrow {
                    mutable: false,
                    expr: Box::new(HirExpr {
                        kind: HirExprKind::VarRef(0),
                        ty: Ty::String,
                        span: span(2, 10),
                    }),
                },
                ty: Ty::Ref(Box::new(Ty::String)),
                span: span(2, 9),
            }),
            mutable: false,
            span: span(2, 1),
        },
        // s = "world"  (assignment to s while r borrows it — E1009)
        HirStatement::Expr(HirExpr {
            kind: HirExprKind::Assign {
                target: Box::new(HirExpr {
                    kind: HirExprKind::VarRef(0),
                    ty: Ty::String,
                    span: span(3, 1),
                }),
                value: Box::new(HirExpr {
                    kind: HirExprKind::StringLiteral("world".to_string()),
                    ty: Ty::String,
                    span: span(3, 5),
                }),
                semantics: MoveSemantics::Move,
            },
            ty: Ty::String,
            span: span(3, 1),
        }),
        // puts r  (keeps the borrow alive through line 4)
        HirStatement::Expr(HirExpr {
            kind: HirExprKind::FnCall {
                callee: 51,
                callee_name: "puts".to_string(),
                args: vec![HirExpr {
                    kind: HirExprKind::VarRef(1),
                    ty: Ty::Ref(Box::new(Ty::String)),
                    span: span(4, 6),
                }],
            },
            ty: Ty::Unit,
            span: span(4, 1),
        }),
    ];

    let (program, mut symbols) = make_program(stmts);

    symbols.define(
        "s".to_string(),
        DefKind::Variable {
            mutable: true,
            ty: Ty::String,
        },
        Visibility::Private,
        span(1, 9),
    ); // def_id 0
    symbols.define(
        "r".to_string(),
        DefKind::Variable {
            mutable: false,
            ty: Ty::Ref(Box::new(Ty::String)),
        },
        Visibility::Private,
        span(2, 5),
    ); // def_id 1

    let errors = borrow_check(&program, &symbols);

    assert!(
        !errors.is_empty(),
        "expected E1009 (move while borrowed), got no errors"
    );
    assert!(
        errors.iter().any(|e| e.code == ErrorCode::E1009),
        "expected at least one E1009 error, got: {:?}",
        errors.iter().map(|e| e.code).collect::<Vec<_>>()
    );
}

/// Test 3: Assignment to immutable variable is detected.
///
/// ```riven
/// let x = 42   // def_id 0, mutable: false
/// x = 43       // ERROR E1006
/// ```
#[test]
fn detects_immutable_assignment() {
    let stmts = vec![
        // let x = 42
        HirStatement::Let {
            def_id: 0,
            pattern: HirPattern::Binding {
                def_id: 0,
                name: "x".to_string(),
                mutable: false,
                span: span(1, 5),
            },
            ty: Ty::Int,
            value: Some(HirExpr {
                kind: HirExprKind::IntLiteral(42),
                ty: Ty::Int,
                span: span(1, 9),
            }),
            mutable: false,
            span: span(1, 1),
        },
        // x = 43  (assign to immutable)
        HirStatement::Expr(HirExpr {
            kind: HirExprKind::Assign {
                target: Box::new(HirExpr {
                    kind: HirExprKind::VarRef(0),
                    ty: Ty::Int,
                    span: span(2, 1),
                }),
                value: Box::new(HirExpr {
                    kind: HirExprKind::IntLiteral(43),
                    ty: Ty::Int,
                    span: span(2, 5),
                }),
                semantics: MoveSemantics::Copy,
            },
            ty: Ty::Int,
            span: span(2, 1),
        }),
    ];

    let (program, mut symbols) = make_program(stmts);

    symbols.define(
        "x".to_string(),
        DefKind::Variable {
            mutable: false,
            ty: Ty::Int,
        },
        Visibility::Private,
        span(1, 5),
    );

    let errors = borrow_check(&program, &symbols);

    assert!(
        !errors.is_empty(),
        "expected immutable assignment error, got no errors"
    );
    assert_eq!(
        errors[0].code,
        ErrorCode::E1006,
        "expected E1006 (assign to immutable), got {:?}",
        errors[0].code
    );
}

/// Test 6: Mutable + immutable borrow conflict is detected (E1002).
///
/// ```riven
/// let mut v = vec![1, 2, 3]  // def_id 0, mutable, Vec[Int]
/// let r = &v                  // def_id 1, creates shared borrow of v
/// v.push(4)                   // needs &mut v — ERROR E1002 (shared borrow still active)
/// puts r                      // shared borrow is still used here (after push attempt)
/// ```
///
/// The borrow of `v` is alive when the mutable borrow is attempted at line 3,
/// because `r` is used at line 4 (after the push). The `v.push(4)` call is modelled
/// with the receiver as `Borrow { mutable: true, VarRef(0) }`, which goes through
/// `check_borrow` and detects the conflict with the active shared borrow.
#[test]
fn detects_mut_immut_borrow_conflict() {
    let vec_ty = Ty::Vec(Box::new(Ty::Int));
    let ref_vec_ty = Ty::Ref(Box::new(vec_ty.duplicate()));

    let stmts = vec![
        // let mut v = vec![1, 2, 3]  (def_id 0)
        HirStatement::Let {
            def_id: 0,
            pattern: HirPattern::Binding {
                def_id: 0,
                name: "v".to_string(),
                mutable: true,
                span: span(1, 9),
            },
            ty: vec_ty.duplicate(),
            value: Some(HirExpr {
                kind: HirExprKind::MacroCall {
                    name: "vec".to_string(),
                    args: vec![
                        HirExpr { kind: HirExprKind::IntLiteral(1), ty: Ty::Int, span: span(1, 14) },
                        HirExpr { kind: HirExprKind::IntLiteral(2), ty: Ty::Int, span: span(1, 17) },
                        HirExpr { kind: HirExprKind::IntLiteral(3), ty: Ty::Int, span: span(1, 20) },
                    ],
                },
                ty: vec_ty.duplicate(),
                span: span(1, 13),
            }),
            mutable: true,
            span: span(1, 1),
        },
        // let r = &v  (def_id 1, creates shared borrow of v)
        HirStatement::Let {
            def_id: 1,
            pattern: HirPattern::Binding {
                def_id: 1,
                name: "r".to_string(),
                mutable: false,
                span: span(2, 5),
            },
            ty: ref_vec_ty.duplicate(),
            value: Some(HirExpr {
                kind: HirExprKind::Borrow {
                    mutable: false,
                    expr: Box::new(HirExpr {
                        kind: HirExprKind::VarRef(0),
                        ty: vec_ty.duplicate(),
                        span: span(2, 10),
                    }),
                },
                ty: ref_vec_ty.duplicate(),
                span: span(2, 9),
            }),
            mutable: false,
            span: span(2, 1),
        },
        // v.push(4)  — receiver is &mut v, triggers E1002 because shared borrow is active.
        // Modelled as MethodCall where the object is Borrow { mutable: true, VarRef(0) }
        // to represent the implicit &mut self receiver of a mutating method.
        HirStatement::Expr(HirExpr {
            kind: HirExprKind::MethodCall {
                object: Box::new(HirExpr {
                    kind: HirExprKind::Borrow {
                        mutable: true,
                        expr: Box::new(HirExpr {
                            kind: HirExprKind::VarRef(0),
                            ty: vec_ty.duplicate(),
                            span: span(3, 1),
                        }),
                    },
                    ty: Ty::RefMut(Box::new(vec_ty.duplicate())),
                    span: span(3, 1),
                }),
                method: 50,
                method_name: "push".to_string(),
                args: vec![HirExpr {
                    kind: HirExprKind::IntLiteral(4),
                    ty: Ty::Int,
                    span: span(3, 8),
                }],
                block: None,
            },
            ty: Ty::Unit,
            span: span(3, 1),
        }),
        // puts r  — shared borrow is still used here (line 4 comes after line 3)
        HirStatement::Expr(HirExpr {
            kind: HirExprKind::FnCall {
                callee: 51,
                callee_name: "puts".to_string(),
                args: vec![HirExpr {
                    kind: HirExprKind::VarRef(1),
                    ty: ref_vec_ty.duplicate(),
                    span: span(4, 6),
                }],
            },
            ty: Ty::Unit,
            span: span(4, 1),
        }),
    ];

    let (program, mut symbols) = make_program(stmts);

    symbols.define(
        "v".to_string(),
        DefKind::Variable {
            mutable: true,
            ty: Ty::Vec(Box::new(Ty::Int)),
        },
        Visibility::Private,
        span(1, 9),
    ); // def_id 0
    symbols.define(
        "r".to_string(),
        DefKind::Variable {
            mutable: false,
            ty: Ty::Ref(Box::new(Ty::Vec(Box::new(Ty::Int)))),
        },
        Visibility::Private,
        span(2, 5),
    ); // def_id 1

    let errors = borrow_check(&program, &symbols);

    assert!(
        !errors.is_empty(),
        "expected a borrow conflict error, got no errors"
    );
    assert!(
        errors.iter().any(|e| e.code == ErrorCode::E1002),
        "expected at least one E1002 (cannot borrow as mutable — already borrowed as immutable), \
         got: {:?}",
        errors.iter().map(|e| e.code).collect::<Vec<_>>()
    );
}

/// Test 7: NLL — borrow ends at last use, allowing subsequent mutation.
///
/// ```riven
/// let mut v = vec![1, 2, 3]  // def_id 0, mutable, Vec[Int]
/// let first = &v              // def_id 1, creates shared borrow of v
/// puts first                  // last use of first (line 3)
/// v.push(4)                   // line 4 — OK, borrow has expired by NLL
/// ```
///
/// With NLL semantics, the borrow of `v` (held via `first`) expires at its last use,
/// which is line 3 (span.start = 30). The mutation at line 4 (span.start = 40) does
/// not conflict because `expire_before` is called at the start of each expression with
/// the current span, and once the borrow's last_use is before the mutation point the
/// borrow is expired. The checker therefore correctly accepts this code.
#[test]
fn nll_borrow_ends_at_last_use() {
    let vec_ty = Ty::Vec(Box::new(Ty::Int));
    let ref_vec_ty = Ty::Ref(Box::new(vec_ty.duplicate()));

    let stmts = vec![
        // let mut v = vec![1, 2, 3]  (def_id 0)
        HirStatement::Let {
            def_id: 0,
            pattern: HirPattern::Binding {
                def_id: 0,
                name: "v".to_string(),
                mutable: true,
                span: span(1, 9),
            },
            ty: vec_ty.duplicate(),
            value: Some(HirExpr {
                kind: HirExprKind::MacroCall {
                    name: "vec".to_string(),
                    args: vec![
                        HirExpr { kind: HirExprKind::IntLiteral(1), ty: Ty::Int, span: span(1, 14) },
                        HirExpr { kind: HirExprKind::IntLiteral(2), ty: Ty::Int, span: span(1, 17) },
                        HirExpr { kind: HirExprKind::IntLiteral(3), ty: Ty::Int, span: span(1, 20) },
                    ],
                },
                ty: vec_ty.duplicate(),
                span: span(1, 13),
            }),
            mutable: true,
            span: span(1, 1),
        },
        // let first = &v  (def_id 1, creates shared borrow of v at line 2)
        HirStatement::Let {
            def_id: 1,
            pattern: HirPattern::Binding {
                def_id: 1,
                name: "first".to_string(),
                mutable: false,
                span: span(2, 5),
            },
            ty: ref_vec_ty.duplicate(),
            value: Some(HirExpr {
                kind: HirExprKind::Borrow {
                    mutable: false,
                    expr: Box::new(HirExpr {
                        kind: HirExprKind::VarRef(0),
                        ty: vec_ty.duplicate(),
                        span: span(2, 13),
                    }),
                },
                ty: ref_vec_ty.duplicate(),
                span: span(2, 12),
            }),
            mutable: false,
            span: span(2, 1),
        },
        // puts first  — last use of the borrow (line 3, span.start = 30)
        HirStatement::Expr(HirExpr {
            kind: HirExprKind::FnCall {
                callee: 51,
                callee_name: "puts".to_string(),
                args: vec![HirExpr {
                    kind: HirExprKind::VarRef(1),
                    ty: ref_vec_ty.duplicate(),
                    span: span(3, 6),
                }],
            },
            ty: Ty::Unit,
            span: span(3, 1),
        }),
        // v.push(4)  — line 4 (span.start = 40).
        // The shared borrow of v has expired via NLL (last_use at start=30 < current start=40).
        // Modelled as a plain MethodCall with VarRef(0) as receiver (no explicit &mut v),
        // consistent with how the checker handles non-consuming method calls.
        HirStatement::Expr(HirExpr {
            kind: HirExprKind::MethodCall {
                object: Box::new(HirExpr {
                    kind: HirExprKind::VarRef(0),
                    ty: vec_ty.duplicate(),
                    span: span(4, 1),
                }),
                method: 50,
                method_name: "push".to_string(),
                args: vec![HirExpr {
                    kind: HirExprKind::IntLiteral(4),
                    ty: Ty::Int,
                    span: span(4, 8),
                }],
                block: None,
            },
            ty: Ty::Unit,
            span: span(4, 1),
        }),
    ];

    let (program, mut symbols) = make_program(stmts);

    symbols.define(
        "v".to_string(),
        DefKind::Variable {
            mutable: true,
            ty: Ty::Vec(Box::new(Ty::Int)),
        },
        Visibility::Private,
        span(1, 9),
    ); // def_id 0
    symbols.define(
        "first".to_string(),
        DefKind::Variable {
            mutable: false,
            ty: Ty::Ref(Box::new(Ty::Vec(Box::new(Ty::Int)))),
        },
        Visibility::Private,
        span(2, 5),
    ); // def_id 1

    let errors = borrow_check(&program, &symbols);

    // No borrow conflict errors expected — the borrow of v expires before the mutation.
    let conflict_errors: Vec<_> = errors
        .iter()
        .filter(|e| e.code == ErrorCode::E1002 || e.code == ErrorCode::E1003)
        .collect();
    assert!(
        conflict_errors.is_empty(),
        "expected no borrow conflict errors (NLL allows mutation after last borrow use), \
         got: {:?}",
        conflict_errors.iter().map(|e| e.code).collect::<Vec<_>>()
    );
}

fn var(id: u32, ty: Ty, line: u32) -> HirExpr {
    HirExpr { kind: HirExprKind::VarRef(id), ty, span: span(line, 1) }
}

fn let_stmt(id: u32, name: &str, mutable: bool, ty: Ty, value: HirExpr, line: u32) -> HirStatement {
    HirStatement::Let {
        def_id: id,
        pattern: HirPattern::Binding { def_id: id, name: name.to_string(), mutable, span: span(line, 5) },
        ty,
        value: Some(value),
        mutable,
        span: span(line, 1),
    }
}

fn call(name: &str, args: Vec<HirExpr>, line: u32) -> HirStatement {
    HirStatement::Expr(HirExpr {
        kind: HirExprKind::FnCall { callee: 99, callee_name: name.to_string(), args },
        ty: Ty::Unit,
        span: span(line, 1),
    })
}

fn string_lit(line: u32) -> HirExpr {
    HirExpr { kind: HirExprKind::StringLiteral("x".to_string()), ty: Ty::String, span: span(line, 9) }
}

#[test]
fn use_after_move_error_names_the_variable_and_the_move() {
    let stmts = vec![
        let_stmt(0, "s", false, Ty::String, string_lit(1), 1),
        call("consume", vec![var(0, Ty::String, 2)], 2),
        call("puts", vec![var(0, Ty::String, 3)], 3),
    ];
    let (program, mut symbols) = make_program(stmts);
    symbols.define("s".to_string(), DefKind::Variable { mutable: false, ty: Ty::String }, Visibility::Private, span(1, 5));
    let errors = borrow_check(&program, &symbols);
    assert_eq!(errors.len(), 1);
    let e = &errors[0];
    assert_eq!(e.code, ErrorCode::E1001);
    assert_eq!(e.primary.label, "`s` used here after move");
    assert_eq!(e.primary.span.line, 3);
    assert_eq!(e.secondary.len(), 2);
    assert_eq!(e.secondary[0].label, "`s` defined here");
    assert_eq!(e.secondary[1].label, "value moved into `consume` here");
    assert_eq!(e.secondary[1].span.line, 2);
    assert_eq!(e.help, vec!["consider cloning the value: `s.clone`".to_string()]);
}

#[test]
fn unknown_definition_is_named_by_its_id() {
    let stmts = vec![
        let_stmt(7, "s", false, Ty::String, string_lit(1), 1),
        let_stmt(8, "t", false, Ty::String, var(7, Ty::String, 2), 2),
        call("puts", vec![var(7, Ty::String, 3)], 3),
    ];
    let (program, symbols) = make_program(stmts);
    let errors = borrow_check(&program, &symbols);
    assert_eq!(errors.len(), 1);
    assert_eq!(errors[0].primary.label, "`_7` used here after move");
    assert_eq!(errors[0].secondary[1].label, "value moved here");
}

#[test]
fn struct_deriving_copy_is_not_moved() {
    let point = Ty::Struct { name: "Point".to_string(), generic_args: vec![] };
    let stmts = vec![
        let_stmt(0, "p", false, point.duplicate(), HirExpr { kind: HirExprKind::UnitLiteral, ty: point.duplicate(), span: span(1, 9) }, 1),
        let_stmt(1, "q", false, point.duplicate(), var(0, point.duplicate(), 2), 2),
        call("puts", vec![var(0, point.duplicate(), 3)], 3),
    ];
    let (program, mut symbols) = make_program(stmts);
    symbols.define("p".to_string(), DefKind::Variable { mutable: false, ty: point.duplicate() }, Visibility::Private, span(1, 5));
    symbols.define("q".to_string(), DefKind::Variable { mutable: false, ty: point.duplicate() }, Visibility::Private, span(2, 5));
    assert_eq!(borrow_check(&program, &symbols).len(), 1);
    symbols.define(
        "Point".to_string(),
        DefKind::Struct { info: riven::resolve::symbols::StructInfo { derive_traits: vec!["Copy".to_string()] } },
        Visibility::Public,
        span(9, 1),
    );
    assert!(borrow_check(&program, &symbols).is_empty());
}

#[test]
fn move_on_one_branch_of_an_if_is_a_move_after_it() {
    let if_expr = HirExpr {
        kind: HirExprKind::If {
            cond: Box::new(HirExpr { kind: HirExprKind::BoolLiteral(true), ty: Ty::Bool, span: span(2, 4) }),
            then_branch: Box::new(HirExpr {
                kind: HirExprKind::Block(vec![call("consume", vec![var(0, Ty::String, 3)], 3)], None),
                ty: Ty::Unit,
                span: span(3, 1),
            }),
            else_branch: None,
        },
        ty: Ty::Unit,
        span: span(2, 1),
    };
    let stmts = vec![
        let_stmt(0, "s", false, Ty::String, string_lit(1), 1),
        HirStatement::Expr(if_expr),
        call("puts", vec![var(0, Ty::String, 5)], 5),
    ];
    let (program, mut symbols) = make_program(stmts);
    symbols.define("s".to_string(), DefKind::Variable { mutable: false, ty: Ty::String }, Visibility::Private, span(1, 5));
    let errors = borrow_check(&program, &symbols);
    assert_eq!(errors.len(), 1);
    assert_eq!(errors[0].code, ErrorCode::E1001);
}

#[test]
fn returning_a_reference_to_a_local_is_reported() {
    let ret = HirStatement::Expr(HirExpr {
        kind: HirExprKind::Return(Some(Box::new(HirExpr {
            kind: HirExprKind::Borrow { mutable: false, expr: Box::new(var(0, Ty::Int, 2)) },
            ty: Ty::Ref(Box::new(Ty::Int)),
            span: span(2, 8),
        }))),
        ty: Ty::Unit,
        span: span(2, 1),
    });
    let stmts = vec![
        let_stmt(0, "x", false, Ty::Int, HirExpr { kind: HirExprKind::IntLiteral(1), ty: Ty::Int, span: span(1, 9) }, 1),
        ret,
    ];
    let (program, mut symbols) = make_program(stmts);
    symbols.define("x".to_string(), DefKind::Variable { mutable: false, ty: Ty::Int }, Visibility::Private, span(1, 5));
    let errors = borrow_check(&program, &symbols);
    assert_eq!(errors.len(), 1);
    assert_eq!(errors[0].code, ErrorCode::E1010);
    assert_eq!(errors[0].primary.label, "returns a reference to local variable `x`");
    assert_eq!(errors[0].secondary[0].label, "`x` defined here");
    assert_eq!(errors[0].help, vec!["consider returning an owned value instead".to_string()]);
}

#[test]
fn immutable_assignment_message() {
    let assign = HirStatement::Expr(HirExpr {
        kind: HirExprKind::Assign {
            target: Box::new(var(0, Ty::Int, 2)),
            value: Box::new(HirExpr { kind: HirExprKind::IntLiteral(2), ty: Ty::Int, span: span(2, 5) }),
            semantics: MoveSemantics::Copy,
        },
        ty: Ty::Unit,
        span: span(2, 1),
    });
    let stmts = vec![
        let_stmt(0, "x", false, Ty::Int, HirExpr { kind: HirExprKind::IntLiteral(1), ty: Ty::Int, span: span(1, 9) }, 1),
        assign,
    ];
    let (program, symbols) = make_program(stmts);
    let errors = borrow_check(&program, &symbols);
    assert_eq!(errors.len(), 1);
    assert_eq!(errors[0].code, ErrorCode::E1006);
    assert_eq!(errors[0].primary.label, "cannot assign to `_0` — variable is not `mut`");
    assert_eq!(errors[0].help, vec!["consider declaring with `let mut _0`".to_string()]);
}

#[test]
fn mutating_method_on_a_borrowed_variable_is_reported() {
    let vec_ty = Ty::Vec(Box::new(Ty::Int));
    let borrow = HirExpr {
        kind: HirExprKind::Borrow { mutable: false, expr: Box::new(var(0, vec_ty.duplicate(), 2)) },
        ty: Ty::Ref(Box::new(vec_ty.duplicate())),
        span: span(2, 9),
    };
    let method_call = HirStatement::Expr(HirExpr {
        kind: HirExprKind::MethodCall {
            object: Box::new(var(0, vec_ty.duplicate(), 3)),
            method: 2,
            method_name: "grow".to_string(),
            args: vec![],
            block: None,
        },
        ty: Ty::Unit,
        span: span(3, 1),
    });
    let stmts = vec![
        let_stmt(0, "v", true, vec_ty.duplicate(), HirExpr { kind: HirExprKind::UnitLiteral, ty: vec_ty.duplicate(), span: span(1, 9) }, 1),
        let_stmt(1, "r", false, Ty::Ref(Box::new(vec_ty.duplicate())), borrow, 2),
        method_call,
    ];
    let (program, mut symbols) = make_program(stmts);
    symbols.define("v".to_string(), DefKind::Variable { mutable: true, ty: vec_ty.duplicate() }, Visibility::Private, span(1, 5));
    symbols.define("r".to_string(), DefKind::Variable { mutable: false, ty: Ty::Ref(Box::new(vec_ty.duplicate())) }, Visibility::Private, span(2, 5));
    symbols.define(
        "grow".to_string(),
        DefKind::Method { signature: riven::resolve::symbols::MethodSignature { self_mode: Some(riven::hir::nodes::HirSelfMode::RefMut) } },
        Visibility::Public,
        span(9, 1),
    );
    let errors = borrow_check(&program, &symbols);
    assert_eq!(errors.len(), 1);
    let e = &errors[0];
    assert_eq!(e.code, ErrorCode::E1002);
    assert_eq!(e.primary.label, "cannot mutably borrow `v` — already borrowed");
    assert_eq!(e.secondary[0].label, "previous immutable borrow of `v` here");
    assert_eq!(e.secondary[0].span.line, 2);
    assert_eq!(e.help, vec!["ensure the previous borrow is no longer in use".to_string()]);
}
