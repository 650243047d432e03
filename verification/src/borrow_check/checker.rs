//! The borrow-check pass over a whole program: the state it keeps while walking
//! expressions, and the errors it reports.
use vstd::prelude::*;
use std::collections::HashMap;
use crate::borrow_check::borrows::{
    active_for, blocks, expired, held_by, active_of, BorrowId, BorrowInfoView, BorrowKind, BorrowSet,
};
use crate::borrow_check::errors::{BorrowError, ErrorCode, SpanLabel};
use crate::borrow_check::lifetimes::LifetimeChecker;
use crate::borrow_check::moves::{checker_views, merge_watched_prefix, MoveView, MoveChecker, WatchedView};
use crate::borrow_check::ownership::{branch_states, merge_all, strings_view, BindingStateView, OwnershipState};
use crate::borrow_check::regions::{ScopeId, ScopeKind, ScopeStack};
use crate::hir::nodes::{
    Capture, DefId, HirClosureParam, HirExpr, HirExprKind, HirFuncDef, HirImplBlock, HirImplItem, HirInterpolationPart,
    HirItem, HirMatchArm, HirParam, HirPattern, HirProgram, HirSelfMode, HirStatement, HirTraitItem,
};
use crate::hir::types::{copy_spec, is_ref_view, MoveSemantics, Ty, TyView};
use crate::lexer::token::Span;
use crate::resolve::symbols::{kind_ty, DefKind, Definition, SymbolTable};
use crate::text::{decimal, push_decimal, push_str, str_eq, string_of};

verus! {

// ─── Error models ───────────────────────────────────────────────────

/// Model of a [`SpanLabel`].
pub struct LabelView {
    pub span: Span,
    pub label: Seq<char>,
}

/// Model of a [`BorrowError`].
pub struct ErrorView {
    pub code: ErrorCode,
    pub primary: LabelView,
    pub secondary: Seq<LabelView>,
    pub help: Seq<Seq<char>>,
}

pub open spec fn label_view(l: SpanLabel) -> LabelView {
    LabelView { span: l.span, label: l.label@ }
}

pub open spec fn error_view(e: BorrowError) -> ErrorView {
    ErrorView {
        code: e.code,
        primary: label_view(e.primary),
        secondary: e.secondary@.map_values(|l: SpanLabel| label_view(l)),
        help: strings_view(e.help@),
    }
}

/// The models of a list of errors.
pub open spec fn errors_view(es: Seq<BorrowError>) -> Seq<ErrorView> {
    es.map_values(|e: BorrowError| error_view(e))
}

/// The name shown for a definition: its name in the symbol table, else `_` and its id.
pub open spec fn def_name_spec(syms: Seq<Definition>, id: DefId) -> Seq<char> {
    if (id as int) < syms.len() {
        syms[id as int].name@
    } else {
        "_"@ + decimal(id as nat)
    }
}

/// "mutable" or "immutable", for a borrow of `kind`.
pub open spec fn kind_word(kind: BorrowKind) -> Seq<char> {
    if kind == BorrowKind::Mutable { "mutable"@ } else { "immutable"@ }
}

// ─── The checker's state, as a model ────────────────────────────────

/// What the pass knows between two steps. `fault` turns true, and stays true, at a step
/// that cannot be carried out: a 32-bit counter of scopes or borrows would overflow, the
/// innermost scope is looked up or closed with none open, or borrows are dropped from a
/// checkpoint past the end of the list. Each is a step on which the scope stack or the
/// borrow set would fail.
pub struct CheckState {
    pub fault: bool,
    /// Scopes opened so far, and those still open (innermost last).
    pub scopes: nat,
    pub open: Seq<ScopeId>,
    /// Ownership of each binding.
    pub own: Map<DefId, BindingStateView>,
    /// Every borrow created so far, and the next borrow id.
    pub items: Seq<BorrowInfoView>,
    pub next: u32,
    /// Move tracking of each binding.
    pub moves: Map<DefId, WatchedView>,
    /// Whether each binding is `mut`.
    pub mutability: Map<DefId, bool>,
    /// For `let r = &v`, `r` maps to `v`.
    pub refs: Map<DefId, DefId>,
    /// The errors reported so far, in order.
    pub errors: Seq<ErrorView>,
}

pub open spec fn faulted(st: CheckState) -> CheckState {
    CheckState { fault: true, ..st }
}

pub open spec fn report(st: CheckState, e: ErrorView) -> CheckState {
    CheckState { errors: st.errors.push(e), ..st }
}

/// The state at the start of the pass.
pub open spec fn initial_state() -> CheckState {
    CheckState {
        fault: false,
        scopes: 0,
        open: Seq::empty(),
        own: Map::empty(),
        items: Seq::empty(),
        next: 0,
        moves: Map::empty(),
        mutability: Map::empty(),
        refs: Map::empty(),
        errors: Seq::empty(),
    }
}

pub open spec fn push_scope(st: CheckState) -> CheckState {
    if st.scopes >= u32::MAX {
        faulted(st)
    } else {
        CheckState { scopes: st.scopes + 1, open: st.open.push(ScopeId(st.scopes as u32)), ..st }
    }
}

pub open spec fn pop_scope(st: CheckState) -> CheckState {
    if st.open.len() == 0 { faulted(st) } else { CheckState { open: st.open.drop_last(), ..st } }
}

pub open spec fn dead(b: BorrowInfoView) -> BorrowInfoView {
    BorrowInfoView { live: false, ..b }
}

/// Borrows whose last use lies before `point` die.
pub open spec fn expire(st: CheckState, point: Span) -> CheckState {
    CheckState {
        items: Seq::new(st.items.len(), |i: int| if expired(st.items[i], point) { dead(st.items[i]) } else { st.items[i] }),
        ..st
    }
}

/// Live borrows made in `scope` die.
pub open spec fn kill_scope(st: CheckState, scope: ScopeId) -> CheckState {
    CheckState {
        items: Seq::new(
            st.items.len(),
            |i: int| if st.items[i].live && st.items[i].scope == scope { dead(st.items[i]) } else { st.items[i] },
        ),
        ..st
    }
}

/// Borrows made at or after the checkpoint `cp` die.
pub open spec fn kill_after(st: CheckState, cp: nat) -> CheckState {
    if cp > st.items.len() {
        faulted(st)
    } else {
        CheckState { items: Seq::new(st.items.len(), |i: int| if i < cp { st.items[i] } else { dead(st.items[i]) }), ..st }
    }
}

/// Leaves a scope opened at `sid`: its borrows die and it is closed.
pub open spec fn leave_scope(st: CheckState, sid: ScopeId) -> CheckState {
    pop_scope(kill_scope(st, sid))
}

/// A new live borrow of `place` in the innermost scope.
pub open spec fn create(st: CheckState, kind: BorrowKind, place: DefId, span: Span) -> CheckState {
    if st.next >= u32::MAX || st.open.len() == 0 {
        faulted(st)
    } else {
        CheckState {
            items: st.items.push(BorrowInfoView {
                id: BorrowId(st.next),
                kind,
                borrowed_place: place,
                borrower: place,
                created_span: span,
                scope: st.open.last(),
                last_use: None,
                live: true,
            }),
            next: (st.next + 1) as u32,
            ..st
        }
    }
}

/// The index of the first borrow with id `id`.
pub open spec fn first_with_id(items: Seq<BorrowInfoView>, id: BorrowId) -> Option<int>
    decreases items.len(),
{
    if items.len() == 0 {
        None
    } else {
        match first_with_id(items.drop_last(), id) {
            Some(i) => Some(i),
            None => if items.last().id == id { Some(items.len() - 1) } else { None },
        }
    }
}

/// `span` recorded as the latest use of the first borrow with id `id`.
pub open spec fn record_use_items(items: Seq<BorrowInfoView>, id: BorrowId, span: Span) -> Seq<BorrowInfoView> {
    match first_with_id(items, id) {
        Some(i) => items.update(i, BorrowInfoView { last_use: Some(span), ..items[i] }),
        None => items,
    }
}

/// Uses recorded for each id in turn.
pub open spec fn record_uses(items: Seq<BorrowInfoView>, ids: Seq<BorrowId>, span: Span) -> Seq<BorrowInfoView>
    decreases ids.len(),
{
    if ids.len() == 0 {
        items
    } else {
        record_use_items(record_uses(items, ids.drop_last(), span), ids.last(), span)
    }
}

pub open spec fn ids_of(bs: Seq<BorrowInfoView>) -> Seq<BorrowId> {
    bs.map_values(|b: BorrowInfoView| b.id)
}

/// The first borrow that a new borrow of `place` with `kind` conflicts with.
pub open spec fn first_blocking(items: Seq<BorrowInfoView>, kind: BorrowKind, place: DefId) -> Option<int> {
    if exists|i: int| 0 <= i < items.len() && blocks(items[i], kind, place) && forall|j: int| 0 <= j < i ==> !blocks(#[trigger] items[j], kind, place) {
        Some(choose|i: int| 0 <= i < items.len() && blocks(items[i], kind, place) && forall|j: int| 0 <= j < i ==> !blocks(#[trigger] items[j], kind, place))
    } else {
        None
    }
}

/// The first live borrow of `place`.
pub open spec fn first_active(items: Seq<BorrowInfoView>, place: DefId) -> Option<int> {
    if exists|i: int| 0 <= i < items.len() && active_for(items[i], place) && forall|j: int| 0 <= j < i ==> !active_for(#[trigger] items[j], place) {
        Some(choose|i: int| 0 <= i < items.len() && active_for(items[i], place) && forall|j: int| 0 <= j < i ==> !active_for(#[trigger] items[j], place))
    } else {
        None
    }
}

// ─── What the pass reads of definitions ─────────────────────────────

/// `mut` as recorded by the pass, else as declared in the symbol table (parameters and
/// `self` are not).
pub open spec fn is_mutable_spec(st: CheckState, syms: Seq<Definition>, id: DefId) -> bool {
    if st.mutability.contains_key(id) {
        st.mutability[id]
    } else if (id as int) < syms.len() {
        match syms[id as int].kind {
            DefKind::Variable { mutable, .. } => mutable,
            _ => false,
        }
    } else {
        false
    }
}

/// The derives of the first struct named `name` from the `k`-th definition on.
pub open spec fn struct_derives_from(syms: Seq<Definition>, name: Seq<char>, tr: Seq<char>, k: int) -> bool
    decreases syms.len() - k,
{
    if k < 0 || k >= syms.len() {
        false
    } else if syms[k].name@ == name && syms[k].kind is Struct {
        match syms[k].kind {
            DefKind::Struct { info } => strings_view(info.derive_traits@).contains(tr),
            _ => false,
        }
    } else {
        struct_derives_from(syms, name, tr, k + 1)
    }
}

/// Through references, aliases and newtypes, the struct underneath derives `tr`.
pub open spec fn struct_has_derive_spec(syms: Seq<Definition>, t: TyView, tr: Seq<char>) -> bool
    decreases t,
{
    match t {
        TyView::Struct { name, .. } => struct_derives_from(syms, name, tr, 0),
        TyView::Ref(inner) => struct_has_derive_spec(syms, *inner, tr),
        TyView::RefMut(inner) => struct_has_derive_spec(syms, *inner, tr),
        TyView::RefLifetime(_, inner) => struct_has_derive_spec(syms, *inner, tr),
        TyView::RefMutLifetime(_, inner) => struct_has_derive_spec(syms, *inner, tr),
        TyView::Alias { target, .. } => struct_has_derive_spec(syms, *target, tr),
        TyView::Newtype { inner, .. } => struct_has_derive_spec(syms, *inner, tr),
        _ => false,
    }
}

/// Copied rather than moved: a `Copy` type, or a struct that derives `Copy`.
pub open spec fn copy_eff(syms: Seq<Definition>, t: TyView) -> bool {
    copy_spec(t) || struct_has_derive_spec(syms, t, "Copy"@)
}

// ─── Steps ──────────────────────────────────────────────────────────

/// A new binding: owned, watched for moves, with its mutability.
pub open spec fn register(st: CheckState, id: DefId, ty: TyView, mutable: bool, span: Span) -> CheckState {
    if st.open.len() == 0 {
        faulted(st)
    } else {
        CheckState {
            own: st.own.insert(id, BindingStateView::Owned),
            moves: st.moves.insert(id, WatchedView { ty, declared_span: span, moved: None }),
            mutability: st.mutability.insert(id, mutable),
            ..st
        }
    }
}

/// `source` moved into `target` (a `let` or an assignment).
pub open spec fn transfer(st: CheckState, source: DefId, target: DefId, ty: TyView, span: Span) -> CheckState {
    CheckState {
        moves: if copy_spec(ty) || !st.moves.contains_key(source) {
            st.moves
        } else {
            st.moves.insert(source, WatchedView { moved: Some(MoveView { span, callee: None }), ..st.moves[source] })
        },
        own: st.own.insert(source, BindingStateView::Moved { target, span }),
        ..st
    }
}

/// `source` moved into a call of `callee`.
pub open spec fn call_move(st: CheckState, source: DefId, callee: Seq<char>, ty: TyView, span: Span) -> CheckState {
    CheckState {
        moves: if copy_spec(ty) || !st.moves.contains_key(source) {
            st.moves
        } else {
            st.moves.insert(source, WatchedView { moved: Some(MoveView { span, callee: Some(callee) }), ..st.moves[source] })
        },
        own: st.own.insert(source, BindingStateView::MovedIntoCall { callee, span }),
        ..st
    }
}

/// The use-after-move error for `id` used at `span`.
pub open spec fn use_after_move_error(name: Seq<char>, span: Span, w: WatchedView, m: MoveView) -> ErrorView {
    ErrorView {
        code: ErrorCode::E1001,
        primary: LabelView { span, label: "`"@ + name + "` used here after move"@ },
        secondary: seq![
            LabelView { span: w.declared_span, label: "`"@ + name + "` defined here"@ },
            LabelView {
                span: m.span,
                label: match m.callee {
                    Some(c) => "value moved into `"@ + c + "` here"@,
                    None => "value moved here"@,
                },
            },
        ],
        help: seq!["consider cloning the value: `"@ + name + ".clone`"@],
    }
}

/// A reference to variable `id` at `span`: the borrows it holds, and those of the place
/// it refers to, are used here; a use after a move is reported.
pub open spec fn var_ref(st: CheckState, syms: Seq<Definition>, id: DefId, span: Span) -> CheckState {
    let items1 = record_uses(st.items, ids_of(held_by(st.items, id)), span);
    let items2 = if st.refs.contains_key(id) {
        record_uses(items1, ids_of(active_of(items1, st.refs[id])), span)
    } else {
        items1
    };
    let st2 = CheckState { items: items2, ..st };
    if st.moves.contains_key(id) && st.moves[id].moved is Some {
        report(st2, use_after_move_error(def_name_spec(syms, id), span, st.moves[id], st.moves[id].moved.unwrap()))
    } else {
        st2
    }
}

/// An assignment to a variable that is not `mut` is reported.
pub open spec fn assign_mut_check(st: CheckState, syms: Seq<Definition>, target: HirExpr, span: Span) -> CheckState {
    match target.kind {
        HirExprKind::VarRef(id) => if !is_mutable_spec(st, syms, id) {
            let name = def_name_spec(syms, id);
            report(st, ErrorView {
                code: ErrorCode::E1006,
                primary: LabelView { span, label: "cannot assign to `"@ + name + "` — variable is not `mut`"@ },
                secondary: seq![],
                help: seq!["consider declaring with `let mut "@ + name + "`"@],
            })
        } else {
            st
        },
        _ => st,
    }
}

/// A mutation of `obj` while it is borrowed is reported.
pub open spec fn mutation_conflict(st: CheckState, syms: Seq<Definition>, obj: DefId, span: Span) -> CheckState {
    match first_active(st.items, obj) {
        Some(i) => {
            let name = def_name_spec(syms, obj);
            report(st, ErrorView {
                code: ErrorCode::E1002,
                primary: LabelView { span, label: "cannot mutably borrow `"@ + name + "` — already borrowed"@ },
                secondary: seq![LabelView {
                    span: st.items[i].created_span,
                    label: "previous "@ + kind_word(st.items[i].kind) + " borrow of `"@ + name + "` here"@,
                }],
                help: seq!["ensure the previous borrow is no longer in use"@],
            })
        },
        None => st,
    }
}

/// Method names that mutate their receiver, for methods the symbol table does not know.
pub open spec fn is_mutating_name(n: Seq<char>) -> bool {
    n == "push"@ || n == "pop"@ || n == "insert"@ || n == "remove"@ || n == "clear"@ || n == "sort"@
        || n == "reverse"@ || n == "push_str"@ || n == "truncate"@ || n == "extend"@ || n == "retain"@
        || n == "drain"@ || n == "iter_mut"@ || n == "set"@
}

/// What a method call does to its receiver `obj` once the arguments are checked.
pub open spec fn receiver_effect(st: CheckState, syms: Seq<Definition>, obj: DefId, obj_ty: TyView, method: DefId, name: Seq<char>, span: Span) -> CheckState {
    if (method as int) < syms.len() {
        match syms[method as int].kind {
            DefKind::Method { signature } => match signature.self_mode {
                Some(HirSelfMode::Consuming) => if !copy_eff(syms, obj_ty) { call_move(st, obj, name, obj_ty, span) } else { st },
                Some(HirSelfMode::RefMut) => mutation_conflict(st, syms, obj, span),
                _ => st,
            },
            _ => st,
        }
    } else {
        let s = if is_mutating_name(name) { mutation_conflict(st, syms, obj, span) } else { st };
        if name == "iter"@ {
            create(s, BorrowKind::Shared, obj, span)
        } else if name == "into_iter"@ {
            if !copy_eff(syms, obj_ty) { call_move(s, obj, "into_iter"@, obj_ty, span) } else { s }
        } else {
            s
        }
    }
}

/// A borrow of `id` of `kind` at `span`: refused (and reported) when it conflicts with a
/// live borrow, else created.
pub open spec fn borrow_place(st: CheckState, syms: Seq<Definition>, kind: BorrowKind, id: DefId, span: Span) -> CheckState {
    match first_blocking(st.items, kind, id) {
        Some(i) => {
            let name = def_name_spec(syms, id);
            let ex = st.items[i];
            report(st, ErrorView {
                code: if kind == BorrowKind::Shared && ex.kind == BorrowKind::Mutable { ErrorCode::E1003 } else { ErrorCode::E1002 },
                primary: LabelView { span, label: "cannot borrow `"@ + name + "` here"@ },
                secondary: seq![LabelView {
                    span: ex.created_span,
                    label: "previous "@ + kind_word(ex.kind) + " borrow of `"@ + name + "` here"@,
                }],
                help: seq![],
            })
        },
        None => create(st, kind, id, span),
    }
}

/// `&mut` of a variable that is not `mut` is reported.
pub open spec fn mut_borrow_check(st: CheckState, syms: Seq<Definition>, mutable: bool, id: DefId, span: Span) -> CheckState {
    if mutable && !is_mutable_spec(st, syms, id) {
        let name = def_name_spec(syms, id);
        report(st, ErrorView {
            code: ErrorCode::E1007,
            primary: LabelView { span, label: "cannot borrow `"@ + name + "` as mutable — it is not declared as `mut`"@ },
            secondary: seq![],
            help: seq!["consider declaring with `let mut "@ + name + "`"@],
        })
    } else {
        st
    }
}

/// An assignment to variable `id` while it is borrowed is reported.
pub open spec fn assign_conflict(st: CheckState, syms: Seq<Definition>, id: DefId, span: Span) -> CheckState {
    match first_active(st.items, id) {
        Some(i) => report(st, ErrorView {
            code: ErrorCode::E1009,
            primary: LabelView { span, label: "cannot assign to `"@ + def_name_spec(syms, id) + "` — currently borrowed"@ },
            secondary: seq![LabelView { span: st.items[i].created_span, label: "borrow created here"@ }],
            help: seq![],
        }),
        None => st,
    }
}

/// A reinitialising assignment to `id`, and the move of a variable on its right.
pub open spec fn assign_effect(st: CheckState, syms: Seq<Definition>, id: DefId, tspan: Span, value: HirExpr, semantics: MoveSemantics) -> CheckState {
    let s1 = assign_conflict(st, syms, id, tspan);
    let s2 = if s1.own.contains_key(id) && (s1.own[id] is Moved || s1.own[id] is MovedIntoCall) {
        CheckState {
            own: s1.own.insert(id, BindingStateView::Owned),
            moves: if s1.moves.contains_key(id) {
                s1.moves.insert(id, WatchedView { declared_span: tspan, moved: None, ..s1.moves[id] })
            } else {
                s1.moves
            },
            ..s1
        }
    } else {
        s1
    };
    match value.kind {
        HirExprKind::VarRef(src) => if semantics == MoveSemantics::Move && !copy_eff(syms, value.ty@) {
            transfer(s2, src, id, value.ty@, tspan)
        } else {
            s2
        },
        _ => s2,
    }
}

/// Returning `&local` is reported.
pub open spec fn return_check(st: CheckState, syms: Seq<Definition>, e: HirExpr, span: Span) -> CheckState {
    if is_ref_view(e.ty@) {
        match e.kind {
            HirExprKind::Borrow { expr: inner, .. } => match inner.kind {
                HirExprKind::VarRef(id) => if (id as int) < syms.len() && syms[id as int].kind is Variable {
                    let d = syms[id as int];
                    report(st, ErrorView {
                        code: ErrorCode::E1010,
                        primary: LabelView { span, label: "returns a reference to local variable `"@ + d.name@ + "`"@ },
                        secondary: seq![LabelView { span: d.span, label: "`"@ + d.name@ + "` defined here"@ }],
                        help: seq!["consider returning an owned value instead"@],
                    })
                } else {
                    st
                },
                _ => st,
            },
            _ => st,
        }
    } else {
        st
    }
}

/// The bindings a pattern introduces, each with its type from the symbol table.
pub open spec fn pattern_spec(st: CheckState, syms: Seq<Definition>, p: HirPattern) -> CheckState
    decreases p,
{
    match p {
        HirPattern::Binding { def_id, mutable, span, .. } => register(st, def_id, binding_ty(syms, def_id), mutable, span),
        HirPattern::Ref { def_id, mutable, span, .. } => register(st, def_id, binding_ty(syms, def_id), mutable, span),
        HirPattern::Tuple { elements, .. } => patterns_spec(st, syms, elements@),
        HirPattern::Enum { fields, .. } => patterns_spec(st, syms, fields@),
        HirPattern::Struct { fields, .. } => field_patterns_spec(st, syms, fields@),
        HirPattern::Or { patterns, .. } => patterns_spec(st, syms, patterns@),
        _ => st,
    }
}

pub open spec fn patterns_spec(st: CheckState, syms: Seq<Definition>, ps: Seq<HirPattern>) -> CheckState
    decreases ps,
{
    if st.fault || ps.len() == 0 {
        st
    } else {
        proof { assert(decreases_to!(ps => ps.drop_first())); }
        patterns_spec(pattern_spec(st, syms, ps[0]), syms, ps.drop_first())
    }
}

pub open spec fn field_patterns_spec(st: CheckState, syms: Seq<Definition>, ps: Seq<(String, HirPattern)>) -> CheckState
    decreases ps,
{
    if st.fault || ps.len() == 0 {
        st
    } else {
        proof { assert(decreases_to!(ps => ps.drop_first())); }
        field_patterns_spec(pattern_spec(st, syms, ps[0].1), syms, ps.drop_first())
    }
}

/// The type a pattern binding is registered with: its declared type, else `Infer(0)`.
pub open spec fn binding_ty(syms: Seq<Definition>, id: DefId) -> TyView {
    if (id as int) < syms.len() && kind_ty(syms[id as int].kind) is Some {
        kind_ty(syms[id as int].kind).unwrap()
    } else {
        TyView::Infer(0)
    }
}


// ─── Walking expressions ────────────────────────────────────────────

/// The state after the branches `then` and `else` (restarted from `snap`) are merged:
/// a binding moved on either branch is moved after.
pub open spec fn merge_if(t: CheckState, el: CheckState) -> CheckState {
    CheckState {
        own: merge_all(seq![t.own, el.own]),
        moves: merge_watched_prefix(seq![t.moves, el.moves], 2),
        ..el
    }
}

/// `cur` with ownership, moves and borrows put back as they were in `snap`.
pub open spec fn restart(cur: CheckState, snap: CheckState) -> CheckState {
    CheckState { own: snap.own, moves: snap.moves, items: snap.items, ..cur }
}

/// One expression checked: dead borrows expire first (non-lexical lifetimes), then each
/// form is walked in evaluation order.
pub open spec fn expr_spec(st: CheckState, syms: Seq<Definition>, e: HirExpr) -> CheckState
    decreases e, 1nat,
{
    if st.fault {
        st
    } else {
        let s = expire(st, e.span);
        match e.kind {
            HirExprKind::VarRef(id) => var_ref(s, syms, id, e.span),
            HirExprKind::FieldAccess { object, .. } => expr_spec(s, syms, *object),
            HirExprKind::MethodCall { .. } => method_call_spec(s, syms, e),
            HirExprKind::FnCall { callee_name, args, .. } => kill_after(args_spec(s, syms, args@, callee_name@), s.items.len()),
            HirExprKind::BinaryOp { left, right, .. } => expr_spec(expr_spec(s, syms, *left), syms, *right),
            HirExprKind::UnaryOp { operand, .. } => expr_spec(s, syms, *operand),
            HirExprKind::Borrow { mutable, expr: inner } => {
                let s1 = expr_spec(s, syms, *inner);
                match inner.kind {
                    HirExprKind::VarRef(id) => borrow_place(
                        mut_borrow_check(s1, syms, mutable, id, e.span),
                        syms,
                        if mutable { BorrowKind::Mutable } else { BorrowKind::Shared },
                        id,
                        e.span,
                    ),
                    _ => s1,
                }
            },
            HirExprKind::Block(stmts, tail) => {
                let sid = ScopeId(s.scopes as u32);
                let s1 = stmts_spec(push_scope(s), syms, stmts@);
                let s2 = match tail {
                    Some(t) => expr_spec(s1, syms, *t),
                    None => s1,
                };
                leave_scope(s2, sid)
            },
            HirExprKind::If { cond, then_branch, else_branch } => {
                let s1 = expr_spec(s, syms, *cond);
                let s2 = expr_spec(s1, syms, *then_branch);
                let r = restart(s2, s1);
                let s3 = match else_branch {
                    Some(b) => expr_spec(r, syms, *b),
                    None => r,
                };
                merge_if(s2, s3)
            },
            HirExprKind::Match { scrutinee, arms } => {
                let s1 = expr_spec(s, syms, *scrutinee);
                if arms@.len() == 0 {
                    s1
                } else {
                    let r = arms_spec(s1, s1, syms, arms@);
                    CheckState { own: merge_all(r.1), moves: merge_watched_prefix(r.2, arms@.len() as int), ..r.0 }
                }
            },
            HirExprKind::Loop { body } => {
                let sid = ScopeId(s.scopes as u32);
                leave_scope(expr_spec(push_scope(s), syms, *body), sid)
            },
            HirExprKind::While { condition, body } => {
                let s1 = expr_spec(s, syms, *condition);
                let sid = ScopeId(s1.scopes as u32);
                leave_scope(expr_spec(push_scope(s1), syms, *body), sid)
            },
            HirExprKind::For { binding, iterable, body, .. } => {
                let s1 = expr_spec(s, syms, *iterable);
                let sid = ScopeId(s1.scopes as u32);
                let s2 = register(push_scope(s1), binding, TyView::Infer(0), false, iterable.span);
                leave_scope(expr_spec(s2, syms, *body), sid)
            },
            HirExprKind::Assign { target, value, semantics } => {
                let s1 = expr_spec(s, syms, *value);
                let s2 = assign_mut_check(s1, syms, *target, target.span);
                match target.kind {
                    HirExprKind::VarRef(id) => assign_effect(s2, syms, id, target.span, *value, semantics),
                    _ => s2,
                }
            },
            HirExprKind::CompoundAssign { target, value, .. } => expr_spec(
                expr_spec(assign_mut_check(s, syms, *target, e.span), syms, *target),
                syms,
                *value,
            ),
            HirExprKind::Return(opt) => match opt {
                Some(x) => return_check(expr_spec(s, syms, *x), syms, *x, e.span),
                None => s,
            },
            HirExprKind::Break(opt) => match opt {
                Some(x) => expr_spec(s, syms, *x),
                None => s,
            },
            HirExprKind::Closure { params, body, captures, is_move } => {
                let s1 = captures_spec(s, syms, captures@, is_move, e.span);
                let sid = ScopeId(s1.scopes as u32);
                let s2 = closure_params_spec(push_scope(s1), params@);
                leave_scope(expr_spec(s2, syms, *body), sid)
            },
            HirExprKind::Construct { fields, .. } => fields_spec(s, syms, fields@),
            HirExprKind::EnumVariant { fields, .. } => fields_spec(s, syms, fields@),
            HirExprKind::Tuple(es) => exprs_spec(s, syms, es@),
            HirExprKind::Index { object, index } => expr_spec(expr_spec(s, syms, *object), syms, *index),
            HirExprKind::Cast { expr: x, .. } => expr_spec(s, syms, *x),
            HirExprKind::ArrayLiteral(es) => exprs_spec(s, syms, es@),
            HirExprKind::ArrayFill { value, .. } => expr_spec(s, syms, *value),
            HirExprKind::Range { start, end, .. } => {
                let s1 = match start {
                    Some(x) => expr_spec(s, syms, *x),
                    None => s,
                };
                match end {
                    Some(x) => expr_spec(s1, syms, *x),
                    None => s1,
                }
            },
            HirExprKind::Interpolation { parts } => parts_spec(s, syms, parts@),
            HirExprKind::MacroCall { args, .. } => exprs_spec(s, syms, args@),
            HirExprKind::UnsafeBlock(stmts, tail) => {
                let s1 = stmts_spec(s, syms, stmts@);
                match tail {
                    Some(t) => expr_spec(s1, syms, *t),
                    None => s1,
                }
            },
            _ => s,
        }
    }
}

/// A method call: the receiver, the arguments (a variable passed by value is moved into
/// the call) and the trailing block are checked; then, for a receiver that is a variable,
/// what the method does to it (see `receiver_effect`); borrows made meanwhile are
/// temporary and die.
pub open spec fn method_call_spec(s: CheckState, syms: Seq<Definition>, e: HirExpr) -> CheckState
    decreases e, 0nat,
{
    match e.kind {
        HirExprKind::MethodCall { object, method, method_name, args, block } => {
            let s1 = expr_spec(s, syms, *object);
            let s2 = args_spec(s1, syms, args@, method_name@);
            let s3 = match block {
                Some(b) => expr_spec(s2, syms, *b),
                None => s2,
            };
            let s4 = match object.kind {
                HirExprKind::VarRef(obj) => receiver_effect(s3, syms, obj, object.ty@, method, method_name@, e.span),
                _ => s3,
            };
            kill_after(s4, s.items.len())
        },
        _ => s,
    }
}

/// Expressions checked in turn.
pub open spec fn exprs_spec(st: CheckState, syms: Seq<Definition>, es: Seq<HirExpr>) -> CheckState
    decreases es, 0nat,
{
    if st.fault || es.len() == 0 {
        st
    } else {
        proof { assert(decreases_to!(es => es.drop_first())); }
        exprs_spec(expr_spec(st, syms, es[0]), syms, es.drop_first())
    }
}

/// After a call argument is checked: a variable passed by value is moved into the call.
pub open spec fn arg_step(s: CheckState, syms: Seq<Definition>, a: HirExpr, callee: Seq<char>) -> CheckState {
    match a.kind {
        HirExprKind::VarRef(src) => if !copy_eff(syms, a.ty@) { call_move(s, src, callee, a.ty@, a.span) } else { s },
        _ => s,
    }
}

/// Call arguments checked in turn; a variable passed by value is moved into the call.
pub open spec fn args_spec(st: CheckState, syms: Seq<Definition>, es: Seq<HirExpr>, callee: Seq<char>) -> CheckState
    decreases es, 0nat,
{
    if st.fault || es.len() == 0 {
        st
    } else {
        proof { assert(decreases_to!(es => es.drop_first())); }
        args_spec(arg_step(expr_spec(st, syms, es[0]), syms, es[0], callee), syms, es.drop_first(), callee)
    }
}

/// Field initialisers checked in turn.
pub open spec fn fields_spec(st: CheckState, syms: Seq<Definition>, fs: Seq<(String, HirExpr)>) -> CheckState
    decreases fs, 0nat,
{
    if st.fault || fs.len() == 0 {
        st
    } else {
        proof { assert(decreases_to!(fs => fs.drop_first())); }
        fields_spec(expr_spec(st, syms, fs[0].1), syms, fs.drop_first())
    }
}

/// The expressions of an interpolated string checked in turn.
pub open spec fn parts_spec(st: CheckState, syms: Seq<Definition>, ps: Seq<HirInterpolationPart>) -> CheckState
    decreases ps, 0nat,
{
    if st.fault || ps.len() == 0 {
        st
    } else {
        proof { assert(decreases_to!(ps => ps.drop_first())); }
        let s = match ps[0] {
            HirInterpolationPart::Expr(x) => expr_spec(st, syms, x),
            _ => st,
        };
        parts_spec(s, syms, ps.drop_first())
    }
}

/// One statement checked: a `let` checks its value (a variable is moved into the new
/// binding, `let r = &v` remembers that `r` refers to `v`), registers the binding and
/// the bindings of its pattern.
pub open spec fn stmts_spec(st: CheckState, syms: Seq<Definition>, ss: Seq<HirStatement>) -> CheckState
    decreases ss, 0nat,
{
    if st.fault || ss.len() == 0 {
        st
    } else {
        proof { assert(decreases_to!(ss => ss.drop_first())); }
        let p = st;
        let r = match ss[0] {
            HirStatement::Let { def_id, pattern, ty, value, mutable, span } => {
                let s1 = match value {
                    Some(v) => {
                        let a = expr_spec(p, syms, v);
                        match v.kind {
                            HirExprKind::VarRef(src) => if !copy_eff(syms, v.ty@) { transfer(a, src, def_id, v.ty@, span) } else { a },
                            _ => a,
                        }
                    },
                    None => p,
                };
                let s2 = match value {
                    Some(v) => match v.kind {
                        HirExprKind::Borrow { expr: inner, .. } => match inner.kind {
                            HirExprKind::VarRef(src) => CheckState { refs: s1.refs.insert(def_id, src), ..s1 },
                            _ => s1,
                        },
                        _ => s1,
                    },
                    None => s1,
                };
                pattern_spec(register(s2, def_id, ty@, mutable, span), syms, pattern)
            },
            HirStatement::Expr(x) => expr_spec(p, syms, x),
        };
        stmts_spec(r, syms, ss.drop_first())
    }
}

/// Match arms, each started from `snap`: the state after the last, and the ownership
/// and moves each arm ended with.
pub open spec fn arms_spec(cur: CheckState, snap: CheckState, syms: Seq<Definition>, arms: Seq<HirMatchArm>) -> (CheckState, Seq<Map<DefId, BindingStateView>>, Seq<Map<DefId, WatchedView>>)
    decreases arms, 0nat,
{
    if cur.fault || arms.len() == 0 {
        (cur, seq![], seq![])
    } else {
        proof { assert(decreases_to!(arms => arms.drop_first())); }
        let a = arms[0];
        let r0 = restart(cur, snap);
        let sid = ScopeId(r0.scopes as u32);
        let r1 = pattern_spec(push_scope(r0), syms, a.pattern);
        let r2 = match a.guard {
            Some(g) => expr_spec(r1, syms, *g),
            None => r1,
        };
        let r3 = leave_scope(expr_spec(r2, syms, *a.body), sid);
        let rest = arms_spec(r3, snap, syms, arms.drop_first());
        (rest.0, seq![r3.own] + rest.1, seq![r3.moves] + rest.2)
    }
}

/// Closure captures: a capture by move (or of a `move` closure) moves the variable into
/// the closure, any other capture borrows it (mutably for a `&mut` type).
pub open spec fn captures_spec(st: CheckState, syms: Seq<Definition>, caps: Seq<Capture>, is_move: bool, span: Span) -> CheckState
    decreases caps.len(),
{
    if st.fault || caps.len() == 0 {
        st
    } else {
        let p = st;
        let c = caps[0];
        let r = if c.by_move || is_move {
            if !copy_eff(syms, c.ty@) { call_move(p, c.def_id, "closure"@, c.ty@, span) } else { p }
        } else {
            create(p, if c.ty@ is RefMut || c.ty@ is RefMutLifetime { BorrowKind::Mutable } else { BorrowKind::Shared }, c.def_id, span)
        };
        captures_spec(r, syms, caps.drop_first(), is_move, span)
    }
}

/// Closure parameters registered (not `mut`).
pub open spec fn closure_params_spec(st: CheckState, ps: Seq<HirClosureParam>) -> CheckState
    decreases ps.len(),
{
    if st.fault || ps.len() == 0 {
        st
    } else {
        let x = ps[0];
        closure_params_spec(register(st, x.def_id, x.ty@, false, x.span), ps.drop_first())
    }
}

/// Function parameters registered.
pub open spec fn params_spec(st: CheckState, ps: Seq<HirParam>) -> CheckState
    decreases ps.len(),
{
    if st.fault || ps.len() == 0 {
        st
    } else {
        let x = ps[0];
        params_spec(register(st, x.def_id, x.ty@, true, x.span), ps.drop_first())
    }
}

/// A function checked in a scope of its own, its parameters registered.
pub open spec fn fn_spec(st: CheckState, syms: Seq<Definition>, f: HirFuncDef) -> CheckState {
    let sid = ScopeId(st.scopes as u32);
    leave_scope(expr_spec(params_spec(push_scope(st), f.params@), syms, *f.body), sid)
}

pub open spec fn fns_spec(st: CheckState, syms: Seq<Definition>, fs: Seq<HirFuncDef>) -> CheckState
    decreases fs.len(),
{
    if st.fault || fs.len() == 0 { st } else { fns_spec(fn_spec(st, syms, fs[0]), syms, fs.drop_first()) }
}

/// The methods of an impl block.
pub open spec fn impl_items_spec(st: CheckState, syms: Seq<Definition>, its: Seq<HirImplItem>) -> CheckState
    decreases its.len(),
{
    if st.fault || its.len() == 0 {
        st
    } else {
        let r = match its[0] {
            HirImplItem::Method(f) => fn_spec(st, syms, f),
            _ => st,
        };
        impl_items_spec(r, syms, its.drop_first())
    }
}

pub open spec fn impls_spec(st: CheckState, syms: Seq<Definition>, bs: Seq<HirImplBlock>) -> CheckState
    decreases bs.len(),
{
    if st.fault || bs.len() == 0 { st } else { impls_spec(impl_items_spec(st, syms, bs[0].items@), syms, bs.drop_first()) }
}

/// The default methods of a trait.
pub open spec fn trait_items_spec(st: CheckState, syms: Seq<Definition>, its: Seq<HirTraitItem>) -> CheckState
    decreases its.len(),
{
    if st.fault || its.len() == 0 {
        st
    } else {
        let r = match its[0] {
            HirTraitItem::DefaultMethod(f) => fn_spec(st, syms, f),
            _ => st,
        };
        trait_items_spec(r, syms, its.drop_first())
    }
}

/// An item checked: functions, the methods of classes, traits and impl blocks, and the
/// items of modules; other items hold no code.
pub open spec fn item_spec(st: CheckState, syms: Seq<Definition>, it: HirItem) -> CheckState
    decreases it,
{
    match it {
        HirItem::Function(f) => fn_spec(st, syms, f),
        HirItem::Class(c) => impls_spec(fns_spec(st, syms, c.methods@), syms, c.impl_blocks@),
        HirItem::Trait(t) => trait_items_spec(st, syms, t.items@),
        HirItem::Impl(b) => impl_items_spec(st, syms, b.items@),
        HirItem::Module(m) => items_spec(st, syms, m.items@),
        _ => st,
    }
}

pub open spec fn items_spec(st: CheckState, syms: Seq<Definition>, its: Seq<HirItem>) -> CheckState
    decreases its,
{
    if st.fault || its.len() == 0 {
        st
    } else {
        proof { assert(decreases_to!(its => its.drop_first())); }
        items_spec(item_spec(st, syms, its[0]), syms, its.drop_first())
    }
}

/// The whole pass over a program, from the initial state.
pub open spec fn program_spec(syms: Seq<Definition>, program: HirProgram) -> CheckState {
    items_spec(initial_state(), syms, program.items@)
}


// ─── A fault, once reached, stays ───────────────────────────────────

pub broadcast proof fn lemma_expr_spec_fault(st: CheckState, syms: Seq<Definition>, e: HirExpr)
    requires
        st.fault,
    ensures
        #[trigger] expr_spec(st, syms, e) == st,
{
}

pub broadcast proof fn lemma_exprs_spec_fault(st: CheckState, syms: Seq<Definition>, es: Seq<HirExpr>)
    requires
        st.fault,
    ensures
        #[trigger] exprs_spec(st, syms, es) == st,
{
}

pub broadcast proof fn lemma_fields_spec_fault(st: CheckState, syms: Seq<Definition>, fs: Seq<(String, HirExpr)>)
    requires
        st.fault,
    ensures
        #[trigger] fields_spec(st, syms, fs) == st,
{
}

pub broadcast proof fn lemma_parts_spec_fault(st: CheckState, syms: Seq<Definition>, ps: Seq<HirInterpolationPart>)
    requires
        st.fault,
    ensures
        #[trigger] parts_spec(st, syms, ps) == st,
{
}

pub broadcast proof fn lemma_stmts_spec_fault(st: CheckState, syms: Seq<Definition>, ss: Seq<HirStatement>)
    requires
        st.fault,
    ensures
        #[trigger] stmts_spec(st, syms, ss) == st,
{
}

pub broadcast proof fn lemma_patterns_spec_fault(st: CheckState, syms: Seq<Definition>, ps: Seq<HirPattern>)
    requires
        st.fault,
    ensures
        #[trigger] patterns_spec(st, syms, ps) == st,
{
}

pub broadcast proof fn lemma_field_patterns_spec_fault(st: CheckState, syms: Seq<Definition>, ps: Seq<(String, HirPattern)>)
    requires
        st.fault,
    ensures
        #[trigger] field_patterns_spec(st, syms, ps) == st,
{
}

pub broadcast proof fn lemma_args_spec_fault(st: CheckState, syms: Seq<Definition>, es: Seq<HirExpr>, callee: Seq<char>)
    requires
        st.fault,
    ensures
        #[trigger] args_spec(st, syms, es, callee) == st,
{
}

pub broadcast proof fn lemma_arms_spec_fault(st: CheckState, snap: CheckState, syms: Seq<Definition>, arms: Seq<HirMatchArm>)
    requires
        st.fault,
    ensures
        #[trigger] arms_spec(st, snap, syms, arms).0 == st,
{
}

pub broadcast proof fn lemma_method_call_spec_fault(st: CheckState, syms: Seq<Definition>, e: HirExpr)
    requires
        st.fault,
    ensures
        (#[trigger] method_call_spec(st, syms, e)).fault,
{
    broadcast use lemma_expr_spec_fault, lemma_args_spec_fault;
}

pub broadcast proof fn lemma_pattern_spec_fault(st: CheckState, syms: Seq<Definition>, p: HirPattern)
    requires
        st.fault,
    ensures
        (#[trigger] pattern_spec(st, syms, p)).fault,
{
    broadcast use lemma_patterns_spec_fault, lemma_field_patterns_spec_fault;
}

pub broadcast group group_fault_sticks {
    lemma_expr_spec_fault,
    lemma_exprs_spec_fault,
    lemma_fields_spec_fault,
    lemma_parts_spec_fault,
    lemma_stmts_spec_fault,
    lemma_patterns_spec_fault,
    lemma_field_patterns_spec_fault,
    lemma_args_spec_fault,
    lemma_arms_spec_fault,
    lemma_method_call_spec_fault,
    lemma_pattern_spec_fault,
}

// ─── Executable helpers ─────────────────────────────────────────────

fn join3(a: &str, b: &str, c: &str) -> (r: String)
    ensures
        r@ == a@ + b@ + c@,
{
    let mut r = string_of(a);
    push_str(&mut r, b);
    push_str(&mut r, c);
    r
}

fn join5(a: &str, b: &str, c: &str, d: &str, e: &str) -> (r: String)
    ensures
        r@ == a@ + b@ + c@ + d@ + e@,
{
    let mut r = join3(a, b, c);
    push_str(&mut r, d);
    push_str(&mut r, e);
    r
}

fn kind_word_exec(k: BorrowKind) -> (r: &'static str)
    ensures
        r@ == kind_word(k),
{
    match k {
        BorrowKind::Mutable => "mutable",
        BorrowKind::Shared => "immutable",
    }
}

fn label(span: Span, text: String) -> (r: SpanLabel)
    ensures
        label_view(r) == (LabelView { span, label: text@ }),
{
    SpanLabel { span, label: text }
}

proof fn lemma_first_with_id(items: Seq<BorrowInfoView>, id: BorrowId)
    ensures
        match first_with_id(items, id) {
            Some(i) => 0 <= i < items.len() && items[i].id == id && forall|j: int| 0 <= j < i ==> items[j].id != id,
            None => forall|j: int| 0 <= j < items.len() ==> items[j].id != id,
        },
    decreases items.len(),
{
    if items.len() > 0 {
        lemma_first_with_id(items.drop_last(), id);
        assert forall|j: int| 0 <= j < items.len() - 1 implies items.drop_last()[j] == items[j] by {}
    }
}

/// Records `span` as the latest use of each borrow in `ids`, in turn.
fn record_all(bs: &mut BorrowSet, ids: &Vec<BorrowId>, span: Span)
    ensures
        final(bs).items() == record_uses(old(bs).items(), ids@, span),
        final(bs).next() == old(bs).next(),
{
    let ghost items0 = bs.items();
    let mut i: usize = 0;
    while i < ids.len()
        invariant
            i <= ids@.len(),
            bs.items() == record_uses(items0, ids@.take(i as int), span),
            bs.next() == old(bs).next(),
            items0 == old(bs).items(),
        decreases ids@.len() - i,
    {
        let ghost before = bs.items();
        let id = ids[i];
        bs.record_use(id, span);
        proof {
            lemma_first_with_id(before, id);
            assert(ids@.take(i + 1).drop_last() =~= ids@.take(i as int));
            assert(ids@.take(i + 1).last() == id);
            match first_with_id(before, id) {
                Some(k) => {},
                None => {},
            }
            assert(bs.items() == record_use_items(before, id, span));
        }
        i = i + 1;
    }
    proof { assert(ids@.take(ids@.len() as int) =~= ids@); }
}

/// The ids of a list of borrows.
fn ids_from(v: &Vec<&crate::borrow_check::borrows::BorrowInfo>) -> (r: Vec<BorrowId>)
    ensures
        r@ == ids_of(crate::borrow_check::borrows::derefs(v@)),
{
    let mut r: Vec<BorrowId> = Vec::new();
    let mut k: usize = 0;
    while k < v.len()
        invariant
            k <= v@.len(),
            r@ == ids_of(crate::borrow_check::borrows::derefs(v@)).take(k as int),
        decreases v@.len() - k,
    {
        let f = v[k].fields();
        r.push(f.id);
        k = k + 1;
        proof { assert(r@ =~= ids_of(crate::borrow_check::borrows::derefs(v@)).take(k as int)); }
    }
    proof { assert(ids_of(crate::borrow_check::borrows::derefs(v@)).take(k as int) =~= ids_of(crate::borrow_check::borrows::derefs(v@))); }
    r
}

fn is_mutating_name_exec(n: &str) -> (r: bool)
    ensures
        r == is_mutating_name(n@),
{
    str_eq(n, "push") || str_eq(n, "pop") || str_eq(n, "insert") || str_eq(n, "remove") || str_eq(n, "clear")
        || str_eq(n, "sort") || str_eq(n, "reverse") || str_eq(n, "push_str") || str_eq(n, "truncate")
        || str_eq(n, "extend") || str_eq(n, "retain") || str_eq(n, "drain") || str_eq(n, "iter_mut")
        || str_eq(n, "set")
}

fn contains_str(v: &Vec<String>, t: &str) -> (r: bool)
    ensures
        r == strings_view(v@).contains(t@),
{
    let mut k: usize = 0;
    while k < v.len()
        invariant
            k <= v@.len(),
            forall|j: int| 0 <= j < k ==> v@[j]@ != t@,
        decreases v@.len() - k,
    {
        if str_eq(v[k].as_str(), t) {
            proof { assert(strings_view(v@)[k as int] == t@); }
            return true;
        }
        k = k + 1;
    }
    proof {
        if strings_view(v@).contains(t@) {
            let j = choose|j: int| 0 <= j < strings_view(v@).len() && strings_view(v@)[j] == t@;
            assert(v@[j]@ == t@);
        }
    }
    false
}

/// Whether the first struct named `name` in the symbol table derives `tr`.
fn struct_derives(symbols: &SymbolTable, name: &str, tr: &str) -> (r: bool)
    ensures
        r == struct_derives_from(symbols.defs(), name@, tr@, 0),
{
    let defs = symbols.iter();
    let ghost syms = symbols.defs();
    let mut k: usize = 0;
    while k < defs.len()
        invariant
            k <= defs@.len(),
            defs@ == syms,
            syms == symbols.defs(),
            struct_derives_from(syms, name@, tr@, 0) == struct_derives_from(syms, name@, tr@, k as int),
        decreases defs@.len() - k,
    {
        let d = &defs[k];
        proof { assert(*d == syms[k as int]); }
        if str_eq(d.name.as_str(), name) {
            match &d.kind {
                DefKind::Struct { info } => {
                    let r = contains_str(&info.derive_traits, tr);
                    proof {
                        assert(syms[k as int].kind is Struct);
                        assert(struct_derives_from(syms, name@, tr@, k as int) == strings_view(info.derive_traits@).contains(tr@));
                        assert(r == struct_derives_from(syms, name@, tr@, 0));
                        assert(syms == symbols.defs());
                    }
                    return r;
                },
                _ => {},
            }
        }
        k = k + 1;
    }
    false
}

/// Through references, aliases and newtypes, the struct underneath derives `tr`.
fn struct_has_derive(ty: &Ty, symbols: &SymbolTable, tr: &str) -> (r: bool)
    ensures
        r == struct_has_derive_spec(symbols.defs(), ty@, tr@),
    decreases ty,
{
    match ty {
        Ty::Struct { name, .. } => struct_derives(symbols, name.as_str(), tr),
        Ty::Ref(inner) => struct_has_derive(&**inner, symbols, tr),
        Ty::RefMut(inner) => struct_has_derive(&**inner, symbols, tr),
        Ty::RefLifetime(_, inner) => struct_has_derive(&**inner, symbols, tr),
        Ty::RefMutLifetime(_, inner) => struct_has_derive(&**inner, symbols, tr),
        Ty::Alias { target, .. } => struct_has_derive(&**target, symbols, tr),
        Ty::Newtype { inner, .. } => struct_has_derive(&**inner, symbols, tr),
        _ => false,
    }
}


proof fn lemma_first_blocking(items: Seq<BorrowInfoView>, kind: BorrowKind, place: DefId, i: int)
    requires
        0 <= i < items.len(),
        blocks(items[i], kind, place),
        forall|j: int| 0 <= j < i ==> !blocks(#[trigger] items[j], kind, place),
    ensures
        first_blocking(items, kind, place) == Some(i),
{
    let k = choose|k: int| 0 <= k < items.len() && blocks(items[k], kind, place) && forall|j: int| 0 <= j < k ==> !blocks(#[trigger] items[j], kind, place);
    if k < i {
        assert(!blocks(items[k], kind, place));
    } else if k > i {
        assert(!blocks(items[i], kind, place));
    }
}

proof fn lemma_first_active(items: Seq<BorrowInfoView>, place: DefId, i: int)
    requires
        0 <= i < items.len(),
        active_for(items[i], place),
        forall|j: int| 0 <= j < i ==> !active_for(#[trigger] items[j], place),
    ensures
        first_active(items, place) == Some(i),
{
    let k = choose|k: int| 0 <= k < items.len() && active_for(items[k], place) && forall|j: int| 0 <= j < k ==> !active_for(#[trigger] items[j], place);
    if k < i {
        assert(!active_for(items[k], place));
    } else if k > i {
        assert(!active_for(items[i], place));
    }
}

// ─── The checker ────────────────────────────────────────────────────

/// Walks a typed program and collects its ownership and borrowing errors.
pub struct BorrowChecker<'a> {
    symbols: &'a SymbolTable,
    scopes: ScopeStack,
    ownership: OwnershipState,
    borrows: BorrowSet,
    moves: MoveChecker,
    lifetimes: LifetimeChecker,
    /// Whether each binding is `mut`.
    mutability: HashMap<DefId, bool>,
    /// For `let r = &v`, `r` maps to `v`.
    ref_bindings: HashMap<DefId, DefId>,
    errors: Vec<BorrowError>,
}

impl<'a> BorrowChecker<'a> {
    /// The checker's state as a model.
    pub closed spec fn model(&self) -> CheckState {
        CheckState {
            fault: false,
            scopes: self.scopes.count(),
            open: self.scopes.open_scopes(),
            own: self.ownership.states(),
            items: self.borrows.items(),
            next: self.borrows.next(),
            moves: self.moves.watched(),
            mutability: self.mutability@,
            refs: self.ref_bindings@,
            errors: errors_view(self.errors@),
        }
    }

    /// The definitions of the symbol table the checker reads.
    pub closed spec fn syms(&self) -> Seq<Definition> {
        self.symbols.defs()
    }

    /// A checker at the start of the pass.
    pub fn new(symbols: &'a SymbolTable) -> (r: BorrowChecker<'a>)
        ensures
            r.model() == initial_state(),
            r.syms() == symbols.defs(),
    {
        let r = BorrowChecker {
            symbols,
            scopes: ScopeStack::new(),
            ownership: OwnershipState::new(),
            borrows: BorrowSet::new(),
            moves: MoveChecker::new(),
            lifetimes: LifetimeChecker::new(),
            mutability: HashMap::new(),
            ref_bindings: HashMap::new(),
            errors: Vec::new(),
        };
        proof {
            assert(r.mutability@ =~= Map::empty());
            assert(r.ref_bindings@ =~= Map::empty());
            assert(errors_view(r.errors@) =~= Seq::empty());
        }
        r
    }

    /// The name shown for a definition: its name, else `_` and its id.
    pub fn def_name(&self, def_id: DefId) -> (r: String)
        ensures
            r@ == def_name_spec(self.syms(), def_id),
    {
        match self.symbols.get(def_id) {
            Some(d) => string_of(d.name.as_str()),
            None => {
                let mut r = string_of("_");
                push_decimal(&mut r, def_id as u64);
                r
            },
        }
    }

    /// Whether a binding is `mut`: as registered by the pass, else as declared.
    pub fn is_mutable(&self, def_id: DefId) -> (r: bool)
        ensures
            r == is_mutable_spec(self.model(), self.syms(), def_id),
    {
        proof { broadcast use vstd::std_specs::hash::group_hash_axioms; }
        match self.mutability.get(&def_id) {
            Some(m) => {
                return *m;
            },
            None => {},
        }
        match self.symbols.get(def_id) {
            Some(d) => match &d.kind {
                DefKind::Variable { mutable, .. } => *mutable,
                _ => false,
            },
            None => false,
        }
    }

    /// Copied rather than moved: a `Copy` type, or a struct that derives `Copy`.
    pub fn ty_is_effectively_copy(&self, ty: &Ty) -> (r: bool)
        ensures
            r == copy_eff(self.syms(), ty@),
    {
        if ty.is_copy() {
            return true;
        }
        struct_has_derive(ty, self.symbols, "Copy")
    }

    /// Registers a new binding: owned, watched for moves, with its mutability, in the
    /// innermost scope.
    pub fn register_binding(&mut self, def_id: DefId, ty: &Ty, mutable: bool, span: Span)
        requires
            !register(old(self).model(), def_id, ty@, mutable, span).fault,
        ensures
            final(self).model() == register(old(self).model(), def_id, ty@, mutable, span),
            final(self).syms() == old(self).syms(),
    {
        proof { broadcast use vstd::std_specs::hash::group_hash_axioms; }
        self.scopes.register_binding(def_id);
        self.ownership.declare(def_id);
        self.moves.declare(def_id, ty.duplicate(), span);
        self.mutability.insert(def_id, mutable);
    }

    fn report(&mut self, e: BorrowError)
        ensures
            final(self).model() == report(old(self).model(), error_view(e)),
            final(self).syms() == old(self).syms(),
    {
        let ghost before = self.errors@;
        self.errors.push(e);
        proof { assert(errors_view(self.errors@) =~= errors_view(before).push(error_view(e))); }
    }

    /// A reference to variable `def_id` at `span`: the borrows it holds, and those of the
    /// place it refers to, are used here; a use after a move is reported.
    pub fn check_var_ref(&mut self, def_id: DefId, span: Span)
        ensures
            final(self).model() == var_ref(old(self).model(), old(self).syms(), def_id, span),
            final(self).syms() == old(self).syms(),
    {
        proof { broadcast use vstd::std_specs::hash::group_hash_axioms; }
        let held = self.borrows.borrows_held_by(def_id);
        let ids = ids_from(&held);
        record_all(&mut self.borrows, &ids, span);
        match self.ref_bindings.get(&def_id) {
            Some(src) => {
                let src = *src;
                let act = self.borrows.active_borrows_of(src);
                let ids2 = ids_from(&act);
                record_all(&mut self.borrows, &ids2, span);
            },
            None => {},
        }
        match self.moves.check_use(def_id, span) {
            Err(err) => {
                let name = self.def_name(def_id);
                let primary = label(span, join3("`", name.as_str(), "` used here after move"));
                let s1 = label(err.declared_span, join3("`", name.as_str(), "` defined here"));
                let ghost m = old(self).model().moves[def_id].moved.unwrap();
                let s2 = match &err.callee {
                    Some(c) => label(err.move_span, join3("value moved into `", c.as_str(), "` here")),
                    None => label(err.move_span, string_of("value moved here")),
                };
                proof {
                    assert(label_view(s2) == (LabelView {
                        span: m.span,
                        label: match m.callee {
                            Some(c) => "value moved into `"@ + c + "` here"@,
                            None => "value moved here"@,
                        },
                    }));
                }
                let help = join3("consider cloning the value: `", name.as_str(), ".clone`");
                let e = BorrowError { code: ErrorCode::E1001, primary, secondary: vec![s1, s2], help: vec![help] };
                proof {
                    let w = old(self).model().moves[def_id];
                    let nm = def_name_spec(self.syms(), def_id);
                    assert(name@ == nm);
                    assert(label_view(primary) == (LabelView { span, label: "`"@ + nm + "` used here after move"@ }));
                    assert(label_view(s1) == (LabelView { span: w.declared_span, label: "`"@ + nm + "` defined here"@ }));
                    assert(help@ == "consider cloning the value: `"@ + nm + ".clone`"@);
                    let ue = use_after_move_error(nm, span, w, w.moved.unwrap());
                    assert(m == w.moved.unwrap());
                    assert(e.secondary@.map_values(|l: SpanLabel| label_view(l)) =~= ue.secondary);
                    assert(strings_view(e.help@) =~= ue.help);
                    assert(error_view(e).primary == ue.primary);
                    assert(error_view(e) == ue);
                }
                self.report(e);
            },
            Ok(_) => {},
        }
    }

    /// An assignment to a variable that is not `mut` is reported.
    pub fn check_assign_target_mutability(&mut self, target: &HirExpr, span: Span)
        ensures
            final(self).model() == assign_mut_check(old(self).model(), old(self).syms(), *target, span),
            final(self).syms() == old(self).syms(),
    {
        match &target.kind {
            HirExprKind::VarRef(def_id) => {
                if !self.is_mutable(*def_id) {
                    let name = self.def_name(*def_id);
                    let e = BorrowError {
                        code: ErrorCode::E1006,
                        primary: label(span, join3("cannot assign to `", name.as_str(), "` — variable is not `mut`")),
                        secondary: vec![],
                        help: vec![join3("consider declaring with `let mut ", name.as_str(), "`")],
                    };
                    proof {
                        assert(e.secondary@.map_values(|l: SpanLabel| label_view(l)) =~= Seq::<LabelView>::empty());
                        assert(strings_view(e.help@) =~= seq![e.help@[0]@]);
                    }
                    self.report(e);
                }
            },
            _ => {},
        }
    }
}


impl<'a> BorrowChecker<'a> {
    fn expire_exec(&mut self, point: Span)
        ensures
            final(self).model() == expire(old(self).model(), point),
            final(self).syms() == old(self).syms(),
    {
        self.borrows.expire_before(point);
        proof { assert(self.borrows.items() =~= expire(old(self).model(), point).items); }
    }

    fn push_scope_exec(&mut self, kind: ScopeKind) -> (r: ScopeId)
        requires
            !push_scope(old(self).model()).fault,
        ensures
            final(self).model() == push_scope(old(self).model()),
            r == ScopeId(old(self).model().scopes as u32),
            final(self).syms() == old(self).syms(),
    {
        self.scopes.push(kind)
    }

    fn leave_scope_exec(&mut self, sid: ScopeId)
        requires
            !leave_scope(old(self).model(), sid).fault,
        ensures
            final(self).model() == leave_scope(old(self).model(), sid),
            final(self).syms() == old(self).syms(),
    {
        self.borrows.kill_scope(sid);
        proof { assert(self.borrows.items() =~= kill_scope(old(self).model(), sid).items); }
        self.scopes.pop();
    }

    fn kill_after_exec(&mut self, cp: usize)
        requires
            !kill_after(old(self).model(), cp as nat).fault,
        ensures
            final(self).model() == kill_after(old(self).model(), cp as nat),
            final(self).syms() == old(self).syms(),
    {
        self.borrows.kill_after_checkpoint(cp);
        proof { assert(self.borrows.items() =~= kill_after(old(self).model(), cp as nat).items); }
    }

    fn create_exec(&mut self, kind: BorrowKind, place: DefId, span: Span)
        requires
            !create(old(self).model(), kind, place, span).fault,
        ensures
            final(self).model() == create(old(self).model(), kind, place, span),
            final(self).syms() == old(self).syms(),
    {
        let scope = self.scopes.current();
        self.borrows.create(kind, place, place, span, scope);
    }

    fn call_move_exec(&mut self, source: DefId, callee: &str, ty: &Ty, span: Span)
        ensures
            final(self).model() == call_move(old(self).model(), source, callee@, ty@, span),
            final(self).syms() == old(self).syms(),
    {
        self.moves.process_call_move(source, string_of(callee), ty, span);
        self.ownership.record_move_into_call(source, string_of(callee), span);
    }

    fn transfer_exec(&mut self, source: DefId, target: DefId, ty: &Ty, span: Span)
        ensures
            final(self).model() == transfer(old(self).model(), source, target, ty@, span),
            final(self).syms() == old(self).syms(),
    {
        self.moves.process_transfer(source, Some(target), ty, span);
        self.ownership.record_move(source, target, span);
    }

    /// A mutation of `obj` through a method while it is borrowed is reported.
    fn mutation_conflict_exec(&mut self, obj: DefId, span: Span)
        ensures
            final(self).model() == mutation_conflict(old(self).model(), old(self).syms(), obj, span),
            final(self).syms() == old(self).syms(),
    {
        match self.borrows.check_mutation(obj) {
            Err(conflict) => {
                let ex = conflict.existing.fields();
                proof {
                    let i = choose|i: int| 0 <= i < self.borrows.items().len() && active_for(self.borrows.items()[i], obj)
                        && conflict.existing@ == self.borrows.items()[i] && forall|j: int| 0 <= j < i ==> !active_for(#[trigger] self.borrows.items()[j], obj);
                    lemma_first_active(self.borrows.items(), obj, i);
                }
                let name = self.def_name(obj);
                let sec = label(ex.created_span, join5("previous ", kind_word_exec(ex.kind), " borrow of `", name.as_str(), "` here"));
                let e = BorrowError {
                    code: ErrorCode::E1002,
                    primary: label(span, join3("cannot mutably borrow `", name.as_str(), "` — already borrowed")),
                    secondary: vec![sec],
                    help: vec![string_of("ensure the previous borrow is no longer in use")],
                };
                proof {
                    assert(e.secondary@.map_values(|l: SpanLabel| label_view(l)) =~= seq![label_view(sec)]);
                    assert(strings_view(e.help@) =~= seq![e.help@[0]@]);
                }
                self.report(e);
            },
            Ok(()) => {
                proof {
                    assert(first_active(self.borrows.items(), obj) is None);
                }
            },
        }
    }

    /// An assignment to `id` while it is borrowed is reported.
    fn assign_conflict_exec(&mut self, id: DefId, span: Span)
        ensures
            final(self).model() == assign_conflict(old(self).model(), old(self).syms(), id, span),
            final(self).syms() == old(self).syms(),
    {
        match self.borrows.check_mutation(id) {
            Err(conflict) => {
                let ex = conflict.existing.fields();
                proof {
                    let i = choose|i: int| 0 <= i < self.borrows.items().len() && active_for(self.borrows.items()[i], id)
                        && conflict.existing@ == self.borrows.items()[i] && forall|j: int| 0 <= j < i ==> !active_for(#[trigger] self.borrows.items()[j], id);
                    lemma_first_active(self.borrows.items(), id, i);
                }
                let name = self.def_name(id);
                let sec = label(ex.created_span, string_of("borrow created here"));
                let e = BorrowError {
                    code: ErrorCode::E1009,
                    primary: label(span, join3("cannot assign to `", name.as_str(), "` — currently borrowed")),
                    secondary: vec![sec],
                    help: vec![],
                };
                proof {
                    assert(e.secondary@.map_values(|l: SpanLabel| label_view(l)) =~= seq![label_view(sec)]);
                    assert(strings_view(e.help@) =~= Seq::<Seq<char>>::empty());
                }
                self.report(e);
            },
            Ok(()) => {
                proof {
                    assert(first_active(self.borrows.items(), id) is None);
                }
            },
        }
    }

    /// `&mut` of a variable that is not `mut` is reported.
    fn mut_borrow_check_exec(&mut self, mutable: bool, id: DefId, span: Span)
        ensures
            final(self).model() == mut_borrow_check(old(self).model(), old(self).syms(), mutable, id, span),
            final(self).syms() == old(self).syms(),
    {
        if mutable && !self.is_mutable(id) {
            let name = self.def_name(id);
            let e = BorrowError {
                code: ErrorCode::E1007,
                primary: label(span, join3("cannot borrow `", name.as_str(), "` as mutable — it is not declared as `mut`")),
                secondary: vec![],
                help: vec![join3("consider declaring with `let mut ", name.as_str(), "`")],
            };
            proof {
                assert(e.secondary@.map_values(|l: SpanLabel| label_view(l)) =~= Seq::<LabelView>::empty());
                assert(strings_view(e.help@) =~= seq![e.help@[0]@]);
            }
            self.report(e);
        }
    }

    /// A borrow of `id`: refused and reported when it conflicts with a live borrow,
    /// else created in the innermost scope.
    fn borrow_place_exec(&mut self, kind: BorrowKind, id: DefId, span: Span)
        requires
            !borrow_place(old(self).model(), old(self).syms(), kind, id, span).fault,
        ensures
            final(self).model() == borrow_place(old(self).model(), old(self).syms(), kind, id, span),
            final(self).syms() == old(self).syms(),
    {
        match self.borrows.check_new_borrow(kind, id) {
            Err(conflict) => {
                let ex = conflict.existing.fields();
                proof {
                    let i = choose|i: int| 0 <= i < self.borrows.items().len() && blocks(self.borrows.items()[i], kind, id)
                        && conflict.existing@ == self.borrows.items()[i] && forall|j: int| 0 <= j < i ==> !blocks(#[trigger] self.borrows.items()[j], kind, id);
                    lemma_first_blocking(self.borrows.items(), kind, id, i);
                }
                let name = self.def_name(id);
                let code = match (kind, ex.kind) {
                    (BorrowKind::Shared, BorrowKind::Mutable) => ErrorCode::E1003,
                    _ => ErrorCode::E1002,
                };
                let sec = label(ex.created_span, join5("previous ", kind_word_exec(ex.kind), " borrow of `", name.as_str(), "` here"));
                let e = BorrowError {
                    code,
                    primary: label(span, join3("cannot borrow `", name.as_str(), "` here")),
                    secondary: vec![sec],
                    help: vec![],
                };
                proof {
                    assert(e.secondary@.map_values(|l: SpanLabel| label_view(l)) =~= seq![label_view(sec)]);
                    assert(strings_view(e.help@) =~= Seq::<Seq<char>>::empty());
                }
                self.report(e);
            },
            Ok(()) => {
                proof {
                    assert(first_blocking(self.borrows.items(), kind, id) is None);
                }
                self.create_exec(kind, id, span);
            },
        }
    }

    /// What a method call does to its receiver `obj`.
    fn receiver_effect_exec(&mut self, obj: DefId, obj_ty: &Ty, method: DefId, name: &str, span: Span)
        requires
            !receiver_effect(old(self).model(), old(self).syms(), obj, obj_ty@, method, name@, span).fault,
        ensures
            final(self).model() == receiver_effect(old(self).model(), old(self).syms(), obj, obj_ty@, method, name@, span),
            final(self).syms() == old(self).syms(),
    {
        let symbols = self.symbols;
        match symbols.get(method) {
            Some(def) => {
                match &def.kind {
                    DefKind::Method { signature } => match signature.self_mode {
                        Some(HirSelfMode::Consuming) => {
                            if !self.ty_is_effectively_copy(obj_ty) {
                                self.call_move_exec(obj, name, obj_ty, span);
                            }
                        },
                        Some(HirSelfMode::RefMut) => {
                            self.mutation_conflict_exec(obj, span);
                        },
                        _ => {},
                    },
                    _ => {},
                }
            },
            None => {
                if is_mutating_name_exec(name) {
                    self.mutation_conflict_exec(obj, span);
                }
                if str_eq(name, "iter") {
                    self.create_exec(BorrowKind::Shared, obj, span);
                } else if str_eq(name, "into_iter") {
                    if !self.ty_is_effectively_copy(obj_ty) {
                        self.call_move_exec(obj, "into_iter", obj_ty, span);
                    }
                }
            },
        }
    }

    /// A reinitialising assignment to `id`, and the move of a variable on its right.
    fn assign_effect_exec(&mut self, id: DefId, tspan: Span, value: &HirExpr, semantics: MoveSemantics)
        ensures
            final(self).model() == assign_effect(old(self).model(), old(self).syms(), id, tspan, *value, semantics),
            final(self).syms() == old(self).syms(),
    {
        self.assign_conflict_exec(id, tspan);
        if self.ownership.is_moved(id) {
            self.ownership.reinitialize(id);
            self.moves.reinitialize(id, tspan);
        }
        if semantics == MoveSemantics::Move {
            match &value.kind {
                HirExprKind::VarRef(src) => {
                    if !self.ty_is_effectively_copy(&value.ty) {
                        self.transfer_exec(*src, id, &value.ty, tspan);
                    }
                },
                _ => {},
            }
        }
    }

    /// Returning `&local` is reported.
    fn return_check_exec(&mut self, e: &HirExpr, span: Span)
        ensures
            final(self).model() == return_check(old(self).model(), old(self).syms(), *e, span),
            final(self).syms() == old(self).syms(),
    {
        if e.ty.is_ref() {
            match &e.kind {
                HirExprKind::Borrow { expr: inner, .. } => match &inner.kind {
                    HirExprKind::VarRef(id) => {
                        let symbols = self.symbols;
                        match symbols.get(*id) {
                            Some(def) => match &def.kind {
                                DefKind::Variable { .. } => {
                                    let sec = label(def.span, join3("`", def.name.as_str(), "` defined here"));
                                    let err = BorrowError {
                                        code: ErrorCode::E1010,
                                        primary: label(span, join3("returns a reference to local variable `", def.name.as_str(), "`")),
                                        secondary: vec![sec],
                                        help: vec![string_of("consider returning an owned value instead")],
                                    };
                                    proof {
                                        assert(err.secondary@.map_values(|l: SpanLabel| label_view(l)) =~= seq![label_view(sec)]);
                                        assert(strings_view(err.help@) =~= seq![err.help@[0]@]);
                                    }
                                    self.report(err);
                                },
                                _ => {},
                            },
                            None => {},
                        }
                    },
                    _ => {},
                },
                _ => {},
            }
        }
    }
}


impl<'a> BorrowChecker<'a> {
    /// Registers the bindings a pattern introduces, each with its declared type.
    fn process_pattern(&mut self, pattern: &HirPattern)
        requires
            !pattern_spec(old(self).model(), old(self).syms(), *pattern).fault,
        ensures
            final(self).model() == pattern_spec(old(self).model(), old(self).syms(), *pattern),
            final(self).syms() == old(self).syms(),
        decreases pattern,
    {
        match pattern {
            HirPattern::Binding { def_id, mutable, span, .. } => {
                let ty = match self.symbols.def_ty(*def_id) {
                    Some(t) => t,
                    None => Ty::Infer(0),
                };
                self.register_binding(*def_id, &ty, *mutable, *span);
            },
            HirPattern::Ref { def_id, mutable, span, .. } => {
                let ty = match self.symbols.def_ty(*def_id) {
                    Some(t) => t,
                    None => Ty::Infer(0),
                };
                self.register_binding(*def_id, &ty, *mutable, *span);
            },
            HirPattern::Tuple { elements, .. } => self.process_patterns(elements),
            HirPattern::Enum { fields, .. } => self.process_patterns(fields),
            HirPattern::Struct { fields, .. } => self.process_field_patterns(fields),
            HirPattern::Or { patterns, .. } => self.process_patterns(patterns),
            _ => {},
        }
    }

    fn process_patterns(&mut self, ps: &Vec<HirPattern>)
        requires
            !patterns_spec(old(self).model(), old(self).syms(), ps@).fault,
        ensures
            final(self).model() == patterns_spec(old(self).model(), old(self).syms(), ps@),
            final(self).syms() == old(self).syms(),
        decreases ps,
    {
        let ghost syms = self.syms();
        let ghost goal = patterns_spec(self.model(), syms, ps@);
        let mut i: usize = 0;
        proof { assert(ps@.skip(0) =~= ps@); }
        while i < ps.len()
            invariant
                i <= ps@.len(),
                syms == self.syms(),
                syms == old(self).syms(),
                goal == patterns_spec(old(self).model(), syms, ps@),
                goal == patterns_spec(self.model(), syms, ps@.skip(i as int)),
                !goal.fault,
            decreases ps@.len() - i,
        {
            proof {
                assert(ps@.skip(i as int)[0] == ps@[i as int]);
                assert(ps@.skip(i as int).drop_first() =~= ps@.skip(i + 1));
                let m = self.model();
                assert(!m.fault);
                let nx = pattern_spec(m, syms, ps@[i as int]);
                assert(goal == patterns_spec(nx, syms, ps@.skip(i + 1)));
                if nx.fault {
                    assert(patterns_spec(nx, syms, ps@.skip(i + 1)) == nx);
                }
            }
            self.process_pattern(&ps[i]);
            i = i + 1;
        }
    }

    fn process_field_patterns(&mut self, ps: &Vec<(String, HirPattern)>)
        requires
            !field_patterns_spec(old(self).model(), old(self).syms(), ps@).fault,
        ensures
            final(self).model() == field_patterns_spec(old(self).model(), old(self).syms(), ps@),
            final(self).syms() == old(self).syms(),
        decreases ps,
    {
        let ghost syms = self.syms();
        let ghost goal = field_patterns_spec(self.model(), syms, ps@);
        let mut i: usize = 0;
        proof { assert(ps@.skip(0) =~= ps@); }
        while i < ps.len()
            invariant
                i <= ps@.len(),
                syms == self.syms(),
                syms == old(self).syms(),
                goal == field_patterns_spec(old(self).model(), syms, ps@),
                goal == field_patterns_spec(self.model(), syms, ps@.skip(i as int)),
                !goal.fault,
            decreases ps@.len() - i,
        {
            proof {
                assert(ps@.skip(i as int)[0] == ps@[i as int]);
                assert(ps@.skip(i as int).drop_first() =~= ps@.skip(i + 1));
                let m = self.model();
                assert(!m.fault);
                let nx = pattern_spec(m, syms, ps@[i as int].1);
                assert(goal == field_patterns_spec(nx, syms, ps@.skip(i + 1)));
                if nx.fault {
                    assert(field_patterns_spec(nx, syms, ps@.skip(i + 1)) == nx);
                }
            }
            self.process_pattern(&ps[i].1);
            i = i + 1;
        }
    }
}


impl<'a> BorrowChecker<'a> {
    fn check_exprs(&mut self, es: &Vec<HirExpr>)
        requires
            !exprs_spec(old(self).model(), old(self).syms(), es@).fault,
        ensures
            final(self).model() == exprs_spec(old(self).model(), old(self).syms(), es@),
            final(self).syms() == old(self).syms(),
        decreases es, 0nat,
    {
        let ghost syms = self.syms();
        let ghost goal = exprs_spec(self.model(), syms, es@);
        let mut i: usize = 0;
        proof { assert(es@.skip(0) =~= es@); }
        while i < es.len()
            invariant
                i <= es@.len(),
                syms == self.syms(),
                syms == old(self).syms(),
                goal == exprs_spec(old(self).model(), syms, es@),
                goal == exprs_spec(self.model(), syms, es@.skip(i as int)),
                !goal.fault,
            decreases es@.len() - i,
        {
            proof {
                assert(es@.skip(i as int)[0] == es@[i as int]);
                assert(es@.skip(i as int).drop_first() =~= es@.skip(i + 1));
                assert(!self.model().fault);
            }
            let ghost m = self.model();
            proof {
                let nx = expr_spec(m, syms, es@[i as int]);
                if nx.fault { assert(exprs_spec(nx, syms, es@.skip(i + 1)) == nx); }
            }
            self.check_expr(&es[i]);
            i = i + 1;
        }
    }

    fn check_args(&mut self, es: &Vec<HirExpr>, callee: &str)
        requires
            !args_spec(old(self).model(), old(self).syms(), es@, callee@).fault,
        ensures
            final(self).model() == args_spec(old(self).model(), old(self).syms(), es@, callee@),
            final(self).syms() == old(self).syms(),
        decreases es, 0nat,
    {
        let ghost syms = self.syms();
        let ghost goal = args_spec(self.model(), syms, es@, callee@);
        let mut i: usize = 0;
        proof { assert(es@.skip(0) =~= es@); }
        while i < es.len()
            invariant
                i <= es@.len(),
                syms == self.syms(),
                syms == old(self).syms(),
                goal == args_spec(old(self).model(), syms, es@, callee@),
                goal == args_spec(self.model(), syms, es@.skip(i as int), callee@),
                !goal.fault,
            decreases es@.len() - i,
        {
            proof {
                assert(es@.skip(i as int)[0] == es@[i as int]);
                assert(es@.skip(i as int).drop_first() =~= es@.skip(i + 1));
                assert(!self.model().fault);
            }
            let ghost m = self.model();
            proof {
                let nx = expr_spec(m, syms, es@[i as int]);
                let ny = arg_step(nx, syms, es@[i as int], callee@);
                if nx.fault { assert(ny.fault); }
                if ny.fault { assert(args_spec(ny, syms, es@.skip(i + 1), callee@) == ny); }
            }
            let a = &es[i];
            self.check_expr(a);
            match &a.kind {
                HirExprKind::VarRef(src) => {
                    if !self.ty_is_effectively_copy(&a.ty) {
                        self.call_move_exec(*src, callee, &a.ty, a.span);
                    }
                },
                _ => {},
            }
            i = i + 1;
        }
    }

    fn check_fields(&mut self, es: &Vec<(String, HirExpr)>)
        requires
            !fields_spec(old(self).model(), old(self).syms(), es@).fault,
        ensures
            final(self).model() == fields_spec(old(self).model(), old(self).syms(), es@),
            final(self).syms() == old(self).syms(),
        decreases es, 0nat,
    {
        let ghost syms = self.syms();
        let ghost goal = fields_spec(self.model(), syms, es@);
        let mut i: usize = 0;
        proof { assert(es@.skip(0) =~= es@); }
        while i < es.len()
            invariant
                i <= es@.len(),
                syms == self.syms(),
                syms == old(self).syms(),
                goal == fields_spec(old(self).model(), syms, es@),
                goal == fields_spec(self.model(), syms, es@.skip(i as int)),
                !goal.fault,
            decreases es@.len() - i,
        {
            proof {
                assert(es@.skip(i as int)[0] == es@[i as int]);
                assert(es@.skip(i as int).drop_first() =~= es@.skip(i + 1));
                assert(!self.model().fault);
            }
            let ghost m = self.model();
            proof {
                let nx = expr_spec(m, syms, es@[i as int].1);
                if nx.fault { assert(fields_spec(nx, syms, es@.skip(i + 1)) == nx); }
            }
            self.check_expr(&es[i].1);
            i = i + 1;
        }
    }

    fn check_parts(&mut self, es: &Vec<HirInterpolationPart>)
        requires
            !parts_spec(old(self).model(), old(self).syms(), es@).fault,
        ensures
            final(self).model() == parts_spec(old(self).model(), old(self).syms(), es@),
            final(self).syms() == old(self).syms(),
        decreases es, 0nat,
    {
        let ghost syms = self.syms();
        let ghost goal = parts_spec(self.model(), syms, es@);
        let mut i: usize = 0;
        proof { assert(es@.skip(0) =~= es@); }
        while i < es.len()
            invariant
                i <= es@.len(),
                syms == self.syms(),
                syms == old(self).syms(),
                goal == parts_spec(old(self).model(), syms, es@),
                goal == parts_spec(self.model(), syms, es@.skip(i as int)),
                !goal.fault,
            decreases es@.len() - i,
        {
            proof {
                assert(es@.skip(i as int)[0] == es@[i as int]);
                assert(es@.skip(i as int).drop_first() =~= es@.skip(i + 1));
                assert(!self.model().fault);
            }
            let ghost m = self.model();
            proof {
                let nx = match es@[i as int] { HirInterpolationPart::Expr(x) => expr_spec(m, syms, x), _ => m };
                if nx.fault { assert(parts_spec(nx, syms, es@.skip(i + 1)) == nx); }
            }
            match &es[i] {
                HirInterpolationPart::Expr(x) => self.check_expr(x),
                _ => {},
            }
            i = i + 1;
        }
    }

    fn check_stmts(&mut self, es: &Vec<HirStatement>)
        requires
            !stmts_spec(old(self).model(), old(self).syms(), es@).fault,
        ensures
            final(self).model() == stmts_spec(old(self).model(), old(self).syms(), es@),
            final(self).syms() == old(self).syms(),
        decreases es, 0nat,
    {
        let ghost syms = self.syms();
        let ghost goal = stmts_spec(self.model(), syms, es@);
        let mut i: usize = 0;
        proof { assert(es@.skip(0) =~= es@); }
        while i < es.len()
            invariant
                i <= es@.len(),
                syms == self.syms(),
                syms == old(self).syms(),
                goal == stmts_spec(old(self).model(), syms, es@),
                goal == stmts_spec(self.model(), syms, es@.skip(i as int)),
                !goal.fault,
            decreases es@.len() - i,
        {
            proof {
                assert(es@.skip(i as int)[0] == es@[i as int]);
                assert(es@.skip(i as int).drop_first() =~= es@.skip(i + 1));
                assert(!self.model().fault);
            }
            let ghost m = self.model();
            let ghost nx = match es@[i as int] {
                HirStatement::Let { def_id, pattern, ty, value, mutable, span } => {
                    let s1 = match value {
                        Some(v) => {
                            let a = expr_spec(m, syms, v);
                            match v.kind {
                                HirExprKind::VarRef(src) => if !copy_eff(syms, v.ty@) { transfer(a, src, def_id, v.ty@, span) } else { a },
                                _ => a,
                            }
                        },
                        None => m,
                    };
                    let s2 = match value {
                        Some(v) => match v.kind {
                            HirExprKind::Borrow { expr: inner, .. } => match inner.kind {
                                HirExprKind::VarRef(src) => CheckState { refs: s1.refs.insert(def_id, src), ..s1 },
                                _ => s1,
                            },
                            _ => s1,
                        },
                        None => s1,
                    };
                    pattern_spec(register(s2, def_id, ty@, mutable, span), syms, pattern)
                },
                HirStatement::Expr(x) => expr_spec(m, syms, x),
            };
            proof {
                assert(goal == stmts_spec(nx, syms, es@.skip(i + 1)));
                if nx.fault { assert(stmts_spec(nx, syms, es@.skip(i + 1)) == nx); }
            }
            match &es[i] {
                HirStatement::Let { def_id, pattern, ty, value, mutable, span } => {
                    match value {
                        Some(v) => {
                            self.check_expr(v);
                            match &v.kind {
                                HirExprKind::VarRef(src) => {
                                    if !self.ty_is_effectively_copy(&v.ty) {
                                        self.transfer_exec(*src, *def_id, &v.ty, *span);
                                    }
                                },
                                _ => {},
                            }
                            match &v.kind {
                                HirExprKind::Borrow { expr: inner, .. } => match &inner.kind {
                                    HirExprKind::VarRef(src) => {
                                        proof { broadcast use vstd::std_specs::hash::group_hash_axioms; }
                                        self.ref_bindings.insert(*def_id, *src);
                                    },
                                    _ => {},
                                },
                                _ => {},
                            }
                        },
                        None => {},
                    }
                    self.register_binding(*def_id, ty, *mutable, *span);
                    let cur = self.scopes.current();
                    self.lifetimes.register_local(*def_id, cur);
                    self.process_pattern(pattern);
                },
                HirStatement::Expr(x) => self.check_expr(x),
            }
            i = i + 1;
        }
    }
}


impl<'a> BorrowChecker<'a> {
    /// Checks one expression (see `expr_spec`).
    pub fn check_expr(&mut self, expr: &HirExpr)
        requires
            !expr_spec(old(self).model(), old(self).syms(), *expr).fault,
        ensures
            final(self).model() == expr_spec(old(self).model(), old(self).syms(), *expr),
            final(self).syms() == old(self).syms(),
        decreases expr, 1nat,
    {
        let ghost syms = self.syms();
        proof { assert(!old(self).model().fault); }
        broadcast use group_fault_sticks;
        self.expire_exec(expr.span);
        match &expr.kind {
            HirExprKind::VarRef(id) => self.check_var_ref(*id, expr.span),
            HirExprKind::FieldAccess { object, .. } => {
                proof {
                    let s0 = expire(old(self).model(), expr.span);
                    assert(self.model() == s0);
                    assert(expr_spec(old(self).model(), syms, *expr) == expr_spec(s0, syms, **object));
                }
                self.check_expr(&**object);
            },
            HirExprKind::MethodCall { .. } => self.check_method_call(expr),
            HirExprKind::FnCall { callee_name, args, .. } => {
                proof {
                    let s0 = expire(old(self).model(), expr.span);
                    assert(self.model() == s0);
                    assert(expr_spec(old(self).model(), syms, *expr) == kill_after(args_spec(s0, syms, args@, callee_name@), s0.items.len()));
                }
                let cp = self.borrows.checkpoint();
                self.check_args(args, callee_name.as_str());
                self.kill_after_exec(cp);
            },
            HirExprKind::BinaryOp { left, right, .. } => {
                proof {
                    let s0 = expire(old(self).model(), expr.span);
                    assert(self.model() == s0);
                    assert(expr_spec(old(self).model(), syms, *expr) == expr_spec(expr_spec(s0, syms, **left), syms, **right));
                }
                self.check_expr(&**left);
                self.check_expr(&**right);
            },
            HirExprKind::UnaryOp { operand, .. } => {
                proof {
                    let s0 = expire(old(self).model(), expr.span);
                    assert(self.model() == s0);
                    assert(expr_spec(old(self).model(), syms, *expr) == expr_spec(s0, syms, **operand));
                }
                self.check_expr(&**operand);
            },
            HirExprKind::Borrow { mutable, expr: inner } => {
                proof {
                    let s0 = expire(old(self).model(), expr.span);
                    assert(self.model() == s0);
                    assert(expr_spec(old(self).model(), syms, *expr) == {
                        let s1 = expr_spec(s0, syms, **inner);
                        match inner.kind {
                            HirExprKind::VarRef(id) => borrow_place(
                                mut_borrow_check(s1, syms, *mutable, id, expr.span),
                                syms,
                                if *mutable { BorrowKind::Mutable } else { BorrowKind::Shared },
                                id,
                                expr.span,
                            ),
                            _ => s1,
                        }
                    });
                }
                self.check_expr(&**inner);
                match &inner.kind {
                    HirExprKind::VarRef(id) => {
                        self.mut_borrow_check_exec(*mutable, *id, expr.span);
                        let kind = if *mutable { BorrowKind::Mutable } else { BorrowKind::Shared };
                        self.borrow_place_exec(kind, *id, expr.span);
                    },
                    _ => {},
                }
            },
            HirExprKind::Block(stmts, tail) => {
                proof {
                    let s0 = expire(old(self).model(), expr.span);
                    assert(self.model() == s0);
                    assert(expr_spec(old(self).model(), syms, *expr) == leave_scope(match tail { Some(t) => expr_spec(stmts_spec(push_scope(s0), syms, stmts@), syms, **t), None => stmts_spec(push_scope(s0), syms, stmts@) }, ScopeId(s0.scopes as u32)));
                }
                let sid = self.push_scope_exec(ScopeKind::Block);
                self.check_stmts(stmts);
                match tail {
                    Some(t) => self.check_expr(&**t),
                    None => {},
                }
                self.leave_scope_exec(sid);
            },
            HirExprKind::If { cond, then_branch, else_branch } => {
                proof {
                    let s0 = expire(old(self).model(), expr.span);
                    assert(self.model() == s0);
                    assert(expr_spec(old(self).model(), syms, *expr) == {
                        let s1 = expr_spec(s0, syms, **cond);
                        let s2 = expr_spec(s1, syms, **then_branch);
                        let r = restart(s2, s1);
                        merge_if(s2, match else_branch { Some(b) => expr_spec(r, syms, **b), None => r })
                    });
                }
                self.check_expr(&**cond);
                let own_snap = self.ownership.snapshot();
                let moves_snap = self.moves.snapshot();
                let borrows_snap = self.borrows.snapshot();
                self.check_expr(&**then_branch);
                let then_own = self.ownership.snapshot();
                let then_moves = self.moves.snapshot();
                self.ownership = own_snap;
                self.moves.restore(&moves_snap);
                self.borrows.restore(&borrows_snap);
                match else_branch {
                    Some(b) => self.check_expr(&**b),
                    None => {},
                }
                let else_own = self.ownership.snapshot();
                let else_moves = self.moves.snapshot();
                let ghost g_own = seq![then_own.states(), else_own.states()];
                let ghost g_moves = seq![then_moves.watched(), else_moves.watched()];
                let owns = vec![then_own, else_own];
                let mvs = vec![then_moves, else_moves];
                proof {
                    assert(branch_states(owns@) =~= g_own);
                    assert(checker_views(mvs@) =~= g_moves);
                }
                self.ownership = OwnershipState::merge(owns);
                self.moves.merge(mvs);
            },
            HirExprKind::Match { scrutinee, arms } => {
                proof {
                    let s0 = expire(old(self).model(), expr.span);
                    assert(self.model() == s0);
                    assert(expr_spec(old(self).model(), syms, *expr) == {
                        let s1 = expr_spec(s0, syms, **scrutinee);
                        if arms@.len() == 0 {
                            s1
                        } else {
                            let r = arms_spec(s1, s1, syms, arms@);
                            CheckState { own: merge_all(r.1), moves: merge_watched_prefix(r.2, arms@.len() as int), ..r.0 }
                        }
                    });
                }
                self.check_expr(&**scrutinee);
                if arms.len() > 0 {
                    self.check_arms(arms);
                }
            },
            HirExprKind::Loop { body } => {
                proof {
                    let s0 = expire(old(self).model(), expr.span);
                    assert(self.model() == s0);
                    assert(expr_spec(old(self).model(), syms, *expr) == leave_scope(expr_spec(push_scope(s0), syms, **body), ScopeId(s0.scopes as u32)));
                }
                let sid = self.push_scope_exec(ScopeKind::Loop);
                self.check_expr(&**body);
                self.leave_scope_exec(sid);
            },
            HirExprKind::While { condition, body } => {
                proof {
                    let s0 = expire(old(self).model(), expr.span);
                    assert(self.model() == s0);
                    assert(expr_spec(old(self).model(), syms, *expr) == {
                        let s1 = expr_spec(s0, syms, **condition);
                        leave_scope(expr_spec(push_scope(s1), syms, **body), ScopeId(s1.scopes as u32))
                    });
                }
                self.check_expr(&**condition);
                let sid = self.push_scope_exec(ScopeKind::Loop);
                self.check_expr(&**body);
                self.leave_scope_exec(sid);
            },
            HirExprKind::For { binding, iterable, body, .. } => {
                proof {
                    let s0 = expire(old(self).model(), expr.span);
                    assert(self.model() == s0);
                    assert(expr_spec(old(self).model(), syms, *expr) == {
                        let s1 = expr_spec(s0, syms, **iterable);
                        leave_scope(expr_spec(register(push_scope(s1), *binding, TyView::Infer(0), false, iterable.span), syms, **body), ScopeId(s1.scopes as u32))
                    });
                }
                self.check_expr(&**iterable);
                let sid = self.push_scope_exec(ScopeKind::Loop);
                self.register_binding(*binding, &Ty::Infer(0), false, iterable.span);
                self.check_expr(&**body);
                self.leave_scope_exec(sid);
            },
            HirExprKind::Assign { target, value, semantics } => {
                proof {
                    let s0 = expire(old(self).model(), expr.span);
                    assert(self.model() == s0);
                    assert(expr_spec(old(self).model(), syms, *expr) == {
                        let s2 = assign_mut_check(expr_spec(s0, syms, **value), syms, **target, target.span);
                        match target.kind {
                            HirExprKind::VarRef(id) => assign_effect(s2, syms, id, target.span, **value, *semantics),
                            _ => s2,
                        }
                    });
                }
                self.check_expr(&**value);
                self.check_assign_target_mutability(&**target, target.span);
                match &target.kind {
                    HirExprKind::VarRef(id) => self.assign_effect_exec(*id, target.span, &**value, *semantics),
                    _ => {},
                }
            },
            HirExprKind::CompoundAssign { target, value, .. } => {
                proof {
                    let s0 = expire(old(self).model(), expr.span);
                    assert(self.model() == s0);
                    assert(expr_spec(old(self).model(), syms, *expr) == expr_spec(expr_spec(assign_mut_check(s0, syms, **target, expr.span), syms, **target), syms, **value));
                }
                self.check_assign_target_mutability(&**target, expr.span);
                self.check_expr(&**target);
                self.check_expr(&**value);
            },
            HirExprKind::Return(opt) => {
                proof {
                    let s0 = expire(old(self).model(), expr.span);
                    assert(self.model() == s0);
                    assert(expr_spec(old(self).model(), syms, *expr) == match opt { Some(x) => return_check(expr_spec(s0, syms, **x), syms, **x, expr.span), None => s0 });
                }
                match opt {
                    Some(x) => {
                        self.check_expr(&**x);
                        self.return_check_exec(&**x, expr.span);
                    },
                    None => {},
                }
            },
            HirExprKind::Break(opt) => {
                proof {
                    let s0 = expire(old(self).model(), expr.span);
                    assert(self.model() == s0);
                    assert(expr_spec(old(self).model(), syms, *expr) == match opt { Some(x) => expr_spec(s0, syms, **x), None => s0 });
                }
                match opt {
                    Some(x) => self.check_expr(&**x),
                    None => {},
                }
            },
            HirExprKind::Closure { params, body, captures, is_move } => {
                proof {
                    let s0 = expire(old(self).model(), expr.span);
                    assert(self.model() == s0);
                    assert(expr_spec(old(self).model(), syms, *expr) == {
                        let s1 = captures_spec(s0, syms, captures@, *is_move, expr.span);
                        leave_scope(expr_spec(closure_params_spec(push_scope(s1), params@), syms, **body), ScopeId(s1.scopes as u32))
                    });
                }
                self.check_captures(captures, *is_move, expr.span);
                let sid = self.push_scope_exec(ScopeKind::Closure);
                self.register_closure_params(params);
                self.check_expr(&**body);
                self.leave_scope_exec(sid);
            },
            HirExprKind::Construct { fields, .. } => {
                proof {
                    let s0 = expire(old(self).model(), expr.span);
                    assert(self.model() == s0);
                    assert(expr_spec(old(self).model(), syms, *expr) == fields_spec(s0, syms, fields@));
                }
                self.check_fields(fields);
            },
            HirExprKind::EnumVariant { fields, .. } => {
                proof {
                    let s0 = expire(old(self).model(), expr.span);
                    assert(self.model() == s0);
                    assert(expr_spec(old(self).model(), syms, *expr) == fields_spec(s0, syms, fields@));
                }
                self.check_fields(fields);
            },
            HirExprKind::Tuple(es) => {
                proof {
                    let s0 = expire(old(self).model(), expr.span);
                    assert(self.model() == s0);
                    assert(expr_spec(old(self).model(), syms, *expr) == exprs_spec(s0, syms, es@));
                }
                self.check_exprs(es);
            },
            HirExprKind::Index { object, index } => {
                proof {
                    let s0 = expire(old(self).model(), expr.span);
                    assert(self.model() == s0);
                    assert(expr_spec(old(self).model(), syms, *expr) == expr_spec(expr_spec(s0, syms, **object), syms, **index));
                }
                self.check_expr(&**object);
                self.check_expr(&**index);
            },
            HirExprKind::Cast { expr: x, .. } => {
                proof {
                    let s0 = expire(old(self).model(), expr.span);
                    assert(self.model() == s0);
                    assert(expr_spec(old(self).model(), syms, *expr) == expr_spec(s0, syms, **x));
                }
                self.check_expr(&**x);
            },
            HirExprKind::ArrayLiteral(es) => {
                proof {
                    let s0 = expire(old(self).model(), expr.span);
                    assert(self.model() == s0);
                    assert(expr_spec(old(self).model(), syms, *expr) == exprs_spec(s0, syms, es@));
                }
                self.check_exprs(es);
            },
            HirExprKind::ArrayFill { value, .. } => {
                proof {
                    let s0 = expire(old(self).model(), expr.span);
                    assert(self.model() == s0);
                    assert(expr_spec(old(self).model(), syms, *expr) == expr_spec(s0, syms, **value));
                }
                self.check_expr(&**value);
            },
            HirExprKind::Range { start, end, .. } => {
                proof {
                    let s0 = expire(old(self).model(), expr.span);
                    assert(self.model() == s0);
                    assert(expr_spec(old(self).model(), syms, *expr) == {
                        let s1 = match start { Some(x) => expr_spec(s0, syms, **x), None => s0 };
                        match end { Some(x) => expr_spec(s1, syms, **x), None => s1 }
                    });
                }
                match start {
                    Some(x) => self.check_expr(&**x),
                    None => {},
                }
                match end {
                    Some(x) => self.check_expr(&**x),
                    None => {},
                }
            },
            HirExprKind::Interpolation { parts } => {
                proof {
                    let s0 = expire(old(self).model(), expr.span);
                    assert(self.model() == s0);
                    assert(expr_spec(old(self).model(), syms, *expr) == parts_spec(s0, syms, parts@));
                }
                self.check_parts(parts);
            },
            HirExprKind::MacroCall { args, .. } => {
                proof {
                    let s0 = expire(old(self).model(), expr.span);
                    assert(self.model() == s0);
                    assert(expr_spec(old(self).model(), syms, *expr) == exprs_spec(s0, syms, args@));
                }
                self.check_exprs(args);
            },
            HirExprKind::UnsafeBlock(stmts, tail) => {
                proof {
                    let s0 = expire(old(self).model(), expr.span);
                    assert(self.model() == s0);
                    assert(expr_spec(old(self).model(), syms, *expr) == match tail { Some(t) => expr_spec(stmts_spec(s0, syms, stmts@), syms, **t), None => stmts_spec(s0, syms, stmts@) });
                }
                self.check_stmts(stmts);
                match tail {
                    Some(t) => self.check_expr(&**t),
                    None => {},
                }
            },
            _ => {},
        }
    }

    /// Checks a method call (see `method_call_spec`); any other expression is left as it is.
    pub fn check_method_call(&mut self, expr: &HirExpr)
        requires
            !method_call_spec(old(self).model(), old(self).syms(), *expr).fault,
        ensures
            final(self).model() == method_call_spec(old(self).model(), old(self).syms(), *expr),
            final(self).syms() == old(self).syms(),
        decreases expr, 0nat,
    {
        broadcast use group_fault_sticks;
        match &expr.kind {
            HirExprKind::MethodCall { object, method, method_name, args, block } => {
                let cp = self.borrows.checkpoint();
                self.check_expr(&**object);
                self.check_args(args, method_name.as_str());
                match block {
                    Some(b) => self.check_expr(&**b),
                    None => {},
                }
                match &object.kind {
                    HirExprKind::VarRef(obj) => {
                        self.receiver_effect_exec(*obj, &object.ty, *method, method_name.as_str(), expr.span);
                    },
                    _ => {},
                }
                self.kill_after_exec(cp);
            },
            _ => {},
        }
    }

    /// Checks the arms of a match, each from the state before the first, and merges them.
    fn check_arms(&mut self, arms: &Vec<HirMatchArm>)
        requires
            arms@.len() > 0,
            !arms_spec(old(self).model(), old(self).model(), old(self).syms(), arms@).0.fault,
        ensures
            final(self).model() == ({
                let r = arms_spec(old(self).model(), old(self).model(), old(self).syms(), arms@);
                CheckState { own: merge_all(r.1), moves: merge_watched_prefix(r.2, arms@.len() as int), ..r.0 }
            }),
            final(self).syms() == old(self).syms(),
        decreases arms, 0nat,
    {
        let ghost syms = self.syms();
        let ghost snap = self.model();
        let ghost goal = arms_spec(snap, snap, syms, arms@);
        let own_snap = self.ownership.snapshot();
        let moves_snap = self.moves.snapshot();
        let borrows_snap = self.borrows.snapshot();
        let mut branch_owns: Vec<OwnershipState> = Vec::new();
        let mut branch_moves: Vec<MoveChecker> = Vec::new();
        let mut i: usize = 0;
        proof {
            assert(arms@.skip(0) =~= arms@);
            assert(branch_states(branch_owns@) + goal.1 =~= goal.1);
            assert(checker_views(branch_moves@) + goal.2 =~= goal.2);
        }
        while i < arms.len()
            invariant
                i <= arms@.len(),
                syms == self.syms(),
                syms == old(self).syms(),
                snap == old(self).model(),
                goal == arms_spec(snap, snap, syms, arms@),
                own_snap.states() == snap.own,
                moves_snap.watched() == snap.moves,
                borrows_snap.items() == snap.items,
                branch_owns@.len() == i,
                branch_moves@.len() == i,
                ({
                    let rest = arms_spec(if i == 0 { snap } else { self.model() }, snap, syms, arms@.skip(i as int));
                    &&& goal.0 == rest.0
                    &&& goal.1 == branch_states(branch_owns@) + rest.1
                    &&& goal.2 == checker_views(branch_moves@) + rest.2
                }),
                i == 0 ==> self.model() == snap,
                !goal.0.fault,
            decreases arms@.len() - i,
        {
            let ghost cur = self.model();
            proof {
                assert(arms@.skip(i as int)[0] == arms@[i as int]);
                assert(arms@.skip(i as int).drop_first() =~= arms@.skip(i + 1));
                assert(!cur.fault);
            }
            self.ownership = own_snap.snapshot();
            self.moves.restore(&moves_snap);
            self.borrows.restore(&borrows_snap);
            let arm = &arms[i];
            let ghost r0 = restart(cur, snap);
            proof { assert(self.model() == r0); }
            let ghost r1 = pattern_spec(push_scope(r0), syms, arm.pattern);
            let ghost r2 = match &arm.guard { Some(g) => expr_spec(r1, syms, **g), None => r1 };
            let ghost r3 = leave_scope(expr_spec(r2, syms, *arm.body), ScopeId(r0.scopes as u32));
            proof {
                if r3.fault {
                    assert(arms_spec(r3, snap, syms, arms@.skip(i + 1)).0 == r3);
                }
            }
            let sid = self.push_scope_exec(ScopeKind::MatchArm);
            self.process_pattern(&arm.pattern);
            match &arm.guard {
                Some(g) => self.check_expr(&**g),
                None => {},
            }
            self.check_expr(&*arm.body);
            self.leave_scope_exec(sid);
            let o = self.ownership.snapshot();
            let mv = self.moves.snapshot();
            let ghost bo = branch_owns@;
            let ghost bm = branch_moves@;
            branch_owns.push(o);
            branch_moves.push(mv);
            proof {
                assert(self.model() == r3);
                assert(branch_states(branch_owns@) =~= branch_states(bo).push(r3.own));
                assert(checker_views(branch_moves@) =~= checker_views(bm).push(r3.moves));
                let rest = arms_spec(r3, snap, syms, arms@.skip(i + 1));
                assert(branch_states(bo) + (seq![r3.own] + rest.1) =~= branch_states(branch_owns@) + rest.1);
                assert(checker_views(bm) + (seq![r3.moves] + rest.2) =~= checker_views(branch_moves@) + rest.2);
            }
            i = i + 1;
        }
        proof {
            assert(arms@.skip(i as int) =~= Seq::<HirMatchArm>::empty());
            assert(branch_states(branch_owns@) =~= goal.1);
            assert(checker_views(branch_moves@) =~= goal.2);
        }
        self.ownership = OwnershipState::merge(branch_owns);
        self.moves.merge(branch_moves);
    }

    /// Closure captures: moved into the closure, or borrowed.
    fn check_captures(&mut self, caps: &Vec<Capture>, is_move: bool, span: Span)
        requires
            !captures_spec(old(self).model(), old(self).syms(), caps@, is_move, span).fault,
        ensures
            final(self).model() == captures_spec(old(self).model(), old(self).syms(), caps@, is_move, span),
            final(self).syms() == old(self).syms(),
    {
        let ghost syms = self.syms();
        let ghost goal = captures_spec(self.model(), syms, caps@, is_move, span);
        let mut i: usize = 0;
        proof { assert(caps@.skip(0) =~= caps@); }
        while i < caps.len()
            invariant
                i <= caps@.len(),
                syms == self.syms(),
                syms == old(self).syms(),
                goal == captures_spec(old(self).model(), syms, caps@, is_move, span),
                goal == captures_spec(self.model(), syms, caps@.skip(i as int), is_move, span),
                !goal.fault,
            decreases caps@.len() - i,
        {
            proof {
                assert(caps@.skip(i as int)[0] == caps@[i as int]);
                assert(caps@.skip(i as int).drop_first() =~= caps@.skip(i + 1));
                assert(!self.model().fault);
            }
            let c = &caps[i];
            let ghost m = self.model();
            let ghost nx = if c.by_move || is_move {
                if !copy_eff(syms, c.ty@) { call_move(m, c.def_id, "closure"@, c.ty@, span) } else { m }
            } else {
                create(m, if c.ty@ is RefMut || c.ty@ is RefMutLifetime { BorrowKind::Mutable } else { BorrowKind::Shared }, c.def_id, span)
            };
            proof {
                if nx.fault { assert(captures_spec(nx, syms, caps@.skip(i + 1), is_move, span) == nx); }
            }
            if c.by_move || is_move {
                if !self.ty_is_effectively_copy(&c.ty) {
                    self.call_move_exec(c.def_id, "closure", &c.ty, span);
                }
            } else {
                let kind = if c.ty.is_mut_ref() { BorrowKind::Mutable } else { BorrowKind::Shared };
                self.create_exec(kind, c.def_id, span);
            }
            i = i + 1;
        }
    }

    /// Closure parameters registered (not `mut`).
    fn register_closure_params(&mut self, ps: &Vec<HirClosureParam>)
        requires
            !closure_params_spec(old(self).model(), ps@).fault,
        ensures
            final(self).model() == closure_params_spec(old(self).model(), ps@),
            final(self).syms() == old(self).syms(),
    {
        let ghost goal = closure_params_spec(self.model(), ps@);
        let mut i: usize = 0;
        proof { assert(ps@.skip(0) =~= ps@); }
        while i < ps.len()
            invariant
                i <= ps@.len(),
                self.syms() == old(self).syms(),
                goal == closure_params_spec(old(self).model(), ps@),
                goal == closure_params_spec(self.model(), ps@.skip(i as int)),
                !goal.fault,
            decreases ps@.len() - i,
        {
            proof {
                assert(ps@.skip(i as int)[0] == ps@[i as int]);
                assert(ps@.skip(i as int).drop_first() =~= ps@.skip(i + 1));
                assert(!self.model().fault);
            }
            let x = &ps[i];
            proof {
                let nx = register(self.model(), x.def_id, x.ty@, false, x.span);
                if nx.fault { assert(closure_params_spec(nx, ps@.skip(i + 1)) == nx); }
            }
            self.register_binding(x.def_id, &x.ty, false, x.span);
            i = i + 1;
        }
    }
}


impl<'a> BorrowChecker<'a> {
    /// Checks a function in a scope of its own, its parameters registered.
    fn check_function(&mut self, func: &HirFuncDef)
        requires
            !fn_spec(old(self).model(), old(self).syms(), *func).fault,
        ensures
            final(self).model() == fn_spec(old(self).model(), old(self).syms(), *func),
            final(self).syms() == old(self).syms(),
    {
        let ghost syms = self.syms();
        let ghost m0 = self.model();
        broadcast use group_fault_sticks;
        let sid = self.push_scope_exec(ScopeKind::Function);
        self.lifetimes.clear_locals();
        let ghost goal = params_spec(self.model(), func.params@);
        let mut i: usize = 0;
        proof { assert(func.params@.skip(0) =~= func.params@); }
        while i < func.params.len()
            invariant
                i <= func.params@.len(),
                syms == self.syms(),
                syms == old(self).syms(),
                m0 == old(self).model(),
                sid == ScopeId(m0.scopes as u32),
                goal == params_spec(push_scope(m0), func.params@),
                goal == params_spec(self.model(), func.params@.skip(i as int)),
                !leave_scope(expr_spec(goal, syms, *func.body), sid).fault,
            decreases func.params@.len() - i,
        {
            proof {
                assert(func.params@.skip(i as int)[0] == func.params@[i as int]);
                assert(func.params@.skip(i as int).drop_first() =~= func.params@.skip(i + 1));
                assert(!self.model().fault);
            }
            let p = &func.params[i];
            proof {
                let nx = register(self.model(), p.def_id, p.ty@, true, p.span);
                if nx.fault { assert(params_spec(nx, func.params@.skip(i + 1)) == nx); }
            }
            self.register_binding(p.def_id, &p.ty, true, p.span);
            self.lifetimes.register_local(p.def_id, sid);
            i = i + 1;
        }
        self.check_expr(&*func.body);
        self.leave_scope_exec(sid);
    }

    fn check_functions(&mut self, es: &Vec<HirFuncDef>)
        requires
            !fns_spec(old(self).model(), old(self).syms(), es@).fault,
        ensures
            final(self).model() == fns_spec(old(self).model(), old(self).syms(), es@),
            final(self).syms() == old(self).syms(),
    {
        let ghost syms = self.syms();
        let ghost goal = fns_spec(self.model(), syms, es@);
        let mut i: usize = 0;
        proof { assert(es@.skip(0) =~= es@); }
        while i < es.len()
            invariant
                i <= es@.len(),
                syms == self.syms(),
                syms == old(self).syms(),
                goal == fns_spec(old(self).model(), syms, es@),
                goal == fns_spec(self.model(), syms, es@.skip(i as int)),
                !goal.fault,
            decreases es@.len() - i,
        {
            proof {
                assert(es@.skip(i as int)[0] == es@[i as int]);
                assert(es@.skip(i as int).drop_first() =~= es@.skip(i + 1));
                assert(!self.model().fault);
            }
            proof {
                let nx = fn_spec(self.model(), syms, es@[i as int]);
                if nx.fault { assert(fns_spec(nx, syms, es@.skip(i + 1)) == nx); }
            }
            self.check_function(&es[i]);
            i = i + 1;
        }
    }

    fn check_impl_items(&mut self, es: &Vec<HirImplItem>)
        requires
            !impl_items_spec(old(self).model(), old(self).syms(), es@).fault,
        ensures
            final(self).model() == impl_items_spec(old(self).model(), old(self).syms(), es@),
            final(self).syms() == old(self).syms(),
    {
        let ghost syms = self.syms();
        let ghost goal = impl_items_spec(self.model(), syms, es@);
        let mut i: usize = 0;
        proof { assert(es@.skip(0) =~= es@); }
        while i < es.len()
            invariant
                i <= es@.len(),
                syms == self.syms(),
                syms == old(self).syms(),
                goal == impl_items_spec(old(self).model(), syms, es@),
                goal == impl_items_spec(self.model(), syms, es@.skip(i as int)),
                !goal.fault,
            decreases es@.len() - i,
        {
            proof {
                assert(es@.skip(i as int)[0] == es@[i as int]);
                assert(es@.skip(i as int).drop_first() =~= es@.skip(i + 1));
                assert(!self.model().fault);
            }
            proof {
                let nx = match es@[i as int] { HirImplItem::Method(f) => fn_spec(self.model(), syms, f), _ => self.model() };
                if nx.fault { assert(impl_items_spec(nx, syms, es@.skip(i + 1)) == nx); }
            }
            match &es[i] {
                HirImplItem::Method(f) => self.check_function(f),
                _ => {},
            }
            i = i + 1;
        }
    }

    fn check_impl_blocks(&mut self, es: &Vec<HirImplBlock>)
        requires
            !impls_spec(old(self).model(), old(self).syms(), es@).fault,
        ensures
            final(self).model() == impls_spec(old(self).model(), old(self).syms(), es@),
            final(self).syms() == old(self).syms(),
    {
        let ghost syms = self.syms();
        let ghost goal = impls_spec(self.model(), syms, es@);
        let mut i: usize = 0;
        proof { assert(es@.skip(0) =~= es@); }
        while i < es.len()
            invariant
                i <= es@.len(),
                syms == self.syms(),
                syms == old(self).syms(),
                goal == impls_spec(old(self).model(), syms, es@),
                goal == impls_spec(self.model(), syms, es@.skip(i as int)),
                !goal.fault,
            decreases es@.len() - i,
        {
            proof {
                assert(es@.skip(i as int)[0] == es@[i as int]);
                assert(es@.skip(i as int).drop_first() =~= es@.skip(i + 1));
                assert(!self.model().fault);
            }
            proof {
                let nx = impl_items_spec(self.model(), syms, es@[i as int].items@);
                if nx.fault { assert(impls_spec(nx, syms, es@.skip(i + 1)) == nx); }
            }
            self.check_impl_items(&es[i].items);
            i = i + 1;
        }
    }

    fn check_trait_items(&mut self, es: &Vec<HirTraitItem>)
        requires
            !trait_items_spec(old(self).model(), old(self).syms(), es@).fault,
        ensures
            final(self).model() == trait_items_spec(old(self).model(), old(self).syms(), es@),
            final(self).syms() == old(self).syms(),
    {
        let ghost syms = self.syms();
        let ghost goal = trait_items_spec(self.model(), syms, es@);
        let mut i: usize = 0;
        proof { assert(es@.skip(0) =~= es@); }
        while i < es.len()
            invariant
                i <= es@.len(),
                syms == self.syms(),
                syms == old(self).syms(),
                goal == trait_items_spec(old(self).model(), syms, es@),
                goal == trait_items_spec(self.model(), syms, es@.skip(i as int)),
                !goal.fault,
            decreases es@.len() - i,
        {
            proof {
                assert(es@.skip(i as int)[0] == es@[i as int]);
                assert(es@.skip(i as int).drop_first() =~= es@.skip(i + 1));
                assert(!self.model().fault);
            }
            proof {
                let nx = match es@[i as int] { HirTraitItem::DefaultMethod(f) => fn_spec(self.model(), syms, f), _ => self.model() };
                if nx.fault { assert(trait_items_spec(nx, syms, es@.skip(i + 1)) == nx); }
            }
            match &es[i] {
                HirTraitItem::DefaultMethod(f) => self.check_function(f),
                _ => {},
            }
            i = i + 1;
        }
    }

    /// Checks an item (see `item_spec`).
    fn check_item(&mut self, item: &HirItem)
        requires
            !item_spec(old(self).model(), old(self).syms(), *item).fault,
        ensures
            final(self).model() == item_spec(old(self).model(), old(self).syms(), *item),
            final(self).syms() == old(self).syms(),
        decreases item,
    {
        match item {
            HirItem::Function(f) => self.check_function(f),
            HirItem::Class(c) => {
                proof {
                    let nx = fns_spec(self.model(), self.syms(), c.methods@);
                    if nx.fault { assert(impls_spec(nx, self.syms(), c.impl_blocks@) == nx); }
                }
                self.check_functions(&c.methods);
                self.check_impl_blocks(&c.impl_blocks);
            },
            HirItem::Trait(t) => self.check_trait_items(&t.items),
            HirItem::Impl(b) => self.check_impl_items(&b.items),
            HirItem::Module(m) => self.check_items(&m.items),
            _ => {},
        }
    }

    fn check_items(&mut self, es: &Vec<HirItem>)
        requires
            !items_spec(old(self).model(), old(self).syms(), es@).fault,
        ensures
            final(self).model() == items_spec(old(self).model(), old(self).syms(), es@),
            final(self).syms() == old(self).syms(),
        decreases es,
    {
        let ghost syms = self.syms();
        let ghost goal = items_spec(self.model(), syms, es@);
        let mut i: usize = 0;
        proof { assert(es@.skip(0) =~= es@); }
        while i < es.len()
            invariant
                i <= es@.len(),
                syms == self.syms(),
                syms == old(self).syms(),
                goal == items_spec(old(self).model(), syms, es@),
                goal == items_spec(self.model(), syms, es@.skip(i as int)),
                !goal.fault,
            decreases es@.len() - i,
        {
            proof {
                assert(es@.skip(i as int)[0] == es@[i as int]);
                assert(es@.skip(i as int).drop_first() =~= es@.skip(i + 1));
                assert(!self.model().fault);
                let nx = item_spec(self.model(), syms, es@[i as int]);
                if nx.fault { assert(items_spec(nx, syms, es@.skip(i + 1)) == nx); }
            }
            self.check_item(&es[i]);
            i = i + 1;
        }
    }

    /// Checks every item of a program.
    pub fn check_program(&mut self, program: &HirProgram)
        requires
            !items_spec(old(self).model(), old(self).syms(), program.items@).fault,
        ensures
            final(self).model() == items_spec(old(self).model(), old(self).syms(), program.items@),
            final(self).syms() == old(self).syms(),
    {
        self.check_items(&program.items);
    }

}

/// Runs borrow checking on a typed program and returns every ownership and borrowing
/// violation found, in the order the pass meets them (see `program_spec`). The program
/// must not bring the pass to a fault (see `CheckState`): in particular it must stay
/// within the 32-bit counters of scopes and borrows.
pub fn borrow_check(program: &HirProgram, symbols: &SymbolTable) -> (errors: Vec<BorrowError>)
    requires
        !program_spec(symbols.defs(), *program).fault,
    ensures
        errors_view(errors@) == program_spec(symbols.defs(), *program).errors,
{
    let mut checker = BorrowChecker::new(symbols);
    checker.check_program(program);
    checker.errors
}

} // verus!
