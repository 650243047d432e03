//! Lifetime elision and the checks that a reference does not outlive what it borrows.
use vstd::prelude::*;
use crate::hir::nodes::DefId;
use crate::hir::types::{Ty, TyView, tys_view, lemma_tys_view};
use crate::lexer::token::Span;
use crate::borrow_check::regions::ScopeId;

verus! {

#[derive(Debug, Clone, Copy, PartialEq, Eq, Structural)]
pub enum SelfRefMode {
    Shared,
    Mutable,
}

#[derive(Debug)]
pub struct LifetimeError {
    pub kind: LifetimeErrorKind,
    pub span: Span,
}

#[derive(Debug)]
pub enum LifetimeErrorKind {
    AmbiguousOutputLifetime { input_ref_count: usize },
    ReturnRefToLocal { local_def: DefId },
    BorrowOutlivesOwner { borrow_def: DefId, owner_def: DefId },
}

impl LifetimeErrorKind {
    /// The number of reference parameters of an ambiguous signature; 0 for other errors.
    pub fn input_count(&self) -> (r: usize)
        ensures
            r == match *self {
                LifetimeErrorKind::AmbiguousOutputLifetime { input_ref_count } => input_ref_count,
                _ => 0,
            },
    {
        match self {
            LifetimeErrorKind::AmbiguousOutputLifetime { input_ref_count } => *input_ref_count,
            _ => 0,
        }
    }
}

/// The type holds a reference: `&T`, `&mut T`, `&str`, or one inside a tuple,
/// `Option`, `Vec` or `Result`.
pub open spec fn contains_ref_spec(t: TyView) -> bool
    decreases t,
{
    match t {
        TyView::Ref(_) | TyView::RefMut(_) | TyView::RefLifetime(_, _) | TyView::RefMutLifetime(_, _)
        | TyView::Str => true,
        TyView::Tuple(elems) => any_ref(elems),
        TyView::Option(inner) => contains_ref_spec(*inner),
        TyView::Vec(inner) => contains_ref_spec(*inner),
        TyView::Result(a, b) => contains_ref_spec(*a) || contains_ref_spec(*b),
        _ => false,
    }
}

pub open spec fn any_ref(ts: Seq<TyView>) -> bool
    decreases ts,
{
    if ts.len() == 0 {
        false
    } else {
        proof { assert(decreases_to!(ts => ts.drop_last())); }
        any_ref(ts.drop_last()) || contains_ref_spec(ts.last())
    }
}

/// How many of the types hold a reference.
pub open spec fn ref_count(ts: Seq<TyView>) -> nat
    decreases ts.len(),
{
    if ts.len() == 0 {
        0
    } else {
        ref_count(ts.drop_last()) + if contains_ref_spec(ts.last()) { 1nat } else { 0nat }
    }
}

proof fn lemma_ref_count_le(ts: Seq<TyView>)
    ensures
        ref_count(ts) <= ts.len(),
    decreases ts.len(),
{
    if ts.len() > 0 {
        lemma_ref_count_le(ts.drop_last());
    }
}

proof fn lemma_any_ref_exists(ts: Seq<TyView>)
    ensures
        any_ref(ts) == exists|i: int| 0 <= i < ts.len() && contains_ref_spec(#[trigger] ts[i]),
    decreases ts.len(),
{
    if ts.len() > 0 {
        let d = ts.drop_last();
        lemma_any_ref_exists(d);
        if any_ref(d) {
            let i = choose|i: int| 0 <= i < d.len() && contains_ref_spec(#[trigger] d[i]);
            assert(ts[i] == d[i]);
        }
        if exists|i: int| 0 <= i < ts.len() && contains_ref_spec(#[trigger] ts[i]) {
            let i = choose|i: int| 0 <= i < ts.len() && contains_ref_spec(#[trigger] ts[i]);
            if i < ts.len() - 1 {
                assert(d[i] == ts[i]);
            }
        }
    }
}

/// A type holds a reference when it is one (`&T`, `&mut T`, `&str`), and a tuple,
/// `Option`, `Vec` or `Result` holds one exactly when something it wraps does: a
/// `Result` through its `Ok` type or through its `Err` type alike.
pub proof fn law_reference_seen_through_wrappers(a: TyView, b: TyView, elems: Seq<TyView>)
    ensures
        contains_ref_spec(TyView::Ref(Box::new(a))),
        contains_ref_spec(TyView::RefMut(Box::new(a))),
        forall|lt: Seq<char>| #[trigger] contains_ref_spec(TyView::RefLifetime(lt, Box::new(a))),
        forall|lt: Seq<char>| #[trigger] contains_ref_spec(TyView::RefMutLifetime(lt, Box::new(a))),
        contains_ref_spec(TyView::Str),
        !contains_ref_spec(TyView::String),
        !contains_ref_spec(TyView::Int),
        !contains_ref_spec(TyView::Bool),
        !contains_ref_spec(TyView::Char),
        !contains_ref_spec(TyView::Unit),
        contains_ref_spec(TyView::Option(Box::new(a))) == contains_ref_spec(a),
        contains_ref_spec(TyView::Vec(Box::new(a))) == contains_ref_spec(a),
        contains_ref_spec(TyView::Result(Box::new(a), Box::new(b))) == (contains_ref_spec(a) || contains_ref_spec(b)),
        contains_ref_spec(TyView::Tuple(elems)) == exists|i: int| 0 <= i < elems.len() && contains_ref_spec(#[trigger] elems[i]),
{
    lemma_any_ref_exists(elems);
}

/// Among parameter types, the number that hold a reference goes up by one for each added
/// type that holds one; so two reference parameters with a reference in the return type
/// (in a `Result`'s `Ok` or `Err` alike) and no `self` make the output lifetime ambiguous.
pub proof fn law_two_reference_params_ambiguous(p: TyView, q: TyView, ok: TyView, err: TyView)
    requires
        contains_ref_spec(p),
        contains_ref_spec(q),
        contains_ref_spec(ok) || contains_ref_spec(err),
    ensures
        ref_count(seq![p, q]) == 2,
        contains_ref_spec(TyView::Result(Box::new(ok), Box::new(err))),
        ref_count(seq![p, q]) != 1,
{
    let s2 = seq![p, q];
    let s1 = seq![p];
    assert(s2.drop_last() =~= s1);
    assert(s2.last() == q);
    assert(s1.drop_last() =~= Seq::<TyView>::empty());
    assert(s1.last() == p);
    assert(ref_count(Seq::<TyView>::empty()) == 0);
    assert(ref_count(s1) == ref_count(s1.drop_last()) + 1);
    assert(ref_count(s1) == 1);
    assert(ref_count(s2) == ref_count(s2.drop_last()) + 1);
}

/// The span the elision errors carry.
pub open spec fn no_span() -> Span {
    Span { start: 0, end: 0, line: 0, column: 0 }
}

/// Tracks the locals of the function being checked.
pub struct LifetimeChecker {
    function_locals: Vec<(DefId, ScopeId)>,
}

impl LifetimeChecker {
    /// The registered locals and their scopes, in registration order.
    pub closed spec fn locals(&self) -> Seq<(DefId, ScopeId)> {
        self.function_locals@
    }

    pub fn new() -> (r: LifetimeChecker)
        ensures
            r.locals() == Seq::<(DefId, ScopeId)>::empty(),
    {
        LifetimeChecker { function_locals: Vec::new() }
    }

    pub fn register_local(&mut self, def_id: DefId, scope: ScopeId)
        ensures
            final(self).locals() == old(self).locals().push((def_id, scope)),
    {
        self.function_locals.push((def_id, scope));
    }

    pub fn clear_locals(&mut self)
        ensures
            final(self).locals() == Seq::<(DefId, ScopeId)>::empty(),
    {
        self.function_locals.clear();
    }

    /// Lifetime elision for a signature: fine when the result holds no reference,
    /// when it is a method on `&self` (rule 3), or when exactly one parameter holds a
    /// reference (rule 2); otherwise the output lifetime is ambiguous.
    pub fn check_elision(params: &[Ty], return_ty: &Ty, self_mode: Option<SelfRefMode>) -> (r: Result<(), LifetimeError>)
        ensures
            match r {
                Ok(()) => !contains_ref_spec(return_ty@) || self_mode is Some || ref_count(tys_view(params@)) == 1,
                Err(e) => {
                    &&& contains_ref_spec(return_ty@)
                    &&& self_mode is None
                    &&& ref_count(tys_view(params@)) != 1
                    &&& e.kind == LifetimeErrorKind::AmbiguousOutputLifetime {
                        input_ref_count: ref_count(tys_view(params@)) as usize,
                    }
                    &&& e.span == no_span()
                },
            },
    {
        if !Self::contains_ref(return_ty) {
            return Ok(());
        }
        if self_mode.is_some() {
            return Ok(());
        }
        let ghost v = tys_view(params@);
        proof {
            lemma_tys_view(params@);
            lemma_ref_count_le(v);
        }
        let mut count: usize = 0;
        let mut i: usize = 0;
        while i < params.len()
            invariant
                i <= params@.len(),
                v == tys_view(params@),
                v.len() == params@.len(),
                forall|j: int| 0 <= j < params@.len() ==> #[trigger] v[j] == params@[j]@,
                count == ref_count(v.take(i as int)),
                count <= i,
            decreases params@.len() - i,
        {
            proof { assert(v.take(i + 1).drop_last() =~= v.take(i as int)); }
            if Self::contains_ref(&params[i]) {
                count = count + 1;
            }
            i = i + 1;
        }
        proof { assert(v.take(params@.len() as int) =~= v); }
        if count == 1 {
            return Ok(());
        }
        if count == 0 {
            return Err(
                LifetimeError {
                    kind: LifetimeErrorKind::AmbiguousOutputLifetime { input_ref_count: 0 },
                    span: Span::new(0, 0, 0, 0),
                },
            );
        }
        Err(
            LifetimeError {
                kind: LifetimeErrorKind::AmbiguousOutputLifetime { input_ref_count: count },
                span: Span::new(0, 0, 0, 0),
            },
        )
    }

    /// Returning a reference to `local_def` is an error unless it lives in the function's own scope.
    pub fn check_return_ref(&self, local_def: DefId, local_scope: ScopeId, func_scope: ScopeId, span: Span) -> (r: Result<(), LifetimeError>)
        ensures
            match r {
                Ok(()) => local_scope == func_scope,
                Err(e) => local_scope != func_scope && e.span == span
                    && e.kind == LifetimeErrorKind::ReturnRefToLocal { local_def },
            },
    {
        if local_scope != func_scope {
            return Err(LifetimeError { kind: LifetimeErrorKind::ReturnRefToLocal { local_def }, span });
        }
        Ok(())
    }

    /// A borrow made in a scope opened before its owner's scope outlives the owner.
    pub fn check_outlives(
        &self,
        borrow_def: DefId,
        owner_def: DefId,
        owner_scope: ScopeId,
        borrow_scope: ScopeId,
        span: Span,
    ) -> (r: Result<(), LifetimeError>)
        ensures
            match r {
                Ok(()) => !(owner_scope != borrow_scope && borrow_scope.0 < owner_scope.0),
                Err(e) => owner_scope != borrow_scope && borrow_scope.0 < owner_scope.0 && e.span
                    == span && e.kind == LifetimeErrorKind::BorrowOutlivesOwner { borrow_def, owner_def },
            },
    {
        if owner_scope != borrow_scope && borrow_scope.0 < owner_scope.0 {
            return Err(
                LifetimeError { kind: LifetimeErrorKind::BorrowOutlivesOwner { borrow_def, owner_def }, span },
            );
        }
        Ok(())
    }

    fn contains_ref(ty: &Ty) -> (r: bool)
        ensures
            r == contains_ref_spec(ty@),
        decreases ty,
    {
        match ty {
            Ty::Ref(_) | Ty::RefMut(_) | Ty::RefLifetime(_, _) | Ty::RefMutLifetime(_, _) | Ty::Str => true,
            Ty::Tuple(elems) => Self::any_contains_ref(elems),
            Ty::Option(inner) => Self::contains_ref(&**inner),
            Ty::Vec(inner) => Self::contains_ref(&**inner),
            Ty::Result(a, b) => Self::contains_ref(&**a) || Self::contains_ref(&**b),
            _ => false,
        }
    }
}

impl LifetimeChecker {
    fn any_contains_ref(elems: &Vec<Ty>) -> (r: bool)
        ensures
            r == any_ref(tys_view(elems@)),
        decreases elems,
    {
        let ghost v = tys_view(elems@);
        proof { lemma_tys_view(elems@); }
        let mut found = false;
        let mut i: usize = 0;
        while i < elems.len()
            invariant
                i <= elems@.len(),
                v == tys_view(elems@),
                v.len() == elems@.len(),
                forall|j: int| 0 <= j < elems@.len() ==> #[trigger] v[j] == elems@[j]@,
                found == any_ref(v.take(i as int)),
            decreases elems@.len() - i,
        {
            proof {
                assert(v.take(i + 1).drop_last() =~= v.take(i as int));
                assert(decreases_to!(elems => elems@[i as int]));
            }
            if !found {
                found = Self::contains_ref(&elems[i]);
            }
            i = i + 1;
        }
        proof { assert(v.take(elems@.len() as int) =~= v); }
        found
    }
}

impl Default for LifetimeChecker {
    fn default() -> (r: LifetimeChecker)
        ensures
            r.locals() == Seq::<(DefId, ScopeId)>::empty(),
    {
        LifetimeChecker::new()
    }
}

} // verus!
