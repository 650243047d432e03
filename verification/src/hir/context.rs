use vstd::prelude::*;
use std::collections::HashMap;
use crate::hir::types::{Ty, TyView, TypeId, TraitRef, TraitRefView, tys_view, lemma_tys_view, trait_refs_view, lemma_trait_refs_view, ty_str};
use crate::text::{decimal, push_decimal, push_str};

verus! {

/// Node count of a type over the positions that substitution walks.
pub open spec fn tsize(t: TyView) -> nat
    decreases t,
{
    match t {
        TyView::Array(f0, _) => 1 + tsize(*f0),
        TyView::Vec(f0) => 1 + tsize(*f0),
        TyView::SetOf(f0) => 1 + tsize(*f0),
        TyView::Option(f0) => 1 + tsize(*f0),
        TyView::Ref(f0) => 1 + tsize(*f0),
        TyView::RefMut(f0) => 1 + tsize(*f0),
        TyView::RefLifetime(_, f1) => 1 + tsize(*f1),
        TyView::RefMutLifetime(_, f1) => 1 + tsize(*f1),
        TyView::Alias { target, .. } => 1 + tsize(*target),
        TyView::Newtype { inner, .. } => 1 + tsize(*inner),
        TyView::RawPtr(inner) => 1 + tsize(*inner),
        TyView::RawPtrMut(inner) => 1 + tsize(*inner),
        TyView::Hash(f0, f1) => 1 + tsize(*f0) + tsize(*f1),
        TyView::Result(f0, f1) => 1 + tsize(*f0) + tsize(*f1),
        TyView::Tuple(f0) => 1 + tsizes(f0),
        TyView::Class { generic_args, .. } => 1 + tsizes(generic_args),
        TyView::Struct { generic_args, .. } => 1 + tsizes(generic_args),
        TyView::Enum { generic_args, .. } => 1 + tsizes(generic_args),
        TyView::Fn { params, ret } => 1 + tsize(*ret) + tsizes(params),
        TyView::FnMut { params, ret } => 1 + tsize(*ret) + tsizes(params),
        TyView::FnOnce { params, ret } => 1 + tsize(*ret) + tsizes(params),
        TyView::ImplTrait(refs) => 1 + tsize_refs(refs),
        TyView::DynTrait(refs) => 1 + tsize_refs(refs),
        TyView::TypeParam { bounds, .. } => 1 + tsize_refs(bounds),
        _ => 1,
    }
}

/// Node count of the type arguments of a list of trait references.
pub open spec fn tsize_refs(refs: Seq<TraitRefView>) -> nat
    decreases refs,
{
    if refs.len() == 0 {
        0
    } else {
        proof { assert(decreases_to!(refs => refs.drop_last())); }
        tsize_refs(refs.drop_last()) + tsizes(refs.last().generic_args) + 1
    }
}

pub open spec fn tsizes(ts: Seq<TyView>) -> nat
    decreases ts,
{
    if ts.len() == 0 {
        0
    } else {
        proof { assert(decreases_to!(ts => ts.drop_last())); }
        tsizes(ts.drop_last()) + tsize(ts.last()) + 1
    }
}

/// `Infer(v)` occurs structurally in `t` (without following substitutions).
pub open spec fn has_var(t: TyView, v: u32) -> bool
    decreases t,
{
    match t {
        TyView::Infer(o) => o == v,
        TyView::Array(f0, _) => has_var(*f0, v),
        TyView::Vec(f0) => has_var(*f0, v),
        TyView::SetOf(f0) => has_var(*f0, v),
        TyView::Option(f0) => has_var(*f0, v),
        TyView::Ref(f0) => has_var(*f0, v),
        TyView::RefMut(f0) => has_var(*f0, v),
        TyView::RefLifetime(_, f1) => has_var(*f1, v),
        TyView::RefMutLifetime(_, f1) => has_var(*f1, v),
        TyView::Alias { target, .. } => has_var(*target, v),
        TyView::Newtype { inner, .. } => has_var(*inner, v),
        TyView::RawPtr(inner) => has_var(*inner, v),
        TyView::RawPtrMut(inner) => has_var(*inner, v),
        TyView::Hash(f0, f1) => has_var(*f0, v) || has_var(*f1, v),
        TyView::Result(f0, f1) => has_var(*f0, v) || has_var(*f1, v),
        TyView::Tuple(f0) => has_var_seq(f0, v),
        TyView::Class { generic_args, .. } => has_var_seq(generic_args, v),
        TyView::Struct { generic_args, .. } => has_var_seq(generic_args, v),
        TyView::Enum { generic_args, .. } => has_var_seq(generic_args, v),
        TyView::Fn { params, ret } => has_var(*ret, v) || has_var_seq(params, v),
        TyView::FnMut { params, ret } => has_var(*ret, v) || has_var_seq(params, v),
        TyView::FnOnce { params, ret } => has_var(*ret, v) || has_var_seq(params, v),
        TyView::ImplTrait(refs) => has_var_refs(refs, v),
        TyView::DynTrait(refs) => has_var_refs(refs, v),
        TyView::TypeParam { bounds, .. } => has_var_refs(bounds, v),
        _ => false,
    }
}

pub open spec fn has_var_refs(refs: Seq<TraitRefView>, v: u32) -> bool
    decreases refs,
{
    if refs.len() == 0 {
        false
    } else {
        proof { assert(decreases_to!(refs => refs.drop_last())); }
        has_var_refs(refs.drop_last(), v) || has_var_seq(refs.last().generic_args, v)
    }
}

pub open spec fn has_var_seq(ts: Seq<TyView>, v: u32) -> bool
    decreases ts,
{
    if ts.len() == 0 {
        false
    } else {
        proof { assert(decreases_to!(ts => ts.drop_last())); }
        has_var_seq(ts.drop_last(), v) || has_var(ts.last(), v)
    }
}

pub open spec fn nmax(a: nat, b: nat) -> nat {
    if a >= b { a } else { b }
}

/// One more than the largest rank of a bound variable occurring in `t`; 0 if none.
pub open spec fn trank(s: Map<u32, TyView>, r: spec_fn(u32) -> nat, t: TyView) -> nat
    decreases t,
{
    match t {
        TyView::Infer(o) => if s.contains_key(o) { r(o) + 1 } else { 0 },
        TyView::Array(f0, _) => trank(s, r, *f0),
        TyView::Vec(f0) => trank(s, r, *f0),
        TyView::SetOf(f0) => trank(s, r, *f0),
        TyView::Option(f0) => trank(s, r, *f0),
        TyView::Ref(f0) => trank(s, r, *f0),
        TyView::RefMut(f0) => trank(s, r, *f0),
        TyView::RefLifetime(_, f1) => trank(s, r, *f1),
        TyView::RefMutLifetime(_, f1) => trank(s, r, *f1),
        TyView::Alias { target, .. } => trank(s, r, *target),
        TyView::Newtype { inner, .. } => trank(s, r, *inner),
        TyView::RawPtr(inner) => trank(s, r, *inner),
        TyView::RawPtrMut(inner) => trank(s, r, *inner),
        TyView::Hash(f0, f1) => nmax(trank(s, r, *f0), trank(s, r, *f1)),
        TyView::Result(f0, f1) => nmax(trank(s, r, *f0), trank(s, r, *f1)),
        TyView::Tuple(f0) => tranks(s, r, f0),
        TyView::Class { generic_args, .. } => tranks(s, r, generic_args),
        TyView::Struct { generic_args, .. } => tranks(s, r, generic_args),
        TyView::Enum { generic_args, .. } => tranks(s, r, generic_args),
        TyView::Fn { params, ret } => nmax(trank(s, r, *ret), tranks(s, r, params)),
        TyView::FnMut { params, ret } => nmax(trank(s, r, *ret), tranks(s, r, params)),
        TyView::FnOnce { params, ret } => nmax(trank(s, r, *ret), tranks(s, r, params)),
        TyView::ImplTrait(refs) => tranks_refs(s, r, refs),
        TyView::DynTrait(refs) => tranks_refs(s, r, refs),
        TyView::TypeParam { bounds, .. } => tranks_refs(s, r, bounds),
        _ => 0,
    }
}

pub open spec fn tranks_refs(s: Map<u32, TyView>, r: spec_fn(u32) -> nat, refs: Seq<TraitRefView>) -> nat
    decreases refs,
{
    if refs.len() == 0 {
        0
    } else {
        proof { assert(decreases_to!(refs => refs.drop_last())); }
        nmax(tranks_refs(s, r, refs.drop_last()), tranks(s, r, refs.last().generic_args))
    }
}

pub open spec fn tranks(s: Map<u32, TyView>, r: spec_fn(u32) -> nat, ts: Seq<TyView>) -> nat
    decreases ts,
{
    if ts.len() == 0 {
        0
    } else {
        proof { assert(decreases_to!(ts => ts.drop_last())); }
        nmax(tranks(s, r, ts.drop_last()), trank(s, r, ts.last()))
    }
}

/// Does `Infer(id)` occur in `t`, following bound variables through `s`?
pub open spec fn occurs_r(s: Map<u32, TyView>, r: spec_fn(u32) -> nat, id: u32, t: TyView) -> bool
    decreases trank(s, r, t), tsize(t),
{
    match t {
        TyView::Infer(o) => {
            if o == id {
                true
            } else if s.contains_key(o) && trank(s, r, s[o]) < r(o) + 1 {
                occurs_r(s, r, id, s[o])
            } else {
                false
            }
        },
        TyView::Array(f0, _) => occurs_r(s, r, id, *f0),
        TyView::Vec(f0) => occurs_r(s, r, id, *f0),
        TyView::SetOf(f0) => occurs_r(s, r, id, *f0),
        TyView::Option(f0) => occurs_r(s, r, id, *f0),
        TyView::Ref(f0) => occurs_r(s, r, id, *f0),
        TyView::RefMut(f0) => occurs_r(s, r, id, *f0),
        TyView::RefLifetime(_, f1) => occurs_r(s, r, id, *f1),
        TyView::RefMutLifetime(_, f1) => occurs_r(s, r, id, *f1),
        TyView::Alias { target, .. } => occurs_r(s, r, id, *target),
        TyView::Newtype { inner, .. } => occurs_r(s, r, id, *inner),
        TyView::RawPtr(inner) => occurs_r(s, r, id, *inner),
        TyView::RawPtrMut(inner) => occurs_r(s, r, id, *inner),
        TyView::Hash(f0, f1) => occurs_r(s, r, id, *f0) || occurs_r(s, r, id, *f1),
        TyView::Result(f0, f1) => occurs_r(s, r, id, *f0) || occurs_r(s, r, id, *f1),
        TyView::Tuple(f0) => occurs_seq(s, r, id, f0),
        TyView::Class { generic_args, .. } => occurs_seq(s, r, id, generic_args),
        TyView::Struct { generic_args, .. } => occurs_seq(s, r, id, generic_args),
        TyView::Enum { generic_args, .. } => occurs_seq(s, r, id, generic_args),
        TyView::Fn { params, ret } => occurs_r(s, r, id, *ret) || occurs_seq(s, r, id, params),
        TyView::FnMut { params, ret } => occurs_r(s, r, id, *ret) || occurs_seq(s, r, id, params),
        TyView::FnOnce { params, ret } => occurs_r(s, r, id, *ret) || occurs_seq(s, r, id, params),
        TyView::ImplTrait(refs) => occurs_refs(s, r, id, refs),
        TyView::DynTrait(refs) => occurs_refs(s, r, id, refs),
        TyView::TypeParam { bounds, .. } => occurs_refs(s, r, id, bounds),
        _ => false,
    }
}

pub open spec fn occurs_refs(s: Map<u32, TyView>, r: spec_fn(u32) -> nat, id: u32, refs: Seq<TraitRefView>) -> bool
    decreases tranks_refs(s, r, refs), tsize_refs(refs),
{
    if refs.len() == 0 {
        false
    } else {
        occurs_refs(s, r, id, refs.drop_last()) || occurs_seq(s, r, id, refs.last().generic_args)
    }
}

pub open spec fn occurs_seq(s: Map<u32, TyView>, r: spec_fn(u32) -> nat, id: u32, ts: Seq<TyView>) -> bool
    decreases tranks(s, r, ts), tsizes(ts),
{
    if ts.len() == 0 {
        false
    } else {
        occurs_seq(s, r, id, ts.drop_last()) || occurs_r(s, r, id, ts.last())
    }
}

/// The most concrete form of `t`: bound variables replaced through `s`, recursively.
pub open spec fn resolve_r(s: Map<u32, TyView>, r: spec_fn(u32) -> nat, t: TyView) -> TyView
    decreases trank(s, r, t), tsize(t),
{
    match t {
        TyView::Infer(o) => {
            if s.contains_key(o) && trank(s, r, s[o]) < r(o) + 1 {
                resolve_r(s, r, s[o])
            } else {
                t
            }
        },
        TyView::Tuple(f0) => TyView::Tuple(resolve_seq(s, r, f0)),
        TyView::Array(f0, f1) => TyView::Array(Box::new(resolve_r(s, r, *f0)), f1),
        TyView::Vec(f0) => TyView::Vec(Box::new(resolve_r(s, r, *f0))),
        TyView::Hash(f0, f1) => TyView::Hash(Box::new(resolve_r(s, r, *f0)), Box::new(resolve_r(s, r, *f1))),
        TyView::SetOf(f0) => TyView::SetOf(Box::new(resolve_r(s, r, *f0))),
        TyView::Option(f0) => TyView::Option(Box::new(resolve_r(s, r, *f0))),
        TyView::Result(f0, f1) => TyView::Result(Box::new(resolve_r(s, r, *f0)), Box::new(resolve_r(s, r, *f1))),
        TyView::Ref(f0) => TyView::Ref(Box::new(resolve_r(s, r, *f0))),
        TyView::RefMut(f0) => TyView::RefMut(Box::new(resolve_r(s, r, *f0))),
        TyView::RefLifetime(f0, f1) => TyView::RefLifetime(f0, Box::new(resolve_r(s, r, *f1))),
        TyView::RefMutLifetime(f0, f1) => TyView::RefMutLifetime(f0, Box::new(resolve_r(s, r, *f1))),
        TyView::Class { name, generic_args } => TyView::Class { name: name, generic_args: resolve_seq(s, r, generic_args) },
        TyView::Struct { name, generic_args } => TyView::Struct { name: name, generic_args: resolve_seq(s, r, generic_args) },
        TyView::Enum { name, generic_args } => TyView::Enum { name: name, generic_args: resolve_seq(s, r, generic_args) },
        TyView::Fn { params, ret } => TyView::Fn { params: resolve_seq(s, r, params), ret: Box::new(resolve_r(s, r, *ret)) },
        TyView::FnMut { params, ret } => TyView::FnMut { params: resolve_seq(s, r, params), ret: Box::new(resolve_r(s, r, *ret)) },
        TyView::FnOnce { params, ret } => TyView::FnOnce { params: resolve_seq(s, r, params), ret: Box::new(resolve_r(s, r, *ret)) },
        TyView::Alias { target, .. } => resolve_r(s, r, *target),
        _ => t,
    }
}

pub open spec fn resolve_seq(s: Map<u32, TyView>, r: spec_fn(u32) -> nat, ts: Seq<TyView>) -> Seq<TyView>
    decreases tranks(s, r, ts), tsizes(ts),
{
    if ts.len() == 0 {
        Seq::empty()
    } else {
        resolve_seq(s, r, ts.drop_last()).push(resolve_r(s, r, ts.last()))
    }
}

/// No unbound inference variable is reached from `t`, following the bindings through `s`
/// (ranked by `r`) and looking inside every type argument (trait bounds' included),
/// element, pointee and newtype.
pub open spec fn resolved_r(s: Map<u32, TyView>, r: spec_fn(u32) -> nat, t: TyView) -> bool
    decreases trank(s, r, t), tsize(t),
{
    match t {
        TyView::Infer(o) => {
            if s.contains_key(o) && trank(s, r, s[o]) < r(o) + 1 {
                resolved_r(s, r, s[o])
            } else {
                false
            }
        },
        TyView::Array(f0, _) => resolved_r(s, r, *f0),
        TyView::Vec(f0) => resolved_r(s, r, *f0),
        TyView::SetOf(f0) => resolved_r(s, r, *f0),
        TyView::Option(f0) => resolved_r(s, r, *f0),
        TyView::Ref(f0) => resolved_r(s, r, *f0),
        TyView::RefMut(f0) => resolved_r(s, r, *f0),
        TyView::RefLifetime(_, f1) => resolved_r(s, r, *f1),
        TyView::RefMutLifetime(_, f1) => resolved_r(s, r, *f1),
        TyView::Alias { target, .. } => resolved_r(s, r, *target),
        TyView::Newtype { inner, .. } => resolved_r(s, r, *inner),
        TyView::RawPtr(inner) => resolved_r(s, r, *inner),
        TyView::RawPtrMut(inner) => resolved_r(s, r, *inner),
        TyView::Hash(f0, f1) => resolved_r(s, r, *f0) && resolved_r(s, r, *f1),
        TyView::Result(f0, f1) => resolved_r(s, r, *f0) && resolved_r(s, r, *f1),
        TyView::Tuple(f0) => resolved_seq(s, r, f0),
        TyView::Class { generic_args, .. } => resolved_seq(s, r, generic_args),
        TyView::Struct { generic_args, .. } => resolved_seq(s, r, generic_args),
        TyView::Enum { generic_args, .. } => resolved_seq(s, r, generic_args),
        TyView::Fn { params, ret } => resolved_r(s, r, *ret) && resolved_seq(s, r, params),
        TyView::FnMut { params, ret } => resolved_r(s, r, *ret) && resolved_seq(s, r, params),
        TyView::FnOnce { params, ret } => resolved_r(s, r, *ret) && resolved_seq(s, r, params),
        TyView::ImplTrait(refs) => resolved_refs(s, r, refs),
        TyView::DynTrait(refs) => resolved_refs(s, r, refs),
        TyView::TypeParam { bounds, .. } => resolved_refs(s, r, bounds),
        _ => true,
    }
}

pub open spec fn resolved_refs(s: Map<u32, TyView>, r: spec_fn(u32) -> nat, refs: Seq<TraitRefView>) -> bool
    decreases tranks_refs(s, r, refs), tsize_refs(refs),
{
    if refs.len() == 0 {
        true
    } else {
        resolved_refs(s, r, refs.drop_last()) && resolved_seq(s, r, refs.last().generic_args)
    }
}

pub open spec fn resolved_seq(s: Map<u32, TyView>, r: spec_fn(u32) -> nat, ts: Seq<TyView>) -> bool
    decreases tranks(s, r, ts), tsizes(ts),
{
    if ts.len() == 0 {
        true
    } else {
        resolved_seq(s, r, ts.drop_last()) && resolved_r(s, r, ts.last())
    }
}

/// Acyclicity of a substitution, witnessed by a ranking: every bound variable
/// that occurs in the type bound to `u` ranks below `u`.
pub open spec fn wf_rank(s: Map<u32, TyView>, r: spec_fn(u32) -> nat) -> bool {
    forall|u: u32, v: u32|
        #![trigger s[u], has_var(s[u], v), r(v)]
        s.contains_key(u) && s.contains_key(v) && has_var(s[u], v) ==> r(v) < r(u)
}

/// The substitution has no cycles.
pub open spec fn acyclic(s: Map<u32, TyView>) -> bool {
    exists|r: spec_fn(u32) -> nat| wf_rank(s, r)
}

/// A ranking that witnesses acyclicity, when there is one.
pub open spec fn rank_of(s: Map<u32, TyView>) -> spec_fn(u32) -> nat {
    choose|r: spec_fn(u32) -> nat| wf_rank(s, r)
}

/// Does `Infer(id)` occur in `t`, following the substitution `s`?
pub open spec fn occurs_view(s: Map<u32, TyView>, id: u32, t: TyView) -> bool {
    occurs_r(s, rank_of(s), id, t)
}

/// `t` with the substitution `s` applied until no bound variable is left.
pub open spec fn resolve_view(s: Map<u32, TyView>, t: TyView) -> TyView {
    resolve_r(s, rank_of(s), t)
}

/// The resolved form of `t` holds no inference variable.
pub open spec fn fully_resolved_view(s: Map<u32, TyView>, t: TyView) -> bool {
    resolved_r(s, rank_of(s), t)
}

pub proof fn lemma_trank_le(s: Map<u32, TyView>, r: spec_fn(u32) -> nat, k: nat, t: TyView)
    requires
        forall|v: u32| has_var(t, v) && s.contains_key(v) ==> r(v) + 1 <= k,
    ensures
        trank(s, r, t) <= k,
    decreases t,
{
    match t {
        TyView::Infer(o) => { if s.contains_key(o) { assert(has_var(t, o)); } },
        TyView::Array(f0, _) => { assert forall|v: u32| has_var(*f0, v) && s.contains_key(v) implies r(v) + 1 <= k by { assert(has_var(t, v)); } lemma_trank_le(s, r, k, *f0); },
        TyView::Vec(f0) => { assert forall|v: u32| has_var(*f0, v) && s.contains_key(v) implies r(v) + 1 <= k by { assert(has_var(t, v)); } lemma_trank_le(s, r, k, *f0); },
        TyView::SetOf(f0) => { assert forall|v: u32| has_var(*f0, v) && s.contains_key(v) implies r(v) + 1 <= k by { assert(has_var(t, v)); } lemma_trank_le(s, r, k, *f0); },
        TyView::Option(f0) => { assert forall|v: u32| has_var(*f0, v) && s.contains_key(v) implies r(v) + 1 <= k by { assert(has_var(t, v)); } lemma_trank_le(s, r, k, *f0); },
        TyView::Ref(f0) => { assert forall|v: u32| has_var(*f0, v) && s.contains_key(v) implies r(v) + 1 <= k by { assert(has_var(t, v)); } lemma_trank_le(s, r, k, *f0); },
        TyView::RefMut(f0) => { assert forall|v: u32| has_var(*f0, v) && s.contains_key(v) implies r(v) + 1 <= k by { assert(has_var(t, v)); } lemma_trank_le(s, r, k, *f0); },
        TyView::RefLifetime(_, f1) => { assert forall|v: u32| has_var(*f1, v) && s.contains_key(v) implies r(v) + 1 <= k by { assert(has_var(t, v)); } lemma_trank_le(s, r, k, *f1); },
        TyView::RefMutLifetime(_, f1) => { assert forall|v: u32| has_var(*f1, v) && s.contains_key(v) implies r(v) + 1 <= k by { assert(has_var(t, v)); } lemma_trank_le(s, r, k, *f1); },
        TyView::Alias { target, .. } => { assert forall|v: u32| has_var(*target, v) && s.contains_key(v) implies r(v) + 1 <= k by { assert(has_var(t, v)); } lemma_trank_le(s, r, k, *target); },
        TyView::Newtype { inner, .. } => { assert forall|v: u32| has_var(*inner, v) && s.contains_key(v) implies r(v) + 1 <= k by { assert(has_var(t, v)); } lemma_trank_le(s, r, k, *inner); },
        TyView::RawPtr(inner) => { assert forall|v: u32| has_var(*inner, v) && s.contains_key(v) implies r(v) + 1 <= k by { assert(has_var(t, v)); } lemma_trank_le(s, r, k, *inner); },
        TyView::RawPtrMut(inner) => { assert forall|v: u32| has_var(*inner, v) && s.contains_key(v) implies r(v) + 1 <= k by { assert(has_var(t, v)); } lemma_trank_le(s, r, k, *inner); },
        TyView::Hash(f0, f1) => { assert forall|v: u32| has_var(*f0, v) && s.contains_key(v) implies r(v) + 1 <= k by { assert(has_var(t, v)); } lemma_trank_le(s, r, k, *f0); assert forall|v: u32| has_var(*f1, v) && s.contains_key(v) implies r(v) + 1 <= k by { assert(has_var(t, v)); } lemma_trank_le(s, r, k, *f1); },
        TyView::Result(f0, f1) => { assert forall|v: u32| has_var(*f0, v) && s.contains_key(v) implies r(v) + 1 <= k by { assert(has_var(t, v)); } lemma_trank_le(s, r, k, *f0); assert forall|v: u32| has_var(*f1, v) && s.contains_key(v) implies r(v) + 1 <= k by { assert(has_var(t, v)); } lemma_trank_le(s, r, k, *f1); },
        TyView::Tuple(f0) => { assert forall|v: u32| has_var_seq(f0, v) && s.contains_key(v) implies r(v) + 1 <= k by { assert(has_var(t, v)); } lemma_tranks_le(s, r, k, f0); },
        TyView::Class { generic_args, .. } => { assert forall|v: u32| has_var_seq(generic_args, v) && s.contains_key(v) implies r(v) + 1 <= k by { assert(has_var(t, v)); } lemma_tranks_le(s, r, k, generic_args); },
        TyView::Struct { generic_args, .. } => { assert forall|v: u32| has_var_seq(generic_args, v) && s.contains_key(v) implies r(v) + 1 <= k by { assert(has_var(t, v)); } lemma_tranks_le(s, r, k, generic_args); },
        TyView::Enum { generic_args, .. } => { assert forall|v: u32| has_var_seq(generic_args, v) && s.contains_key(v) implies r(v) + 1 <= k by { assert(has_var(t, v)); } lemma_tranks_le(s, r, k, generic_args); },
        TyView::Fn { params, ret } => { assert forall|v: u32| has_var(*ret, v) && s.contains_key(v) implies r(v) + 1 <= k by { assert(has_var(t, v)); } lemma_trank_le(s, r, k, *ret); assert forall|v: u32| has_var_seq(params, v) && s.contains_key(v) implies r(v) + 1 <= k by { assert(has_var(t, v)); } lemma_tranks_le(s, r, k, params); },
        TyView::FnMut { params, ret } => { assert forall|v: u32| has_var(*ret, v) && s.contains_key(v) implies r(v) + 1 <= k by { assert(has_var(t, v)); } lemma_trank_le(s, r, k, *ret); assert forall|v: u32| has_var_seq(params, v) && s.contains_key(v) implies r(v) + 1 <= k by { assert(has_var(t, v)); } lemma_tranks_le(s, r, k, params); },
        TyView::FnOnce { params, ret } => { assert forall|v: u32| has_var(*ret, v) && s.contains_key(v) implies r(v) + 1 <= k by { assert(has_var(t, v)); } lemma_trank_le(s, r, k, *ret); assert forall|v: u32| has_var_seq(params, v) && s.contains_key(v) implies r(v) + 1 <= k by { assert(has_var(t, v)); } lemma_tranks_le(s, r, k, params); },
        TyView::ImplTrait(refs) => { assert forall|v: u32| has_var_refs(refs, v) && s.contains_key(v) implies r(v) + 1 <= k by { assert(has_var(t, v)); } lemma_tranks_refs_le(s, r, k, refs); },
        TyView::DynTrait(refs) => { assert forall|v: u32| has_var_refs(refs, v) && s.contains_key(v) implies r(v) + 1 <= k by { assert(has_var(t, v)); } lemma_tranks_refs_le(s, r, k, refs); },
        TyView::TypeParam { bounds, .. } => { assert forall|v: u32| has_var_refs(bounds, v) && s.contains_key(v) implies r(v) + 1 <= k by { assert(has_var(t, v)); } lemma_tranks_refs_le(s, r, k, bounds); },
        _ => {},
    }
}

pub proof fn lemma_tranks_refs_le(s: Map<u32, TyView>, r: spec_fn(u32) -> nat, k: nat, refs: Seq<TraitRefView>)
    requires
        forall|v: u32| has_var_refs(refs, v) && s.contains_key(v) ==> r(v) + 1 <= k,
    ensures
        tranks_refs(s, r, refs) <= k,
    decreases refs,
{
    if refs.len() > 0 {
        assert(decreases_to!(refs => refs.drop_last()));
        assert forall|v: u32| has_var_refs(refs.drop_last(), v) && s.contains_key(v) implies r(v) + 1 <= k by { assert(has_var_refs(refs, v)); } lemma_tranks_refs_le(s, r, k, refs.drop_last());
        assert forall|v: u32| has_var_seq(refs.last().generic_args, v) && s.contains_key(v) implies r(v) + 1 <= k by { assert(has_var_refs(refs, v)); } lemma_tranks_le(s, r, k, refs.last().generic_args);
    }
}

pub proof fn lemma_tranks_le(s: Map<u32, TyView>, r: spec_fn(u32) -> nat, k: nat, ts: Seq<TyView>)
    requires
        forall|v: u32| has_var_seq(ts, v) && s.contains_key(v) ==> r(v) + 1 <= k,
    ensures
        tranks(s, r, ts) <= k,
    decreases ts,
{
    if ts.len() > 0 {
        assert(decreases_to!(ts => ts.drop_last()));
        assert forall|v: u32| has_var_seq(ts.drop_last(), v) && s.contains_key(v) implies r(v) + 1 <= k by { assert(has_var_seq(ts, v)); } lemma_tranks_le(s, r, k, ts.drop_last());
        assert forall|v: u32| has_var(ts.last(), v) && s.contains_key(v) implies r(v) + 1 <= k by { assert(has_var_seq(ts, v)); } lemma_trank_le(s, r, k, ts.last());
    }
}

pub proof fn lemma_trank_var(s: Map<u32, TyView>, r: spec_fn(u32) -> nat, v: u32, t: TyView)
    ensures
        has_var(t, v) && s.contains_key(v) ==> r(v) + 1 <= trank(s, r, t),
    decreases t,
{
    match t {
        TyView::Infer(o) => {},
        TyView::Array(f0, _) => { lemma_trank_var(s, r, v, *f0); },
        TyView::Vec(f0) => { lemma_trank_var(s, r, v, *f0); },
        TyView::SetOf(f0) => { lemma_trank_var(s, r, v, *f0); },
        TyView::Option(f0) => { lemma_trank_var(s, r, v, *f0); },
        TyView::Ref(f0) => { lemma_trank_var(s, r, v, *f0); },
        TyView::RefMut(f0) => { lemma_trank_var(s, r, v, *f0); },
        TyView::RefLifetime(_, f1) => { lemma_trank_var(s, r, v, *f1); },
        TyView::RefMutLifetime(_, f1) => { lemma_trank_var(s, r, v, *f1); },
        TyView::Alias { target, .. } => { lemma_trank_var(s, r, v, *target); },
        TyView::Newtype { inner, .. } => { lemma_trank_var(s, r, v, *inner); },
        TyView::RawPtr(inner) => { lemma_trank_var(s, r, v, *inner); },
        TyView::RawPtrMut(inner) => { lemma_trank_var(s, r, v, *inner); },
        TyView::Hash(f0, f1) => { lemma_trank_var(s, r, v, *f0); lemma_trank_var(s, r, v, *f1); },
        TyView::Result(f0, f1) => { lemma_trank_var(s, r, v, *f0); lemma_trank_var(s, r, v, *f1); },
        TyView::Tuple(f0) => { lemma_tranks_var(s, r, v, f0); },
        TyView::Class { generic_args, .. } => { lemma_tranks_var(s, r, v, generic_args); },
        TyView::Struct { generic_args, .. } => { lemma_tranks_var(s, r, v, generic_args); },
        TyView::Enum { generic_args, .. } => { lemma_tranks_var(s, r, v, generic_args); },
        TyView::Fn { params, ret } => { lemma_trank_var(s, r, v, *ret); lemma_tranks_var(s, r, v, params); },
        TyView::FnMut { params, ret } => { lemma_trank_var(s, r, v, *ret); lemma_tranks_var(s, r, v, params); },
        TyView::FnOnce { params, ret } => { lemma_trank_var(s, r, v, *ret); lemma_tranks_var(s, r, v, params); },
        TyView::ImplTrait(refs) => { lemma_tranks_refs_var(s, r, v, refs); },
        TyView::DynTrait(refs) => { lemma_tranks_refs_var(s, r, v, refs); },
        TyView::TypeParam { bounds, .. } => { lemma_tranks_refs_var(s, r, v, bounds); },
        _ => {},
    }
}

pub proof fn lemma_tranks_refs_var(s: Map<u32, TyView>, r: spec_fn(u32) -> nat, v: u32, refs: Seq<TraitRefView>)
    ensures
        has_var_refs(refs, v) && s.contains_key(v) ==> r(v) + 1 <= tranks_refs(s, r, refs),
    decreases refs,
{
    if refs.len() > 0 {
        assert(decreases_to!(refs => refs.drop_last()));
        lemma_tranks_refs_var(s, r, v, refs.drop_last());
        lemma_tranks_var(s, r, v, refs.last().generic_args);
    }
}

pub proof fn lemma_tranks_var(s: Map<u32, TyView>, r: spec_fn(u32) -> nat, v: u32, ts: Seq<TyView>)
    ensures
        has_var_seq(ts, v) && s.contains_key(v) ==> r(v) + 1 <= tranks(s, r, ts),
    decreases ts,
{
    if ts.len() > 0 {
        assert(decreases_to!(ts => ts.drop_last()));
        lemma_tranks_var(s, r, v, ts.drop_last());
        lemma_trank_var(s, r, v, ts.last());
    }
}

pub proof fn lemma_occurs_through(s: Map<u32, TyView>, r: spec_fn(u32) -> nat, id: u32, v: u32, t: TyView)
    requires
        wf_rank(s, r),
        occurs_r(s, r, id, TyView::Infer(v)),
    ensures
        has_var(t, v) ==> occurs_r(s, r, id, t),
    decreases t,
{
    match t {
        TyView::Infer(o) => {},
        TyView::Array(f0, _) => { lemma_occurs_through(s, r, id, v, *f0); },
        TyView::Vec(f0) => { lemma_occurs_through(s, r, id, v, *f0); },
        TyView::SetOf(f0) => { lemma_occurs_through(s, r, id, v, *f0); },
        TyView::Option(f0) => { lemma_occurs_through(s, r, id, v, *f0); },
        TyView::Ref(f0) => { lemma_occurs_through(s, r, id, v, *f0); },
        TyView::RefMut(f0) => { lemma_occurs_through(s, r, id, v, *f0); },
        TyView::RefLifetime(_, f1) => { lemma_occurs_through(s, r, id, v, *f1); },
        TyView::RefMutLifetime(_, f1) => { lemma_occurs_through(s, r, id, v, *f1); },
        TyView::Alias { target, .. } => { lemma_occurs_through(s, r, id, v, *target); },
        TyView::Newtype { inner, .. } => { lemma_occurs_through(s, r, id, v, *inner); },
        TyView::RawPtr(inner) => { lemma_occurs_through(s, r, id, v, *inner); },
        TyView::RawPtrMut(inner) => { lemma_occurs_through(s, r, id, v, *inner); },
        TyView::Hash(f0, f1) => { lemma_occurs_through(s, r, id, v, *f0); lemma_occurs_through(s, r, id, v, *f1); },
        TyView::Result(f0, f1) => { lemma_occurs_through(s, r, id, v, *f0); lemma_occurs_through(s, r, id, v, *f1); },
        TyView::Tuple(f0) => { lemma_occurs_through_seq(s, r, id, v, f0); },
        TyView::Class { generic_args, .. } => { lemma_occurs_through_seq(s, r, id, v, generic_args); },
        TyView::Struct { generic_args, .. } => { lemma_occurs_through_seq(s, r, id, v, generic_args); },
        TyView::Enum { generic_args, .. } => { lemma_occurs_through_seq(s, r, id, v, generic_args); },
        TyView::Fn { params, ret } => { lemma_occurs_through(s, r, id, v, *ret); lemma_occurs_through_seq(s, r, id, v, params); },
        TyView::FnMut { params, ret } => { lemma_occurs_through(s, r, id, v, *ret); lemma_occurs_through_seq(s, r, id, v, params); },
        TyView::FnOnce { params, ret } => { lemma_occurs_through(s, r, id, v, *ret); lemma_occurs_through_seq(s, r, id, v, params); },
        TyView::ImplTrait(refs) => { lemma_occurs_through_refs(s, r, id, v, refs); },
        TyView::DynTrait(refs) => { lemma_occurs_through_refs(s, r, id, v, refs); },
        TyView::TypeParam { bounds, .. } => { lemma_occurs_through_refs(s, r, id, v, bounds); },
        _ => {},
    }
}

pub proof fn lemma_occurs_through_refs(s: Map<u32, TyView>, r: spec_fn(u32) -> nat, id: u32, v: u32, refs: Seq<TraitRefView>)
    requires
        wf_rank(s, r),
        occurs_r(s, r, id, TyView::Infer(v)),
    ensures
        has_var_refs(refs, v) ==> occurs_refs(s, r, id, refs),
    decreases refs,
{
    if refs.len() > 0 {
        assert(decreases_to!(refs => refs.drop_last()));
        lemma_occurs_through_refs(s, r, id, v, refs.drop_last());
        lemma_occurs_through_seq(s, r, id, v, refs.last().generic_args);
    }
}

pub proof fn lemma_refs_index(s: Map<u32, TyView>, r: spec_fn(u32) -> nat, refs: Seq<TraitRefView>, i: int)
    requires
        0 <= i < refs.len(),
    ensures
        tranks(s, r, refs[i].generic_args) <= tranks_refs(s, r, refs),
        tsizes(refs[i].generic_args) < tsize_refs(refs),
    decreases refs.len(),
{
    if i < refs.len() - 1 {
        lemma_refs_index(s, r, refs.drop_last(), i);
    }
}

pub proof fn lemma_occurs_through_seq(s: Map<u32, TyView>, r: spec_fn(u32) -> nat, id: u32, v: u32, ts: Seq<TyView>)
    requires
        wf_rank(s, r),
        occurs_r(s, r, id, TyView::Infer(v)),
    ensures
        has_var_seq(ts, v) ==> occurs_seq(s, r, id, ts),
    decreases ts,
{
    if ts.len() > 0 {
        assert(decreases_to!(ts => ts.drop_last()));
        lemma_occurs_through_seq(s, r, id, v, ts.drop_last());
        lemma_occurs_through(s, r, id, v, ts.last());
    }
}

/// Under an acyclic ranking the type bound to `u` ranks no higher than `u`.
pub proof fn lemma_bound_rank(s: Map<u32, TyView>, r: spec_fn(u32) -> nat, u: u32)
    requires
        wf_rank(s, r),
        s.contains_key(u),
    ensures
        trank(s, r, s[u]) <= r(u),
{
    assert forall|v: u32| has_var(s[u], v) && s.contains_key(v) implies r(v) + 1 <= r(u) by {
        assert(r(v) < r(u));
    }
    lemma_trank_le(s, r, r(u), s[u]);
}

/// The ranking used after binding `id` to `t`: bound variables are shifted
/// up by one, and every variable whose resolution reaches `id` is lifted above
/// all variables of `t`.
pub open spec fn extended_rank(s: Map<u32, TyView>, r0: spec_fn(u32) -> nat, id: u32, t: TyView) -> spec_fn(u32) -> nat {
    |v: u32|
        (if s.contains_key(v) { r0(v) + 1 } else { 0nat }) + (if occurs_r(s, r0, id, TyView::Infer(v)) {
            trank(s, r0, t) + 1
        } else {
            0nat
        })
}

/// Binding a variable to a type it does not occur in keeps the substitution acyclic.
pub proof fn lemma_bind_keeps_acyclic(s: Map<u32, TyView>, r0: spec_fn(u32) -> nat, id: u32, t: TyView)
    requires
        wf_rank(s, r0),
        !occurs_r(s, r0, id, t),
    ensures
        wf_rank(s.insert(id, t), extended_rank(s, r0, id, t)),
{
    let s2 = s.insert(id, t);
    let r2 = extended_rank(s, r0, id, t);
    let k = trank(s, r0, t) + 1;
    assert(occurs_r(s, r0, id, TyView::Infer(id)));
    assert forall|u: u32, v: u32| s2.contains_key(u) && s2.contains_key(v) && has_var(s2[u], v) implies r2(v) < r2(u) by {
        if u == id {
            if v == id {
                lemma_occurs_through(s, r0, id, id, t);
                assert(false);
            } else {
                assert(s.contains_key(v));
                if occurs_r(s, r0, id, TyView::Infer(v)) {
                    lemma_occurs_through(s, r0, id, v, t);
                }
                lemma_trank_var(s, r0, v, t);
            }
        } else {
            assert(s.contains_key(u));
            assert(s2[u] == s[u]);
            lemma_bound_rank(s, r0, u);
            if v == id {
                lemma_occurs_through(s, r0, id, v, s[u]);
                assert(occurs_r(s, r0, id, TyView::Infer(u)));
                if s.contains_key(id) {
                    assert(r0(id) < r0(u));
                }
            } else {
                assert(s.contains_key(v));
                assert(r0(v) < r0(u));
                if occurs_r(s, r0, id, TyView::Infer(v)) {
                    lemma_occurs_through(s, r0, id, v, s[u]);
                    assert(occurs_r(s, r0, id, TyView::Infer(u)));
                }
            }
        }
    }
}

pub proof fn lemma_resolve_idem(s: Map<u32, TyView>, r: spec_fn(u32) -> nat, t: TyView)
    requires
        wf_rank(s, r),
    ensures
        resolve_r(s, r, resolve_r(s, r, t)) == resolve_r(s, r, t),
    decreases trank(s, r, t), tsize(t),
{
    match t {
        TyView::Infer(o) => { if s.contains_key(o) { lemma_bound_rank(s, r, o); lemma_resolve_idem(s, r, s[o]); } },
        TyView::Alias { target, .. } => { lemma_resolve_idem(s, r, *target); },
        TyView::Tuple(f0) => { lemma_resolve_seq_idem(s, r, f0); },
        TyView::Array(f0, _) => { lemma_resolve_idem(s, r, *f0); },
        TyView::Vec(f0) => { lemma_resolve_idem(s, r, *f0); },
        TyView::Hash(f0, f1) => { lemma_resolve_idem(s, r, *f0); lemma_resolve_idem(s, r, *f1); },
        TyView::SetOf(f0) => { lemma_resolve_idem(s, r, *f0); },
        TyView::Option(f0) => { lemma_resolve_idem(s, r, *f0); },
        TyView::Result(f0, f1) => { lemma_resolve_idem(s, r, *f0); lemma_resolve_idem(s, r, *f1); },
        TyView::Ref(f0) => { lemma_resolve_idem(s, r, *f0); },
        TyView::RefMut(f0) => { lemma_resolve_idem(s, r, *f0); },
        TyView::RefLifetime(_, f1) => { lemma_resolve_idem(s, r, *f1); },
        TyView::RefMutLifetime(_, f1) => { lemma_resolve_idem(s, r, *f1); },
        TyView::Class { generic_args, .. } => { lemma_resolve_seq_idem(s, r, generic_args); },
        TyView::Struct { generic_args, .. } => { lemma_resolve_seq_idem(s, r, generic_args); },
        TyView::Enum { generic_args, .. } => { lemma_resolve_seq_idem(s, r, generic_args); },
        TyView::Fn { params, ret } => { lemma_resolve_idem(s, r, *ret); lemma_resolve_seq_idem(s, r, params); },
        TyView::FnMut { params, ret } => { lemma_resolve_idem(s, r, *ret); lemma_resolve_seq_idem(s, r, params); },
        TyView::FnOnce { params, ret } => { lemma_resolve_idem(s, r, *ret); lemma_resolve_seq_idem(s, r, params); },
        _ => {},
    }
}

pub proof fn lemma_resolve_seq_idem(s: Map<u32, TyView>, r: spec_fn(u32) -> nat, ts: Seq<TyView>)
    requires
        wf_rank(s, r),
    ensures
        resolve_seq(s, r, resolve_seq(s, r, ts)) == resolve_seq(s, r, ts),
    decreases tranks(s, r, ts), tsizes(ts),
{
    if ts.len() > 0 {
        lemma_resolve_seq_idem(s, r, ts.drop_last());
        lemma_resolve_idem(s, r, ts.last());
        let x = resolve_seq(s, r, ts.drop_last());
        let y = resolve_r(s, r, ts.last());
        assert(x.push(y).drop_last() =~= x);
    }
}

pub proof fn lemma_rank_of(s: Map<u32, TyView>)
    requires
        acyclic(s),
    ensures
        wf_rank(s, rank_of(s)),
{
}

pub proof fn lemma_tranks_index(s: Map<u32, TyView>, r: spec_fn(u32) -> nat, ts: Seq<TyView>, i: int)
    requires
        0 <= i < ts.len(),
    ensures
        trank(s, r, ts[i]) <= tranks(s, r, ts),
        tsize(ts[i]) < tsizes(ts),
    decreases ts.len(),
{
    if i < ts.len() - 1 {
        lemma_tranks_index(s, r, ts.drop_last(), i);
    }
}

/// Binding a variable to a type it does not occur in keeps the bindings acyclic,
/// and afterwards the variable resolves to exactly what its binding resolves to.
pub proof fn law_bound_var_resolves_to_binding(s: Map<u32, TyView>, id: u32, t: TyView)
    requires
        acyclic(s),
        !occurs_view(s, id, t),
    ensures
        acyclic(s.insert(id, t)),
        resolve_view(s.insert(id, t), TyView::Infer(id)) == resolve_view(s.insert(id, t), t),
{
    let s2 = s.insert(id, t);
    lemma_rank_of(s);
    lemma_bind_keeps_acyclic(s, rank_of(s), id, t);
    assert(wf_rank(s2, extended_rank(s, rank_of(s), id, t)));
    lemma_rank_of(s2);
    lemma_bound_rank(s2, rank_of(s2), id);
}

/// Resolving an already resolved type changes nothing.
pub proof fn law_resolve_idempotent(s: Map<u32, TyView>, t: TyView)
    requires
        acyclic(s),
    ensures
        resolve_view(s, resolve_view(s, t)) == resolve_view(s, t),
{
    lemma_rank_of(s);
    lemma_resolve_idem(s, rank_of(s), t);
}

/// A type that mentions the variable itself is always caught by the occurs check,
/// so a binding such as `?T = Vec[?T]` is refused.
pub proof fn law_self_reference_refused(s: Map<u32, TyView>, id: u32, t: TyView)
    requires
        acyclic(s),
        has_var(t, id),
    ensures
        occurs_view(s, id, t),
{
    lemma_rank_of(s);
    lemma_occurs_through(s, rank_of(s), id, id, t);
}

/// A variable with no binding resolves to itself.
pub proof fn law_unbound_var_resolves_to_itself(s: Map<u32, TyView>, id: u32)
    requires
        !s.contains_key(id),
    ensures
        resolve_view(s, TyView::Infer(id)) == TyView::Infer(id),
{
}

/// `Infer(v)` occurs in `t` where resolution looks: inside tuples, arrays, collections,
/// options, results, references, type arguments, function types and aliases (newtypes,
/// raw pointers and trait bounds are kept as they are).
pub open spec fn var_in(t: TyView, v: u32) -> bool
    decreases t,
{
    match t {
        TyView::Infer(o) => o == v,
        TyView::Tuple(f0) => var_in_seq(f0, v),
        TyView::Array(f0, _) => var_in(*f0, v),
        TyView::Vec(f0) => var_in(*f0, v),
        TyView::SetOf(f0) => var_in(*f0, v),
        TyView::Option(f0) => var_in(*f0, v),
        TyView::Ref(f0) => var_in(*f0, v),
        TyView::RefMut(f0) => var_in(*f0, v),
        TyView::RefLifetime(_, f1) => var_in(*f1, v),
        TyView::RefMutLifetime(_, f1) => var_in(*f1, v),
        TyView::Hash(f0, f1) => var_in(*f0, v) || var_in(*f1, v),
        TyView::Result(f0, f1) => var_in(*f0, v) || var_in(*f1, v),
        TyView::Class { generic_args, .. } => var_in_seq(generic_args, v),
        TyView::Struct { generic_args, .. } => var_in_seq(generic_args, v),
        TyView::Enum { generic_args, .. } => var_in_seq(generic_args, v),
        TyView::Fn { params, ret } => var_in(*ret, v) || var_in_seq(params, v),
        TyView::FnMut { params, ret } => var_in(*ret, v) || var_in_seq(params, v),
        TyView::FnOnce { params, ret } => var_in(*ret, v) || var_in_seq(params, v),
        TyView::Alias { target, .. } => var_in(*target, v),
        _ => false,
    }
}

/// `Infer(v)` occurs, where resolution looks, in one of the types.
pub open spec fn var_in_seq(ts: Seq<TyView>, v: u32) -> bool
    decreases ts,
{
    if ts.len() == 0 {
        false
    } else {
        proof { assert(decreases_to!(ts => ts.drop_last())); }
        var_in_seq(ts.drop_last(), v) || var_in(ts.last(), v)
    }
}

proof fn lemma_resolve_drops_bound(s: Map<u32, TyView>, r: spec_fn(u32) -> nat, t: TyView, v: u32)
    requires
        wf_rank(s, r),
        s.contains_key(v),
    ensures
        !var_in(resolve_r(s, r, t), v),
    decreases trank(s, r, t), tsize(t),
{
    match t {
        TyView::Infer(o) => { if s.contains_key(o) { lemma_bound_rank(s, r, o); lemma_resolve_drops_bound(s, r, s[o], v); } },
        TyView::Alias { target, .. } => { lemma_resolve_drops_bound(s, r, *target, v); },
        TyView::Tuple(f0) => { lemma_resolve_seq_drops_bound(s, r, f0, v); },
        TyView::Array(f0, _) => { lemma_resolve_drops_bound(s, r, *f0, v); },
        TyView::Vec(f0) => { lemma_resolve_drops_bound(s, r, *f0, v); },
        TyView::Hash(f0, f1) => { lemma_resolve_drops_bound(s, r, *f0, v); lemma_resolve_drops_bound(s, r, *f1, v); },
        TyView::SetOf(f0) => { lemma_resolve_drops_bound(s, r, *f0, v); },
        TyView::Option(f0) => { lemma_resolve_drops_bound(s, r, *f0, v); },
        TyView::Result(f0, f1) => { lemma_resolve_drops_bound(s, r, *f0, v); lemma_resolve_drops_bound(s, r, *f1, v); },
        TyView::Ref(f0) => { lemma_resolve_drops_bound(s, r, *f0, v); },
        TyView::RefMut(f0) => { lemma_resolve_drops_bound(s, r, *f0, v); },
        TyView::RefLifetime(_, f1) => { lemma_resolve_drops_bound(s, r, *f1, v); },
        TyView::RefMutLifetime(_, f1) => { lemma_resolve_drops_bound(s, r, *f1, v); },
        TyView::Class { generic_args, .. } => { lemma_resolve_seq_drops_bound(s, r, generic_args, v); },
        TyView::Struct { generic_args, .. } => { lemma_resolve_seq_drops_bound(s, r, generic_args, v); },
        TyView::Enum { generic_args, .. } => { lemma_resolve_seq_drops_bound(s, r, generic_args, v); },
        TyView::Fn { params, ret } => { lemma_resolve_drops_bound(s, r, *ret, v); lemma_resolve_seq_drops_bound(s, r, params, v); },
        TyView::FnMut { params, ret } => { lemma_resolve_drops_bound(s, r, *ret, v); lemma_resolve_seq_drops_bound(s, r, params, v); },
        TyView::FnOnce { params, ret } => { lemma_resolve_drops_bound(s, r, *ret, v); lemma_resolve_seq_drops_bound(s, r, params, v); },
        _ => {},
    }
}

proof fn lemma_resolve_seq_drops_bound(s: Map<u32, TyView>, r: spec_fn(u32) -> nat, ts: Seq<TyView>, v: u32)
    requires
        wf_rank(s, r),
        s.contains_key(v),
    ensures
        !var_in_seq(resolve_seq(s, r, ts), v),
    decreases tranks(s, r, ts), tsizes(ts),
{
    if ts.len() > 0 {
        lemma_resolve_seq_drops_bound(s, r, ts.drop_last(), v);
        lemma_resolve_drops_bound(s, r, ts.last(), v);
        let x = resolve_seq(s, r, ts.drop_last());
        let y = resolve_r(s, r, ts.last());
        assert(x.push(y).drop_last() =~= x);
    }
}

/// Resolution leaves no bound variable behind: a variable that has a binding occurs
/// nowhere in a resolved type (in a `Hash`, neither in the key nor in the value type).
pub proof fn law_resolve_leaves_no_bound_var(s: Map<u32, TyView>, t: TyView, v: u32)
    requires
        acyclic(s),
        s.contains_key(v),
    ensures
        !var_in(resolve_view(s, t), v),
{
    lemma_rank_of(s);
    lemma_resolve_drops_bound(s, rank_of(s), t, v);
}

/// `t` has nothing resolution would change: no bound variable and no alias where
/// resolution looks.
pub open spec fn settled(s: Map<u32, TyView>, t: TyView) -> bool
    decreases t,
{
    match t {
        TyView::Infer(o) => !s.contains_key(o),
        TyView::Alias { .. } => false,
        TyView::Tuple(f0) => settled_seq(s, f0),
        TyView::Array(f0, _) => settled(s, *f0),
        TyView::Vec(f0) => settled(s, *f0),
        TyView::SetOf(f0) => settled(s, *f0),
        TyView::Option(f0) => settled(s, *f0),
        TyView::Ref(f0) => settled(s, *f0),
        TyView::RefMut(f0) => settled(s, *f0),
        TyView::RefLifetime(_, f1) => settled(s, *f1),
        TyView::RefMutLifetime(_, f1) => settled(s, *f1),
        TyView::Hash(f0, f1) => settled(s, *f0) && settled(s, *f1),
        TyView::Result(f0, f1) => settled(s, *f0) && settled(s, *f1),
        TyView::Class { generic_args, .. } => settled_seq(s, generic_args),
        TyView::Struct { generic_args, .. } => settled_seq(s, generic_args),
        TyView::Enum { generic_args, .. } => settled_seq(s, generic_args),
        TyView::Fn { params, ret } => settled(s, *ret) && settled_seq(s, params),
        TyView::FnMut { params, ret } => settled(s, *ret) && settled_seq(s, params),
        TyView::FnOnce { params, ret } => settled(s, *ret) && settled_seq(s, params),
        _ => true,
    }
}

/// Every one of the types is settled.
pub open spec fn settled_seq(s: Map<u32, TyView>, ts: Seq<TyView>) -> bool
    decreases ts,
{
    if ts.len() == 0 {
        true
    } else {
        proof { assert(decreases_to!(ts => ts.drop_last())); }
        settled_seq(s, ts.drop_last()) && settled(s, ts.last())
    }
}

proof fn lemma_resolve_settled(s: Map<u32, TyView>, r: spec_fn(u32) -> nat, t: TyView)
    requires
        settled(s, t),
    ensures
        resolve_r(s, r, t) == t,
    decreases trank(s, r, t), tsize(t),
{
    match t {
        TyView::Tuple(f0) => { lemma_resolve_seq_settled(s, r, f0); },
        TyView::Array(f0, _) => { lemma_resolve_settled(s, r, *f0); },
        TyView::Vec(f0) => { lemma_resolve_settled(s, r, *f0); },
        TyView::Hash(f0, f1) => { lemma_resolve_settled(s, r, *f0); lemma_resolve_settled(s, r, *f1); },
        TyView::SetOf(f0) => { lemma_resolve_settled(s, r, *f0); },
        TyView::Option(f0) => { lemma_resolve_settled(s, r, *f0); },
        TyView::Result(f0, f1) => { lemma_resolve_settled(s, r, *f0); lemma_resolve_settled(s, r, *f1); },
        TyView::Ref(f0) => { lemma_resolve_settled(s, r, *f0); },
        TyView::RefMut(f0) => { lemma_resolve_settled(s, r, *f0); },
        TyView::RefLifetime(_, f1) => { lemma_resolve_settled(s, r, *f1); },
        TyView::RefMutLifetime(_, f1) => { lemma_resolve_settled(s, r, *f1); },
        TyView::Class { generic_args, .. } => { lemma_resolve_seq_settled(s, r, generic_args); },
        TyView::Struct { generic_args, .. } => { lemma_resolve_seq_settled(s, r, generic_args); },
        TyView::Enum { generic_args, .. } => { lemma_resolve_seq_settled(s, r, generic_args); },
        TyView::Fn { params, ret } => { lemma_resolve_settled(s, r, *ret); lemma_resolve_seq_settled(s, r, params); },
        TyView::FnMut { params, ret } => { lemma_resolve_settled(s, r, *ret); lemma_resolve_seq_settled(s, r, params); },
        TyView::FnOnce { params, ret } => { lemma_resolve_settled(s, r, *ret); lemma_resolve_seq_settled(s, r, params); },
        _ => {},
    }
}

proof fn lemma_resolve_seq_settled(s: Map<u32, TyView>, r: spec_fn(u32) -> nat, ts: Seq<TyView>)
    requires
        settled_seq(s, ts),
    ensures
        resolve_seq(s, r, ts) == ts,
    decreases tranks(s, r, ts), tsizes(ts),
{
    if ts.len() > 0 {
        lemma_resolve_seq_settled(s, r, ts.drop_last());
        lemma_resolve_settled(s, r, ts.last());
        assert(ts.drop_last().push(ts.last()) =~= ts);
    }
}

/// Resolution changes nothing in a type that holds no bound variable and no alias: each
/// type constructor is kept as it is.
pub proof fn law_resolve_keeps_settled_types(s: Map<u32, TyView>, t: TyView)
    requires
        settled(s, t),
    ensures
        resolve_view(s, t) == t,
{
    lemma_resolve_settled(s, rank_of(s), t);
}

/// Each bound type replaced by its model.
pub open spec fn models_of(m: Map<u32, Ty>) -> Map<u32, TyView> {
    Map::new(|k: u32| m.contains_key(k), |k: u32| m[k]@)
}

/// Typing environment: allocates inference variables and records what they are bound to.
pub struct TypeContext {
    next_type_id: TypeId,
    substitutions: HashMap<TypeId, Ty>,
}

impl TypeContext {
    /// The bindings, each variable mapped to the model of its type.
    pub closed spec fn bindings(&self) -> Map<u32, TyView> {
        models_of(self.substitutions@)
    }

    /// The number of inference variables handed out so far.
    pub closed spec fn count(&self) -> u32 {
        self.next_type_id
    }

    #[verifier::type_invariant]
    spec fn inv(&self) -> bool {
        acyclic(self.bindings())
    }

    /// An empty context.
    pub fn new() -> (r: TypeContext)
        ensures
            r.count() == 0,
            r.bindings() == Map::<u32, TyView>::empty(),
    {
        let m: HashMap<TypeId, Ty> = HashMap::new();
        proof {
            broadcast use vstd::std_specs::hash::group_hash_axioms;
            let z = |v: u32| 0nat;
            assert(models_of(m@) =~= Map::<u32, TyView>::empty());
            assert(wf_rank(models_of(m@), z));
        }
        TypeContext { next_type_id: 0, substitutions: m }
    }

    /// Allocates the next inference variable.
    pub fn fresh_type_var(&mut self) -> (r: Ty)
        requires
            old(self).count() < u32::MAX,
        ensures
            r@ == TyView::Infer(old(self).count()),
            final(self).count() == old(self).count() + 1,
            final(self).bindings() == old(self).bindings(),
    {
        proof { use_type_invariant(&*self); }
        let id = self.next_type_id;
        self.next_type_id = self.next_type_id + 1;
        Ty::Infer(id)
    }

    /// Does `Infer(id)` occur in `ty`, following the bindings?
    fn occurs_in(&self, id: TypeId, ty: &Ty) -> (r: bool)
        ensures
            r == occurs_view(self.bindings(), id, ty@),
        decreases trank(self.bindings(), rank_of(self.bindings()), ty@), tsize(ty@),
    {
        let ghost s = self.bindings();
        let ghost rk = rank_of(s);
        proof {
            use_type_invariant(self);
            lemma_rank_of(s);
            broadcast use vstd::std_specs::hash::group_hash_axioms;
        }
        match ty {
            Ty::Infer(o) => {
                if *o == id {
                    return true;
                }
                match self.substitutions.get(o) {
                    Some(bound) => {
                        proof {
                            assert(s.contains_key(*o) && s[*o] == bound@);
                            lemma_bound_rank(s, rk, *o);
                        }
                        self.occurs_in(id, bound)
                    },
                    None => false,
                }
            },
            Ty::Tuple(elems) => self.occurs_any(id, elems),
            Ty::Array(elem, _) => self.occurs_in(id, &**elem),
            Ty::Vec(elem) => self.occurs_in(id, &**elem),
            Ty::SetOf(elem) => self.occurs_in(id, &**elem),
            Ty::Option(elem) => self.occurs_in(id, &**elem),
            Ty::Hash(k, v) => self.occurs_in(id, &**k) || self.occurs_in(id, &**v),
            Ty::Result(k, v) => self.occurs_in(id, &**k) || self.occurs_in(id, &**v),
            Ty::Ref(inner) => self.occurs_in(id, &**inner),
            Ty::RefMut(inner) => self.occurs_in(id, &**inner),
            Ty::RefLifetime(_, inner) => self.occurs_in(id, &**inner),
            Ty::RefMutLifetime(_, inner) => self.occurs_in(id, &**inner),
            Ty::Class { generic_args, .. } => self.occurs_any(id, generic_args),
            Ty::Struct { generic_args, .. } => self.occurs_any(id, generic_args),
            Ty::Enum { generic_args, .. } => self.occurs_any(id, generic_args),
            Ty::Fn { params, ret } => self.occurs_any(id, params) || self.occurs_in(id, &**ret),
            Ty::FnMut { params, ret } => self.occurs_any(id, params) || self.occurs_in(id, &**ret),
            Ty::FnOnce { params, ret } => self.occurs_any(id, params) || self.occurs_in(id, &**ret),
            Ty::Alias { target, .. } => self.occurs_in(id, &**target),
            Ty::Newtype { inner, .. } => self.occurs_in(id, &**inner),
            Ty::RawPtr(inner) => self.occurs_in(id, &**inner),
            Ty::RawPtrMut(inner) => self.occurs_in(id, &**inner),
            Ty::ImplTrait(refs) => self.occurs_in_refs(id, refs),
            Ty::DynTrait(refs) => self.occurs_in_refs(id, refs),
            Ty::TypeParam { bounds, .. } => self.occurs_in_refs(id, bounds),
            _ => false,
        }
    }

    fn occurs_any(&self, id: TypeId, ts: &Vec<Ty>) -> (r: bool)
        ensures
            r == occurs_seq(self.bindings(), rank_of(self.bindings()), id, tys_view(ts@)),
        decreases tranks(self.bindings(), rank_of(self.bindings()), tys_view(ts@)), tsizes(tys_view(ts@)),
    {
        let ghost s = self.bindings();
        let ghost rk = rank_of(s);
        let ghost v = tys_view(ts@);
        proof { lemma_tys_view(ts@); }
        let mut found = false;
        let mut i: usize = 0;
        while i < ts.len()
            invariant
                i <= ts@.len(),
                s == self.bindings(),
                rk == rank_of(s),
                v == tys_view(ts@),
                v.len() == ts@.len(),
                forall|j: int| 0 <= j < ts@.len() ==> #[trigger] v[j] == ts@[j]@,
                found == occurs_seq(s, rk, id, v.take(i as int)),
            decreases ts@.len() - i,
        {
            proof {
                lemma_tranks_index(s, rk, v, i as int);
                assert(v.take(i + 1).drop_last() =~= v.take(i as int));
            }
            if !found {
                found = self.occurs_in(id, &ts[i]);
            }
            i = i + 1;
        }
        proof { assert(v.take(ts@.len() as int) =~= v); }
        found
    }

    fn occurs_in_refs(&self, id: TypeId, refs: &Vec<TraitRef>) -> (r: bool)
        ensures
            r == occurs_refs(self.bindings(), rank_of(self.bindings()), id, trait_refs_view(refs@)),
        decreases tranks_refs(self.bindings(), rank_of(self.bindings()), trait_refs_view(refs@)), tsize_refs(trait_refs_view(refs@)),
    {
        let ghost s = self.bindings();
        let ghost rk = rank_of(s);
        let ghost v = trait_refs_view(refs@);
        proof { lemma_trait_refs_view(refs@); }
        let mut found = false;
        let mut i: usize = 0;
        while i < refs.len()
            invariant
                i <= refs@.len(),
                s == self.bindings(),
                rk == rank_of(s),
                v == trait_refs_view(refs@),
                v.len() == refs@.len(),
                forall|j: int| 0 <= j < refs@.len() ==> #[trigger] v[j] == refs@[j]@,
                found == occurs_refs(s, rk, id, v.take(i as int)),
            decreases refs@.len() - i,
        {
            proof {
                lemma_refs_index(s, rk, v, i as int);
                assert(v.take(i + 1).drop_last() =~= v.take(i as int));
                assert(v[i as int].generic_args == tys_view(refs@[i as int].generic_args@));
            }
            if !found {
                found = self.occurs_any(id, &refs[i].generic_args);
            }
            i = i + 1;
        }
        proof { assert(v.take(refs@.len() as int) =~= v); }
        found
    }


    /// Binds `id` to `ty`, unless `Infer(id)` occurs in `ty` (which would make an infinite type).
    pub fn bind(&mut self, id: TypeId, ty: Ty) -> (r: Result<(), std::string::String>)
        ensures
            final(self).count() == old(self).count(),
            match r {
                Ok(()) => {
                    &&& !occurs_view(old(self).bindings(), id, ty@)
                    &&& final(self).bindings() == old(self).bindings().insert(id, ty@)
                },
                Err(msg) => {
                    &&& occurs_view(old(self).bindings(), id, ty@)
                    &&& msg@ == "infinite type: ?T"@ + decimal(id as nat) + " occurs in "@ + ty_str(ty@)
                    &&& final(self).bindings() == old(self).bindings()
                },
            },
    {
        proof { use_type_invariant(&*self); }
        if self.occurs_in(id, &ty) {
            let mut msg = std::string::String::new();
            push_str(&mut msg, "infinite type: ?T");
            push_decimal(&mut msg, id as u64);
            push_str(&mut msg, " occurs in ");
            let name = ty.display_name();
            push_str(&mut msg, name.as_str());
            return Err(msg);
        }
        let ghost s = self.bindings();
        let ghost t = ty@;
        let mut m: HashMap<TypeId, Ty> = HashMap::new();
        proof {
            broadcast use vstd::std_specs::hash::group_hash_axioms;
            let z = |v: u32| 0nat;
            assert(models_of(m@) =~= Map::<u32, TyView>::empty());
            assert(wf_rank(models_of(m@), z));
        }
        std::mem::swap(&mut m, &mut self.substitutions);
        m.insert(id, ty);
        proof {
            broadcast use vstd::std_specs::hash::group_hash_axioms;
            lemma_rank_of(s);
            lemma_bind_keeps_acyclic(s, rank_of(s), id, t);
            assert(models_of(m@) =~= s.insert(id, t));
        }
        self.substitutions = m;
        Ok(())
    }

    /// `ty` with every bound variable replaced, recursively, by what it is bound to.
    pub fn resolve(&self, ty: &Ty) -> (r: Ty)
        ensures
            r@ == resolve_view(self.bindings(), ty@),
        decreases trank(self.bindings(), rank_of(self.bindings()), ty@), tsize(ty@),
    {
        let ghost s = self.bindings();
        let ghost rk = rank_of(s);
        proof {
            use_type_invariant(self);
            lemma_rank_of(s);
            broadcast use vstd::std_specs::hash::group_hash_axioms;
        }
        match ty {
            Ty::Infer(o) => {
                match self.substitutions.get(o) {
                    Some(bound) => {
                        proof {
                            assert(s.contains_key(*o) && s[*o] == bound@);
                            lemma_bound_rank(s, rk, *o);
                        }
                        self.resolve(bound)
                    },
                    None => Ty::Infer(*o),
                }
            },
            Ty::Tuple(elems) => Ty::Tuple(self.resolve_all(elems)),
            Ty::Array(elem, size) => Ty::Array(Box::new(self.resolve(&**elem)), *size),
            Ty::Vec(elem) => Ty::Vec(Box::new(self.resolve(&**elem))),
            Ty::Hash(k, v) => Ty::Hash(Box::new(self.resolve(&**k)), Box::new(self.resolve(&**v))),
            Ty::SetOf(elem) => Ty::SetOf(Box::new(self.resolve(&**elem))),
            Ty::Option(inner) => Ty::Option(Box::new(self.resolve(&**inner))),
            Ty::Result(ok, err) => Ty::Result(Box::new(self.resolve(&**ok)), Box::new(self.resolve(&**err))),
            Ty::Ref(inner) => Ty::Ref(Box::new(self.resolve(&**inner))),
            Ty::RefMut(inner) => Ty::RefMut(Box::new(self.resolve(&**inner))),
            Ty::RefLifetime(lt, inner) => Ty::RefLifetime(lt.clone(), Box::new(self.resolve(&**inner))),
            Ty::RefMutLifetime(lt, inner) => Ty::RefMutLifetime(lt.clone(), Box::new(self.resolve(&**inner))),
            Ty::Class { name, generic_args } => Ty::Class { name: name.clone(), generic_args: self.resolve_all(generic_args) },
            Ty::Struct { name, generic_args } => Ty::Struct { name: name.clone(), generic_args: self.resolve_all(generic_args) },
            Ty::Enum { name, generic_args } => Ty::Enum { name: name.clone(), generic_args: self.resolve_all(generic_args) },
            Ty::Fn { params, ret } => Ty::Fn { params: self.resolve_all(params), ret: Box::new(self.resolve(&**ret)) },
            Ty::FnMut { params, ret } => Ty::FnMut { params: self.resolve_all(params), ret: Box::new(self.resolve(&**ret)) },
            Ty::FnOnce { params, ret } => Ty::FnOnce { params: self.resolve_all(params), ret: Box::new(self.resolve(&**ret)) },
            Ty::Alias { target, .. } => self.resolve(&**target),
            _ => ty.duplicate(),
        }
    }

    fn resolve_all(&self, ts: &Vec<Ty>) -> (r: Vec<Ty>)
        ensures
            tys_view(r@) == resolve_seq(self.bindings(), rank_of(self.bindings()), tys_view(ts@)),
        decreases tranks(self.bindings(), rank_of(self.bindings()), tys_view(ts@)), tsizes(tys_view(ts@)),
    {
        let ghost s = self.bindings();
        let ghost rk = rank_of(s);
        let ghost v = tys_view(ts@);
        proof { lemma_tys_view(ts@); }
        let mut out: Vec<Ty> = Vec::new();
        let mut i: usize = 0;
        while i < ts.len()
            invariant
                i <= ts@.len(),
                s == self.bindings(),
                rk == rank_of(s),
                v == tys_view(ts@),
                v.len() == ts@.len(),
                forall|j: int| 0 <= j < ts@.len() ==> #[trigger] v[j] == ts@[j]@,
                tys_view(out@) == resolve_seq(s, rk, v.take(i as int)),
            decreases ts@.len() - i,
        {
            proof {
                lemma_tranks_index(s, rk, v, i as int);
                assert(v.take(i + 1).drop_last() =~= v.take(i as int));
            }
            let ghost before = out@;
            let x = self.resolve(&ts[i]);
            out.push(x);
            proof { assert(out@.drop_last() =~= before); }
            i = i + 1;
        }
        proof { assert(v.take(ts@.len() as int) =~= v); }
        out
    }

    /// Whether the resolved form of `ty` is free of inference variables.
    pub fn is_fully_resolved(&self, ty: &Ty) -> (r: bool)
        ensures
            r == fully_resolved_view(self.bindings(), ty@),
        decreases trank(self.bindings(), rank_of(self.bindings()), ty@), tsize(ty@),
    {
        let ghost s = self.bindings();
        let ghost rk = rank_of(s);
        proof {
            use_type_invariant(self);
            lemma_rank_of(s);
            broadcast use vstd::std_specs::hash::group_hash_axioms;
        }
        match ty {
            Ty::Infer(o) => {
                match self.substitutions.get(o) {
                    Some(bound) => {
                        proof {
                            assert(s.contains_key(*o) && s[*o] == bound@);
                            lemma_bound_rank(s, rk, *o);
                        }
                        self.is_fully_resolved(bound)
                    },
                    None => false,
                }
            },
            Ty::Tuple(elems) => self.all_fully_resolved(elems),
            Ty::Array(elem, _) => self.is_fully_resolved(&**elem),
            Ty::Vec(elem) => self.is_fully_resolved(&**elem),
            Ty::SetOf(elem) => self.is_fully_resolved(&**elem),
            Ty::Option(elem) => self.is_fully_resolved(&**elem),
            Ty::Hash(k, v) => self.is_fully_resolved(&**k) && self.is_fully_resolved(&**v),
            Ty::Result(k, v) => self.is_fully_resolved(&**k) && self.is_fully_resolved(&**v),
            Ty::Ref(inner) => self.is_fully_resolved(&**inner),
            Ty::RefMut(inner) => self.is_fully_resolved(&**inner),
            Ty::RefLifetime(_, inner) => self.is_fully_resolved(&**inner),
            Ty::RefMutLifetime(_, inner) => self.is_fully_resolved(&**inner),
            Ty::Class { generic_args, .. } => self.all_fully_resolved(generic_args),
            Ty::Struct { generic_args, .. } => self.all_fully_resolved(generic_args),
            Ty::Enum { generic_args, .. } => self.all_fully_resolved(generic_args),
            Ty::Fn { params, ret } => self.all_fully_resolved(params) && self.is_fully_resolved(&**ret),
            Ty::FnMut { params, ret } => self.all_fully_resolved(params) && self.is_fully_resolved(&**ret),
            Ty::FnOnce { params, ret } => self.all_fully_resolved(params) && self.is_fully_resolved(&**ret),
            Ty::Alias { target, .. } => self.is_fully_resolved(&**target),
            Ty::Newtype { inner, .. } => self.is_fully_resolved(&**inner),
            Ty::RawPtr(inner) => self.is_fully_resolved(&**inner),
            Ty::RawPtrMut(inner) => self.is_fully_resolved(&**inner),
            Ty::ImplTrait(refs) => self.refs_fully_resolved(refs),
            Ty::DynTrait(refs) => self.refs_fully_resolved(refs),
            Ty::TypeParam { bounds, .. } => self.refs_fully_resolved(bounds),
            _ => true,
        }
    }

    fn all_fully_resolved(&self, ts: &Vec<Ty>) -> (r: bool)
        ensures
            r == resolved_seq(self.bindings(), rank_of(self.bindings()), tys_view(ts@)),
        decreases tranks(self.bindings(), rank_of(self.bindings()), tys_view(ts@)), tsizes(tys_view(ts@)),
    {
        let ghost s = self.bindings();
        let ghost rk = rank_of(s);
        let ghost v = tys_view(ts@);
        proof { lemma_tys_view(ts@); }
        let mut all = true;
        let mut i: usize = 0;
        while i < ts.len()
            invariant
                i <= ts@.len(),
                s == self.bindings(),
                rk == rank_of(s),
                v == tys_view(ts@),
                v.len() == ts@.len(),
                forall|j: int| 0 <= j < ts@.len() ==> #[trigger] v[j] == ts@[j]@,
                all == resolved_seq(s, rk, v.take(i as int)),
            decreases ts@.len() - i,
        {
            proof {
                lemma_tranks_index(s, rk, v, i as int);
                assert(v.take(i + 1).drop_last() =~= v.take(i as int));
            }
            if all {
                all = self.is_fully_resolved(&ts[i]);
            }
            i = i + 1;
        }
        proof { assert(v.take(ts@.len() as int) =~= v); }
        all
    }

    fn refs_fully_resolved(&self, refs: &Vec<TraitRef>) -> (r: bool)
        ensures
            r == resolved_refs(self.bindings(), rank_of(self.bindings()), trait_refs_view(refs@)),
        decreases tranks_refs(self.bindings(), rank_of(self.bindings()), trait_refs_view(refs@)), tsize_refs(trait_refs_view(refs@)),
    {
        let ghost s = self.bindings();
        let ghost rk = rank_of(s);
        let ghost v = trait_refs_view(refs@);
        proof { lemma_trait_refs_view(refs@); }
        let mut all = true;
        let mut i: usize = 0;
        while i < refs.len()
            invariant
                i <= refs@.len(),
                s == self.bindings(),
                rk == rank_of(s),
                v == trait_refs_view(refs@),
                v.len() == refs@.len(),
                forall|j: int| 0 <= j < refs@.len() ==> #[trigger] v[j] == refs@[j]@,
                all == resolved_refs(s, rk, v.take(i as int)),
            decreases refs@.len() - i,
        {
            proof {
                lemma_refs_index(s, rk, v, i as int);
                assert(v.take(i + 1).drop_last() =~= v.take(i as int));
                assert(v[i as int].generic_args == tys_view(refs@[i as int].generic_args@));
            }
            if all {
                all = self.all_fully_resolved(&refs[i].generic_args);
            }
            i = i + 1;
        }
        proof { assert(v.take(refs@.len() as int) =~= v); }
        all
    }


    /// The number of inference variables allocated so far.
    pub fn type_var_count(&self) -> (r: u32)
        ensures
            r == self.count(),
    {
        self.next_type_id
    }

    /// The type `id` is bound to, if any.
    pub fn get_binding(&self, id: TypeId) -> (r: Option<&Ty>)
        ensures
            match r {
                Some(t) => self.bindings().contains_key(id) && t@ == self.bindings()[id],
                None => !self.bindings().contains_key(id),
            },
    {
        proof { broadcast use vstd::std_specs::hash::group_hash_axioms; }
        self.substitutions.get(&id)
    }
}

impl Default for TypeContext {
    fn default() -> (r: TypeContext)
        ensures
            r.count() == 0,
            r.bindings() == Map::<u32, TyView>::empty(),
    {
        TypeContext::new()
    }
}

} // verus!
