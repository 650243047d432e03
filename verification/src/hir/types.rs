use vstd::prelude::*;
use crate::text::{decimal, push_char, push_decimal, push_str};

verus! {

/// Unique identifier for type variables during inference.
pub type TypeId = u32;

/// A reference to a trait, optionally with generic arguments.
#[derive(Debug)]
pub struct TraitRef {
    pub name: std::string::String,
    pub generic_args: Vec<Ty>,
}

/// The core type representation.
#[derive(Debug)]
pub enum Ty {
    Int,
    Int8,
    Int16,
    Int32,
    Int64,
    UInt,
    UInt8,
    UInt16,
    UInt32,
    UInt64,
    ISize,
    USize,
    Float,
    Float32,
    Float64,
    Bool,
    Char,
    Unit,
    Never,
    String,
    Str,
    Tuple(Vec<Ty>),
    Array(Box<Ty>, usize),
    Vec(Box<Ty>),
    Hash(Box<Ty>, Box<Ty>),
    SetOf(Box<Ty>),
    Option(Box<Ty>),
    Result(Box<Ty>, Box<Ty>),
    Ref(Box<Ty>),
    RefMut(Box<Ty>),
    RefLifetime(std::string::String, Box<Ty>),
    RefMutLifetime(std::string::String, Box<Ty>),
    Class { name: std::string::String, generic_args: Vec<Ty> },
    Struct { name: std::string::String, generic_args: Vec<Ty> },
    Enum { name: std::string::String, generic_args: Vec<Ty> },
    ImplTrait(Vec<TraitRef>),
    DynTrait(Vec<TraitRef>),
    Fn { params: Vec<Ty>, ret: Box<Ty> },
    FnMut { params: Vec<Ty>, ret: Box<Ty> },
    FnOnce { params: Vec<Ty>, ret: Box<Ty> },
    Infer(TypeId),
    TypeParam { name: std::string::String, bounds: Vec<TraitRef> },
    Alias { name: std::string::String, target: Box<Ty> },
    Newtype { name: std::string::String, inner: Box<Ty> },
    RawPtr(Box<Ty>),
    RawPtrMut(Box<Ty>),
    RawPtrVoid,
    RawPtrMutVoid,
    Error,
}

/// Model of a [`TraitRef`].
pub struct TraitRefView {
    pub name: Seq<char>,
    pub generic_args: Seq<TyView>,
}

/// Model of a [`Ty`]: the same shape with sequences in place of vectors.
pub enum TyView {
    Int,
    Int8,
    Int16,
    Int32,
    Int64,
    UInt,
    UInt8,
    UInt16,
    UInt32,
    UInt64,
    ISize,
    USize,
    Float,
    Float32,
    Float64,
    Bool,
    Char,
    Unit,
    Never,
    String,
    Str,
    Tuple(Seq<TyView>),
    Array(Box<TyView>, nat),
    Vec(Box<TyView>),
    Hash(Box<TyView>, Box<TyView>),
    SetOf(Box<TyView>),
    Option(Box<TyView>),
    Result(Box<TyView>, Box<TyView>),
    Ref(Box<TyView>),
    RefMut(Box<TyView>),
    RefLifetime(Seq<char>, Box<TyView>),
    RefMutLifetime(Seq<char>, Box<TyView>),
    Class { name: Seq<char>, generic_args: Seq<TyView> },
    Struct { name: Seq<char>, generic_args: Seq<TyView> },
    Enum { name: Seq<char>, generic_args: Seq<TyView> },
    ImplTrait(Seq<TraitRefView>),
    DynTrait(Seq<TraitRefView>),
    Fn { params: Seq<TyView>, ret: Box<TyView> },
    FnMut { params: Seq<TyView>, ret: Box<TyView> },
    FnOnce { params: Seq<TyView>, ret: Box<TyView> },
    Infer(u32),
    TypeParam { name: Seq<char>, bounds: Seq<TraitRefView> },
    Alias { name: Seq<char>, target: Box<TyView> },
    Newtype { name: Seq<char>, inner: Box<TyView> },
    RawPtr(Box<TyView>),
    RawPtrMut(Box<TyView>),
    RawPtrVoid,
    RawPtrMutVoid,
    Error,
}

pub open spec fn tys_view(ts: Seq<Ty>) -> Seq<TyView>
    decreases ts,
{
    if ts.len() == 0 {
        Seq::empty()
    } else {
        proof { assert(decreases_to!(ts => ts.drop_last())); }
        tys_view(ts.drop_last()).push(ts.last().view())
    }
}

pub open spec fn trait_refs_view(ts: Seq<TraitRef>) -> Seq<TraitRefView>
    decreases ts,
{
    if ts.len() == 0 {
        Seq::empty()
    } else {
        proof { assert(decreases_to!(ts => ts.drop_last())); }
        trait_refs_view(ts.drop_last()).push(ts.last().view())
    }
}

impl View for TraitRef {
    type V = TraitRefView;

    open spec fn view(&self) -> TraitRefView
        decreases self,
    {
        TraitRefView { name: self.name@, generic_args: tys_view(self.generic_args@) }
    }
}

impl View for Ty {
    type V = TyView;

    open spec fn view(&self) -> TyView
        decreases self,
    {
        match self {
            Ty::Int => TyView::Int,
            Ty::Int8 => TyView::Int8,
            Ty::Int16 => TyView::Int16,
            Ty::Int32 => TyView::Int32,
            Ty::Int64 => TyView::Int64,
            Ty::UInt => TyView::UInt,
            Ty::UInt8 => TyView::UInt8,
            Ty::UInt16 => TyView::UInt16,
            Ty::UInt32 => TyView::UInt32,
            Ty::UInt64 => TyView::UInt64,
            Ty::ISize => TyView::ISize,
            Ty::USize => TyView::USize,
            Ty::Float => TyView::Float,
            Ty::Float32 => TyView::Float32,
            Ty::Float64 => TyView::Float64,
            Ty::Bool => TyView::Bool,
            Ty::Char => TyView::Char,
            Ty::Unit => TyView::Unit,
            Ty::Never => TyView::Never,
            Ty::String => TyView::String,
            Ty::Str => TyView::Str,
            Ty::Tuple(f0) => TyView::Tuple(tys_view(f0@)),
            Ty::Array(f0, f1) => TyView::Array(Box::new((**f0).view()), *f1 as nat),
            Ty::Vec(f0) => TyView::Vec(Box::new((**f0).view())),
            Ty::Hash(f0, f1) => TyView::Hash(Box::new((**f0).view()), Box::new((**f1).view())),
            Ty::SetOf(f0) => TyView::SetOf(Box::new((**f0).view())),
            Ty::Option(f0) => TyView::Option(Box::new((**f0).view())),
            Ty::Result(f0, f1) => TyView::Result(Box::new((**f0).view()), Box::new((**f1).view())),
            Ty::Ref(f0) => TyView::Ref(Box::new((**f0).view())),
            Ty::RefMut(f0) => TyView::RefMut(Box::new((**f0).view())),
            Ty::RefLifetime(f0, f1) => TyView::RefLifetime(f0@, Box::new((**f1).view())),
            Ty::RefMutLifetime(f0, f1) => TyView::RefMutLifetime(f0@, Box::new((**f1).view())),
            Ty::Class { name, generic_args } => TyView::Class { name: name@, generic_args: tys_view(generic_args@) },
            Ty::Struct { name, generic_args } => TyView::Struct { name: name@, generic_args: tys_view(generic_args@) },
            Ty::Enum { name, generic_args } => TyView::Enum { name: name@, generic_args: tys_view(generic_args@) },
            Ty::ImplTrait(f0) => TyView::ImplTrait(trait_refs_view(f0@)),
            Ty::DynTrait(f0) => TyView::DynTrait(trait_refs_view(f0@)),
            Ty::Fn { params, ret } => TyView::Fn { params: tys_view(params@), ret: Box::new((**ret).view()) },
            Ty::FnMut { params, ret } => TyView::FnMut { params: tys_view(params@), ret: Box::new((**ret).view()) },
            Ty::FnOnce { params, ret } => TyView::FnOnce { params: tys_view(params@), ret: Box::new((**ret).view()) },
            Ty::Infer(f0) => TyView::Infer(*f0),
            Ty::TypeParam { name, bounds } => TyView::TypeParam { name: name@, bounds: trait_refs_view(bounds@) },
            Ty::Alias { name, target } => TyView::Alias { name: name@, target: Box::new((**target).view()) },
            Ty::Newtype { name, inner } => TyView::Newtype { name: name@, inner: Box::new((**inner).view()) },
            Ty::RawPtr(f0) => TyView::RawPtr(Box::new((**f0).view())),
            Ty::RawPtrMut(f0) => TyView::RawPtrMut(Box::new((**f0).view())),
            Ty::RawPtrVoid => TyView::RawPtrVoid,
            Ty::RawPtrMutVoid => TyView::RawPtrMutVoid,
            Ty::Error => TyView::Error,
        }
    }
}

impl TraitRef {
    /// A copy with the same model.
    pub fn duplicate(&self) -> (r: TraitRef)
        ensures
            r@ == self@,
        decreases self,
    {
        let args = duplicate_tys(&self.generic_args);
        proof { assert(tys_view(args@) =~= tys_view(self.generic_args@)); }
        TraitRef { name: self.name.clone(), generic_args: args }
    }
}

/// Copies of a list of types, with the same models.
pub fn duplicate_tys(ts: &Vec<Ty>) -> (r: Vec<Ty>)
    ensures
        tys_view(r@) =~= tys_view(ts@),
    decreases ts,
{
    let mut r: Vec<Ty> = Vec::new();
    let mut i: usize = 0;
    while i < ts.len()
        invariant
            i <= ts@.len(),
            tys_view(r@) == tys_view(ts@.take(i as int)),
        decreases ts@.len() - i,
    {
        proof { assert(decreases_to!(ts => ts@[i as int])); }
        let ghost r0 = r@;
        r.push(ts[i].duplicate());
        proof {
            assert(r@.drop_last() =~= r0);
            assert(ts@.take(i + 1).drop_last() =~= ts@.take(i as int));
        }
        i = i + 1;
    }
    proof { assert(ts@.take(ts@.len() as int) =~= ts@); }
    r
}

/// Copies of a list of trait references, with the same models.
pub fn duplicate_trait_refs(ts: &Vec<TraitRef>) -> (r: Vec<TraitRef>)
    ensures
        trait_refs_view(r@) =~= trait_refs_view(ts@),
    decreases ts,
{
    let mut r: Vec<TraitRef> = Vec::new();
    let mut i: usize = 0;
    while i < ts.len()
        invariant
            i <= ts@.len(),
            trait_refs_view(r@) == trait_refs_view(ts@.take(i as int)),
        decreases ts@.len() - i,
    {
        proof { assert(decreases_to!(ts => ts@[i as int])); }
        let ghost r0 = r@;
        r.push(ts[i].duplicate());
        proof {
            assert(r@.drop_last() =~= r0);
            assert(ts@.take(i + 1).drop_last() =~= ts@.take(i as int));
        }
        i = i + 1;
    }
    proof { assert(ts@.take(ts@.len() as int) =~= ts@); }
    r
}

impl Ty {
    /// A copy of this type with the same model.
    pub fn duplicate(&self) -> (r: Ty)
        ensures
            r@ == self@,
        decreases self,
    {
        match self {
            Ty::Int => Ty::Int,
            Ty::Int8 => Ty::Int8,
            Ty::Int16 => Ty::Int16,
            Ty::Int32 => Ty::Int32,
            Ty::Int64 => Ty::Int64,
            Ty::UInt => Ty::UInt,
            Ty::UInt8 => Ty::UInt8,
            Ty::UInt16 => Ty::UInt16,
            Ty::UInt32 => Ty::UInt32,
            Ty::UInt64 => Ty::UInt64,
            Ty::ISize => Ty::ISize,
            Ty::USize => Ty::USize,
            Ty::Float => Ty::Float,
            Ty::Float32 => Ty::Float32,
            Ty::Float64 => Ty::Float64,
            Ty::Bool => Ty::Bool,
            Ty::Char => Ty::Char,
            Ty::Unit => Ty::Unit,
            Ty::Never => Ty::Never,
            Ty::String => Ty::String,
            Ty::Str => Ty::Str,
            Ty::Tuple(f0) => Ty::Tuple(duplicate_tys(f0)),
            Ty::Array(f0, f1) => Ty::Array(Box::new((**f0).duplicate()), *f1),
            Ty::Vec(f0) => Ty::Vec(Box::new((**f0).duplicate())),
            Ty::Hash(f0, f1) => Ty::Hash(Box::new((**f0).duplicate()), Box::new((**f1).duplicate())),
            Ty::SetOf(f0) => Ty::SetOf(Box::new((**f0).duplicate())),
            Ty::Option(f0) => Ty::Option(Box::new((**f0).duplicate())),
            Ty::Result(f0, f1) => Ty::Result(Box::new((**f0).duplicate()), Box::new((**f1).duplicate())),
            Ty::Ref(f0) => Ty::Ref(Box::new((**f0).duplicate())),
            Ty::RefMut(f0) => Ty::RefMut(Box::new((**f0).duplicate())),
            Ty::RefLifetime(f0, f1) => Ty::RefLifetime(f0.clone(), Box::new((**f1).duplicate())),
            Ty::RefMutLifetime(f0, f1) => Ty::RefMutLifetime(f0.clone(), Box::new((**f1).duplicate())),
            Ty::Class { name, generic_args } => Ty::Class { name: name.clone(), generic_args: duplicate_tys(generic_args) },
            Ty::Struct { name, generic_args } => Ty::Struct { name: name.clone(), generic_args: duplicate_tys(generic_args) },
            Ty::Enum { name, generic_args } => Ty::Enum { name: name.clone(), generic_args: duplicate_tys(generic_args) },
            Ty::ImplTrait(f0) => Ty::ImplTrait(duplicate_trait_refs(f0)),
            Ty::DynTrait(f0) => Ty::DynTrait(duplicate_trait_refs(f0)),
            Ty::Fn { params, ret } => Ty::Fn { params: duplicate_tys(params), ret: Box::new((**ret).duplicate()) },
            Ty::FnMut { params, ret } => Ty::FnMut { params: duplicate_tys(params), ret: Box::new((**ret).duplicate()) },
            Ty::FnOnce { params, ret } => Ty::FnOnce { params: duplicate_tys(params), ret: Box::new((**ret).duplicate()) },
            Ty::Infer(f0) => Ty::Infer(*f0),
            Ty::TypeParam { name, bounds } => Ty::TypeParam { name: name.clone(), bounds: duplicate_trait_refs(bounds) },
            Ty::Alias { name, target } => Ty::Alias { name: name.clone(), target: Box::new((**target).duplicate()) },
            Ty::Newtype { name, inner } => Ty::Newtype { name: name.clone(), inner: Box::new((**inner).duplicate()) },
            Ty::RawPtr(f0) => Ty::RawPtr(Box::new((**f0).duplicate())),
            Ty::RawPtrMut(f0) => Ty::RawPtrMut(Box::new((**f0).duplicate())),
            Ty::RawPtrVoid => Ty::RawPtrVoid,
            Ty::RawPtrMutVoid => Ty::RawPtrMutVoid,
            Ty::Error => Ty::Error,
        }
    }
}

impl Clone for Ty {
    fn clone(&self) -> (r: Ty)
        ensures
            r@ == self@,
    {
        self.duplicate()
    }
}

impl Clone for TraitRef {
    fn clone(&self) -> (r: TraitRef)
        ensures
            r@ == self@,
    {
        self.duplicate()
    }
}

/// Display form of a type.
pub open spec fn ty_str(t: TyView) -> Seq<char>
    decreases t,
{
    match t {
        TyView::Int => "Int"@,
        TyView::Int8 => "Int8"@,
        TyView::Int16 => "Int16"@,
        TyView::Int32 => "Int32"@,
        TyView::Int64 => "Int64"@,
        TyView::UInt => "UInt"@,
        TyView::UInt8 => "UInt8"@,
        TyView::UInt16 => "UInt16"@,
        TyView::UInt32 => "UInt32"@,
        TyView::UInt64 => "UInt64"@,
        TyView::ISize => "ISize"@,
        TyView::USize => "USize"@,
        TyView::Float => "Float"@,
        TyView::Float32 => "Float32"@,
        TyView::Float64 => "Float64"@,
        TyView::Bool => "Bool"@,
        TyView::Char => "Char"@,
        TyView::Unit => "()"@,
        TyView::Never => "Never"@,
        TyView::String => "String"@,
        TyView::Str => "&str"@,
        TyView::Tuple(f0) => "("@ + tys_str(f0, ", "@) + (if f0.len() == 1 { ","@ } else { Seq::<char>::empty() }) + ")"@,
        TyView::Array(f0, f1) => "["@ + ty_str(*f0) + "; "@ + decimal(f1 as nat) + "]"@,
        TyView::Vec(f0) => "Vec["@ + ty_str(*f0) + "]"@,
        TyView::Hash(f0, f1) => "Hash["@ + ty_str(*f0) + ", "@ + ty_str(*f1) + "]"@,
        TyView::SetOf(f0) => "Set["@ + ty_str(*f0) + "]"@,
        TyView::Option(f0) => "Option["@ + ty_str(*f0) + "]"@,
        TyView::Result(f0, f1) => "Result["@ + ty_str(*f0) + ", "@ + ty_str(*f1) + "]"@,
        TyView::Ref(f0) => "&"@ + ty_str(*f0),
        TyView::RefMut(f0) => "&mut "@ + ty_str(*f0),
        TyView::RefLifetime(f0, f1) => "&'"@ + f0 + " "@ + ty_str(*f1),
        TyView::RefMutLifetime(f0, f1) => "&'"@ + f0 + " mut "@ + ty_str(*f1),
        TyView::Class { name, generic_args } => name + (if generic_args.len() == 0 { Seq::<char>::empty() } else { "["@ + tys_str(generic_args, ", "@) + "]"@ }),
        TyView::Struct { name, generic_args } => name + (if generic_args.len() == 0 { Seq::<char>::empty() } else { "["@ + tys_str(generic_args, ", "@) + "]"@ }),
        TyView::Enum { name, generic_args } => name + (if generic_args.len() == 0 { Seq::<char>::empty() } else { "["@ + tys_str(generic_args, ", "@) + "]"@ }),
        TyView::ImplTrait(f0) => "impl "@ + trs_str(f0, " + "@),
        TyView::DynTrait(f0) => "dyn "@ + trs_str(f0, " + "@),
        TyView::Fn { params, ret } => "Fn("@ + tys_str(params, ", "@) + ") -> "@ + ty_str(*ret),
        TyView::FnMut { params, ret } => "FnMut("@ + tys_str(params, ", "@) + ") -> "@ + ty_str(*ret),
        TyView::FnOnce { params, ret } => "FnOnce("@ + tys_str(params, ", "@) + ") -> "@ + ty_str(*ret),
        TyView::Infer(f0) => "?T"@ + decimal(f0 as nat),
        TyView::TypeParam { name, bounds } => name + (if bounds.len() == 0 { Seq::<char>::empty() } else { ": "@ + trs_str(bounds, " + "@) }),
        TyView::Alias { name, .. } => name,
        TyView::Newtype { name, .. } => name,
        TyView::RawPtr(f0) => "*"@ + ty_str(*f0),
        TyView::RawPtrMut(f0) => "*mut "@ + ty_str(*f0),
        TyView::RawPtrVoid => "*Void"@,
        TyView::RawPtrMutVoid => "*mut Void"@,
        TyView::Error => "<error>"@,
    }
}

/// Display forms of types joined by `sep`.
pub open spec fn tys_str(ts: Seq<TyView>, sep: Seq<char>) -> Seq<char>
    decreases ts,
{
    if ts.len() == 0 {
        Seq::empty()
    } else if ts.len() == 1 {
        ty_str(ts[0])
    } else {
        proof { assert(decreases_to!(ts => ts.drop_last())); }
        tys_str(ts.drop_last(), sep) + sep + ty_str(ts.last())
    }
}

/// Display form of a trait reference.
pub open spec fn tr_str(t: TraitRefView) -> Seq<char>
    decreases t,
{
    t.name + if t.generic_args.len() == 0 { Seq::<char>::empty() } else { "["@ + tys_str(t.generic_args, ", "@) + "]"@ }
}

/// Display forms of trait references joined by `sep`.
pub open spec fn trs_str(ts: Seq<TraitRefView>, sep: Seq<char>) -> Seq<char>
    decreases ts,
{
    if ts.len() == 0 {
        Seq::empty()
    } else if ts.len() == 1 {
        tr_str(ts[0])
    } else {
        proof { assert(decreases_to!(ts => ts.drop_last())); }
        trs_str(ts.drop_last(), sep) + sep + tr_str(ts.last())
    }
}

pub broadcast proof fn lemma_tys_view_len(ts: Seq<Ty>)
    ensures
        #[trigger] tys_view(ts).len() == ts.len(),
{
    lemma_tys_view(ts);
}

pub broadcast proof fn lemma_trait_refs_view_len(ts: Seq<TraitRef>)
    ensures
        #[trigger] trait_refs_view(ts).len() == ts.len(),
{
    lemma_trait_refs_view(ts);
}

pub proof fn lemma_tys_view(ts: Seq<Ty>)
    ensures
        tys_view(ts).len() == ts.len(),
        forall|i: int| 0 <= i < ts.len() ==> #[trigger] tys_view(ts)[i] == ts[i]@,
    decreases ts.len(),
{
    reveal_with_fuel(tys_view, 2);
    if ts.len() > 0 {
        lemma_tys_view(ts.drop_last());
        assert(tys_view(ts) == tys_view(ts.drop_last()).push(ts.last().view()));
    } else {
        assert(tys_view(ts) == Seq::<TyView>::empty());
    }
}

pub proof fn lemma_trait_refs_view(ts: Seq<TraitRef>)
    ensures
        trait_refs_view(ts).len() == ts.len(),
        forall|i: int| 0 <= i < ts.len() ==> #[trigger] trait_refs_view(ts)[i] == ts[i]@,
    decreases ts.len(),
{
    reveal_with_fuel(trait_refs_view, 2);
    if ts.len() > 0 {
        lemma_trait_refs_view(ts.drop_last());
    }
}

fn write_ty(out: &mut String, t: &Ty)
    ensures
        final(out)@ == old(out)@ + ty_str(t@),
    decreases t,
{
    let ghost start = out@;
    match t {
        Ty::Int => {
            push_str(out, "Int");
        },
        Ty::Int8 => {
            push_str(out, "Int8");
        },
        Ty::Int16 => {
            push_str(out, "Int16");
        },
        Ty::Int32 => {
            push_str(out, "Int32");
        },
        Ty::Int64 => {
            push_str(out, "Int64");
        },
        Ty::UInt => {
            push_str(out, "UInt");
        },
        Ty::UInt8 => {
            push_str(out, "UInt8");
        },
        Ty::UInt16 => {
            push_str(out, "UInt16");
        },
        Ty::UInt32 => {
            push_str(out, "UInt32");
        },
        Ty::UInt64 => {
            push_str(out, "UInt64");
        },
        Ty::ISize => {
            push_str(out, "ISize");
        },
        Ty::USize => {
            push_str(out, "USize");
        },
        Ty::Float => {
            push_str(out, "Float");
        },
        Ty::Float32 => {
            push_str(out, "Float32");
        },
        Ty::Float64 => {
            push_str(out, "Float64");
        },
        Ty::Bool => {
            push_str(out, "Bool");
        },
        Ty::Char => {
            push_str(out, "Char");
        },
        Ty::Unit => {
            push_str(out, "()");
        },
        Ty::Never => {
            push_str(out, "Never");
        },
        Ty::String => {
            push_str(out, "String");
        },
        Ty::Str => {
            push_str(out, "&str");
        },
        Ty::Tuple(f0) => {
            push_str(out, "(");
            write_tys(out, f0, ", ");
            if f0.len() == 1 { push_str(out, ","); }
            push_str(out, ")");
        },
        Ty::Array(f0, f1) => {
            push_str(out, "[");
            write_ty(out, &**f0);
            push_str(out, "; ");
            push_decimal(out, *f1 as u64);
            push_str(out, "]");
        },
        Ty::Vec(f0) => {
            push_str(out, "Vec[");
            write_ty(out, &**f0);
            push_str(out, "]");
        },
        Ty::Hash(f0, f1) => {
            push_str(out, "Hash[");
            write_ty(out, &**f0);
            push_str(out, ", ");
            write_ty(out, &**f1);
            push_str(out, "]");
        },
        Ty::SetOf(f0) => {
            push_str(out, "Set[");
            write_ty(out, &**f0);
            push_str(out, "]");
        },
        Ty::Option(f0) => {
            push_str(out, "Option[");
            write_ty(out, &**f0);
            push_str(out, "]");
        },
        Ty::Result(f0, f1) => {
            push_str(out, "Result[");
            write_ty(out, &**f0);
            push_str(out, ", ");
            write_ty(out, &**f1);
            push_str(out, "]");
        },
        Ty::Ref(f0) => {
            push_str(out, "&");
            write_ty(out, &**f0);
        },
        Ty::RefMut(f0) => {
            push_str(out, "&mut ");
            write_ty(out, &**f0);
        },
        Ty::RefLifetime(f0, f1) => {
            push_str(out, "&'");
            push_str(out, f0.as_str());
            push_str(out, " ");
            write_ty(out, &**f1);
        },
        Ty::RefMutLifetime(f0, f1) => {
            push_str(out, "&'");
            push_str(out, f0.as_str());
            push_str(out, " mut ");
            write_ty(out, &**f1);
        },
        Ty::Class { name, generic_args } => {
            push_str(out, name.as_str());
            if generic_args.len() > 0 { push_str(out, "["); write_tys(out, generic_args, ", "); push_str(out, "]"); }
        },
        Ty::Struct { name, generic_args } => {
            push_str(out, name.as_str());
            if generic_args.len() > 0 { push_str(out, "["); write_tys(out, generic_args, ", "); push_str(out, "]"); }
        },
        Ty::Enum { name, generic_args } => {
            push_str(out, name.as_str());
            if generic_args.len() > 0 { push_str(out, "["); write_tys(out, generic_args, ", "); push_str(out, "]"); }
        },
        Ty::ImplTrait(f0) => {
            push_str(out, "impl ");
            write_trait_refs(out, f0, " + ");
        },
        Ty::DynTrait(f0) => {
            push_str(out, "dyn ");
            write_trait_refs(out, f0, " + ");
        },
        Ty::Fn { params, ret } => {
            push_str(out, "Fn(");
            write_tys(out, params, ", ");
            push_str(out, ") -> ");
            write_ty(out, &**ret);
        },
        Ty::FnMut { params, ret } => {
            push_str(out, "FnMut(");
            write_tys(out, params, ", ");
            push_str(out, ") -> ");
            write_ty(out, &**ret);
        },
        Ty::FnOnce { params, ret } => {
            push_str(out, "FnOnce(");
            write_tys(out, params, ", ");
            push_str(out, ") -> ");
            write_ty(out, &**ret);
        },
        Ty::Infer(f0) => {
            push_str(out, "?T");
            push_decimal(out, *f0 as u64);
        },
        Ty::TypeParam { name, bounds } => {
            push_str(out, name.as_str());
            if bounds.len() > 0 { push_str(out, ": "); write_trait_refs(out, bounds, " + "); }
        },
        Ty::Alias { name, .. } => {
            push_str(out, name.as_str());
        },
        Ty::Newtype { name, .. } => {
            push_str(out, name.as_str());
        },
        Ty::RawPtr(f0) => {
            push_str(out, "*");
            write_ty(out, &**f0);
        },
        Ty::RawPtrMut(f0) => {
            push_str(out, "*mut ");
            write_ty(out, &**f0);
        },
        Ty::RawPtrVoid => {
            push_str(out, "*Void");
        },
        Ty::RawPtrMutVoid => {
            push_str(out, "*mut Void");
        },
        Ty::Error => {
            push_str(out, "<error>");
        },
    }
    proof {
        broadcast use {lemma_tys_view_len, lemma_trait_refs_view_len};
        reveal_with_fuel(<Ty as View>::view, 2);
        assert(out@ =~= start + ty_str(t@));
    }
}

fn write_tys(out: &mut String, ts: &Vec<Ty>, sep: &str)
    ensures
        final(out)@ == old(out)@ + tys_str(tys_view(ts@), sep@),
    decreases ts,
{
    let ghost start = out@;
    let ghost v = tys_view(ts@);
    proof { lemma_tys_view(ts@); }
    let mut i: usize = 0;
    while i < ts.len()
        invariant
            i <= ts@.len(),
            v == tys_view(ts@),
            v.len() == ts@.len(),
            forall|j: int| 0 <= j < ts@.len() ==> #[trigger] v[j] == ts@[j]@,
            out@ == start + tys_str(v.take(i as int), sep@),
        decreases ts@.len() - i,
    {
        proof { assert(decreases_to!(ts => ts@[i as int])); }
        if i > 0 {
            push_str(out, sep);
        }
        write_ty(out, &ts[i]);
        proof {
            assert(v.take(i + 1).drop_last() =~= v.take(i as int));
            if i == 0 {
                assert(v.take(1) =~= seq![v[0]]);
            }
            assert(out@ =~= start + tys_str(v.take(i + 1), sep@));
        }
        i = i + 1;
    }
    proof { assert(v.take(ts@.len() as int) =~= v); }
}

fn write_trait_ref(out: &mut String, t: &TraitRef)
    ensures
        final(out)@ == old(out)@ + tr_str(t@),
    decreases t,
{
    let ghost start = out@;
    push_str(out, t.name.as_str());
    if t.generic_args.len() > 0 {
        push_str(out, "[");
        write_tys(out, &t.generic_args, ", ");
        push_str(out, "]");
    }
    proof {
        broadcast use {lemma_tys_view_len, lemma_trait_refs_view_len};
        reveal_with_fuel(<TraitRef as View>::view, 2);
        assert(out@ =~= start + tr_str(t@));
    }
}

fn write_trait_refs(out: &mut String, ts: &Vec<TraitRef>, sep: &str)
    ensures
        final(out)@ == old(out)@ + trs_str(trait_refs_view(ts@), sep@),
    decreases ts,
{
    let ghost start = out@;
    let ghost v = trait_refs_view(ts@);
    proof { lemma_trait_refs_view(ts@); }
    let mut i: usize = 0;
    while i < ts.len()
        invariant
            i <= ts@.len(),
            v == trait_refs_view(ts@),
            v.len() == ts@.len(),
            forall|j: int| 0 <= j < ts@.len() ==> #[trigger] v[j] == ts@[j]@,
            out@ == start + trs_str(v.take(i as int), sep@),
        decreases ts@.len() - i,
    {
        proof { assert(decreases_to!(ts => ts@[i as int])); }
        if i > 0 {
            push_str(out, sep);
        }
        write_trait_ref(out, &ts[i]);
        proof {
            assert(v.take(i + 1).drop_last() =~= v.take(i as int));
            if i == 0 {
                assert(v.take(1) =~= seq![v[0]]);
            }
            assert(out@ =~= start + trs_str(v.take(i + 1), sep@));
        }
        i = i + 1;
    }
    proof { assert(v.take(ts@.len() as int) =~= v); }
}

impl TraitRef {
    /// The display form, e.g. `Into[String]`.
    pub fn render(&self) -> (r: std::string::String)
        ensures
            r@ == tr_str(self@),
    {
        let mut out = std::string::String::new();
        write_trait_ref(&mut out, self);
        proof { assert(out@ =~= tr_str(self@)); }
        out
    }
}

/// Metadata about a type's properties.
#[derive(Debug, Clone, Copy, PartialEq)]
pub struct TypeInfo {
    pub is_copy: bool,
    pub is_drop: bool,
    pub size: Option<usize>,
    pub alignment: Option<usize>,
}

/// Whether a value is copied or moved on assignment/passing.
#[derive(Debug, Clone, Copy, PartialEq, Eq, Structural)]
pub enum MoveSemantics {
    Copy,
    Move,
}

/// Copy semantics: primitives, `Never`, immutable references, `&str`, raw
/// pointers, the error type, and tuples and arrays of copy types.
pub open spec fn copy_spec(t: TyView) -> bool
    decreases t,
{
    match t {
        TyView::Int | TyView::Int8 | TyView::Int16 | TyView::Int32 | TyView::Int64 | TyView::UInt
        | TyView::UInt8 | TyView::UInt16 | TyView::UInt32 | TyView::UInt64 | TyView::ISize
        | TyView::USize | TyView::Float | TyView::Float32 | TyView::Float64 | TyView::Bool
        | TyView::Char | TyView::Unit | TyView::Never => true,
        TyView::Ref(_) | TyView::RefLifetime(_, _) | TyView::Str => true,
        TyView::Tuple(elems) => all_copy(elems),
        TyView::Array(elem, _) => copy_spec(*elem),
        TyView::RawPtr(_) | TyView::RawPtrMut(_) | TyView::RawPtrVoid | TyView::RawPtrMutVoid => true,
        TyView::Error => true,
        _ => false,
    }
}

/// Every type of the list has copy semantics.
pub open spec fn all_copy(ts: Seq<TyView>) -> bool
    decreases ts,
{
    if ts.len() == 0 {
        true
    } else {
        proof { assert(decreases_to!(ts => ts.drop_last())); }
        all_copy(ts.drop_last()) && copy_spec(ts.last())
    }
}

pub open spec fn is_ref_view(t: TyView) -> bool {
    t is Ref || t is RefMut || t is RefLifetime || t is RefMutLifetime || t is Str
}

pub open spec fn is_integer_view(t: TyView) -> bool {
    is_signed_view(t) || is_unsigned_view(t)
}

pub open spec fn is_signed_view(t: TyView) -> bool {
    t is Int || t is Int8 || t is Int16 || t is Int32 || t is Int64 || t is ISize
}

pub open spec fn is_unsigned_view(t: TyView) -> bool {
    t is UInt || t is UInt8 || t is UInt16 || t is UInt32 || t is UInt64 || t is USize
}

pub open spec fn is_float_view(t: TyView) -> bool {
    t is Float || t is Float32 || t is Float64
}

pub open spec fn bit_width_view(t: TyView) -> Option<u32> {
    match t {
        TyView::Int8 | TyView::UInt8 => Some(8),
        TyView::Int16 | TyView::UInt16 => Some(16),
        TyView::Int32 | TyView::UInt32 | TyView::Float32 => Some(32),
        TyView::Int64 | TyView::UInt64 | TyView::Float64 => Some(64),
        TyView::Int | TyView::UInt | TyView::Float => Some(64),
        TyView::ISize | TyView::USize => Some(64),
        _ => None,
    }
}

impl Ty {
    /// Returns true if this type has Copy semantics.
    pub fn is_copy(&self) -> (r: bool)
        ensures
            r == copy_spec(self@),
        decreases self,
    {
        proof { reveal_with_fuel(<Ty as View>::view, 2); }
        match self {
            Ty::Int | Ty::Int8 | Ty::Int16 | Ty::Int32 | Ty::Int64 | Ty::UInt | Ty::UInt8
            | Ty::UInt16 | Ty::UInt32 | Ty::UInt64 | Ty::ISize | Ty::USize | Ty::Float
            | Ty::Float32 | Ty::Float64 | Ty::Bool | Ty::Char | Ty::Unit => true,
            Ty::Never => true,
            Ty::Ref(_) | Ty::RefLifetime(_, _) => true,
            Ty::Str => true,
            Ty::Tuple(elems) => {
                let ghost v = tys_view(elems@);
                proof { lemma_tys_view(elems@); }
                let mut i: usize = 0;
                #[verifier::loop_isolation(false)]
                while i < elems.len()
                    invariant
                        i <= elems@.len(),
                        v == tys_view(elems@),
                        v.len() == elems@.len(),
                        forall|j: int| 0 <= j < elems@.len() ==> #[trigger] v[j] == elems@[j]@,
                        all_copy(v.take(i as int)),
                    decreases elems@.len() - i,
                {
                    proof { assert(decreases_to!(self => elems@[i as int])); }
                    if !elems[i].is_copy() {
                        proof {
                            if all_copy(v) {
                                lemma_all_copy_element(v, i as int);
                            }
                        }
                        return false;
                    }
                    proof { assert(v.take(i + 1).drop_last() =~= v.take(i as int)); }
                    i = i + 1;
                }
                proof { assert(v.take(elems@.len() as int) =~= v); }
                true
            },
            Ty::Array(elem, _) => elem.is_copy(),
            Ty::RawPtr(_) | Ty::RawPtrMut(_) | Ty::RawPtrVoid | Ty::RawPtrMutVoid => true,
            Ty::Error => true,
            _ => false,
        }
    }

    /// Returns true if this type has Move semantics.
    pub fn is_move(&self) -> (r: bool)
        ensures
            r == !copy_spec(self@),
    {
        !self.is_copy()
    }

    /// Returns the move semantics for this type.
    pub fn move_semantics(&self) -> (r: MoveSemantics)
        ensures
            r == (if copy_spec(self@) { MoveSemantics::Copy } else { MoveSemantics::Move }),
    {
        if self.is_copy() {
            MoveSemantics::Copy
        } else {
            MoveSemantics::Move
        }
    }

    /// Returns true if this is any kind of reference.
    pub fn is_ref(&self) -> (r: bool)
        ensures
            r == is_ref_view(self@),
    {
        matches!(self, Ty::Ref(_) | Ty::RefMut(_) | Ty::RefLifetime(_, _) | Ty::RefMutLifetime(_, _) | Ty::Str)
    }

    /// Returns true if this is a mutable reference.
    pub fn is_mut_ref(&self) -> (r: bool)
        ensures
            r == (self@ is RefMut || self@ is RefMutLifetime),
    {
        matches!(self, Ty::RefMut(_) | Ty::RefMutLifetime(_, _))
    }

    /// Returns true if this is an immutable reference.
    pub fn is_immut_ref(&self) -> (r: bool)
        ensures
            r == (self@ is Ref || self@ is RefLifetime || self@ is Str),
    {
        matches!(self, Ty::Ref(_) | Ty::RefLifetime(_, _) | Ty::Str)
    }

    /// Returns the inner type if this is a reference, otherwise None.
    pub fn deref_ty(&self) -> (r: Option<&Ty>)
        ensures
            match self@ {
                TyView::Ref(inner) | TyView::RefMut(inner) => r matches Some(x) && x@ == *inner,
                TyView::RefLifetime(_, inner) | TyView::RefMutLifetime(_, inner) => r matches Some(x) && x@ == *inner,
                _ => r is None,
            },
    {
        match self {
            Ty::Ref(inner) | Ty::RefMut(inner) => Some(&**inner),
            Ty::RefLifetime(_, inner) | Ty::RefMutLifetime(_, inner) => Some(&**inner),
            _ => None,
        }
    }

    /// Returns true if this is an unresolved inference variable.
    pub fn is_infer(&self) -> (r: bool)
        ensures
            r == self@ is Infer,
    {
        matches!(self, Ty::Infer(_))
    }

    /// Returns true if this is the error sentinel type.
    pub fn is_error(&self) -> (r: bool)
        ensures
            r == self@ is Error,
    {
        matches!(self, Ty::Error)
    }

    /// Returns true if this is the Never (bottom) type.
    pub fn is_never(&self) -> (r: bool)
        ensures
            r == self@ is Never,
    {
        matches!(self, Ty::Never)
    }

    /// Returns true if this is a numeric type (integer or float).
    pub fn is_numeric(&self) -> (r: bool)
        ensures
            r == (is_integer_view(self@) || is_float_view(self@)),
    {
        self.is_integer() || self.is_float()
    }

    /// Returns true if this is any integer type.
    pub fn is_integer(&self) -> (r: bool)
        ensures
            r == is_integer_view(self@),
    {
        matches!(
            self,
            Ty::Int | Ty::Int8 | Ty::Int16 | Ty::Int32 | Ty::Int64 | Ty::UInt | Ty::UInt8 | Ty::UInt16
                | Ty::UInt32 | Ty::UInt64 | Ty::ISize | Ty::USize
        )
    }

    /// Returns true if this is any float type.
    pub fn is_float(&self) -> (r: bool)
        ensures
            r == is_float_view(self@),
    {
        matches!(self, Ty::Float | Ty::Float32 | Ty::Float64)
    }

    /// Returns true if this is a signed integer type.
    pub fn is_signed_integer(&self) -> (r: bool)
        ensures
            r == is_signed_view(self@),
    {
        matches!(self, Ty::Int | Ty::Int8 | Ty::Int16 | Ty::Int32 | Ty::Int64 | Ty::ISize)
    }

    /// Returns true if this is an unsigned integer type.
    pub fn is_unsigned_integer(&self) -> (r: bool)
        ensures
            r == is_unsigned_view(self@),
    {
        matches!(self, Ty::UInt | Ty::UInt8 | Ty::UInt16 | Ty::UInt32 | Ty::UInt64 | Ty::USize)
    }

    /// Returns the bit width of a numeric type, or None.
    pub fn bit_width(&self) -> (r: Option<u32>)
        ensures
            r == bit_width_view(self@),
    {
        match self {
            Ty::Int8 | Ty::UInt8 => Some(8),
            Ty::Int16 | Ty::UInt16 => Some(16),
            Ty::Int32 | Ty::UInt32 | Ty::Float32 => Some(32),
            Ty::Int64 | Ty::UInt64 | Ty::Float64 => Some(64),
            Ty::Int | Ty::UInt | Ty::Float => Some(64),
            Ty::ISize | Ty::USize => Some(64),
            _ => None,
        }
    }

    /// Returns true if this is an Option type.
    pub fn is_option(&self) -> (r: bool)
        ensures
            r == self@ is Option,
    {
        matches!(self, Ty::Option(_))
    }

    /// Returns true if this is a Result type.
    pub fn is_result(&self) -> (r: bool)
        ensures
            r == self@ is Result,
    {
        matches!(self, Ty::Result(_, _))
    }

    /// Returns the user-visible name of this type.
    pub fn display_name(&self) -> (r: std::string::String)
        ensures
            r@ == ty_str(self@),
    {
        let mut out = std::string::String::new();
        write_ty(&mut out, self);
        proof { assert(out@ =~= ty_str(self@)); }
        out
    }

}

pub proof fn lemma_all_copy_element(ts: Seq<TyView>, i: int)
    requires
        0 <= i < ts.len(),
        all_copy(ts),
    ensures
        copy_spec(ts[i]),
    decreases ts.len(),
{
    if i < ts.len() - 1 {
        lemma_all_copy_element(ts.drop_last(), i);
    }
}

} // verus!
