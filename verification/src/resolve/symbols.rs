//! The symbol table: every definition of the program, by `DefId`.
use vstd::prelude::*;
use crate::hir::nodes::{DefId, HirSelfMode};
use crate::hir::types::{Ty, TyView};
use crate::lexer::token::Span;
use crate::parser::ast::Visibility;

verus! {

/// What a method's signature says of its receiver.
#[derive(Debug)]
pub struct MethodSignature {
    pub self_mode: Option<HirSelfMode>,
}

/// What is recorded of a struct definition.
#[derive(Debug)]
pub struct StructInfo {
    pub derive_traits: Vec<String>,
}

/// The kind of a definition, with what later passes read of it.
#[derive(Debug)]
pub enum DefKind {
    Variable { mutable: bool, ty: Ty },
    Param { ty: Ty },
    SelfValue { ty: Ty },
    Method { signature: MethodSignature },
    Struct { info: StructInfo },
    /// Any other definition (types, modules, functions, ...).
    Other,
}

/// One definition.
#[derive(Debug)]
pub struct Definition {
    pub id: DefId,
    pub name: String,
    pub kind: DefKind,
    pub visibility: Visibility,
    pub span: Span,
}

/// All definitions; the `i`-th one defined has id `i`.
#[derive(Debug)]
pub struct SymbolTable {
    defs: Vec<Definition>,
}

/// The declared type of a definition that has one (variables and parameters).
pub open spec fn kind_ty(k: DefKind) -> Option<TyView> {
    match k {
        DefKind::Variable { ty, .. } => Some(ty@),
        DefKind::Param { ty } => Some(ty@),
        DefKind::SelfValue { ty } => Some(ty@),
        _ => None,
    }
}

impl SymbolTable {
    /// The definitions in order of definition.
    pub closed spec fn defs(&self) -> Seq<Definition> {
        self.defs@
    }

    #[verifier::type_invariant]
    spec fn wf(&self) -> bool {
        forall|i: int| 0 <= i < self.defs@.len() ==> (#[trigger] self.defs@[i]).id == i
    }

    pub fn new() -> (r: SymbolTable)
        ensures
            r.defs().len() == 0,
    {
        SymbolTable { defs: Vec::new() }
    }

    /// Records a definition and returns its id, the next in sequence.
    pub fn define(&mut self, name: String, kind: DefKind, visibility: Visibility, span: Span) -> (r: DefId)
        requires
            old(self).defs().len() < u32::MAX,
        ensures
            r == old(self).defs().len(),
            final(self).defs().len() == old(self).defs().len() + 1,
            final(self).defs().take(r as int) == old(self).defs(),
            final(self).defs()[r as int].id == r,
            final(self).defs()[r as int].name@ == name@,
            final(self).defs()[r as int].kind == kind,
            final(self).defs()[r as int].visibility == visibility,
            final(self).defs()[r as int].span == span,
    {
        let mut st = SymbolTable::new();
        std::mem::swap(self, &mut st);
        proof { use_type_invariant(&st); }
        let SymbolTable { mut defs } = st;
        let id = defs.len() as u32;
        let ghost before = defs@;
        defs.push(Definition { id, name, kind, visibility, span });
        proof { assert(defs@.take(id as int) =~= before); }
        *self = SymbolTable { defs };
        id
    }

    /// The definition with id `id`, if there is one.
    pub fn get(&self, id: DefId) -> (r: Option<&Definition>)
        ensures
            r == if (id as int) < self.defs().len() {
                Some(&self.defs()[id as int])
            } else {
                None::<&Definition>
            },
    {
        if (id as usize) < self.defs.len() {
            Some(&self.defs[id as usize])
        } else {
            None
        }
    }

    /// The declared type of the definition `id`, if it is one that has a type.
    pub fn def_ty(&self, id: DefId) -> (r: Option<Ty>)
        ensures
            match r {
                Some(t) => (id as int) < self.defs().len() && kind_ty(self.defs()[id as int].kind) == Some(t@),
                None => (id as int) >= self.defs().len() || kind_ty(self.defs()[id as int].kind) is None,
            },
    {
        match self.get(id) {
            Some(d) => match &d.kind {
                DefKind::Variable { ty, .. } => Some(ty.duplicate()),
                DefKind::Param { ty } => Some(ty.duplicate()),
                DefKind::SelfValue { ty } => Some(ty.duplicate()),
                _ => None,
            },
            None => None,
        }
    }

    /// The definitions, in order of definition.
    pub fn iter(&self) -> (r: &Vec<Definition>)
        ensures
            r@ == self.defs(),
    {
        &self.defs
    }
}

} // verus!
