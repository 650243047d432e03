//! HIR node definitions: typed expressions, statements, patterns and declarations.
use vstd::prelude::*;
use crate::hir::types::{MoveSemantics, TraitRef, Ty};
use crate::parser::ast::{BinOp, UnaryOp, Visibility};
use crate::lexer::token::Span;

verus! {

/// Unique identifier for every definition in the program.
pub type DefId = u32;

/// A sentinel DefId indicating an unresolved reference (for error recovery).
pub const UNRESOLVED_DEF: DefId = 0xFFFF_FFFFu32;

/// A function parameter.
#[derive(Debug, Clone)]
pub struct HirParam {
    pub def_id: DefId,
    pub name: String,
    pub ty: Ty,
    pub auto_assign: bool,
    pub span: Span,
}

/// A closure parameter.
#[derive(Debug, Clone)]
pub struct HirClosureParam {
    pub def_id: DefId,
    pub name: String,
    pub ty: Ty,
    pub span: Span,
}

/// A variable captured by a closure.
#[derive(Debug, Clone)]
pub struct Capture {
    pub def_id: DefId,
    pub name: String,
    pub by_move: bool,
    pub ty: Ty,
}

/// How a method receives `self`.
#[derive(Debug, Clone, Copy, PartialEq, Eq, Structural)]
pub enum HirSelfMode {
    /// `&self` — immutable borrow
    Ref,
    /// `&mut self` or `mut` method
    RefMut,
    /// `consume self` — takes ownership
    Consuming,
}

/// A generic parameter with its trait bounds.
#[derive(Debug, Clone)]
pub struct HirGenericParam {
    pub name: String,
    pub bounds: Vec<TraitRef>,
    pub span: Span,
}

/// An enum definition.
#[derive(Debug, Clone)]
pub struct HirEnumDef {
    pub def_id: DefId,
    pub name: String,
    pub generic_params: Vec<HirGenericParam>,
    pub variants: Vec<HirVariant>,
    pub span: Span,
}

/// One variant of an enum.
#[derive(Debug, Clone)]
pub struct HirVariant {
    pub def_id: DefId,
    pub name: String,
    pub kind: HirVariantKind,
    pub index: usize,
    pub span: Span,
}

/// The shape of a variant's payload.
#[derive(Debug, Clone)]
pub enum HirVariantKind {
    Unit,
    Tuple(Vec<HirVariantField>),
    Struct(Vec<HirVariantField>),
}

/// A field of a variant's payload.
#[derive(Debug, Clone)]
pub struct HirVariantField {
    pub name: Option<String>,
    pub ty: Ty,
    pub span: Span,
}

/// A type alias.
#[derive(Debug, Clone)]
pub struct HirTypeAlias {
    pub def_id: DefId,
    pub name: String,
    pub ty: Ty,
    pub span: Span,
}

/// A newtype.
#[derive(Debug, Clone)]
pub struct HirNewtype {
    pub def_id: DefId,
    pub name: String,
    pub inner_ty: Ty,
    pub span: Span,
}


// ─── Program ────────────────────────────────────────────────────────

/// A whole typed program.
#[derive(Debug)]
pub struct HirProgram {
    pub items: Vec<HirItem>,
    pub span: Span,
}

/// A top-level (or module-level) item.
#[derive(Debug)]
pub enum HirItem {
    Module(HirModule),
    Class(HirClassDef),
    Struct(HirStructDef),
    Enum(HirEnumDef),
    Trait(HirTraitDef),
    Impl(HirImplBlock),
    Function(HirFuncDef),
    TypeAlias(HirTypeAlias),
    Newtype(HirNewtype),
    Const(HirConst),
}

// ─── Expressions ────────────────────────────────────────────────────

/// An expression with its resolved type.
#[derive(Debug)]
pub struct HirExpr {
    pub kind: HirExprKind,
    pub ty: Ty,
    pub span: Span,
}

/// The forms of expression.
#[derive(Debug)]
pub enum HirExprKind {
    IntLiteral(i64),
    /// A float literal, held as the bits of its `f64` value.
    FloatLiteral(u64),
    StringLiteral(String),
    BoolLiteral(bool),
    CharLiteral(char),
    UnitLiteral,
    /// Resolved variable reference
    VarRef(DefId),
    /// Field access with resolved field index
    FieldAccess { object: Box<HirExpr>, field_name: String, field_idx: usize },
    /// Method call with resolved method DefId and an optional trailing block
    MethodCall {
        object: Box<HirExpr>,
        method: DefId,
        method_name: String,
        args: Vec<HirExpr>,
        block: Option<Box<HirExpr>>,
    },
    /// Resolved function call
    FnCall { callee: DefId, callee_name: String, args: Vec<HirExpr> },
    BinaryOp { op: BinOp, left: Box<HirExpr>, right: Box<HirExpr> },
    UnaryOp { op: UnaryOp, operand: Box<HirExpr> },
    /// `&x` or `&mut x`
    Borrow { mutable: bool, expr: Box<HirExpr> },
    /// Statements and an optional tail expression
    Block(Vec<HirStatement>, Option<Box<HirExpr>>),
    If { cond: Box<HirExpr>, then_branch: Box<HirExpr>, else_branch: Option<Box<HirExpr>> },
    Match { scrutinee: Box<HirExpr>, arms: Vec<HirMatchArm> },
    Loop { body: Box<HirExpr> },
    While { condition: Box<HirExpr>, body: Box<HirExpr> },
    /// For loop; `tuple_bindings` holds the sub-bindings of a tuple pattern
    For {
        binding: DefId,
        binding_name: String,
        iterable: Box<HirExpr>,
        body: Box<HirExpr>,
        tuple_bindings: Vec<(DefId, String)>,
    },
    Assign { target: Box<HirExpr>, value: Box<HirExpr>, semantics: MoveSemantics },
    CompoundAssign { target: Box<HirExpr>, op: BinOp, value: Box<HirExpr> },
    Return(Option<Box<HirExpr>>),
    Break(Option<Box<HirExpr>>),
    Continue,
    Closure { params: Vec<HirClosureParam>, body: Box<HirExpr>, captures: Vec<Capture>, is_move: bool },
    /// Struct/class construction
    Construct { type_def: DefId, type_ident: String, fields: Vec<(String, HirExpr)> },
    /// Enum variant construction
    EnumVariant {
        type_def: DefId,
        type_ident: String,
        variant_name: String,
        variant_idx: usize,
        fields: Vec<(String, HirExpr)>,
    },
    Tuple(Vec<HirExpr>),
    Index { object: Box<HirExpr>, index: Box<HirExpr> },
    Cast { expr: Box<HirExpr>, target: Ty },
    ArrayLiteral(Vec<HirExpr>),
    ArrayFill { value: Box<HirExpr>, count: usize },
    Range { start: Option<Box<HirExpr>>, end: Option<Box<HirExpr>>, inclusive: bool },
    Interpolation { parts: Vec<HirInterpolationPart> },
    /// `vec![]`, `hash!{}` and the like
    MacroCall { name: String, args: Vec<HirExpr> },
    UnsafeBlock(Vec<HirStatement>, Option<Box<HirExpr>>),
    NullLiteral,
    /// Error placeholder for recovery
    Error,
}

/// A part of an interpolated string.
#[derive(Debug)]
pub enum HirInterpolationPart {
    Literal(String),
    Expr(HirExpr),
}

/// One arm of a match.
#[derive(Debug)]
pub struct HirMatchArm {
    pub pattern: HirPattern,
    pub guard: Option<Box<HirExpr>>,
    pub body: Box<HirExpr>,
    pub span: Span,
}

/// A pattern.
#[derive(Debug)]
pub enum HirPattern {
    Binding { def_id: DefId, name: String, mutable: bool, span: Span },
    Wildcard { span: Span },
    Literal { expr: Box<HirExpr>, span: Span },
    Tuple { elements: Vec<HirPattern>, span: Span },
    Enum { type_def: DefId, variant_idx: usize, variant_name: String, fields: Vec<HirPattern>, span: Span },
    Struct { type_def: DefId, fields: Vec<(String, HirPattern)>, rest: bool, span: Span },
    Or { patterns: Vec<HirPattern>, span: Span },
    /// `ref x`, `ref mut x`
    Ref { mutable: bool, name: String, def_id: DefId, span: Span },
    Rest { span: Span },
}

/// A statement.
#[derive(Debug)]
pub enum HirStatement {
    /// `let [mut] name [: Type] = value`
    Let { def_id: DefId, pattern: HirPattern, ty: Ty, value: Option<HirExpr>, mutable: bool, span: Span },
    /// Expression statement (value discarded)
    Expr(HirExpr),
}

// ─── Definitions ────────────────────────────────────────────────────

/// A function or method.
#[derive(Debug)]
pub struct HirFuncDef {
    pub def_id: DefId,
    pub name: String,
    pub visibility: Visibility,
    pub self_mode: Option<HirSelfMode>,
    pub is_class_method: bool,
    pub generic_params: Vec<HirGenericParam>,
    pub params: Vec<HirParam>,
    pub return_ty: Ty,
    pub body: Box<HirExpr>,
    pub span: Span,
}

/// A class.
#[derive(Debug)]
pub struct HirClassDef {
    pub def_id: DefId,
    pub name: String,
    pub generic_params: Vec<HirGenericParam>,
    pub parent: Option<DefId>,
    pub fields: Vec<HirFieldDef>,
    pub methods: Vec<HirFuncDef>,
    pub impl_blocks: Vec<HirImplBlock>,
    pub span: Span,
}

/// A field of a class or struct.
#[derive(Debug)]
pub struct HirFieldDef {
    pub def_id: DefId,
    pub name: String,
    pub ty: Ty,
    pub visibility: Visibility,
    pub index: usize,
    pub span: Span,
}

/// A struct.
#[derive(Debug)]
pub struct HirStructDef {
    pub def_id: DefId,
    pub name: String,
    pub generic_params: Vec<HirGenericParam>,
    pub fields: Vec<HirFieldDef>,
    pub derive_traits: Vec<String>,
    pub span: Span,
}

/// A trait.
#[derive(Debug)]
pub struct HirTraitDef {
    pub def_id: DefId,
    pub name: String,
    pub generic_params: Vec<HirGenericParam>,
    pub super_traits: Vec<TraitRef>,
    pub items: Vec<HirTraitItem>,
    pub span: Span,
}

/// An item of a trait.
#[derive(Debug)]
pub enum HirTraitItem {
    AssocType { name: String, span: Span },
    MethodSig {
        name: String,
        self_mode: Option<HirSelfMode>,
        is_class_method: bool,
        params: Vec<HirParam>,
        return_ty: Ty,
        span: Span,
    },
    DefaultMethod(HirFuncDef),
}

/// An impl block.
#[derive(Debug)]
pub struct HirImplBlock {
    pub generic_params: Vec<HirGenericParam>,
    pub trait_ref: Option<TraitRef>,
    pub target_ty: Ty,
    pub items: Vec<HirImplItem>,
    pub span: Span,
}

/// An item of an impl block.
#[derive(Debug)]
pub enum HirImplItem {
    AssocType { name: String, ty: Ty, span: Span },
    Method(HirFuncDef),
}

/// A module.
#[derive(Debug)]
pub struct HirModule {
    pub def_id: DefId,
    pub name: String,
    pub items: Vec<HirItem>,
    pub span: Span,
}

/// A constant.
#[derive(Debug)]
pub struct HirConst {
    pub def_id: DefId,
    pub name: String,
    pub ty: Ty,
    pub value: HirExpr,
    pub span: Span,
}

} // verus!
