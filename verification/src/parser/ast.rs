//! The syntax tree of a source file.
use vstd::prelude::*;
use crate::lexer::token::{NumericSuffix, Span, StringPart};

verus! {

/// A `use` declaration: `use A.B`, `use A.B as C` or `use A.{B, C}`.
#[derive(Debug)]
pub struct UseDecl {
    pub path: Vec<String>,
    pub kind: UseKind,
    pub span: Span,
}

/// What a `use` declaration brings in.
#[derive(Debug)]
pub enum UseKind {
    Simple,
    Alias(String),
    Group(Vec<String>),
}

/// A list of strings, each taken by its characters.
pub open spec fn strs(v: Seq<String>) -> Seq<Seq<char>> {
    v.map_values(|s: String| s@)
}

/// Mathematical model of a [`UseKind`].
pub enum UseKindView {
    Simple,
    Alias(Seq<char>),
    Group(Seq<Seq<char>>),
}

/// Mathematical model of a [`UseDecl`].
pub struct UseDeclView {
    pub path: Seq<Seq<char>>,
    pub kind: UseKindView,
    pub span: Span,
}

impl View for UseKind {
    type V = UseKindView;

    open spec fn view(&self) -> UseKindView {
        match self {
            UseKind::Simple => UseKindView::Simple,
            UseKind::Alias(a) => UseKindView::Alias(a@),
            UseKind::Group(ns) => UseKindView::Group(strs(ns@)),
        }
    }
}

impl View for UseDecl {
    type V = UseDeclView;

    open spec fn view(&self) -> UseDeclView {
        UseDeclView { path: strs(self.path@), kind: self.kind@, span: self.span }
    }
}

/// A copy of a list of strings.
pub fn clone_strings(v: &Vec<String>) -> (r: Vec<String>)
    ensures
        strs(r@) == strs(v@),
{
    let mut r: Vec<String> = Vec::new();
    let mut i: usize = 0;
    while i < v.len()
        invariant
            i <= v@.len(),
            r@.len() == i,
            forall|k: int| 0 <= k < i ==> r@[k]@ == v@[k]@,
        decreases v@.len() - i,
    {
        r.push(v[i].clone());
        i = i + 1;
    }
    proof { assert(strs(r@) =~= strs(v@)); }
    r
}

impl Clone for UseKind {
    /// A copy with the same model.
    fn clone(&self) -> (r: UseKind)
        ensures
            r@ == self@,
    {
        match self {
            UseKind::Simple => UseKind::Simple,
            UseKind::Alias(a) => UseKind::Alias(a.clone()),
            UseKind::Group(ns) => UseKind::Group(clone_strings(ns)),
        }
    }
}

impl Clone for UseDecl {
    /// A copy with the same model.
    fn clone(&self) -> (r: UseDecl)
        ensures
            r@ == self@,
    {
        UseDecl { path: clone_strings(&self.path), kind: self.kind.clone(), span: self.span }
    }
}

/// A binary operator.
#[derive(Debug, Clone, Copy, PartialEq, Eq, Structural)]
pub enum BinOp {
    Add,
    Sub,
    Mul,
    Div,
    Mod,
    Eq,
    NotEq,
    Lt,
    Gt,
    LtEq,
    GtEq,
    And,
    Or,
    BitAnd,
    BitOr,
    BitXor,
    Shl,
    Shr,
}

/// A unary operator.
#[derive(Debug, Clone, Copy, PartialEq, Eq, Structural)]
pub enum UnaryOp {
    Neg,
    Not,
    Deref,
}

/// Who may see a definition.
#[derive(Debug, Clone, Copy, PartialEq, Eq, Structural)]
pub enum Visibility {
    Public,
    Private,
    Protected,
}


// ─── Types ──────────────────────────────────────────────────────────

/// A path to a type, `A.B.C`, with its generic arguments, `A[T, U]`.
#[derive(Debug)]
pub struct TypePath {
    pub segments: Vec<String>,
    pub generic_args: Option<Vec<TypeExpr>>,
    pub span: Span,
}

/// A trait named as a bound.
#[derive(Debug)]
pub struct TraitBound {
    pub path: TypePath,
}

/// A type as written in the source.
#[derive(Debug)]
pub enum TypeExpr {
    Named(TypePath),
    Reference { lifetime: Option<String>, mutable: bool, inner: Box<TypeExpr>, span: Span },
    Tuple { elements: Vec<TypeExpr>, span: Span },
    Array { element: Box<TypeExpr>, size: Option<Box<Expr>>, span: Span },
    Function { params: Vec<TypeExpr>, return_type: Box<TypeExpr>, span: Span },
    ImplTrait { bounds: Vec<TraitBound>, span: Span },
    DynTrait { bounds: Vec<TraitBound>, span: Span },
    Never { span: Span },
    Inferred { span: Span },
    RawPointer { mutable: bool, inner: Box<TypeExpr>, span: Span },
}

/// A generic parameter: a lifetime, or a type with its bounds.
#[derive(Debug)]
pub enum GenericParam {
    Lifetime { name: String },
    Type { name: String, bounds: Vec<TraitBound> },
}

/// The generic parameters of a definition, `[T: Show, 'a]`.
#[derive(Debug)]
pub struct GenericParams {
    pub params: Vec<GenericParam>,
}

/// One predicate of a `where` clause, `T: A + B`.
#[derive(Debug)]
pub struct WherePredicate {
    pub type_expr: TypeExpr,
    pub bounds: Vec<TraitBound>,
}

/// A `where` clause.
#[derive(Debug)]
pub struct WhereClause {
    pub predicates: Vec<WherePredicate>,
}

// ─── Patterns ───────────────────────────────────────────────────────

/// One field of a struct pattern: `name: pattern`, or the pattern alone.
#[derive(Debug)]
pub struct FieldPattern {
    pub name: Option<String>,
    pub pattern: Pattern,
    pub span: Span,
}

/// A pattern.
#[derive(Debug)]
pub enum Pattern {
    Literal { expr: Box<Expr>, span: Span },
    Identifier { mutable: bool, name: String, span: Span },
    Wildcard { span: Span },
    Tuple { elements: Vec<Pattern>, span: Span },
    Enum { path: Vec<String>, variant: String, fields: Vec<Pattern>, span: Span },
    Struct { path: Vec<String>, fields: Vec<FieldPattern>, rest: bool, span: Span },
    Or { patterns: Vec<Pattern>, span: Span },
    Ref { mutable: bool, name: String, span: Span },
    Rest { span: Span },
}

// ─── Expressions ────────────────────────────────────────────────────

/// An expression and where it stands in the source.
#[derive(Debug)]
pub struct Expr {
    pub kind: ExprKind,
    pub span: Span,
}

/// The delimiters of a macro call.
#[derive(Debug, Clone, Copy, PartialEq, Eq, Structural)]
pub enum MacroDelimiter {
    Paren,
    Bracket,
    Brace,
}

/// An argument of an enum variant construction: `name: value`, or the value alone.
#[derive(Debug)]
pub struct VariantArg {
    pub name: Option<String>,
    pub value: Expr,
    pub span: Span,
}

/// The kinds of expression.
#[derive(Debug)]
pub enum ExprKind {
    IntLiteral(i64, Option<NumericSuffix>),
    /// A float literal, held as the text `Display` gives for its value.
    FloatLiteral(String, Option<NumericSuffix>),
    StringLiteral(String),
    InterpolatedString(Vec<StringPart>),
    CharLiteral(char),
    BoolLiteral(bool),
    UnitLiteral,
    NullLiteral,
    Identifier(String),
    SelfRef,
    SelfType,
    BinaryOp { left: Box<Expr>, op: BinOp, right: Box<Expr> },
    UnaryOp { op: UnaryOp, operand: Box<Expr> },
    Borrow(Box<Expr>),
    BorrowMut(Box<Expr>),
    FieldAccess { object: Box<Expr>, field: String },
    MethodCall { object: Box<Expr>, method: String, args: Vec<Expr>, block: Option<Box<Expr>> },
    SafeNav { object: Box<Expr>, field: String },
    SafeNavCall { object: Box<Expr>, method: String, args: Vec<Expr> },
    Call { callee: Box<Expr>, args: Vec<Expr>, block: Option<Box<Expr>> },
    Index { object: Box<Expr>, index: Box<Expr> },
    ClosureCall { callee: Box<Expr>, args: Vec<Expr> },
    Try(Box<Expr>),
    Assign { target: Box<Expr>, value: Box<Expr> },
    CompoundAssign { target: Box<Expr>, op: BinOp, value: Box<Expr> },
    If(IfExpr),
    IfLet(IfLetExpr),
    Match(MatchExpr),
    While(WhileExpr),
    WhileLet(WhileLetExpr),
    For(ForExpr),
    Loop(LoopExpr),
    Block(Block),
    Closure(ClosureExpr),
    Range { start: Option<Box<Expr>>, end: Option<Box<Expr>>, inclusive: bool },
    ArrayLiteral(Vec<Expr>),
    ArrayFill { value: Box<Expr>, count: Box<Expr> },
    TupleLiteral(Vec<Expr>),
    Return(Option<Box<Expr>>),
    Break(Option<Box<Expr>>),
    Continue,
    Yield(Vec<Expr>),
    MacroCall { name: String, args: Vec<Expr>, delimiter: MacroDelimiter },
    Cast { expr: Box<Expr>, target_type: TypeExpr },
    EnumVariant { type_path: Vec<String>, variant: String, args: Vec<VariantArg> },
    UnsafeBlock(Block),
}

/// An `elsif` clause.
#[derive(Debug)]
pub struct ElsifClause {
    pub condition: Expr,
    pub body: Block,
    pub span: Span,
}

/// `if cond ... elsif ... else ... end`.
#[derive(Debug)]
pub struct IfExpr {
    pub condition: Box<Expr>,
    pub then_body: Block,
    pub elsif_clauses: Vec<ElsifClause>,
    pub else_body: Option<Block>,
}

/// `if let pattern = value ... else ... end`.
#[derive(Debug)]
pub struct IfLetExpr {
    pub pattern: Pattern,
    pub value: Box<Expr>,
    pub then_body: Block,
    pub else_body: Option<Block>,
}

/// The body of a match arm.
#[derive(Debug)]
pub enum MatchArmBody {
    Expr(Expr),
    Block(Block),
}

/// One arm of a `match`.
#[derive(Debug)]
pub struct MatchArm {
    pub pattern: Pattern,
    pub guard: Option<Box<Expr>>,
    pub body: MatchArmBody,
    pub span: Span,
}

/// `match subject ... end`.
#[derive(Debug)]
pub struct MatchExpr {
    pub subject: Box<Expr>,
    pub arms: Vec<MatchArm>,
}

/// `while cond ... end`.
#[derive(Debug)]
pub struct WhileExpr {
    pub condition: Box<Expr>,
    pub body: Block,
}

/// `while let pattern = value ... end`.
#[derive(Debug)]
pub struct WhileLetExpr {
    pub pattern: Pattern,
    pub value: Box<Expr>,
    pub body: Block,
}

/// `for pattern in iterable ... end`.
#[derive(Debug)]
pub struct ForExpr {
    pub pattern: Pattern,
    pub iterable: Box<Expr>,
    pub body: Block,
}

/// `loop ... end`.
#[derive(Debug)]
pub struct LoopExpr {
    pub body: Block,
}

/// A parameter of a closure, with its type if one is written.
#[derive(Debug)]
pub struct ClosureParam {
    pub name: String,
    pub type_expr: Option<TypeExpr>,
    pub span: Span,
}

/// The body of a closure.
#[derive(Debug)]
pub enum ClosureBody {
    Expr(Box<Expr>),
    Block(Block),
}

/// A closure.
#[derive(Debug)]
pub struct ClosureExpr {
    pub params: Vec<ClosureParam>,
    pub body: ClosureBody,
}

/// A `let` binding.
#[derive(Debug)]
pub struct LetBinding {
    pub mutable: bool,
    pub pattern: Pattern,
    pub type_annotation: Option<TypeExpr>,
    pub value: Option<Expr>,
    pub span: Span,
}

/// A statement.
#[derive(Debug)]
pub enum Statement {
    Let(LetBinding),
    Expression(Expr),
}

/// A sequence of statements.
#[derive(Debug)]
pub struct Block {
    pub statements: Vec<Statement>,
    pub span: Span,
}

// ─── Items ──────────────────────────────────────────────────────────

/// How a method takes `self`.
#[derive(Debug, Clone, Copy, PartialEq, Eq, Structural)]
pub enum SelfMode {
    Immutable,
    Mutable,
    Consuming,
}

/// A function parameter; `@name` assigns it to the field of that name.
#[derive(Debug)]
pub struct Param {
    pub auto_assign: bool,
    pub name: String,
    pub type_expr: TypeExpr,
    pub span: Span,
}

/// A function or method definition.
#[derive(Debug)]
pub struct FuncDef {
    pub visibility: Visibility,
    pub self_mode: Option<SelfMode>,
    pub is_class_method: bool,
    pub name: String,
    pub generic_params: Option<GenericParams>,
    pub params: Vec<Param>,
    pub return_type: Option<TypeExpr>,
    pub where_clause: Option<WhereClause>,
    pub body: Block,
    pub span: Span,
}

/// A field of a class or struct.
#[derive(Debug)]
pub struct FieldDecl {
    pub visibility: Visibility,
    pub name: String,
    pub type_expr: TypeExpr,
    pub span: Span,
}

/// An item of an `impl` block.
#[derive(Debug)]
pub enum ImplItem {
    AssocType { name: String, type_expr: TypeExpr, span: Span },
    Method(FuncDef),
}

/// A trait implemented inside a class body.
#[derive(Debug)]
pub struct InnerImpl {
    pub trait_name: TypePath,
    pub items: Vec<ImplItem>,
}

/// A class.
#[derive(Debug)]
pub struct ClassDef {
    pub name: String,
    pub generic_params: Option<GenericParams>,
    pub parent: Option<TypePath>,
    pub fields: Vec<FieldDecl>,
    pub methods: Vec<FuncDef>,
    pub inner_impls: Vec<InnerImpl>,
    pub span: Span,
}

/// A struct.
#[derive(Debug)]
pub struct StructDef {
    pub name: String,
    pub generic_params: Option<GenericParams>,
    pub fields: Vec<FieldDecl>,
    pub derive_traits: Vec<String>,
    pub span: Span,
}

/// A field of an enum variant, named or not.
#[derive(Debug)]
pub struct VariantField {
    pub name: Option<String>,
    pub type_expr: TypeExpr,
}

/// The fields of an enum variant.
#[derive(Debug)]
pub enum VariantKind {
    Unit,
    Tuple(Vec<VariantField>),
    Struct(Vec<VariantField>),
}

/// An enum variant.
#[derive(Debug)]
pub struct Variant {
    pub name: String,
    pub fields: VariantKind,
    pub span: Span,
}

/// An enum.
#[derive(Debug)]
pub struct EnumDef {
    pub name: String,
    pub generic_params: Option<GenericParams>,
    pub variants: Vec<Variant>,
    pub span: Span,
}

/// A method signature in a trait.
#[derive(Debug)]
pub struct MethodSig {
    pub self_mode: Option<SelfMode>,
    pub is_class_method: bool,
    pub name: String,
    pub generic_params: Option<GenericParams>,
    pub params: Vec<Param>,
    pub return_type: Option<TypeExpr>,
    pub span: Span,
}

/// An item of a trait.
#[derive(Debug)]
pub enum TraitItem {
    AssocType { name: String, span: Span },
    MethodSig(MethodSig),
    DefaultMethod(FuncDef),
}

/// A trait.
#[derive(Debug)]
pub struct TraitDef {
    pub name: String,
    pub generic_params: Option<GenericParams>,
    pub super_traits: Vec<TraitBound>,
    pub items: Vec<TraitItem>,
    pub span: Span,
}

/// An `impl` block.
#[derive(Debug)]
pub struct ImplBlock {
    pub generic_params: Option<GenericParams>,
    pub trait_name: Option<TypePath>,
    pub target_type: TypeExpr,
    pub items: Vec<ImplItem>,
    pub span: Span,
}

/// A module.
#[derive(Debug)]
pub struct ModuleDef {
    pub name: String,
    pub items: Vec<TopLevelItem>,
    pub span: Span,
}

/// `type Name[T] = Type`.
#[derive(Debug)]
pub struct TypeAliasDef {
    pub name: String,
    pub generic_params: Option<GenericParams>,
    pub type_expr: TypeExpr,
    pub span: Span,
}

/// `newtype Name(Inner)`.
#[derive(Debug)]
pub struct NewtypeDef {
    pub name: String,
    pub inner_type: TypeExpr,
    pub span: Span,
}

/// `const NAME: Type = value`.
#[derive(Debug)]
pub struct ConstDef {
    pub name: String,
    pub type_expr: TypeExpr,
    pub value: Expr,
    pub span: Span,
}

/// How a foreign library is linked.
#[derive(Debug, Clone, Copy, PartialEq, Eq, Structural)]
pub enum LinkKind {
    Dynamic,
    Static,
    Framework,
}

/// `@[link(name, kind)]`.
#[derive(Debug)]
pub struct LinkAttr {
    pub name: String,
    pub kind: LinkKind,
}

/// A parameter of a foreign function.
#[derive(Debug)]
pub struct FfiParam {
    pub name: String,
    pub type_expr: TypeExpr,
}

/// A foreign function declaration.
#[derive(Debug)]
pub struct FfiFunction {
    pub name: String,
    pub params: Vec<FfiParam>,
    pub is_variadic: bool,
    pub return_type: Option<TypeExpr>,
    pub span: Span,
}

/// `lib Name ... end`.
#[derive(Debug)]
pub struct LibDecl {
    pub name: String,
    pub link_attrs: Vec<LinkAttr>,
    pub functions: Vec<FfiFunction>,
    pub span: Span,
}

/// `extern "abi" ... end`.
#[derive(Debug)]
pub struct ExternBlock {
    pub abi: String,
    pub functions: Vec<FfiFunction>,
    pub span: Span,
}

/// A top-level item.
#[derive(Debug)]
pub enum TopLevelItem {
    Module(ModuleDef),
    Class(ClassDef),
    Struct(StructDef),
    Enum(EnumDef),
    Trait(TraitDef),
    Impl(ImplBlock),
    Function(FuncDef),
    Use(UseDecl),
    TypeAlias(TypeAliasDef),
    Newtype(NewtypeDef),
    Const(ConstDef),
    Lib(LibDecl),
    Extern(ExternBlock),
}

/// A source file.
#[derive(Debug)]
pub struct Program {
    pub items: Vec<TopLevelItem>,
    pub span: Span,
}

} // verus!
