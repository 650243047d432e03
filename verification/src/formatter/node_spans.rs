//! The spans of the syntax nodes that comments are attached to.
use vstd::prelude::*;
use crate::lexer::token::Span;
use crate::parser::ast::{
    Block, ClosureBody, ElsifClause, Expr, ExprKind, FfiFunction, FieldDecl, FieldPattern, FuncDef,
    ImplItem, MatchArm, MatchArmBody, Param, Pattern, Program, Statement, TopLevelItem, TraitItem,
    TypeExpr, Variant, VariantArg, ClosureParam,
};

verus! {

/// A span as a pair of byte offsets.
pub open spec fn sp(s: Span) -> (usize, usize) {
    (s.start, s.end)
}

/// The spans of a type, outermost first.
pub open spec fn type_spans(t: TypeExpr) -> Seq<(usize, usize)>
    decreases t, 1nat,
{
    match t {
        TypeExpr::Named(tp) => seq![sp(tp.span)],
        TypeExpr::Reference { span, inner, .. } => seq![sp(span)] + type_spans(*inner),
        TypeExpr::Tuple { span, elements } => seq![sp(span)] + types_spans(elements@),
        TypeExpr::Array { span, element, .. } => seq![sp(span)] + type_spans(*element),
        TypeExpr::Function { span, params, return_type } => seq![sp(span)] + types_spans(params@) + type_spans(*return_type),
        TypeExpr::ImplTrait { span, .. } => seq![sp(span)],
        TypeExpr::DynTrait { span, .. } => seq![sp(span)],
        TypeExpr::Never { span } => seq![sp(span)],
        TypeExpr::Inferred { span } => seq![sp(span)],
        TypeExpr::RawPointer { span, inner, .. } => seq![sp(span)] + type_spans(*inner),
    }
}

/// The spans of a list of types.
pub open spec fn types_spans(ts: Seq<TypeExpr>) -> Seq<(usize, usize)>
    decreases ts, 0nat,
{
    if ts.len() == 0 {
        Seq::empty()
    } else {
        proof { assert(decreases_to!(ts => ts.drop_last())); }
        types_spans(ts.drop_last()) + type_spans(ts.last())
    }
}

/// The spans of a pattern.
pub open spec fn pattern_spans(p: Pattern) -> Seq<(usize, usize)>
    decreases p, 1nat,
{
    match p {
        Pattern::Literal { span, expr } => seq![sp(span)] + expr_spans(*expr),
        Pattern::Identifier { span, .. } => seq![sp(span)],
        Pattern::Wildcard { span } => seq![sp(span)],
        Pattern::Rest { span } => seq![sp(span)],
        Pattern::Ref { span, .. } => seq![sp(span)],
        Pattern::Tuple { span, elements } => seq![sp(span)] + patterns_spans(elements@),
        Pattern::Enum { span, fields, .. } => seq![sp(span)] + patterns_spans(fields@),
        Pattern::Struct { span, fields, .. } => seq![sp(span)] + field_pats_spans(fields@),
        Pattern::Or { span, patterns } => seq![sp(span)] + patterns_spans(patterns@),
    }
}

/// The spans of a list of patterns.
pub open spec fn patterns_spans(ps: Seq<Pattern>) -> Seq<(usize, usize)>
    decreases ps, 0nat,
{
    if ps.len() == 0 {
        Seq::empty()
    } else {
        proof { assert(decreases_to!(ps => ps.drop_last())); }
        patterns_spans(ps.drop_last()) + pattern_spans(ps.last())
    }
}

/// The spans of struct pattern fields: each field, then its pattern.
pub open spec fn field_pats_spans(fs: Seq<FieldPattern>) -> Seq<(usize, usize)>
    decreases fs, 0nat,
{
    if fs.len() == 0 {
        Seq::empty()
    } else {
        proof { assert(decreases_to!(fs => fs.drop_last())); }
        field_pats_spans(fs.drop_last()) + seq![sp(fs.last().span)] + pattern_spans(fs.last().pattern)
    }
}

/// The spans of an optional expression.
pub open spec fn opt_expr_spans(x: Option<Box<Expr>>) -> Seq<(usize, usize)>
    decreases x, 0nat,
{
    match x {
        Some(v) => expr_spans(*v),
        None => Seq::empty(),
    }
}

/// The spans of an optional block.
pub open spec fn opt_block_spans(b: Option<Block>) -> Seq<(usize, usize)>
    decreases b, 0nat,
{
    match b {
        Some(v) => block_spans(v),
        None => Seq::empty(),
    }
}

/// The spans of an expression: its own, then those inside it in source order.
pub open spec fn expr_spans(e: Expr) -> Seq<(usize, usize)>
    decreases e, 1nat,
{
    seq![sp(e.span)] + match e.kind {
        ExprKind::BinaryOp { left, right, .. } => expr_spans(*left) + expr_spans(*right),
        ExprKind::UnaryOp { operand, .. } => expr_spans(*operand),
        ExprKind::Borrow(x) => expr_spans(*x),
        ExprKind::BorrowMut(x) => expr_spans(*x),
        ExprKind::Try(x) => expr_spans(*x),
        ExprKind::FieldAccess { object, .. } => expr_spans(*object),
        ExprKind::SafeNav { object, .. } => expr_spans(*object),
        ExprKind::MethodCall { object, args, block, .. } => expr_spans(*object) + exprs_spans(args@) + opt_expr_spans(block),
        ExprKind::SafeNavCall { object, args, .. } => expr_spans(*object) + exprs_spans(args@),
        ExprKind::Call { callee, args, block } => expr_spans(*callee) + exprs_spans(args@) + opt_expr_spans(block),
        ExprKind::Index { object, index } => expr_spans(*object) + expr_spans(*index),
        ExprKind::ClosureCall { callee, args } => expr_spans(*callee) + exprs_spans(args@),
        ExprKind::Assign { target, value } => expr_spans(*target) + expr_spans(*value),
        ExprKind::CompoundAssign { target, value, .. } => expr_spans(*target) + expr_spans(*value),
        ExprKind::If(ie) => expr_spans(*ie.condition) + block_spans(ie.then_body) + elsifs_spans(ie.elsif_clauses@)
            + opt_block_spans(ie.else_body),
        ExprKind::IfLet(il) => pattern_spans(il.pattern) + expr_spans(*il.value) + block_spans(il.then_body)
            + opt_block_spans(il.else_body),
        ExprKind::Match(m) => expr_spans(*m.subject) + arms_spans(m.arms@),
        ExprKind::While(w) => expr_spans(*w.condition) + block_spans(w.body),
        ExprKind::WhileLet(wl) => pattern_spans(wl.pattern) + expr_spans(*wl.value) + block_spans(wl.body),
        ExprKind::For(f) => pattern_spans(f.pattern) + expr_spans(*f.iterable) + block_spans(f.body),
        ExprKind::Loop(l) => block_spans(l.body),
        ExprKind::Block(b) => block_spans(b),
        ExprKind::Closure(c) => closure_params_spans(c.params@) + match c.body {
            ClosureBody::Expr(x) => expr_spans(*x),
            ClosureBody::Block(b) => block_spans(b),
        },
        ExprKind::Range { start, end, .. } => opt_expr_spans(start) + opt_expr_spans(end),
        ExprKind::ArrayLiteral(es) => exprs_spans(es@),
        ExprKind::ArrayFill { value, count } => expr_spans(*value) + expr_spans(*count),
        ExprKind::TupleLiteral(es) => exprs_spans(es@),
        ExprKind::Return(v) => opt_expr_spans(v),
        ExprKind::Break(v) => opt_expr_spans(v),
        ExprKind::Yield(es) => exprs_spans(es@),
        ExprKind::MacroCall { args, .. } => exprs_spans(args@),
        ExprKind::Cast { expr, .. } => expr_spans(*expr),
        ExprKind::EnumVariant { args, .. } => variant_args_spans(args@),
        ExprKind::UnsafeBlock(b) => block_spans(b),
        _ => Seq::empty(),
    }
}

/// The spans of a list of expressions.
pub open spec fn exprs_spans(es: Seq<Expr>) -> Seq<(usize, usize)>
    decreases es, 0nat,
{
    if es.len() == 0 {
        Seq::empty()
    } else {
        proof { assert(decreases_to!(es => es.drop_last())); }
        exprs_spans(es.drop_last()) + expr_spans(es.last())
    }
}

/// The spans of variant construction arguments: each argument, then its value.
pub open spec fn variant_args_spans(args: Seq<VariantArg>) -> Seq<(usize, usize)>
    decreases args, 0nat,
{
    if args.len() == 0 {
        Seq::empty()
    } else {
        proof { assert(decreases_to!(args => args.drop_last())); }
        variant_args_spans(args.drop_last()) + seq![sp(args.last().span)] + expr_spans(args.last().value)
    }
}

/// The spans of closure parameters.
pub open spec fn closure_params_spans(ps: Seq<ClosureParam>) -> Seq<(usize, usize)> {
    Seq::new(ps.len(), |i: int| sp(ps[i].span))
}

/// The spans of `elsif` clauses: each clause, its condition, its body.
pub open spec fn elsifs_spans(cs: Seq<ElsifClause>) -> Seq<(usize, usize)>
    decreases cs, 0nat,
{
    if cs.len() == 0 {
        Seq::empty()
    } else {
        proof { assert(decreases_to!(cs => cs.drop_last())); }
        elsifs_spans(cs.drop_last()) + seq![sp(cs.last().span)] + expr_spans(cs.last().condition) + block_spans(cs.last().body)
    }
}

/// The spans of a match arm: the arm, its pattern, its guard, its body.
pub open spec fn arm_spans(a: MatchArm) -> Seq<(usize, usize)>
    decreases a, 1nat,
{
    seq![sp(a.span)] + pattern_spans(a.pattern) + opt_expr_spans(a.guard) + match a.body {
        MatchArmBody::Expr(x) => expr_spans(x),
        MatchArmBody::Block(b) => block_spans(b),
    }
}

/// The spans of match arms.
pub open spec fn arms_spans(arms: Seq<MatchArm>) -> Seq<(usize, usize)>
    decreases arms, 0nat,
{
    if arms.len() == 0 {
        Seq::empty()
    } else {
        proof { assert(decreases_to!(arms => arms.drop_last())); }
        arms_spans(arms.drop_last()) + arm_spans(arms.last())
    }
}

/// The spans of a statement.
pub open spec fn stmt_spans(s: Statement) -> Seq<(usize, usize)>
    decreases s, 1nat,
{
    match s {
        Statement::Let(l) => seq![sp(l.span)] + pattern_spans(l.pattern) + match l.type_annotation {
            Some(t) => type_spans(t),
            None => Seq::empty(),
        } + match l.value {
            Some(v) => expr_spans(v),
            None => Seq::empty(),
        },
        Statement::Expression(x) => expr_spans(x),
    }
}

/// The spans of statements.
pub open spec fn stmts_spans(ss: Seq<Statement>) -> Seq<(usize, usize)>
    decreases ss, 0nat,
{
    if ss.len() == 0 {
        Seq::empty()
    } else {
        proof { assert(decreases_to!(ss => ss.drop_last())); }
        stmts_spans(ss.drop_last()) + stmt_spans(ss.last())
    }
}

/// The spans of a block: the block, then its statements.
pub open spec fn block_spans(b: Block) -> Seq<(usize, usize)>
    decreases b, 1nat,
{
    seq![sp(b.span)] + stmts_spans(b.statements@)
}

/// The spans of function parameters: each parameter, then its type.
pub open spec fn params_spans(ps: Seq<Param>) -> Seq<(usize, usize)>
    decreases ps.len(),
{
    if ps.len() == 0 {
        Seq::empty()
    } else {
        params_spans(ps.drop_last()) + seq![sp(ps.last().span)] + type_spans(ps.last().type_expr)
    }
}

/// The spans of a function: the function, its parameters, its return type, its body.
pub open spec fn func_spans(f: FuncDef) -> Seq<(usize, usize)> {
    seq![sp(f.span)] + params_spans(f.params@) + match f.return_type {
        Some(t) => type_spans(t),
        None => Seq::empty(),
    } + block_spans(f.body)
}

/// The spans of a list of functions.
pub open spec fn funcs_spans(fs: Seq<FuncDef>) -> Seq<(usize, usize)>
    decreases fs.len(),
{
    if fs.len() == 0 { Seq::empty() } else { funcs_spans(fs.drop_last()) + func_spans(fs.last()) }
}

/// The spans of fields.
pub open spec fn fields_spans(fs: Seq<FieldDecl>) -> Seq<(usize, usize)> {
    Seq::new(fs.len(), |i: int| sp(fs[i].span))
}

/// The spans of enum variants.
pub open spec fn variants_spans(vs: Seq<Variant>) -> Seq<(usize, usize)> {
    Seq::new(vs.len(), |i: int| sp(vs[i].span))
}

/// The spans of foreign functions.
pub open spec fn ffis_spans(fs: Seq<FfiFunction>) -> Seq<(usize, usize)> {
    Seq::new(fs.len(), |i: int| sp(fs[i].span))
}

/// The spans of a trait's items.
pub open spec fn trait_items_spans(its: Seq<TraitItem>) -> Seq<(usize, usize)>
    decreases its.len(),
{
    if its.len() == 0 {
        Seq::empty()
    } else {
        trait_items_spans(its.drop_last()) + match its.last() {
            TraitItem::AssocType { span, .. } => seq![sp(span)],
            TraitItem::MethodSig(ms) => seq![sp(ms.span)],
            TraitItem::DefaultMethod(f) => func_spans(f),
        }
    }
}

/// The spans of an `impl` block's items.
pub open spec fn impl_items_spans(its: Seq<ImplItem>) -> Seq<(usize, usize)>
    decreases its.len(),
{
    if its.len() == 0 {
        Seq::empty()
    } else {
        impl_items_spans(its.drop_last()) + match its.last() {
            ImplItem::AssocType { span, .. } => seq![sp(span)],
            ImplItem::Method(f) => func_spans(f),
        }
    }
}

/// The span of a top-level item.
pub open spec fn item_span(item: TopLevelItem) -> (usize, usize) {
    match item {
        TopLevelItem::Module(m) => sp(m.span),
        TopLevelItem::Class(c) => sp(c.span),
        TopLevelItem::Struct(s) => sp(s.span),
        TopLevelItem::Enum(e) => sp(e.span),
        TopLevelItem::Trait(t) => sp(t.span),
        TopLevelItem::Impl(i) => sp(i.span),
        TopLevelItem::Function(f) => sp(f.span),
        TopLevelItem::Use(u) => sp(u.span),
        TopLevelItem::TypeAlias(t) => sp(t.span),
        TopLevelItem::Newtype(n) => sp(n.span),
        TopLevelItem::Const(c) => sp(c.span),
        TopLevelItem::Lib(l) => sp(l.span),
        TopLevelItem::Extern(e) => sp(e.span),
    }
}

/// The spans of a top-level item: the item, then the nodes inside it.
pub open spec fn item_spans(item: TopLevelItem) -> Seq<(usize, usize)>
    decreases item, 1nat,
{
    seq![item_span(item)] + match item {
        TopLevelItem::Module(m) => items_spans(m.items@),
        TopLevelItem::Class(c) => fields_spans(c.fields@) + funcs_spans(c.methods@),
        TopLevelItem::Struct(s) => fields_spans(s.fields@),
        TopLevelItem::Enum(e) => variants_spans(e.variants@),
        TopLevelItem::Trait(t) => trait_items_spans(t.items@),
        TopLevelItem::Impl(i) => impl_items_spans(i.items@),
        TopLevelItem::Function(f) => params_spans(f.params@) + match f.return_type {
            Some(t) => type_spans(t),
            None => Seq::empty(),
        } + block_spans(f.body),
        TopLevelItem::Use(_) => Seq::empty(),
        TopLevelItem::TypeAlias(ta) => type_spans(ta.type_expr),
        TopLevelItem::Newtype(nt) => type_spans(nt.inner_type),
        TopLevelItem::Const(c) => type_spans(c.type_expr) + expr_spans(c.value),
        TopLevelItem::Lib(l) => ffis_spans(l.functions@),
        TopLevelItem::Extern(e) => ffis_spans(e.functions@),
    }
}

/// The spans of a list of items.
pub open spec fn items_spans(items: Seq<TopLevelItem>) -> Seq<(usize, usize)>
    decreases items, 0nat,
{
    if items.len() == 0 {
        Seq::empty()
    } else {
        proof { assert(decreases_to!(items => items.drop_last())); }
        items_spans(items.drop_last()) + item_spans(items.last())
    }
}

/// Every node span of a program in visiting order: the program, then each item.
pub open spec fn visited_spans(p: Program) -> Seq<(usize, usize)> {
    seq![sp(p.span)] + items_spans(p.items@)
}

/// `x` inserted into `t` after the last span that starts no later than it.
pub open spec fn insert_span(t: Seq<(usize, usize)>, x: (usize, usize)) -> Seq<(usize, usize)>
    decreases t.len(),
{
    if t.len() == 0 {
        seq![x]
    } else if t.last().0 <= x.0 {
        t.push(x)
    } else {
        insert_span(t.drop_last(), x).push(t.last())
    }
}

/// A stable sort of spans by their start.
pub open spec fn sort_by_start(s: Seq<(usize, usize)>) -> Seq<(usize, usize)>
    decreases s.len(),
{
    if s.len() == 0 { Seq::empty() } else { insert_span(sort_by_start(s.drop_last()), s.last()) }
}

/// The node spans of a program, sorted by start, those with equal starts in visiting order.
pub open spec fn node_spans_spec(p: Program) -> Seq<(usize, usize)> {
    sort_by_start(visited_spans(p))
}

/// Spans ordered by start.
pub open spec fn sorted_by_start(s: Seq<(usize, usize)>) -> bool {
    forall|i: int, j: int| 0 <= i < j < s.len() ==> s[i].0 <= s[j].0
}


fn add_span(spans: &mut Vec<(usize, usize)>, s: &Span)
    ensures
        final(spans)@ == old(spans)@.push(sp(*s)),
{
    spans.push((s.start, s.end));
}

fn visit_type(spans: &mut Vec<(usize, usize)>, ty: &TypeExpr)
    ensures
        final(spans)@ == old(spans)@ + type_spans(*ty),
    decreases ty, 1nat,
{
    let ghost s0 = spans@;
    match ty {
        TypeExpr::Named(tp) => add_span(spans, &tp.span),
        TypeExpr::Reference { span, inner, .. } => {
            add_span(spans, span);
            visit_type(spans, &**inner);
        },
        TypeExpr::Tuple { span, elements } => {
            add_span(spans, span);
            visit_types(spans, elements);
        },
        TypeExpr::Array { span, element, .. } => {
            add_span(spans, span);
            visit_type(spans, &**element);
        },
        TypeExpr::Function { span, params, return_type } => {
            add_span(spans, span);
            visit_types(spans, params);
            visit_type(spans, &**return_type);
        },
        TypeExpr::ImplTrait { span, .. } => add_span(spans, span),
        TypeExpr::DynTrait { span, .. } => add_span(spans, span),
        TypeExpr::Never { span } => add_span(spans, span),
        TypeExpr::Inferred { span } => add_span(spans, span),
        TypeExpr::RawPointer { span, inner, .. } => {
            add_span(spans, span);
            visit_type(spans, &**inner);
        },
    }
    proof { assert(spans@ =~= s0 + type_spans(*ty)); }
}

fn visit_types(spans: &mut Vec<(usize, usize)>, ts: &Vec<TypeExpr>)
    ensures
        final(spans)@ == old(spans)@ + types_spans(ts@),
    decreases ts, 0nat,
{
    let ghost s0 = spans@;
    let mut i: usize = 0;
    proof { assert(s0 + types_spans(ts@.take(0)) =~= s0); }
    while i < ts.len()
        invariant
            i <= ts@.len(),
            spans@ == s0 + types_spans(ts@.take(i as int)),
        decreases ts@.len() - i,
    {
        proof { assert(ts@.take(i + 1).drop_last() =~= ts@.take(i as int)); }
        visit_type(spans, &ts[i]);
        proof { assert(spans@ =~= s0 + types_spans(ts@.take(i + 1))); }
        i = i + 1;
    }
    proof { assert(ts@.take(ts@.len() as int) =~= ts@); }
}

fn visit_pattern(spans: &mut Vec<(usize, usize)>, pat: &Pattern)
    ensures
        final(spans)@ == old(spans)@ + pattern_spans(*pat),
    decreases pat, 1nat,
{
    let ghost s0 = spans@;
    match pat {
        Pattern::Literal { span, expr } => {
            add_span(spans, span);
            visit_expr(spans, &**expr);
        },
        Pattern::Identifier { span, .. } => add_span(spans, span),
        Pattern::Wildcard { span } => add_span(spans, span),
        Pattern::Rest { span } => add_span(spans, span),
        Pattern::Ref { span, .. } => add_span(spans, span),
        Pattern::Tuple { span, elements } => {
            add_span(spans, span);
            visit_patterns(spans, elements);
        },
        Pattern::Enum { span, fields, .. } => {
            add_span(spans, span);
            visit_patterns(spans, fields);
        },
        Pattern::Struct { span, fields, .. } => {
            add_span(spans, span);
            visit_field_pats(spans, fields);
        },
        Pattern::Or { span, patterns } => {
            add_span(spans, span);
            visit_patterns(spans, patterns);
        },
    }
    proof { assert(spans@ =~= s0 + pattern_spans(*pat)); }
}

fn visit_patterns(spans: &mut Vec<(usize, usize)>, ps: &Vec<Pattern>)
    ensures
        final(spans)@ == old(spans)@ + patterns_spans(ps@),
    decreases ps, 0nat,
{
    let ghost s0 = spans@;
    let mut i: usize = 0;
    proof { assert(s0 + patterns_spans(ps@.take(0)) =~= s0); }
    while i < ps.len()
        invariant
            i <= ps@.len(),
            spans@ == s0 + patterns_spans(ps@.take(i as int)),
        decreases ps@.len() - i,
    {
        proof { assert(ps@.take(i + 1).drop_last() =~= ps@.take(i as int)); }
        visit_pattern(spans, &ps[i]);
        proof { assert(spans@ =~= s0 + patterns_spans(ps@.take(i + 1))); }
        i = i + 1;
    }
    proof { assert(ps@.take(ps@.len() as int) =~= ps@); }
}

fn visit_field_pats(spans: &mut Vec<(usize, usize)>, fs: &Vec<FieldPattern>)
    ensures
        final(spans)@ == old(spans)@ + field_pats_spans(fs@),
    decreases fs, 0nat,
{
    let ghost s0 = spans@;
    let mut i: usize = 0;
    proof { assert(s0 + field_pats_spans(fs@.take(0)) =~= s0); }
    while i < fs.len()
        invariant
            i <= fs@.len(),
            spans@ == s0 + field_pats_spans(fs@.take(i as int)),
        decreases fs@.len() - i,
    {
        proof { assert(fs@.take(i + 1).drop_last() =~= fs@.take(i as int)); }
        add_span(spans, &fs[i].span);
        visit_pattern(spans, &fs[i].pattern);
        proof { assert(spans@ =~= s0 + field_pats_spans(fs@.take(i + 1))); }
        i = i + 1;
    }
    proof { assert(fs@.take(fs@.len() as int) =~= fs@); }
}

fn visit_opt_expr(spans: &mut Vec<(usize, usize)>, x: &Option<Box<Expr>>)
    ensures
        final(spans)@ == old(spans)@ + opt_expr_spans(*x),
    decreases x, 0nat,
{
    match x {
        Some(v) => visit_expr(spans, &**v),
        None => {},
    }
    proof { assert(spans@ =~= old(spans)@ + opt_expr_spans(*x)); }
}

fn visit_opt_block(spans: &mut Vec<(usize, usize)>, b: &Option<Block>)
    ensures
        final(spans)@ == old(spans)@ + opt_block_spans(*b),
    decreases b, 0nat,
{
    match b {
        Some(v) => visit_block(spans, v),
        None => {},
    }
    proof { assert(spans@ =~= old(spans)@ + opt_block_spans(*b)); }
}

#[verifier::rlimit(100)]
#[verifier::spinoff_prover]
fn visit_expr(spans: &mut Vec<(usize, usize)>, expr: &Expr)
    ensures
        final(spans)@ == old(spans)@ + expr_spans(*expr),
    decreases expr, 1nat,
{
    let ghost s0 = spans@;
    add_span(spans, &expr.span);
    let ghost s1 = spans@;
    match &expr.kind {
        ExprKind::BinaryOp { left, right, .. } => {
            visit_expr(spans, &**left);
            visit_expr(spans, &**right);
        },
        ExprKind::UnaryOp { operand, .. } => visit_expr(spans, &**operand),
        ExprKind::Borrow(x) => visit_expr(spans, &**x),
        ExprKind::BorrowMut(x) => visit_expr(spans, &**x),
        ExprKind::Try(x) => visit_expr(spans, &**x),
        ExprKind::FieldAccess { object, .. } => visit_expr(spans, &**object),
        ExprKind::SafeNav { object, .. } => visit_expr(spans, &**object),
        ExprKind::MethodCall { object, args, block, .. } => {
            visit_expr(spans, &**object);
            visit_exprs(spans, args);
            visit_opt_expr(spans, block);
        },
        ExprKind::SafeNavCall { object, args, .. } => {
            visit_expr(spans, &**object);
            visit_exprs(spans, args);
        },
        ExprKind::Call { callee, args, block } => {
            visit_expr(spans, &**callee);
            visit_exprs(spans, args);
            visit_opt_expr(spans, block);
        },
        ExprKind::Index { object, index } => {
            visit_expr(spans, &**object);
            visit_expr(spans, &**index);
        },
        ExprKind::ClosureCall { callee, args } => {
            visit_expr(spans, &**callee);
            visit_exprs(spans, args);
        },
        ExprKind::Assign { target, value } => {
            visit_expr(spans, &**target);
            visit_expr(spans, &**value);
        },
        ExprKind::CompoundAssign { target, value, .. } => {
            visit_expr(spans, &**target);
            visit_expr(spans, &**value);
        },
        ExprKind::If(ie) => {
            visit_expr(spans, &*ie.condition);
            visit_block(spans, &ie.then_body);
            visit_elsifs(spans, &ie.elsif_clauses);
            visit_opt_block(spans, &ie.else_body);
        },
        ExprKind::IfLet(il) => {
            visit_pattern(spans, &il.pattern);
            visit_expr(spans, &*il.value);
            visit_block(spans, &il.then_body);
            visit_opt_block(spans, &il.else_body);
        },
        ExprKind::Match(m) => {
            visit_expr(spans, &*m.subject);
            visit_arms(spans, &m.arms);
        },
        ExprKind::While(w) => {
            visit_expr(spans, &*w.condition);
            visit_block(spans, &w.body);
        },
        ExprKind::WhileLet(wl) => {
            visit_pattern(spans, &wl.pattern);
            visit_expr(spans, &*wl.value);
            visit_block(spans, &wl.body);
        },
        ExprKind::For(f) => {
            visit_pattern(spans, &f.pattern);
            visit_expr(spans, &*f.iterable);
            visit_block(spans, &f.body);
        },
        ExprKind::Loop(l) => visit_block(spans, &l.body),
        ExprKind::Block(b) => visit_block(spans, b),
        ExprKind::Closure(c) => {
            let ghost c0 = spans@;
            let mut i: usize = 0;
            while i < c.params.len()
                invariant
                    i <= c.params@.len(),
                    spans@ == c0 + Seq::new(i as nat, |k: int| sp(c.params@[k].span)),
                decreases c.params@.len() - i,
            {
                add_span(spans, &c.params[i].span);
                proof { assert(spans@ =~= c0 + Seq::new((i + 1) as nat, |k: int| sp(c.params@[k].span))); }
                i = i + 1;
            }
            proof { assert(spans@ =~= c0 + closure_params_spans(c.params@)); }
            match &c.body {
                ClosureBody::Expr(x) => visit_expr(spans, &**x),
                ClosureBody::Block(b) => visit_block(spans, b),
            }
        },
        ExprKind::Range { start, end, .. } => {
            visit_opt_expr(spans, start);
            visit_opt_expr(spans, end);
        },
        ExprKind::ArrayLiteral(es) => visit_exprs(spans, es),
        ExprKind::ArrayFill { value, count } => {
            visit_expr(spans, &**value);
            visit_expr(spans, &**count);
        },
        ExprKind::TupleLiteral(es) => visit_exprs(spans, es),
        ExprKind::Return(v) => visit_opt_expr(spans, v),
        ExprKind::Break(v) => visit_opt_expr(spans, v),
        ExprKind::Yield(es) => visit_exprs(spans, es),
        ExprKind::MacroCall { args, .. } => visit_exprs(spans, args),
        ExprKind::Cast { expr: x, .. } => visit_expr(spans, &**x),
        ExprKind::EnumVariant { args, .. } => visit_variant_args(spans, args),
        ExprKind::UnsafeBlock(b) => visit_block(spans, b),
        _ => {},
    }
    proof { assert(spans@ =~= s0 + expr_spans(*expr)); }
}

fn visit_exprs(spans: &mut Vec<(usize, usize)>, es: &Vec<Expr>)
    ensures
        final(spans)@ == old(spans)@ + exprs_spans(es@),
    decreases es, 0nat,
{
    let ghost s0 = spans@;
    let mut i: usize = 0;
    proof { assert(s0 + exprs_spans(es@.take(0)) =~= s0); }
    while i < es.len()
        invariant
            i <= es@.len(),
            spans@ == s0 + exprs_spans(es@.take(i as int)),
        decreases es@.len() - i,
    {
        proof { assert(es@.take(i + 1).drop_last() =~= es@.take(i as int)); }
        visit_expr(spans, &es[i]);
        proof { assert(spans@ =~= s0 + exprs_spans(es@.take(i + 1))); }
        i = i + 1;
    }
    proof { assert(es@.take(es@.len() as int) =~= es@); }
}

fn visit_variant_args(spans: &mut Vec<(usize, usize)>, args: &Vec<VariantArg>)
    ensures
        final(spans)@ == old(spans)@ + variant_args_spans(args@),
    decreases args, 0nat,
{
    let ghost s0 = spans@;
    let mut i: usize = 0;
    proof { assert(s0 + variant_args_spans(args@.take(0)) =~= s0); }
    while i < args.len()
        invariant
            i <= args@.len(),
            spans@ == s0 + variant_args_spans(args@.take(i as int)),
        decreases args@.len() - i,
    {
        proof { assert(args@.take(i + 1).drop_last() =~= args@.take(i as int)); }
        add_span(spans, &args[i].span);
        visit_expr(spans, &args[i].value);
        proof { assert(spans@ =~= s0 + variant_args_spans(args@.take(i + 1))); }
        i = i + 1;
    }
    proof { assert(args@.take(args@.len() as int) =~= args@); }
}

fn visit_elsifs(spans: &mut Vec<(usize, usize)>, cs: &Vec<ElsifClause>)
    ensures
        final(spans)@ == old(spans)@ + elsifs_spans(cs@),
    decreases cs, 0nat,
{
    let ghost s0 = spans@;
    let mut i: usize = 0;
    proof { assert(s0 + elsifs_spans(cs@.take(0)) =~= s0); }
    while i < cs.len()
        invariant
            i <= cs@.len(),
            spans@ == s0 + elsifs_spans(cs@.take(i as int)),
        decreases cs@.len() - i,
    {
        proof { assert(cs@.take(i + 1).drop_last() =~= cs@.take(i as int)); }
        add_span(spans, &cs[i].span);
        visit_expr(spans, &cs[i].condition);
        visit_block(spans, &cs[i].body);
        proof { assert(spans@ =~= s0 + elsifs_spans(cs@.take(i + 1))); }
        i = i + 1;
    }
    proof { assert(cs@.take(cs@.len() as int) =~= cs@); }
}

fn visit_arm(spans: &mut Vec<(usize, usize)>, a: &MatchArm)
    ensures
        final(spans)@ == old(spans)@ + arm_spans(*a),
    decreases a, 1nat,
{
    let ghost s0 = spans@;
    add_span(spans, &a.span);
    visit_pattern(spans, &a.pattern);
    visit_opt_expr(spans, &a.guard);
    match &a.body {
        MatchArmBody::Expr(x) => visit_expr(spans, x),
        MatchArmBody::Block(b) => visit_block(spans, b),
    }
    proof { assert(spans@ =~= s0 + arm_spans(*a)); }
}

fn visit_arms(spans: &mut Vec<(usize, usize)>, arms: &Vec<MatchArm>)
    ensures
        final(spans)@ == old(spans)@ + arms_spans(arms@),
    decreases arms, 0nat,
{
    let ghost s0 = spans@;
    let mut i: usize = 0;
    proof { assert(s0 + arms_spans(arms@.take(0)) =~= s0); }
    while i < arms.len()
        invariant
            i <= arms@.len(),
            spans@ == s0 + arms_spans(arms@.take(i as int)),
        decreases arms@.len() - i,
    {
        proof { assert(arms@.take(i + 1).drop_last() =~= arms@.take(i as int)); }
        visit_arm(spans, &arms[i]);
        proof { assert(spans@ =~= s0 + arms_spans(arms@.take(i + 1))); }
        i = i + 1;
    }
    proof { assert(arms@.take(arms@.len() as int) =~= arms@); }
}

fn visit_stmt(spans: &mut Vec<(usize, usize)>, s: &Statement)
    ensures
        final(spans)@ == old(spans)@ + stmt_spans(*s),
    decreases s, 1nat,
{
    let ghost s0 = spans@;
    match s {
        Statement::Let(l) => {
            add_span(spans, &l.span);
            visit_pattern(spans, &l.pattern);
            match &l.type_annotation {
                Some(t) => visit_type(spans, t),
                None => {},
            }
            match &l.value {
                Some(v) => visit_expr(spans, v),
                None => {},
            }
        },
        Statement::Expression(x) => visit_expr(spans, x),
    }
    proof { assert(spans@ =~= s0 + stmt_spans(*s)); }
}

fn visit_block(spans: &mut Vec<(usize, usize)>, b: &Block)
    ensures
        final(spans)@ == old(spans)@ + block_spans(*b),
    decreases b, 1nat,
{
    let ghost s0 = spans@;
    add_span(spans, &b.span);
    visit_stmts(spans, &b.statements);
    proof { assert(spans@ =~= s0 + block_spans(*b)); }
}

fn visit_stmts(spans: &mut Vec<(usize, usize)>, ss: &Vec<Statement>)
    ensures
        final(spans)@ == old(spans)@ + stmts_spans(ss@),
    decreases ss, 0nat,
{
    let ghost s0 = spans@;
    let mut i: usize = 0;
    proof { assert(s0 + stmts_spans(ss@.take(0)) =~= s0); }
    while i < ss.len()
        invariant
            i <= ss@.len(),
            spans@ == s0 + stmts_spans(ss@.take(i as int)),
        decreases ss@.len() - i,
    {
        proof { assert(ss@.take(i + 1).drop_last() =~= ss@.take(i as int)); }
        visit_stmt(spans, &ss[i]);
        proof { assert(spans@ =~= s0 + stmts_spans(ss@.take(i + 1))); }
        i = i + 1;
    }
    proof { assert(ss@.take(ss@.len() as int) =~= ss@); }
}

fn visit_params(spans: &mut Vec<(usize, usize)>, ps: &Vec<Param>)
    ensures
        final(spans)@ == old(spans)@ + params_spans(ps@),
{
    let ghost s0 = spans@;
    let mut i: usize = 0;
    proof { assert(s0 + params_spans(ps@.take(0)) =~= s0); }
    while i < ps.len()
        invariant
            i <= ps@.len(),
            spans@ == s0 + params_spans(ps@.take(i as int)),
        decreases ps@.len() - i,
    {
        proof { assert(ps@.take(i + 1).drop_last() =~= ps@.take(i as int)); }
        add_span(spans, &ps[i].span);
        visit_type(spans, &ps[i].type_expr);
        proof { assert(spans@ =~= s0 + params_spans(ps@.take(i + 1))); }
        i = i + 1;
    }
    proof { assert(ps@.take(ps@.len() as int) =~= ps@); }
}

fn visit_func(spans: &mut Vec<(usize, usize)>, f: &FuncDef)
    ensures
        final(spans)@ == old(spans)@ + func_spans(*f),
{
    let ghost s0 = spans@;
    add_span(spans, &f.span);
    visit_params(spans, &f.params);
    match &f.return_type {
        Some(t) => visit_type(spans, t),
        None => {},
    }
    visit_block(spans, &f.body);
    proof { assert(spans@ =~= s0 + func_spans(*f)); }
}

#[verifier::rlimit(100)]
#[verifier::spinoff_prover]
fn visit_item(spans: &mut Vec<(usize, usize)>, item: &TopLevelItem)
    ensures
        final(spans)@ == old(spans)@ + item_spans(*item),
    decreases item, 1nat,
{
    let ghost s0 = spans@;
    match item {
        TopLevelItem::Module(m) => {
            add_span(spans, &m.span);
            visit_items(spans, &m.items);
        },
        TopLevelItem::Class(c) => {
            add_span(spans, &c.span);
            let ghost c0 = spans@;
            let mut i: usize = 0;
            while i < c.fields.len()
                invariant
                    i <= c.fields@.len(),
                    spans@ == c0 + Seq::new(i as nat, |k: int| sp(c.fields@[k].span)),
                decreases c.fields@.len() - i,
            {
                add_span(spans, &c.fields[i].span);
                proof { assert(spans@ =~= c0 + Seq::new((i + 1) as nat, |k: int| sp(c.fields@[k].span))); }
                i = i + 1;
            }
            proof { assert(spans@ =~= c0 + fields_spans(c.fields@)); }
            let ghost c1 = spans@;
            let mut j: usize = 0;
            proof { assert(c1 + funcs_spans(c.methods@.take(0)) =~= c1); }
            while j < c.methods.len()
                invariant
                    j <= c.methods@.len(),
                    spans@ == c1 + funcs_spans(c.methods@.take(j as int)),
                decreases c.methods@.len() - j,
            {
                proof { assert(c.methods@.take(j + 1).drop_last() =~= c.methods@.take(j as int)); }
                visit_func(spans, &c.methods[j]);
                proof { assert(spans@ =~= c1 + funcs_spans(c.methods@.take(j + 1))); }
                j = j + 1;
            }
            proof { assert(c.methods@.take(c.methods@.len() as int) =~= c.methods@); }
        },
        TopLevelItem::Struct(s) => {
            add_span(spans, &s.span);
            let ghost c0 = spans@;
            let mut i: usize = 0;
            while i < s.fields.len()
                invariant
                    i <= s.fields@.len(),
                    spans@ == c0 + Seq::new(i as nat, |k: int| sp(s.fields@[k].span)),
                decreases s.fields@.len() - i,
            {
                add_span(spans, &s.fields[i].span);
                proof { assert(spans@ =~= c0 + Seq::new((i + 1) as nat, |k: int| sp(s.fields@[k].span))); }
                i = i + 1;
            }
            proof { assert(spans@ =~= c0 + fields_spans(s.fields@)); }
        },
        TopLevelItem::Enum(e) => {
            add_span(spans, &e.span);
            let ghost c0 = spans@;
            let mut i: usize = 0;
            while i < e.variants.len()
                invariant
                    i <= e.variants@.len(),
                    spans@ == c0 + Seq::new(i as nat, |k: int| sp(e.variants@[k].span)),
                decreases e.variants@.len() - i,
            {
                add_span(spans, &e.variants[i].span);
                proof { assert(spans@ =~= c0 + Seq::new((i + 1) as nat, |k: int| sp(e.variants@[k].span))); }
                i = i + 1;
            }
            proof { assert(spans@ =~= c0 + variants_spans(e.variants@)); }
        },
        TopLevelItem::Trait(t) => {
            add_span(spans, &t.span);
            let ghost c0 = spans@;
            let its = &t.items;
            let mut i: usize = 0;
            proof { assert(c0 + trait_items_spans(its@.take(0)) =~= c0); }
            while i < its.len()
                invariant
                    i <= its@.len(),
                    spans@ == c0 + trait_items_spans(its@.take(i as int)),
                decreases its@.len() - i,
            {
                proof { assert(its@.take(i + 1).drop_last() =~= its@.take(i as int)); }
                match &its[i] {
                    TraitItem::AssocType { span, .. } => add_span(spans, span),
                    TraitItem::MethodSig(ms) => add_span(spans, &ms.span),
                    TraitItem::DefaultMethod(f) => visit_func(spans, f),
                }
                proof { assert(spans@ =~= c0 + trait_items_spans(its@.take(i + 1))); }
                i = i + 1;
            }
            proof { assert(its@.take(its@.len() as int) =~= its@); }
        },
        TopLevelItem::Impl(imp) => {
            add_span(spans, &imp.span);
            let ghost c0 = spans@;
            let its = &imp.items;
            let mut i: usize = 0;
            proof { assert(c0 + impl_items_spans(its@.take(0)) =~= c0); }
            while i < its.len()
                invariant
                    i <= its@.len(),
                    spans@ == c0 + impl_items_spans(its@.take(i as int)),
                decreases its@.len() - i,
            {
                proof { assert(its@.take(i + 1).drop_last() =~= its@.take(i as int)); }
                match &its[i] {
                    ImplItem::AssocType { span, .. } => add_span(spans, span),
                    ImplItem::Method(f) => visit_func(spans, f),
                }
                proof { assert(spans@ =~= c0 + impl_items_spans(its@.take(i + 1))); }
                i = i + 1;
            }
            proof { assert(its@.take(its@.len() as int) =~= its@); }
        },
        TopLevelItem::Function(f) => visit_func(spans, f),
        TopLevelItem::Use(u) => add_span(spans, &u.span),
        TopLevelItem::TypeAlias(ta) => {
            add_span(spans, &ta.span);
            visit_type(spans, &ta.type_expr);
        },
        TopLevelItem::Newtype(nt) => {
            add_span(spans, &nt.span);
            visit_type(spans, &nt.inner_type);
        },
        TopLevelItem::Const(c) => {
            add_span(spans, &c.span);
            visit_type(spans, &c.type_expr);
            visit_expr(spans, &c.value);
        },
        TopLevelItem::Lib(l) => {
            add_span(spans, &l.span);
            visit_ffis(spans, &l.functions);
        },
        TopLevelItem::Extern(e) => {
            add_span(spans, &e.span);
            visit_ffis(spans, &e.functions);
        },
    }
    proof { assert(spans@ =~= s0 + item_spans(*item)); }
}

fn visit_ffis(spans: &mut Vec<(usize, usize)>, fs: &Vec<FfiFunction>)
    ensures
        final(spans)@ == old(spans)@ + ffis_spans(fs@),
{
    let ghost c0 = spans@;
    let mut i: usize = 0;
    while i < fs.len()
        invariant
            i <= fs@.len(),
            spans@ == c0 + Seq::new(i as nat, |k: int| sp(fs@[k].span)),
        decreases fs@.len() - i,
    {
        add_span(spans, &fs[i].span);
        proof { assert(spans@ =~= c0 + Seq::new((i + 1) as nat, |k: int| sp(fs@[k].span))); }
        i = i + 1;
    }
    proof { assert(spans@ =~= c0 + ffis_spans(fs@)); }
}

fn visit_items(spans: &mut Vec<(usize, usize)>, items: &Vec<TopLevelItem>)
    ensures
        final(spans)@ == old(spans)@ + items_spans(items@),
    decreases items, 0nat,
{
    let ghost s0 = spans@;
    let mut i: usize = 0;
    proof { assert(s0 + items_spans(items@.take(0)) =~= s0); }
    while i < items.len()
        invariant
            i <= items@.len(),
            spans@ == s0 + items_spans(items@.take(i as int)),
        decreases items@.len() - i,
    {
        proof { assert(items@.take(i + 1).drop_last() =~= items@.take(i as int)); }
        visit_item(spans, &items[i]);
        proof { assert(spans@ =~= s0 + items_spans(items@.take(i + 1))); }
        i = i + 1;
    }
    proof { assert(items@.take(items@.len() as int) =~= items@); }
}

proof fn lemma_insert_at(t: Seq<(usize, usize)>, x: (usize, usize), k: int)
    requires
        0 <= k <= t.len(),
        forall|i: int| k <= i < t.len() ==> t[i].0 > x.0,
        k > 0 ==> t[k - 1].0 <= x.0,
    ensures
        insert_span(t, x) == t.take(k).push(x) + t.skip(k),
    decreases t.len(),
{
    if t.len() == 0 {
        assert(t.take(k).push(x) + t.skip(k) =~= seq![x]);
    } else if k == t.len() {
        assert(t.take(k) =~= t);
        assert(t.skip(k) =~= Seq::<(usize, usize)>::empty());
        assert(t.take(k).push(x) + t.skip(k) =~= t.push(x));
    } else {
        let d = t.drop_last();
        assert(t.last().0 > x.0);
        lemma_insert_at(d, x, k);
        assert(d.take(k) =~= t.take(k));
        assert(t.take(k).push(x) + t.skip(k) =~= (d.take(k).push(x) + d.skip(k)).push(t.last()));
    }
}

/// Sorts spans by start, keeping spans with equal starts in their order.
fn sort_spans(v: Vec<(usize, usize)>) -> (r: Vec<(usize, usize)>)
    ensures
        r@ == sort_by_start(v@),
{
    let mut r: Vec<(usize, usize)> = Vec::new();
    let mut i: usize = 0;
    proof { assert(v@.take(0) =~= Seq::<(usize, usize)>::empty()); }
    while i < v.len()
        invariant
            i <= v@.len(),
            r@ == sort_by_start(v@.take(i as int)),
        decreases v@.len() - i,
    {
        proof { assert(v@.take(i + 1).drop_last() =~= v@.take(i as int)); }
        let x = v[i];
        let mut k = r.len();
        while k > 0 && r[k - 1].0 > x.0
            invariant
                k <= r@.len(),
                forall|j: int| k <= j < r@.len() ==> r@[j].0 > x.0,
            decreases k,
        {
            k = k - 1;
        }
        let ghost t = r@;
        let mut out: Vec<(usize, usize)> = Vec::new();
        let mut j: usize = 0;
        while j < k
            invariant
                j <= k <= t.len(),
                t == r@,
                out@ == t.take(j as int),
            decreases k - j,
        {
            out.push(r[j]);
            proof { assert(out@ =~= t.take(j + 1)); }
            j = j + 1;
        }
        out.push(x);
        let mut q = k;
        while q < r.len()
            invariant
                k <= q <= t.len(),
                t == r@,
                out@ == t.take(k as int).push(x) + t.subrange(k as int, q as int),
            decreases t.len() - q,
        {
            out.push(r[q]);
            proof {
                assert(out@ =~= t.take(k as int).push(x) + t.subrange(k as int, q + 1));
            }
            q = q + 1;
        }
        proof {
            assert(t.subrange(k as int, t.len() as int) =~= t.skip(k as int));
            lemma_insert_at(t, x, k as int);
            assert(v@.take(i + 1).last() == x);
        }
        r = out;
        i = i + 1;
    }
    proof { assert(v@.take(v@.len() as int) =~= v@); }
    r
}

/// The spans of the program's syntax nodes, sorted by start, for attaching comments.
pub fn collect_node_spans(program: &Program) -> (r: Vec<(usize, usize)>)
    ensures
        r@ == node_spans_spec(*program),
{
    let mut spans: Vec<(usize, usize)> = Vec::new();
    add_span(&mut spans, &program.span);
    visit_items(&mut spans, &program.items);
    proof { assert(spans@ =~= visited_spans(*program)); }
    sort_spans(spans)
}


proof fn lemma_insert_span(t: Seq<(usize, usize)>, x: (usize, usize))
    ensures
        insert_span(t, x).len() == t.len() + 1,
        insert_span(t, x).contains(x),
        forall|i: int| 0 <= i < t.len() ==> insert_span(t, x).contains(#[trigger] t[i]),
        sorted_by_start(t) ==> sorted_by_start(insert_span(t, x)),
        forall|i: int| 0 <= i < insert_span(t, x).len() ==> (#[trigger] insert_span(t, x)[i] == x || t.contains(insert_span(t, x)[i])),
    decreases t.len(),
{
    let r = insert_span(t, x);
    if t.len() == 0 {
        assert(r[0] == x);
    } else if t.last().0 <= x.0 {
        assert(r[r.len() - 1] == x);
        assert forall|i: int| 0 <= i < t.len() implies r.contains(#[trigger] t[i]) by {
            assert(r[i] == t[i]);
        }
        assert forall|i: int| 0 <= i < r.len() implies (#[trigger] r[i] == x || t.contains(r[i])) by {
            if i < t.len() {
                assert(r[i] == t[i]);
            }
        }
    } else {
        let d = t.drop_last();
        lemma_insert_span(d, x);
        let q = insert_span(d, x);
        assert(r == q.push(t.last()));
        assert(r.contains(x)) by {
            let w = choose|j: int| 0 <= j < q.len() && q[j] == x;
            assert(r[w] == x);
        }
        assert forall|i: int| 0 <= i < t.len() implies r.contains(#[trigger] t[i]) by {
            if i == t.len() - 1 {
                assert(r[r.len() - 1] == t[i]);
            } else {
                assert(d[i] == t[i]);
                assert(q.contains(d[i]));
                let w = choose|j: int| 0 <= j < q.len() && q[j] == d[i];
                assert(r[w] == t[i]);
            }
        }
        assert forall|i: int| 0 <= i < r.len() implies (#[trigger] r[i] == x || t.contains(r[i])) by {
            if i == r.len() - 1 {
                assert(r[i] == t[t.len() - 1]);
            } else {
                assert(r[i] == q[i]);
                if q[i] != x {
                    assert(d.contains(q[i]));
                    let w = choose|j: int| 0 <= j < d.len() && d[j] == q[i];
                    assert(t[w] == d[w]);
                }
            }
        }
        if sorted_by_start(t) {
            assert(sorted_by_start(d));
            assert forall|i: int, j: int| 0 <= i < j < r.len() implies r[i].0 <= r[j].0 by {
                if j == r.len() - 1 {
                    assert(r[j] == t.last());
                    if i < q.len() {
                        assert(r[i] == q[i]);
                        if q[i] == x {
                        } else {
                            assert(d.contains(q[i]));
                            let w = choose|k: int| 0 <= k < d.len() && d[k] == q[i];
                            assert(t[w] == d[w]);
                        }
                    }
                } else {
                    assert(r[i] == q[i] && r[j] == q[j]);
                }
            }
        }
    }
}

proof fn lemma_sort_by_start(s: Seq<(usize, usize)>)
    ensures
        sort_by_start(s).len() == s.len(),
        sorted_by_start(sort_by_start(s)),
        forall|i: int| 0 <= i < s.len() ==> sort_by_start(s).contains(#[trigger] s[i]),
    decreases s.len(),
{
    if s.len() > 0 {
        let d = s.drop_last();
        lemma_sort_by_start(d);
        let t = sort_by_start(d);
        lemma_insert_span(t, s.last());
        assert forall|i: int| 0 <= i < s.len() implies sort_by_start(s).contains(#[trigger] s[i]) by {
            if i < s.len() - 1 {
                assert(d[i] == s[i]);
                let w = choose|j: int| 0 <= j < t.len() && t[j] == d[i];
                assert(insert_span(t, s.last()).contains(t[w]));
            }
        }
    }
}

proof fn lemma_items_spans_hold_items(items: Seq<TopLevelItem>)
    ensures
        forall|i: int| 0 <= i < items.len() ==> items_spans(items).contains(#[trigger] item_span(items[i])),
    decreases items.len(),
{
    if items.len() > 0 {
        let d = items.drop_last();
        lemma_items_spans_hold_items(d);
        let a = items_spans(d);
        let b = item_spans(items.last());
        assert(items_spans(items) == a + b);
        assert forall|i: int| 0 <= i < items.len() implies items_spans(items).contains(#[trigger] item_span(items[i])) by {
            if i == items.len() - 1 {
                assert(b[0] == item_span(items.last()));
                assert((a + b)[a.len() as int] == b[0]);
            } else {
                assert(d[i] == items[i]);
                let w = choose|j: int| 0 <= j < a.len() && a[j] == item_span(d[i]);
                assert((a + b)[w] == a[w]);
            }
        }
    }
}

/// The node spans come out sorted by start, one for each node visited, and among them
/// are the program's span and the span of every top-level item.
pub proof fn law_node_spans_sorted_and_complete(p: Program)
    ensures
        sorted_by_start(node_spans_spec(p)),
        node_spans_spec(p).len() == visited_spans(p).len(),
        forall|i: int| 0 <= i < visited_spans(p).len() ==> node_spans_spec(p).contains(#[trigger] visited_spans(p)[i]),
        node_spans_spec(p).contains(sp(p.span)),
        forall|i: int| 0 <= i < p.items@.len() ==> node_spans_spec(p).contains(#[trigger] item_span(p.items@[i])),
{
    let v = visited_spans(p);
    lemma_sort_by_start(v);
    assert(v[0] == sp(p.span));
    lemma_items_spans_hold_items(p.items@);
    assert forall|i: int| 0 <= i < p.items@.len() implies node_spans_spec(p).contains(#[trigger] item_span(p.items@[i])) by {
        let a = items_spans(p.items@);
        let w = choose|j: int| 0 <= j < a.len() && a[j] == item_span(p.items@[i]);
        assert(v[w + 1] == a[w]);
    }
}

} // verus!
