//! Layout of types, patterns, expressions and blocks.
use vstd::prelude::*;
use crate::formatter::comments::CommentMap;
use crate::formatter::doc::{
    flat_text, flat_texts, concat, group, hardline, if_break, intersperse, join, line, nest, nil, softline, space, text,
    views_of, Doc, DocView, INDENT_WIDTH,
};
use crate::lexer::token::{
    fixed_token_str, fixed_token_text, suffix_str, suffix_text, NumericSuffix, StringPart, Token,
    TokenKind,
};
use crate::parser::ast::{
    Block, ClosureBody, ClosureExpr, ClosureParam, ElsifClause, Expr, ExprKind, FieldPattern, GenericParam, GenericParams, MacroDelimiter, MatchArm, MatchArmBody, Pattern, Statement, TraitBound, TypeExpr, TypePath, VariantArg, WhereClause, WherePredicate, BinOp, UnaryOp, strs,
};
use crate::text::{chars_of, decimal, join_sep, join_strings, push_char, push_decimal, push_str};

verus! {

// ─── Document shapes ────────────────────────────────────────────────

/// Literal text.
pub open spec fn tx(s: Seq<char>) -> DocView {
    DocView::Text(s)
}

/// A comma followed by a line break (a space when flat).
pub open spec fn comma_line() -> DocView {
    DocView::Concat(seq![tx(","@), DocView::Line])
}

/// The documents separated by `sep`.
pub open spec fn joined(sep: DocView, ds: Seq<DocView>) -> DocView {
    DocView::Concat(intersperse(sep, ds))
}

/// Indented by one step.
pub open spec fn nested(d: DocView) -> DocView {
    DocView::Nest(INDENT_WIDTH as int, Box::new(d))
}

/// A comma-separated list between `open` and `close`, one item per line when it does
/// not fit.
pub open spec fn list_in(open: Seq<char>, ds: Seq<DocView>, close: Seq<char>) -> DocView {
    DocView::Group(Box::new(DocView::Concat(seq![
        tx(open),
        nested(DocView::Concat(seq![DocView::Softline, joined(comma_line(), ds)])),
        DocView::Softline,
        tx(close),
    ])))
}

/// Like [`list_in`], with a trailing comma when the list is broken.
pub open spec fn list_in_trailing(open: Seq<char>, ds: Seq<DocView>, close: Seq<char>) -> DocView {
    DocView::Group(Box::new(DocView::Concat(seq![
        tx(open),
        nested(DocView::Concat(seq![
            DocView::Softline,
            joined(comma_line(), ds),
            DocView::IfBreak(Box::new(tx(","@)), Box::new(tx(Seq::empty()))),
        ])),
        DocView::Softline,
        tx(close),
    ])))
}

/// Call arguments: `()` when there are none, otherwise a parenthesised list with a
/// trailing comma when broken.
pub open spec fn call_args_doc(ds: Seq<DocView>) -> DocView {
    if ds.len() == 0 { tx("()"@) } else { list_in_trailing("("@, ds, ")"@) }
}

/// `body` on its own lines, indented one step.
pub open spec fn indented(body: DocView) -> DocView {
    nested(DocView::Concat(seq![DocView::Hardline, body]))
}

/// `head`, the indented body, and `end` on a line of its own.
pub open spec fn with_end(head: Seq<DocView>, body: DocView) -> DocView {
    DocView::Concat(head + seq![indented(body), DocView::Hardline, tx("end"@)])
}

/// Bounds separated by ` + `.
pub open spec fn plus_joined(ds: Seq<DocView>) -> DocView {
    joined(tx(" + "@), ds)
}

/// `a.b.c`, then `.v`; just `v` when the path is empty.
pub open spec fn dotted_variant(path: Seq<String>, v: Seq<char>) -> Seq<char> {
    if path.len() == 0 { v } else { join_sep(strs(path), "."@) + "."@ + v }
}

/// Documents for each of `ds`, each after a hard line break.
pub open spec fn after_hardlines(ds: Seq<DocView>) -> Seq<DocView> {
    Seq::new(ds.len(), |i: int| DocView::Concat(seq![DocView::Hardline, ds[i]]))
}

/// Documents for each of `ds`, each after a soft line break.
pub open spec fn after_softlines(ds: Seq<DocView>) -> Seq<DocView> {
    Seq::new(ds.len(), |i: int| DocView::Concat(seq![DocView::Softline, ds[i]]))
}

// ─── Literals ───────────────────────────────────────────────────────

/// The decimal form of a signed integer.
pub open spec fn int_text(v: i64) -> Seq<char> {
    if v < 0 { seq!['-'] + decimal((-v) as nat) } else { decimal(v as nat) }
}

/// Text with its suffix, if any.
pub open spec fn with_suffix(s: Seq<char>, suffix: Option<NumericSuffix>) -> Seq<char> {
    match suffix {
        Some(sf) => s + suffix_text(sf),
        None => s,
    }
}

/// `Display` for an `f64` writes a whole number without a point; such a number, an
/// optional minus sign and digits only, gets `.0`.
pub open spec fn is_whole_number_text(s: Seq<char>) -> bool {
    digits_part(s).len() > 0 && forall|i: int| 0 <= i < digits_part(s).len() ==> is_digit(#[trigger] digits_part(s)[i])
}

/// `s` without a leading minus sign.
pub open spec fn digits_part(s: Seq<char>) -> Seq<char> {
    if s.len() > 0 && s[0] == '-' { s.drop_first() } else { s }
}

/// A decimal digit.
pub open spec fn is_digit(c: char) -> bool {
    '0' <= c && c <= '9'
}

/// The text of a float literal.
pub open spec fn float_text(s: Seq<char>) -> Seq<char> {
    if is_whole_number_text(s) { s + ".0"@ } else { s }
}

/// The escape of one character inside a string literal.
pub open spec fn escape_in_string(c: char) -> Seq<char> {
    if c == '\\' { seq!['\\', '\\'] }
    else if c == '"' { seq!['\\', '"'] }
    else if c == '\n' { seq!['\\', 'n'] }
    else if c == '\t' { seq!['\\', 't'] }
    else if c == '\r' { seq!['\\', 'r'] }
    else { seq![c] }
}

/// A string with its special characters escaped.
pub open spec fn escaped(s: Seq<char>) -> Seq<char>
    decreases s.len(),
{
    if s.len() == 0 { Seq::empty() } else { escaped(s.drop_last()) + escape_in_string(s.last()) }
}

/// The escape of a character literal's character.
pub open spec fn escape_char_text(c: char) -> Seq<char> {
    if c == '\\' { seq!['\\', '\\'] }
    else if c == '\'' { seq!['\\', '\''] }
    else if c == '\n' { seq!['\\', 'n'] }
    else if c == '\t' { seq!['\\', 't'] }
    else if c == '\r' { seq!['\\', 'r'] }
    else { seq![c] }
}

/// The source form of a token inside an interpolation.
pub open spec fn token_text(k: TokenKind) -> Seq<char> {
    match k {
        TokenKind::Identifier(s) => s@,
        TokenKind::TypeIdentifier(s) => s@,
        TokenKind::IntLiteral(v, sf) => with_suffix(int_text(v), sf),
        TokenKind::FloatLiteral(s, sf) => with_suffix(s@, sf),
        TokenKind::StringLiteral(s) => seq!['"'] + s@ + seq!['"'],
        TokenKind::CharLiteral(c) => seq!['\'', c, '\''],
        TokenKind::DocComment(s) => "## "@ + s@,
        TokenKind::Lifetime(s) => seq!['\''] + s@,
        _ => fixed_token_text(k),
    }
}

/// The tokens of an interpolation, written out one after another.
pub open spec fn tokens_text(ts: Seq<Token>) -> Seq<char>
    decreases ts.len(),
{
    if ts.len() == 0 { Seq::empty() } else { tokens_text(ts.drop_last()) + token_text(ts.last().kind) }
}

/// The document of each piece of an interpolated string.
pub open spec fn part_doc(p: StringPart) -> DocView {
    match p {
        StringPart::Literal(s) => tx(escaped(s@)),
        StringPart::Expr(ts) => tx("#{"@ + tokens_text(ts@) + "}"@),
    }
}

/// An interpolated string: the pieces between quotes, embedded expressions kept as written.
pub open spec fn interpolated_doc(ps: Seq<StringPart>) -> DocView {
    DocView::Concat(seq![tx(seq!['"'])] + Seq::new(ps.len(), |i: int| part_doc(ps[i])) + seq![tx(seq!['"'])])
}

/// How a binary operator is written.
pub open spec fn bin_op_text(op: BinOp) -> Seq<char> {
    match op {
        BinOp::Add => "+"@, BinOp::Sub => "-"@, BinOp::Mul => "*"@, BinOp::Div => "/"@,
        BinOp::Mod => "%"@, BinOp::Eq => "=="@, BinOp::NotEq => "!="@, BinOp::Lt => "<"@,
        BinOp::Gt => ">"@, BinOp::LtEq => "<="@, BinOp::GtEq => ">="@, BinOp::And => "&&"@,
        BinOp::Or => "||"@, BinOp::BitAnd => "&"@, BinOp::BitOr => "|"@, BinOp::BitXor => "^"@,
        BinOp::Shl => "<<"@, BinOp::Shr => ">>"@,
    }
}

/// How a compound assignment operator is written; `=` for operators that have none.
pub open spec fn compound_op_text(op: BinOp) -> Seq<char> {
    match op {
        BinOp::Add => "+="@, BinOp::Sub => "-="@, BinOp::Mul => "*="@, BinOp::Div => "/="@,
        BinOp::Mod => "%="@, _ => "="@,
    }
}

/// How a unary operator is written.
pub open spec fn unary_op_text(op: UnaryOp) -> Seq<char> {
    match op {
        UnaryOp::Neg => "-"@,
        UnaryOp::Not => "!"@,
        UnaryOp::Deref => "*"@,
    }
}

/// The opening and closing delimiter of a macro call.
pub open spec fn delimiters(d: MacroDelimiter) -> (Seq<char>, Seq<char>) {
    match d {
        MacroDelimiter::Paren => ("("@, ")"@),
        MacroDelimiter::Bracket => ("["@, "]"@),
        MacroDelimiter::Brace => ("{"@, "}"@),
    }
}

/// A control-flow or block expression: one that is not laid out inline.
pub open spec fn is_compound_kind(k: ExprKind) -> bool {
    k is If || k is IfLet || k is Match || k is While || k is WhileLet || k is For || k is Loop
        || k is Block || k is Closure || k is UnsafeBlock
}

/// An expression that begins a method chain: a field access or method call.
pub open spec fn is_chain_start(e: Expr) -> bool {
    e.kind is MethodCall || e.kind is FieldAccess
}

/// The parts after a call's callee: the arguments when there are any or a block
/// follows, then the block.
pub open spec fn call_tail(args: Seq<DocView>, block: Option<DocView>) -> Seq<DocView> {
    let a = if args.len() > 0 || block is Some { seq![call_args_doc(args)] } else { Seq::empty() };
    match block {
        Some(b) => a + seq![tx(" "@), b],
        None => a,
    }
}

/// `head` followed by a list between `open` and `close`, all in one group.
pub open spec fn list_after(head: DocView, open: Seq<char>, ds: Seq<DocView>, close: Seq<char>) -> DocView {
    DocView::Group(Box::new(DocView::Concat(seq![
        head,
        tx(open),
        nested(DocView::Concat(seq![DocView::Softline, joined(comma_line(), ds)])),
        DocView::Softline,
        tx(close),
    ])))
}

/// A comma followed by a space.
pub open spec fn comma_space() -> DocView {
    DocView::Concat(seq![tx(","@), tx(seq![' '])])
}

/// A receiver followed by its chain of field accesses and method calls: inline when there
/// is at most one link; otherwise a group that breaks before each link.
pub open spec fn chain_layout(c: (DocView, Seq<DocView>)) -> DocView {
    let (r, ls) = c;
    if ls.len() <= 1 {
        DocView::Concat(seq![r] + ls)
    } else {
        DocView::Group(Box::new(DocView::Concat(seq![r, nested(DocView::Concat(after_softlines(ls)))])))
    }
}

// ─── Types ──────────────────────────────────────────────────────────

/// The layout of a type.
pub open spec fn type_doc(t: TypeExpr) -> DocView
    decreases t, 1nat,
{
    match t {
        TypeExpr::Named(p) => type_path_doc(p),
        TypeExpr::Reference { lifetime, mutable, inner, .. } => {
            let p1 = seq![tx("&"@)];
            let p2 = match lifetime {
                Some(lt) => p1.push(tx(seq!['\''] + lt@ + seq![' '])),
                None => p1,
            };
            let p3 = if mutable { p2.push(tx("mut "@)) } else { p2 };
            DocView::Concat(p3.push(type_doc(*inner)))
        },
        TypeExpr::Tuple { elements, .. } => {
            if elements@.len() == 0 { tx("()"@) } else { list_in("("@, types_docs(elements@), ")"@) }
        },
        TypeExpr::Array { element, size, .. } => {
            let p1 = seq![tx("["@), type_doc(*element)];
            let p2 = match size {
                Some(sz) => p1.push(tx("; "@)).push(expr_doc(*sz)),
                None => p1,
            };
            DocView::Concat(p2.push(tx("]"@)))
        },
        TypeExpr::Function { params, return_type, .. } => {
            let pd = if params@.len() == 0 { tx("()"@) } else { list_in("("@, types_docs(params@), ")"@) };
            DocView::Concat(seq![tx("Fn"@), pd, tx(" -> "@), type_doc(*return_type)])
        },
        TypeExpr::ImplTrait { bounds, .. } => DocView::Concat(seq![tx("impl "@), plus_joined(bounds_docs(bounds@))]),
        TypeExpr::DynTrait { bounds, .. } => DocView::Concat(seq![tx("dyn "@), plus_joined(bounds_docs(bounds@))]),
        TypeExpr::Never { .. } => tx("!"@),
        TypeExpr::Inferred { .. } => tx("_"@),
        TypeExpr::RawPointer { mutable, inner, .. } => {
            DocView::Concat(seq![tx(if mutable { "*mut "@ } else { "*"@ }), type_doc(*inner)])
        },
    }
}

/// The layout of a type path: its segments joined by dots, then its generic arguments
/// in brackets when there are any.
pub open spec fn type_path_doc(p: TypePath) -> DocView
    decreases p, 1nat,
{
    let seg = tx(join_sep(strs(p.segments@), "."@));
    match p.generic_args {
        None => seg,
        Some(args) => if args@.len() == 0 { seg } else { list_after(seg, "["@, types_docs(args@), "]"@) },
    }
}

/// The layouts of a list of types.
pub open spec fn types_docs(ts: Seq<TypeExpr>) -> Seq<DocView>
    decreases ts, 0nat,
{
    if ts.len() == 0 {
        Seq::empty()
    } else {
        proof { assert(decreases_to!(ts => ts.drop_last())); }
        types_docs(ts.drop_last()).push(type_doc(ts.last()))
    }
}

/// The layouts of a list of trait bounds.
pub open spec fn bounds_docs(bs: Seq<TraitBound>) -> Seq<DocView>
    decreases bs, 0nat,
{
    if bs.len() == 0 {
        Seq::empty()
    } else {
        proof { assert(decreases_to!(bs => bs.drop_last())); }
        bounds_docs(bs.drop_last()).push(type_path_doc(bs.last().path))
    }
}

/// The layout of a generic parameter.
pub open spec fn generic_param_doc(p: GenericParam) -> DocView
    decreases p, 1nat,
{
    match p {
        GenericParam::Lifetime { name } => tx(seq!['\''] + name@),
        GenericParam::Type { name, bounds } => {
            if bounds@.len() == 0 {
                tx(name@)
            } else {
                DocView::Concat(seq![tx(name@), tx(": "@), plus_joined(bounds_docs(bounds@))])
            }
        },
    }
}

/// The layouts of a list of generic parameters.
pub open spec fn generic_params_docs(ps: Seq<GenericParam>) -> Seq<DocView>
    decreases ps, 0nat,
{
    if ps.len() == 0 {
        Seq::empty()
    } else {
        proof { assert(decreases_to!(ps => ps.drop_last())); }
        generic_params_docs(ps.drop_last()).push(generic_param_doc(ps.last()))
    }
}

/// The layout of generic parameters: a bracketed list.
pub open spec fn generic_params_doc(gp: GenericParams) -> DocView
    decreases gp, 1nat,
{
    list_in("["@, generic_params_docs(gp.params@), "]"@)
}

/// The layout of one `where` predicate.
pub open spec fn where_pred_doc(p: WherePredicate) -> DocView
    decreases p, 1nat,
{
    DocView::Concat(seq![type_doc(p.type_expr), tx(": "@), plus_joined(bounds_docs(p.bounds@))])
}

/// The layouts of a list of `where` predicates.
pub open spec fn where_preds_docs(ps: Seq<WherePredicate>) -> Seq<DocView>
    decreases ps, 0nat,
{
    if ps.len() == 0 {
        Seq::empty()
    } else {
        proof { assert(decreases_to!(ps => ps.drop_last())); }
        where_preds_docs(ps.drop_last()).push(where_pred_doc(ps.last()))
    }
}

/// A `where` clause: on the same line when it has one predicate, otherwise one
/// predicate per line, each ending with a comma.
pub open spec fn where_clause_doc(wc: WhereClause) -> DocView
    decreases wc, 1nat,
{
    let preds = where_preds_docs(wc.predicates@);
    if preds.len() == 1 {
        DocView::Group(Box::new(DocView::Concat(seq![tx(" where "@), preds[0]])))
    } else {
        DocView::Group(Box::new(DocView::Concat(seq![
            DocView::Hardline,
            tx("where"@),
            nested(DocView::Concat(
                Seq::new(preds.len(), |i: int| DocView::Concat(seq![DocView::Hardline, preds[i], tx(","@)])),
            )),
        ])))
    }
}

// ─── Patterns ───────────────────────────────────────────────────────

/// The layout of a pattern.
pub open spec fn pattern_doc(p: Pattern) -> DocView
    decreases p, 1nat,
{
    match p {
        Pattern::Literal { expr, .. } => expr_doc(*expr),
        Pattern::Identifier { mutable, name, .. } => {
            if mutable { DocView::Concat(seq![tx("mut "@), tx(name@)]) } else { tx(name@) }
        },
        Pattern::Wildcard { .. } => tx("_"@),
        Pattern::Tuple { elements, .. } => list_in("("@, patterns_docs(elements@), ")"@),
        Pattern::Enum { path, variant, fields, .. } => {
            let ps = dotted_variant(path@, variant@);
            if fields@.len() == 0 { tx(ps) } else { list_after(tx(ps), "("@, patterns_docs(fields@), ")"@) }
        },
        Pattern::Struct { path, fields, rest, .. } => {
            let fds = field_patterns_docs(fields@);
            let all = if rest { fds.push(tx(".."@)) } else { fds };
            DocView::Group(Box::new(DocView::Concat(seq![
                tx(join_sep(strs(path@), "."@)),
                tx(" { "@),
                nested(joined(comma_line(), all)),
                tx(" }"@),
            ])))
        },
        Pattern::Or { patterns, .. } => joined(tx(" | "@), patterns_docs(patterns@)),
        Pattern::Ref { mutable, name, .. } => {
            DocView::Concat(seq![tx(if mutable { "ref mut "@ } else { "ref "@ }), tx(name@)])
        },
        Pattern::Rest { .. } => tx(".."@),
    }
}

/// The layouts of a list of patterns.
pub open spec fn patterns_docs(ps: Seq<Pattern>) -> Seq<DocView>
    decreases ps, 0nat,
{
    if ps.len() == 0 {
        Seq::empty()
    } else {
        proof { assert(decreases_to!(ps => ps.drop_last())); }
        patterns_docs(ps.drop_last()).push(pattern_doc(ps.last()))
    }
}

/// The layout of a struct pattern's field: `name: pattern`, or the pattern alone.
pub open spec fn field_pattern_doc(f: FieldPattern) -> DocView
    decreases f, 1nat,
{
    match f.name {
        Some(n) => DocView::Concat(seq![tx(n@), tx(": "@), pattern_doc(f.pattern)]),
        None => pattern_doc(f.pattern),
    }
}

/// The layouts of a list of struct pattern fields.
pub open spec fn field_patterns_docs(fs: Seq<FieldPattern>) -> Seq<DocView>
    decreases fs, 0nat,
{
    if fs.len() == 0 {
        Seq::empty()
    } else {
        proof { assert(decreases_to!(fs => fs.drop_last())); }
        field_patterns_docs(fs.drop_last()).push(field_pattern_doc(fs.last()))
    }
}

// ─── Expressions ────────────────────────────────────────────────────

/// The layout of an expression. A field access or method call on another field access or
/// method call is laid out as a chain.
pub open spec fn expr_doc(e: Expr) -> DocView
    decreases e, 2nat,
{
    match e.kind {
        ExprKind::FieldAccess { object, .. } => if is_chain_start(*object) { chain_layout(chain(e)) } else { plain_doc(e) },
        ExprKind::MethodCall { object, .. } => if is_chain_start(*object) { chain_layout(chain(e)) } else { plain_doc(e) },
        _ => plain_doc(e),
    }
}

/// The layout of an optional block argument.
pub open spec fn block_arg_doc(b: Option<Box<Expr>>) -> Option<DocView>
    decreases b, 0nat,
{
    match b {
        Some(x) => Some(expr_doc(*x)),
        None => None,
    }
}

/// A chain of field accesses and method calls: the layout of its receiver, and one
/// document per link, innermost first.
pub open spec fn chain(e: Expr) -> (DocView, Seq<DocView>)
    decreases e, 1nat,
{
    match e.kind {
        ExprKind::FieldAccess { object, field } => {
            let (r, ls) = chain(*object);
            (r, ls.push(DocView::Concat(seq![tx("."@), tx(field@)])))
        },
        ExprKind::MethodCall { object, method, args, block } => {
            let (r, ls) = chain(*object);
            (r, ls.push(DocView::Concat(seq![tx("."@), tx(method@)] + call_tail(exprs_docs(args@), block_arg_doc(block)))))
        },
        _ => (plain_doc(e), Seq::empty()),
    }
}

/// The parts of an optional expression: its layout, or nothing.
pub open spec fn opt_expr_docs(x: Option<Box<Expr>>) -> Seq<DocView>
    decreases x, 0nat,
{
    match x {
        Some(v) => seq![expr_doc(*v)],
        None => Seq::empty(),
    }
}

/// The layout of an expression, taking a field access or method call as a single link.
pub open spec fn plain_doc(e: Expr) -> DocView
    decreases e, 0nat,
{
    match e.kind {
        ExprKind::IntLiteral(v, sf) => tx(with_suffix(int_text(v), sf)),
        ExprKind::FloatLiteral(s, sf) => tx(with_suffix(float_text(s@), sf)),
        ExprKind::StringLiteral(s) => tx(seq!['"'] + escaped(s@) + seq!['"']),
        ExprKind::InterpolatedString(ps) => interpolated_doc(ps@),
        ExprKind::CharLiteral(c) => tx(seq!['\''] + escape_char_text(c) + seq!['\'']),
        ExprKind::BoolLiteral(b) => tx(if b { "true"@ } else { "false"@ }),
        ExprKind::UnitLiteral => tx("()"@),
        ExprKind::NullLiteral => tx("null"@),
        ExprKind::Identifier(n) => tx(n@),
        ExprKind::SelfRef => tx("self"@),
        ExprKind::SelfType => tx("Self"@),
        ExprKind::BinaryOp { left, op, right } => DocView::Group(Box::new(DocView::Concat(seq![
            expr_doc(*left),
            tx(" "@),
            tx(bin_op_text(op)),
            DocView::Line,
            expr_doc(*right),
        ]))),
        ExprKind::UnaryOp { op, operand } => DocView::Concat(seq![tx(unary_op_text(op)), expr_doc(*operand)]),
        ExprKind::Borrow(x) => DocView::Concat(seq![tx("&"@), expr_doc(*x)]),
        ExprKind::BorrowMut(x) => DocView::Concat(seq![tx("&mut "@), expr_doc(*x)]),
        ExprKind::FieldAccess { object, field } => DocView::Concat(seq![expr_doc(*object), tx("."@), tx(field@)]),
        ExprKind::MethodCall { object, method, args, block } => DocView::Concat(
            seq![expr_doc(*object), tx("."@), tx(method@)] + call_tail(exprs_docs(args@), block_arg_doc(block)),
        ),
        ExprKind::SafeNav { object, field } => DocView::Concat(seq![expr_doc(*object), tx("?."@), tx(field@)]),
        ExprKind::SafeNavCall { object, method, args } => DocView::Concat(
            seq![expr_doc(*object), tx("?."@), tx(method@), call_args_doc(exprs_docs(args@))],
        ),
        ExprKind::Call { callee, args, block } => DocView::Concat(
            seq![expr_doc(*callee)] + call_tail(exprs_docs(args@), block_arg_doc(block)),
        ),
        ExprKind::Index { object, index } => DocView::Concat(seq![expr_doc(*object), tx("["@), expr_doc(*index), tx("]"@)]),
        ExprKind::ClosureCall { callee, args } => DocView::Concat(
            seq![expr_doc(*callee), tx(".("@), joined(comma_line(), exprs_docs(args@)), tx(")"@)],
        ),
        ExprKind::Try(x) => DocView::Concat(seq![expr_doc(*x), tx("?"@)]),
        ExprKind::Assign { target, value } => DocView::Group(Box::new(DocView::Concat(
            seq![expr_doc(*target), tx(" = "@), nested(expr_doc(*value))],
        ))),
        ExprKind::CompoundAssign { target, op, value } => DocView::Group(Box::new(DocView::Concat(
            seq![expr_doc(*target), tx(" "@), tx(compound_op_text(op)), tx(" "@), nested(expr_doc(*value))],
        ))),
        ExprKind::If(ie) => DocView::Concat(
            seq![tx("if "@), expr_doc(*ie.condition), indented(block_body_doc(ie.then_body))]
                + elsifs_parts(ie.elsif_clauses@) + else_parts(ie.else_body) + seq![DocView::Hardline, tx("end"@)],
        ),
        ExprKind::IfLet(il) => DocView::Concat(
            seq![
                tx("if let "@),
                pattern_doc(il.pattern),
                tx(" = "@),
                expr_doc(*il.value),
                indented(block_body_doc(il.then_body)),
            ] + else_parts(il.else_body) + seq![DocView::Hardline, tx("end"@)],
        ),
        ExprKind::Match(m) => DocView::Concat(seq![
            tx("match "@),
            expr_doc(*m.subject),
            nested(DocView::Concat(after_hardlines(arms_docs(m.arms@)))),
            DocView::Hardline,
            tx("end"@),
        ]),
        ExprKind::While(w) => with_end(seq![tx("while "@), expr_doc(*w.condition)], block_body_doc(w.body)),
        ExprKind::WhileLet(wl) => with_end(
            seq![tx("while let "@), pattern_doc(wl.pattern), tx(" = "@), expr_doc(*wl.value)],
            block_body_doc(wl.body),
        ),
        ExprKind::For(f) => with_end(
            seq![tx("for "@), pattern_doc(f.pattern), tx(" in "@), expr_doc(*f.iterable)],
            block_body_doc(f.body),
        ),
        ExprKind::Loop(l) => with_end(seq![tx("loop"@)], block_body_doc(l.body)),
        ExprKind::Block(b) => if b.statements@.len() == 0 { tx(Seq::empty()) } else { block_body_doc(b) },
        ExprKind::Closure(c) => closure_doc(c),
        ExprKind::Range { start, end, inclusive } => DocView::Concat(
            opt_expr_docs(start) + seq![tx(if inclusive { "..="@ } else { ".."@ })] + opt_expr_docs(end),
        ),
        ExprKind::ArrayLiteral(es) => if es@.len() == 0 { tx("[]"@) } else { list_in_trailing("["@, exprs_docs(es@), "]"@) },
        ExprKind::ArrayFill { value, count } => DocView::Concat(
            seq![tx("["@), expr_doc(*value), tx("; "@), expr_doc(*count), tx("]"@)],
        ),
        ExprKind::TupleLiteral(es) => if es@.len() == 0 { tx("()"@) } else { list_in_trailing("("@, exprs_docs(es@), ")"@) },
        ExprKind::Return(v) => match v {
            Some(x) => DocView::Group(Box::new(DocView::Concat(seq![tx("return "@), nested(expr_doc(*x))]))),
            None => tx("return"@),
        },
        ExprKind::Break(v) => match v {
            Some(x) => DocView::Group(Box::new(DocView::Concat(seq![tx("break "@), nested(expr_doc(*x))]))),
            None => tx("break"@),
        },
        ExprKind::Continue => tx("continue"@),
        ExprKind::Yield(es) => if es@.len() == 0 {
            tx("yield"@)
        } else {
            DocView::Concat(seq![tx("yield "@), joined(comma_space(), exprs_docs(es@))])
        },
        ExprKind::MacroCall { name, args, delimiter } => {
            let (open, close) = delimiters(delimiter);
            DocView::Concat(seq![tx(name@ + "!"@), list_in_trailing(open, exprs_docs(args@), close)])
        },
        ExprKind::Cast { expr, target_type } => DocView::Concat(seq![expr_doc(*expr), tx(" as "@), type_doc(target_type)]),
        ExprKind::EnumVariant { type_path, variant, args } => {
            let ps = dotted_variant(type_path@, variant@);
            if args@.len() == 0 { tx(ps) } else { DocView::Concat(seq![tx(ps), call_args_doc(variant_args_docs(args@))]) }
        },
        ExprKind::UnsafeBlock(b) => with_end(seq![tx("unsafe"@)], block_body_doc(b)),
    }
}

/// The layouts of a list of expressions.
pub open spec fn exprs_docs(es: Seq<Expr>) -> Seq<DocView>
    decreases es, 0nat,
{
    if es.len() == 0 {
        Seq::empty()
    } else {
        proof { assert(decreases_to!(es => es.drop_last())); }
        exprs_docs(es.drop_last()).push(expr_doc(es.last()))
    }
}

/// The layout of a variant construction's argument: `name: value`, or the value alone.
pub open spec fn variant_arg_doc(a: VariantArg) -> DocView
    decreases a, 1nat,
{
    match a.name {
        Some(n) => DocView::Concat(seq![tx(n@), tx(": "@), expr_doc(a.value)]),
        None => expr_doc(a.value),
    }
}

/// The layouts of a list of variant construction arguments.
pub open spec fn variant_args_docs(args: Seq<VariantArg>) -> Seq<DocView>
    decreases args, 0nat,
{
    if args.len() == 0 {
        Seq::empty()
    } else {
        proof { assert(decreases_to!(args => args.drop_last())); }
        variant_args_docs(args.drop_last()).push(variant_arg_doc(args.last()))
    }
}

/// The parts of the `elsif` clauses.
pub open spec fn elsifs_parts(cs: Seq<ElsifClause>) -> Seq<DocView>
    decreases cs, 0nat,
{
    if cs.len() == 0 {
        Seq::empty()
    } else {
        proof { assert(decreases_to!(cs => cs.drop_last())); }
        elsifs_parts(cs.drop_last()) + elsif_parts(cs.last())
    }
}

/// The parts of one `elsif` clause.
pub open spec fn elsif_parts(c: ElsifClause) -> Seq<DocView>
    decreases c, 1nat,
{
    seq![DocView::Hardline, tx("elsif "@), expr_doc(c.condition), indented(block_body_doc(c.body))]
}

/// The parts of an `else` branch, if any.
pub open spec fn else_parts(b: Option<Block>) -> Seq<DocView>
    decreases b, 0nat,
{
    match b {
        Some(body) => seq![DocView::Hardline, tx("else"@), indented(block_body_doc(body))],
        None => Seq::empty(),
    }
}

/// The layout of a match arm's pattern and guard.
pub open spec fn arm_pattern_doc(a: MatchArm) -> DocView
    decreases a, 0nat,
{
    let pd = pattern_doc(a.pattern);
    match a.guard {
        Some(g) => DocView::Concat(seq![pd, tx(" if "@), expr_doc(*g)]),
        None => pd,
    }
}

/// The layout of a match arm: `pattern -> expr`; a block body of one statement inline,
/// of several on indented lines closed by `end`.
pub open spec fn arm_doc(a: MatchArm) -> DocView
    decreases a, 1nat,
{
    let pd = arm_pattern_doc(a);
    match a.body {
        MatchArmBody::Expr(x) => DocView::Group(Box::new(DocView::Concat(seq![pd, tx(" -> "@), expr_doc(x)]))),
        MatchArmBody::Block(b) => {
            if b.statements@.len() == 0 {
                DocView::Concat(seq![pd, tx(" ->"@)])
            } else if b.statements@.len() == 1 {
                DocView::Group(Box::new(DocView::Concat(seq![pd, tx(" -> "@), block_body_doc(b)])))
            } else {
                with_end(seq![pd, tx(" ->"@)], block_body_doc(b))
            }
        },
    }
}

/// The layouts of a list of match arms.
pub open spec fn arms_docs(arms: Seq<MatchArm>) -> Seq<DocView>
    decreases arms, 0nat,
{
    if arms.len() == 0 {
        Seq::empty()
    } else {
        proof { assert(decreases_to!(arms => arms.drop_last())); }
        arms_docs(arms.drop_last()).push(arm_doc(arms.last()))
    }
}

// ─── Blocks and statements ──────────────────────────────────────────

/// The statements of a block, one per line.
pub open spec fn block_body_doc(b: Block) -> DocView
    decreases b, 1nat,
{
    joined(DocView::Hardline, stmts_docs(b.statements@))
}

/// The layout of a statement.
pub open spec fn stmt_doc(s: Statement) -> DocView
    decreases s, 1nat,
{
    match s {
        Statement::Let(l) => {
            let p1 = seq![tx("let "@)];
            let p2 = if l.mutable { p1.push(tx("mut "@)) } else { p1 };
            let p3 = p2.push(pattern_doc(l.pattern));
            let p4 = match l.type_annotation {
                Some(t) => p3.push(tx(": "@)).push(type_doc(t)),
                None => p3,
            };
            let p5 = match l.value {
                Some(v) => p4.push(tx(" = "@)).push(nested(expr_doc(v))),
                None => p4,
            };
            DocView::Group(Box::new(DocView::Concat(p5)))
        },
        Statement::Expression(x) => expr_doc(x),
    }
}

/// The layouts of a list of statements.
pub open spec fn stmts_docs(ss: Seq<Statement>) -> Seq<DocView>
    decreases ss, 0nat,
{
    if ss.len() == 0 {
        Seq::empty()
    } else {
        proof { assert(decreases_to!(ss => ss.drop_last())); }
        stmts_docs(ss.drop_last()).push(stmt_doc(ss.last()))
    }
}

// ─── Closures ───────────────────────────────────────────────────────

/// The layout of a closure parameter.
pub open spec fn closure_param_doc(p: ClosureParam) -> DocView
    decreases p, 1nat,
{
    match p.type_expr {
        Some(t) => DocView::Concat(seq![tx(p.name@), tx(": "@), type_doc(t)]),
        None => tx(p.name@),
    }
}

/// The layouts of a list of closure parameters.
pub open spec fn closure_params_docs(ps: Seq<ClosureParam>) -> Seq<DocView>
    decreases ps, 0nat,
{
    if ps.len() == 0 {
        Seq::empty()
    } else {
        proof { assert(decreases_to!(ps => ps.drop_last())); }
        closure_params_docs(ps.drop_last()).push(closure_param_doc(ps.last()))
    }
}

/// `|a, b|`, or nothing when there are no parameters.
pub open spec fn closure_params_doc(ps: Seq<ClosureParam>) -> DocView
    decreases ps, 1nat,
{
    if ps.len() == 0 {
        tx(Seq::empty())
    } else {
        DocView::Concat(seq![tx("|"@), joined(comma_space(), closure_params_docs(ps)), tx("|"@)])
    }
}

/// `do |params| ... end` around a body.
pub open spec fn do_form(params: DocView, body: DocView) -> DocView {
    with_end(seq![tx("do "@), params], body)
}

/// `{ |params| body }`.
pub open spec fn brace_form(params: DocView, body: DocView) -> DocView {
    DocView::Group(Box::new(DocView::Concat(seq![tx("{ "@), params, tx(" "@), body, tx(" }"@)])))
}

/// The layout of a closure: an expression body in braces; a block of at most one
/// statement in braces when it fits and as `do ... end` otherwise; a longer block as
/// `do ... end`.
pub open spec fn closure_doc(c: ClosureExpr) -> DocView
    decreases c, 1nat,
{
    let pd = closure_params_doc(c.params@);
    match c.body {
        ClosureBody::Expr(x) => brace_form(pd, expr_doc(*x)),
        ClosureBody::Block(b) => {
            let bd = block_body_doc(b);
            if b.statements@.len() <= 1 {
                DocView::Group(Box::new(DocView::IfBreak(Box::new(do_form(pd, bd)), Box::new(brace_form(pd, bd)))))
            } else {
                do_form(pd, bd)
            }
        },
    }
}


/// The lexer token a binary operator is read from.
pub open spec fn op_token(op: BinOp) -> TokenKind {
    match op {
        BinOp::Add => TokenKind::Plus, BinOp::Sub => TokenKind::Minus, BinOp::Mul => TokenKind::Star,
        BinOp::Div => TokenKind::Slash, BinOp::Mod => TokenKind::Percent, BinOp::Eq => TokenKind::EqEq,
        BinOp::NotEq => TokenKind::NotEq, BinOp::Lt => TokenKind::Lt, BinOp::Gt => TokenKind::Gt,
        BinOp::LtEq => TokenKind::LtEq, BinOp::GtEq => TokenKind::GtEq, BinOp::And => TokenKind::AmpAmp,
        BinOp::Or => TokenKind::PipePipe, BinOp::BitAnd => TokenKind::Amp, BinOp::BitOr => TokenKind::Pipe,
        BinOp::BitXor => TokenKind::Caret, BinOp::Shl => TokenKind::Shl, BinOp::Shr => TokenKind::Shr,
    }
}

/// Formatting preserves each binary operator: it is written as the token it is read
/// from, and two different operators are never written alike.
pub proof fn law_binary_operator_preserved(op: BinOp, other: BinOp)
    ensures
        bin_op_text(op) == fixed_token_text(op_token(op)),
        bin_op_text(op) == bin_op_text(other) ==> op == other,
{
    reveal_strlit("+");
    reveal_strlit("-");
    reveal_strlit("*");
    reveal_strlit("/");
    reveal_strlit("%");
    reveal_strlit("==");
    reveal_strlit("!=");
    reveal_strlit("<");
    reveal_strlit(">");
    reveal_strlit("<=");
    reveal_strlit(">=");
    reveal_strlit("&&");
    reveal_strlit("||");
    reveal_strlit("&");
    reveal_strlit("|");
    reveal_strlit("^");
    reveal_strlit("<<");
    reveal_strlit(">>");
    let a = bin_op_text(op);
    let b = bin_op_text(other);
    if a == b && op != other {
        assert(a.len() == b.len());
        assert(a[0] == b[0]);
        if a.len() > 1 {
            assert(a[1] == b[1]);
        }
    }
}

proof fn lemma_flat_texts_push(ds: Seq<DocView>, d: DocView)
    ensures
        flat_texts(ds.push(d)) == flat_texts(ds) + flat_text(d),
{
    assert(ds.push(d).drop_last() =~= ds);
}

/// The lexer token a unary operator is read from.
pub open spec fn unary_token(op: UnaryOp) -> TokenKind {
    match op {
        UnaryOp::Neg => TokenKind::Minus,
        UnaryOp::Not => TokenKind::Bang,
        UnaryOp::Deref => TokenKind::Star,
    }
}

/// A unary operator is written as the token it is read from; a compound assignment
/// `x op= y` as the binary operator's token followed by `=` for `+ - * / %`, and as a
/// plain `=` for the other operators.
pub proof fn law_unary_and_compound_operators_preserved(u: UnaryOp, op: BinOp)
    ensures
        unary_op_text(u) == fixed_token_text(unary_token(u)),
        (op is Add || op is Sub || op is Mul || op is Div || op is Mod) ==> compound_op_text(op) == bin_op_text(op) + seq!['='],
        !(op is Add || op is Sub || op is Mul || op is Div || op is Mod) ==> compound_op_text(op) == seq!['='],
{
    reveal_strlit("+");
    reveal_strlit("-");
    reveal_strlit("*");
    reveal_strlit("/");
    reveal_strlit("%");
    reveal_strlit("!");
    reveal_strlit("=");
    reveal_strlit("+=");
    reveal_strlit("-=");
    reveal_strlit("*=");
    reveal_strlit("/=");
    reveal_strlit("%=");
    assert("+="@ =~= "+"@ + seq!['=']);
    assert("-="@ =~= "-"@ + seq!['=']);
    assert("*="@ =~= "*"@ + seq!['=']);
    assert("/="@ =~= "/"@ + seq!['=']);
    assert("%="@ =~= "%"@ + seq!['=']);
    assert("="@ =~= seq!['=']);
}

/// On one line, a binary expression reads: its left operand, a space, the token of its
/// operator, a space, its right operand.
pub proof fn law_binary_expression_flat_text(e: Expr)
    requires
        e.kind is BinaryOp,
    ensures
        ({
            let (l, op, r) = match e.kind {
                ExprKind::BinaryOp { left, op, right } => (*left, op, *right),
                _ => (e, BinOp::Add, e),
            };
            flat_text(expr_doc(e)) == flat_text(expr_doc(l)) + seq![' '] + fixed_token_text(op_token(op)) + seq![' ']
                + flat_text(expr_doc(r))
        }),
{
    match e.kind {
        ExprKind::BinaryOp { left, op, right } => {
            law_binary_operator_preserved(op, op);
            let parts = seq![expr_doc(*left), tx(" "@), tx(bin_op_text(op)), DocView::Line, expr_doc(*right)];
            assert(expr_doc(e) == DocView::Group(Box::new(DocView::Concat(parts))));
            reveal_strlit(" ");
            let l = expr_doc(*left);
            let r = expr_doc(*right);
            let p0 = Seq::<DocView>::empty();
            lemma_flat_texts_push(p0, l);
            lemma_flat_texts_push(p0.push(l), tx(" "@));
            lemma_flat_texts_push(p0.push(l).push(tx(" "@)), tx(bin_op_text(op)));
            lemma_flat_texts_push(p0.push(l).push(tx(" "@)).push(tx(bin_op_text(op))), DocView::Line);
            lemma_flat_texts_push(p0.push(l).push(tx(" "@)).push(tx(bin_op_text(op))).push(DocView::Line), r);
            assert(parts =~= p0.push(l).push(tx(" "@)).push(tx(bin_op_text(op))).push(DocView::Line).push(r));
            assert(flat_texts(p0) =~= Seq::<char>::empty());
            assert(" "@ =~= seq![' ']);
            assert(flat_texts(parts) =~= flat_text(l) + seq![' '] + fixed_token_text(op_token(op)) + seq![' '] + flat_text(r));
            assert(flat_text(expr_doc(e)) == flat_text(DocView::Concat(parts)));
            assert(flat_text(expr_doc(e)) == flat_texts(parts));
        },
        _ => {},
    }
}

// ─── Building documents ─────────────────────────────────────────────

/// An empty list of documents.
pub fn docs0() -> (v: Vec<Doc>)
    ensures
        views_of(v@) == Seq::<DocView>::empty(),
{
    let v: Vec<Doc> = Vec::new();
    proof { assert(views_of(v@) =~= Seq::<DocView>::empty()); }
    v
}

/// Appends a document.
pub fn push_doc(v: &mut Vec<Doc>, d: Doc)
    ensures
        views_of(final(v)@) == views_of(old(v)@).push(d@),
{
    let ghost dv = d@;
    v.push(d);
    proof { assert(views_of(v@) =~= views_of(old(v)@).push(dv)); }
}

/// Appends documents.
pub fn append_docs(v: &mut Vec<Doc>, w: Vec<Doc>)
    ensures
        views_of(final(v)@) == views_of(old(v)@) + views_of(w@),
{
    let ghost wv = views_of(w@);
    let mut w = w;
    v.append(&mut w);
    proof { assert(views_of(v@) =~= views_of(old(v)@) + wv); }
}

pub fn c2(a: Doc, b: Doc) -> (d: Doc)
    ensures
        d@ == DocView::Concat(seq![a@, b@]),
{
    let ghost vs = seq![a@, b@];
    let mut v = docs0();
    push_doc(&mut v, a);
    push_doc(&mut v, b);
    proof { assert(views_of(v@) =~= vs); }
    concat(v)
}

pub fn c3(a: Doc, b: Doc, c: Doc) -> (d: Doc)
    ensures
        d@ == DocView::Concat(seq![a@, b@, c@]),
{
    let ghost vs = seq![a@, b@, c@];
    let mut v = docs0();
    push_doc(&mut v, a);
    push_doc(&mut v, b);
    push_doc(&mut v, c);
    proof { assert(views_of(v@) =~= vs); }
    concat(v)
}

pub fn c4(a: Doc, b: Doc, c: Doc, e: Doc) -> (d: Doc)
    ensures
        d@ == DocView::Concat(seq![a@, b@, c@, e@]),
{
    let ghost vs = seq![a@, b@, c@, e@];
    let mut v = docs0();
    push_doc(&mut v, a);
    push_doc(&mut v, b);
    push_doc(&mut v, c);
    push_doc(&mut v, e);
    proof { assert(views_of(v@) =~= vs); }
    concat(v)
}

pub fn c5(a: Doc, b: Doc, c: Doc, e: Doc, f: Doc) -> (d: Doc)
    ensures
        d@ == DocView::Concat(seq![a@, b@, c@, e@, f@]),
{
    let ghost vs = seq![a@, b@, c@, e@, f@];
    let mut v = docs0();
    push_doc(&mut v, a);
    push_doc(&mut v, b);
    push_doc(&mut v, c);
    push_doc(&mut v, e);
    push_doc(&mut v, f);
    proof { assert(views_of(v@) =~= vs); }
    concat(v)
}

/// Text holding a copy of `s`.
pub fn tx_string(s: &String) -> (d: Doc)
    ensures
        d@ == tx(s@),
{
    text(s.as_str())
}

pub fn nested_x(d: Doc) -> (r: Doc)
    ensures
        r@ == nested(d@),
{
    nest(INDENT_WIDTH, d)
}

fn comma_line_x() -> (d: Doc)
    ensures
        d@ == comma_line(),
{
    c2(text(","), line())
}

pub fn comma_space_x() -> (d: Doc)
    ensures
        d@ == comma_space(),
{
    c2(text(","), space())
}

fn list_in_x(open: &str, ds: Vec<Doc>, close: &str) -> (d: Doc)
    ensures
        d@ == list_in(open@, views_of(ds@), close@),
{
    let inner = c2(softline(), join(comma_line_x(), ds));
    group(c4(text(open), nested_x(inner), softline(), text(close)))
}

fn list_in_trailing_x(open: &str, ds: Vec<Doc>, close: &str) -> (d: Doc)
    ensures
        d@ == list_in_trailing(open@, views_of(ds@), close@),
{
    let inner = c3(softline(), join(comma_line_x(), ds), if_break(text(","), nil()));
    group(c4(text(open), nested_x(inner), softline(), text(close)))
}

pub fn list_after_x(head: Doc, open: &str, ds: Vec<Doc>, close: &str) -> (d: Doc)
    ensures
        d@ == list_after(head@, open@, views_of(ds@), close@),
{
    let inner = c2(softline(), join(comma_line_x(), ds));
    group(c5(head, text(open), nested_x(inner), softline(), text(close)))
}

/// Lays out call arguments: `()` when there are none, otherwise a parenthesised list that
/// breaks one argument per line, with a trailing comma, when it does not fit.
pub fn format_call_args(args: Vec<Doc>) -> (d: Doc)
    ensures
        d@ == call_args_doc(views_of(args@)),
{
    if args.len() == 0 {
        return text("()");
    }
    list_in_trailing_x("(", args, ")")
}

pub fn indented_x(body: Doc) -> (d: Doc)
    ensures
        d@ == indented(body@),
{
    nested_x(c2(hardline(), body))
}

pub fn with_end_x(head: Vec<Doc>, body: Doc) -> (d: Doc)
    ensures
        d@ == with_end(views_of(head@), body@),
{
    let ghost h = views_of(head@);
    let ghost b = body@;
    let mut parts = head;
    push_doc(&mut parts, indented_x(body));
    push_doc(&mut parts, hardline());
    push_doc(&mut parts, text("end"));
    proof { assert(views_of(parts@) =~= h + seq![indented(b), DocView::Hardline, tx("end"@)]); }
    concat(parts)
}

pub fn after_lines_x(ds: Vec<Doc>, hard: bool) -> (r: Vec<Doc>)
    ensures
        hard ==> views_of(r@) == after_hardlines(views_of(ds@)),
        !hard ==> views_of(r@) == after_softlines(views_of(ds@)),
{
    let ghost src = views_of(ds@);
    let mut ds = ds;
    let mut rev: Vec<Doc> = Vec::new();
    while ds.len() > 0
        invariant
            ds@.len() + rev@.len() == src.len(),
            forall|k: int| 0 <= k < ds@.len() ==> #[trigger] ds@[k]@ == src[k],
            forall|k: int| 0 <= k < rev@.len() ==> #[trigger] rev@[k]@ == DocView::Concat(seq![
                if hard { DocView::Hardline } else { DocView::Softline },
                src[src.len() - 1 - k],
            ]),
        decreases ds@.len(),
    {
        let d = ds.pop().unwrap();
        let brk = if hard { hardline() } else { softline() };
        rev.push(c2(brk, d));
    }
    let mut r: Vec<Doc> = Vec::new();
    while rev.len() > 0
        invariant
            r@.len() + rev@.len() == src.len(),
            forall|k: int| 0 <= k < rev@.len() ==> #[trigger] rev@[k]@ == DocView::Concat(seq![
                if hard { DocView::Hardline } else { DocView::Softline },
                src[src.len() - 1 - k],
            ]),
            forall|k: int| 0 <= k < r@.len() ==> #[trigger] r@[k]@ == DocView::Concat(seq![
                if hard { DocView::Hardline } else { DocView::Softline },
                src[k],
            ]),
        decreases rev@.len(),
    {
        let d = rev.pop().unwrap();
        r.push(d);
    }
    proof {
        if hard {
            assert(views_of(r@) =~= after_hardlines(src));
        } else {
            assert(views_of(r@) =~= after_softlines(src));
        }
    }
    r
}

fn plus_joined_x(ds: Vec<Doc>) -> (d: Doc)
    ensures
        d@ == plus_joined(views_of(ds@)),
{
    join(text(" + "), ds)
}

/// `a.b.v`, or `v` for an empty path.
fn dotted_variant_x(path: &Vec<String>, v: &String) -> (r: String)
    ensures
        r@ == dotted_variant(path@, v@),
{
    if path.len() == 0 {
        return v.clone();
    }
    let mut s = join_strings(path, ".");
    proof { assert(path@.map_values(|s: String| s@) =~= strs(path@)); }
    push_str(&mut s, ".");
    push_str(&mut s, v.as_str());
    s
}

/// The model of an optional document.
pub open spec fn opt_view(b: Option<Doc>) -> Option<DocView> {
    match b {
        Some(d) => Some(d@),
        None => None,
    }
}

/// Appends the parts after a call's callee.
fn push_call_tail(parts: &mut Vec<Doc>, args: Vec<Doc>, block: Option<Doc>)
    ensures
        views_of(final(parts)@) == views_of(old(parts)@) + call_tail(views_of(args@), opt_view(block)),
{
    let ghost a = views_of(args@);
    let ghost bv = opt_view(block);
    if args.len() > 0 || block.is_some() {
        push_doc(parts, format_call_args(args));
    }
    match block {
        Some(b) => {
            push_doc(parts, text(" "));
            push_doc(parts, b);
        },
        None => {},
    }
    proof { assert(views_of(parts@) =~= views_of(old(parts)@) + call_tail(a, bv)); }
}

// ─── Literals ───────────────────────────────────────────────────────

/// The decimal form of a signed integer.
pub fn int_str(v: i64) -> (r: String)
    ensures
        r@ == int_text(v),
{
    let mut s = String::new();
    if v < 0 {
        push_char(&mut s, '-');
        let u: u64 = if v == i64::MIN { 9223372036854775808u64 } else { (-v) as u64 };
        push_decimal(&mut s, u);
        proof { assert(s@ =~= seq!['-'] + decimal((-v) as nat)); }
    } else {
        push_decimal(&mut s, v as u64);
        proof { assert(s@ =~= decimal(v as nat)); }
    }
    s
}

fn add_suffix(s: &mut String, suffix: &Option<NumericSuffix>)
    ensures
        final(s)@ == with_suffix(old(s)@, *suffix),
{
    match suffix {
        Some(sf) => push_str(s, suffix_str(*sf)),
        None => {},
    }
}

fn is_whole_number_str(cs: &Vec<char>) -> (r: bool)
    ensures
        r == is_whole_number_text(cs@),
{
    let start: usize = if cs.len() > 0 && cs[0] == '-' { 1 } else { 0 };
    let ghost digits = digits_part(cs@);
    if start >= cs.len() {
        proof { assert(digits.len() == 0); }
        return false;
    }
    let mut i = start;
    while i < cs.len()
        invariant
            start <= i <= cs@.len(),
            start < cs@.len(),
            digits == digits_part(cs@),
            digits.len() == cs@.len() - start,
            forall|k: int| 0 <= k < digits.len() ==> #[trigger] digits[k] == cs@[k + start],
            forall|k: int| 0 <= k < i - start ==> is_digit(#[trigger] digits[k]),
        decreases cs@.len() - i,
    {
        if !('0' <= cs[i] && cs[i] <= '9') {
            proof {
                let k = i - start;
                assert(!is_digit(digits[k]));
            }
            return false;
        }
        i = i + 1;
    }
    true
}

/// The text of a float literal: a whole number gets `.0`.
pub fn float_str(s: &String) -> (r: String)
    ensures
        r@ == float_text(s@),
{
    let cs = chars_of(s.as_str());
    let mut r = s.clone();
    if is_whole_number_str(&cs) {
        push_str(&mut r, ".0");
    }
    r
}

fn escape_into(out: &mut String, c: char)
    ensures
        final(out)@ == old(out)@ + escape_in_string(c),
{
    if c == '\\' { push_char(out, '\\'); push_char(out, '\\'); }
    else if c == '"' { push_char(out, '\\'); push_char(out, '"'); }
    else if c == '\n' { push_char(out, '\\'); push_char(out, 'n'); }
    else if c == '\t' { push_char(out, '\\'); push_char(out, 't'); }
    else if c == '\r' { push_char(out, '\\'); push_char(out, 'r'); }
    else { push_char(out, c); }
    proof { assert(out@ =~= old(out)@ + escape_in_string(c)); }
}

/// A string with backslashes, quotes, newlines, tabs and carriage returns escaped.
pub fn escape_string(s: &str) -> (r: String)
    ensures
        r@ == escaped(s@),
{
    let cs = chars_of(s);
    let mut out = String::new();
    let mut i: usize = 0;
    while i < cs.len()
        invariant
            i <= cs@.len(),
            cs@ == s@,
            out@ == escaped(cs@.take(i as int)),
        decreases cs@.len() - i,
    {
        proof { assert(cs@.take(i + 1).drop_last() =~= cs@.take(i as int)); }
        escape_into(&mut out, cs[i]);
        i = i + 1;
    }
    proof { assert(cs@.take(cs@.len() as int) =~= cs@); }
    out
}

/// A character literal's character, escaped.
pub fn escape_char(c: char) -> (r: String)
    ensures
        r@ == escape_char_text(c),
{
    let mut out = String::new();
    if c == '\\' { push_char(&mut out, '\\'); push_char(&mut out, '\\'); }
    else if c == '\'' { push_char(&mut out, '\\'); push_char(&mut out, '\''); }
    else if c == '\n' { push_char(&mut out, '\\'); push_char(&mut out, 'n'); }
    else if c == '\t' { push_char(&mut out, '\\'); push_char(&mut out, 't'); }
    else if c == '\r' { push_char(&mut out, '\\'); push_char(&mut out, 'r'); }
    else { push_char(&mut out, c); }
    proof { assert(out@ =~= escape_char_text(c)); }
    out
}

/// The source form of a token inside an interpolation.
pub fn token_to_source(t: &Token) -> (r: String)
    ensures
        r@ == token_text(t.kind),
{
    let mut s = String::new();
    match &t.kind {
        TokenKind::Identifier(x) => push_str(&mut s, x.as_str()),
        TokenKind::TypeIdentifier(x) => push_str(&mut s, x.as_str()),
        TokenKind::IntLiteral(v, sf) => {
            s = int_str(*v);
            add_suffix(&mut s, sf);
        },
        TokenKind::FloatLiteral(x, sf) => {
            s = x.clone();
            add_suffix(&mut s, sf);
        },
        TokenKind::StringLiteral(x) => {
            push_char(&mut s, '"');
            push_str(&mut s, x.as_str());
            push_char(&mut s, '"');
        },
        TokenKind::CharLiteral(c) => {
            push_char(&mut s, '\'');
            push_char(&mut s, *c);
            push_char(&mut s, '\'');
        },
        TokenKind::DocComment(x) => {
            push_str(&mut s, "## ");
            push_str(&mut s, x.as_str());
        },
        TokenKind::Lifetime(x) => {
            push_char(&mut s, '\'');
            push_str(&mut s, x.as_str());
        },
        _ => push_str(&mut s, fixed_token_str(&t.kind)),
    }
    proof { assert(s@ =~= token_text(t.kind)); }
    s
}

fn part_doc_x(p: &StringPart) -> (d: Doc)
    ensures
        d@ == part_doc(*p),
{
    match p {
        StringPart::Literal(s) => text(escape_string(s.as_str()).as_str()),
        StringPart::Expr(ts) => {
            let mut content = String::new();
            push_str(&mut content, "#{");
            let ghost start = content@;
            let mut i: usize = 0;
            while i < ts.len()
                invariant
                    i <= ts@.len(),
                    content@ == start + tokens_text(ts@.take(i as int)),
                decreases ts@.len() - i,
            {
                proof {
                    assert(ts@.take(i + 1).drop_last() =~= ts@.take(i as int));
                    assert(start + tokens_text(ts@.take(i + 1)) =~= start + tokens_text(ts@.take(i as int)) + token_text(ts@[i as int].kind));
                }
                let piece = token_to_source(&ts[i]);
                push_str(&mut content, piece.as_str());
                i = i + 1;
            }
            push_str(&mut content, "}");
            proof {
                assert(ts@.take(ts@.len() as int) =~= ts@);
                assert(content@ =~= "#{"@ + tokens_text(ts@) + "}"@);
            }
            text(content.as_str())
        },
    }
}

/// Lays out an interpolated string: literal pieces escaped, embedded expressions kept as
/// their tokens were written.
pub fn format_interpolated_string(parts: &Vec<StringPart>) -> (d: Doc)
    ensures
        d@ == interpolated_doc(parts@),
{
    let mut segs = docs0();
    let mut q = String::new();
    push_char(&mut q, '"');
    push_doc(&mut segs, text(q.as_str()));
    let mut i: usize = 0;
    while i < parts.len()
        invariant
            i <= parts@.len(),
            q@ == seq!['"'],
            views_of(segs@) == seq![tx(seq!['"'])] + Seq::new(i as nat, |k: int| part_doc(parts@[k])),
        decreases parts@.len() - i,
    {
        let ghost before = views_of(segs@);
        push_doc(&mut segs, part_doc_x(&parts[i]));
        proof {
            assert(views_of(segs@) =~= seq![tx(seq!['"'])] + Seq::new((i + 1) as nat, |k: int| part_doc(parts@[k])));
        }
        i = i + 1;
    }
    push_doc(&mut segs, text(q.as_str()));
    proof {
        assert(views_of(segs@) =~= seq![tx(seq!['"'])] + Seq::new(parts@.len(), |k: int| part_doc(parts@[k])) + seq![tx(seq!['"'])]);
    }
    concat(segs)
}

fn bin_op_str(op: BinOp) -> (r: &'static str)
    ensures
        r@ == bin_op_text(op),
{
    match op {
        BinOp::Add => "+", BinOp::Sub => "-", BinOp::Mul => "*", BinOp::Div => "/",
        BinOp::Mod => "%", BinOp::Eq => "==", BinOp::NotEq => "!=", BinOp::Lt => "<",
        BinOp::Gt => ">", BinOp::LtEq => "<=", BinOp::GtEq => ">=", BinOp::And => "&&",
        BinOp::Or => "||", BinOp::BitAnd => "&", BinOp::BitOr => "|", BinOp::BitXor => "^",
        BinOp::Shl => "<<", BinOp::Shr => ">>",
    }
}

fn compound_assign_op_str(op: BinOp) -> (r: &'static str)
    ensures
        r@ == compound_op_text(op),
{
    match op {
        BinOp::Add => "+=", BinOp::Sub => "-=", BinOp::Mul => "*=", BinOp::Div => "/=",
        BinOp::Mod => "%=", _ => "=",
    }
}

fn unary_op_str(op: UnaryOp) -> (r: &'static str)
    ensures
        r@ == unary_op_text(op),
{
    match op {
        UnaryOp::Neg => "-",
        UnaryOp::Not => "!",
        UnaryOp::Deref => "*",
    }
}


// ─── Types ──────────────────────────────────────────────────────────

/// Lays out a type.
pub fn format_type_expr(ty: &TypeExpr, comments: &CommentMap) -> (d: Doc)
    ensures
        d@ == type_doc(*ty),
    decreases ty, 1nat,
{
    match ty {
        TypeExpr::Named(path) => format_type_path_with(path, comments),
        TypeExpr::Reference { lifetime, mutable, inner, .. } => {
            let mut parts = docs0();
            push_doc(&mut parts, text("&"));
            let ghost p1 = views_of(parts@);
            match lifetime {
                Some(lt) => {
                    let mut s = String::new();
                    push_char(&mut s, '\'');
                    push_str(&mut s, lt.as_str());
                    push_char(&mut s, ' ');
                    proof { assert(s@ =~= seq!['\''] + lt@ + seq![' ']); }
                    push_doc(&mut parts, text(s.as_str()));
                },
                None => {},
            }
            if *mutable {
                push_doc(&mut parts, text("mut "));
            }
            push_doc(&mut parts, format_type_expr(&**inner, comments));
            proof {
                assert(p1 =~= seq![tx("&"@)]);
            }
            concat(parts)
        },
        TypeExpr::Tuple { elements, .. } => {
            if elements.len() == 0 {
                text("()")
            } else {
                list_in_x("(", format_types(elements, comments), ")")
            }
        },
        TypeExpr::Array { element, size, .. } => {
            let mut parts = docs0();
            push_doc(&mut parts, text("["));
            push_doc(&mut parts, format_type_expr(&**element, comments));
            let ghost p1 = views_of(parts@);
            proof { assert(p1 =~= seq![tx("["@), type_doc(**element)]); }
            match size {
                Some(sz) => {
                    push_doc(&mut parts, text("; "));
                    push_doc(&mut parts, format_expr(&**sz, comments));
                },
                None => {},
            }
            push_doc(&mut parts, text("]"));
            concat(parts)
        },
        TypeExpr::Function { params, return_type, .. } => {
            let pd = if params.len() == 0 {
                text("()")
            } else {
                list_in_x("(", format_types(params, comments), ")")
            };
            c4(text("Fn"), pd, text(" -> "), format_type_expr(&**return_type, comments))
        },
        TypeExpr::ImplTrait { bounds, .. } => c2(text("impl "), plus_joined_x(format_bounds(bounds, comments))),
        TypeExpr::DynTrait { bounds, .. } => c2(text("dyn "), plus_joined_x(format_bounds(bounds, comments))),
        TypeExpr::Never { .. } => text("!"),
        TypeExpr::Inferred { .. } => text("_"),
        TypeExpr::RawPointer { mutable, inner, .. } => {
            let prefix = if *mutable { text("*mut ") } else { text("*") };
            c2(prefix, format_type_expr(&**inner, comments))
        },
    }
}

/// Lays out a type path: `A.B`, then `[T, U]` when it has generic arguments.
pub fn format_type_path(path: &TypePath) -> (d: Doc)
    ensures
        d@ == type_path_doc(*path),
{
    let comments = CommentMap::new();
    format_type_path_with(path, &comments)
}

fn format_type_path_with(path: &TypePath, comments: &CommentMap) -> (d: Doc)
    ensures
        d@ == type_path_doc(*path),
    decreases path, 1nat,
{
    let segs = join_strings(&path.segments, ".");
    proof { assert(path.segments@.map_values(|s: String| s@) =~= strs(path.segments@)); }
    match &path.generic_args {
        None => text(segs.as_str()),
        Some(args) => {
            if args.len() == 0 {
                text(segs.as_str())
            } else {
                list_after_x(text(segs.as_str()), "[", format_types(args, comments), "]")
            }
        },
    }
}

fn format_types(ts: &Vec<TypeExpr>, comments: &CommentMap) -> (r: Vec<Doc>)
    ensures
        views_of(r@) == types_docs(ts@),
    decreases ts, 0nat,
{
    let mut r = docs0();
    let mut i: usize = 0;
    while i < ts.len()
        invariant
            i <= ts@.len(),
            views_of(r@) == types_docs(ts@.take(i as int)),
        decreases ts@.len() - i,
    {
        proof { assert(ts@.take(i + 1).drop_last() =~= ts@.take(i as int)); }
        push_doc(&mut r, format_type_expr(&ts[i], comments));
        i = i + 1;
    }
    proof { assert(ts@.take(ts@.len() as int) =~= ts@); }
    r
}

fn format_bounds(bs: &Vec<TraitBound>, comments: &CommentMap) -> (r: Vec<Doc>)
    ensures
        views_of(r@) == bounds_docs(bs@),
    decreases bs, 0nat,
{
    let mut r = docs0();
    let mut i: usize = 0;
    while i < bs.len()
        invariant
            i <= bs@.len(),
            views_of(r@) == bounds_docs(bs@.take(i as int)),
        decreases bs@.len() - i,
    {
        proof { assert(bs@.take(i + 1).drop_last() =~= bs@.take(i as int)); }
        push_doc(&mut r, format_type_path_with(&bs[i].path, comments));
        i = i + 1;
    }
    proof { assert(bs@.take(bs@.len() as int) =~= bs@); }
    r
}

/// Lays out trait bounds separated by ` + `.
pub fn format_trait_bounds(bounds: &Vec<TraitBound>) -> (d: Doc)
    ensures
        d@ == plus_joined(bounds_docs(bounds@)),
{
    let comments = CommentMap::new();
    plus_joined_x(format_bounds(bounds, &comments))
}

fn format_generic_param(p: &GenericParam, comments: &CommentMap) -> (d: Doc)
    ensures
        d@ == generic_param_doc(*p),
    decreases p, 1nat,
{
    match p {
        GenericParam::Lifetime { name } => {
            let mut s = String::new();
            push_char(&mut s, '\'');
            push_str(&mut s, name.as_str());
            proof { assert(s@ =~= seq!['\''] + name@); }
            text(s.as_str())
        },
        GenericParam::Type { name, bounds } => {
            if bounds.len() == 0 {
                tx_string(name)
            } else {
                c3(tx_string(name), text(": "), plus_joined_x(format_bounds(bounds, comments)))
            }
        },
    }
}

fn format_generic_param_list(ps: &Vec<GenericParam>, comments: &CommentMap) -> (r: Vec<Doc>)
    ensures
        views_of(r@) == generic_params_docs(ps@),
    decreases ps, 0nat,
{
    let mut r = docs0();
    let mut i: usize = 0;
    while i < ps.len()
        invariant
            i <= ps@.len(),
            views_of(r@) == generic_params_docs(ps@.take(i as int)),
        decreases ps@.len() - i,
    {
        proof { assert(ps@.take(i + 1).drop_last() =~= ps@.take(i as int)); }
        push_doc(&mut r, format_generic_param(&ps[i], comments));
        i = i + 1;
    }
    proof { assert(ps@.take(ps@.len() as int) =~= ps@); }
    r
}

/// Lays out generic parameters as a bracketed list.
pub fn format_generic_params(gp: &GenericParams) -> (d: Doc)
    ensures
        d@ == generic_params_doc(*gp),
{
    let comments = CommentMap::new();
    list_in_x("[", format_generic_param_list(&gp.params, &comments), "]")
}

fn format_where_preds(ps: &Vec<WherePredicate>, comments: &CommentMap) -> (r: Vec<Doc>)
    ensures
        views_of(r@) == where_preds_docs(ps@),
    decreases ps, 0nat,
{
    let mut r = docs0();
    let mut i: usize = 0;
    while i < ps.len()
        invariant
            i <= ps@.len(),
            views_of(r@) == where_preds_docs(ps@.take(i as int)),
        decreases ps@.len() - i,
    {
        proof { assert(ps@.take(i + 1).drop_last() =~= ps@.take(i as int)); }
        let p = &ps[i];
        let d = c3(format_type_expr(&p.type_expr, comments), text(": "), plus_joined_x(format_bounds(&p.bounds, comments)));
        proof { assert(d@ == where_pred_doc(ps@[i as int])); }
        push_doc(&mut r, d);
        i = i + 1;
    }
    proof { assert(ps@.take(ps@.len() as int) =~= ps@); }
    r
}

/// Lays out a `where` clause: one predicate on the same line, several one per line.
pub fn format_where_clause(wc: &WhereClause) -> (d: Doc)
    ensures
        d@ == where_clause_doc(*wc),
{
    let comments = CommentMap::new();
    let mut preds = format_where_preds(&wc.predicates, &comments);
    let ghost pv = views_of(preds@);
    if preds.len() == 1 {
        let p = preds.pop().unwrap();
        proof { assert(p@ == pv[0]); }
        group(c2(text(" where "), p))
    } else {
        let mut lines: Vec<Doc> = Vec::new();
        let mut rest = preds;
        let mut rev: Vec<Doc> = Vec::new();
        while rest.len() > 0
            invariant
                rest@.len() + rev@.len() == pv.len(),
                forall|k: int| 0 <= k < rest@.len() ==> #[trigger] rest@[k]@ == pv[k],
                forall|k: int| 0 <= k < rev@.len() ==> #[trigger] rev@[k]@ == DocView::Concat(
                    seq![DocView::Hardline, pv[pv.len() - 1 - k], tx(","@)],
                ),
            decreases rest@.len(),
        {
            let p = rest.pop().unwrap();
            rev.push(c3(hardline(), p, text(",")));
        }
        while rev.len() > 0
            invariant
                lines@.len() + rev@.len() == pv.len(),
                forall|k: int| 0 <= k < rev@.len() ==> #[trigger] rev@[k]@ == DocView::Concat(
                    seq![DocView::Hardline, pv[pv.len() - 1 - k], tx(","@)],
                ),
                forall|k: int| 0 <= k < lines@.len() ==> #[trigger] lines@[k]@ == DocView::Concat(
                    seq![DocView::Hardline, pv[k], tx(","@)],
                ),
            decreases rev@.len(),
        {
            let d = rev.pop().unwrap();
            lines.push(d);
        }
        proof {
            assert(views_of(lines@) =~= Seq::new(pv.len(), |i: int| DocView::Concat(seq![DocView::Hardline, pv[i], tx(","@)])));
        }
        group(c3(hardline(), text("where"), nested_x(concat(lines))))
    }
}

// ─── Patterns ───────────────────────────────────────────────────────

/// Lays out a pattern.
pub fn format_pattern(pat: &Pattern, comments: &CommentMap) -> (d: Doc)
    ensures
        d@ == pattern_doc(*pat),
    decreases pat, 1nat,
{
    match pat {
        Pattern::Literal { expr, .. } => format_expr(&**expr, comments),
        Pattern::Identifier { mutable, name, .. } => {
            if *mutable { c2(text("mut "), tx_string(name)) } else { tx_string(name) }
        },
        Pattern::Wildcard { .. } => text("_"),
        Pattern::Tuple { elements, .. } => list_in_x("(", format_patterns(elements, comments), ")"),
        Pattern::Enum { path, variant, fields, .. } => {
            let ps = dotted_variant_x(path, variant);
            if fields.len() == 0 {
                text(ps.as_str())
            } else {
                list_after_x(text(ps.as_str()), "(", format_patterns(fields, comments), ")")
            }
        },
        Pattern::Struct { path, fields, rest, .. } => {
            let mut fds = format_field_patterns(fields, comments);
            if *rest {
                push_doc(&mut fds, text(".."));
            }
            let p = join_strings(path, ".");
            proof { assert(path@.map_values(|s: String| s@) =~= strs(path@)); }
            group(c4(text(p.as_str()), text(" { "), nested_x(join(comma_line_x(), fds)), text(" }")))
        },
        Pattern::Or { patterns, .. } => join(text(" | "), format_patterns(patterns, comments)),
        Pattern::Ref { mutable, name, .. } => {
            let prefix = if *mutable { text("ref mut ") } else { text("ref ") };
            c2(prefix, tx_string(name))
        },
        Pattern::Rest { .. } => text(".."),
    }
}

fn format_patterns(ps: &Vec<Pattern>, comments: &CommentMap) -> (r: Vec<Doc>)
    ensures
        views_of(r@) == patterns_docs(ps@),
    decreases ps, 0nat,
{
    let mut r = docs0();
    let mut i: usize = 0;
    while i < ps.len()
        invariant
            i <= ps@.len(),
            views_of(r@) == patterns_docs(ps@.take(i as int)),
        decreases ps@.len() - i,
    {
        proof { assert(ps@.take(i + 1).drop_last() =~= ps@.take(i as int)); }
        push_doc(&mut r, format_pattern(&ps[i], comments));
        i = i + 1;
    }
    proof { assert(ps@.take(ps@.len() as int) =~= ps@); }
    r
}

fn format_field_pattern(f: &FieldPattern, comments: &CommentMap) -> (d: Doc)
    ensures
        d@ == field_pattern_doc(*f),
    decreases f, 1nat,
{
    match &f.name {
        Some(n) => c3(tx_string(n), text(": "), format_pattern(&f.pattern, comments)),
        None => format_pattern(&f.pattern, comments),
    }
}

fn format_field_patterns(fs: &Vec<FieldPattern>, comments: &CommentMap) -> (r: Vec<Doc>)
    ensures
        views_of(r@) == field_patterns_docs(fs@),
    decreases fs, 0nat,
{
    let mut r = docs0();
    let mut i: usize = 0;
    while i < fs.len()
        invariant
            i <= fs@.len(),
            views_of(r@) == field_patterns_docs(fs@.take(i as int)),
        decreases fs@.len() - i,
    {
        proof { assert(fs@.take(i + 1).drop_last() =~= fs@.take(i as int)); }
        push_doc(&mut r, format_field_pattern(&fs[i], comments));
        i = i + 1;
    }
    proof { assert(fs@.take(fs@.len() as int) =~= fs@); }
    r
}

/// Lays out a match arm's pattern and its guard, `pattern if guard`.
pub fn format_match_pattern(pat: &Pattern, guard: Option<&Expr>, comments: &CommentMap) -> (d: Doc)
    ensures
        d@ == (match guard {
            Some(g) => DocView::Concat(seq![pattern_doc(*pat), tx(" if "@), expr_doc(*g)]),
            None => pattern_doc(*pat),
        }),
{
    let pd = format_pattern(pat, comments);
    match guard {
        Some(g) => c3(pd, text(" if "), format_expr(g, comments)),
        None => pd,
    }
}

// ─── Expressions ────────────────────────────────────────────────────

fn is_chain_start_x(e: &Expr) -> (r: bool)
    ensures
        r == is_chain_start(*e),
{
    match &e.kind {
        ExprKind::MethodCall { .. } => true,
        ExprKind::FieldAccess { .. } => true,
        _ => false,
    }
}

/// Lays out an expression; field accesses and method calls on such expressions are laid
/// out as a chain that breaks before each link when it does not fit.
pub fn format_expr(expr: &Expr, comments: &CommentMap) -> (d: Doc)
    ensures
        d@ == expr_doc(*expr),
    decreases expr, 2nat,
{
    let chained = match &expr.kind {
        ExprKind::FieldAccess { object, .. } => is_chain_start_x(&**object),
        ExprKind::MethodCall { object, .. } => is_chain_start_x(&**object),
        _ => false,
    };
    if chained {
        let (receiver, links) = collect_chain(expr, comments);
        let ghost c = (receiver@, views_of(links@));
        if links.len() <= 1 {
            let mut parts = docs0();
            push_doc(&mut parts, receiver);
            let mut links = links;
            if links.len() == 1 {
                let l = links.pop().unwrap();
                push_doc(&mut parts, l);
            }
            proof { assert(views_of(parts@) =~= seq![c.0] + c.1); }
            concat(parts)
        } else {
            let soft = after_lines_x(links, false);
            group(c2(receiver, nested_x(concat(soft))))
        }
    } else {
        format_plain(expr, comments)
    }
}

fn format_block_arg(b: &Option<Box<Expr>>, comments: &CommentMap) -> (r: Option<Doc>)
    ensures
        opt_view(r) == block_arg_doc(*b),
    decreases b, 0nat,
{
    match b {
        Some(x) => Some(format_expr(&**x, comments)),
        None => None,
    }
}

/// The receiver of a chain and its links, innermost first.
fn collect_chain(e: &Expr, comments: &CommentMap) -> (r: (Doc, Vec<Doc>))
    ensures
        (r.0@, views_of(r.1@)) == chain(*e),
    decreases e, 1nat,
{
    match &e.kind {
        ExprKind::FieldAccess { object, field } => {
            let (recv, mut links) = collect_chain(&**object, comments);
            push_doc(&mut links, c2(text("."), tx_string(field)));
            (recv, links)
        },
        ExprKind::MethodCall { object, method, args, block } => {
            let (recv, mut links) = collect_chain(&**object, comments);
            let mut parts = docs0();
            push_doc(&mut parts, text("."));
            push_doc(&mut parts, tx_string(method));
            let ghost p1 = views_of(parts@);
            proof { assert(p1 =~= seq![tx("."@), tx(method@)]); }
            push_call_tail(&mut parts, format_exprs(args, comments), format_block_arg(block, comments));
            push_doc(&mut links, concat(parts));
            (recv, links)
        },
        _ => (format_plain(e, comments), docs0()),
    }
}

fn push_opt_expr(parts: &mut Vec<Doc>, x: &Option<Box<Expr>>, comments: &CommentMap)
    ensures
        views_of(final(parts)@) == views_of(old(parts)@) + opt_expr_docs(*x),
    decreases x, 0nat,
{
    match x {
        Some(v) => push_doc(parts, format_expr(&**v, comments)),
        None => {},
    }
    proof { assert(views_of(parts@) =~= views_of(old(parts)@) + opt_expr_docs(*x)); }
}

/// Lays out an expression, taking a field access or method call as a single link.
#[verifier::rlimit(100)]
#[verifier::spinoff_prover]
fn format_plain(e: &Expr, comments: &CommentMap) -> (d: Doc)
    ensures
        d@ == plain_doc(*e),
    decreases e, 0nat,
{
    match &e.kind {
        ExprKind::IntLiteral(v, sf) => {
            let mut s = int_str(*v);
            add_suffix(&mut s, sf);
            text(s.as_str())
        },
        ExprKind::FloatLiteral(x, sf) => {
            let mut s = float_str(x);
            add_suffix(&mut s, sf);
            text(s.as_str())
        },
        ExprKind::StringLiteral(x) => {
            let mut s = String::new();
            push_char(&mut s, '"');
            let esc = escape_string(x.as_str());
            push_str(&mut s, esc.as_str());
            push_char(&mut s, '"');
            proof { assert(s@ =~= seq!['"'] + escaped(x@) + seq!['"']); }
            text(s.as_str())
        },
        ExprKind::InterpolatedString(ps) => format_interpolated_string(ps),
        ExprKind::CharLiteral(c) => {
            let mut s = String::new();
            push_char(&mut s, '\'');
            let esc = escape_char(*c);
            push_str(&mut s, esc.as_str());
            push_char(&mut s, '\'');
            proof { assert(s@ =~= seq!['\''] + escape_char_text(*c) + seq!['\'']); }
            text(s.as_str())
        },
        ExprKind::BoolLiteral(b) => if *b { text("true") } else { text("false") },
        ExprKind::UnitLiteral => text("()"),
        ExprKind::NullLiteral => text("null"),
        ExprKind::Identifier(n) => tx_string(n),
        ExprKind::SelfRef => text("self"),
        ExprKind::SelfType => text("Self"),
        ExprKind::BinaryOp { left, op, right } => group(c5(
            format_expr(&**left, comments),
            text(" "),
            text(bin_op_str(*op)),
            line(),
            format_expr(&**right, comments),
        )),
        ExprKind::UnaryOp { op, operand } => c2(text(unary_op_str(*op)), format_expr(&**operand, comments)),
        ExprKind::Borrow(x) => c2(text("&"), format_expr(&**x, comments)),
        ExprKind::BorrowMut(x) => c2(text("&mut "), format_expr(&**x, comments)),
        ExprKind::FieldAccess { object, field } => c3(format_expr(&**object, comments), text("."), tx_string(field)),
        ExprKind::MethodCall { object, method, args, block } => {
            let mut parts = docs0();
            push_doc(&mut parts, format_expr(&**object, comments));
            push_doc(&mut parts, text("."));
            push_doc(&mut parts, tx_string(method));
            let ghost p1 = views_of(parts@);
            proof { assert(p1 =~= seq![expr_doc(**object), tx("."@), tx(method@)]); }
            push_call_tail(&mut parts, format_exprs(args, comments), format_block_arg(block, comments));
            concat(parts)
        },
        ExprKind::SafeNav { object, field } => c3(format_expr(&**object, comments), text("?."), tx_string(field)),
        ExprKind::SafeNavCall { object, method, args } => c4(
            format_expr(&**object, comments),
            text("?."),
            tx_string(method),
            format_call_args(format_exprs(args, comments)),
        ),
        ExprKind::Call { callee, args, block } => {
            let mut parts = docs0();
            push_doc(&mut parts, format_expr(&**callee, comments));
            let ghost p1 = views_of(parts@);
            proof { assert(p1 =~= seq![expr_doc(**callee)]); }
            push_call_tail(&mut parts, format_exprs(args, comments), format_block_arg(block, comments));
            concat(parts)
        },
        ExprKind::Index { object, index } => c4(
            format_expr(&**object, comments),
            text("["),
            format_expr(&**index, comments),
            text("]"),
        ),
        ExprKind::ClosureCall { callee, args } => c4(
            format_expr(&**callee, comments),
            text(".("),
            join(comma_line_x(), format_exprs(args, comments)),
            text(")"),
        ),
        ExprKind::Try(x) => c2(format_expr(&**x, comments), text("?")),
        ExprKind::Assign { target, value } => group(c3(
            format_expr(&**target, comments),
            text(" = "),
            nested_x(format_expr(&**value, comments)),
        )),
        ExprKind::CompoundAssign { target, op, value } => group(c5(
            format_expr(&**target, comments),
            text(" "),
            text(compound_assign_op_str(*op)),
            text(" "),
            nested_x(format_expr(&**value, comments)),
        )),
        ExprKind::If(ie) => {
            let mut parts = docs0();
            push_doc(&mut parts, text("if "));
            push_doc(&mut parts, format_expr(&*ie.condition, comments));
            push_doc(&mut parts, indented_x(format_block_body(&ie.then_body, comments)));
            let ghost p1 = views_of(parts@);
            proof {
                assert(p1 =~= seq![tx("if "@), expr_doc(*ie.condition), indented(block_body_doc(ie.then_body))]);
            }
            push_elsifs(&mut parts, &ie.elsif_clauses, comments);
            push_else(&mut parts, &ie.else_body, comments);
            let ghost p2 = views_of(parts@);
            push_doc(&mut parts, hardline());
            push_doc(&mut parts, text("end"));
            proof { assert(views_of(parts@) =~= p2 + seq![DocView::Hardline, tx("end"@)]); }
            concat(parts)
        },
        ExprKind::IfLet(il) => {
            let mut parts = docs0();
            push_doc(&mut parts, text("if let "));
            push_doc(&mut parts, format_pattern(&il.pattern, comments));
            push_doc(&mut parts, text(" = "));
            push_doc(&mut parts, format_expr(&*il.value, comments));
            push_doc(&mut parts, indented_x(format_block_body(&il.then_body, comments)));
            let ghost p1 = views_of(parts@);
            proof {
                assert(p1 =~= seq![
                    tx("if let "@),
                    pattern_doc(il.pattern),
                    tx(" = "@),
                    expr_doc(*il.value),
                    indented(block_body_doc(il.then_body)),
                ]);
            }
            push_else(&mut parts, &il.else_body, comments);
            let ghost p2 = views_of(parts@);
            push_doc(&mut parts, hardline());
            push_doc(&mut parts, text("end"));
            proof { assert(views_of(parts@) =~= p2 + seq![DocView::Hardline, tx("end"@)]); }
            concat(parts)
        },
        ExprKind::Match(m) => {
            let arms = format_arms(&m.arms, comments);
            c5(
                text("match "),
                format_expr(&*m.subject, comments),
                nested_x(concat(after_lines_x(arms, true))),
                hardline(),
                text("end"),
            )
        },
        ExprKind::While(w) => {
            let mut head = docs0();
            push_doc(&mut head, text("while "));
            push_doc(&mut head, format_expr(&*w.condition, comments));
            proof { assert(views_of(head@) =~= seq![tx("while "@), expr_doc(*w.condition)]); }
            with_end_x(head, format_block_body(&w.body, comments))
        },
        ExprKind::WhileLet(wl) => {
            let mut head = docs0();
            push_doc(&mut head, text("while let "));
            push_doc(&mut head, format_pattern(&wl.pattern, comments));
            push_doc(&mut head, text(" = "));
            push_doc(&mut head, format_expr(&*wl.value, comments));
            proof {
                assert(views_of(head@) =~= seq![tx("while let "@), pattern_doc(wl.pattern), tx(" = "@), expr_doc(*wl.value)]);
            }
            with_end_x(head, format_block_body(&wl.body, comments))
        },
        ExprKind::For(f) => {
            let mut head = docs0();
            push_doc(&mut head, text("for "));
            push_doc(&mut head, format_pattern(&f.pattern, comments));
            push_doc(&mut head, text(" in "));
            push_doc(&mut head, format_expr(&*f.iterable, comments));
            proof {
                assert(views_of(head@) =~= seq![tx("for "@), pattern_doc(f.pattern), tx(" in "@), expr_doc(*f.iterable)]);
            }
            with_end_x(head, format_block_body(&f.body, comments))
        },
        ExprKind::Loop(l) => {
            let mut head = docs0();
            push_doc(&mut head, text("loop"));
            proof { assert(views_of(head@) =~= seq![tx("loop"@)]); }
            with_end_x(head, format_block_body(&l.body, comments))
        },
        ExprKind::Block(b) => format_block(b, comments),
        ExprKind::Closure(c) => format_closure(c, comments),
        ExprKind::Range { start, end, inclusive } => {
            let mut parts = docs0();
            push_opt_expr(&mut parts, start, comments);
            let op = if *inclusive { text("..=") } else { text("..") };
            push_doc(&mut parts, op);
            push_opt_expr(&mut parts, end, comments);
            proof {
                assert(views_of(parts@) =~= opt_expr_docs(*start) + seq![tx(if *inclusive { "..="@ } else { ".."@ })]
                    + opt_expr_docs(*end));
            }
            concat(parts)
        },
        ExprKind::ArrayLiteral(es) => {
            if es.len() == 0 { text("[]") } else { list_in_trailing_x("[", format_exprs(es, comments), "]") }
        },
        ExprKind::ArrayFill { value, count } => c5(
            text("["),
            format_expr(&**value, comments),
            text("; "),
            format_expr(&**count, comments),
            text("]"),
        ),
        ExprKind::TupleLiteral(es) => {
            if es.len() == 0 { text("()") } else { list_in_trailing_x("(", format_exprs(es, comments), ")") }
        },
        ExprKind::Return(v) => match v {
            Some(x) => group(c2(text("return "), nested_x(format_expr(&**x, comments)))),
            None => text("return"),
        },
        ExprKind::Break(v) => match v {
            Some(x) => group(c2(text("break "), nested_x(format_expr(&**x, comments)))),
            None => text("break"),
        },
        ExprKind::Continue => text("continue"),
        ExprKind::Yield(es) => {
            if es.len() == 0 {
                text("yield")
            } else {
                c2(text("yield "), join(comma_space_x(), format_exprs(es, comments)))
            }
        },
        ExprKind::MacroCall { name, args, delimiter } => {
            let mut n = name.clone();
            push_str(&mut n, "!");
            let d = match delimiter {
                MacroDelimiter::Paren => list_in_trailing_x("(", format_exprs(args, comments), ")"),
                MacroDelimiter::Bracket => list_in_trailing_x("[", format_exprs(args, comments), "]"),
                MacroDelimiter::Brace => list_in_trailing_x("{", format_exprs(args, comments), "}"),
            };
            c2(text(n.as_str()), d)
        },
        ExprKind::Cast { expr, target_type } => c3(
            format_expr(&**expr, comments),
            text(" as "),
            format_type_expr(target_type, comments),
        ),
        ExprKind::EnumVariant { type_path, variant, args } => {
            let ps = dotted_variant_x(type_path, variant);
            if args.len() == 0 {
                text(ps.as_str())
            } else {
                c2(text(ps.as_str()), format_call_args(format_variant_args(args, comments)))
            }
        },
        ExprKind::UnsafeBlock(b) => {
            let mut head = docs0();
            push_doc(&mut head, text("unsafe"));
            proof { assert(views_of(head@) =~= seq![tx("unsafe"@)]); }
            with_end_x(head, format_block_body(b, comments))
        },
    }
}

fn format_exprs(es: &Vec<Expr>, comments: &CommentMap) -> (r: Vec<Doc>)
    ensures
        views_of(r@) == exprs_docs(es@),
    decreases es, 0nat,
{
    let mut r = docs0();
    let mut i: usize = 0;
    while i < es.len()
        invariant
            i <= es@.len(),
            views_of(r@) == exprs_docs(es@.take(i as int)),
        decreases es@.len() - i,
    {
        proof { assert(es@.take(i + 1).drop_last() =~= es@.take(i as int)); }
        push_doc(&mut r, format_expr(&es[i], comments));
        i = i + 1;
    }
    proof { assert(es@.take(es@.len() as int) =~= es@); }
    r
}

fn format_variant_arg(a: &VariantArg, comments: &CommentMap) -> (d: Doc)
    ensures
        d@ == variant_arg_doc(*a),
    decreases a, 1nat,
{
    match &a.name {
        Some(n) => c3(tx_string(n), text(": "), format_expr(&a.value, comments)),
        None => format_expr(&a.value, comments),
    }
}

fn format_variant_args(args: &Vec<VariantArg>, comments: &CommentMap) -> (r: Vec<Doc>)
    ensures
        views_of(r@) == variant_args_docs(args@),
    decreases args, 0nat,
{
    let mut r = docs0();
    let mut i: usize = 0;
    while i < args.len()
        invariant
            i <= args@.len(),
            views_of(r@) == variant_args_docs(args@.take(i as int)),
        decreases args@.len() - i,
    {
        proof { assert(args@.take(i + 1).drop_last() =~= args@.take(i as int)); }
        push_doc(&mut r, format_variant_arg(&args[i], comments));
        i = i + 1;
    }
    proof { assert(args@.take(args@.len() as int) =~= args@); }
    r
}

fn push_elsif(parts: &mut Vec<Doc>, c: &ElsifClause, comments: &CommentMap)
    ensures
        views_of(final(parts)@) == views_of(old(parts)@) + elsif_parts(*c),
    decreases c, 1nat,
{
    push_doc(parts, hardline());
    push_doc(parts, text("elsif "));
    push_doc(parts, format_expr(&c.condition, comments));
    push_doc(parts, indented_x(format_block_body(&c.body, comments)));
    proof { assert(views_of(parts@) =~= views_of(old(parts)@) + elsif_parts(*c)); }
}

fn push_elsifs(parts: &mut Vec<Doc>, cs: &Vec<ElsifClause>, comments: &CommentMap)
    ensures
        views_of(final(parts)@) == views_of(old(parts)@) + elsifs_parts(cs@),
    decreases cs, 0nat,
{
    let ghost start = views_of(parts@);
    let mut i: usize = 0;
    proof { assert(start + elsifs_parts(cs@.take(0)) =~= start); }
    while i < cs.len()
        invariant
            i <= cs@.len(),
            views_of(parts@) == start + elsifs_parts(cs@.take(i as int)),
        decreases cs@.len() - i,
    {
        proof { assert(cs@.take(i + 1).drop_last() =~= cs@.take(i as int)); }
        let ghost before = views_of(parts@);
        push_elsif(parts, &cs[i], comments);
        proof {
            assert(elsifs_parts(cs@.take(i + 1)) == elsifs_parts(cs@.take(i as int)) + elsif_parts(cs@[i as int]));
            assert(views_of(parts@) =~= start + elsifs_parts(cs@.take(i + 1)));
        }
        i = i + 1;
    }
    proof { assert(cs@.take(cs@.len() as int) =~= cs@); }
}

fn push_else(parts: &mut Vec<Doc>, b: &Option<Block>, comments: &CommentMap)
    ensures
        views_of(final(parts)@) == views_of(old(parts)@) + else_parts(*b),
    decreases b, 0nat,
{
    match b {
        Some(body) => {
            push_doc(parts, hardline());
            push_doc(parts, text("else"));
            push_doc(parts, indented_x(format_block_body(body, comments)));
        },
        None => {},
    }
    proof { assert(views_of(parts@) =~= views_of(old(parts)@) + else_parts(*b)); }
}

fn format_arm_pattern(a: &MatchArm, comments: &CommentMap) -> (d: Doc)
    ensures
        d@ == arm_pattern_doc(*a),
    decreases a, 0nat,
{
    let pd = format_pattern(&a.pattern, comments);
    match &a.guard {
        Some(g) => c3(pd, text(" if "), format_expr(&**g, comments)),
        None => pd,
    }
}

fn format_arm(a: &MatchArm, comments: &CommentMap) -> (d: Doc)
    ensures
        d@ == arm_doc(*a),
    decreases a, 1nat,
{
    let pd = format_arm_pattern(a, comments);
    match &a.body {
        MatchArmBody::Expr(x) => group(c3(pd, text(" -> "), format_expr(x, comments))),
        MatchArmBody::Block(b) => {
            if b.statements.len() == 0 {
                c2(pd, text(" ->"))
            } else if b.statements.len() == 1 {
                group(c3(pd, text(" -> "), format_block_body(b, comments)))
            } else {
                let mut head = docs0();
                push_doc(&mut head, pd);
                push_doc(&mut head, text(" ->"));
                proof { assert(views_of(head@) =~= seq![arm_pattern_doc(*a), tx(" ->"@)]); }
                with_end_x(head, format_block_body(b, comments))
            }
        },
    }
}

fn format_arms(arms: &Vec<MatchArm>, comments: &CommentMap) -> (r: Vec<Doc>)
    ensures
        views_of(r@) == arms_docs(arms@),
    decreases arms, 0nat,
{
    let mut r = docs0();
    let mut i: usize = 0;
    while i < arms.len()
        invariant
            i <= arms@.len(),
            views_of(r@) == arms_docs(arms@.take(i as int)),
        decreases arms@.len() - i,
    {
        proof { assert(arms@.take(i + 1).drop_last() =~= arms@.take(i as int)); }
        push_doc(&mut r, format_arm(&arms[i], comments));
        i = i + 1;
    }
    proof { assert(arms@.take(arms@.len() as int) =~= arms@); }
    r
}

// ─── Blocks and statements ──────────────────────────────────────────

/// Lays out a block: nothing when it is empty, otherwise its statements.
pub fn format_block(block: &Block, comments: &CommentMap) -> (d: Doc)
    ensures
        d@ == (if block.statements@.len() == 0 { tx(Seq::empty()) } else { block_body_doc(*block) }),
    decreases block, 2nat,
{
    if block.statements.len() == 0 {
        return nil();
    }
    format_block_body(block, comments)
}

/// Lays out the statements of a block, one per line.
pub fn format_block_body(block: &Block, comments: &CommentMap) -> (d: Doc)
    ensures
        d@ == block_body_doc(*block),
    decreases block, 1nat,
{
    join(hardline(), format_statements(&block.statements, comments))
}

/// Lays out a statement.
pub fn format_statement(stmt: &Statement, comments: &CommentMap) -> (d: Doc)
    ensures
        d@ == stmt_doc(*stmt),
    decreases stmt, 1nat,
{
    match stmt {
        Statement::Let(l) => {
            let mut parts = docs0();
            push_doc(&mut parts, text("let "));
            if l.mutable {
                push_doc(&mut parts, text("mut "));
            }
            push_doc(&mut parts, format_pattern(&l.pattern, comments));
            match &l.type_annotation {
                Some(t) => {
                    push_doc(&mut parts, text(": "));
                    push_doc(&mut parts, format_type_expr(t, comments));
                },
                None => {},
            }
            match &l.value {
                Some(v) => {
                    push_doc(&mut parts, text(" = "));
                    push_doc(&mut parts, nested_x(format_expr(v, comments)));
                },
                None => {},
            }
            proof {
                let p1 = seq![tx("let "@)];
                let p2 = if l.mutable { p1.push(tx("mut "@)) } else { p1 };
                let p3 = p2.push(pattern_doc(l.pattern));
                let p4 = match &l.type_annotation {
                    Some(t) => p3.push(tx(": "@)).push(type_doc(*t)),
                    None => p3,
                };
                let p5 = match &l.value {
                    Some(v) => p4.push(tx(" = "@)).push(nested(expr_doc(*v))),
                    None => p4,
                };
                assert(views_of(parts@) =~= p5);
            }
            group(concat(parts))
        },
        Statement::Expression(x) => format_expr(x, comments),
    }
}

fn format_statements(ss: &Vec<Statement>, comments: &CommentMap) -> (r: Vec<Doc>)
    ensures
        views_of(r@) == stmts_docs(ss@),
    decreases ss, 0nat,
{
    let mut r = docs0();
    let mut i: usize = 0;
    while i < ss.len()
        invariant
            i <= ss@.len(),
            views_of(r@) == stmts_docs(ss@.take(i as int)),
        decreases ss@.len() - i,
    {
        proof { assert(ss@.take(i + 1).drop_last() =~= ss@.take(i as int)); }
        push_doc(&mut r, format_statement(&ss[i], comments));
        i = i + 1;
    }
    proof { assert(ss@.take(ss@.len() as int) =~= ss@); }
    r
}

// ─── Closures ───────────────────────────────────────────────────────

fn format_closure_param(p: &ClosureParam, comments: &CommentMap) -> (d: Doc)
    ensures
        d@ == closure_param_doc(*p),
    decreases p, 1nat,
{
    match &p.type_expr {
        Some(t) => c3(tx_string(&p.name), text(": "), format_type_expr(t, comments)),
        None => tx_string(&p.name),
    }
}

fn format_closure_param_list(ps: &Vec<ClosureParam>, comments: &CommentMap) -> (r: Vec<Doc>)
    ensures
        views_of(r@) == closure_params_docs(ps@),
    decreases ps, 0nat,
{
    let mut r = docs0();
    let mut i: usize = 0;
    while i < ps.len()
        invariant
            i <= ps@.len(),
            views_of(r@) == closure_params_docs(ps@.take(i as int)),
        decreases ps@.len() - i,
    {
        proof { assert(ps@.take(i + 1).drop_last() =~= ps@.take(i as int)); }
        push_doc(&mut r, format_closure_param(&ps[i], comments));
        i = i + 1;
    }
    proof { assert(ps@.take(ps@.len() as int) =~= ps@); }
    r
}

fn format_closure_params(ps: &Vec<ClosureParam>, comments: &CommentMap) -> (d: Doc)
    ensures
        d@ == closure_params_doc(ps@),
    decreases ps, 1nat,
{
    if ps.len() == 0 {
        return nil();
    }
    c3(text("|"), join(comma_space_x(), format_closure_param_list(ps, comments)), text("|"))
}

fn do_form_x(params: Doc, body: Doc) -> (d: Doc)
    ensures
        d@ == do_form(params@, body@),
{
    let mut head = docs0();
    let ghost pv = params@;
    push_doc(&mut head, text("do "));
    push_doc(&mut head, params);
    proof { assert(views_of(head@) =~= seq![tx("do "@), pv]); }
    with_end_x(head, body)
}

fn brace_form_x(params: Doc, body: Doc) -> (d: Doc)
    ensures
        d@ == brace_form(params@, body@),
{
    group(c5(text("{ "), params, text(" "), body, text(" }")))
}

/// Lays out a closure: `{ |params| body }` when it fits, `do |params| ... end` otherwise.
pub fn format_closure(closure: &ClosureExpr, comments: &CommentMap) -> (d: Doc)
    ensures
        d@ == closure_doc(*closure),
    decreases closure, 1nat,
{
    let pd = format_closure_params(&closure.params, comments);
    match &closure.body {
        ClosureBody::Expr(x) => brace_form_x(pd, format_expr(&**x, comments)),
        ClosureBody::Block(b) => {
            let bd = format_block_body(b, comments);
            if b.statements.len() <= 1 {
                let brace = brace_form_x(pd.duplicate(), bd.duplicate());
                group(if_break(do_form_x(pd, bd), brace))
            } else {
                do_form_x(pd, bd)
            }
        },
    }
}

} // verus!
