use riven::formatter::comments::{
    collect_node_spans, Comment, CommentAttacher, CommentKind, CommentMap, CommentPosition,
};
use riven::formatter::doc::{print_doc, render, text};
use riven::formatter::format_expr::{
    escape_char, escape_string, float_str, format_call_args, format_expr, format_pattern,
    format_type_expr, int_str,
};
use riven::formatter::format_items::format_program;
use riven::lexer::token::{NumericSuffix, Span, StringPart, Token, TokenKind};
use riven::parser::ast::{
    EnumDef, FfiFunction, FfiParam, LibDecl, LinkAttr, LinkKind, Variant, VariantKind,
    BinOp, Block, ClosureBody, ClosureExpr, ClosureParam, Expr, ExprKind, FieldPattern, FuncDef,
    MatchArm, MatchArmBody, MatchExpr, Pattern, Program, Statement, TopLevelItem, TypeExpr,
    TypePath, UseDecl, UseKind, Visibility,
};

fn sp(start: usize, end: usize) -> Span {
    Span { start, end, line: 1, column: 1 }
}

fn ex(kind: ExprKind) -> Expr {
    Expr { kind, span: sp(0, 0) }
}

fn ident(n: &str) -> Expr {
    ex(ExprKind::Identifier(n.to_string()))
}

fn named(n: &str) -> TypeExpr {
    TypeExpr::Named(TypePath { segments: vec![n.to_string()], generic_args: None, span: sp(0, 0) })
}

#[test]
fn call_args_empty_and_flat() {
    assert_eq!(render(&format_call_args(vec![])), "()");
    assert_eq!(render(&format_call_args(vec![text("a"), text("b")])), "(a, b)");
}

#[test]
fn call_args_break_with_trailing_comma() {
    let d = format_call_args(vec![text("alpha"), text("beta")]);
    assert_eq!(print_doc(&d, 8), "(\n  alpha,\n  beta,\n)");
}

#[test]
fn binary_op_and_literals() {
    let cm = CommentMap::new();
    let e = ex(ExprKind::BinaryOp {
        left: Box::new(ex(ExprKind::IntLiteral(1, None))),
        op: BinOp::Add,
        right: Box::new(ex(ExprKind::IntLiteral(-2, Some(NumericSuffix::I64)))),
    });
    assert_eq!(render(&format_expr(&e, &cm)), "1 + -2i64");
}

#[test]
fn string_and_char_literals_escaped() {
    let cm = CommentMap::new();
    let s = ex(ExprKind::StringLiteral("a\"b\n".to_string()));
    assert_eq!(render(&format_expr(&s, &cm)), "\"a\\\"b\\n\"");
    let c = ex(ExprKind::CharLiteral('\''));
    assert_eq!(render(&format_expr(&c, &cm)), "'\\''");
}

#[test]
fn literal_helpers() {
    assert_eq!(int_str(-42), "-42");
    assert_eq!(int_str(i64::MIN), "-9223372036854775808");
    assert_eq!(float_str(&"3".to_string()), "3.0");
    assert_eq!(float_str(&"-7".to_string()), "-7.0");
    assert_eq!(float_str(&"2.5".to_string()), "2.5");
    assert_eq!(float_str(&"inf".to_string()), "inf");
    assert_eq!(escape_string("tab\there"), "tab\\there");
    assert_eq!(escape_char('\n'), "\\n");
}

#[test]
fn method_chain_flat_and_broken() {
    let cm = CommentMap::new();
    let inner = ex(ExprKind::MethodCall {
        object: Box::new(ident("items")),
        method: "iter".to_string(),
        args: vec![],
        block: None,
    });
    let outer = ex(ExprKind::MethodCall {
        object: Box::new(inner),
        method: "count".to_string(),
        args: vec![ident("x")],
        block: None,
    });
    let d = format_expr(&outer, &cm);
    assert_eq!(render(&d), "items.iter.count(x)");
    assert_eq!(print_doc(&d, 12), "items\n  .iter\n  .count(x)");
}

#[test]
fn single_method_call_without_args_has_no_parens() {
    let cm = CommentMap::new();
    let e = ex(ExprKind::MethodCall {
        object: Box::new(ident("list")),
        method: "len".to_string(),
        args: vec![],
        block: None,
    });
    assert_eq!(render(&format_expr(&e, &cm)), "list.len");
}

#[test]
fn match_with_arms() {
    let cm = CommentMap::new();
    let arm = |p: Pattern, body: Expr| MatchArm { pattern: p, guard: None, body: MatchArmBody::Expr(body), span: sp(0, 0) };
    let m = ex(ExprKind::Match(MatchExpr {
        subject: Box::new(ident("x")),
        arms: vec![
            arm(
                Pattern::Enum { path: vec![], variant: "Some".to_string(), fields: vec![Pattern::Identifier { mutable: false, name: "v".to_string(), span: sp(0, 0) }], span: sp(0, 0) },
                ident("v"),
            ),
            arm(Pattern::Wildcard { span: sp(0, 0) }, ex(ExprKind::IntLiteral(0, None))),
        ],
    }));
    assert_eq!(render(&format_expr(&m, &cm)), "match x\n  Some(v) -> v\n  _ -> 0\nend");
}

#[test]
fn closure_brace_form() {
    let cm = CommentMap::new();
    let c = ex(ExprKind::Closure(ClosureExpr {
        params: vec![ClosureParam { name: "x".to_string(), type_expr: None, span: sp(0, 0) }],
        body: ClosureBody::Expr(Box::new(ex(ExprKind::BinaryOp {
            left: Box::new(ident("x")),
            op: BinOp::Mul,
            right: Box::new(ex(ExprKind::IntLiteral(2, None))),
        }))),
    }));
    assert_eq!(render(&format_expr(&c, &cm)), "{ |x| x * 2 }");
}

#[test]
fn patterns_laid_out() {
    let cm = CommentMap::new();
    let st = Pattern::Struct {
        path: vec!["Point".to_string()],
        fields: vec![FieldPattern { name: None, pattern: Pattern::Identifier { mutable: false, name: "x".to_string(), span: sp(0, 0) }, span: sp(0, 0) }],
        rest: true,
        span: sp(0, 0),
    };
    assert_eq!(render(&format_pattern(&st, &cm)), "Point { x, .. }");
    let r = Pattern::Ref { mutable: true, name: "y".to_string(), span: sp(0, 0) };
    assert_eq!(render(&format_pattern(&r, &cm)), "ref mut y");
}

#[test]
fn types_laid_out() {
    let cm = CommentMap::new();
    let generic = TypeExpr::Named(TypePath {
        segments: vec!["Hash".to_string()],
        generic_args: Some(vec![named("String"), named("Int")]),
        span: sp(0, 0),
    });
    assert_eq!(render(&format_type_expr(&generic, &cm)), "Hash[String, Int]");
    let r = TypeExpr::Reference { lifetime: Some("a".to_string()), mutable: true, inner: Box::new(named("Int")), span: sp(0, 0) };
    assert_eq!(render(&format_type_expr(&r, &cm)), "&'a mut Int");
}

fn use_item(path: &[&str], start: usize) -> TopLevelItem {
    TopLevelItem::Use(UseDecl { path: path.iter().map(|s| s.to_string()).collect(), kind: UseKind::Simple, span: sp(start, start + 5) })
}

fn main_fn(start: usize) -> TopLevelItem {
    let call = Expr {
        kind: ExprKind::Call {
            callee: Box::new(ident("puts")),
            args: vec![ex(ExprKind::StringLiteral("hi".to_string()))],
            block: None,
        },
        span: sp(start + 9, start + 19),
    };
    TopLevelItem::Function(FuncDef {
        visibility: Visibility::Private,
        self_mode: None,
        is_class_method: false,
        name: "main".to_string(),
        generic_params: None,
        params: vec![],
        return_type: None,
        where_clause: None,
        body: Block { statements: vec![Statement::Expression(call)], span: sp(start + 9, start + 19) },
        span: sp(start, start + 23),
    })
}

#[test]
fn program_items_and_blank_lines() {
    let cm = CommentMap::new();
    let p = Program { items: vec![use_item(&["A", "B"], 0), use_item(&["C"], 6), main_fn(12)], span: sp(0, 40) };
    assert_eq!(render(&format_program(&p, &cm)), "use A.B\nuse C\n\ndef main { puts(\"hi\") }\n");
}

#[test]
fn program_leading_comment_written_once() {
    let p = Program { items: vec![use_item(&["A"], 5)], span: sp(5, 10) };
    let spans = collect_node_spans(&p);
    let c = Comment { kind: CommentKind::Line, text: " hi".to_string(), span: sp(0, 4), position: CommentPosition::Leading };
    let cm = CommentAttacher::attach(vec![c], &spans, vec![]);
    assert_eq!(render(&format_program(&p, &cm)), "# hi\nuse A\n");
}

#[test]
fn node_spans_sorted_by_start() {
    let p = Program { items: vec![main_fn(30), use_item(&["A"], 2)], span: sp(0, 60) };
    let spans = collect_node_spans(&p);
    assert_eq!(spans, vec![(0, 60), (0, 0), (0, 0), (2, 7), (30, 53), (39, 49), (39, 49)]);
    for w in spans.windows(2) {
        assert!(w[0].0 <= w[1].0);
    }
    assert!(spans.contains(&(0, 60)));
    assert!(spans.contains(&(2, 7)));
    assert!(spans.contains(&(30, 53)));
}

#[test]
fn interpolated_string_keeps_tokens() {
    let cm = CommentMap::new();
    let e = ex(ExprKind::InterpolatedString(vec![
        StringPart::Literal("The answer is ".to_string()),
        StringPart::Expr(vec![
            Token { kind: TokenKind::Identifier("x".to_string()), span: sp(0, 0) },
            TokenKind::Plus.into_token(),
            Token { kind: TokenKind::IntLiteral(1, None), span: sp(0, 0) },
        ]),
    ]));
    assert_eq!(render(&format_expr(&e, &cm)), "\"The answer is #{x+1}\"");
}

trait IntoToken {
    fn into_token(self) -> Token;
}

impl IntoToken for TokenKind {
    fn into_token(self) -> Token {
        Token { kind: self, span: sp(0, 0) }
    }
}

#[test]
fn enum_and_lib_items() {
    let cm = CommentMap::new();
    let e = TopLevelItem::Enum(EnumDef {
        name: "Color".to_string(),
        generic_params: None,
        variants: vec![
            Variant { name: "Red".to_string(), fields: VariantKind::Unit, span: sp(0, 0) },
            Variant { name: "Green".to_string(), fields: VariantKind::Unit, span: sp(0, 0) },
        ],
        span: sp(0, 30),
    });
    let l = TopLevelItem::Lib(LibDecl {
        name: "C".to_string(),
        link_attrs: vec![LinkAttr { name: "m".to_string(), kind: LinkKind::Dynamic }],
        functions: vec![FfiFunction {
            name: "puts".to_string(),
            params: vec![FfiParam { name: "s".to_string(), type_expr: named("Str") }],
            is_variadic: false,
            return_type: None,
            span: sp(0, 0),
        }],
        span: sp(40, 80),
    });
    let p = Program { items: vec![e, l], span: sp(0, 80) };
    assert_eq!(
        render(&format_program(&p, &cm)),
        "enum Color\n  Red\n  Green\nend\n\nlib C\n  @[link(m, dynamic)]\n  def puts(s: Str)\nend\n"
    );
}

#[test]
fn empty_function_shows_dangling_comment() {
    let f = FuncDef {
        visibility: Visibility::Public,
        self_mode: None,
        is_class_method: false,
        name: "todo".to_string(),
        generic_params: None,
        params: vec![],
        return_type: None,
        where_clause: None,
        body: Block { statements: vec![], span: sp(0, 24) },
        span: sp(0, 24),
    };
    let p = Program { items: vec![TopLevelItem::Function(f)], span: sp(0, 24) };
    let spans = collect_node_spans(&p);
    let c = Comment { kind: CommentKind::Line, text: " later".to_string(), span: sp(12, 19), position: CommentPosition::Dangling };
    let cm = CommentAttacher::attach(vec![c], &spans, vec![]);
    assert_eq!(render(&format_program(&p, &cm)), "pub def todo\n  # later\nend\n");
}
