use riven::formatter::doc;
use riven::formatter::doc::{
    fill, group, hardline, if_break, join, line_suffix, nest, nil, print_doc, render, softline,
    text, INDENT_WIDTH,
};

#[test]
fn test_text() {
    let doc = text("hello");
    assert_eq!(render(&doc), "hello");
}

#[test]
fn test_hardline() {
    let doc = doc::concat(vec![text("a"), hardline(), text("b")]);
    assert_eq!(render(&doc), "a\nb");
}

#[test]
fn test_group_fits_flat() {
    let doc = group(doc::concat(vec![text("a"), doc::line(), text("b")]));
    assert_eq!(render(&doc), "a b");
}

#[test]
fn test_group_breaks() {
    let doc = group(doc::concat(vec![text("hello"), doc::line(), text("world")]));
    let result = print_doc(&doc, 5);
    assert_eq!(result, "hello\nworld");
}

#[test]
fn test_nest() {
    let doc = doc::concat(vec![
        text("if cond"),
        nest(INDENT_WIDTH, doc::concat(vec![hardline(), text("body")])),
        hardline(),
        text("end"),
    ]);
    assert_eq!(render(&doc), "if cond\n  body\nend");
}

#[test]
fn test_softline_flat() {
    let doc = group(doc::concat(vec![text("a"), softline(), text("b")]));
    assert_eq!(render(&doc), "ab");
}

#[test]
fn test_softline_break() {
    let doc = group(doc::concat(vec![text("a"), softline(), text("b")]));
    let result = print_doc(&doc, 1);
    assert_eq!(result, "a\nb");
}

#[test]
fn test_if_break() {
    let doc = group(doc::concat(vec![text("("), if_break(text(","), nil()), text(")")]));
    assert_eq!(render(&doc), "()");
}

#[test]
fn test_if_break_broken() {
    let inner = doc::concat(vec![
        text("("),
        nest(INDENT_WIDTH, doc::concat(vec![hardline(), text("item"), if_break(text(","), nil())])),
        hardline(),
        text(")"),
    ]);
    let result = render(&inner);
    assert_eq!(result, "(\n  item,\n)");
}

#[test]
fn test_join() {
    let doc = join(doc::concat(vec![text(","), doc::line()]), vec![text("a"), text("b"), text("c")]);
    let doc = group(doc);
    assert_eq!(render(&doc), "a, b, c");
}

#[test]
fn test_nested_groups() {
    let inner = group(doc::concat(vec![text("inner_a"), doc::line(), text("inner_b")]));
    let outer = group(doc::concat(vec![text("outer"), doc::line(), inner]));
    assert_eq!(render(&outer), "outer inner_a inner_b");
}

#[test]
fn test_line_suffix() {
    let doc = doc::concat(vec![text("code"), line_suffix(text(" # comment")), hardline(), text("next")]);
    assert_eq!(render(&doc), "code # comment\nnext");
}

#[test]
fn test_function_params_fit() {
    let params = join(doc::concat(vec![text(","), doc::line()]), vec![text("x: Int"), text("y: Int")]);
    let doc = group(doc::concat(vec![text("def add("), nest(INDENT_WIDTH, params), text(") -> Int")]));
    assert_eq!(render(&doc), "def add(x: Int, y: Int) -> Int");
}

#[test]
fn test_function_params_break() {
    let params = join(doc::concat(vec![text(","), doc::line()]), vec![text("x: Int"), text("y: Int")]);
    let doc = group(doc::concat(vec![
        text("def add("),
        nest(INDENT_WIDTH, doc::concat(vec![softline(), params])),
        softline(),
        text(") -> Int"),
    ]));
    let result = print_doc(&doc, 20);
    assert_eq!(result, "def add(\n  x: Int,\n  y: Int\n) -> Int");
}

#[test]
fn test_doc_nest_indent() {
    let doc = doc::concat(vec![
        text("class Foo"),
        nest(INDENT_WIDTH, doc::concat(vec![hardline(), text("x: Int")])),
        hardline(),
        text("end"),
    ]);
    assert_eq!(render(&doc), "class Foo\n  x: Int\nend");
}

#[test]
fn test_doc_group_break_on_narrow() {
    let doc = group(doc::concat(vec![
        text("def f("),
        nest(INDENT_WIDTH, doc::concat(vec![softline(), text("a: Int"), text(","), doc::line(), text("b: Int")])),
        softline(),
        text(")"),
    ]));
    assert_eq!(print_doc(&doc, 100), "def f(a: Int, b: Int)");
    let narrow = print_doc(&doc, 15);
    assert!(narrow.contains('\n'), "Expected line break in narrow mode: {}", narrow);
}

// Own tests.

#[test]
fn fill_breaks_every_separator_when_too_wide() {
    let doc = fill(vec![text("aa"), text("bb"), text("cc")]);
    assert_eq!(print_doc(&doc, 5), "aa\nbb\ncc");
    assert_eq!(print_doc(&doc, 100), "aa bb cc");
}

#[test]
fn empty_and_nil_documents() {
    assert_eq!(render(&nil()), "");
    assert_eq!(render(&doc::concat(vec![])), "");
    assert_eq!(render(&join(text(", "), vec![])), "");
}

#[test]
fn hardline_ends_the_fit_check_of_a_group() {
    let doc = group(doc::concat(vec![text("a"), doc::line(), text("b"), hardline(), text("c")]));
    assert_eq!(render(&doc), "a b\nc");
}

#[test]
fn group_fit_counts_the_text_that_follows_it() {
    let d = doc::concat(vec![
        group(doc::concat(vec![text("ab"), doc::line(), text("cd")])),
        text("efgh"),
    ]);
    assert_eq!(print_doc(&d, 6), "ab\ncdefgh");
    assert_eq!(print_doc(&d, 9), "ab cdefgh");
    let stops = doc::concat(vec![
        group(doc::concat(vec![text("ab"), doc::line(), text("cd")])),
        hardline(),
        text("efghijkl"),
    ]);
    assert_eq!(print_doc(&stops, 6), "ab cd\nefghijkl");
}
