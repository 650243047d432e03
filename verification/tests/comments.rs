use riven::formatter::comments::{
    Comment, CommentAttacher, CommentCollector, CommentKind, CommentPosition, FmtOffRange,
};
use riven::lexer::token::Span;

#[test]
fn test_collect_line_comment() {
    let source = "# hello world\n";
    let collector = CommentCollector::new(source);
    let (comments, _) = collector.collect();
    assert_eq!(comments.len(), 1);
    assert_eq!(comments[0].kind, CommentKind::Line);
    assert_eq!(comments[0].text, " hello world");
    assert_eq!(comments[0].position, CommentPosition::Leading);
}

#[test]
fn test_collect_doc_comment() {
    let source = "## A doc comment\n";
    let collector = CommentCollector::new(source);
    let (comments, _) = collector.collect();
    assert_eq!(comments.len(), 1);
    assert_eq!(comments[0].kind, CommentKind::Doc);
    assert_eq!(comments[0].text, "A doc comment");
}

#[test]
fn test_collect_block_comment() {
    let source = "#= block content =#\n";
    let collector = CommentCollector::new(source);
    let (comments, _) = collector.collect();
    assert_eq!(comments.len(), 1);
    assert_eq!(comments[0].kind, CommentKind::Block);
    assert_eq!(comments[0].text, " block content ");
}

#[test]
fn test_nested_block_comment() {
    let source = "#= outer #= inner =# still outer =#\n";
    let collector = CommentCollector::new(source);
    let (comments, _) = collector.collect();
    assert_eq!(comments.len(), 1);
    assert_eq!(comments[0].kind, CommentKind::Block);
}

#[test]
fn test_comment_in_string_ignored() {
    let source = "\"this # is not a comment\"\n";
    let collector = CommentCollector::new(source);
    let (comments, _) = collector.collect();
    assert_eq!(comments.len(), 0);
}

#[test]
fn test_trailing_comment() {
    let source = "let x = 42  # the answer\n";
    let collector = CommentCollector::new(source);
    let (comments, _) = collector.collect();
    assert_eq!(comments.len(), 1);
    assert_eq!(comments[0].position, CommentPosition::Trailing);
}

#[test]
fn test_fmt_off_on() {
    let source = "# fmt: off\ncode here\n# fmt: on\nmore code\n";
    let collector = CommentCollector::new(source);
    let (comments, ranges) = collector.collect();
    assert_eq!(comments.len(), 2);
    assert_eq!(ranges.len(), 1);
    assert!(ranges[0].end_byte.is_some());
}

#[test]
fn test_fmt_off_no_on() {
    let source = "# fmt: off\nrest of file\n";
    let collector = CommentCollector::new(source);
    let (_, ranges) = collector.collect();
    assert_eq!(ranges.len(), 1);
    assert!(ranges[0].end_byte.is_none());
}

#[test]
fn test_interpolation_not_comment() {
    let source = "\"hello #{name}\"\n# real comment\n";
    let collector = CommentCollector::new(source);
    let (comments, _) = collector.collect();
    assert_eq!(comments.len(), 1);
    assert_eq!(comments[0].kind, CommentKind::Line);
}

#[test]
fn test_comment_collector_multiple() {
    let source = "# first\n# second\ndef main\n  puts \"hello\"\nend\n";
    let collector = CommentCollector::new(source);
    let (comments, _) = collector.collect();
    assert_eq!(comments.len(), 2);
}

#[test]
fn test_comment_inside_interpolation_ignored() {
    let source = "let s = \"value: #{x + 1}\"\n# real comment\n";
    let collector = CommentCollector::new(source);
    let (comments, _) = collector.collect();
    assert_eq!(comments.len(), 1);
    assert_eq!(comments[0].kind, CommentKind::Line);
}

// Own tests.

#[test]
fn spans_lines_and_columns() {
    let source = "x = 1\n  # note\né # e\n";
    let (comments, _) = CommentCollector::new(source).collect();
    assert_eq!(comments.len(), 2);
    assert_eq!(comments[0].span, Span::new(8, 14, 2, 3));
    assert_eq!(comments[0].position, CommentPosition::Leading);
    assert_eq!(comments[1].span.start, 18);
    assert_eq!(comments[1].span.line, 3);
    assert_eq!(comments[1].span.column, 3);
    assert_eq!(comments[1].position, CommentPosition::Trailing);
}

#[test]
fn literals_hide_hashes() {
    let source = "'#' r#\"a # b\"# \"\"\"x # \"\" y\"\"\" 'a # lifetime\n\"#{ \"#{1}\" # in}\" #= unterminated";
    let (comments, _) = CommentCollector::new(source).collect();
    assert_eq!(comments.len(), 2);
    assert_eq!(comments[0].kind, CommentKind::Line);
    assert_eq!(comments[0].text, " lifetime");
    assert_eq!(comments[1].kind, CommentKind::Block);
    assert_eq!(comments[1].text, " unterminated");
}

#[test]
fn fmt_on_closes_last_open_range() {
    let source = "# fmt: off\na\n#   fmt: on  \nb\n# fmt: on\n";
    let (_, ranges) = CommentCollector::new(source).collect();
    assert_eq!(ranges, vec![FmtOffRange { start_byte: 0, end_byte: Some(26) }]);
}

fn comment(text: &str, start: usize, position: CommentPosition) -> Comment {
    Comment { kind: CommentKind::Line, text: text.to_string(), span: Span::new(start, start + 1, 1, 1), position }
}

#[test]
fn attach_by_position() {
    let spans = vec![(0usize, 50usize), (10, 20), (30, 40)];
    let comments = vec![
        comment("t", 25, CommentPosition::Trailing),
        comment("l", 22, CommentPosition::Leading),
        comment("d", 45, CommentPosition::Dangling),
        comment("late", 55, CommentPosition::Leading),
        comment("first", 0, CommentPosition::Trailing),
    ];
    let ranges = vec![FmtOffRange { start_byte: 5, end_byte: None }];
    let map = CommentAttacher::attach(comments, &spans, ranges);
    assert_eq!(map.trailing_comments(10).len(), 1);
    assert_eq!(map.trailing_comments(10)[0].text, "t");
    assert_eq!(map.leading_comments(30)[0].text, "l");
    assert_eq!(map.dangling_comments(0)[0].text, "d");
    assert_eq!(map.leading_comments(0)[0].text, "first");
    assert_eq!(map.leading_comments(0)[0].position, CommentPosition::Leading);
    assert!(map.leading_comments(99).is_empty());
    assert!(map.is_fmt_off(7));
    assert!(!map.is_fmt_off(4));
}

#[test]
fn comment_after_code_at_the_start_of_the_source_is_trailing() {
    let (comments, _) = CommentCollector::new("x # c\n").collect();
    assert_eq!(comments.len(), 1);
    assert_eq!(comments[0].position, CommentPosition::Trailing);
    let (comments, _) = CommentCollector::new(" # c\n").collect();
    assert_eq!(comments[0].position, CommentPosition::Leading);
}

#[test]
fn leading_comment_goes_to_the_first_node_after_it() {
    let c = Comment {
        kind: CommentKind::Line,
        text: " note".to_string(),
        span: Span::new(5, 11, 1, 6),
        position: CommentPosition::Leading,
    };
    let map = CommentAttacher::attach(vec![c], &[(0, 4), (30, 40), (12, 20), (12, 50)], vec![]);
    assert_eq!(map.leading_comments(12).len(), 1);
    assert!(map.leading_comments(30).is_empty());
}
