use riven::formatter::doc::render;
use riven::formatter::format_imports::{
    classify_import, format_sorted_imports, import_sort_key, merge_imports, ImportGroup,
};
use riven::formatter::format_items::format_use;
use riven::lexer::token::Span;
use riven::parser::ast::{UseDecl, UseKind};

fn make_use(path: &[&str], kind: UseKind) -> UseDecl {
    UseDecl {
        path: path.iter().map(|s| s.to_string()).collect(),
        kind,
        span: Span::new(0, 0, 1, 1),
    }
}

#[test]
fn test_classify_std() {
    let u = make_use(&["Std", "IO", "File"], UseKind::Simple);
    assert_eq!(classify_import(&u), ImportGroup::Std);
}

#[test]
fn test_classify_external() {
    let u = make_use(&["Http", "Client"], UseKind::Simple);
    assert_eq!(classify_import(&u), ImportGroup::External);
}

#[test]
fn test_classify_local() {
    let u = make_use(&["app", "models", "User"], UseKind::Simple);
    assert_eq!(classify_import(&u), ImportGroup::Local);
}

#[test]
fn classify_edge_cases() {
    assert_eq!(classify_import(&make_use(&[], UseKind::Simple)), ImportGroup::Local);
    assert_eq!(classify_import(&make_use(&["", "A"], UseKind::Simple)), ImportGroup::Local);
    assert_eq!(classify_import(&make_use(&["Stdx"], UseKind::Simple)), ImportGroup::External);
    assert_eq!(classify_import(&make_use(&["Émile"], UseKind::Simple)), ImportGroup::External);
    assert_eq!(classify_import(&make_use(&["_Std"], UseKind::Simple)), ImportGroup::Local);
}

#[test]
fn test_sort_within_group() {
    let imports = vec![
        make_use(&["Std", "IO", "File"], UseKind::Simple),
        make_use(&["Std", "Collections", "Vec"], UseKind::Simple),
    ];
    let doc = format_sorted_imports(&imports);
    let rendered = render(&doc);
    let lines: Vec<&str> = rendered.lines().collect();
    assert!(lines[0].contains("Collections"));
    assert!(lines[1].contains("IO"));
}

#[test]
fn test_group_names_sorted() {
    let u = make_use(
        &["Std", "IO"],
        UseKind::Group(vec!["File".into(), "BufReader".into()]),
    );
    let doc = format_use(&u);
    let rendered = render(&doc);
    assert!(rendered.contains("{BufReader, File}"));
}

#[test]
fn test_import_sorting_groups() {
    let imports = vec![
        UseDecl {
            path: vec!["Http".into(), "Client".into()],
            kind: UseKind::Simple,
            span: Span::new(0, 0, 1, 1),
        },
        UseDecl {
            path: vec!["Std".into(), "IO".into(), "File".into()],
            kind: UseKind::Simple,
            span: Span::new(0, 0, 1, 1),
        },
        UseDecl {
            path: vec!["app".into(), "models".into()],
            kind: UseKind::Simple,
            span: Span::new(0, 0, 1, 1),
        },
    ];

    let doc = format_sorted_imports(&imports);
    let rendered = render(&doc);
    let lines: Vec<&str> = rendered.lines().collect();

    // Std should come first
    assert!(lines[0].contains("Std"), "First line should be Std import: {}", lines[0]);
}

#[test]
fn import_groups_are_separated_by_a_blank_line() {
    let imports = vec![
        make_use(&["app", "models"], UseKind::Simple),
        make_use(&["Http", "Client"], UseKind::Simple),
        make_use(&["Std", "IO", "File"], UseKind::Simple),
        make_use(&["Json"], UseKind::Alias("J".to_string())),
    ];
    let rendered = render(&format_sorted_imports(&imports));
    assert_eq!(
        rendered,
        "use Std.IO.File\n\nuse Http.Client\nuse Json as J\n\nuse app.models"
    );
    assert_eq!(render(&format_sorted_imports(&[])), "");
}

#[test]
fn three_import_groups_each_on_its_own_paragraph() {
    let imports = vec![
        make_use(&["Http", "Client"], UseKind::Simple),
        make_use(&["Std", "IO", "File"], UseKind::Simple),
        make_use(&["app", "models"], UseKind::Simple),
    ];
    assert_eq!(
        render(&format_sorted_imports(&imports)),
        "use Std.IO.File\n\nuse Http.Client\n\nuse app.models"
    );
}

#[test]
fn use_declaration_forms() {
    assert_eq!(render(&format_use(&make_use(&["Std", "IO"], UseKind::Simple))), "use Std.IO");
    assert_eq!(
        render(&format_use(&make_use(&["Std", "IO"], UseKind::Alias("Io".to_string())))),
        "use Std.IO as Io"
    );
    let names: Vec<String> = (0..30).map(|i| format!("Name{:02}", 29 - i)).collect();
    let wide = render(&format_use(&make_use(&["Std", "Collections"], UseKind::Group(names))));
    assert!(wide.starts_with("use Std.Collections.{\n  Name00,\n  Name01,"));
    assert!(wide.ends_with("Name29\n}"));
}

#[test]
fn sort_keys() {
    assert_eq!(import_sort_key(&make_use(&["A", "B"], UseKind::Simple)), "A.B");
    assert_eq!(import_sort_key(&make_use(&["A"], UseKind::Alias("X".to_string()))), "A.X");
    assert_eq!(
        import_sort_key(&make_use(&["A"], UseKind::Group(vec!["z".into(), "b".into()]))),
        "A.{b,z}"
    );
}

fn rendered_lines(imports: &[UseDecl]) -> Vec<String> {
    merge_imports(imports)
        .iter()
        .map(|u| render(&format_use(u)))
        .collect()
}

#[test]
fn merging_imports_of_one_path() {
    let imports = vec![
        make_use(&["Std", "IO", "File"], UseKind::Simple),
        make_use(&["Std", "IO"], UseKind::Group(vec!["Read".into(), "BufReader".into()])),
        make_use(&["Std", "IO"], UseKind::Alias("Io".to_string())),
        make_use(&["Std", "IO"], UseKind::Group(vec!["Read".into()])),
        make_use(&["Std", "IO", "File"], UseKind::Simple),
    ];
    assert_eq!(
        rendered_lines(&imports),
        vec!["use Std.IO.File", "use Std.IO as Io", "use Std.IO.{BufReader, Read}"]
    );
}

#[test]
fn merging_keeps_a_single_simple_import() {
    let imports = vec![
        make_use(&["Http"], UseKind::Simple),
        make_use(&["Http"], UseKind::Simple),
        make_use(&["Json"], UseKind::Simple),
    ];
    assert_eq!(rendered_lines(&imports), vec!["use Http", "use Json"]);

    let imports = vec![
        make_use(&["Http"], UseKind::Simple),
        make_use(&["Http"], UseKind::Group(vec!["Client".into()])),
    ];
    assert_eq!(rendered_lines(&imports), vec!["use Http.{Client, Http}"]);
}
