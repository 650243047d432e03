use riven::codegen::runtime::{extract_method_name, runtime_name};
use riven::codegen::simple_type_size;
use riven::diagnostics::{Diagnostic, DiagnosticLevel};
use riven::formatter::{compress_blank_lines, ensure_trailing_newline, strip_trailing_whitespace};
use riven::hir::context::TypeContext;
use riven::hir::types::{TraitRef, Ty};
use riven::lexer::token::Span;

fn class(name: &str, args: Vec<Ty>) -> Ty {
    Ty::Class { name: name.to_string(), generic_args: args }
}

#[test]
fn type_display_names() {
    assert_eq!(Ty::Int.display_name(), "Int");
    assert_eq!(Ty::Unit.display_name(), "()");
    assert_eq!(Ty::Str.display_name(), "&str");
    assert_eq!(Ty::Tuple(vec![Ty::Int]).display_name(), "(Int,)");
    assert_eq!(Ty::Tuple(vec![Ty::Int, Ty::Bool]).display_name(), "(Int, Bool)");
    assert_eq!(Ty::Array(Box::new(Ty::UInt8), 4).display_name(), "[UInt8; 4]");
    assert_eq!(Ty::Hash(Box::new(Ty::String), Box::new(Ty::Int)).display_name(), "Hash[String, Int]");
    assert_eq!(Ty::SetOf(Box::new(Ty::Char)).display_name(), "Set[Char]");
    assert_eq!(
        Ty::RefMutLifetime("a".to_string(), Box::new(Ty::Int)).display_name(),
        "&'a mut Int"
    );
    assert_eq!(class("Map", vec![Ty::String, Ty::Infer(3)]).display_name(), "Map[String, ?T3]");
    assert_eq!(
        Ty::Fn { params: vec![Ty::Int, Ty::Int], ret: Box::new(Ty::Bool) }.display_name(),
        "Fn(Int, Int) -> Bool"
    );
    let display = TraitRef { name: "Into".to_string(), generic_args: vec![Ty::String] };
    assert_eq!(display.render(), "Into[String]");
    assert_eq!(
        Ty::TypeParam { name: "T".to_string(), bounds: vec![display] }.display_name(),
        "T: Into[String]"
    );
    assert_eq!(Ty::RawPtrMutVoid.display_name(), "*mut Void");
    assert_eq!(Ty::Error.display_name(), "<error>");
}

#[test]
fn type_properties() {
    assert!(Ty::Int.is_copy());
    assert!(!Ty::String.is_copy());
    assert!(Ty::Tuple(vec![Ty::Int, Ty::Bool]).is_copy());
    assert!(!Ty::Tuple(vec![Ty::Int, Ty::String]).is_copy());
    assert!(Ty::Ref(Box::new(Ty::String)).is_copy());
    assert!(!Ty::RefMut(Box::new(Ty::Int)).is_copy());
    assert!(Ty::Int32.is_signed_integer());
    assert!(Ty::UInt16.is_unsigned_integer());
    assert_eq!(Ty::Int16.bit_width(), Some(16));
    assert_eq!(Ty::String.bit_width(), None);
    assert!(Ty::Float32.is_float());
    assert!(Ty::Option(Box::new(Ty::Int)).is_option());
}

#[test]
fn type_context_binds_and_resolves() {
    let mut ctx = TypeContext::new();
    let a = ctx.fresh_type_var();
    let b = ctx.fresh_type_var();
    assert_eq!(ctx.type_var_count(), 2);
    assert_eq!(a.display_name(), "?T0");
    assert!(ctx.bind(1, Ty::Vec(Box::new(Ty::Int))).is_ok());
    assert!(ctx.bind(0, Ty::Option(Box::new(b.duplicate()))).is_ok());
    assert_eq!(ctx.resolve(&a).display_name(), "Option[Vec[Int]]");
    assert!(ctx.is_fully_resolved(&a));
    assert!(ctx.get_binding(1).is_some());
    assert!(ctx.get_binding(7).is_none());
}

#[test]
fn type_context_refuses_infinite_types() {
    let mut ctx = TypeContext::new();
    let a = ctx.fresh_type_var();
    let b = ctx.fresh_type_var();
    assert!(ctx.bind(1, Ty::Vec(Box::new(a.duplicate()))).is_ok());
    let err = ctx.bind(0, Ty::Option(Box::new(b.duplicate()))).unwrap_err();
    assert_eq!(err, "infinite type: ?T0 occurs in Option[?T1]");
    assert!(!ctx.is_fully_resolved(&b));
    assert_eq!(ctx.resolve(&b).display_name(), "Vec[?T0]");
}

#[test]
fn runtime_names() {
    assert_eq!(runtime_name("puts"), "riven_puts");
    assert_eq!(runtime_name("String_push_str"), "riven_string_push_str");
    assert_eq!(runtime_name("&str_len"), "riven_string_len");
    assert_eq!(runtime_name("Vec[Int]_push"), "riven_vec_push");
    assert_eq!(runtime_name("Hash[String, Int]_get"), "riven_hash_get");
    assert_eq!(runtime_name("Option[Int]_unwrap_or"), "riven_option_unwrap_or");
    assert_eq!(runtime_name("Option[Int]_whatever"), "riven_noop_passthrough");
    assert_eq!(runtime_name("VecIter_find"), "riven_noop_return_null");
    assert_eq!(runtime_name("Fn(Int)_call"), "riven_noop_passthrough");
    assert_eq!(runtime_name("my_function"), "my_function");
}

#[test]
fn method_names_of_mangled_calls() {
    assert_eq!(extract_method_name("Vec[Int]_push"), "push");
    assert_eq!(extract_method_name("Hash[String, Vec[Int]]_insert"), "insert");
    assert_eq!(extract_method_name("String_push_str"), "push_str");
    assert_eq!(extract_method_name("puts"), "puts");
}

#[test]
fn heap_size_estimates() {
    assert_eq!(simple_type_size(&Ty::Bool), 1);
    assert_eq!(simple_type_size(&Ty::Int16), 2);
    assert_eq!(simple_type_size(&Ty::Char), 4);
    assert_eq!(simple_type_size(&Ty::Float), 8);
    assert_eq!(simple_type_size(&Ty::String), 24);
    assert_eq!(simple_type_size(&Ty::Str), 16);
    assert_eq!(simple_type_size(&Ty::SetOf(Box::new(Ty::Int))), 48);
    assert_eq!(simple_type_size(&Ty::Unit), 0);
    assert_eq!(simple_type_size(&class("Point", vec![])), 64);
    assert_eq!(simple_type_size(&Ty::Tuple(vec![])), 8);
    assert_eq!(simple_type_size(&Ty::Tuple(vec![Ty::Int, Ty::Int, Ty::Int])), 24);
    assert_eq!(simple_type_size(&Ty::Array(Box::new(Ty::Bool), 10)), 80);
    assert_eq!(simple_type_size(&Ty::Infer(0)), 8);
}

#[test]
fn diagnostics_render_on_one_line() {
    let span = Span::new(10, 14, 3, 7);
    let e = Diagnostic::error_with_code("use of moved value".to_string(), span, "E0382".to_string());
    assert_eq!(e.to_string(), "[E0382] error: use of moved value (at 3:7)");
    let w = Diagnostic::warning("unused variable".to_string(), span);
    assert_eq!(w.level, DiagnosticLevel::Warning);
    assert_eq!(w.to_string(), "warning: unused variable (at 3:7)");
    assert_eq!(DiagnosticLevel::Help.to_string(), "help");
    assert!(Diagnostic::error("x".to_string(), span).code.is_none());
}

#[test]
fn output_post_processing() {
    assert_eq!(strip_trailing_whitespace("a  \nb\t\n  c "), "a\nb\n  c");
    assert_eq!(strip_trailing_whitespace("a\r\nb"), "a\nb");
    assert_eq!(ensure_trailing_newline("x"), "x\n");
    assert_eq!(ensure_trailing_newline("x\n"), "x\n");
    assert_eq!(compress_blank_lines("a\n\n\n\n\nb"), "a\n\n\nb");
    assert_eq!(compress_blank_lines("a\n\nb"), "a\n\nb");
    assert_eq!(compress_blank_lines("\n\n\n\na"), "a");
}

#[test]
fn resolution_check_looks_inside_newtypes_and_raw_pointers() {
    let mut ctx = TypeContext::new();
    let v = ctx.fresh_type_var();
    let meters = Ty::Newtype { name: "Meters".to_string(), inner: Box::new(v.duplicate()) };
    assert!(!ctx.is_fully_resolved(&meters));
    let ptr = Ty::RawPtr(Box::new(v.duplicate()));
    assert!(!ctx.is_fully_resolved(&ptr));
    assert!(ctx.bind(0, Ty::Int).is_ok());
    assert!(ctx.is_fully_resolved(&meters));
    assert!(ctx.is_fully_resolved(&ptr));
    assert!(ctx.is_fully_resolved(&Ty::RawPtrMut(Box::new(Ty::Bool))));
}


#[test]
fn trait_bound_arguments_are_inspected() {
    let mut ctx = TypeContext::new();
    let v = ctx.fresh_type_var();
    let bound = TraitRef { name: "Iterator".to_string(), generic_args: vec![v.duplicate()] };
    let imp = Ty::ImplTrait(vec![bound]);
    assert!(!ctx.is_fully_resolved(&imp));
    let err = ctx.bind(0, imp).unwrap_err();
    assert!(err.starts_with("infinite type: ?T0 occurs in"));
    assert!(ctx.bind(0, Ty::Int).is_ok());
    let bound = TraitRef { name: "Iterator".to_string(), generic_args: vec![v.duplicate()] };
    assert!(ctx.is_fully_resolved(&Ty::DynTrait(vec![bound])));
}
