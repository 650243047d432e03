//! Layout of top-level items and of a whole source file.
use vstd::prelude::*;
use std::collections::HashSet;
use crate::formatter::comments::{
    comments_view, group_at, groups_view, Comment, CommentKind, CommentMap, CommentView,
};
use crate::formatter::doc::{
    concat, group, hardline, if_break, intersperse, join, line, nest, softline, text, views_of, Doc,
    DocView, INDENT_WIDTH,
};
use crate::formatter::format_expr::{
    after_hardlines, after_lines_x, append_docs, block_body_doc, bounds_docs, c2, c3, c4, c5, call_args_doc,
    comma_space, comma_space_x, docs0, expr_doc, format_block_body, format_call_args, format_expr,
    format_generic_params, format_trait_bounds, format_type_expr, format_type_path,
    format_where_clause, generic_params_doc, indented, indented_x, is_compound_kind,
    joined, list_after, list_after_x, nested, nested_x, plus_joined, push_doc, tx, tx_string,
    type_doc, type_path_doc, where_clause_doc, with_end, with_end_x,
};
use crate::formatter::format_imports::{sort_strings, sorted_strs};
use crate::parser::ast::{
    ClassDef, EnumDef, ExprKind, ExternBlock, FfiFunction, FieldDecl, FuncDef, GenericParams,
    ImplBlock, ImplItem, InnerImpl, LibDecl, LinkAttr, LinkKind, MethodSig, Param, Program,
    SelfMode, Statement, StructDef, TopLevelItem, TraitDef, TraitItem, TypeExpr, UseDecl,
    UseDeclView, UseKind, UseKindView, Variant, VariantField, VariantKind, Visibility, Block,
};
use crate::text::{join_sep, join_strings, push_str};

verus! {

/// Text documents for each name.
pub open spec fn name_texts(ns: Seq<Seq<char>>) -> Seq<DocView> {
    ns.map_values(|n: Seq<char>| DocView::Text(n))
}

/// The layout of a `use` declaration: `use A.B`, `use A.B as C`, or a group
/// `use A.{x, y}` with its names sorted, which breaks one name per line when it does
/// not fit.
pub open spec fn format_use_spec(u: UseDeclView) -> DocView {
    let path_str = join_sep(u.path, "."@);
    match u.kind {
        UseKindView::Simple => DocView::Concat(seq![DocView::Text("use "@), DocView::Text(path_str)]),
        UseKindView::Alias(a) => DocView::Concat(
            seq![
                DocView::Text("use "@),
                DocView::Text(path_str),
                DocView::Text(" as "@),
                DocView::Text(a),
            ],
        ),
        UseKindView::Group(ns) => DocView::Group(
            Box::new(
                DocView::Concat(
                    seq![
                        DocView::Text("use "@),
                        DocView::Text(path_str),
                        DocView::Text(".{"@),
                        DocView::Nest(
                            INDENT_WIDTH as int,
                            Box::new(
                                DocView::Concat(
                                    seq![
                                        DocView::Softline,
                                        DocView::Concat(
                                            intersperse(
                                                DocView::Concat(seq![DocView::Text(","@), DocView::Line]),
                                                name_texts(sorted_strs(ns)),
                                            ),
                                        ),
                                    ],
                                ),
                            ),
                        ),
                        DocView::Softline,
                        DocView::Text("}"@),
                    ],
                ),
            ),
        ),
    }
}

fn vec2(a: Doc, b: Doc) -> (v: Vec<Doc>)
    ensures
        views_of(v@) == seq![a@, b@],
{
    let mut v: Vec<Doc> = Vec::new();
    v.push(a);
    v.push(b);
    proof { assert(views_of(v@) =~= seq![a@, b@]); }
    v
}

/// Lays out a `use` declaration.
pub fn format_use(u: &UseDecl) -> (d: Doc)
    ensures
        d@ == format_use_spec(u@),
{
    let path_str = join_strings(&u.path, ".");
    match &u.kind {
        UseKind::Simple => concat(vec2(text("use "), text(path_str.as_str()))),
        UseKind::Alias(alias) => {
            let mut v: Vec<Doc> = Vec::new();
            v.push(text("use "));
            v.push(text(path_str.as_str()));
            v.push(text(" as "));
            v.push(text(alias.as_str()));
            proof {
                assert(views_of(v@) =~= seq![
                    DocView::Text("use "@),
                    DocView::Text(path_str@),
                    DocView::Text(" as "@),
                    DocView::Text(alias@),
                ]);
            }
            concat(v)
        },
        UseKind::Group(names) => {
            let sorted = sort_strings(names);
            let mut name_docs: Vec<Doc> = Vec::new();
            let mut i: usize = 0;
            while i < sorted.len()
                invariant
                    i <= sorted@.len(),
                    name_docs@.len() == i,
                    forall|k: int| 0 <= k < i ==> #[trigger] name_docs@[k]@ == DocView::Text(sorted@[k]@),
                decreases sorted@.len() - i,
            {
                name_docs.push(text(sorted[i].as_str()));
                i = i + 1;
            }
            proof {
                assert(views_of(name_docs@) =~= name_texts(sorted_strs(u.kind@->Group_0)));
            }
            let sep = concat(vec2(text(","), line()));
            let names_doc = join(sep, name_docs);
            let inner = concat(vec2(softline(), names_doc));
            let mut v: Vec<Doc> = Vec::new();
            v.push(text("use "));
            v.push(text(path_str.as_str()));
            v.push(text(".{"));
            v.push(nest(INDENT_WIDTH, inner));
            v.push(softline());
            v.push(text("}"));
            proof {
                assert(views_of(v@) =~= seq![
                    DocView::Text("use "@),
                    DocView::Text(path_str@),
                    DocView::Text(".{"@),
                    v@[3]@,
                    DocView::Softline,
                    DocView::Text("}"@),
                ]);
            }
            group(concat(v))
        },
    }
}


// ─── Comments ───────────────────────────────────────────────────────

/// How a comment is written back: `#text`, `## text` or `#=text=#`.
pub open spec fn comment_doc(c: CommentView) -> DocView {
    match c.kind {
        CommentKind::Line => tx("#"@ + c.text),
        CommentKind::Doc => tx("## "@ + c.text),
        CommentKind::Block => tx("#="@ + c.text + "=#"@),
    }
}

/// The comments of a map at a node's start.
pub open spec fn at(m: Map<usize, Seq<CommentView>>, k: usize) -> Seq<CommentView> {
    group_at(m, k)
}

/// The parts written so far, and the start offsets of the comments already written.
pub struct Emitted {
    pub parts: Seq<DocView>,
    pub seen: Set<usize>,
}

/// Comments written before a node, each on its own line; a comment already written is
/// skipped.
pub open spec fn emit_leading(st: Emitted, cs: Seq<CommentView>) -> Emitted
    decreases cs.len(),
{
    if cs.len() == 0 {
        st
    } else {
        let s = emit_leading(st, cs.drop_last());
        let c = cs.last();
        if s.seen.contains(c.span.start) {
            s
        } else {
            Emitted { parts: s.parts.push(comment_doc(c)).push(DocView::Hardline), seen: s.seen.insert(c.span.start) }
        }
    }
}

/// Comments written after a node, each after two spaces; a comment already written is
/// skipped.
pub open spec fn emit_trailing(st: Emitted, cs: Seq<CommentView>) -> Emitted
    decreases cs.len(),
{
    if cs.len() == 0 {
        st
    } else {
        let s = emit_trailing(st, cs.drop_last());
        let c = cs.last();
        if s.seen.contains(c.span.start) {
            s
        } else {
            Emitted { parts: s.parts.push(tx("  "@)).push(comment_doc(c)), seen: s.seen.insert(c.span.start) }
        }
    }
}

// ─── Items ──────────────────────────────────────────────────────────

/// Where a top-level item begins.
pub open spec fn item_start(item: TopLevelItem) -> usize {
    match item {
        TopLevelItem::Module(m) => m.span.start,
        TopLevelItem::Class(c) => c.span.start,
        TopLevelItem::Struct(s) => s.span.start,
        TopLevelItem::Enum(e) => e.span.start,
        TopLevelItem::Trait(t) => t.span.start,
        TopLevelItem::Impl(i) => i.span.start,
        TopLevelItem::Function(f) => f.span.start,
        TopLevelItem::Use(u) => u.span.start,
        TopLevelItem::TypeAlias(t) => t.span.start,
        TopLevelItem::Newtype(n) => n.span.start,
        TopLevelItem::Const(c) => c.span.start,
        TopLevelItem::Lib(l) => l.span.start,
        TopLevelItem::Extern(e) => e.span.start,
    }
}

/// The state after the program's own leading comments and the first items.
pub open spec fn items_state(
    lead: Map<usize, Seq<CommentView>>,
    trail: Map<usize, Seq<CommentView>>,
    dang: Map<usize, Seq<CommentView>>,
    start: Emitted,
    items: Seq<TopLevelItem>,
) -> Emitted
    decreases items.len(),
{
    if items.len() == 0 {
        start
    } else {
        let prev = items.drop_last();
        let item = items.last();
        let st = items_state(lead, trail, dang, start, prev);
        let p1 = if prev.len() > 0 {
            let p = if prev.last() is Use && item is Use { st.parts } else { st.parts.push(DocView::Hardline) };
            p.push(DocView::Hardline)
        } else {
            st.parts
        };
        let s2 = emit_leading(Emitted { parts: p1, seen: st.seen }, at(lead, item_start(item)));
        let s3 = Emitted { parts: s2.parts.push(item_doc(item, dang)), seen: s2.seen };
        emit_trailing(s3, at(trail, item_start(item)))
    }
}

/// The layout of a source file: its leading comments, then the items, a blank line
/// between consecutive items except between two `use` declarations, each with its
/// leading and trailing comments (none written twice), and a final line break.
pub open spec fn program_doc(
    p: Program,
    lead: Map<usize, Seq<CommentView>>,
    trail: Map<usize, Seq<CommentView>>,
    dang: Map<usize, Seq<CommentView>>,
) -> DocView {
    let s0 = emit_leading(Emitted { parts: Seq::empty(), seen: Set::empty() }, at(lead, p.span.start));
    DocView::Concat(items_state(lead, trail, dang, s0, p.items@).parts.push(DocView::Hardline))
}

/// The layout of a source file ends with a line break.
pub proof fn law_program_ends_with_line_break(
    p: Program,
    lead: Map<usize, Seq<CommentView>>,
    trail: Map<usize, Seq<CommentView>>,
    dang: Map<usize, Seq<CommentView>>,
)
    ensures
        program_doc(p, lead, trail, dang) is Concat,
        program_doc(p, lead, trail, dang)->Concat_0.len() > 0,
        program_doc(p, lead, trail, dang)->Concat_0.last() == DocView::Hardline,
{
}

/// `header`, the body indented, and `end`.
pub open spec fn headed(header: Seq<DocView>, body: DocView) -> DocView {
    DocView::Concat(seq![DocView::Concat(header), indented(body), DocView::Hardline, tx("end"@)])
}

/// The prefix written for a visibility.
pub open spec fn visibility_parts(v: Visibility) -> Seq<DocView> {
    match v {
        Visibility::Public => seq![tx("pub "@)],
        Visibility::Protected => seq![tx("protected "@)],
        Visibility::Private => Seq::empty(),
    }
}

/// The prefix written for how a method takes `self`.
pub open spec fn self_mode_parts(m: Option<SelfMode>) -> Seq<DocView> {
    match m {
        Some(SelfMode::Mutable) => seq![tx("mut "@)],
        Some(SelfMode::Consuming) => seq![tx("consume "@)],
        _ => Seq::empty(),
    }
}

/// The generic parameters, if any.
pub open spec fn gp_parts(gp: Option<GenericParams>) -> Seq<DocView> {
    match gp {
        Some(g) => seq![generic_params_doc(g)],
        None => Seq::empty(),
    }
}

/// ` -> T`, if there is a return type.
pub open spec fn ret_parts(rt: Option<TypeExpr>) -> Seq<DocView> {
    match rt {
        Some(t) => seq![tx(" -> "@), type_doc(t)],
        None => Seq::empty(),
    }
}

/// The layout of a function parameter.
pub open spec fn param_doc(p: Param) -> DocView {
    DocView::Concat(
        (if p.auto_assign { seq![tx("@"@)] } else { Seq::empty() }) + seq![tx(p.name@), tx(": "@), type_doc(p.type_expr)],
    )
}

/// The layouts of a list of parameters.
pub open spec fn params_docs(ps: Seq<Param>) -> Seq<DocView> {
    Seq::new(ps.len(), |i: int| param_doc(ps[i]))
}

/// The argument list of parameters, when there are any.
pub open spec fn params_parts(ps: Seq<Param>) -> Seq<DocView> {
    if ps.len() > 0 { seq![call_args_doc(params_docs(ps))] } else { Seq::empty() }
}

/// The signature of a function.
pub open spec fn sig_doc(f: FuncDef) -> DocView {
    DocView::Group(Box::new(DocView::Concat(
        visibility_parts(f.visibility) + seq![tx("def "@)] + self_mode_parts(f.self_mode)
            + (if f.is_class_method { seq![tx("self."@)] } else { Seq::empty() }) + seq![tx(f.name@)]
            + gp_parts(f.generic_params) + params_parts(f.params@) + ret_parts(f.return_type)
            + (match f.where_clause {
                Some(w) => seq![where_clause_doc(w)],
                None => Seq::empty(),
            }),
    )))
}

/// A body of one expression that is neither control flow, a block nor a closure.
pub open spec fn is_simple_inline_body(b: Block) -> bool {
    b.statements@.len() == 1 && match b.statements@[0] {
        Statement::Let(_) => false,
        Statement::Expression(x) => !is_compound_kind(x.kind),
    }
}

/// The layout of a function: signature then body and `end`; an empty body shows its
/// dangling comments; a body of one simple expression goes inline in braces when it fits.
pub open spec fn func_doc(f: FuncDef, dang: Map<usize, Seq<CommentView>>) -> DocView {
    let sig = sig_doc(f);
    if f.body.statements@.len() == 0 {
        let cs = at(dang, f.span.start);
        if cs.len() == 0 {
            DocView::Concat(seq![sig, DocView::Hardline, tx("end"@)])
        } else {
            DocView::Concat(seq![
                sig,
                nested(DocView::Concat(after_hardlines(Seq::new(cs.len(), |i: int| comment_doc(cs[i]))))),
                DocView::Hardline,
                tx("end"@),
            ])
        }
    } else if is_simple_inline_body(f.body) {
        let bd = block_body_doc(f.body);
        let inline = DocView::Group(Box::new(DocView::Concat(seq![sig, tx(" { "@), bd, tx(" }"@)])));
        let expanded = with_end(seq![sig], bd);
        DocView::Group(Box::new(DocView::IfBreak(Box::new(expanded), Box::new(inline))))
    } else {
        with_end(seq![sig], block_body_doc(f.body))
    }
}

/// The layouts of a list of functions.
pub open spec fn funcs_docs(fs: Seq<FuncDef>, dang: Map<usize, Seq<CommentView>>) -> Seq<DocView> {
    Seq::new(fs.len(), |i: int| func_doc(fs[i], dang))
}

/// The layout of a field.
pub open spec fn field_doc(f: FieldDecl) -> DocView {
    DocView::Concat(visibility_parts(f.visibility) + seq![tx(f.name@), tx(": "@), type_doc(f.type_expr)])
}

/// The layouts of a list of fields.
pub open spec fn fields_docs(fs: Seq<FieldDecl>) -> Seq<DocView> {
    Seq::new(fs.len(), |i: int| field_doc(fs[i]))
}

/// The layout of an item of an `impl` block.
pub open spec fn impl_item_doc(it: ImplItem, dang: Map<usize, Seq<CommentView>>) -> DocView {
    match it {
        ImplItem::AssocType { name, type_expr, .. } => DocView::Concat(
            seq![tx("type "@), tx(name@), tx(" = "@), type_doc(type_expr)],
        ),
        ImplItem::Method(f) => func_doc(f, dang),
    }
}

/// Items of an `impl` block, separated by blank lines.
pub open spec fn impl_items_doc(its: Seq<ImplItem>, dang: Map<usize, Seq<CommentView>>) -> DocView {
    joined(DocView::Concat(seq![DocView::Hardline, DocView::Hardline]), Seq::new(its.len(), |i: int| impl_item_doc(its[i], dang)))
}

/// A trait implemented inside a class body.
pub open spec fn inner_impl_doc(imp: InnerImpl, dang: Map<usize, Seq<CommentView>>) -> DocView {
    headed(seq![tx("impl "@), type_path_doc(imp.trait_name)], impl_items_doc(imp.items@, dang))
}

/// The layout of a class: fields one per line, then methods and inner impls, the
/// sections separated by blank lines.
pub open spec fn class_doc(c: ClassDef, dang: Map<usize, Seq<CommentView>>) -> DocView {
    let header = seq![tx("class "@), tx(c.name@)] + gp_parts(c.generic_params) + (match c.parent {
        Some(p) => seq![tx(" < "@), type_path_doc(p)],
        None => Seq::empty(),
    });
    let fds = fields_docs(c.fields@);
    let sections = (if fds.len() > 0 { seq![joined(DocView::Hardline, fds)] } else { Seq::empty() })
        + funcs_docs(c.methods@, dang)
        + Seq::new(c.inner_impls@.len(), |i: int| inner_impl_doc(c.inner_impls@[i], dang));
    headed(header, joined(DocView::Concat(seq![DocView::Hardline, DocView::Hardline]), sections))
}

/// The layout of a struct: fields one per line, then its derives.
pub open spec fn struct_doc(s: StructDef) -> DocView {
    let header = seq![tx("struct "@), tx(s.name@)] + gp_parts(s.generic_params);
    let fds = fields_docs(s.fields@);
    let parts = if s.derive_traits@.len() > 0 {
        (if fds.len() > 0 { fds.push(DocView::Hardline) } else { fds }).push(DocView::Concat(seq![
            tx("derive "@),
            joined(comma_space(), Seq::new(s.derive_traits@.len(), |i: int| tx(s.derive_traits@[i]@))),
        ]))
    } else {
        fds
    };
    headed(header, joined(DocView::Hardline, parts))
}

/// The layout of an enum variant's field.
pub open spec fn variant_field_doc(f: VariantField) -> DocView {
    match f.name {
        Some(n) => DocView::Concat(seq![tx(n@), tx(": "@), type_doc(f.type_expr)]),
        None => type_doc(f.type_expr),
    }
}

/// The layout of an enum variant: its name, and its fields in parentheses.
pub open spec fn variant_doc(v: Variant) -> DocView {
    match v.fields {
        VariantKind::Unit => tx(v.name@),
        VariantKind::Tuple(fs) => list_after(tx(v.name@), "("@, Seq::new(fs@.len(), |i: int| variant_field_doc(fs@[i])), ")"@),
        VariantKind::Struct(fs) => list_after(tx(v.name@), "("@, Seq::new(fs@.len(), |i: int| variant_field_doc(fs@[i])), ")"@),
    }
}

/// The layout of an enum: one variant per line.
pub open spec fn enum_doc(e: EnumDef) -> DocView {
    headed(
        seq![tx("enum "@), tx(e.name@)] + gp_parts(e.generic_params),
        joined(DocView::Hardline, Seq::new(e.variants@.len(), |i: int| variant_doc(e.variants@[i]))),
    )
}

/// The layout of a method signature in a trait.
pub open spec fn method_sig_doc(m: MethodSig) -> DocView {
    DocView::Group(Box::new(DocView::Concat(
        self_mode_parts(m.self_mode) + seq![tx("def "@)]
            + (if m.is_class_method { seq![tx("self."@)] } else { Seq::empty() }) + seq![tx(m.name@)]
            + gp_parts(m.generic_params) + params_parts(m.params@) + ret_parts(m.return_type),
    )))
}

/// The layout of an item of a trait.
pub open spec fn trait_item_doc(it: TraitItem, dang: Map<usize, Seq<CommentView>>) -> DocView {
    match it {
        TraitItem::AssocType { name, .. } => tx("type "@ + name@),
        TraitItem::MethodSig(m) => method_sig_doc(m),
        TraitItem::DefaultMethod(f) => func_doc(f, dang),
    }
}

/// The layout of a trait: its supertraits after a colon, then one item per line.
pub open spec fn trait_doc(t: TraitDef, dang: Map<usize, Seq<CommentView>>) -> DocView {
    let header = seq![tx("trait "@), tx(t.name@)] + gp_parts(t.generic_params)
        + (if t.super_traits@.len() > 0 { seq![tx(": "@), plus_joined(bounds_docs(t.super_traits@))] } else { Seq::empty() });
    headed(header, joined(DocView::Hardline, Seq::new(t.items@.len(), |i: int| trait_item_doc(t.items@[i], dang))))
}

/// The layout of an `impl` block.
pub open spec fn impl_doc(imp: ImplBlock, dang: Map<usize, Seq<CommentView>>) -> DocView {
    let header = seq![tx("impl "@)]
        + (match imp.generic_params {
            Some(g) => seq![generic_params_doc(g), tx(" "@)],
            None => Seq::empty(),
        })
        + (match imp.trait_name {
            Some(t) => seq![type_path_doc(t), tx(" for "@)],
            None => Seq::empty(),
        })
        + seq![type_doc(imp.target_type)];
    headed(header, impl_items_doc(imp.items@, dang))
}

/// How a link kind is written.
pub open spec fn link_kind_text(k: LinkKind) -> Seq<char> {
    match k {
        LinkKind::Dynamic => "dynamic"@,
        LinkKind::Static => "static"@,
        LinkKind::Framework => "framework"@,
    }
}

/// The layout of a foreign function declaration.
pub open spec fn ffi_doc(f: FfiFunction) -> DocView {
    let pds = Seq::new(f.params@.len(), |i: int| DocView::Concat(
        seq![tx(f.params@[i].name@), tx(": "@), type_doc(f.params@[i].type_expr)],
    ));
    let all = if f.is_variadic { pds.push(tx("..."@)) } else { pds };
    DocView::Group(Box::new(DocView::Concat(
        seq![tx("def "@), tx(f.name@)]
            + (if pds.len() > 0 || f.is_variadic { seq![call_args_doc(all)] } else { Seq::empty() })
            + ret_parts(f.return_type),
    )))
}

/// Foreign functions, one per line.
pub open spec fn ffis_doc(fs: Seq<FfiFunction>) -> DocView {
    joined(DocView::Hardline, Seq::new(fs.len(), |i: int| ffi_doc(fs[i])))
}

/// The line written for a link attribute.
pub open spec fn link_attr_parts(a: LinkAttr) -> Seq<DocView> {
    seq![DocView::Hardline, tx("  @[link("@ + a.name@ + ", "@ + link_kind_text(a.kind) + ")]"@)]
}

/// The header of a `lib` declaration: its name, then its link attributes on lines of
/// their own.
pub open spec fn lib_header(l: LibDecl) -> Seq<DocView> {
    lib_header_from(seq![tx("lib "@), tx(l.name@)], l.link_attrs@)
}

/// `start` followed by the lines of the link attributes.
pub open spec fn lib_header_from(start: Seq<DocView>, attrs: Seq<LinkAttr>) -> Seq<DocView>
    decreases attrs.len(),
{
    if attrs.len() == 0 {
        start
    } else {
        lib_header_from(start, attrs.drop_last()) + link_attr_parts(attrs.last())
    }
}

/// The layout of a top-level item.
pub open spec fn item_doc(item: TopLevelItem, dang: Map<usize, Seq<CommentView>>) -> DocView
    decreases item, 1nat,
{
    match item {
        TopLevelItem::Module(m) => DocView::Concat(seq![
            tx("module "@),
            tx(m.name@),
            indented(DocView::Concat(module_items_parts(m.items@, dang))),
            DocView::Hardline,
            tx("end"@),
        ]),
        TopLevelItem::Class(c) => class_doc(c, dang),
        TopLevelItem::Struct(s) => struct_doc(s),
        TopLevelItem::Enum(e) => enum_doc(e),
        TopLevelItem::Trait(t) => trait_doc(t, dang),
        TopLevelItem::Impl(i) => impl_doc(i, dang),
        TopLevelItem::Function(f) => func_doc(f, dang),
        TopLevelItem::Use(u) => format_use_spec(u@),
        TopLevelItem::TypeAlias(ta) => DocView::Group(Box::new(DocView::Concat(
            seq![tx("type "@), tx(ta.name@)] + gp_parts(ta.generic_params) + seq![tx(" = "@), type_doc(ta.type_expr)],
        ))),
        TopLevelItem::Newtype(nt) => DocView::Concat(
            seq![tx("newtype "@), tx(nt.name@), tx("("@), type_doc(nt.inner_type), tx(")"@)],
        ),
        TopLevelItem::Const(c) => DocView::Group(Box::new(DocView::Concat(seq![
            tx("const "@),
            tx(c.name@),
            tx(": "@),
            type_doc(c.type_expr),
            tx(" = "@),
            expr_doc(c.value),
        ]))),
        TopLevelItem::Lib(l) => headed(lib_header(l), ffis_doc(l.functions@)),
        TopLevelItem::Extern(e) => headed(
            seq![tx("extern \""@ + e.abi@ + "\""@)],
            ffis_doc(e.functions@),
        ),
    }
}

/// The items of a module, separated by blank lines.
pub open spec fn module_items_parts(items: Seq<TopLevelItem>, dang: Map<usize, Seq<CommentView>>) -> Seq<DocView>
    decreases items, 0nat,
{
    if items.len() == 0 {
        Seq::empty()
    } else {
        proof { assert(decreases_to!(items => items.drop_last())); }
        let prev = module_items_parts(items.drop_last(), dang);
        (if items.len() > 1 { prev.push(DocView::Hardline).push(DocView::Hardline) } else { prev })
            .push(item_doc(items.last(), dang))
    }
}

/// Writes a comment back: `#text`, `## text` or `#=text=#`.
pub fn format_comment(c: &Comment) -> (d: Doc)
    ensures
        d@ == comment_doc(c@),
{
    let mut s = String::new();
    match c.kind {
        CommentKind::Line => {
            push_str(&mut s, "#");
            push_str(&mut s, c.text.as_str());
        },
        CommentKind::Doc => {
            push_str(&mut s, "## ");
            push_str(&mut s, c.text.as_str());
        },
        CommentKind::Block => {
            push_str(&mut s, "#=");
            push_str(&mut s, c.text.as_str());
            push_str(&mut s, "=#");
        },
    }
    proof { assert(s@ =~= comment_doc(c@)->Text_0); }
    text(s.as_str())
}

/// Writes each comment not yet written, in the leading or the trailing form.
fn emit_comments(parts: &mut Vec<Doc>, seen: &mut HashSet<usize>, cs: &[Comment], leading: bool)
    ensures
        ({
            let st = Emitted { parts: views_of(old(parts)@), seen: old(seen)@ };
            let r = if leading { emit_leading(st, comments_view(cs@)) } else { emit_trailing(st, comments_view(cs@)) };
            views_of(final(parts)@) == r.parts && final(seen)@ == r.seen
        }),
{
    broadcast use vstd::std_specs::hash::group_hash_axioms;
    let ghost st = Emitted { parts: views_of(parts@), seen: seen@ };
    let ghost cv = comments_view(cs@);
    let mut i: usize = 0;
    while i < cs.len()
        invariant
            i <= cs@.len(),
            cv == comments_view(cs@),
            ({
                let r = if leading { emit_leading(st, cv.take(i as int)) } else { emit_trailing(st, cv.take(i as int)) };
                views_of(parts@) == r.parts && seen@ == r.seen
            }),
        decreases cs@.len() - i,
    {
        proof {
            assert(cv.take(i + 1).drop_last() =~= cv.take(i as int));
            assert(cv.take(i + 1).last() == cs@[i as int]@);
        }
        let c = &cs[i];
        if seen.insert(c.span.start) {
            if leading {
                push_doc(parts, format_comment(c));
                push_doc(parts, hardline());
            } else {
                push_doc(parts, text("  "));
                push_doc(parts, format_comment(c));
            }
        }
        i = i + 1;
    }
    proof { assert(cv.take(cs@.len() as int) =~= cv); }
}

fn item_start_x(item: &TopLevelItem) -> (r: usize)
    ensures
        r == item_start(*item),
{
    match item {
        TopLevelItem::Module(m) => m.span.start,
        TopLevelItem::Class(c) => c.span.start,
        TopLevelItem::Struct(s) => s.span.start,
        TopLevelItem::Enum(e) => e.span.start,
        TopLevelItem::Trait(t) => t.span.start,
        TopLevelItem::Impl(i) => i.span.start,
        TopLevelItem::Function(f) => f.span.start,
        TopLevelItem::Use(u) => u.span.start,
        TopLevelItem::TypeAlias(t) => t.span.start,
        TopLevelItem::Newtype(n) => n.span.start,
        TopLevelItem::Const(c) => c.span.start,
        TopLevelItem::Lib(l) => l.span.start,
        TopLevelItem::Extern(e) => e.span.start,
    }
}

fn is_use(item: &TopLevelItem) -> (r: bool)
    ensures
        r == (*item is Use),
{
    match item {
        TopLevelItem::Use(_) => true,
        _ => false,
    }
}

/// Lays out a source file with its comments.
pub fn format_program(program: &Program, comments: &CommentMap) -> (d: Doc)
    ensures
        d@ == program_doc(
            *program,
            groups_view(comments.leading@),
            groups_view(comments.trailing@),
            groups_view(comments.dangling@),
        ),
{
    let ghost lead = groups_view(comments.leading@);
    let ghost trail = groups_view(comments.trailing@);
    let ghost dang = groups_view(comments.dangling@);
    let mut parts = docs0();
    let mut seen: HashSet<usize> = HashSet::new();
    proof { assert(seen@ =~= Set::<usize>::empty()); }
    emit_comments(&mut parts, &mut seen, comments.leading_comments(program.span.start), true);
    let ghost s0 = Emitted { parts: views_of(parts@), seen: seen@ };
    proof {
        assert(s0 == emit_leading(Emitted { parts: Seq::empty(), seen: Set::empty() }, at(lead, program.span.start)));
    }
    let items = &program.items;
    let mut i: usize = 0;
    while i < items.len()
        invariant
            i <= items@.len(),
            lead == groups_view(comments.leading@),
            trail == groups_view(comments.trailing@),
            dang == groups_view(comments.dangling@),
            ({
                let st = items_state(lead, trail, dang, s0, items@.take(i as int));
                views_of(parts@) == st.parts && seen@ == st.seen
            }),
        decreases items@.len() - i,
    {
        proof {
            assert(items@.take(i + 1).drop_last() =~= items@.take(i as int));
            assert(items@.take(i + 1).last() == items@[i as int]);
            if i > 0 {
                assert(items@.take(i as int).last() == items@[i - 1]);
            }
        }
        let item = &items[i];
        if i > 0 {
            if !(is_use(&items[i - 1]) && is_use(item)) {
                push_doc(&mut parts, hardline());
            }
            push_doc(&mut parts, hardline());
        }
        let start = item_start_x(item);
        emit_comments(&mut parts, &mut seen, comments.leading_comments(start), true);
        push_doc(&mut parts, format_top_level_item(item, comments));
        emit_comments(&mut parts, &mut seen, comments.trailing_comments(start), false);
        i = i + 1;
    }
    proof { assert(items@.take(items@.len() as int) =~= items@); }
    push_doc(&mut parts, hardline());
    concat(parts)
}

fn push_visibility(parts: &mut Vec<Doc>, v: Visibility)
    ensures
        views_of(final(parts)@) == views_of(old(parts)@) + visibility_parts(v),
{
    match v {
        Visibility::Public => push_doc(parts, text("pub ")),
        Visibility::Protected => push_doc(parts, text("protected ")),
        Visibility::Private => {},
    }
    proof { assert(views_of(parts@) =~= views_of(old(parts)@) + visibility_parts(v)); }
}

fn push_self_mode(parts: &mut Vec<Doc>, m: &Option<SelfMode>)
    ensures
        views_of(final(parts)@) == views_of(old(parts)@) + self_mode_parts(*m),
{
    match m {
        Some(SelfMode::Mutable) => push_doc(parts, text("mut ")),
        Some(SelfMode::Consuming) => push_doc(parts, text("consume ")),
        _ => {},
    }
    proof { assert(views_of(parts@) =~= views_of(old(parts)@) + self_mode_parts(*m)); }
}

fn push_gp(parts: &mut Vec<Doc>, gp: &Option<GenericParams>)
    ensures
        views_of(final(parts)@) == views_of(old(parts)@) + gp_parts(*gp),
{
    match gp {
        Some(g) => push_doc(parts, format_generic_params(g)),
        None => {},
    }
    proof { assert(views_of(parts@) =~= views_of(old(parts)@) + gp_parts(*gp)); }
}

fn push_ret(parts: &mut Vec<Doc>, rt: &Option<TypeExpr>, comments: &CommentMap)
    ensures
        views_of(final(parts)@) == views_of(old(parts)@) + ret_parts(*rt),
{
    match rt {
        Some(t) => {
            push_doc(parts, text(" -> "));
            push_doc(parts, format_type_expr(t, comments));
        },
        None => {},
    }
    proof { assert(views_of(parts@) =~= views_of(old(parts)@) + ret_parts(*rt)); }
}

fn format_param(p: &Param, comments: &CommentMap) -> (d: Doc)
    ensures
        d@ == param_doc(*p),
{
    let mut parts = docs0();
    if p.auto_assign {
        push_doc(&mut parts, text("@"));
    }
    push_doc(&mut parts, tx_string(&p.name));
    push_doc(&mut parts, text(": "));
    push_doc(&mut parts, format_type_expr(&p.type_expr, comments));
    proof {
        assert(views_of(parts@) =~= (if p.auto_assign { seq![tx("@"@)] } else { Seq::empty() })
            + seq![tx(p.name@), tx(": "@), type_doc(p.type_expr)]);
    }
    concat(parts)
}

fn push_params(parts: &mut Vec<Doc>, ps: &Vec<Param>, comments: &CommentMap)
    ensures
        views_of(final(parts)@) == views_of(old(parts)@) + params_parts(ps@),
{
    if ps.len() > 0 {
        let mut docs = docs0();
        let mut i: usize = 0;
        while i < ps.len()
            invariant
                i <= ps@.len(),
                views_of(docs@) == Seq::new(i as nat, |k: int| param_doc(ps@[k])),
            decreases ps@.len() - i,
        {
            push_doc(&mut docs, format_param(&ps[i], comments));
            proof { assert(views_of(docs@) =~= Seq::new((i + 1) as nat, |k: int| param_doc(ps@[k]))); }
            i = i + 1;
        }
        proof { assert(views_of(docs@) =~= params_docs(ps@)); }
        push_doc(parts, format_call_args(docs));
    }
    proof { assert(views_of(parts@) =~= views_of(old(parts)@) + params_parts(ps@)); }
}

fn format_sig(f: &FuncDef, comments: &CommentMap) -> (d: Doc)
    ensures
        d@ == sig_doc(*f),
{
    let mut parts = docs0();
    push_visibility(&mut parts, f.visibility);
    push_doc(&mut parts, text("def "));
    push_self_mode(&mut parts, &f.self_mode);
    if f.is_class_method {
        push_doc(&mut parts, text("self."));
    }
    push_doc(&mut parts, tx_string(&f.name));
    push_gp(&mut parts, &f.generic_params);
    push_params(&mut parts, &f.params, comments);
    push_ret(&mut parts, &f.return_type, comments);
    match &f.where_clause {
        Some(w) => push_doc(&mut parts, format_where_clause(w)),
        None => {},
    }
    proof {
        assert(views_of(parts@) =~= visibility_parts(f.visibility) + seq![tx("def "@)] + self_mode_parts(f.self_mode)
            + (if f.is_class_method { seq![tx("self."@)] } else { Seq::empty() }) + seq![tx(f.name@)]
            + gp_parts(f.generic_params) + params_parts(f.params@) + ret_parts(f.return_type)
            + (match f.where_clause {
                Some(w) => seq![where_clause_doc(w)],
                None => Seq::empty(),
            }));
    }
    group(concat(parts))
}

fn is_simple_inline_body_x(b: &Block) -> (r: bool)
    ensures
        r == is_simple_inline_body(*b),
{
    if b.statements.len() != 1 {
        return false;
    }
    match &b.statements[0] {
        Statement::Let(_) => false,
        Statement::Expression(x) => match &x.kind {
            ExprKind::If(_) | ExprKind::IfLet(_) | ExprKind::Match(_) | ExprKind::While(_)
            | ExprKind::WhileLet(_) | ExprKind::For(_) | ExprKind::Loop(_) | ExprKind::Block(_)
            | ExprKind::Closure(_) | ExprKind::UnsafeBlock(_) => false,
            _ => true,
        },
    }
}

/// Lays out a function definition.
pub fn format_func_def(f: &FuncDef, comments: &CommentMap) -> (d: Doc)
    ensures
        d@ == func_doc(*f, groups_view(comments.dangling@)),
{
    let sig = format_sig(f, comments);
    if f.body.statements.len() == 0 {
        let cs = comments.dangling_comments(f.span.start);
        let ghost cv = comments_view(cs@);
        if cs.len() == 0 {
            c3(sig, hardline(), text("end"))
        } else {
            let mut docs = docs0();
            let mut i: usize = 0;
            while i < cs.len()
                invariant
                    i <= cs@.len(),
                    cv == comments_view(cs@),
                    views_of(docs@) == Seq::new(i as nat, |k: int| comment_doc(cv[k])),
                decreases cs@.len() - i,
            {
                push_doc(&mut docs, format_comment(&cs[i]));
                proof { assert(views_of(docs@) =~= Seq::new((i + 1) as nat, |k: int| comment_doc(cv[k]))); }
                i = i + 1;
            }
            c4(sig, nested_x(concat(after_lines_x(docs, true))), hardline(), text("end"))
        }
    } else if is_simple_inline_body_x(&f.body) {
        let bd = format_block_body(&f.body, comments);
        let inline = group(c4(sig.duplicate(), text(" { "), bd.duplicate(), text(" }")));
        let mut head = docs0();
        let ghost sv = sig@;
        push_doc(&mut head, sig);
        proof { assert(views_of(head@) =~= seq![sv]); }
        let expanded = with_end_x(head, bd);
        group(if_break(expanded, inline))
    } else {
        let mut head = docs0();
        let ghost sv = sig@;
        push_doc(&mut head, sig);
        proof { assert(views_of(head@) =~= seq![sv]); }
        with_end_x(head, format_block_body(&f.body, comments))
    }
}

fn format_funcs(fs: &Vec<FuncDef>, comments: &CommentMap) -> (r: Vec<Doc>)
    ensures
        views_of(r@) == funcs_docs(fs@, groups_view(comments.dangling@)),
{
    let ghost dang = groups_view(comments.dangling@);
    let mut r = docs0();
    let mut i: usize = 0;
    while i < fs.len()
        invariant
            i <= fs@.len(),
            dang == groups_view(comments.dangling@),
            views_of(r@) == Seq::new(i as nat, |k: int| func_doc(fs@[k], dang)),
        decreases fs@.len() - i,
    {
        push_doc(&mut r, format_func_def(&fs[i], comments));
        proof { assert(views_of(r@) =~= Seq::new((i + 1) as nat, |k: int| func_doc(fs@[k], dang))); }
        i = i + 1;
    }
    proof { assert(views_of(r@) =~= funcs_docs(fs@, dang)); }
    r
}

fn format_field_decl(f: &FieldDecl, comments: &CommentMap) -> (d: Doc)
    ensures
        d@ == field_doc(*f),
{
    let mut parts = docs0();
    push_visibility(&mut parts, f.visibility);
    push_doc(&mut parts, tx_string(&f.name));
    push_doc(&mut parts, text(": "));
    push_doc(&mut parts, format_type_expr(&f.type_expr, comments));
    proof {
        assert(views_of(parts@) =~= visibility_parts(f.visibility) + seq![tx(f.name@), tx(": "@), type_doc(f.type_expr)]);
    }
    concat(parts)
}

fn format_fields(fs: &Vec<FieldDecl>, comments: &CommentMap) -> (r: Vec<Doc>)
    ensures
        views_of(r@) == fields_docs(fs@),
{
    let mut r = docs0();
    let mut i: usize = 0;
    while i < fs.len()
        invariant
            i <= fs@.len(),
            views_of(r@) == Seq::new(i as nat, |k: int| field_doc(fs@[k])),
        decreases fs@.len() - i,
    {
        push_doc(&mut r, format_field_decl(&fs[i], comments));
        proof { assert(views_of(r@) =~= Seq::new((i + 1) as nat, |k: int| field_doc(fs@[k]))); }
        i = i + 1;
    }
    proof { assert(views_of(r@) =~= fields_docs(fs@)); }
    r
}

fn headed_x(header: Vec<Doc>, body: Doc) -> (d: Doc)
    ensures
        d@ == headed(views_of(header@), body@),
{
    c4(concat(header), indented_x(body), hardline(), text("end"))
}

fn double_hardline() -> (d: Doc)
    ensures
        d@ == DocView::Concat(seq![DocView::Hardline, DocView::Hardline]),
{
    c2(hardline(), hardline())
}

fn format_impl_item(it: &ImplItem, comments: &CommentMap) -> (d: Doc)
    ensures
        d@ == impl_item_doc(*it, groups_view(comments.dangling@)),
{
    match it {
        ImplItem::AssocType { name, type_expr, .. } => c4(
            text("type "),
            tx_string(name),
            text(" = "),
            format_type_expr(type_expr, comments),
        ),
        ImplItem::Method(f) => format_func_def(f, comments),
    }
}

fn format_impl_items(its: &Vec<ImplItem>, comments: &CommentMap) -> (d: Doc)
    ensures
        d@ == impl_items_doc(its@, groups_view(comments.dangling@)),
{
    let ghost dang = groups_view(comments.dangling@);
    let mut r = docs0();
    let mut i: usize = 0;
    while i < its.len()
        invariant
            i <= its@.len(),
            dang == groups_view(comments.dangling@),
            views_of(r@) == Seq::new(i as nat, |k: int| impl_item_doc(its@[k], dang)),
        decreases its@.len() - i,
    {
        push_doc(&mut r, format_impl_item(&its[i], comments));
        proof { assert(views_of(r@) =~= Seq::new((i + 1) as nat, |k: int| impl_item_doc(its@[k], dang))); }
        i = i + 1;
    }
    join(double_hardline(), r)
}

fn format_inner_impl(imp: &InnerImpl, comments: &CommentMap) -> (d: Doc)
    ensures
        d@ == inner_impl_doc(*imp, groups_view(comments.dangling@)),
{
    let mut header = docs0();
    push_doc(&mut header, text("impl "));
    push_doc(&mut header, format_type_path(&imp.trait_name));
    proof { assert(views_of(header@) =~= seq![tx("impl "@), type_path_doc(imp.trait_name)]); }
    headed_x(header, format_impl_items(&imp.items, comments))
}

fn format_class(c: &ClassDef, comments: &CommentMap) -> (d: Doc)
    ensures
        d@ == class_doc(*c, groups_view(comments.dangling@)),
{
    let ghost dang = groups_view(comments.dangling@);
    let mut header = docs0();
    push_doc(&mut header, text("class "));
    push_doc(&mut header, tx_string(&c.name));
    push_gp(&mut header, &c.generic_params);
    match &c.parent {
        Some(p) => {
            push_doc(&mut header, text(" < "));
            push_doc(&mut header, format_type_path(p));
        },
        None => {},
    }
    proof {
        assert(views_of(header@) =~= seq![tx("class "@), tx(c.name@)] + gp_parts(c.generic_params) + (match c.parent {
            Some(p) => seq![tx(" < "@), type_path_doc(p)],
            None => Seq::empty(),
        }));
    }
    let mut sections = docs0();
    let fds = format_fields(&c.fields, comments);
    let ghost fv = views_of(fds@);
    if fds.len() > 0 {
        push_doc(&mut sections, join(hardline(), fds));
    }
    let ghost s1 = views_of(sections@);
    append_docs(&mut sections, format_funcs(&c.methods, comments));
    let ghost s2 = views_of(sections@);
    let mut j: usize = 0;
    while j < c.inner_impls.len()
        invariant
            j <= c.inner_impls@.len(),
            dang == groups_view(comments.dangling@),
            views_of(sections@) == s2 + Seq::new(j as nat, |q: int| inner_impl_doc(c.inner_impls@[q], dang)),
        decreases c.inner_impls@.len() - j,
    {
        push_doc(&mut sections, format_inner_impl(&c.inner_impls[j], comments));
        proof {
            assert(views_of(sections@) =~= s2 + Seq::new((j + 1) as nat, |q: int| inner_impl_doc(c.inner_impls@[q], dang)));
        }
        j = j + 1;
    }
    proof {
        assert(views_of(sections@) =~= (if fv.len() > 0 { seq![joined(DocView::Hardline, fv)] } else { Seq::empty() })
            + funcs_docs(c.methods@, dang)
            + Seq::new(c.inner_impls@.len(), |i: int| inner_impl_doc(c.inner_impls@[i], dang)));
    }
    headed_x(header, join(double_hardline(), sections))
}

fn format_struct(s: &StructDef, comments: &CommentMap) -> (d: Doc)
    ensures
        d@ == struct_doc(*s),
{
    let mut header = docs0();
    push_doc(&mut header, text("struct "));
    push_doc(&mut header, tx_string(&s.name));
    push_gp(&mut header, &s.generic_params);
    proof { assert(views_of(header@) =~= seq![tx("struct "@), tx(s.name@)] + gp_parts(s.generic_params)); }
    let mut parts = format_fields(&s.fields, comments);
    let ghost fv = views_of(parts@);
    if s.derive_traits.len() > 0 {
        if parts.len() > 0 {
            push_doc(&mut parts, hardline());
        }
        let mut names = docs0();
        let mut i: usize = 0;
        while i < s.derive_traits.len()
            invariant
                i <= s.derive_traits@.len(),
                views_of(names@) == Seq::new(i as nat, |k: int| tx(s.derive_traits@[k]@)),
            decreases s.derive_traits@.len() - i,
        {
            push_doc(&mut names, tx_string(&s.derive_traits[i]));
            proof { assert(views_of(names@) =~= Seq::new((i + 1) as nat, |k: int| tx(s.derive_traits@[k]@))); }
            i = i + 1;
        }
        push_doc(&mut parts, c2(text("derive "), join(comma_space_x(), names)));
    }
    headed_x(header, join(hardline(), parts))
}

fn format_variant_field(f: &VariantField, comments: &CommentMap) -> (d: Doc)
    ensures
        d@ == variant_field_doc(*f),
{
    match &f.name {
        Some(n) => c3(tx_string(n), text(": "), format_type_expr(&f.type_expr, comments)),
        None => format_type_expr(&f.type_expr, comments),
    }
}

fn format_variant_fields(fs: &Vec<VariantField>, comments: &CommentMap) -> (r: Vec<Doc>)
    ensures
        views_of(r@) == Seq::new(fs@.len(), |i: int| variant_field_doc(fs@[i])),
{
    let mut r = docs0();
    let mut i: usize = 0;
    while i < fs.len()
        invariant
            i <= fs@.len(),
            views_of(r@) == Seq::new(i as nat, |k: int| variant_field_doc(fs@[k])),
        decreases fs@.len() - i,
    {
        push_doc(&mut r, format_variant_field(&fs[i], comments));
        proof { assert(views_of(r@) =~= Seq::new((i + 1) as nat, |k: int| variant_field_doc(fs@[k]))); }
        i = i + 1;
    }
    r
}

fn format_variant(v: &Variant, comments: &CommentMap) -> (d: Doc)
    ensures
        d@ == variant_doc(*v),
{
    match &v.fields {
        VariantKind::Unit => tx_string(&v.name),
        VariantKind::Tuple(fs) => list_after_x(tx_string(&v.name), "(", format_variant_fields(fs, comments), ")"),
        VariantKind::Struct(fs) => list_after_x(tx_string(&v.name), "(", format_variant_fields(fs, comments), ")"),
    }
}

fn format_enum(e: &EnumDef, comments: &CommentMap) -> (d: Doc)
    ensures
        d@ == enum_doc(*e),
{
    let mut header = docs0();
    push_doc(&mut header, text("enum "));
    push_doc(&mut header, tx_string(&e.name));
    push_gp(&mut header, &e.generic_params);
    proof { assert(views_of(header@) =~= seq![tx("enum "@), tx(e.name@)] + gp_parts(e.generic_params)); }
    let mut r = docs0();
    let mut i: usize = 0;
    while i < e.variants.len()
        invariant
            i <= e.variants@.len(),
            views_of(r@) == Seq::new(i as nat, |k: int| variant_doc(e.variants@[k])),
        decreases e.variants@.len() - i,
    {
        push_doc(&mut r, format_variant(&e.variants[i], comments));
        proof { assert(views_of(r@) =~= Seq::new((i + 1) as nat, |k: int| variant_doc(e.variants@[k]))); }
        i = i + 1;
    }
    headed_x(header, join(hardline(), r))
}

fn format_method_sig(m: &MethodSig, comments: &CommentMap) -> (d: Doc)
    ensures
        d@ == method_sig_doc(*m),
{
    let mut parts = docs0();
    push_self_mode(&mut parts, &m.self_mode);
    push_doc(&mut parts, text("def "));
    if m.is_class_method {
        push_doc(&mut parts, text("self."));
    }
    push_doc(&mut parts, tx_string(&m.name));
    push_gp(&mut parts, &m.generic_params);
    push_params(&mut parts, &m.params, comments);
    push_ret(&mut parts, &m.return_type, comments);
    proof {
        assert(views_of(parts@) =~= self_mode_parts(m.self_mode) + seq![tx("def "@)]
            + (if m.is_class_method { seq![tx("self."@)] } else { Seq::empty() }) + seq![tx(m.name@)]
            + gp_parts(m.generic_params) + params_parts(m.params@) + ret_parts(m.return_type));
    }
    group(concat(parts))
}

fn format_trait_item(it: &TraitItem, comments: &CommentMap) -> (d: Doc)
    ensures
        d@ == trait_item_doc(*it, groups_view(comments.dangling@)),
{
    match it {
        TraitItem::AssocType { name, .. } => {
            let mut s = String::new();
            push_str(&mut s, "type ");
            push_str(&mut s, name.as_str());
            proof { assert(s@ =~= "type "@ + name@); }
            text(s.as_str())
        },
        TraitItem::MethodSig(m) => format_method_sig(m, comments),
        TraitItem::DefaultMethod(f) => format_func_def(f, comments),
    }
}

fn format_trait(t: &TraitDef, comments: &CommentMap) -> (d: Doc)
    ensures
        d@ == trait_doc(*t, groups_view(comments.dangling@)),
{
    let ghost dang = groups_view(comments.dangling@);
    let mut header = docs0();
    push_doc(&mut header, text("trait "));
    push_doc(&mut header, tx_string(&t.name));
    push_gp(&mut header, &t.generic_params);
    if t.super_traits.len() > 0 {
        push_doc(&mut header, text(": "));
        push_doc(&mut header, format_trait_bounds(&t.super_traits));
    }
    proof {
        assert(views_of(header@) =~= seq![tx("trait "@), tx(t.name@)] + gp_parts(t.generic_params)
            + (if t.super_traits@.len() > 0 { seq![tx(": "@), plus_joined(bounds_docs(t.super_traits@))] } else { Seq::empty() }));
    }
    let mut r = docs0();
    let mut i: usize = 0;
    while i < t.items.len()
        invariant
            i <= t.items@.len(),
            dang == groups_view(comments.dangling@),
            views_of(r@) == Seq::new(i as nat, |k: int| trait_item_doc(t.items@[k], dang)),
        decreases t.items@.len() - i,
    {
        push_doc(&mut r, format_trait_item(&t.items[i], comments));
        proof { assert(views_of(r@) =~= Seq::new((i + 1) as nat, |k: int| trait_item_doc(t.items@[k], dang))); }
        i = i + 1;
    }
    headed_x(header, join(hardline(), r))
}

fn format_impl(imp: &ImplBlock, comments: &CommentMap) -> (d: Doc)
    ensures
        d@ == impl_doc(*imp, groups_view(comments.dangling@)),
{
    let mut header = docs0();
    push_doc(&mut header, text("impl "));
    match &imp.generic_params {
        Some(g) => {
            push_doc(&mut header, format_generic_params(g));
            push_doc(&mut header, text(" "));
        },
        None => {},
    }
    match &imp.trait_name {
        Some(tn) => {
            push_doc(&mut header, format_type_path(tn));
            push_doc(&mut header, text(" for "));
        },
        None => {},
    }
    push_doc(&mut header, format_type_expr(&imp.target_type, comments));
    proof {
        assert(views_of(header@) =~= seq![tx("impl "@)]
            + (match imp.generic_params {
                Some(g) => seq![generic_params_doc(g), tx(" "@)],
                None => Seq::empty(),
            })
            + (match imp.trait_name {
                Some(t) => seq![type_path_doc(t), tx(" for "@)],
                None => Seq::empty(),
            })
            + seq![type_doc(imp.target_type)]);
    }
    headed_x(header, format_impl_items(&imp.items, comments))
}

fn format_ffi_function(f: &FfiFunction, comments: &CommentMap) -> (d: Doc)
    ensures
        d@ == ffi_doc(*f),
{
    let ghost pds = Seq::new(f.params@.len(), |i: int| DocView::Concat(
        seq![tx(f.params@[i].name@), tx(": "@), type_doc(f.params@[i].type_expr)],
    ));
    let mut docs = docs0();
    let mut i: usize = 0;
    while i < f.params.len()
        invariant
            i <= f.params@.len(),
            pds == Seq::new(f.params@.len(), |i: int| DocView::Concat(
                seq![tx(f.params@[i].name@), tx(": "@), type_doc(f.params@[i].type_expr)],
            )),
            views_of(docs@) == pds.take(i as int),
        decreases f.params@.len() - i,
    {
        let p = &f.params[i];
        push_doc(&mut docs, c3(tx_string(&p.name), text(": "), format_type_expr(&p.type_expr, comments)));
        proof { assert(views_of(docs@) =~= pds.take(i + 1)); }
        i = i + 1;
    }
    proof { assert(pds.take(f.params@.len() as int) =~= pds); }
    let mut parts = docs0();
    push_doc(&mut parts, text("def "));
    push_doc(&mut parts, tx_string(&f.name));
    let ghost p1 = views_of(parts@);
    if docs.len() > 0 || f.is_variadic {
        if f.is_variadic {
            push_doc(&mut docs, text("..."));
        }
        push_doc(&mut parts, format_call_args(docs));
    }
    push_ret(&mut parts, &f.return_type, comments);
    proof {
        let all = if f.is_variadic { pds.push(tx("..."@)) } else { pds };
        assert(p1 =~= seq![tx("def "@), tx(f.name@)]);
        assert(views_of(parts@) =~= seq![tx("def "@), tx(f.name@)]
            + (if pds.len() > 0 || f.is_variadic { seq![call_args_doc(all)] } else { Seq::empty() })
            + ret_parts(f.return_type));
    }
    group(concat(parts))
}

fn format_ffis(fs: &Vec<FfiFunction>, comments: &CommentMap) -> (d: Doc)
    ensures
        d@ == ffis_doc(fs@),
{
    let mut r = docs0();
    let mut i: usize = 0;
    while i < fs.len()
        invariant
            i <= fs@.len(),
            views_of(r@) == Seq::new(i as nat, |k: int| ffi_doc(fs@[k])),
        decreases fs@.len() - i,
    {
        push_doc(&mut r, format_ffi_function(&fs[i], comments));
        proof { assert(views_of(r@) =~= Seq::new((i + 1) as nat, |k: int| ffi_doc(fs@[k]))); }
        i = i + 1;
    }
    join(hardline(), r)
}

fn format_lib(l: &LibDecl, comments: &CommentMap) -> (d: Doc)
    ensures
        d@ == item_doc(TopLevelItem::Lib(*l), groups_view(comments.dangling@)),
{
    let body = format_ffis(&l.functions, comments);
    let mut header = docs0();
    push_doc(&mut header, text("lib "));
    push_doc(&mut header, tx_string(&l.name));
    let ghost h0 = views_of(header@);
    proof {
        assert(h0 =~= seq![tx("lib "@), tx(l.name@)]);
        assert(l.link_attrs@.take(0) =~= Seq::<LinkAttr>::empty());
    }
    let mut i: usize = 0;
    while i < l.link_attrs.len()
        invariant
            i <= l.link_attrs@.len(),
            views_of(header@) == lib_header_from(h0, l.link_attrs@.take(i as int)),
        decreases l.link_attrs@.len() - i,
    {
        proof { assert(l.link_attrs@.take(i + 1).drop_last() =~= l.link_attrs@.take(i as int)); }
        let a = &l.link_attrs[i];
        let mut s = String::new();
        push_str(&mut s, "  @[link(");
        push_str(&mut s, a.name.as_str());
        push_str(&mut s, ", ");
        match a.kind {
            LinkKind::Dynamic => push_str(&mut s, "dynamic"),
            LinkKind::Static => push_str(&mut s, "static"),
            LinkKind::Framework => push_str(&mut s, "framework"),
        }
        push_str(&mut s, ")]");
        let ghost before = views_of(header@);
        push_doc(&mut header, hardline());
        push_doc(&mut header, text(s.as_str()));
        proof {
            assert(s@ =~= "  @[link("@ + a.name@ + ", "@ + link_kind_text(a.kind) + ")]"@);
            assert(views_of(header@) =~= before + link_attr_parts(l.link_attrs@[i as int]));
        }
        i = i + 1;
    }
    proof { assert(l.link_attrs@.take(l.link_attrs@.len() as int) =~= l.link_attrs@); }
    headed_x(header, body)
}

fn format_extern(e: &ExternBlock, comments: &CommentMap) -> (d: Doc)
    ensures
        d@ == item_doc(TopLevelItem::Extern(*e), groups_view(comments.dangling@)),
{
    let mut s = String::new();
    push_str(&mut s, "extern \"");
    push_str(&mut s, e.abi.as_str());
    push_str(&mut s, "\"");
    proof { assert(s@ =~= "extern \""@ + e.abi@ + "\""@); }
    let mut header = docs0();
    push_doc(&mut header, text(s.as_str()));
    proof { assert(views_of(header@) =~= seq![tx("extern \""@ + e.abi@ + "\""@)]); }
    headed_x(header, format_ffis(&e.functions, comments))
}

/// Lays out a top-level item.
#[verifier::rlimit(100)]
#[verifier::spinoff_prover]
pub fn format_top_level_item(item: &TopLevelItem, comments: &CommentMap) -> (d: Doc)
    ensures
        d@ == item_doc(*item, groups_view(comments.dangling@)),
    decreases item, 1nat,
{
    match item {
        TopLevelItem::Module(m) => {
            let body = format_module_items(&m.items, comments);
            c5(text("module "), tx_string(&m.name), indented_x(concat(body)), hardline(), text("end"))
        },
        TopLevelItem::Class(c) => format_class(c, comments),
        TopLevelItem::Struct(s) => format_struct(s, comments),
        TopLevelItem::Enum(e) => format_enum(e, comments),
        TopLevelItem::Trait(t) => format_trait(t, comments),
        TopLevelItem::Impl(i) => format_impl(i, comments),
        TopLevelItem::Function(f) => format_func_def(f, comments),
        TopLevelItem::Use(u) => format_use(u),
        TopLevelItem::TypeAlias(ta) => {
            let mut parts = docs0();
            push_doc(&mut parts, text("type "));
            push_doc(&mut parts, tx_string(&ta.name));
            push_gp(&mut parts, &ta.generic_params);
            push_doc(&mut parts, text(" = "));
            push_doc(&mut parts, format_type_expr(&ta.type_expr, comments));
            proof {
                assert(views_of(parts@) =~= seq![tx("type "@), tx(ta.name@)] + gp_parts(ta.generic_params)
                    + seq![tx(" = "@), type_doc(ta.type_expr)]);
            }
            group(concat(parts))
        },
        TopLevelItem::Newtype(nt) => c5(
            text("newtype "),
            tx_string(&nt.name),
            text("("),
            format_type_expr(&nt.inner_type, comments),
            text(")"),
        ),
        TopLevelItem::Const(c) => {
            let mut parts = docs0();
            push_doc(&mut parts, text("const "));
            push_doc(&mut parts, tx_string(&c.name));
            push_doc(&mut parts, text(": "));
            push_doc(&mut parts, format_type_expr(&c.type_expr, comments));
            push_doc(&mut parts, text(" = "));
            push_doc(&mut parts, format_expr(&c.value, comments));
            proof {
                assert(views_of(parts@) =~= seq![
                    tx("const "@),
                    tx(c.name@),
                    tx(": "@),
                    type_doc(c.type_expr),
                    tx(" = "@),
                    expr_doc(c.value),
                ]);
            }
            group(concat(parts))
        },
        TopLevelItem::Lib(l) => format_lib(l, comments),
        TopLevelItem::Extern(e) => format_extern(e, comments),
    }
}

fn format_module_items(items: &Vec<TopLevelItem>, comments: &CommentMap) -> (r: Vec<Doc>)
    ensures
        views_of(r@) == module_items_parts(items@, groups_view(comments.dangling@)),
    decreases items, 0nat,
{
    let ghost dang = groups_view(comments.dangling@);
    let mut r = docs0();
    let mut i: usize = 0;
    while i < items.len()
        invariant
            i <= items@.len(),
            dang == groups_view(comments.dangling@),
            views_of(r@) == module_items_parts(items@.take(i as int), dang),
        decreases items@.len() - i,
    {
        proof { assert(items@.take(i + 1).drop_last() =~= items@.take(i as int)); }
        if i > 0 {
            push_doc(&mut r, hardline());
            push_doc(&mut r, hardline());
        }
        push_doc(&mut r, format_top_level_item(&items[i], comments));
        i = i + 1;
    }
    proof { assert(items@.take(items@.len() as int) =~= items@); }
    r
}

} // verus!
