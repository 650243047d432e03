use vstd::prelude::*;

verus! {

/// Indentation step used by the formatter.
pub const INDENT_WIDTH: i32 = 2;

/// Target line width of the formatter.
pub const MAX_LINE_WIDTH: i32 = 100;

/// Layout document: the intermediate representation the formatter prints.
#[derive(Debug)]
pub enum Doc {
    /// Literal text, never broken.
    Text(String),
    /// A line break when the enclosing group breaks, a space when it is flat.
    Line,
    /// A line break when the enclosing group breaks, nothing when it is flat.
    Softline,
    /// Always a line break.
    Hardline,
    /// Extra indentation for the line breaks inside.
    Nest(i32, Box<Doc>),
    /// Printed flat when it fits in the remaining width, broken otherwise.
    Group(Box<Doc>),
    /// Concatenation.
    Concat(Vec<Doc>),
    /// Items separated by lines, packed as one breakable group.
    Fill(Vec<Doc>),
    /// First document when the enclosing group is broken, second when flat.
    IfBreak(Box<Doc>, Box<Doc>),
    /// Printed at the end of the current line.
    LineSuffix(Box<Doc>),
}

/// Mathematical model of a [`Doc`].
pub enum DocView {
    Text(Seq<char>),
    Line,
    Softline,
    Hardline,
    Nest(int, Box<DocView>),
    Group(Box<DocView>),
    Concat(Seq<DocView>),
    Fill(Seq<DocView>),
    IfBreak(Box<DocView>, Box<DocView>),
    LineSuffix(Box<DocView>),
}

impl View for Doc {
    type V = DocView;

    open spec fn view(&self) -> DocView
        decreases self,
    {
        match self {
            Doc::Text(s) => DocView::Text(s@),
            Doc::Line => DocView::Line,
            Doc::Softline => DocView::Softline,
            Doc::Hardline => DocView::Hardline,
            Doc::Nest(n, d) => DocView::Nest(*n as int, Box::new((**d).view())),
            Doc::Group(d) => DocView::Group(Box::new((**d).view())),
            Doc::Concat(ds) => DocView::Concat(
                Seq::new(ds@.len(), |i: int| if 0 <= i < ds@.len() { ds@[i].view() } else { DocView::Line }),
            ),
            Doc::Fill(ds) => DocView::Fill(
                Seq::new(ds@.len(), |i: int| if 0 <= i < ds@.len() { ds@[i].view() } else { DocView::Line }),
            ),
            Doc::IfBreak(a, b) => DocView::IfBreak(Box::new((**a).view()), Box::new((**b).view())),
            Doc::LineSuffix(d) => DocView::LineSuffix(Box::new((**d).view())),
        }
    }
}

pub open spec fn views_of(ds: Seq<Doc>) -> Seq<DocView> {
    Seq::new(ds.len(), |i: int| ds[i]@)
}

pub proof fn lemma_concat_view(ds: Vec<Doc>)
    ensures
        Doc::Concat(ds)@ == DocView::Concat(views_of(ds@)),
{
    assert(Doc::Concat(ds)@->Concat_0 =~= views_of(ds@));
}

pub proof fn lemma_fill_view(ds: Vec<Doc>)
    ensures
        Doc::Fill(ds)@ == DocView::Fill(views_of(ds@)),
{
    assert(Doc::Fill(ds)@->Fill_0 =~= views_of(ds@));
}

impl Doc {
    /// A copy of this document with the same model.
    pub fn duplicate(&self) -> (r: Doc)
        ensures
            r@ == self@,
        decreases self,
    {
        match self {
            Doc::Text(s) => Doc::Text(s.clone()),
            Doc::Line => Doc::Line,
            Doc::Softline => Doc::Softline,
            Doc::Hardline => Doc::Hardline,
            Doc::Nest(n, d) => Doc::Nest(*n, Box::new((**d).duplicate())),
            Doc::Group(d) => Doc::Group(Box::new((**d).duplicate())),
            Doc::Concat(ds) => {
                let r = duplicate_all(ds);
                proof { lemma_concat_view(r); lemma_concat_view(*ds); }
                Doc::Concat(r)
            },
            Doc::Fill(ds) => {
                let r = duplicate_all(ds);
                proof { lemma_fill_view(r); lemma_fill_view(*ds); }
                Doc::Fill(r)
            },
            Doc::IfBreak(a, b) => Doc::IfBreak(Box::new((**a).duplicate()), Box::new((**b).duplicate())),
            Doc::LineSuffix(d) => Doc::LineSuffix(Box::new((**d).duplicate())),
        }
    }
}

fn duplicate_all(ds: &Vec<Doc>) -> (r: Vec<Doc>)
    ensures
        views_of(r@) =~= views_of(ds@),
    decreases ds,
{
    let mut r: Vec<Doc> = Vec::new();
    let mut i: usize = 0;
    while i < ds.len()
        invariant
            i <= ds@.len(),
            r@.len() == i,
            forall|j: int| 0 <= j < i ==> r@[j]@ == ds@[j]@,
        decreases ds@.len() - i,
    {
        proof { assert(decreases_to!(ds => ds@[i as int])); }
        let d = ds[i].duplicate();
        r.push(d);
        i = i + 1;
    }
    r
}


// ─── Measures ───────────────────────────────────────────────────────

/// Number of nodes of a document; a `Fill` also counts the line breaks it introduces.
pub open spec fn size(d: DocView) -> nat
    decreases d,
{
    match d {
        DocView::Nest(_, b) => 1 + size(*b),
        DocView::Group(b) => 1 + size(*b),
        DocView::Concat(ds) => 1 + sizes(ds),
        DocView::Fill(ds) => 2 + sizes(ds) + ds.len(),
        DocView::IfBreak(a, b) => 1 + size(*a) + size(*b),
        DocView::LineSuffix(b) => 1 + size(*b),
        _ => 1,
    }
}

pub open spec fn sizes(ds: Seq<DocView>) -> nat
    decreases ds,
{
    if ds.len() == 0 {
        0
    } else {
        proof {
            assert(decreases_to!(ds => ds.drop_last()));
        }
        sizes(ds.drop_last()) + size(ds.last())
    }
}


pub proof fn lemma_sizes_append(a: Seq<DocView>, b: Seq<DocView>)
    ensures
        sizes(a + b) == sizes(a) + sizes(b),
    decreases b.len(),
{
    if b.len() == 0 {
        assert(a + b =~= a);
    } else {
        lemma_sizes_append(a, b.drop_last());
        assert((a + b).drop_last() =~= a + b.drop_last());
    }
}

pub proof fn lemma_sizes_single(d: DocView)
    ensures
        sizes(seq![d]) == size(d),
{
    assert(seq![d].drop_last() =~= Seq::<DocView>::empty());
    assert(sizes(Seq::<DocView>::empty()) == 0);
}

pub proof fn lemma_sizes_element(ds: Seq<DocView>, i: int)
    requires
        0 <= i < ds.len(),
    ensures
        size(ds[i]) <= sizes(ds),
    decreases ds.len(),
{
    if i < ds.len() - 1 {
        lemma_sizes_element(ds.drop_last(), i);
    }
}

// ─── Printer model ──────────────────────────────────────────────────

/// Whether an enclosing group is printed flat or broken.
#[derive(Debug, Clone, Copy, PartialEq, Eq, Structural)]
pub enum Mode {
    Flat,
    Break,
}

/// A pending item of the printer's work stack, as a model.
pub struct CmdView {
    pub indent: int,
    pub mode: Mode,
    pub doc: DocView,
}

/// The printer's state, as a model. `ok` turns false at the first
/// arithmetic overflow of the 32-bit column counters.
pub struct PrinterState {
    pub out: Seq<char>,
    pub pos: int,
    pub buf: Seq<(int, DocView)>,
    pub stack: Seq<CmdView>,
    pub ok: bool,
}

pub open spec fn in_i32(x: int) -> bool {
    i32::MIN <= x <= i32::MAX
}

/// Byte length of text in UTF-8, as the printer measures columns.
pub open spec fn byte_len(s: Seq<char>) -> nat {
    vstd::utf8::encode_utf8(s).len()
}

/// A byte count converted to a 32-bit column count (truncating, as `as i32` does).
pub open spec fn col(n: nat) -> int {
    ((n as usize) as i32) as int
}

pub open spec fn spaces(n: int) -> Seq<char> {
    Seq::new(if n > 0 { n as nat } else { 0 }, |i: int| ' ')
}

pub open spec fn stack_size(s: Seq<CmdView>) -> nat
    decreases s.len(),
{
    if s.len() == 0 {
        0
    } else {
        stack_size(s.drop_last()) + size(s.last().doc)
    }
}

/// The documents of a concatenation pushed in reverse, so the first comes off the stack first.
pub open spec fn rev_cmds(indent: int, mode: Mode, ds: Seq<DocView>) -> Seq<CmdView> {
    Seq::new(ds.len(), |k: int| CmdView { indent, mode, doc: ds[ds.len() - 1 - k] })
}

/// Documents with `sep` between consecutive ones.
pub open spec fn intersperse(sep: DocView, ds: Seq<DocView>) -> Seq<DocView> {
    Seq::new(
        if ds.len() == 0 { 0 } else { (2 * ds.len() - 1) as nat },
        |k: int| if k % 2 == 0 { ds[k / 2] } else { sep },
    )
}

/// Items separated by `Line`.
pub open spec fn interleave_lines(ds: Seq<DocView>) -> Seq<DocView> {
    intersperse(DocView::Line, ds)
}

pub proof fn lemma_stack_size_append(a: Seq<CmdView>, b: Seq<CmdView>)
    ensures
        stack_size(a + b) == stack_size(a) + stack_size(b),
    decreases b.len(),
{
    if b.len() == 0 {
        assert(a + b =~= a);
    } else {
        lemma_stack_size_append(a, b.drop_last());
        assert((a + b).drop_last() =~= a + b.drop_last());
    }
}

pub proof fn lemma_stack_size_push(a: Seq<CmdView>, c: CmdView)
    ensures
        stack_size(a.push(c)) == stack_size(a) + size(c.doc),
{
    assert(a.push(c).drop_last() =~= a);
}

pub proof fn lemma_rev_cmds_size(indent: int, mode: Mode, ds: Seq<DocView>)
    ensures
        stack_size(rev_cmds(indent, mode, ds)) == sizes(ds),
    decreases ds.len(),
{
    if ds.len() > 0 {
        let tail = ds.drop_last();
        lemma_rev_cmds_size(indent, mode, tail);
        let c = CmdView { indent, mode, doc: ds.last() };
        assert(rev_cmds(indent, mode, ds) =~= seq![c] + rev_cmds(indent, mode, tail));
        lemma_stack_size_append(seq![c], rev_cmds(indent, mode, tail));
        assert(seq![c] =~= Seq::<CmdView>::empty().push(c));
        lemma_stack_size_push(Seq::<CmdView>::empty(), c);
    }
}

pub proof fn lemma_interleave_size(ds: Seq<DocView>)
    requires
        ds.len() > 0,
    ensures
        sizes(interleave_lines(ds)) == sizes(ds) + ds.len() - 1,
    decreases ds.len(),
{
    if ds.len() == 1 {
        assert(interleave_lines(ds).drop_last() =~= Seq::<DocView>::empty());
        assert(ds =~= seq![ds[0]]);
        assert(interleave_lines(ds) =~= seq![ds[0]]);
        lemma_sizes_single(ds[0]);
    } else {
        let t = ds.drop_last();
        lemma_interleave_size(t);
        let a = interleave_lines(t);
        assert(interleave_lines(ds) =~= a + seq![DocView::Line, ds.last()]);
        lemma_sizes_append(a, seq![DocView::Line, ds.last()]);
        assert(seq![DocView::Line, ds.last()].drop_last() =~= seq![DocView::Line]);
        lemma_sizes_single(DocView::Line);
        assert(sizes(seq![DocView::Line, ds.last()]) == 1 + size(ds.last()));
    }
}

/// Column-fitting check: does what is on the stack fit in `rem` columns before the next
/// line break? The stack holds the group being tried (flat, on top) and, below it, what
/// the printer will print after it, each part in its own mode; the scan stops at the first
/// line break: a hard line, or a line or soft line in break mode.
/// The second component is false when a 32-bit counter would overflow.
pub open spec fn fits_view(rem: int, st: Seq<CmdView>) -> (bool, bool)
    decreases stack_size(st),
{
    if st.len() == 0 {
        (rem >= 0, true)
    } else if rem < 0 {
        (false, true)
    } else {
        let c = st.last();
        let rest = st.drop_last();
        proof {
            assert(st =~= rest.push(c));
            lemma_stack_size_push(rest, c);
        }
        match c.doc {
            DocView::Text(s) => {
                let nr = rem - col(byte_len(s));
                if !in_i32(nr) {
                    (false, false)
                } else {
                    fits_view(nr, rest)
                }
            },
            DocView::Line => if c.mode == Mode::Break {
                (true, true)
            } else {
                fits_view(rem - 1, rest)
            },
            DocView::Softline => if c.mode == Mode::Break {
                (true, true)
            } else {
                fits_view(rem, rest)
            },
            DocView::Hardline => (true, true),
            DocView::Nest(extra, inner) => {
                if !in_i32(c.indent + extra) {
                    (false, false)
                } else {
                    let n = CmdView { indent: c.indent + extra, mode: c.mode, doc: *inner };
                    proof { lemma_stack_size_push(rest, n); }
                    fits_view(rem, rest.push(n))
                }
            },
            DocView::Group(inner) => {
                let n = CmdView { indent: c.indent, mode: c.mode, doc: *inner };
                proof { lemma_stack_size_push(rest, n); }
                fits_view(rem, rest.push(n))
            },
            DocView::Concat(ds) => {
                proof {
                    lemma_stack_size_append(rest, rev_cmds(c.indent, c.mode, ds));
                    lemma_rev_cmds_size(c.indent, c.mode, ds);
                }
                fits_view(rem, rest + rev_cmds(c.indent, c.mode, ds))
            },
            DocView::Fill(ds) => {
                proof {
                    lemma_stack_size_append(rest, rev_cmds(c.indent, c.mode, ds));
                    lemma_rev_cmds_size(c.indent, c.mode, ds);
                }
                fits_view(rem, rest + rev_cmds(c.indent, c.mode, ds))
            },
            DocView::IfBreak(broken, flat) => {
                let n = CmdView { indent: c.indent, mode: c.mode, doc: if c.mode == Mode::Flat { *flat } else { *broken } };
                proof { lemma_stack_size_push(rest, n); }
                fits_view(rem, rest.push(n))
            },
            DocView::LineSuffix(_) => fits_view(rem, rest),
        }
    }
}


pub open spec fn newline(indent: int) -> Seq<char> {
    seq!['\n'] + spaces(indent)
}

/// Rendering of a document at a target width, as the printer produces it.
/// The second component is false when the printer's 32-bit column arithmetic
/// would overflow on this input.
pub open spec fn print_view(d: DocView, width: int) -> (Seq<char>, bool)
    decreases size(d), 1nat, 0nat, 0nat,
{
    let init = PrinterState {
        out: seq![],
        pos: 0,
        buf: seq![],
        stack: seq![CmdView { indent: 0, mode: Mode::Break, doc: d }],
        ok: true,
    };
    let st = run(size(d), width, init);
    let fin = flush_final(size(d), width, st.buf);
    (st.out + fin.0, st.ok && fin.1)
}

/// Renders the pending line suffixes at the end of the document.
pub open spec fn flush_final(bound: nat, width: int, buf: Seq<(int, DocView)>) -> (Seq<char>, bool)
    decreases bound, 0nat, 0nat, buf.len(),
{
    if buf.len() == 0 {
        (seq![], true)
    } else {
        let d = buf[0].1;
        let r = if size(d) < bound { print_view(d, width) } else { (seq![], true) };
        let rest = flush_final(bound, width, buf.drop_first());
        (r.0 + rest.0, r.1 && rest.1)
    }
}

/// Renders the pending line suffixes before a line break; returns the output,
/// the column and whether no overflow happened.
pub open spec fn flush_line(bound: nat, out: Seq<char>, pos: int, buf: Seq<(int, DocView)>) -> (Seq<char>, int, bool)
    decreases bound, 0nat, 0nat, buf.len(),
{
    if buf.len() == 0 {
        (out, pos, true)
    } else {
        let d = buf[0].1;
        let r = if size(d) < bound { print_view(d, MAX_LINE_WIDTH as int) } else { (seq![], true) };
        let np = pos + col(byte_len(r.0));
        if !r.1 || !in_i32(np) {
            (out + r.0, np, false)
        } else {
            flush_line(bound, out + r.0, np, buf.drop_first())
        }
    }
}

/// Runs the printer until its work stack is empty or an overflow happened.
pub open spec fn run(bound: nat, width: int, st: PrinterState) -> PrinterState
    decreases bound, 0nat, stack_size(st.stack), 0nat,
{
    if !st.ok || st.stack.len() == 0 {
        st
    } else {
        let c = st.stack.last();
        let rest = st.stack.drop_last();
        let s0 = PrinterState { stack: rest, ..st };
        let fail = PrinterState { stack: rest, ok: false, ..st };
        let push = |cmd: CmdView| PrinterState { stack: rest.push(cmd), ..st };
        proof {
            assert(stack_size(st.stack) == stack_size(rest) + size(c.doc));
        }
        match c.doc {
            DocView::Text(t) => {
                let np = st.pos + col(byte_len(t));
                run(bound, width, PrinterState { out: st.out + t, pos: np, ok: in_i32(np), ..s0 })
            },
            DocView::Line => {
                if c.mode == Mode::Flat {
                    let np = st.pos + 1;
                    run(bound, width, PrinterState { out: st.out.push(' '), pos: np, ok: in_i32(np), ..s0 })
                } else {
                    let f = flush_line(bound, st.out, st.pos, st.buf);
                    run(bound, width, PrinterState {
                        out: if f.2 { f.0 + newline(c.indent) } else { f.0 },
                        pos: if f.2 { c.indent } else { f.1 },
                        buf: seq![],
                        stack: rest,
                        ok: f.2,
                    })
                }
            },
            DocView::Softline => {
                if c.mode == Mode::Flat {
                    run(bound, width, s0)
                } else {
                    let f = flush_line(bound, st.out, st.pos, st.buf);
                    run(bound, width, PrinterState {
                        out: if f.2 { f.0 + newline(c.indent) } else { f.0 },
                        pos: if f.2 { c.indent } else { f.1 },
                        buf: seq![],
                        stack: rest,
                        ok: f.2,
                    })
                }
            },
            DocView::Hardline => {
                let f = flush_line(bound, st.out, st.pos, st.buf);
                run(bound, width, PrinterState {
                    out: if f.2 { f.0 + newline(c.indent) } else { f.0 },
                    pos: if f.2 { c.indent } else { f.1 },
                    buf: seq![],
                    stack: rest,
                    ok: f.2,
                })
            },
            DocView::Nest(extra, inner) => {
                if !in_i32(c.indent + extra) {
                    fail
                } else {
                    let cmd = CmdView { indent: c.indent + extra, mode: c.mode, doc: *inner };
                    proof { lemma_stack_size_push(rest, cmd); }
                    run(bound, width, push(cmd))
                }
            },
            DocView::Group(inner) => {
                if c.mode == Mode::Flat {
                    let cmd = CmdView { indent: c.indent, mode: Mode::Flat, doc: *inner };
                    proof { lemma_stack_size_push(rest, cmd); }
                    run(bound, width, push(cmd))
                } else if !in_i32(width - st.pos) {
                    fail
                } else {
                    let f = fits_view(width - st.pos, rest.push(CmdView { indent: c.indent, mode: Mode::Flat, doc: *inner }));
                    if !f.1 {
                        fail
                    } else {
                        let cmd = CmdView { indent: c.indent, mode: if f.0 { Mode::Flat } else { Mode::Break }, doc: *inner };
                        proof { lemma_stack_size_push(rest, cmd); }
                        run(bound, width, push(cmd))
                    }
                }
            },
            DocView::Concat(ds) => {
                proof {
                    lemma_stack_size_append(rest, rev_cmds(c.indent, c.mode, ds));
                    lemma_rev_cmds_size(c.indent, c.mode, ds);
                }
                run(bound, width, PrinterState { stack: rest + rev_cmds(c.indent, c.mode, ds), ..st })
            },
            DocView::Fill(ds) => {
                if !in_i32(width - st.pos) {
                    fail
                } else if ds.len() == 0 {
                    run(bound, width, s0)
                } else {
                    let g = DocView::Group(Box::new(DocView::Concat(interleave_lines(ds))));
                    let cmd = CmdView { indent: c.indent, mode: Mode::Break, doc: g };
                    proof {
                        lemma_stack_size_push(rest, cmd);
                        lemma_interleave_size(ds);
                        assert(size(DocView::Concat(interleave_lines(ds))) == 1 + sizes(interleave_lines(ds)));
                        assert(size(g) == 1 + size(DocView::Concat(interleave_lines(ds))));
                    }
                    run(bound, width, push(cmd))
                }
            },
            DocView::IfBreak(broken, flat) => {
                let cmd = CmdView { indent: c.indent, mode: c.mode, doc: if c.mode == Mode::Flat { *flat } else { *broken } };
                proof { lemma_stack_size_push(rest, cmd); }
                run(bound, width, push(cmd))
            },
            DocView::LineSuffix(inner) => {
                run(bound, width, PrinterState { buf: st.buf.push((c.indent, *inner)), ..s0 })
            },
        }
    }
}


// ─── Convenience constructors ───────────────────────────────────────

/// Literal text.
pub fn text(s: &str) -> (d: Doc)
    ensures
        d@ == DocView::Text(s@),
{
    Doc::Text(String::from_str(s))
}

/// A line break, or a space when flat.
pub fn line() -> (d: Doc)
    ensures
        d@ == DocView::Line,
{
    Doc::Line
}

/// A line break, or nothing when flat.
pub fn softline() -> (d: Doc)
    ensures
        d@ == DocView::Softline,
{
    Doc::Softline
}

/// A forced line break.
pub fn hardline() -> (d: Doc)
    ensures
        d@ == DocView::Hardline,
{
    Doc::Hardline
}

/// Extra indentation for the breaks inside `doc`.
pub fn nest(indent: i32, doc: Doc) -> (d: Doc)
    ensures
        d@ == DocView::Nest(indent as int, Box::new(doc@)),
{
    Doc::Nest(indent, Box::new(doc))
}

/// A group printed flat if it fits.
pub fn group(doc: Doc) -> (d: Doc)
    ensures
        d@ == DocView::Group(Box::new(doc@)),
{
    Doc::Group(Box::new(doc))
}

/// Concatenation.
pub fn concat(docs: Vec<Doc>) -> (d: Doc)
    ensures
        d@ == DocView::Concat(views_of(docs@)),
{
    proof { lemma_concat_view(docs); }
    Doc::Concat(docs)
}

/// Items packed as many per line as fit.
pub fn fill(docs: Vec<Doc>) -> (d: Doc)
    ensures
        d@ == DocView::Fill(views_of(docs@)),
{
    proof { lemma_fill_view(docs); }
    Doc::Fill(docs)
}

/// `broken` when the enclosing group breaks, `flat` otherwise.
pub fn if_break(broken: Doc, flat: Doc) -> (d: Doc)
    ensures
        d@ == DocView::IfBreak(Box::new(broken@), Box::new(flat@)),
{
    Doc::IfBreak(Box::new(broken), Box::new(flat))
}

/// Content printed at the end of the current line.
pub fn line_suffix(doc: Doc) -> (d: Doc)
    ensures
        d@ == DocView::LineSuffix(Box::new(doc@)),
{
    Doc::LineSuffix(Box::new(doc))
}

/// The documents with `separator` between consecutive ones.
pub fn join(separator: Doc, docs: Vec<Doc>) -> (d: Doc)
    ensures
        d@ == DocView::Concat(intersperse(separator@, views_of(docs@))),
{
    let mut result: Vec<Doc> = Vec::new();
    let mut i: usize = 0;
    let n = docs.len();
    while i < n
        invariant
            n == docs@.len(),
            i <= n,
            result@.len() == if i == 0 { 0 } else { 2 * i - 1 },
            forall|k: int| 0 <= k < result@.len() ==> #[trigger] result@[k]@ == intersperse(separator@, views_of(docs@))[k],
        decreases n - i,
    {
        if i > 0 {
            result.push(separator.duplicate());
        }
        result.push(docs[i].duplicate());
        i = i + 1;
    }
    proof {
        assert(views_of(result@) =~= intersperse(separator@, views_of(docs@)));
        lemma_concat_view(result);
    }
    Doc::Concat(result)
}

/// Concatenation of two documents.
pub fn cons(a: Doc, b: Doc) -> (d: Doc)
    ensures
        d@ == DocView::Concat(seq![a@, b@]),
{
    let mut v: Vec<Doc> = Vec::new();
    v.push(a);
    v.push(b);
    proof {
        assert(views_of(v@) =~= seq![a@, b@]);
        lemma_concat_view(v);
    }
    Doc::Concat(v)
}

/// The empty document.
pub fn nil() -> (d: Doc)
    ensures
        d@ == DocView::Text(Seq::empty()),
{
    Doc::Text(String::new())
}

/// A single space.
pub fn space() -> (d: Doc)
    ensures
        d@ == DocView::Text(seq![' ']),
{
    let mut s = String::new();
    crate::text::push_char(&mut s, ' ');
    proof { assert(s@ =~= seq![' ']); }
    Doc::Text(s)
}


// ─── Printer ────────────────────────────────────────────────────────

/// A pending item of the printer's work stack.
struct PrintCmd {
    indent: i32,
    mode: Mode,
    doc: Doc,
}

spec fn cmd_view(c: PrintCmd) -> CmdView {
    CmdView { indent: c.indent as int, mode: c.mode, doc: c.doc@ }
}

spec fn stack_view(s: Seq<PrintCmd>) -> Seq<CmdView> {
    Seq::new(s.len(), |i: int| cmd_view(s[i]))
}

spec fn buf_view(b: Seq<(i32, Doc)>) -> Seq<(int, DocView)> {
    Seq::new(b.len(), |i: int| (b[i].0 as int, b[i].1@))
}

spec fn local_view(s: Seq<(i32, Mode, &Doc)>) -> Seq<CmdView> {
    Seq::new(s.len(), |i: int| CmdView { indent: s[i].0 as int, mode: s[i].1, doc: s[i].2@ })
}

/// Emit `indent` spaces.
fn emit_indent(output: &mut String, indent: i32)
    ensures
        final(output)@ == old(output)@ + spaces(indent as int),
{
    let mut i: i32 = 0;
    while i < indent
        invariant
            0 <= i,
            i <= indent || i == 0,
            output@ == old(output)@ + spaces(i as int),
        decreases indent - i,
    {
        crate::text::push_char(output, ' ');
        proof {
            assert(old(output)@ + spaces(i as int) + seq![' '] =~= old(output)@ + spaces(i + 1));
        }
        i = i + 1;
    }
    proof {
        assert(spaces(i as int) =~= spaces(indent as int));
    }
}

/// Checks whether `doc`, printed flat, fits within `remaining` columns, also counting
/// what the printer's remaining stack prints after it up to the next line break.
fn fits(remaining: i32, doc: &Doc, indent: i32, parent: &Vec<PrintCmd>) -> (r: bool)
    requires
        fits_view(remaining as int, stack_view(parent@).push(CmdView { indent: indent as int, mode: Mode::Flat, doc: doc@ })).1,
    ensures
        r == fits_view(remaining as int, stack_view(parent@).push(CmdView { indent: indent as int, mode: Mode::Flat, doc: doc@ })).0,
{
    let ghost goal = fits_view(remaining as int, stack_view(parent@).push(CmdView { indent: indent as int, mode: Mode::Flat, doc: doc@ }));
    let mut rem = remaining;
    let mut k: usize = parent.len();
    let mut local_stack: Vec<(i32, Mode, &Doc)> = Vec::new();
    local_stack.push((indent, Mode::Flat, doc));
    proof {
        assert(stack_view(parent@).take(k as int) =~= stack_view(parent@));
        assert(local_view(local_stack@) =~= seq![CmdView { indent: indent as int, mode: Mode::Flat, doc: doc@ }]);
        assert(stack_view(parent@).take(k as int) + local_view(local_stack@) =~= stack_view(parent@).push(CmdView { indent: indent as int, mode: Mode::Flat, doc: doc@ }));
    }
    while local_stack.len() > 0 || k > 0
        invariant
            k <= parent@.len(),
            fits_view(rem as int, stack_view(parent@).take(k as int) + local_view(local_stack@)) == goal,
            goal == fits_view(remaining as int, stack_view(parent@).push(CmdView { indent: indent as int, mode: Mode::Flat, doc: doc@ })),
            goal.1,
        decreases stack_size(stack_view(parent@).take(k as int) + local_view(local_stack@)),
    {
        let ghost before = stack_view(parent@).take(k as int) + local_view(local_stack@);
        let (ind, mode, d) = if local_stack.len() > 0 {
            local_stack.pop().unwrap()
        } else {
            k = k - 1;
            let pc = &parent[k];
            proof {
                assert(local_view(local_stack@) =~= Seq::<CmdView>::empty());
                assert(stack_view(parent@).take(k + 1) =~= stack_view(parent@).take(k as int).push(cmd_view(parent@[k as int])));
            }
            (pc.indent, pc.mode, &pc.doc)
        };
        let ghost rest = stack_view(parent@).take(k as int) + local_view(local_stack@);
        let ghost c = CmdView { indent: ind as int, mode, doc: d@ };
        proof {
            assert(before =~= rest.push(c));
            assert(before.drop_last() =~= rest);
            assert(before.last() == c);
            assert(before.len() > 0);
            lemma_stack_size_push(rest, c);
        }
        if rem < 0 {
            assert(fits_view(rem as int, before) == (false, true));
            return false;
        }
        let ghost rem0 = rem as int;
        match d {
            Doc::Text(s) => {
                let n = #[verifier::truncate] (s.as_str().len() as i32);
                assert(d@ == DocView::Text(s@));
                rem = rem - n;
                assert(fits_view(rem as int, rest) == fits_view(rem0, before));
            },
            Doc::Line => {
                if mode == Mode::Break {
                    assert(fits_view(rem as int, before) == (true, true));
                    return true;
                }
                rem = rem - 1;
                assert(fits_view(rem as int, rest) == fits_view(rem0, before));
            },
            Doc::Softline => {
                if mode == Mode::Break {
                    assert(fits_view(rem as int, before) == (true, true));
                    return true;
                }
            },
            Doc::Hardline => {
                assert(fits_view(rem as int, before) == (true, true));
                return true;
            },
            Doc::Nest(extra, inner) => {
                local_stack.push((ind + *extra, mode, &**inner));
                proof {
                    let n = CmdView { indent: ind + *extra, mode, doc: (**inner)@ };
                    assert(stack_view(parent@).take(k as int) + local_view(local_stack@) =~= rest.push(n));
                    lemma_stack_size_push(rest, n);
                }
            },
            Doc::Group(inner) => {
                local_stack.push((ind, mode, &**inner));
                proof {
                    let n = CmdView { indent: ind as int, mode, doc: (**inner)@ };
                    assert(stack_view(parent@).take(k as int) + local_view(local_stack@) =~= rest.push(n));
                    lemma_stack_size_push(rest, n);
                }
            },
            Doc::Concat(docs) => {
                proof { lemma_concat_view(*docs); }
                let mut j = docs.len();
                while j > 0
                    invariant
                        j <= docs@.len(),
                        k <= parent@.len(),
                        stack_view(parent@).take(k as int) + local_view(local_stack@)
                            =~= rest + rev_cmds(ind as int, mode, views_of(docs@)).subrange(0, docs@.len() - j),
                    decreases j,
                {
                    let ghost prev = local_view(local_stack@);
                    let ghost prev_all = stack_view(parent@).take(k as int) + local_view(local_stack@);
                    j = j - 1;
                    local_stack.push((ind, mode, &docs[j]));
                    proof {
                        assert(local_view(local_stack@) =~= prev.push(CmdView { indent: ind as int, mode, doc: docs@[j as int]@ }));
                        assert(stack_view(parent@).take(k as int) + local_view(local_stack@) =~= prev_all.push(CmdView { indent: ind as int, mode, doc: docs@[j as int]@ }));
                        assert(views_of(docs@)[j as int] == docs@[j as int]@);
                        assert(rev_cmds(ind as int, mode, views_of(docs@)).subrange(0, docs@.len() - j)
                            =~= rev_cmds(ind as int, mode, views_of(docs@)).subrange(0, docs@.len() - j - 1).push(
                            CmdView { indent: ind as int, mode, doc: docs@[j as int]@ }));
                    }
                }
                proof {
                    assert(rev_cmds(ind as int, mode, views_of(docs@)).subrange(0, docs@.len() as int)
                        =~= rev_cmds(ind as int, mode, views_of(docs@)));
                    lemma_stack_size_append(rest, rev_cmds(ind as int, mode, views_of(docs@)));
                    lemma_rev_cmds_size(ind as int, mode, views_of(docs@));
                }
            },
            Doc::Fill(docs) => {
                proof { lemma_fill_view(*docs); }
                let mut j = docs.len();
                while j > 0
                    invariant
                        j <= docs@.len(),
                        k <= parent@.len(),
                        stack_view(parent@).take(k as int) + local_view(local_stack@)
                            =~= rest + rev_cmds(ind as int, mode, views_of(docs@)).subrange(0, docs@.len() - j),
                    decreases j,
                {
                    let ghost prev = local_view(local_stack@);
                    let ghost prev_all = stack_view(parent@).take(k as int) + local_view(local_stack@);
                    j = j - 1;
                    local_stack.push((ind, mode, &docs[j]));
                    proof {
                        assert(local_view(local_stack@) =~= prev.push(CmdView { indent: ind as int, mode, doc: docs@[j as int]@ }));
                        assert(stack_view(parent@).take(k as int) + local_view(local_stack@) =~= prev_all.push(CmdView { indent: ind as int, mode, doc: docs@[j as int]@ }));
                        assert(views_of(docs@)[j as int] == docs@[j as int]@);
                        assert(rev_cmds(ind as int, mode, views_of(docs@)).subrange(0, docs@.len() - j)
                            =~= rev_cmds(ind as int, mode, views_of(docs@)).subrange(0, docs@.len() - j - 1).push(
                            CmdView { indent: ind as int, mode, doc: docs@[j as int]@ }));
                    }
                }
                proof {
                    assert(rev_cmds(ind as int, mode, views_of(docs@)).subrange(0, docs@.len() as int)
                        =~= rev_cmds(ind as int, mode, views_of(docs@)));
                    lemma_stack_size_append(rest, rev_cmds(ind as int, mode, views_of(docs@)));
                    lemma_rev_cmds_size(ind as int, mode, views_of(docs@));
                }
            },
            Doc::IfBreak(broken, flat) => {
                let pick: &Doc = if mode == Mode::Flat { &**flat } else { &**broken };
                local_stack.push((ind, mode, pick));
                proof {
                    let n = CmdView { indent: ind as int, mode, doc: pick@ };
                    assert(stack_view(parent@).take(k as int) + local_view(local_stack@) =~= rest.push(n));
                    lemma_stack_size_push(rest, n);
                }
            },
            Doc::LineSuffix(_) => {},
        }
    }
    proof {
        assert(stack_view(parent@).take(k as int) + local_view(local_stack@) =~= Seq::<CmdView>::empty());
    }
    rem >= 0
}


/// The printer's state as a model.
spec fn state_view(out: Seq<char>, pos: i32, buf: Seq<(i32, Doc)>, stack: Seq<PrintCmd>) -> PrinterState {
    PrinterState { out, pos: pos as int, buf: buf_view(buf), stack: stack_view(stack), ok: true }
}

/// Flush line-suffix buffer before a line break.
fn flush_line_suffix(output: &mut String, pos: &mut i32, buf: &mut Vec<(i32, Doc)>, Ghost(bound): Ghost<nat>)
    requires
        forall|i: int| 0 <= i < old(buf)@.len() ==> size(#[trigger] old(buf)@[i].1@) < bound,
        flush_line(bound, old(output)@, *old(pos) as int, buf_view(old(buf)@)).2,
    ensures
        final(output)@ == flush_line(bound, old(output)@, *old(pos) as int, buf_view(old(buf)@)).0,
        *final(pos) as int == flush_line(bound, old(output)@, *old(pos) as int, buf_view(old(buf)@)).1,
        final(buf)@.len() == 0,
    decreases bound, 0nat,
{
    let ghost goal = flush_line(bound, old(output)@, *old(pos) as int, buf_view(old(buf)@));
    let ghost b = buf_view(buf@);
    proof { assert(b.subrange(0, b.len() as int) =~= b); }
    let n = buf.len();
    let mut k: usize = 0;
    while k < n
        invariant
            n == buf@.len(),
            b == buf_view(buf@),
            k <= n,
            forall|i: int| 0 <= i < buf@.len() ==> size(#[trigger] buf@[i].1@) < bound,
            flush_line(bound, output@, *pos as int, b.subrange(k as int, n as int)) == goal,
            goal.2,
        decreases n - k,
    {
        let ghost sub = b.subrange(k as int, n as int);
        proof {
            assert(sub[0] == (buf@[k as int].0 as int, buf@[k as int].1@));
            assert(sub.drop_first() =~= b.subrange(k + 1, n as int));
        }
        let rendered = print_doc(&buf[k].1, MAX_LINE_WIDTH);
        output.append(rendered.as_str());
        let len = #[verifier::truncate] (rendered.as_str().len() as i32);
        *pos = *pos + len;
        k = k + 1;
    }
    proof {
        assert(b.subrange(n as int, n as int) =~= Seq::<(int, DocView)>::empty());
    }
    *buf = Vec::new();
}

/// Push the items of a `Fill`, separated by line breaks, as one breakable group.
fn fill_to_stack(stack: &mut Vec<PrintCmd>, items: &Vec<Doc>, indent: i32, remaining: i32)
    ensures
        items@.len() == 0 ==> final(stack)@ == old(stack)@,
        items@.len() > 0 ==> stack_view(final(stack)@) == stack_view(old(stack)@).push(
            CmdView {
                indent: indent as int,
                mode: Mode::Break,
                doc: DocView::Group(Box::new(DocView::Concat(interleave_lines(views_of(items@))))),
            },
        ),
{
    if items.len() == 0 {
        return;
    }
    let parts = join(Doc::Line, duplicate_vec(items));
    let fill_doc = Doc::Group(Box::new(parts));
    let ghost old_stack = stack@;
    stack.push(PrintCmd { indent, mode: Mode::Break, doc: fill_doc });
    proof {
        assert(stack_view(stack@) =~= stack_view(old_stack).push(cmd_view(stack@.last())));
    }
    let _ = remaining;
}

fn duplicate_vec(items: &Vec<Doc>) -> (r: Vec<Doc>)
    ensures
        views_of(r@) == views_of(items@),
{
    let r = duplicate_all(items);
    r
}

/// Handles one command popped from the printer's work stack.
#[verifier::rlimit(100)]
#[verifier::spinoff_prover]
fn process(
    cmd: PrintCmd,
    output: &mut String,
    pos: &mut i32,
    line_suffix_buf: &mut Vec<(i32, Doc)>,
    stack: &mut Vec<PrintCmd>,
    width: i32,
    Ghost(bound): Ghost<nat>,
)
    requires
        run(bound, width as int, state_view(old(output)@, *old(pos), old(line_suffix_buf)@, old(stack)@.push(cmd))).ok,
        size(cmd.doc@) <= bound,
        forall|i: int| 0 <= i < old(stack)@.len() ==> size(#[trigger] old(stack)@[i].doc@) <= bound,
        forall|i: int| 0 <= i < old(line_suffix_buf)@.len() ==> size(#[trigger] old(line_suffix_buf)@[i].1@) < bound,
    ensures
        run(bound, width as int, state_view(final(output)@, *final(pos), final(line_suffix_buf)@, final(stack)@))
            == run(bound, width as int, state_view(old(output)@, *old(pos), old(line_suffix_buf)@, old(stack)@.push(cmd))),
        stack_size(stack_view(final(stack)@)) < stack_size(stack_view(old(stack)@.push(cmd))),
        forall|i: int| 0 <= i < final(stack)@.len() ==> size(#[trigger] final(stack)@[i].doc@) <= bound,
        forall|i: int| 0 <= i < final(line_suffix_buf)@.len() ==> size(#[trigger] final(line_suffix_buf)@[i].1@) < bound,
    decreases bound, 1nat,
{
    let ghost cur = state_view(output@, *pos, line_suffix_buf@, stack@.push(cmd));
    let ghost rest = stack_view(stack@);
    let ghost c = cmd_view(cmd);
    let ghost w = width as int;
    proof {
        assert(rest =~= cur.stack.drop_last());
        assert(cur.stack.last() == c);
        assert(stack_size(cur.stack) == stack_size(rest) + size(c.doc));
    }
    let ghost s0 = PrinterState { stack: rest, ..cur };
    match cmd.doc {
        Doc::Text(s) => {
            let ghost np = cur.pos + col(byte_len(s@));
            proof {
                assert(c.doc == DocView::Text(s@));
                assert(run(bound, w, cur) == run(bound, w, PrinterState { out: cur.out + s@, pos: np, ok: in_i32(np), ..s0 }));
            }
            output.append(s.as_str());
            let n = #[verifier::truncate] (s.as_str().len() as i32);
            *pos = *pos + n;
            proof {
                assert(state_view(output@, *pos, line_suffix_buf@, stack@) =~= PrinterState { out: cur.out + s@, pos: np, ok: in_i32(np), ..s0 });
            }
        },
        Doc::Line => {
            proof { assert(c.doc == DocView::Line); }
            match cmd.mode {
                Mode::Flat => {
                    proof {
                        assert(run(bound, w, cur) == run(bound, w, PrinterState { out: cur.out.push(' '), pos: cur.pos + 1, ok: in_i32(cur.pos + 1), ..s0 }));
                    }
                    crate::text::push_char(output, ' ');
                    *pos = *pos + 1;
                    proof {
                        assert(state_view(output@, *pos, line_suffix_buf@, stack@) =~= PrinterState { out: cur.out.push(' '), pos: cur.pos + 1, ok: true, ..s0 });
                    }
                },
                Mode::Break => {
                    let ghost f = flush_line(bound, cur.out, cur.pos, cur.buf);
                    let ghost nx = PrinterState {
                        out: if f.2 { f.0 + newline(c.indent) } else { f.0 },
                        pos: if f.2 { c.indent } else { f.1 },
                        buf: seq![],
                        stack: rest,
                        ok: f.2,
                    };
                    proof { assert(run(bound, w, cur) == run(bound, w, nx)); }
                    flush_line_suffix(output, pos, line_suffix_buf, Ghost(bound));
                    crate::text::push_char(output, '\n');
                    emit_indent(output, cmd.indent);
                    *pos = cmd.indent;
                    proof {
                        assert(buf_view(line_suffix_buf@) =~= Seq::<(int, DocView)>::empty());
                        assert(output@ =~= f.0 + newline(c.indent));
                        assert(state_view(output@, *pos, line_suffix_buf@, stack@) =~= nx);
                    }
                },
            }
        },
        Doc::Softline => {
            proof { assert(c.doc == DocView::Softline); }
            match cmd.mode {
                Mode::Flat => {
                    proof {
                        assert(run(bound, w, cur) == run(bound, w, s0));
                        assert(state_view(output@, *pos, line_suffix_buf@, stack@) =~= s0);
                    }
                },
                Mode::Break => {
                    let ghost f = flush_line(bound, cur.out, cur.pos, cur.buf);
                    let ghost nx = PrinterState {
                        out: if f.2 { f.0 + newline(c.indent) } else { f.0 },
                        pos: if f.2 { c.indent } else { f.1 },
                        buf: seq![],
                        stack: rest,
                        ok: f.2,
                    };
                    proof { assert(run(bound, w, cur) == run(bound, w, nx)); }
                    flush_line_suffix(output, pos, line_suffix_buf, Ghost(bound));
                    crate::text::push_char(output, '\n');
                    emit_indent(output, cmd.indent);
                    *pos = cmd.indent;
                    proof {
                        assert(buf_view(line_suffix_buf@) =~= Seq::<(int, DocView)>::empty());
                        assert(output@ =~= f.0 + newline(c.indent));
                        assert(state_view(output@, *pos, line_suffix_buf@, stack@) =~= nx);
                    }
                },
            }
        },
        Doc::Hardline => {
            proof { assert(c.doc == DocView::Hardline); }
            let ghost f = flush_line(bound, cur.out, cur.pos, cur.buf);
            let ghost nx = PrinterState {
                out: if f.2 { f.0 + newline(c.indent) } else { f.0 },
                pos: if f.2 { c.indent } else { f.1 },
                buf: seq![],
                stack: rest,
                ok: f.2,
            };
            proof { assert(run(bound, w, cur) == run(bound, w, nx)); }
            flush_line_suffix(output, pos, line_suffix_buf, Ghost(bound));
            crate::text::push_char(output, '\n');
            emit_indent(output, cmd.indent);
            *pos = cmd.indent;
            proof {
                assert(buf_view(line_suffix_buf@) =~= Seq::<(int, DocView)>::empty());
                assert(output@ =~= f.0 + newline(c.indent));
                assert(state_view(output@, *pos, line_suffix_buf@, stack@) =~= nx);
            }
        },
        Doc::Nest(extra, inner) => {
            let ghost nc = CmdView { indent: c.indent + extra, mode: c.mode, doc: (*inner)@ };
            proof {
                assert(c.doc == DocView::Nest(extra as int, Box::new((*inner)@)));
                assert(size(c.doc) == 1 + size((*inner)@));
                if !in_i32(c.indent + extra) {
                    assert(run(bound, w, cur) == PrinterState { stack: rest, ok: false, ..cur });
                }
                assert(run(bound, w, cur) == run(bound, w, PrinterState { stack: rest.push(nc), ..cur }));
            }
            stack.push(PrintCmd { indent: cmd.indent + extra, mode: cmd.mode, doc: *inner });
            proof {
                assert(stack_view(stack@) =~= rest.push(nc));
                assert(state_view(output@, *pos, line_suffix_buf@, stack@) =~= PrinterState { stack: rest.push(nc), ..cur });
                lemma_stack_size_push(rest, nc);
            }
        },
        Doc::Group(inner) => {
            proof {
                assert(c.doc == DocView::Group(Box::new((*inner)@)));
                assert(size(c.doc) == 1 + size((*inner)@));
            }
            if cmd.mode == Mode::Flat {
                let ghost nc = CmdView { indent: c.indent, mode: Mode::Flat, doc: (*inner)@ };
                proof { assert(run(bound, w, cur) == run(bound, w, PrinterState { stack: rest.push(nc), ..cur })); }
                stack.push(PrintCmd { indent: cmd.indent, mode: Mode::Flat, doc: *inner });
                proof {
                    assert(stack_view(stack@) =~= rest.push(nc));
                    assert(state_view(output@, *pos, line_suffix_buf@, stack@) =~= PrinterState { stack: rest.push(nc), ..cur });
                    lemma_stack_size_push(rest, nc);
                }
            } else {
                let flat_doc = *inner;
                proof {
                    if !in_i32(w - cur.pos) {
                        assert(run(bound, w, cur) == PrinterState { stack: rest, ok: false, ..cur });
                    }
                    let f = fits_view(w - cur.pos, rest.push(CmdView { indent: c.indent, mode: Mode::Flat, doc: flat_doc@ }));
                    if !f.1 {
                        assert(run(bound, w, cur) == PrinterState { stack: rest, ok: false, ..cur });
                    }
                }
                proof { assert(stack_view(stack@) == rest); }
                let fit = fits(width - *pos, &flat_doc, cmd.indent, &stack);
                let ghost nc = CmdView { indent: c.indent, mode: if fit { Mode::Flat } else { Mode::Break }, doc: flat_doc@ };
                proof { assert(run(bound, w, cur) == run(bound, w, PrinterState { stack: rest.push(nc), ..cur })); }
                if fit {
                    stack.push(PrintCmd { indent: cmd.indent, mode: Mode::Flat, doc: flat_doc });
                } else {
                    stack.push(PrintCmd { indent: cmd.indent, mode: Mode::Break, doc: flat_doc });
                }
                proof {
                    assert(stack_view(stack@) =~= rest.push(nc));
                    assert(state_view(output@, *pos, line_suffix_buf@, stack@) =~= PrinterState { stack: rest.push(nc), ..cur });
                    lemma_stack_size_push(rest, nc);
                }
            }
        },
        Doc::Concat(docs) => {
            proof { lemma_concat_view(docs); }
            let ghost ds = views_of(docs@);
            let ghost orig = docs@;
            let ghost target = rest + rev_cmds(c.indent, c.mode, ds);
            proof {
                assert(c.doc == DocView::Concat(ds));
                assert(run(bound, w, cur) == run(bound, w, PrinterState { stack: target, ..cur }));
                lemma_stack_size_append(rest, rev_cmds(c.indent, c.mode, ds));
                lemma_rev_cmds_size(c.indent, c.mode, ds);
                assert(size(c.doc) == 1 + sizes(ds));
            }
            let mut docs = docs;
            while docs.len() > 0
                invariant
                    docs@ == orig.subrange(0, docs@.len() as int),
                    docs@.len() <= orig.len(),
                    ds == views_of(orig),
                    sizes(ds) < bound,
                    stack_view(stack@) =~= rest + rev_cmds(cmd.indent as int, cmd.mode, ds).subrange(0, orig.len() - docs@.len()),
                    forall|i: int| 0 <= i < stack@.len() ==> size(#[trigger] stack@[i].doc@) <= bound,
                decreases docs@.len(),
            {
                let ghost before = stack_view(stack@);
                let ghost j = docs@.len() - 1;
                let d = docs.pop().unwrap();
                proof {
                    assert(d == orig[j]);
                    lemma_sizes_element(ds, j);
                }
                stack.push(PrintCmd { indent: cmd.indent, mode: cmd.mode, doc: d });
                proof {
                    assert(stack_view(stack@) =~= before.push(CmdView { indent: cmd.indent as int, mode: cmd.mode, doc: d@ }));
                }
            }
            proof {
                assert(rev_cmds(c.indent, c.mode, ds).subrange(0, orig.len() as int) =~= rev_cmds(c.indent, c.mode, ds));
                assert(state_view(output@, *pos, line_suffix_buf@, stack@) =~= PrinterState { stack: target, ..cur });
            }
        },
        Doc::Fill(docs) => {
            proof {
                lemma_fill_view(docs);
                assert(c.doc == DocView::Fill(views_of(docs@)));
                if !in_i32(w - cur.pos) {
                    assert(run(bound, w, cur) == PrinterState { stack: rest, ok: false, ..cur });
                }
            }
            let ghost pre_stack = stack@;
            fill_to_stack(stack, &docs, cmd.indent, width - *pos);
            proof {
                let ds = views_of(docs@);
                assert(size(c.doc) == 2 + sizes(ds) + ds.len());
                if docs@.len() == 0 {
                    assert(stack@ == pre_stack);
                } else {
                    let g = DocView::Group(Box::new(DocView::Concat(interleave_lines(ds))));
                    lemma_interleave_size(ds);
                    assert(size(DocView::Concat(interleave_lines(ds))) == 1 + sizes(interleave_lines(ds)));
                    assert(size(g) == 1 + size(DocView::Concat(interleave_lines(ds))));
                    assert(stack_view(stack@) == stack_view(pre_stack).push(CmdView { indent: cmd.indent as int, mode: Mode::Break, doc: g }));
                    assert forall|i: int| 0 <= i < stack@.len() implies size(#[trigger] stack@[i].doc@) <= bound by {
                        assert(stack_view(stack@)[i] == cmd_view(stack@[i]));
                        if i < pre_stack.len() {
                            assert(stack_view(pre_stack)[i] == cmd_view(pre_stack[i]));
                            assert(size(old(stack)@[i].doc@) <= bound);
                        } else {
                            let sv = stack_view(stack@);
                            let pv = stack_view(pre_stack);
                            assert(sv.len() == pv.len() + 1);
                            assert(i == pv.len());
                            assert(sv[i] == sv.last());
                            assert(sv[i].doc == g);
                        }
                    }
                }
                if ds.len() == 0 {
                    assert(run(bound, w, cur) == run(bound, w, s0));
                    assert(stack_view(stack@) =~= rest);
                    assert(state_view(output@, *pos, line_suffix_buf@, stack@) =~= s0);
                } else {
                    let g = DocView::Group(Box::new(DocView::Concat(interleave_lines(ds))));
                    let nc = CmdView { indent: c.indent, mode: Mode::Break, doc: g };
                    assert(run(bound, w, cur) == run(bound, w, PrinterState { stack: rest.push(nc), ..cur }));
                    assert(state_view(output@, *pos, line_suffix_buf@, stack@) =~= PrinterState { stack: rest.push(nc), ..cur });
                    lemma_interleave_size(ds);
                    assert(size(DocView::Concat(interleave_lines(ds))) == 1 + sizes(interleave_lines(ds)));
                    assert(size(g) == 1 + size(DocView::Concat(interleave_lines(ds))));
                    lemma_stack_size_push(rest, nc);
                    assert(stack@.last().doc@ == g);
                }
            }
        },
        Doc::IfBreak(broken, flat) => {
            proof {
                assert(c.doc == DocView::IfBreak(Box::new((*broken)@), Box::new((*flat)@)));
                assert(size(c.doc) == 1 + size((*broken)@) + size((*flat)@));
            }
            let ghost nc = CmdView { indent: c.indent, mode: c.mode, doc: if c.mode == Mode::Flat { (*flat)@ } else { (*broken)@ } };
            proof { assert(run(bound, w, cur) == run(bound, w, PrinterState { stack: rest.push(nc), ..cur })); }
            match cmd.mode {
                Mode::Flat => {
                    stack.push(PrintCmd { indent: cmd.indent, mode: cmd.mode, doc: *flat });
                },
                Mode::Break => {
                    stack.push(PrintCmd { indent: cmd.indent, mode: cmd.mode, doc: *broken });
                },
            }
            proof {
                assert(stack_view(stack@) =~= rest.push(nc));
                assert(state_view(output@, *pos, line_suffix_buf@, stack@) =~= PrinterState { stack: rest.push(nc), ..cur });
                lemma_stack_size_push(rest, nc);
            }
        },
        Doc::LineSuffix(inner) => {
            proof {
                assert(c.doc == DocView::LineSuffix(Box::new((*inner)@)));
                assert(size(c.doc) == 1 + size((*inner)@));
                assert(run(bound, w, cur) == run(bound, w, PrinterState { buf: cur.buf.push((c.indent, (*inner)@)), ..s0 }));
            }
            let ghost old_buf = line_suffix_buf@;
            line_suffix_buf.push((cmd.indent, *inner));
            proof {
                assert(buf_view(line_suffix_buf@) =~= cur.buf.push((c.indent, (*inner)@)));
                assert(state_view(output@, *pos, line_suffix_buf@, stack@) =~= PrinterState { buf: cur.buf.push((c.indent, (*inner)@)), ..s0 });
            }
        },
    }
}

/// Render a document to a string, targeting the given line width.
pub fn print_doc(doc: &Doc, width: i32) -> (r: String)
    requires
        print_view(doc@, width as int).1,
    ensures
        r@ == print_view(doc@, width as int).0,
    decreases size(doc@), 2nat,
{
    let ghost bound = size(doc@);
    let mut output = String::new();
    let mut pos: i32 = 0;
    let mut line_suffix_buf: Vec<(i32, Doc)> = Vec::new();
    let mut stack: Vec<PrintCmd> = Vec::new();
    stack.push(PrintCmd { indent: 0, mode: Mode::Break, doc: doc.duplicate() });
    let ghost init = PrinterState {
        out: seq![],
        pos: 0,
        buf: seq![],
        stack: seq![CmdView { indent: 0, mode: Mode::Break, doc: doc@ }],
        ok: true,
    };
    let ghost fin = run(bound, width as int, init);
    proof {
        assert(stack_view(stack@) =~= init.stack);
        assert(buf_view(line_suffix_buf@) =~= init.buf);
        assert(output@ =~= init.out);
        assert(state_view(output@, pos, line_suffix_buf@, stack@) == init);
    }
    while stack.len() > 0
        invariant
            run(bound, width as int, state_view(output@, pos, line_suffix_buf@, stack@)) == fin,
            fin == run(bound, width as int, init),
            fin.ok,
            bound == size(doc@),
            forall|i: int| 0 <= i < stack@.len() ==> size(#[trigger] stack@[i].doc@) <= bound,
            forall|i: int| 0 <= i < line_suffix_buf@.len() ==> size(#[trigger] line_suffix_buf@[i].1@) < bound,
        decreases stack_size(stack_view(stack@)),
    {
        let ghost old_stack = stack@;
        let cmd = stack.pop().unwrap();
        proof {
            assert(old_stack =~= stack@.push(cmd));
            assert(size(old_stack[old_stack.len() - 1].doc@) <= bound);
        }
        process(cmd, &mut output, &mut pos, &mut line_suffix_buf, &mut stack, width, Ghost(bound));
    }
    let ghost after = state_view(output@, pos, line_suffix_buf@, stack@);
    proof {
        assert(after == fin);
    }
    let ghost b = buf_view(line_suffix_buf@);
    proof {
        assert(b.subrange(0, b.len() as int) =~= b);
        assert(output@ + Seq::<char>::empty() =~= output@);
    }
    let n = line_suffix_buf.len();
    let mut k: usize = 0;
    while k < n
        invariant
            n == line_suffix_buf@.len(),
            b == buf_view(line_suffix_buf@),
            k <= n,
            bound == size(doc@),
            forall|i: int| 0 <= i < line_suffix_buf@.len() ==> size(#[trigger] line_suffix_buf@[i].1@) < bound,
            output@ + flush_final(bound, width as int, b.subrange(k as int, n as int)).0 == fin.out + flush_final(bound, width as int, b).0,
            flush_final(bound, width as int, b.subrange(k as int, n as int)).1,
        decreases n - k,
    {
        let ghost sub = b.subrange(k as int, n as int);
        proof {
            assert(sub[0] == (line_suffix_buf@[k as int].0 as int, line_suffix_buf@[k as int].1@));
            assert(sub.drop_first() =~= b.subrange(k + 1, n as int));
        }
        let rendered = print_doc(&line_suffix_buf[k].1, width);
        output.append(rendered.as_str());
        k = k + 1;
    }
    proof {
        assert(b.subrange(n as int, n as int) =~= Seq::<(int, DocView)>::empty());
    }
    output
}

/// Render a document at the default line width.
pub fn render(doc: &Doc) -> (r: String)
    requires
        print_view(doc@, MAX_LINE_WIDTH as int).1,
    ensures
        r@ == print_view(doc@, MAX_LINE_WIDTH as int).0,
{
    print_doc(doc, MAX_LINE_WIDTH)
}


// ─── Flat rendering ─────────────────────────────────────────────────

/// The one-line rendering of a document: text as it is, a line as a space, a soft line
/// as nothing, the flat branch of an `IfBreak`; nesting and grouping change nothing.
pub open spec fn flat_text(d: DocView) -> Seq<char>
    decreases d,
{
    match d {
        DocView::Text(t) => t,
        DocView::Line => seq![' '],
        DocView::Nest(_, b) => flat_text(*b),
        DocView::Group(b) => flat_text(*b),
        DocView::Concat(ds) => flat_texts(ds),
        DocView::IfBreak(_, f) => flat_text(*f),
        _ => Seq::empty(),
    }
}

pub open spec fn flat_texts(ds: Seq<DocView>) -> Seq<char>
    decreases ds,
{
    if ds.len() == 0 {
        Seq::empty()
    } else {
        proof {
            assert(decreases_to!(ds => ds.drop_last()));
        }
        flat_texts(ds.drop_last()) + flat_text(ds.last())
    }
}

/// The columns the one-line rendering takes, as the printer counts them.
pub open spec fn flat_width(d: DocView) -> int
    decreases d,
{
    match d {
        DocView::Text(t) => col(byte_len(t)),
        DocView::Line => 1,
        DocView::Nest(_, b) => flat_width(*b),
        DocView::Group(b) => flat_width(*b),
        DocView::Concat(ds) => flat_widths(ds),
        DocView::IfBreak(_, f) => flat_width(*f),
        _ => 0,
    }
}

pub open spec fn flat_widths(ds: Seq<DocView>) -> int
    decreases ds,
{
    if ds.len() == 0 {
        0
    } else {
        proof {
            assert(decreases_to!(ds => ds.drop_last()));
        }
        flat_widths(ds.drop_last()) + flat_width(ds.last())
    }
}

/// A document that has a one-line rendering: no hard line, no line suffix, no fill,
/// every text of a representable width, and every nesting level (from `indent` on)
/// within the printer's 32-bit range.
pub open spec fn flat_safe(d: DocView, indent: int) -> bool
    decreases d,
{
    match d {
        DocView::Text(t) => col(byte_len(t)) >= 0,
        DocView::Line => true,
        DocView::Softline => true,
        DocView::Nest(e, b) => in_i32(indent + e) && flat_safe(*b, indent + e),
        DocView::Group(b) => flat_safe(*b, indent),
        DocView::Concat(ds) => flat_safes(ds, indent),
        DocView::IfBreak(_, f) => flat_safe(*f, indent),
        _ => false,
    }
}

pub open spec fn flat_safes(ds: Seq<DocView>, indent: int) -> bool
    decreases ds,
{
    if ds.len() == 0 {
        true
    } else {
        proof {
            assert(decreases_to!(ds => ds.drop_last()));
        }
        flat_safes(ds.drop_last(), indent) && flat_safe(ds.last(), indent)
    }
}

spec fn stack_flat(t: Seq<CmdView>) -> Seq<char>
    decreases t.len(),
{
    if t.len() == 0 {
        Seq::empty()
    } else {
        flat_text(t.last().doc) + stack_flat(t.drop_last())
    }
}

spec fn stack_fw(t: Seq<CmdView>) -> int
    decreases t.len(),
{
    if t.len() == 0 {
        0
    } else {
        flat_width(t.last().doc) + stack_fw(t.drop_last())
    }
}

spec fn stack_safe(t: Seq<CmdView>) -> bool
    decreases t.len(),
{
    if t.len() == 0 {
        true
    } else {
        t.last().mode == Mode::Flat && flat_safe(t.last().doc, t.last().indent) && stack_safe(t.drop_last())
    }
}

proof fn lemma_flat_width_nonneg(d: DocView, indent: int)
    requires
        flat_safe(d, indent),
    ensures
        flat_width(d) >= 0,
    decreases d,
{
    match d {
        DocView::Nest(e, b) => { lemma_flat_width_nonneg(*b, indent + e); },
        DocView::Group(b) => { lemma_flat_width_nonneg(*b, indent); },
        DocView::Concat(ds) => { lemma_flat_widths_nonneg(ds, indent); },
        DocView::IfBreak(_, f) => { lemma_flat_width_nonneg(*f, indent); },
        _ => {},
    }
}

proof fn lemma_flat_widths_nonneg(ds: Seq<DocView>, indent: int)
    requires
        flat_safes(ds, indent),
    ensures
        flat_widths(ds) >= 0,
    decreases ds,
{
    if ds.len() > 0 {
        assert(decreases_to!(ds => ds.drop_last()));
        lemma_flat_widths_nonneg(ds.drop_last(), indent);
        lemma_flat_width_nonneg(ds.last(), indent);
    }
}

proof fn lemma_stack_fw_nonneg(t: Seq<CmdView>)
    requires
        stack_safe(t),
    ensures
        stack_fw(t) >= 0,
    decreases t.len(),
{
    if t.len() > 0 {
        lemma_stack_fw_nonneg(t.drop_last());
        lemma_flat_width_nonneg(t.last().doc, t.last().indent);
    }
}

proof fn lemma_flat_push(rest: Seq<CmdView>, c: CmdView)
    ensures
        stack_flat(rest.push(c)) == flat_text(c.doc) + stack_flat(rest),
        stack_fw(rest.push(c)) == flat_width(c.doc) + stack_fw(rest),
        stack_safe(rest.push(c)) == (c.mode == Mode::Flat && flat_safe(c.doc, c.indent) && stack_safe(rest)),
{
    assert(rest.push(c).drop_last() =~= rest);
}

proof fn lemma_flat_rev_cmds(rest: Seq<CmdView>, indent: int, ds: Seq<DocView>)
    requires
        stack_safe(rest),
        flat_safes(ds, indent),
    ensures
        stack_safe(rest + rev_cmds(indent, Mode::Flat, ds)),
        stack_fw(rest + rev_cmds(indent, Mode::Flat, ds)) == flat_widths(ds) + stack_fw(rest),
        stack_flat(rest + rev_cmds(indent, Mode::Flat, ds)) == flat_texts(ds) + stack_flat(rest),
    decreases ds.len(),
{
    if ds.len() == 0 {
        assert(rest + rev_cmds(indent, Mode::Flat, ds) =~= rest);
    } else {
        let tail = ds.drop_last();
        let c = CmdView { indent, mode: Mode::Flat, doc: ds.last() };
        assert(rest + rev_cmds(indent, Mode::Flat, ds) =~= rest.push(c) + rev_cmds(indent, Mode::Flat, tail));
        lemma_flat_push(rest, c);
        lemma_flat_rev_cmds(rest.push(c), indent, tail);
        assert(flat_texts(tail) + (flat_text(ds.last()) + stack_flat(rest)) =~= flat_texts(ds) + stack_flat(rest));
    }
}

proof fn lemma_fits_flat(rem: int, t: Seq<CmdView>)
    requires
        stack_safe(t),
        in_i32(rem),
    ensures
        fits_view(rem, t) == (rem - stack_fw(t) >= 0, true),
    decreases stack_size(t),
{
    lemma_stack_fw_nonneg(t);
    if t.len() > 0 && rem >= 0 {
        let c = t.last();
        let rest = t.drop_last();
        assert(t =~= rest.push(c));
        lemma_stack_size_push(rest, c);
        lemma_flat_push(rest, c);
        lemma_stack_fw_nonneg(rest);
        match c.doc {
            DocView::Text(s) => {
                lemma_fits_flat(rem - col(byte_len(s)), rest);
            },
            DocView::Line => {
                lemma_fits_flat(rem - 1, rest);
            },
            DocView::Softline => {
                lemma_fits_flat(rem, rest);
            },
            DocView::Nest(e, inner) => {
                let n = CmdView { indent: c.indent + e, mode: c.mode, doc: *inner };
                lemma_stack_size_push(rest, n);
                lemma_flat_push(rest, n);
                lemma_fits_flat(rem, rest.push(n));
            },
            DocView::Group(inner) => {
                let n = CmdView { indent: c.indent, mode: c.mode, doc: *inner };
                lemma_stack_size_push(rest, n);
                lemma_flat_push(rest, n);
                lemma_fits_flat(rem, rest.push(n));
            },
            DocView::Concat(ds) => {
                lemma_stack_size_append(rest, rev_cmds(c.indent, c.mode, ds));
                lemma_rev_cmds_size(c.indent, c.mode, ds);
                lemma_flat_rev_cmds(rest, c.indent, ds);
                lemma_fits_flat(rem, rest + rev_cmds(c.indent, c.mode, ds));
            },
            DocView::IfBreak(_, f) => {
                let n = CmdView { indent: c.indent, mode: c.mode, doc: *f };
                lemma_stack_size_push(rest, n);
                lemma_flat_push(rest, n);
                lemma_fits_flat(rem, rest.push(n));
            },
            _ => {},
        }
    }
}

proof fn lemma_run_flat(bound: nat, width: int, st: PrinterState)
    requires
        st.ok,
        stack_safe(st.stack),
        0 <= st.pos,
        st.pos + stack_fw(st.stack) <= i32::MAX,
    ensures
        run(bound, width, st).out == st.out + stack_flat(st.stack),
        run(bound, width, st).pos == st.pos + stack_fw(st.stack),
        run(bound, width, st).buf == st.buf,
        run(bound, width, st).ok,
    decreases stack_size(st.stack),
{
    let t = st.stack;
    if t.len() == 0 {
        assert(st.out + stack_flat(t) =~= st.out);
    } else {
        let c = t.last();
        let rest = t.drop_last();
        assert(t =~= rest.push(c));
        lemma_stack_size_push(rest, c);
        lemma_flat_push(rest, c);
        lemma_stack_fw_nonneg(rest);
        lemma_flat_width_nonneg(c.doc, c.indent);
        match c.doc {
            DocView::Text(s) => {
                let np = st.pos + col(byte_len(s));
                let nx = PrinterState { out: st.out + s, pos: np, buf: st.buf, stack: rest, ok: in_i32(np) };
                lemma_run_flat(bound, width, nx);
                assert(st.out + s + stack_flat(rest) =~= st.out + stack_flat(t));
            },
            DocView::Line => {
                let nx = PrinterState { out: st.out.push(' '), pos: st.pos + 1, buf: st.buf, stack: rest, ok: in_i32(st.pos + 1) };
                lemma_run_flat(bound, width, nx);
                assert(st.out.push(' ') + stack_flat(rest) =~= st.out + stack_flat(t));
            },
            DocView::Softline => {
                let nx = PrinterState { stack: rest, ..st };
                lemma_run_flat(bound, width, nx);
                assert(flat_text(c.doc) =~= Seq::<char>::empty());
                assert(st.out + stack_flat(rest) =~= st.out + stack_flat(t));
            },
            DocView::Nest(e, inner) => {
                let n = CmdView { indent: c.indent + e, mode: c.mode, doc: *inner };
                lemma_stack_size_push(rest, n);
                lemma_flat_push(rest, n);
                lemma_run_flat(bound, width, PrinterState { stack: rest.push(n), ..st });
            },
            DocView::Group(inner) => {
                let n = CmdView { indent: c.indent, mode: Mode::Flat, doc: *inner };
                lemma_stack_size_push(rest, n);
                lemma_flat_push(rest, n);
                lemma_run_flat(bound, width, PrinterState { stack: rest.push(n), ..st });
            },
            DocView::Concat(ds) => {
                lemma_stack_size_append(rest, rev_cmds(c.indent, c.mode, ds));
                lemma_rev_cmds_size(c.indent, c.mode, ds);
                lemma_flat_rev_cmds(rest, c.indent, ds);
                lemma_run_flat(bound, width, PrinterState { stack: rest + rev_cmds(c.indent, c.mode, ds), ..st });
            },
            DocView::IfBreak(_, f) => {
                let n = CmdView { indent: c.indent, mode: c.mode, doc: *f };
                lemma_stack_size_push(rest, n);
                lemma_flat_push(rest, n);
                lemma_run_flat(bound, width, PrinterState { stack: rest.push(n), ..st });
            },
            _ => {},
        }
    }
}

/// A group whose one-line rendering fits the width is printed on one line: a document
/// without hard lines, line suffixes and fills, whose flat rendering takes no more
/// columns than the width, comes out as that flat rendering.
pub proof fn law_fitting_group_printed_flat(d: DocView, width: int)
    requires
        in_i32(width),
        flat_safe(d, 0),
        flat_width(d) <= width,
    ensures
        print_view(DocView::Group(Box::new(d)), width).0 == flat_text(d),
        print_view(DocView::Group(Box::new(d)), width).1,
{
    let g = DocView::Group(Box::new(d));
    let init = PrinterState {
        out: seq![],
        pos: 0,
        buf: seq![],
        stack: seq![CmdView { indent: 0, mode: Mode::Break, doc: g }],
        ok: true,
    };
    let e = Seq::<CmdView>::empty();
    let flat_cmd = CmdView { indent: 0, mode: Mode::Flat, doc: d };
    assert(init.stack.drop_last() =~= e);
    lemma_flat_push(e, flat_cmd);
    lemma_fits_flat(width, e.push(flat_cmd));
    lemma_stack_size_push(e, flat_cmd);
    let nx = PrinterState { stack: e.push(flat_cmd), ..init };
    lemma_run_flat(size(g), width, nx);
    let st = run(size(g), width, init);
    assert(st == run(size(g), width, nx));
    assert(st.buf.len() == 0);
    assert(st.out + flush_final(size(g), width, st.buf).0 =~= flat_text(d));
}


/// The printer state before printing `d` at the top level in mode `mode`.
pub open spec fn start_state(d: DocView, mode: Mode) -> PrinterState {
    PrinterState { out: seq![], pos: 0, buf: seq![], stack: seq![CmdView { indent: 0, mode, doc: d }], ok: true }
}

/// A group whose one-line rendering does not fit the width is broken: the printer goes on
/// exactly as if the document stood ungrouped in break mode, every line break of its own
/// in force.
pub proof fn law_overlong_group_broken(d: DocView, width: int, bound: nat)
    requires
        in_i32(width),
        flat_safe(d, 0),
        flat_width(d) > width,
    ensures
        run(bound, width, start_state(DocView::Group(Box::new(d)), Mode::Break)) == run(bound, width, start_state(d, Mode::Break)),
{
    let e = Seq::<CmdView>::empty();
    let flat_cmd = CmdView { indent: 0, mode: Mode::Flat, doc: d };
    let init = start_state(DocView::Group(Box::new(d)), Mode::Break);
    assert(init.stack.drop_last() =~= e);
    lemma_flat_push(e, flat_cmd);
    lemma_fits_flat(width, e.push(flat_cmd));
    let brk = CmdView { indent: 0, mode: Mode::Break, doc: d };
    assert(e.push(brk) =~= start_state(d, Mode::Break).stack);
    lemma_stack_size_push(e, brk);
}

} // verus!
