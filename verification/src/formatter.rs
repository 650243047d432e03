//! The source formatter: document IR, comment handling, import ordering and
//! the final clean-up of the printed text.
use vstd::prelude::*;
use crate::diagnostics::Diagnostic;
use crate::text::{split_on, split_chars, char_vecs_view, trim, trim_end, trim_chars, is_whitespace, is_ws, chars_of, push_chars, push_char, lemma_split_on_nonempty, lemma_split_concat, lemma_split_none};

pub mod doc;
pub mod comments;
pub mod format_items;
pub mod format_imports;
pub mod format_expr;
pub mod node_spans;

verus! {

/// Result of formatting a Riven source file.
#[derive(Debug, Clone)]
pub struct FormatResult {
    /// The formatted source code, or the original if formatting failed.
    pub output: String,
    /// Whether the source was changed.
    pub changed: bool,
    /// Any errors encountered (syntax errors in the input).
    pub errors: Vec<Diagnostic>,
}

/// A byte range within a source file (for range formatting).
#[derive(Debug, Clone, Copy)]
pub struct TextRange {
    pub start_line: u32,
    pub start_column: u32,
    pub end_line: u32,
    pub end_column: u32,
}

/// The lines of `s` as `str::lines` gives them, before trimming: the pieces
/// between newlines, without the empty piece after a final newline.
pub open spec fn lines_spec(s: Seq<char>) -> Seq<Seq<char>> {
    let p = split_on(s, '\n');
    if p.last().len() == 0 { p.drop_last() } else { p }
}

/// `ls` joined with newlines.
pub open spec fn join_lines(ls: Seq<Seq<char>>) -> Seq<char>
    decreases ls.len(),
{
    if ls.len() == 0 {
        Seq::empty()
    } else if ls.len() == 1 {
        ls[0]
    } else {
        join_lines(ls.drop_last()) + seq!['\n'] + ls.last()
    }
}

/// Every line with its trailing white space removed.
pub open spec fn stripped_spec(s: Seq<char>) -> Seq<char> {
    join_lines(lines_spec(s).map_values(|l: Seq<char>| trim_end(l)))
}

/// `s` ending in exactly the newline it has, or one added.
pub open spec fn with_newline_spec(s: Seq<char>) -> Seq<char> {
    if s.len() > 0 && s.last() == '\n' { s } else { s.push('\n') }
}

/// The formatted text ends with a newline, and ensuring it again changes nothing.
pub proof fn law_trailing_newline(s: Seq<char>)
    ensures
        with_newline_spec(s).len() > 0,
        with_newline_spec(s).last() == '\n',
        with_newline_spec(with_newline_spec(s)) == with_newline_spec(s),
{
}

/// The text kept so far and the number of blank lines just seen.
pub open spec fn compress_step(acc: (Seq<char>, nat), line: Seq<char>) -> (Seq<char>, nat) {
    let (r, n) = acc;
    let sep = if r.len() > 0 { seq!['\n'] } else { Seq::empty() };
    if trim(line).len() == 0 {
        if n + 1 <= 2 { (r + sep + line, n + 1) } else { (r, n + 1) }
    } else {
        (r + sep + line, 0)
    }
}

pub open spec fn compress_fold(ls: Seq<Seq<char>>) -> (Seq<char>, nat)
    decreases ls.len(),
{
    if ls.len() == 0 {
        (Seq::empty(), 0)
    } else {
        compress_step(compress_fold(ls.drop_last()), ls.last())
    }
}

/// The lines of `s` with every run of more than two blank lines cut to two.
pub open spec fn compressed_spec(s: Seq<char>) -> Seq<char> {
    compress_fold(split_on(s, '\n')).0
}

/// A line holding nothing but white space.
pub open spec fn blank(l: Seq<char>) -> bool {
    trim(l).len() == 0
}

/// No three consecutive lines are blank.
pub open spec fn at_most_two_blank(ls: Seq<Seq<char>>) -> bool {
    forall|i: int| 0 <= i && i + 2 < ls.len() ==> !(blank(#[trigger] ls[i]) && blank(ls[i + 1]) && blank(ls[i + 2]))
}

/// The number of blank lines at the end.
pub open spec fn trailing_blanks(ls: Seq<Seq<char>>) -> nat
    decreases ls.len(),
{
    if ls.len() == 0 {
        0
    } else if blank(ls.last()) {
        trailing_blanks(ls.drop_last()) + 1
    } else {
        0
    }
}

proof fn lemma_split_parts_lack_sep(s: Seq<char>, sep: char)
    ensures
        forall|i: int| 0 <= i < split_on(s, sep).len() ==> !(#[trigger] split_on(s, sep)[i]).contains(sep),
    decreases s.len(),
{
    if s.len() > 0 {
        let p = split_on(s.drop_last(), sep);
        lemma_split_parts_lack_sep(s.drop_last(), sep);
        lemma_split_on_nonempty(s.drop_last(), sep);
        if s.last() != sep {
            let q = split_on(s, sep);
            assert forall|i: int| 0 <= i < q.len() implies !(#[trigger] q[i]).contains(sep) by {
                if i == q.len() - 1 {
                    let l = p.last();
                    assert(!l.contains(sep));
                    assert(q[i] == l.push(s.last()));
                    if q[i].contains(sep) {
                        let t = choose|t: int| 0 <= t < q[i].len() && q[i][t] == sep;
                        if t < l.len() {
                            assert(l[t] == sep);
                        }
                    }
                } else {
                    assert(q[i] == p[i]);
                }
            }
        } else {
            let q = split_on(s, sep);
            assert forall|i: int| 0 <= i < q.len() implies !(#[trigger] q[i]).contains(sep) by {
                if i < p.len() {
                    assert(q[i] == p[i]);
                } else {
                    assert(q[i] =~= Seq::<char>::empty());
                }
            }
        }
    }
}

proof fn lemma_push_line(r: Seq<char>, line: Seq<char>)
    requires
        r.len() > 0,
        !line.contains('\n'),
    ensures
        split_on(r + seq!['\n'] + line, '\n') == split_on(r, '\n').push(line),
{
    lemma_split_concat(r, line, '\n');
    lemma_split_none(line, '\n');
    assert(split_on(r, '\n') + seq![line] =~= split_on(r, '\n').push(line));
}

proof fn lemma_trailing_two(ls: Seq<Seq<char>>)
    requires
        ls.len() >= 2,
        blank(ls.last()),
        blank(ls[ls.len() - 2]),
    ensures
        trailing_blanks(ls) >= 2,
{
    let d = ls.drop_last();
    assert(d.last() == ls[ls.len() - 2]);
    assert(trailing_blanks(d) == trailing_blanks(d.drop_last()) + 1);
    assert(trailing_blanks(ls) == trailing_blanks(d) + 1);
}

proof fn lemma_compress_fold_blank_runs(ls: Seq<Seq<char>>)
    requires
        forall|i: int| 0 <= i < ls.len() ==> !(#[trigger] ls[i]).contains('\n'),
    ensures
        at_most_two_blank(split_on(compress_fold(ls).0, '\n')),
        compress_fold(ls).0.len() > 0 ==> trailing_blanks(split_on(compress_fold(ls).0, '\n'))
            <= compress_fold(ls).1,
    decreases ls.len(),
{
    if ls.len() > 0 {
        let prev = compress_fold(ls.drop_last());
        assert forall|i: int| 0 <= i < ls.drop_last().len() implies !(#[trigger] ls.drop_last()[i]).contains('\n') by {
            assert(ls.drop_last()[i] == ls[i]);
        }
        lemma_compress_fold_blank_runs(ls.drop_last());
        let (r, n) = prev;
        let line = ls.last();
        assert(!line.contains('\n'));
        let l0 = split_on(r, '\n');
        let next = compress_fold(ls);
        assert(next == compress_step(prev, line));
        if r.len() == 0 {
            if blank(line) && n + 1 > 2 {
            } else {
                assert(next.0 =~= line);
                lemma_split_none(line, '\n');
                let l1 = split_on(next.0, '\n');
                assert(l1 == seq![line]);
                assert(l1.drop_last() =~= Seq::<Seq<char>>::empty());
                assert(l1.last() == line);
                if blank(line) {
                    assert(next.1 == n + 1);
                    assert(trailing_blanks(l1.drop_last()) == 0);
                    assert(trailing_blanks(l1) == 1);
                } else {
                    assert(next.1 == 0);
                    assert(trailing_blanks(l1) == 0);
                }
            }
        } else {
            if blank(line) && n + 1 > 2 {
            } else {
                assert(next.0 =~= r + seq!['\n'] + line);
                lemma_push_line(r, line);
                let l1 = split_on(next.0, '\n');
                assert(l1 == l0.push(line));
                assert(l1.drop_last() =~= l0);
                assert(l1.last() == line);
                if blank(line) {
                    assert(next.1 == n + 1);
                    assert(trailing_blanks(l1) == trailing_blanks(l0) + 1);
                } else {
                    assert(next.1 == 0);
                    assert(trailing_blanks(l1) == 0);
                }
                lemma_split_on_nonempty(r, '\n');
                assert forall|i: int| 0 <= i && i + 2 < l1.len() implies !(blank(#[trigger] l1[i]) && blank(l1[i + 1])
                    && blank(l1[i + 2])) by {
                    if i + 2 < l0.len() {
                        assert(l1[i] == l0[i] && l1[i + 1] == l0[i + 1] && l1[i + 2] == l0[i + 2]);
                    } else {
                        assert(i + 2 == l0.len());
                        assert(l1[i + 2] == line);
                        assert(l1[i] == l0[l0.len() - 2] && l1[i + 1] == l0[l0.len() - 1]);
                        if blank(line) && blank(l1[i]) && blank(l1[i + 1]) {
                            lemma_trailing_two(l0);
                        }
                    }
                }
            }
        }
    }
}

/// Runs of blank lines are cut to at most two: the compressed text never has three
/// blank lines in a row.
pub proof fn law_blank_runs_at_most_two(s: Seq<char>)
    ensures
        at_most_two_blank(split_on(compressed_spec(s), '\n')),
{
    lemma_split_parts_lack_sep(s, '\n');
    lemma_compress_fold_blank_runs(split_on(s, '\n'));
}

/// Removes trailing white space from every line; a final newline is dropped.
pub fn strip_trailing_whitespace(s: &str) -> (r: String)
    ensures
        r@ == stripped_spec(s@),
{
    let cs = chars_of(s);
    let mut parts = split_chars(&cs, '\n');
    proof { lemma_split_on_nonempty(s@, '\n'); }
    let ghost all = char_vecs_view(parts@);
    let n = parts.len();
    let count = if parts[n - 1].len() == 0 { n - 1 } else { n };
    let ghost ls = lines_spec(s@);
    proof {
        assert(all[n - 1] == parts@[n - 1]@);
        assert(ls =~= all.take(count as int));
    }
    let ghost tl = ls.map_values(|l: Seq<char>| trim_end(l));
    let mut out = String::new();
    let mut i: usize = 0;
    while i < count
        invariant
            i <= count <= parts@.len(),
            all == char_vecs_view(parts@),
            ls == all.take(count as int),
            tl == ls.map_values(|l: Seq<char>| trim_end(l)),
            out@ == join_lines(tl.take(i as int)),
        decreases count - i,
    {
        if i > 0 {
            push_char(&mut out, '\n');
        }
        let line = trim_end_chars(&parts[i]);
        let ghost before = out@;
        push_chars(&mut out, &line);
        proof {
            assert(tl.take(i + 1).drop_last() =~= tl.take(i as int));
            assert(tl[i as int] == trim_end(parts@[i as int]@));
            if i == 0 {
                assert(tl.take(1) =~= seq![tl[0]]);
            }
            assert(out@ =~= join_lines(tl.take(i + 1)));
        }
        i = i + 1;
    }
    proof { assert(tl.take(count as int) =~= tl); }
    out
}

/// `s` with trailing white space removed.
pub fn trim_end_chars(s: &Vec<char>) -> (r: Vec<char>)
    ensures
        r@ == trim_end(s@),
{
    let mut j = s.len();
    proof { assert(s@.subrange(0, j as int) =~= s@); }
    while j > 0 && is_whitespace(s[j - 1])
        invariant
            j <= s@.len(),
            trim_end(s@) == trim_end(s@.subrange(0, j as int)),
        decreases j,
    {
        proof { assert(s@.subrange(0, j as int).drop_last() =~= s@.subrange(0, j - 1)); }
        j = j - 1;
    }
    crate::text::copy_range(s, 0, j)
}

/// `s` with a newline appended unless it already ends with one.
pub fn ensure_trailing_newline(s: &str) -> (r: String)
    ensures
        r@ == with_newline_spec(s@),
{
    let cs = chars_of(s);
    let mut out = String::new();
    push_chars(&mut out, &cs);
    if !(cs.len() > 0 && cs[cs.len() - 1] == '\n') {
        push_char(&mut out, '\n');
    }
    proof { assert(out@ =~= with_newline_spec(s@)); }
    out
}

/// Keeps at most two consecutive blank lines.
pub fn compress_blank_lines(s: &str) -> (r: String)
    ensures
        r@ == compressed_spec(s@),
{
    let cs = chars_of(s);
    let parts = split_chars(&cs, '\n');
    let ghost all = char_vecs_view(parts@);
    let mut result = String::new();
    let mut nonempty = false;
    let mut consecutive_empty: usize = 0;
    let mut i: usize = 0;
    proof { assert(all.take(0) =~= Seq::<Seq<char>>::empty()); }
    while i < parts.len()
        invariant
            i <= parts@.len(),
            all == char_vecs_view(parts@),
            all == split_on(s@, '\n'),
            consecutive_empty <= i,
            nonempty == (result@.len() > 0),
            (result@, consecutive_empty as nat) == compress_fold(all.take(i as int)),
        decreases parts@.len() - i,
    {
        proof {
            assert(all.take(i + 1).drop_last() =~= all.take(i as int));
            assert(all.take(i + 1).last() == parts@[i as int]@);
        }
        let line = &parts[i];
        let trimmed = trim_chars(line);
        let ghost before = result@;
        if trimmed.len() == 0 {
            consecutive_empty = consecutive_empty + 1;
            if consecutive_empty <= 2 {
                if nonempty {
                    push_char(&mut result, '\n');
                }
                push_chars(&mut result, line);
                nonempty = nonempty || line.len() > 0;
            }
        } else {
            consecutive_empty = 0;
            if nonempty {
                push_char(&mut result, '\n');
            }
            push_chars(&mut result, line);
            nonempty = nonempty || line.len() > 0;
        }
        proof {
            let sep = if before.len() > 0 { seq!['\n'] } else { Seq::<char>::empty() };
            if trimmed@.len() == 0 {
                if consecutive_empty <= 2 {
                    assert(result@ =~= before + sep + line@);
                }
            } else {
                assert(result@ =~= before + sep + line@);
            }
        }
        i = i + 1;
    }
    proof { assert(all.take(parts@.len() as int) =~= all); }
    result
}

} // verus!
