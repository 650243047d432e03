//! Comment collection and attachment for the formatter.
//!
//! The formatter needs every comment, so the raw source is scanned again:
//! comments are found outside string, character and raw-string literals, and
//! each one is then attached to the nearest syntax node by byte position.
use vstd::prelude::*;
use std::collections::HashMap;
use crate::lexer::token::Span;
use crate::text::{trim, trim_chars, copy_range};
use crate::codegen::runtime::eq_lit;
pub use crate::formatter::node_spans::collect_node_spans;

verus! {

// ─── Comment Types ──────────────────────────────────────────────────

#[derive(Debug, Clone, Copy, PartialEq, Eq, Structural)]
pub enum CommentKind {
    /// `# ...` — single-line comment
    Line,
    /// `#= ... =#` — block comment (possibly nested)
    Block,
    /// `## ...` — doc comment
    Doc,
}

#[derive(Debug, Clone, Copy, PartialEq, Eq, Structural)]
pub enum CommentPosition {
    /// Comment on a line above a node.
    Leading,
    /// Comment at end of a line after code.
    Trailing,
    /// Comment inside an empty block body or between nodes.
    Dangling,
}

#[derive(Debug, Clone)]
pub struct Comment {
    pub kind: CommentKind,
    pub text: String,
    pub span: Span,
    pub position: CommentPosition,
}

/// Model of a [`Comment`].
pub struct CommentView {
    pub kind: CommentKind,
    pub text: Seq<char>,
    pub span: Span,
    pub position: CommentPosition,
}

impl View for Comment {
    type V = CommentView;

    open spec fn view(&self) -> CommentView {
        CommentView { kind: self.kind, text: self.text@, span: self.span, position: self.position }
    }
}

/// The models of a list of comments.
pub open spec fn comments_view(v: Seq<Comment>) -> Seq<CommentView> {
    v.map_values(|c: Comment| c@)
}

// ─── Format Suppression Ranges ──────────────────────────────────────

/// A byte range where formatting is off: from a `# fmt: off` comment to the end
/// of the matching `# fmt: on` comment, or to the end of the file.
#[derive(Debug, Clone, Copy, PartialEq, Eq, Structural)]
pub struct FmtOffRange {
    pub start_byte: usize,
    pub end_byte: Option<usize>,
}

// ─── Positions in the source ────────────────────────────────────────

/// The character at index `i`, if there is one.
pub open spec fn char_at(cs: Seq<char>, i: int) -> Option<char> {
    if 0 <= i < cs.len() {
        Some(cs[i])
    } else {
        None
    }
}

/// The number of UTF-8 bytes of the first `p` characters.
pub open spec fn bytes_at(cs: Seq<char>, p: int) -> nat {
    vstd::utf8::encode_utf8(cs.take(p)).len()
}

/// The line (from 1) on which character `p` stands.
pub open spec fn line_at(cs: Seq<char>, p: int) -> nat
    decreases p,
{
    if p <= 0 {
        1
    } else if cs[p - 1] == '\n' {
        line_at(cs, p - 1) + 1
    } else {
        line_at(cs, p - 1)
    }
}

/// The column (from 1) at which character `p` stands.
pub open spec fn col_at(cs: Seq<char>, p: int) -> nat
    decreases p,
{
    if p <= 0 {
        1
    } else if cs[p - 1] == '\n' {
        1
    } else {
        col_at(cs, p - 1) + 1
    }
}

/// The index of the first newline at or after `p`, or the length.
pub open spec fn next_newline(cs: Seq<char>, p: int) -> int
    decreases cs.len() - p,
{
    if p < 0 || p >= cs.len() || cs[p] == '\n' {
        if p < 0 { 0 } else if p > cs.len() { cs.len() as int } else { p }
    } else {
        next_newline(cs, p + 1)
    }
}

/// Where the content of a block comment ends: the `=#` that closes nesting depth
/// `depth`, or the end of the text.
pub open spec fn block_end(cs: Seq<char>, p: int, depth: nat) -> int
    decreases cs.len() - p,
{
    if p < 0 || p >= cs.len() {
        if p < 0 { 0 } else { cs.len() as int }
    } else if cs[p] == '#' && char_at(cs, p + 1) == Some('=') {
        block_end(cs, p + 2, depth + 1)
    } else if cs[p] == '=' && char_at(cs, p + 1) == Some('#') {
        if depth > 1 {
            block_end(cs, p + 2, (depth - 1) as nat)
        } else {
            p
        }
    } else {
        block_end(cs, p + 1, depth)
    }
}

/// Past the closing `=#` of a block comment whose content ends at `q`.
pub open spec fn after_close(cs: Seq<char>, q: int) -> int {
    if q + 1 < cs.len() {
        q + 2
    } else if q < cs.len() {
        q + 1
    } else {
        q
    }
}

/// `c` is alphabetic (`char::is_alphabetic`, Unicode `Alphabetic`).
pub uninterp spec fn is_alphabetic_char(c: char) -> bool;

/// `c` is alphanumeric (`char::is_alphanumeric`).
pub uninterp spec fn is_alphanumeric_char(c: char) -> bool;

/// Calls `char::is_alphabetic` (std): whether `c` has the Unicode `Alphabetic` property.
/// The contract names the answer (`is_alphabetic_char`); the Unicode tables are not stated.
#[verifier::external_body]
fn char_is_alphabetic(c: char) -> (r: bool)
    ensures
        r == is_alphabetic_char(c),
{
    c.is_alphabetic()
}

/// Calls `char::is_alphanumeric` (std): whether `c` is alphabetic or numeric in Unicode.
/// The contract names the answer (`is_alphanumeric_char`); the Unicode tables are not stated.
#[verifier::external_body]
fn char_is_alphanumeric(c: char) -> (r: bool)
    ensures
        r == is_alphanumeric_char(c),
{
    c.is_alphanumeric()
}

/// Past a run of identifier characters starting at `q`.
pub open spec fn ident_end(cs: Seq<char>, q: int) -> int
    decreases cs.len() - q,
{
    if 0 <= q < cs.len() && (is_alphanumeric_char(cs[q]) || cs[q] == '_') {
        ident_end(cs, q + 1)
    } else {
        q
    }
}

/// Past a character literal or lifetime starting with the quote at `p`.
pub open spec fn char_literal_end(cs: Seq<char>, p: int) -> int {
    let q = p + 1;
    if char_at(cs, q) == Some('\\') {
        let q2 = if q + 1 < cs.len() { q + 2 } else { q + 1 };
        if char_at(cs, q2) == Some('\'') { q2 + 1 } else { q2 }
    } else if q < cs.len() {
        let next = cs[q];
        if is_alphabetic_char(next) || next == '_' {
            let e = ident_end(cs, q + 1);
            if char_at(cs, e) == Some('\'') { e + 1 } else { e }
        } else {
            if char_at(cs, q + 1) == Some('\'') { q + 2 } else { q + 1 }
        }
    } else {
        q
    }
}

/// How many `#` follow index `i`, counting at most `h`.
pub open spec fn hashes_from(cs: Seq<char>, i: int, h: nat) -> nat
    decreases h,
{
    if h > 0 && 0 <= i < cs.len() && cs[i] == '#' {
        1 + hashes_from(cs, i + 1, (h - 1) as nat)
    } else {
        0
    }
}

pub proof fn lemma_hashes_from_bound(cs: Seq<char>, i: int, h: nat)
    requires
        0 <= i <= cs.len(),
    ensures
        i + hashes_from(cs, i, h) <= cs.len(),
        hashes_from(cs, i, h) <= h,
    decreases h,
{
    if h > 0 && 0 <= i < cs.len() && cs[i] == '#' {
        lemma_hashes_from_bound(cs, i + 1, (h - 1) as nat);
    }
}

/// Past the body of a raw string with `h` hashes, scanning from `q`.
pub open spec fn raw_body_end(cs: Seq<char>, q: int, h: nat) -> int
    decreases cs.len() - q,
{
    if q < 0 || q >= cs.len() {
        if q < 0 { 0 } else { cs.len() as int }
    } else if cs[q] == '"' {
        let f = hashes_from(cs, q + 1, h);
        if f == h {
            q + 1 + f
        } else {
            proof { lemma_hashes_from_bound(cs, q + 1, h); }
            raw_body_end(cs, q + 1 + f, h)
        }
    } else {
        raw_body_end(cs, q + 1, h)
    }
}

/// The number of `#` in the run starting at `i`.
pub open spec fn hash_run(cs: Seq<char>, i: int) -> nat
    decreases cs.len() - i,
{
    if 0 <= i < cs.len() && cs[i] == '#' {
        1 + hash_run(cs, i + 1)
    } else {
        0
    }
}

/// Past a raw string `r#"..."#` starting with the `r` at `p`.
pub open spec fn raw_string_end(cs: Seq<char>, p: int) -> int {
    let h = hash_run(cs, p + 1);
    let q = p + 1 + h;
    let q2 = if char_at(cs, q) == Some('"') { q + 1 } else { q };
    raw_body_end(cs, q2, h)
}

/// Is there anything but spaces, tabs and carriage returns before byte `off` on its line?
/// (Scanning goes back from `off - 1` and stops at a newline or after byte 0.)
pub open spec fn code_before(b: Seq<u8>, off: int) -> bool {
    off > 0 && code_before_from(b, off - 1)
}

pub open spec fn code_before_from(b: Seq<u8>, i: int) -> bool
    decreases i + 1,
{
    if i < 0 || i >= b.len() || b[i] == 10u8 {
        false
    } else if b[i] != 32u8 && b[i] != 9u8 && b[i] != 13u8 {
        true
    } else {
        code_before_from(b, i - 1)
    }
}

pub proof fn lemma_scan_bounds(cs: Seq<char>, p: int)
    requires
        0 <= p <= cs.len(),
    ensures
        p <= next_newline(cs, p) <= cs.len(),
        p <= ident_end(cs, p) <= cs.len(),
        forall|d: nat| p <= #[trigger] block_end(cs, p, d) <= cs.len(),
        forall|h: nat| p <= #[trigger] raw_body_end(cs, p, h) <= cs.len(),
    decreases cs.len() - p,
{
    if p < cs.len() {
        lemma_scan_bounds(cs, p + 1);
        if p + 2 <= cs.len() {
            lemma_scan_bounds(cs, p + 2);
        }
        assert forall|h: nat| p <= #[trigger] raw_body_end(cs, p, h) <= cs.len() by {
            if cs[p] == '"' {
                lemma_hashes_from_bound(cs, p + 1, h);
                let f = hashes_from(cs, p + 1, h);
                if f != h {
                    lemma_scan_bounds(cs, p + 1 + f);
                    assert(p + 1 + f <= raw_body_end(cs, p + 1 + f, h) <= cs.len());
                }
            } else {
                assert(p + 1 <= raw_body_end(cs, p + 1, h) <= cs.len());
            }
        }
        assert forall|d: nat| p <= #[trigger] block_end(cs, p, d) <= cs.len() by {
            if cs[p] == '#' && char_at(cs, p + 1) == Some('=') {
                assert(p + 2 <= block_end(cs, p + 2, d + 1) <= cs.len());
            } else if cs[p] == '=' && char_at(cs, p + 1) == Some('#') {
                if d > 1 {
                    assert(p + 2 <= block_end(cs, p + 2, (d - 1) as nat) <= cs.len());
                }
            } else {
                assert(p + 1 <= block_end(cs, p + 1, d) <= cs.len());
            }
        }
    }
}

pub proof fn lemma_literal_bounds(cs: Seq<char>, p: int)
    requires
        0 <= p < cs.len(),
    ensures
        p < char_literal_end(cs, p) <= cs.len(),
        p < raw_string_end(cs, p) <= cs.len(),
{
    lemma_scan_bounds(cs, p + 1);
    if p + 2 <= cs.len() {
        lemma_scan_bounds(cs, p + 2);
    }
    lemma_hash_run_bound(cs, p + 1);
    let h = hash_run(cs, p + 1);
    let q = p + 1 + h;
    lemma_scan_bounds(cs, q);
    if q < cs.len() {
        lemma_scan_bounds(cs, q + 1);
    }
}

pub proof fn lemma_hash_run_bound(cs: Seq<char>, i: int)
    requires
        0 <= i <= cs.len(),
    ensures
        i + hash_run(cs, i) <= cs.len(),
    decreases cs.len() - i,
{
    if i < cs.len() && cs[i] == '#' {
        lemma_hash_run_bound(cs, i + 1);
    }
}

/// What the scanner is inside of: a string, a triple-quoted string, or an
/// interpolation `#{...}` with the given brace depth.
pub enum Frame {
    Str,
    Triple,
    Braces(nat),
}

/// The comments found so far and the `fmt: off` ranges.
pub struct ScanOut {
    pub comments: Seq<CommentView>,
    pub ranges: Seq<FmtOffRange>,
}

/// The span of a comment from character `p` to character `e`.
pub open spec fn span_of(cs: Seq<char>, p: int, e: int) -> Span {
    Span {
        start: bytes_at(cs, p) as usize,
        end: bytes_at(cs, e) as usize,
        line: line_at(cs, p) as u32,
        column: col_at(cs, p) as u32,
    }
}

/// Leading unless code precedes the comment on its line.
pub open spec fn position_of(src: Seq<u8>, start_byte: int) -> CommentPosition {
    if code_before(src, start_byte) {
        CommentPosition::Trailing
    } else {
        CommentPosition::Leading
    }
}

/// The ranges after a line comment with content `content` spanning `start..end` bytes:
/// `fmt: off` opens a range, `fmt: on` closes the last range if it is still open.
pub open spec fn apply_directive(ranges: Seq<FmtOffRange>, content: Seq<char>, start: usize, end: usize) -> Seq<FmtOffRange> {
    if trim(content) == "fmt: off"@ {
        ranges.push(FmtOffRange { start_byte: start, end_byte: None })
    } else if trim(content) == "fmt: on"@ && ranges.len() > 0 && ranges.last().end_byte is None {
        ranges.update(ranges.len() - 1, FmtOffRange { start_byte: ranges.last().start_byte, end_byte: Some(end) })
    } else {
        ranges
    }
}

/// Where the text of a doc comment starting at `p` begins (after `##` and one optional space).
pub open spec fn doc_text_start(cs: Seq<char>, p: int) -> int {
    if char_at(cs, p + 2) == Some(' ') { p + 3 } else { p + 2 }
}

/// The interpolation or string literal opened by the quote at `p`.
pub open spec fn opens_triple(cs: Seq<char>, p: int) -> bool {
    char_at(cs, p + 1) == Some('"') && char_at(cs, p + 2) == Some('"')
}

/// Past a backslash escape at `p`.
pub open spec fn after_escape(cs: Seq<char>, p: int) -> int {
    if p + 1 < cs.len() { p + 2 } else { p + 1 }
}

/// The scanner from character `p` with open literals `stack` and results `out` so far.
pub open spec fn scan(cs: Seq<char>, src: Seq<u8>, p: int, stack: Seq<Frame>, out: ScanOut) -> ScanOut
    decreases cs.len() - p, stack.len(),
{
    if p < 0 || p >= cs.len() {
        out
    } else {
        proof {
            lemma_scan_bounds(cs, p + 1);
            lemma_literal_bounds(cs, p);
            if p + 2 <= cs.len() {
                lemma_scan_bounds(cs, p + 2);
            }
            if p + 3 <= cs.len() {
                lemma_scan_bounds(cs, p + 3);
            }
        }
        let c = cs[p];
        if stack.len() == 0 {
            if c == '#' {
                if char_at(cs, p + 1) == Some('=') {
                    let q = block_end(cs, p + 2, 1);
                    let f = after_close(cs, q);
                    let sp = span_of(cs, p, f);
                    let com = CommentView {
                        kind: CommentKind::Block,
                        text: cs.subrange(p + 2, q),
                        span: sp,
                        position: position_of(src, sp.start as int),
                    };
                    scan(cs, src, f, stack, ScanOut { comments: out.comments.push(com), ..out })
                } else if char_at(cs, p + 1) == Some('#') {
                    let s = doc_text_start(cs, p);
                    let e = next_newline(cs, s);
                    let com = CommentView {
                        kind: CommentKind::Doc,
                        text: cs.subrange(s, e),
                        span: span_of(cs, p, e),
                        position: CommentPosition::Leading,
                    };
                    scan(cs, src, e, stack, ScanOut { comments: out.comments.push(com), ..out })
                } else if char_at(cs, p + 1) == Some('{') {
                    scan(cs, src, p + 1, stack, out)
                } else {
                    let e = next_newline(cs, p + 1);
                    let sp = span_of(cs, p, e);
                    let content = cs.subrange(p + 1, e);
                    let com = CommentView {
                        kind: CommentKind::Line,
                        text: content,
                        span: sp,
                        position: position_of(src, sp.start as int),
                    };
                    scan(
                        cs,
                        src,
                        e,
                        stack,
                        ScanOut {
                            comments: out.comments.push(com),
                            ranges: apply_directive(out.ranges, content, sp.start, sp.end),
                        },
                    )
                }
            } else if c == '"' {
                if opens_triple(cs, p) {
                    scan(cs, src, p + 3, stack.push(Frame::Triple), out)
                } else {
                    scan(cs, src, p + 1, stack.push(Frame::Str), out)
                }
            } else if c == '\'' {
                scan(cs, src, char_literal_end(cs, p), stack, out)
            } else if c == 'r' && (char_at(cs, p + 1) == Some('"') || char_at(cs, p + 1) == Some('#')) {
                scan(cs, src, raw_string_end(cs, p), stack, out)
            } else {
                scan(cs, src, p + 1, stack, out)
            }
        } else {
            match stack.last() {
                Frame::Str => {
                    if c == '\\' {
                        scan(cs, src, after_escape(cs, p), stack, out)
                    } else if c == '#' && char_at(cs, p + 1) == Some('{') {
                        scan(cs, src, p + 2, stack.push(Frame::Braces(1)), out)
                    } else if c == '"' {
                        scan(cs, src, p + 1, stack.drop_last(), out)
                    } else {
                        scan(cs, src, p + 1, stack, out)
                    }
                },
                Frame::Triple => {
                    if c == '\\' {
                        scan(cs, src, after_escape(cs, p), stack, out)
                    } else if c == '#' && char_at(cs, p + 1) == Some('{') {
                        scan(cs, src, p + 2, stack.push(Frame::Braces(1)), out)
                    } else if c == '"' && opens_triple(cs, p) {
                        scan(cs, src, p + 3, stack.drop_last(), out)
                    } else {
                        scan(cs, src, p + 1, stack, out)
                    }
                },
                Frame::Braces(d) => {
                    if c == '{' {
                        scan(cs, src, p + 1, stack.update(stack.len() - 1, Frame::Braces(d + 1)), out)
                    } else if c == '}' {
                        if d <= 1 {
                            scan(cs, src, p + 1, stack.drop_last(), out)
                        } else {
                            scan(cs, src, p + 1, stack.update(stack.len() - 1, Frame::Braces((d - 1) as nat)), out)
                        }
                    } else if c == '"' {
                        if opens_triple(cs, p) {
                            scan(cs, src, p + 3, stack.push(Frame::Triple), out)
                        } else {
                            scan(cs, src, p + 1, stack.push(Frame::Str), out)
                        }
                    } else if c == '\'' {
                        scan(cs, src, char_literal_end(cs, p), stack, out)
                    } else if c == '#' && char_at(cs, p + 1) == Some('{') {
                        scan(cs, src, p + 2, stack.push(Frame::Braces(1)), out)
                    } else {
                        scan(cs, src, p + 1, stack, out)
                    }
                },
            }
        }
    }
}

/// All comments of `cs` (whose UTF-8 bytes are `src`) and the `fmt: off` ranges.
pub open spec fn collect_spec(cs: Seq<char>, src: Seq<u8>) -> ScanOut {
    scan(cs, src, 0, Seq::empty(), ScanOut { comments: Seq::empty(), ranges: Seq::empty() })
}

/// The UTF-8 length of a character.
pub open spec fn char_len(c: char) -> nat {
    vstd::utf8::encode_scalar(c as u32).len()
}

pub proof fn lemma_encode_push(s: Seq<char>, c: char)
    ensures
        vstd::utf8::encode_utf8(s.push(c)) == vstd::utf8::encode_utf8(s) + vstd::utf8::encode_scalar(c as u32),
    decreases s.len(),
{
    if s.len() == 0 {
        reveal_with_fuel(vstd::utf8::encode_utf8, 2);
        assert(s.push(c)[0] == c);
        assert(s.push(c).drop_first() =~= Seq::<char>::empty());
        assert(vstd::utf8::encode_utf8(s) =~= Seq::<u8>::empty());
        assert(vstd::utf8::encode_utf8(s.push(c)) =~= vstd::utf8::encode_scalar(c as u32));
    } else {
        lemma_encode_push(s.drop_first(), c);
        assert(s.push(c).drop_first() =~= s.drop_first().push(c));
        assert(vstd::utf8::encode_utf8(s.push(c)) =~= vstd::utf8::encode_utf8(s) + vstd::utf8::encode_scalar(c as u32));
    }
}

pub proof fn lemma_bytes_step(cs: Seq<char>, p: int)
    requires
        0 <= p < cs.len(),
    ensures
        bytes_at(cs, p + 1) == bytes_at(cs, p) + char_len(cs[p]),
{
    assert(cs.take(p + 1) =~= cs.take(p).push(cs[p]));
    lemma_encode_push(cs.take(p), cs[p]);
}

pub proof fn lemma_bytes_mono(cs: Seq<char>, p: int, q: int)
    requires
        0 <= p <= q <= cs.len(),
    ensures
        bytes_at(cs, p) <= bytes_at(cs, q),
    decreases q - p,
{
    if p < q {
        lemma_bytes_mono(cs, p, q - 1);
        lemma_bytes_step(cs, q - 1);
    }
}

pub proof fn lemma_line_col_bound(cs: Seq<char>, p: int)
    requires
        0 <= p <= cs.len(),
    ensures
        line_at(cs, p) <= p + 1,
        col_at(cs, p) <= p + 1,
    decreases p,
{
    if p > 0 {
        lemma_line_col_bound(cs, p - 1);
    }
}

/// Exec form of a scanner frame: brace depth as a `u32`.
#[derive(Debug, Clone, Copy)]
enum ScanFrame {
    Str,
    Triple,
    Braces(u32),
}

spec fn frame_view(f: ScanFrame) -> Frame {
    match f {
        ScanFrame::Str => Frame::Str,
        ScanFrame::Triple => Frame::Triple,
        ScanFrame::Braces(d) => Frame::Braces(d as nat),
    }
}

spec fn frames_view(s: Seq<ScanFrame>) -> Seq<Frame> {
    s.map_values(|f: ScanFrame| frame_view(f))
}

/// Brace depths stay below `bound`.
spec fn depths_below(s: Seq<ScanFrame>, bound: int) -> bool {
    forall|i: int| 0 <= i < s.len() ==> (#[trigger] s[i] matches ScanFrame::Braces(d) ==> d <= bound)
}

/// Scans raw source text and extracts all comments with their positions.
pub struct CommentCollector<'a> {
    source: &'a str,
    chars: Vec<char>,
    pos: usize,
    byte_pos: usize,
    line: u32,
    column: u32,
    comments: Vec<Comment>,
    fmt_off_ranges: Vec<FmtOffRange>,
}

impl<'a> CommentCollector<'a> {
    /// The characters being scanned.
    pub closed spec fn source_chars(&self) -> Seq<char> {
        self.source@
    }

    /// The collector is at a consistent position with nothing collected yet.
    pub closed spec fn fresh(&self) -> bool {
        &&& self.wf()
        &&& self.pos == 0
        &&& self.comments@.len() == 0
        &&& self.fmt_off_ranges@.len() == 0
    }

    spec fn wf(&self) -> bool {
        &&& self.chars@ == self.source@
        &&& self.pos <= self.chars@.len()
        &&& self.byte_pos == bytes_at(self.chars@, self.pos as int)
        &&& self.line == line_at(self.chars@, self.pos as int)
        &&& self.column == col_at(self.chars@, self.pos as int)
    }

    spec fn limits(&self) -> bool {
        &&& self.chars@.len() < 0xFFFF_FFFD
        &&& vstd::utf8::encode_utf8(self.chars@).len() <= usize::MAX
    }

    spec fn out(&self) -> ScanOut {
        ScanOut { comments: comments_view(self.comments@), ranges: self.fmt_off_ranges@ }
    }

    spec fn src(&self) -> Seq<u8> {
        vstd::utf8::encode_utf8(self.source@)
    }

    pub fn new(source: &'a str) -> (r: CommentCollector<'a>)
        ensures
            r.fresh(),
            r.source_chars() == source@,
    {
        CommentCollector {
            source,
            chars: crate::text::chars_of(source),
            pos: 0,
            byte_pos: 0,
            line: 1,
            column: 1,
            comments: Vec::new(),
            fmt_off_ranges: Vec::new(),
        }
    }

    fn is_at_end(&self) -> (r: bool)
        requires
            self.wf(),
        ensures
            r == (self.pos >= self.chars@.len()),
    {
        self.pos >= self.chars.len()
    }

    fn current(&self) -> (r: char)
        requires
            self.wf(),
            self.pos < self.chars@.len(),
        ensures
            r == self.chars@[self.pos as int],
    {
        self.chars[self.pos]
    }

    fn peek_at(&self, offset: usize) -> (r: Option<char>)
        requires
            self.wf(),
            offset <= 2,
            self.chars@.len() < 0xFFFF_FFFD,
        ensures
            r == char_at(self.chars@, self.pos + offset),
    {
        let i = self.pos + offset;
        if i < self.chars.len() {
            Some(self.chars[i])
        } else {
            None
        }
    }

    fn advance(&mut self) -> (r: char)
        requires
            old(self).wf(),
            old(self).limits(),
            old(self).pos < old(self).chars@.len(),
        ensures
            final(self).wf(),
            final(self).limits(),
            r == old(self).chars@[old(self).pos as int],
            final(self).pos == old(self).pos + 1,
            final(self).source == old(self).source,
            final(self).chars == old(self).chars,
            final(self).comments == old(self).comments,
            final(self).fmt_off_ranges == old(self).fmt_off_ranges,
    {
        let ch = self.chars[self.pos];
        proof {
            lemma_bytes_step(self.chars@, self.pos as int);
            lemma_bytes_mono(self.chars@, self.pos + 1, self.chars@.len() as int);
            assert(self.chars@.take(self.chars@.len() as int) =~= self.chars@);
            lemma_line_col_bound(self.chars@, self.pos + 1);
        }
        self.byte_pos = self.byte_pos + char_byte_len(ch);
        self.pos = self.pos + 1;
        if ch == '\n' {
            self.line = self.line + 1;
            self.column = 1;
        } else {
            self.column = self.column + 1;
        }
        ch
    }
}

/// The number of UTF-8 bytes of `c` (`char::len_utf8`).
fn char_byte_len(c: char) -> (r: usize)
    ensures
        r == char_len(c),
        1 <= r <= 4,
{
    proof { vstd::utf8::char_is_scalar(c); }
    let u = c as u32;
    if u <= 0x7F {
        1
    } else if u <= 0x7FF {
        2
    } else if u <= 0xFFFF {
        3
    } else {
        4
    }
}

/// The characters `cs[a..b]` as a string.
fn string_of(cs: &Vec<char>, a: usize, b: usize) -> (r: String)
    requires
        a <= b <= cs@.len(),
    ensures
        r@ == cs@.subrange(a as int, b as int),
{
    let mut r = String::new();
    let mut i = a;
    while i < b
        invariant
            a <= i <= b <= cs@.len(),
            r@ == cs@.subrange(a as int, i as int),
        decreases b - i,
    {
        crate::text::push_char(&mut r, cs[i]);
        i = i + 1;
        proof { assert(r@ =~= cs@.subrange(a as int, i as int)); }
    }
    r
}

impl<'a> CommentCollector<'a> {
    /// `self` is `old` moved to character `p`, with the same results so far.
    spec fn moved_from(&self, old: &Self, p: int) -> bool {
        &&& self.wf()
        &&& self.limits()
        &&& self.pos == p
        &&& self.source == old.source
        &&& self.chars == old.chars
        &&& self.comments == old.comments
        &&& self.fmt_off_ranges == old.fmt_off_ranges
    }

    /// Is there code before byte `byte_offset` on its line?
    fn has_code_before_on_line(&self, byte_offset: usize) -> (r: bool)
        requires
            self.wf(),
            byte_offset <= self.src().len(),
        ensures
            r == code_before(self.src(), byte_offset as int),
    {
        let source_bytes = self.source.as_bytes();
        if byte_offset == 0 {
            return false;
        }
        let mut i = byte_offset - 1;
        loop
            invariant
                source_bytes@ == self.src(),
                i < source_bytes@.len(),
                code_before(self.src(), byte_offset as int) == code_before_from(self.src(), i as int),
            decreases i,
        {
            if source_bytes[i] == 10u8 {
                return false;
            }
            let ch = source_bytes[i];
            if ch != 32u8 && ch != 9u8 && ch != 13u8 {
                return true;
            }
            if i == 0 {
                proof { assert(!code_before_from(self.src(), -1)); }
                return false;
            }
            i = i - 1;
        }
    }

    /// Skips a character literal or lifetime starting at the quote under the cursor.
    fn skip_char(&mut self)
        requires
            old(self).wf(),
            old(self).limits(),
            old(self).pos < old(self).chars@.len(),
            old(self).chars@[old(self).pos as int] == '\'',
        ensures
            final(self).moved_from(old(self), char_literal_end(old(self).chars@, old(self).pos as int)),
    {
        let ghost cs = self.chars@;
        let ghost p = self.pos as int;
        self.advance();
        if !self.is_at_end() && self.current() == '\\' {
            self.advance();
            if !self.is_at_end() {
                self.advance();
            }
        } else if !self.is_at_end() {
            let next = self.current();
            if char_is_alphabetic(next) || next == '_' {
                self.advance();
                while !self.is_at_end() && (char_is_alphanumeric(self.current()) || self.current() == '_')
                    invariant
                        self.moved_from(old(self), self.pos as int),
                        p + 2 <= self.pos <= cs.len(),
                        cs == self.chars@,
                        ident_end(cs, p + 2) == ident_end(cs, self.pos as int),
                    decreases cs.len() - self.pos,
                {
                    self.advance();
                }
                if !self.is_at_end() && self.current() == '\'' {
                    self.advance();
                }
                return;
            }
            self.advance();
        }
        if !self.is_at_end() && self.current() == '\'' {
            self.advance();
        }
    }

    /// Skips a raw string `r#"..."#` starting at the `r` under the cursor.
    fn skip_raw_string(&mut self)
        requires
            old(self).wf(),
            old(self).limits(),
            old(self).pos < old(self).chars@.len(),
        ensures
            final(self).moved_from(old(self), raw_string_end(old(self).chars@, old(self).pos as int)),
    {
        let ghost cs = self.chars@;
        let ghost p = self.pos as int;
        self.advance();
        let mut hashes: usize = 0;
        while !self.is_at_end() && self.current() == '#'
            invariant
                self.moved_from(old(self), self.pos as int),
                cs == self.chars@,
                p == old(self).pos,
                self.pos == p + 1 + hashes,
                hash_run(cs, p + 1) == hashes + hash_run(cs, self.pos as int),
            decreases cs.len() - self.pos,
        {
            hashes = hashes + 1;
            self.advance();
        }
        let ghost h = hash_run(cs, p + 1);
        if !self.is_at_end() && self.current() == '"' {
            self.advance();
        }
        let ghost q2 = self.pos as int;
        while !self.is_at_end()
            invariant
                self.moved_from(old(self), self.pos as int),
                cs == self.chars@,
                p == old(self).pos,
                h == hashes,
                h == hash_run(cs, p + 1),
                raw_string_end(cs, p) == raw_body_end(cs, self.pos as int, h),
            decreases cs.len() - self.pos,
        {
            if self.current() == '"' {
                let ghost q = self.pos as int;
                self.advance();
                let mut found: usize = 0;
                while found < hashes && !self.is_at_end() && self.current() == '#'
                    invariant
                        self.moved_from(old(self), self.pos as int),
                        cs == self.chars@,
                        p == old(self).pos,
                        h == hashes,
                        found <= hashes,
                        self.pos == q + 1 + found,
                        hashes_from(cs, q + 1, h) == found + hashes_from(cs, self.pos as int, (h - found) as nat),
                    decreases cs.len() - self.pos,
                {
                    found = found + 1;
                    self.advance();
                }
                if found == hashes {
                    proof {
                        assert(hashes_from(cs, self.pos as int, 0) == 0);
                        assert(hashes_from(cs, q + 1, h) == h);
                        assert(raw_body_end(cs, q, h) == q + 1 + h);
                        assert(raw_string_end(cs, p) == self.pos as int);
                        assert(self.moved_from(old(self), self.pos as int));
                    }
                    return;
                }
            } else {
                self.advance();
            }
        }
    }
}

proof fn lemma_bytes_within(cs: Seq<char>, p: int)
    requires
        0 <= p <= cs.len(),
    ensures
        bytes_at(cs, p) <= vstd::utf8::encode_utf8(cs).len(),
{
    lemma_bytes_mono(cs, p, cs.len() as int);
    assert(cs.take(cs.len() as int) =~= cs);
}

impl<'a> CommentCollector<'a> {
    /// Moves the cursor to the next newline (or the end).
    fn skip_to_newline(&mut self)
        requires
            old(self).wf(),
            old(self).limits(),
        ensures
            final(self).moved_from(old(self), next_newline(old(self).chars@, old(self).pos as int)),
    {
        let ghost cs = self.chars@;
        let ghost p = self.pos as int;
        while !self.is_at_end() && self.current() != '\n'
            invariant
                self.moved_from(old(self), self.pos as int),
                cs == self.chars@,
                p == old(self).pos,
                p <= self.pos,
                next_newline(cs, p) == next_newline(cs, self.pos as int),
            decreases cs.len() - self.pos,
        {
            self.advance();
        }
    }

    /// Records the line comment starting at the `#` under the cursor, and the
    /// `fmt: off` / `fmt: on` directive it may hold.
    fn collect_line_comment(&mut self, start_byte: usize, start_line: u32, start_col: u32)
        requires
            old(self).wf(),
            old(self).limits(),
            old(self).pos < old(self).chars@.len(),
            start_byte == old(self).byte_pos,
            start_line == old(self).line,
            start_col == old(self).column,
        ensures
            ({
                let cs = old(self).chars@;
                let p = old(self).pos as int;
                let e = next_newline(cs, p + 1);
                let sp = span_of(cs, p, e);
                let content = cs.subrange(p + 1, e);
                &&& final(self).wf()
                &&& final(self).limits()
                &&& final(self).pos == e
                &&& final(self).source == old(self).source
                &&& final(self).chars == old(self).chars
                &&& final(self).out() == ScanOut {
                    comments: old(self).out().comments.push(
                        CommentView {
                            kind: CommentKind::Line,
                            text: content,
                            span: sp,
                            position: position_of(old(self).src(), sp.start as int),
                        },
                    ),
                    ranges: apply_directive(old(self).out().ranges, content, sp.start, sp.end),
                }
            }),
    {
        let ghost cs = self.chars@;
        let ghost p = self.pos as int;
        self.advance();
        let content_start = self.pos;
        proof { lemma_scan_bounds(self.chars@, self.pos as int); }
        self.skip_to_newline();
        let content_chars = copy_range(&self.chars, content_start, self.pos);
        let content = string_of(&self.chars, content_start, self.pos);
        let span = Span::new(start_byte, self.byte_pos, start_line, start_col);
        let trimmed = trim_chars(&content_chars);
        if eq_lit(&trimmed, "fmt: off") {
            self.fmt_off_ranges.push(FmtOffRange { start_byte, end_byte: None });
        } else if eq_lit(&trimmed, "fmt: on") {
            let n = self.fmt_off_ranges.len();
            if n > 0 {
                let last = self.fmt_off_ranges[n - 1];
                if last.end_byte.is_none() {
                    self.fmt_off_ranges.set(n - 1, FmtOffRange { start_byte: last.start_byte, end_byte: Some(self.byte_pos) });
                }
            }
        }
        proof { lemma_bytes_within(cs, p); }
        let is_trailing = self.has_code_before_on_line(start_byte);
        let ghost before = self.comments@;
        self.comments.push(
            Comment {
                kind: CommentKind::Line,
                text: content,
                span,
                position: if is_trailing {
                    CommentPosition::Trailing
                } else {
                    CommentPosition::Leading
                },
            },
        );
        proof {
            assert(comments_view(self.comments@) =~= comments_view(before).push(self.comments@.last()@));
        }
    }

    /// Records the doc comment starting at the `##` under the cursor.
    fn collect_doc_comment(&mut self, start_byte: usize, start_line: u32, start_col: u32)
        requires
            old(self).wf(),
            old(self).limits(),
            old(self).pos + 1 < old(self).chars@.len(),
            start_byte == old(self).byte_pos,
            start_line == old(self).line,
            start_col == old(self).column,
        ensures
            ({
                let cs = old(self).chars@;
                let p = old(self).pos as int;
                let s = doc_text_start(cs, p);
                let e = next_newline(cs, s);
                &&& final(self).wf()
                &&& final(self).limits()
                &&& final(self).pos == e
                &&& final(self).source == old(self).source
                &&& final(self).chars == old(self).chars
                &&& final(self).out() == ScanOut {
                    comments: old(self).out().comments.push(
                        CommentView {
                            kind: CommentKind::Doc,
                            text: cs.subrange(s, e),
                            span: span_of(cs, p, e),
                            position: CommentPosition::Leading,
                        },
                    ),
                    ..old(self).out()
                }
            }),
    {
        self.advance();
        self.advance();
        if !self.is_at_end() && self.current() == ' ' {
            self.advance();
        }
        let content_start = self.pos;
        proof { lemma_scan_bounds(self.chars@, self.pos as int); }
        self.skip_to_newline();
        let content = string_of(&self.chars, content_start, self.pos);
        let span = Span::new(start_byte, self.byte_pos, start_line, start_col);
        let ghost before = self.comments@;
        self.comments.push(Comment { kind: CommentKind::Doc, text: content, span, position: CommentPosition::Leading });
        proof {
            assert(comments_view(self.comments@) =~= comments_view(before).push(self.comments@.last()@));
        }
    }

    /// Records the (possibly nested) block comment starting at the `#=` under the cursor.
    fn collect_block_comment(&mut self, start_byte: usize, start_line: u32, start_col: u32)
        requires
            old(self).wf(),
            old(self).limits(),
            old(self).pos + 1 < old(self).chars@.len(),
            start_byte == old(self).byte_pos,
            start_line == old(self).line,
            start_col == old(self).column,
        ensures
            ({
                let cs = old(self).chars@;
                let p = old(self).pos as int;
                let q = block_end(cs, p + 2, 1);
                let f = after_close(cs, q);
                let sp = span_of(cs, p, f);
                &&& final(self).wf()
                &&& final(self).limits()
                &&& final(self).pos == f
                &&& final(self).source == old(self).source
                &&& final(self).chars == old(self).chars
                &&& final(self).out() == ScanOut {
                    comments: old(self).out().comments.push(
                        CommentView {
                            kind: CommentKind::Block,
                            text: cs.subrange(p + 2, q),
                            span: sp,
                            position: position_of(old(self).src(), sp.start as int),
                        },
                    ),
                    ..old(self).out()
                }
            }),
    {
        let ghost cs = self.chars@;
        let ghost p = self.pos as int;
        self.advance();
        self.advance();
        let mut depth: u32 = 1;
        let mut closed = false;
        let content_start = self.pos;
        while !closed && !self.is_at_end()
            invariant
                self.moved_from(old(self), self.pos as int),
                cs == self.chars@,
                p == old(self).pos,
                p + 2 <= self.pos,
                1 <= depth <= self.pos,
                !closed ==> block_end(cs, p + 2, 1) == block_end(cs, self.pos as int, depth as nat),
                closed ==> block_end(cs, p + 2, 1) == self.pos,
            decreases cs.len() - self.pos + (if closed { 0int } else { 1int }),
        {
            if self.current() == '#' && self.peek_at(1) == Some('=') {
                self.advance();
                self.advance();
                depth = depth + 1;
            } else if self.current() == '=' && self.peek_at(1) == Some('#') {
                if depth > 1 {
                    self.advance();
                    self.advance();
                    depth = depth - 1;
                } else {
                    closed = true;
                }
            } else {
                self.advance();
            }
        }
        let content = string_of(&self.chars, content_start, self.pos);
        if !self.is_at_end() {
            self.advance();
        }
        if !self.is_at_end() {
            self.advance();
        }
        let span = Span::new(start_byte, self.byte_pos, start_line, start_col);
        proof { lemma_bytes_within(cs, p); }
        let is_trailing = self.has_code_before_on_line(start_byte);
        let ghost before = self.comments@;
        self.comments.push(
            Comment {
                kind: CommentKind::Block,
                text: content,
                span,
                position: if is_trailing {
                    CommentPosition::Trailing
                } else {
                    CommentPosition::Leading
                },
            },
        );
        proof {
            assert(comments_view(self.comments@) =~= comments_view(before).push(self.comments@.last()@));
        }
    }
}

impl<'a> CommentCollector<'a> {
    /// The scanner's result from the current state with open literals `stack`.
    spec fn rest(&self, stack: Seq<ScanFrame>) -> ScanOut {
        scan(self.chars@, self.src(), self.pos as int, frames_view(stack), self.out())
    }

    /// Handles a `#` in code: a block, doc or line comment, or the start of `#{`.
    fn handle_hash(&mut self)
        requires
            old(self).wf(),
            old(self).limits(),
            old(self).pos < old(self).chars@.len(),
            old(self).chars@[old(self).pos as int] == '#',
        ensures
            final(self).wf(),
            final(self).limits(),
            final(self).source == old(self).source,
            final(self).chars == old(self).chars,
            final(self).pos > old(self).pos,
            final(self).rest(Seq::empty()) == old(self).rest(Seq::empty()),
    {
        let ghost cs = self.chars@;
        let ghost p = self.pos as int;
        proof {
            lemma_scan_bounds(cs, p + 1);
            if p + 2 <= cs.len() {
                lemma_scan_bounds(cs, p + 2);
            }
            if p + 3 <= cs.len() {
                lemma_scan_bounds(cs, p + 3);
            }
            assert(frames_view(Seq::<ScanFrame>::empty()) =~= Seq::<Frame>::empty());
        }
        let start_byte = self.byte_pos;
        let start_line = self.line;
        let start_col = self.column;
        if self.peek_at(1) == Some('=') {
            self.collect_block_comment(start_byte, start_line, start_col);
        } else if self.peek_at(1) == Some('#') {
            self.collect_doc_comment(start_byte, start_line, start_col);
        } else if self.peek_at(1) == Some('{') {
            self.advance();
        } else {
            self.collect_line_comment(start_byte, start_line, start_col);
        }
    }

    /// Enters the string literal opened by the quote under the cursor.
    fn skip_string(&mut self, stack: &mut Vec<ScanFrame>)
        requires
            old(self).wf(),
            old(self).limits(),
            old(self).pos < old(self).chars@.len(),
        ensures
            final(stack)@ == old(stack)@.push(
                if opens_triple(old(self).chars@, old(self).pos as int) {
                    ScanFrame::Triple
                } else {
                    ScanFrame::Str
                },
            ),
            final(self).moved_from(
                old(self),
                old(self).pos + if opens_triple(old(self).chars@, old(self).pos as int) {
                    3int
                } else {
                    1int
                },
            ),
    {
        if self.peek_at(1) == Some('"') && self.peek_at(2) == Some('"') {
            self.advance();
            self.advance();
            self.advance();
            stack.push(ScanFrame::Triple);
        } else {
            self.advance();
            stack.push(ScanFrame::Str);
        }
    }

    /// One step in code outside any literal.
    fn code_step(&mut self, stack: &mut Vec<ScanFrame>)
        requires
            old(self).wf(),
            old(self).limits(),
            old(self).pos < old(self).chars@.len(),
            old(stack)@.len() == 0,
        ensures
            final(self).wf(),
            final(self).limits(),
            final(self).source == old(self).source,
            final(self).chars == old(self).chars,
            final(self).pos > old(self).pos,
            depths_below(final(stack)@, final(self).pos as int),
            final(self).rest(final(stack)@) == old(self).rest(old(stack)@),
    {
        let ghost cs = self.chars@;
        let ghost p = self.pos as int;
        proof {
            lemma_literal_bounds(cs, p);
            assert(old(stack)@ =~= Seq::<ScanFrame>::empty());
            assert(frames_view(old(stack)@) =~= Seq::<Frame>::empty());
            lemma_scan_bounds(cs, p + 1);
        }
        let ch = self.current();
        if ch == '#' {
            self.handle_hash();
        } else if ch == '"' {
            self.skip_string(stack);
            proof { assert(frames_view(stack@) =~= frames_view(old(stack)@).push(frame_view(stack@.last()))); }
        } else if ch == '\'' {
            self.skip_char();
        } else if ch == 'r' && (self.peek_at(1) == Some('"') || self.peek_at(1) == Some('#')) {
            self.skip_raw_string();
        } else {
            self.advance();
        }
    }

    /// One step inside a string, triple-quoted string or interpolation.
    fn literal_step(&mut self, stack: &mut Vec<ScanFrame>)
        requires
            old(self).wf(),
            old(self).limits(),
            old(self).pos < old(self).chars@.len(),
            old(stack)@.len() > 0,
            depths_below(old(stack)@, old(self).pos as int),
        ensures
            final(self).wf(),
            final(self).limits(),
            final(self).source == old(self).source,
            final(self).chars == old(self).chars,
            final(self).pos > old(self).pos,
            depths_below(final(stack)@, final(self).pos as int),
            final(self).rest(final(stack)@) == old(self).rest(old(stack)@),
    {
        let ghost cs = self.chars@;
        let ghost p = self.pos as int;
        let ghost fv = frames_view(stack@);
        proof {
            lemma_literal_bounds(cs, p);
            assert(fv.last() == frame_view(stack@.last()));
        }
        let n = stack.len();
        let top = stack[n - 1];
        let ch = self.current();
        match top {
            ScanFrame::Str | ScanFrame::Triple => {
                let triple = match top { ScanFrame::Triple => true, _ => false };
                if ch == '\\' {
                    self.advance();
                    if !self.is_at_end() {
                        self.advance();
                    }
                } else if ch == '#' && self.peek_at(1) == Some('{') {
                    self.advance();
                    self.advance();
                    stack.push(ScanFrame::Braces(1));
                    proof { assert(frames_view(stack@) =~= fv.push(Frame::Braces(1))); }
                } else if ch == '"' && (!triple || (self.peek_at(1) == Some('"') && self.peek_at(2) == Some('"'))) {
                    self.advance();
                    if triple {
                        self.advance();
                        self.advance();
                    }
                    stack.pop();
                    proof { assert(frames_view(stack@) =~= fv.drop_last()); }
                } else {
                    self.advance();
                }
            },
            ScanFrame::Braces(d) => {
                if ch == '{' {
                    stack.set(n - 1, ScanFrame::Braces(d + 1));
                    self.advance();
                    proof { assert(frames_view(stack@) =~= fv.update(fv.len() - 1, Frame::Braces((d + 1) as nat))); }
                } else if ch == '}' {
                    if d <= 1 {
                        stack.pop();
                        proof { assert(frames_view(stack@) =~= fv.drop_last()); }
                    } else {
                        stack.set(n - 1, ScanFrame::Braces(d - 1));
                        proof { assert(frames_view(stack@) =~= fv.update(fv.len() - 1, Frame::Braces((d - 1) as nat))); }
                    }
                    self.advance();
                } else if ch == '"' {
                    self.skip_string(stack);
                    proof { assert(frames_view(stack@) =~= fv.push(frame_view(stack@.last()))); }
                } else if ch == '\'' {
                    self.skip_char();
                } else if ch == '#' && self.peek_at(1) == Some('{') {
                    self.advance();
                    self.advance();
                    stack.push(ScanFrame::Braces(1));
                    proof { assert(frames_view(stack@) =~= fv.push(Frame::Braces(1))); }
                } else {
                    self.advance();
                }
            },
        }
    }

    /// Scans the whole source; returns the comments in order and the `fmt: off` ranges.
    pub fn collect(self) -> (r: (Vec<Comment>, Vec<FmtOffRange>))
        requires
            self.fresh(),
            self.source_chars().len() < 0xFFFF_FFFD,
            vstd::utf8::encode_utf8(self.source_chars()).len() <= usize::MAX,
        ensures
            comments_view(r.0@) == collect_spec(self.source_chars(), vstd::utf8::encode_utf8(self.source_chars())).comments,
            r.1@ == collect_spec(self.source_chars(), vstd::utf8::encode_utf8(self.source_chars())).ranges,
    {
        let mut this = self;
        let mut stack: Vec<ScanFrame> = Vec::new();
        let ghost cs = this.chars@;
        let ghost src = this.src();
        proof {
            assert(frames_view(stack@) =~= Seq::<Frame>::empty());
            assert(comments_view(this.comments@) =~= Seq::<CommentView>::empty());
            assert(this.fmt_off_ranges@ =~= Seq::<FmtOffRange>::empty());
            assert(this.out() == ScanOut { comments: Seq::<CommentView>::empty(), ranges: Seq::<FmtOffRange>::empty() });
        }
        while !this.is_at_end()
            invariant
                this.wf(),
                this.limits(),
                cs == this.chars@,
                src == this.src(),
                depths_below(stack@, this.pos as int),
                collect_spec(cs, src) == this.rest(stack@),
            decreases cs.len() - this.pos,
        {
            if stack.len() == 0 {
                this.code_step(&mut stack);
            } else {
                this.literal_step(&mut stack);
            }
        }
        (this.comments, this.fmt_off_ranges)
    }
}

impl Comment {
    /// A copy with the same model.
    pub fn duplicate(&self) -> (r: Comment)
        ensures
            r@ == self@,
    {
        Comment { kind: self.kind, text: self.text.clone(), span: self.span, position: self.position }
    }
}

// ─── Comment Map ────────────────────────────────────────────────────

#[derive(Debug, Clone)]
pub struct CommentMap {
    /// Leading comments keyed by the byte offset of the node they precede.
    pub leading: HashMap<usize, Vec<Comment>>,
    /// Trailing comments keyed by the byte offset of the node they follow.
    pub trailing: HashMap<usize, Vec<Comment>>,
    /// Dangling comments keyed by the byte offset of the enclosing scope.
    pub dangling: HashMap<usize, Vec<Comment>>,
    /// Ranges where formatting is suppressed via `# fmt: off` / `# fmt: on`.
    pub fmt_off_ranges: Vec<FmtOffRange>,
}

/// Each list of comments replaced by its models.
pub open spec fn groups_view(m: Map<usize, Vec<Comment>>) -> Map<usize, Seq<CommentView>> {
    Map::new(|k: usize| m.contains_key(k), |k: usize| comments_view(m[k]@))
}

/// The comments of `m` at `k`; none if there is no entry.
pub open spec fn group_at(m: Map<usize, Seq<CommentView>>, k: usize) -> Seq<CommentView> {
    if m.contains_key(k) { m[k] } else { Seq::empty() }
}

/// `m` with `c` appended to the comments at `k`.
pub open spec fn push_at(m: Map<usize, Seq<CommentView>>, k: usize, c: CommentView) -> Map<usize, Seq<CommentView>> {
    m.insert(k, group_at(m, k).push(c))
}

/// Byte position `b` lies in the range `r`.
pub open spec fn in_range(r: FmtOffRange, b: usize) -> bool {
    b >= r.start_byte && match r.end_byte {
        Some(e) => b < e,
        None => true,
    }
}

impl CommentMap {
    pub fn new() -> (r: CommentMap)
        ensures
            groups_view(r.leading@) == Map::<usize, Seq<CommentView>>::empty(),
            groups_view(r.trailing@) == Map::<usize, Seq<CommentView>>::empty(),
            groups_view(r.dangling@) == Map::<usize, Seq<CommentView>>::empty(),
            r.fmt_off_ranges@ == Seq::<FmtOffRange>::empty(),
    {
        let r = CommentMap {
            leading: HashMap::new(),
            trailing: HashMap::new(),
            dangling: HashMap::new(),
            fmt_off_ranges: Vec::new(),
        };
        proof {
            assert(groups_view(r.leading@) =~= Map::<usize, Seq<CommentView>>::empty());
            assert(groups_view(r.trailing@) =~= Map::<usize, Seq<CommentView>>::empty());
            assert(groups_view(r.dangling@) =~= Map::<usize, Seq<CommentView>>::empty());
        }
        r
    }

    /// The leading comments of the node starting at `span_start`.
    pub fn leading_comments(&self, span_start: usize) -> (r: &[Comment])
        ensures
            comments_view(r@) == group_at(groups_view(self.leading@), span_start),
    {
        proof { broadcast use vstd::std_specs::hash::group_hash_axioms; }
        match self.leading.get(&span_start) {
            Some(v) => v.as_slice(),
            None => {
                proof { assert(comments_view(Seq::<Comment>::empty()) =~= Seq::<CommentView>::empty()); }
                &[]
            },
        }
    }

    /// The trailing comments of the node starting at `span_start`.
    pub fn trailing_comments(&self, span_start: usize) -> (r: &[Comment])
        ensures
            comments_view(r@) == group_at(groups_view(self.trailing@), span_start),
    {
        proof { broadcast use vstd::std_specs::hash::group_hash_axioms; }
        match self.trailing.get(&span_start) {
            Some(v) => v.as_slice(),
            None => {
                proof { assert(comments_view(Seq::<Comment>::empty()) =~= Seq::<CommentView>::empty()); }
                &[]
            },
        }
    }

    /// The dangling comments of the scope starting at `span_start`.
    pub fn dangling_comments(&self, span_start: usize) -> (r: &[Comment])
        ensures
            comments_view(r@) == group_at(groups_view(self.dangling@), span_start),
    {
        proof { broadcast use vstd::std_specs::hash::group_hash_axioms; }
        match self.dangling.get(&span_start) {
            Some(v) => v.as_slice(),
            None => {
                proof { assert(comments_view(Seq::<Comment>::empty()) =~= Seq::<CommentView>::empty()); }
                &[]
            },
        }
    }

    /// Whether `byte_pos` falls within a `# fmt: off` range.
    pub fn is_fmt_off(&self, byte_pos: usize) -> (r: bool)
        ensures
            r == exists|i: int| 0 <= i < self.fmt_off_ranges@.len() && in_range(#[trigger] self.fmt_off_ranges@[i], byte_pos),
    {
        let mut i: usize = 0;
        while i < self.fmt_off_ranges.len()
            invariant
                i <= self.fmt_off_ranges@.len(),
                forall|j: int| 0 <= j < i ==> !in_range(#[trigger] self.fmt_off_ranges@[j], byte_pos),
            decreases self.fmt_off_ranges@.len() - i,
        {
            let r = self.fmt_off_ranges[i];
            let inside = byte_pos >= r.start_byte && match r.end_byte {
                Some(end) => byte_pos < end,
                None => true,
            };
            if inside {
                return true;
            }
            i = i + 1;
        }
        false
    }
}

impl Default for CommentMap {
    fn default() -> (r: CommentMap)
        ensures
            groups_view(r.leading@) == Map::<usize, Seq<CommentView>>::empty(),
            groups_view(r.trailing@) == Map::<usize, Seq<CommentView>>::empty(),
            groups_view(r.dangling@) == Map::<usize, Seq<CommentView>>::empty(),
            r.fmt_off_ranges@ == Seq::<FmtOffRange>::empty(),
    {
        CommentMap::new()
    }
}

// ─── Comment Attacher ───────────────────────────────────────────────

/// The node ending last at or before `pos` (the first such on ties).
pub open spec fn preceding(spans: Seq<(usize, usize)>, pos: usize) -> Option<(usize, usize)>
    decreases spans.len(),
{
    if spans.len() == 0 {
        None
    } else {
        let prev = preceding(spans.drop_last(), pos);
        let s = spans.last();
        if s.1 <= pos {
            match prev {
                None => Some(s),
                Some(b) => if s.1 > b.1 { Some(s) } else { Some(b) },
            }
        } else {
            prev
        }
    }
}

/// The node starting first at or after `pos` (the first such on ties).
pub open spec fn following(spans: Seq<(usize, usize)>, pos: usize) -> Option<(usize, usize)>
    decreases spans.len(),
{
    if spans.len() == 0 {
        None
    } else {
        let prev = following(spans.drop_last(), pos);
        let s = spans.last();
        if s.0 >= pos {
            match prev {
                None => Some(s),
                Some(b) => if s.0 < b.0 { Some(s) } else { Some(b) },
            }
        } else {
            prev
        }
    }
}

/// The smallest node containing `pos` (the first such on ties).
pub open spec fn enclosing(spans: Seq<(usize, usize)>, pos: usize) -> Option<(usize, usize)>
    decreases spans.len(),
{
    if spans.len() == 0 {
        None
    } else {
        let prev = enclosing(spans.drop_last(), pos);
        let s = spans.last();
        if s.0 <= pos && pos < s.1 {
            match prev {
                None => Some(s),
                Some(b) => if s.1 - s.0 < b.1 - b.0 { Some(s) } else { Some(b) },
            }
        } else {
            prev
        }
    }
}

/// Leading, trailing and dangling comments by node start.
pub struct Attached {
    pub leading: Map<usize, Seq<CommentView>>,
    pub trailing: Map<usize, Seq<CommentView>>,
    pub dangling: Map<usize, Seq<CommentView>>,
}

/// `c` attached to the nodes `spans`: a trailing comment to the node before it
/// (else as leading to the node after it); a leading comment to the node after
/// it (else as dangling in the node around it); a dangling comment to the node
/// around it. A comment with no such node is dropped.
pub open spec fn attach_one(a: Attached, spans: Seq<(usize, usize)>, c: CommentView) -> Attached {
    let pos = c.span.start;
    match c.position {
        CommentPosition::Trailing => match preceding(spans, pos) {
            Some(n) => Attached { trailing: push_at(a.trailing, n.0, c), ..a },
            None => match following(spans, pos) {
                Some(n) => Attached {
                    leading: push_at(a.leading, n.0, CommentView { position: CommentPosition::Leading, ..c }),
                    ..a
                },
                None => a,
            },
        },
        CommentPosition::Leading => match following(spans, pos) {
            Some(n) => Attached { leading: push_at(a.leading, n.0, c), ..a },
            None => match enclosing(spans, pos) {
                Some(n) => Attached {
                    dangling: push_at(a.dangling, n.0, CommentView { position: CommentPosition::Dangling, ..c }),
                    ..a
                },
                None => a,
            },
        },
        CommentPosition::Dangling => match enclosing(spans, pos) {
            Some(n) => Attached { dangling: push_at(a.dangling, n.0, c), ..a },
            None => a,
        },
    }
}

/// All comments attached in order.
pub open spec fn attach_all(cs: Seq<CommentView>, spans: Seq<(usize, usize)>) -> Attached
    decreases cs.len(),
{
    if cs.len() == 0 {
        Attached { leading: Map::empty(), trailing: Map::empty(), dangling: Map::empty() }
    } else {
        attach_one(attach_all(cs.drop_last(), spans), spans, cs.last())
    }
}

/// Attaches comments to the syntax nodes they belong to.
pub struct CommentAttacher;

fn push_comment(m: &mut HashMap<usize, Vec<Comment>>, k: usize, c: Comment)
    ensures
        groups_view(final(m)@) == push_at(groups_view(old(m)@), k, c@),
{
    proof { broadcast use vstd::std_specs::hash::group_hash_axioms; }
    let ghost g = groups_view(m@);
    let ghost cv = c@;
    let mut v = match m.remove(&k) {
        Some(v) => v,
        None => Vec::new(),
    };
    let ghost before = v@;
    v.push(c);
    proof {
        assert(comments_view(v@) =~= group_at(g, k).push(cv)) by {
            assert(comments_view(v@) =~= comments_view(before).push(cv));
            if !g.contains_key(k) {
                assert(comments_view(before) =~= Seq::<CommentView>::empty());
            }
        }
    }
    m.insert(k, v);
    proof {
        assert(groups_view(m@) =~= push_at(g, k, cv));
    }
}

impl CommentAttacher {
    /// Attaches each comment to the nearest node. `node_spans` holds the
    /// `(start_byte, end_byte)` of every node.
    pub fn attach(comments: Vec<Comment>, node_spans: &[(usize, usize)], fmt_off_ranges: Vec<FmtOffRange>) -> (r: CommentMap)
        ensures
            groups_view(r.leading@) == attach_all(comments_view(comments@), node_spans@).leading,
            groups_view(r.trailing@) == attach_all(comments_view(comments@), node_spans@).trailing,
            groups_view(r.dangling@) == attach_all(comments_view(comments@), node_spans@).dangling,
            r.fmt_off_ranges@ == fmt_off_ranges@,
    {
        let mut map = CommentMap::new();
        map.fmt_off_ranges = fmt_off_ranges;
        let ghost cv = comments_view(comments@);
        let mut i: usize = 0;
        proof { assert(cv.take(0) =~= Seq::<CommentView>::empty()); }
        while i < comments.len()
            invariant
                i <= comments@.len(),
                cv == comments_view(comments@),
                map.fmt_off_ranges@ == fmt_off_ranges@,
                groups_view(map.leading@) == attach_all(cv.take(i as int), node_spans@).leading,
                groups_view(map.trailing@) == attach_all(cv.take(i as int), node_spans@).trailing,
                groups_view(map.dangling@) == attach_all(cv.take(i as int), node_spans@).dangling,
            decreases comments@.len() - i,
        {
            proof {
                assert(cv.take(i + 1).drop_last() =~= cv.take(i as int));
                assert(cv.take(i + 1).last() == comments@[i as int]@);
            }
            let comment = comments[i].duplicate();
            let comment_start = comment.span.start;
            match comment.position {
                CommentPosition::Trailing => {
                    match Self::find_preceding_node(node_spans, comment_start) {
                        Some(node) => {
                            push_comment(&mut map.trailing, node.0, comment);
                        },
                        None => {
                            match Self::find_following_node(node_spans, comment_start) {
                                Some(node) => {
                                    let mut c = comment;
                                    c.position = CommentPosition::Leading;
                                    push_comment(&mut map.leading, node.0, c);
                                },
                                None => {},
                            }
                        },
                    }
                },
                CommentPosition::Leading => {
                    match Self::find_following_node(node_spans, comment_start) {
                        Some(node) => {
                            push_comment(&mut map.leading, node.0, comment);
                        },
                        None => {
                            match Self::find_enclosing_node(node_spans, comment_start) {
                                Some(node) => {
                                    let mut c = comment;
                                    c.position = CommentPosition::Dangling;
                                    push_comment(&mut map.dangling, node.0, c);
                                },
                                None => {},
                            }
                        },
                    }
                },
                CommentPosition::Dangling => {
                    match Self::find_enclosing_node(node_spans, comment_start) {
                        Some(node) => {
                            push_comment(&mut map.dangling, node.0, comment);
                        },
                        None => {},
                    }
                },
            }
            i = i + 1;
        }
        proof { assert(cv.take(comments@.len() as int) =~= cv); }
        map
    }

    /// The node whose end is closest to and at or before `pos`.
    fn find_preceding_node(spans: &[(usize, usize)], pos: usize) -> (r: Option<(usize, usize)>)
        ensures
            r == preceding(spans@, pos),
    {
        let mut best: Option<(usize, usize)> = None;
        let mut i: usize = 0;
        while i < spans.len()
            invariant
                i <= spans@.len(),
                best == preceding(spans@.take(i as int), pos),
            decreases spans@.len() - i,
        {
            proof { assert(spans@.take(i + 1).drop_last() =~= spans@.take(i as int)); }
            let span = spans[i];
            if span.1 <= pos {
                match best {
                    None => best = Some(span),
                    Some(b) => {
                        if span.1 > b.1 {
                            best = Some(span);
                        }
                    },
                }
            }
            i = i + 1;
        }
        proof { assert(spans@.take(spans@.len() as int) =~= spans@); }
        best
    }

    /// The node whose start is closest to and at or after `pos`.
    fn find_following_node(spans: &[(usize, usize)], pos: usize) -> (r: Option<(usize, usize)>)
        ensures
            r == following(spans@, pos),
    {
        let mut best: Option<(usize, usize)> = None;
        let mut i: usize = 0;
        while i < spans.len()
            invariant
                i <= spans@.len(),
                best == following(spans@.take(i as int), pos),
            decreases spans@.len() - i,
        {
            proof { assert(spans@.take(i + 1).drop_last() =~= spans@.take(i as int)); }
            let span = spans[i];
            if span.0 >= pos {
                match best {
                    None => best = Some(span),
                    Some(b) => {
                        if span.0 < b.0 {
                            best = Some(span);
                        }
                    },
                }
            }
            i = i + 1;
        }
        proof { assert(spans@.take(spans@.len() as int) =~= spans@); }
        best
    }

    /// The smallest node that contains `pos`.
    fn find_enclosing_node(spans: &[(usize, usize)], pos: usize) -> (r: Option<(usize, usize)>)
        ensures
            r == enclosing(spans@, pos),
    {
        let mut best: Option<(usize, usize)> = None;
        let mut i: usize = 0;
        while i < spans.len()
            invariant
                i <= spans@.len(),
                best == enclosing(spans@.take(i as int), pos),
                best matches Some(b) ==> b.0 <= pos < b.1,
            decreases spans@.len() - i,
        {
            proof { assert(spans@.take(i + 1).drop_last() =~= spans@.take(i as int)); }
            let span = spans[i];
            if span.0 <= pos && pos < span.1 {
                match best {
                    None => best = Some(span),
                    Some(b) => {
                        let b_size = b.1 - b.0;
                        let s_size = span.1 - span.0;
                        if s_size < b_size {
                            best = Some(span);
                        }
                    },
                }
            }
            i = i + 1;
        }
        proof { assert(spans@.take(spans@.len() as int) =~= spans@); }
        best
    }
}


proof fn lemma_following_least(spans: Seq<(usize, usize)>, pos: usize)
    ensures
        match following(spans, pos) {
            Some(n) => {
                &&& spans.contains(n)
                &&& n.0 >= pos
                &&& forall|j: int| 0 <= j < spans.len() && spans[j].0 >= pos ==> n.0 <= #[trigger] spans[j].0
            },
            None => forall|j: int| 0 <= j < spans.len() ==> #[trigger] spans[j].0 < pos,
        },
    decreases spans.len(),
{
    if spans.len() > 0 {
        let init = spans.drop_last();
        lemma_following_least(init, pos);
        assert forall|j: int| 0 <= j < init.len() implies init[j] == #[trigger] spans[j] by {}
        assert(spans[spans.len() - 1] == spans.last());
        match following(init, pos) {
            Some(b) => {
                let k = choose|k: int| 0 <= k < init.len() && init[k] == b;
                assert(spans[k] == b);
            },
            None => {},
        }
    }
}

proof fn lemma_enclosing_smallest(spans: Seq<(usize, usize)>, pos: usize)
    ensures
        match enclosing(spans, pos) {
            Some(n) => {
                &&& spans.contains(n)
                &&& n.0 <= pos < n.1
                &&& forall|j: int| 0 <= j < spans.len() && spans[j].0 <= pos && pos < spans[j].1
                    ==> n.1 - n.0 <= #[trigger] spans[j].1 - spans[j].0
                &&& exists|k: int| 0 <= k < spans.len() && spans[k] == n && forall|j: int| 0 <= j < k
                    && spans[j].0 <= pos && pos < spans[j].1 ==> n.1 - n.0 < #[trigger] spans[j].1 - spans[j].0
            },
            None => forall|j: int| 0 <= j < spans.len() ==> !(spans[j].0 <= pos && pos < #[trigger] spans[j].1),
        },
    decreases spans.len(),
{
    if spans.len() > 0 {
        let init = spans.drop_last();
        lemma_enclosing_smallest(init, pos);
        assert forall|j: int| 0 <= j < init.len() implies init[j] == #[trigger] spans[j] by {}
        assert(spans[spans.len() - 1] == spans.last());
        match enclosing(init, pos) {
            Some(b) => {
                let k = choose|k: int| 0 <= k < init.len() && init[k] == b && forall|j: int| 0 <= j < k
                    && init[j].0 <= pos && pos < init[j].1 ==> b.1 - b.0 < #[trigger] init[j].1 - init[j].0;
                assert(spans[k] == b);
                assert forall|j: int| 0 <= j < k && spans[j].0 <= pos && pos < spans[j].1
                    implies b.1 - b.0 < #[trigger] spans[j].1 - spans[j].0 by {
                    assert(init[j] == spans[j]);
                }
                let s = spans.last();
                if s.0 <= pos && pos < s.1 && s.1 - s.0 < b.1 - b.0 {
                    let m = spans.len() - 1;
                    assert forall|j: int| 0 <= j < m && spans[j].0 <= pos && pos < spans[j].1
                        implies s.1 - s.0 < #[trigger] spans[j].1 - spans[j].0 by {
                        assert(init[j] == spans[j]);
                    }
                }
            },
            None => {
                let s = spans.last();
                if s.0 <= pos && pos < s.1 {
                    let m = spans.len() - 1;
                    assert forall|j: int| 0 <= j < m && spans[j].0 <= pos && pos < spans[j].1
                        implies s.1 - s.0 < #[trigger] spans[j].1 - spans[j].0 by {
                        assert(init[j] == spans[j]);
                    }
                }
            },
        }
    }
}

/// A dangling comment goes to the smallest node that contains it: the node it is filed
/// under contains the comment's start, no node containing that position is shorter, and
/// every containing node listed before it is longer (the first smallest wins); when no
/// node contains it, it is dropped.
pub proof fn law_dangling_comment_goes_to_smallest_enclosing(a: Attached, spans: Seq<(usize, usize)>, c: CommentView)
    requires
        c.position == CommentPosition::Dangling,
    ensures
        (exists|n: (usize, usize)| {
            &&& spans.contains(n)
            &&& n.0 <= c.span.start < n.1
            &&& (forall|j: int| 0 <= j < spans.len() && spans[j].0 <= c.span.start && c.span.start < spans[j].1
                ==> n.1 - n.0 <= #[trigger] spans[j].1 - spans[j].0)
            &&& (exists|k: int| 0 <= k < spans.len() && spans[k] == n && forall|j: int| 0 <= j < k
                && spans[j].0 <= c.span.start && c.span.start < spans[j].1 ==> n.1 - n.0 < #[trigger] spans[j].1 - spans[j].0)
            &&& attach_one(a, spans, c) == Attached { dangling: push_at(a.dangling, n.0, c), ..a }
        }) || ((forall|j: int| 0 <= j < spans.len() ==> !(spans[j].0 <= c.span.start && c.span.start < #[trigger] spans[j].1))
            && attach_one(a, spans, c) == a),
{
    lemma_enclosing_smallest(spans, c.span.start);
    match enclosing(spans, c.span.start) {
        Some(n) => {
            assert(attach_one(a, spans, c) == Attached { dangling: push_at(a.dangling, n.0, c), ..a });
        },
        None => {},
    }
}

proof fn lemma_attach_one_keeps_leading(a: Attached, spans: Seq<(usize, usize)>, c: CommentView, k: usize, x: CommentView)
    requires
        group_at(a.leading, k).contains(x),
    ensures
        group_at(attach_one(a, spans, c).leading, k).contains(x),
{
    let b = attach_one(a, spans, c);
    if b.leading != a.leading {
        let g = group_at(a.leading, k);
        let j = choose|j: int| 0 <= j < g.len() && g[j] == x;
        let pos = c.span.start;
        let n = following(spans, pos).unwrap();
        if n.0 == k {
            assert(group_at(b.leading, k)[j] == x);
        }
    }
}

proof fn lemma_attach_all_leading(cs: Seq<CommentView>, spans: Seq<(usize, usize)>, i: int, k: usize)
    requires
        0 <= i < cs.len(),
        cs[i].position == CommentPosition::Leading,
        following(spans, cs[i].span.start) == Some((k, following(spans, cs[i].span.start).unwrap().1)),
    ensures
        group_at(attach_all(cs, spans).leading, k).contains(cs[i]),
    decreases cs.len(),
{
    let prev = attach_all(cs.drop_last(), spans);
    if i == cs.len() - 1 {
        let g = group_at(prev.leading, k).push(cs[i]);
        assert(g[g.len() - 1] == cs[i]);
    } else {
        assert(cs.drop_last()[i] == cs[i]);
        lemma_attach_all_leading(cs.drop_last(), spans, i, k);
        lemma_attach_one_keeps_leading(prev, spans, cs.last(), k, cs[i]);
    }
}

/// A leading comment goes to the node that follows it: of the nodes starting at or after
/// the comment, the one that starts first receives it in its list of leading comments.
pub proof fn law_leading_comment_goes_to_next_node(cs: Seq<CommentView>, spans: Seq<(usize, usize)>, i: int)
    requires
        0 <= i < cs.len(),
        cs[i].position == CommentPosition::Leading,
        exists|j: int| 0 <= j < spans.len() && spans[j].0 >= cs[i].span.start,
    ensures
        following(spans, cs[i].span.start) matches Some(n) && {
            &&& spans.contains(n)
            &&& n.0 >= cs[i].span.start
            &&& forall|j: int| 0 <= j < spans.len() && spans[j].0 >= cs[i].span.start ==> n.0 <= #[trigger] spans[j].0
            &&& group_at(attach_all(cs, spans).leading, n.0).contains(cs[i])
        },
{
    let pos = cs[i].span.start;
    lemma_following_least(spans, pos);
    let j0 = choose|j: int| 0 <= j < spans.len() && spans[j].0 >= pos;
    assert(spans[j0].0 >= pos);
    let n = following(spans, pos).unwrap();
    lemma_attach_all_leading(cs, spans, i, n.0);
}


proof fn lemma_preceding_greatest(spans: Seq<(usize, usize)>, pos: usize)
    ensures
        match preceding(spans, pos) {
            Some(n) => {
                &&& spans.contains(n)
                &&& n.1 <= pos
                &&& forall|j: int| 0 <= j < spans.len() && spans[j].1 <= pos ==> #[trigger] spans[j].1 <= n.1
            },
            None => forall|j: int| 0 <= j < spans.len() ==> #[trigger] spans[j].1 > pos,
        },
    decreases spans.len(),
{
    if spans.len() > 0 {
        let init = spans.drop_last();
        lemma_preceding_greatest(init, pos);
        assert forall|j: int| 0 <= j < init.len() implies init[j] == #[trigger] spans[j] by {}
        assert(spans[spans.len() - 1] == spans.last());
        match preceding(init, pos) {
            Some(b) => {
                let k = choose|k: int| 0 <= k < init.len() && init[k] == b;
                assert(spans[k] == b);
            },
            None => {},
        }
    }
}

proof fn lemma_attach_one_keeps_trailing(a: Attached, spans: Seq<(usize, usize)>, c: CommentView, k: usize, x: CommentView)
    requires
        group_at(a.trailing, k).contains(x),
    ensures
        group_at(attach_one(a, spans, c).trailing, k).contains(x),
{
    let b = attach_one(a, spans, c);
    if b.trailing != a.trailing {
        let g = group_at(a.trailing, k);
        let j = choose|j: int| 0 <= j < g.len() && g[j] == x;
        let n = preceding(spans, c.span.start).unwrap();
        if n.0 == k {
            assert(group_at(b.trailing, k)[j] == x);
        }
    }
}

proof fn lemma_attach_all_trailing(cs: Seq<CommentView>, spans: Seq<(usize, usize)>, i: int, k: usize)
    requires
        0 <= i < cs.len(),
        cs[i].position == CommentPosition::Trailing,
        preceding(spans, cs[i].span.start) == Some((k, preceding(spans, cs[i].span.start).unwrap().1)),
    ensures
        group_at(attach_all(cs, spans).trailing, k).contains(cs[i]),
    decreases cs.len(),
{
    let prev = attach_all(cs.drop_last(), spans);
    if i == cs.len() - 1 {
        let g = group_at(prev.trailing, k).push(cs[i]);
        assert(g[g.len() - 1] == cs[i]);
    } else {
        assert(cs.drop_last()[i] == cs[i]);
        lemma_attach_all_trailing(cs.drop_last(), spans, i, k);
        lemma_attach_one_keeps_trailing(prev, spans, cs.last(), k, cs[i]);
    }
}

/// A trailing comment goes to the node before it: of the nodes ending at or before the
/// comment, the one that ends last receives it in its list of trailing comments (keyed
/// by that node's start).
pub proof fn law_trailing_comment_goes_to_previous_node(cs: Seq<CommentView>, spans: Seq<(usize, usize)>, i: int)
    requires
        0 <= i < cs.len(),
        cs[i].position == CommentPosition::Trailing,
        exists|j: int| 0 <= j < spans.len() && spans[j].1 <= cs[i].span.start,
    ensures
        preceding(spans, cs[i].span.start) matches Some(n) && {
            &&& spans.contains(n)
            &&& n.1 <= cs[i].span.start
            &&& forall|j: int| 0 <= j < spans.len() && spans[j].1 <= cs[i].span.start ==> #[trigger] spans[j].1 <= n.1
            &&& group_at(attach_all(cs, spans).trailing, n.0).contains(cs[i])
        },
{
    let pos = cs[i].span.start;
    lemma_preceding_greatest(spans, pos);
    let j0 = choose|j: int| 0 <= j < spans.len() && spans[j].1 <= pos;
    assert(spans[j0].1 <= pos);
    let n = preceding(spans, pos).unwrap();
    lemma_attach_all_trailing(cs, spans, i, n.0);
}


/// Comments whose starts never decrease.
pub open spec fn starts_sorted(cs: Seq<CommentView>) -> bool {
    forall|i: int, j: int| 0 <= i <= j < cs.len() ==> cs[i].span.start <= cs[j].span.start
}

proof fn lemma_bytes_after(cs: Seq<char>, p: int)
    requires
        0 <= p <= cs.len(),
    ensures
        forall|q: int| p <= q <= cs.len() ==> bytes_at(cs, p) <= #[trigger] bytes_at(cs, q),
        bytes_at(cs, cs.len() as int) == vstd::utf8::encode_utf8(cs).len(),
{
    assert forall|q: int| p <= q <= cs.len() implies bytes_at(cs, p) <= #[trigger] bytes_at(cs, q) by {
        lemma_bytes_mono(cs, p, q);
    }
    assert(cs.take(cs.len() as int) =~= cs);
}

proof fn lemma_scan_sorted(cs: Seq<char>, src: Seq<u8>, p: int, stack: Seq<Frame>, out: ScanOut)
    requires
        0 <= p,
        vstd::utf8::encode_utf8(cs).len() <= usize::MAX,
        starts_sorted(out.comments),
        forall|k: int| 0 <= k < out.comments.len() ==> #[trigger] out.comments[k].span.start <= bytes_at(cs, p),
    ensures
        starts_sorted(scan(cs, src, p, stack, out).comments),
    decreases cs.len() - p, stack.len(),
{
    if p < 0 || p >= cs.len() {
    } else {
        {
            lemma_scan_bounds(cs, p + 1);
            lemma_literal_bounds(cs, p);
            if p + 2 <= cs.len() {
                lemma_scan_bounds(cs, p + 2);
            }
            if p + 3 <= cs.len() {
                lemma_scan_bounds(cs, p + 3);
            }
        }
        let c = cs[p];
        lemma_bytes_after(cs, p);
        if stack.len() == 0 {
            if c == '#' {
                if char_at(cs, p + 1) == Some('=') {
                    let q = block_end(cs, p + 2, 1);
                    let f = after_close(cs, q);
                    let sp = span_of(cs, p, f);
                    let com = CommentView {
                        kind: CommentKind::Block,
                        text: cs.subrange(p + 2, q),
                        span: sp,
                        position: position_of(src, sp.start as int),
                    };
                    lemma_scan_sorted(cs, src, f, stack, ScanOut { comments: out.comments.push(com), ..out })
                } else if char_at(cs, p + 1) == Some('#') {
                    let s = doc_text_start(cs, p);
                    let e = next_newline(cs, s);
                    let com = CommentView {
                        kind: CommentKind::Doc,
                        text: cs.subrange(s, e),
                        span: span_of(cs, p, e),
                        position: CommentPosition::Leading,
                    };
                    lemma_scan_sorted(cs, src, e, stack, ScanOut { comments: out.comments.push(com), ..out })
                } else if char_at(cs, p + 1) == Some('{') {
                    lemma_scan_sorted(cs, src, p + 1, stack, out)
                } else {
                    let e = next_newline(cs, p + 1);
                    let sp = span_of(cs, p, e);
                    let content = cs.subrange(p + 1, e);
                    let com = CommentView {
                        kind: CommentKind::Line,
                        text: content,
                        span: sp,
                        position: position_of(src, sp.start as int),
                    };
                    lemma_scan_sorted(
                        cs,
                        src,
                        e,
                        stack,
                        ScanOut {
                            comments: out.comments.push(com),
                            ranges: apply_directive(out.ranges, content, sp.start, sp.end),
                        },
                    )
                }
            } else if c == '"' {
                if opens_triple(cs, p) {
                    lemma_scan_sorted(cs, src, p + 3, stack.push(Frame::Triple), out)
                } else {
                    lemma_scan_sorted(cs, src, p + 1, stack.push(Frame::Str), out)
                }
            } else if c == '\'' {
                lemma_scan_sorted(cs, src, char_literal_end(cs, p), stack, out)
            } else if c == 'r' && (char_at(cs, p + 1) == Some('"') || char_at(cs, p + 1) == Some('#')) {
                lemma_scan_sorted(cs, src, raw_string_end(cs, p), stack, out)
            } else {
                lemma_scan_sorted(cs, src, p + 1, stack, out)
            }
        } else {
            match stack.last() {
                Frame::Str => {
                    if c == '\\' {
                        lemma_scan_sorted(cs, src, after_escape(cs, p), stack, out)
                    } else if c == '#' && char_at(cs, p + 1) == Some('{') {
                        lemma_scan_sorted(cs, src, p + 2, stack.push(Frame::Braces(1)), out)
                    } else if c == '"' {
                        lemma_scan_sorted(cs, src, p + 1, stack.drop_last(), out)
                    } else {
                        lemma_scan_sorted(cs, src, p + 1, stack, out)
                    }
                },
                Frame::Triple => {
                    if c == '\\' {
                        lemma_scan_sorted(cs, src, after_escape(cs, p), stack, out)
                    } else if c == '#' && char_at(cs, p + 1) == Some('{') {
                        lemma_scan_sorted(cs, src, p + 2, stack.push(Frame::Braces(1)), out)
                    } else if c == '"' && opens_triple(cs, p) {
                        lemma_scan_sorted(cs, src, p + 3, stack.drop_last(), out)
                    } else {
                        lemma_scan_sorted(cs, src, p + 1, stack, out)
                    }
                },
                Frame::Braces(d) => {
                    if c == '{' {
                        lemma_scan_sorted(cs, src, p + 1, stack.update(stack.len() - 1, Frame::Braces(d + 1)), out)
                    } else if c == '}' {
                        if d <= 1 {
                            lemma_scan_sorted(cs, src, p + 1, stack.drop_last(), out)
                        } else {
                            lemma_scan_sorted(cs, src, p + 1, stack.update(stack.len() - 1, Frame::Braces((d - 1) as nat)), out)
                        }
                    } else if c == '"' {
                        if opens_triple(cs, p) {
                            lemma_scan_sorted(cs, src, p + 3, stack.push(Frame::Triple), out)
                        } else {
                            lemma_scan_sorted(cs, src, p + 1, stack.push(Frame::Str), out)
                        }
                    } else if c == '\'' {
                        lemma_scan_sorted(cs, src, char_literal_end(cs, p), stack, out)
                    } else if c == '#' && char_at(cs, p + 1) == Some('{') {
                        lemma_scan_sorted(cs, src, p + 2, stack.push(Frame::Braces(1)), out)
                    } else {
                        lemma_scan_sorted(cs, src, p + 1, stack, out)
                    }
                },
            }
        }
    }
}

/// Comments come out in source order: their start offsets never decrease.
pub proof fn law_comments_in_source_order(cs: Seq<char>)
    requires
        vstd::utf8::encode_utf8(cs).len() <= usize::MAX,
    ensures
        starts_sorted(collect_spec(cs, vstd::utf8::encode_utf8(cs)).comments),
{
    lemma_scan_sorted(cs, vstd::utf8::encode_utf8(cs), 0, Seq::empty(), ScanOut { comments: Seq::empty(), ranges: Seq::empty() });
}

} // verus!
