//! Borrow-check error codes and their rendering.
use vstd::prelude::*;
use crate::lexer::token::Span;
use crate::text::{decimal, push_decimal, push_str};

verus! {

#[derive(Debug, Clone, Copy, PartialEq, Eq, Structural)]
pub enum ErrorCode {
    /// use after move
    E1001,
    /// can't mut-borrow while immutably borrowed
    E1002,
    /// can't immut-borrow while mutably borrowed
    E1003,
    /// can't move out of borrowed reference
    E1004,
    /// borrow outlives owner
    E1005,
    /// assign to immutable variable
    E1006,
    /// can't mut-borrow immutable variable
    E1007,
    /// value moved into closure
    E1008,
    /// can't move while borrowed
    E1009,
    /// returned reference outlives local
    E1010,
}

/// The one-line description of an error code.
pub open spec fn title_spec(c: ErrorCode) -> Seq<char> {
    match c {
        ErrorCode::E1001 => "value used after move"@,
        ErrorCode::E1002 => "cannot borrow as mutable — already borrowed as immutable"@,
        ErrorCode::E1003 => "cannot borrow as immutable — already borrowed as mutable"@,
        ErrorCode::E1004 => "cannot move out of borrowed reference"@,
        ErrorCode::E1005 => "borrow outlives owner"@,
        ErrorCode::E1006 => "cannot assign to immutable variable"@,
        ErrorCode::E1007 => "cannot borrow immutable variable as mutable"@,
        ErrorCode::E1008 => "value moved into closure, cannot be used outside"@,
        ErrorCode::E1009 => "cannot move value — currently borrowed"@,
        ErrorCode::E1010 => "returned reference outlives local value"@,
    }
}

/// The code as written in messages, e.g. `E1001`.
pub open spec fn code_spec(c: ErrorCode) -> Seq<char> {
    match c {
        ErrorCode::E1001 => "E1001"@,
        ErrorCode::E1002 => "E1002"@,
        ErrorCode::E1003 => "E1003"@,
        ErrorCode::E1004 => "E1004"@,
        ErrorCode::E1005 => "E1005"@,
        ErrorCode::E1006 => "E1006"@,
        ErrorCode::E1007 => "E1007"@,
        ErrorCode::E1008 => "E1008"@,
        ErrorCode::E1009 => "E1009"@,
        ErrorCode::E1010 => "E1010"@,
    }
}

impl ErrorCode {
    pub fn title(&self) -> (r: &'static str)
        ensures
            r@ == title_spec(*self),
    {
        match self {
            ErrorCode::E1001 => "value used after move",
            ErrorCode::E1002 => "cannot borrow as mutable — already borrowed as immutable",
            ErrorCode::E1003 => "cannot borrow as immutable — already borrowed as mutable",
            ErrorCode::E1004 => "cannot move out of borrowed reference",
            ErrorCode::E1005 => "borrow outlives owner",
            ErrorCode::E1006 => "cannot assign to immutable variable",
            ErrorCode::E1007 => "cannot borrow immutable variable as mutable",
            ErrorCode::E1008 => "value moved into closure, cannot be used outside",
            ErrorCode::E1009 => "cannot move value — currently borrowed",
            ErrorCode::E1010 => "returned reference outlives local value",
        }
    }

    pub fn code_str(&self) -> (r: &'static str)
        ensures
            r@ == code_spec(*self),
    {
        match self {
            ErrorCode::E1001 => "E1001",
            ErrorCode::E1002 => "E1002",
            ErrorCode::E1003 => "E1003",
            ErrorCode::E1004 => "E1004",
            ErrorCode::E1005 => "E1005",
            ErrorCode::E1006 => "E1006",
            ErrorCode::E1007 => "E1007",
            ErrorCode::E1008 => "E1008",
            ErrorCode::E1009 => "E1009",
            ErrorCode::E1010 => "E1010",
        }
    }
}

/// A source position with a message attached.
#[derive(Debug, Clone)]
pub struct SpanLabel {
    pub span: Span,
    pub label: String,
}

/// A borrow-check error: its code, the main position and any related ones, and hints.
#[derive(Debug, Clone)]
pub struct BorrowError {
    pub code: ErrorCode,
    pub primary: SpanLabel,
    pub secondary: Vec<SpanLabel>,
    pub help: Vec<String>,
}

/// `line:column` of a span.
pub open spec fn position_str(s: Span) -> Seq<char> {
    decimal(s.line as nat) + ":"@ + decimal(s.column as nat)
}

/// One labelled line: `   | line:column — label`.
pub open spec fn label_line(l: SpanLabel) -> Seq<char> {
    "   | "@ + position_str(l.span) + " — "@ + l.label@ + "\n"@
}

pub open spec fn label_lines(ls: Seq<SpanLabel>) -> Seq<char>
    decreases ls.len(),
{
    if ls.len() == 0 {
        Seq::empty()
    } else {
        label_lines(ls.drop_last()) + label_line(ls.last())
    }
}

pub open spec fn help_lines(hs: Seq<String>) -> Seq<char>
    decreases hs.len(),
{
    if hs.len() == 0 {
        Seq::empty()
    } else {
        help_lines(hs.drop_last()) + "   = help: "@ + hs.last()@ + "\n"@
    }
}

/// The rendered error: a header with code and title, the primary position,
/// the related labelled positions, the primary label, then the hints.
pub open spec fn borrow_error_str(e: BorrowError) -> Seq<char> {
    "error["@ + code_spec(e.code) + "]: "@ + title_spec(e.code) + "\n"@
        + "  --> "@ + position_str(e.primary.span) + "\n"@
        + label_lines(e.secondary@)
        + label_line(e.primary)
        + help_lines(e.help@)
}

fn write_position(out: &mut String, s: &Span)
    ensures
        final(out)@ == old(out)@ + position_str(*s),
{
    push_decimal(out, s.line as u64);
    push_str(out, ":");
    push_decimal(out, s.column as u64);
    proof { assert(out@ =~= old(out)@ + position_str(*s)); }
}

fn write_label(out: &mut String, l: &SpanLabel)
    ensures
        final(out)@ == old(out)@ + label_line(*l),
{
    push_str(out, "   | ");
    write_position(out, &l.span);
    push_str(out, " — ");
    push_str(out, l.label.as_str());
    push_str(out, "\n");
    proof { assert(out@ =~= old(out)@ + label_line(*l)); }
}

impl BorrowError {
    /// The rendered message, one line per position and hint.
    pub fn to_string(&self) -> (r: String)
        ensures
            r@ == borrow_error_str(*self),
    {
        let mut out = String::new();
        push_str(&mut out, "error[");
        push_str(&mut out, self.code.code_str());
        push_str(&mut out, "]: ");
        push_str(&mut out, self.code.title());
        push_str(&mut out, "\n");
        push_str(&mut out, "  --> ");
        write_position(&mut out, &self.primary.span);
        push_str(&mut out, "\n");
        let ghost head = out@;
        let mut i: usize = 0;
        while i < self.secondary.len()
            invariant
                i <= self.secondary@.len(),
                out@ == head + label_lines(self.secondary@.take(i as int)),
            decreases self.secondary@.len() - i,
        {
            write_label(&mut out, &self.secondary[i]);
            proof {
                assert(self.secondary@.take(i + 1).drop_last() =~= self.secondary@.take(i as int));
                assert(out@ =~= head + label_lines(self.secondary@.take(i + 1)));
            }
            i = i + 1;
        }
        proof { assert(self.secondary@.take(self.secondary@.len() as int) =~= self.secondary@); }
        write_label(&mut out, &self.primary);
        let ghost mid = out@;
        let mut j: usize = 0;
        while j < self.help.len()
            invariant
                j <= self.help@.len(),
                out@ == mid + help_lines(self.help@.take(j as int)),
            decreases self.help@.len() - j,
        {
            push_str(&mut out, "   = help: ");
            push_str(&mut out, self.help[j].as_str());
            push_str(&mut out, "\n");
            proof {
                assert(self.help@.take(j + 1).drop_last() =~= self.help@.take(j as int));
                assert(out@ =~= mid + help_lines(self.help@.take(j + 1)));
            }
            j = j + 1;
        }
        proof {
            assert(self.help@.take(self.help@.len() as int) =~= self.help@);
            assert(out@ =~= borrow_error_str(*self));
        }
        out
    }
}

} // verus!
