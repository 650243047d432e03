//! Compiler diagnostics and their one-line rendering.
use vstd::prelude::*;
use crate::lexer::token::Span;
use crate::text::{decimal, push_decimal, push_str};

verus! {

#[derive(Debug, Clone, Copy, PartialEq, Eq, Structural)]
pub enum DiagnosticLevel {
    Error,
    Warning,
    Help,
}

/// The name of a level as printed.
pub open spec fn level_str(l: DiagnosticLevel) -> Seq<char> {
    match l {
        DiagnosticLevel::Error => "error"@,
        DiagnosticLevel::Warning => "warning"@,
        DiagnosticLevel::Help => "help"@,
    }
}

impl DiagnosticLevel {
    /// The name of the level as printed: `error`, `warning` or `help`.
    pub fn to_string(&self) -> (r: String)
        ensures
            r@ == level_str(*self),
    {
        let mut out = String::new();
        match self {
            DiagnosticLevel::Error => push_str(&mut out, "error"),
            DiagnosticLevel::Warning => push_str(&mut out, "warning"),
            DiagnosticLevel::Help => push_str(&mut out, "help"),
        }
        proof { assert(out@ =~= level_str(*self)); }
        out
    }
}

#[derive(Debug, Clone)]
pub struct Diagnostic {
    pub level: DiagnosticLevel,
    pub message: String,
    pub span: Span,
    pub code: Option<String>,
}

/// The rendered diagnostic: `[code] level: message (at line:column)`, the code part
/// only when there is a code.
pub open spec fn diagnostic_str(d: Diagnostic) -> Seq<char> {
    let code_part = match d.code {
        Some(c) => "["@ + c@ + "] "@,
        None => Seq::empty(),
    };
    code_part + level_str(d.level) + ": "@ + d.message@ + " (at "@ + decimal(d.span.line as nat) + ":"@
        + decimal(d.span.column as nat) + ")"@
}

impl Diagnostic {
    pub fn error(message: String, span: Span) -> (r: Diagnostic)
        ensures
            r.level == DiagnosticLevel::Error,
            r.message@ == message@,
            r.span == span,
            r.code is None,
    {
        Diagnostic { level: DiagnosticLevel::Error, message, span, code: None }
    }

    pub fn error_with_code(message: String, span: Span, code: String) -> (r: Diagnostic)
        ensures
            r.level == DiagnosticLevel::Error,
            r.message@ == message@,
            r.span == span,
            r.code matches Some(c) && c@ == code@,
    {
        Diagnostic { level: DiagnosticLevel::Error, message, span, code: Some(code) }
    }

    pub fn warning(message: String, span: Span) -> (r: Diagnostic)
        ensures
            r.level == DiagnosticLevel::Warning,
            r.message@ == message@,
            r.span == span,
            r.code is None,
    {
        Diagnostic { level: DiagnosticLevel::Warning, message, span, code: None }
    }

    /// The one-line rendering.
    pub fn to_string(&self) -> (r: String)
        ensures
            r@ == diagnostic_str(*self),
    {
        let mut out = String::new();
        match &self.code {
            Some(c) => {
                push_str(&mut out, "[");
                push_str(&mut out, c.as_str());
                push_str(&mut out, "] ");
            },
            None => {},
        }
        let level = self.level.to_string();
        push_str(&mut out, level.as_str());
        push_str(&mut out, ": ");
        push_str(&mut out, self.message.as_str());
        push_str(&mut out, " (at ");
        push_decimal(&mut out, self.span.line as u64);
        push_str(&mut out, ":");
        push_decimal(&mut out, self.span.column as u64);
        push_str(&mut out, ")");
        proof { assert(out@ =~= diagnostic_str(*self)); }
        out
    }
}

} // verus!
