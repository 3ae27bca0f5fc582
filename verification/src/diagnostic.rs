//! Diagnostics: what the analysis reports, and where.

use vstd::prelude::*;
use vstd::string::StringExecFns;
use crate::types::VarType;

verus! {

/// A place in a document. Lines and columns count from 0; a column is a
/// number of bytes from the start of the line.
#[derive(Clone, Copy, Debug, PartialEq, Eq, Structural)]
pub struct Position {
    pub line: usize,
    pub column: usize,
}

/// A stretch of text, from its first position up to the one after its last.
#[derive(Clone, Copy, Debug, PartialEq, Eq, Structural)]
pub struct Range {
    pub start: Position,
    pub end: Position,
}

/// How grave a diagnostic is.
#[derive(Clone, Copy, Debug, PartialEq, Eq, Structural)]
pub enum Severity {
    /// The document is wrong: parentheses, blocks or types do not match.
    Error,
    /// The document can be written better: a semicolon is not needed.
    Warning,
}

/// One problem found in a document.
#[derive(Clone, Debug, PartialEq, Eq)]
pub struct Diagnostic {
    pub range: Range,
    pub severity: Severity,
    pub message: String,
}

/// The mathematical value of a [`Position`].
pub struct Place {
    pub line: int,
    pub column: int,
}

/// The mathematical value of a [`Range`].
pub struct Span {
    pub start: Place,
    pub end: Place,
}

/// The mathematical value of a [`Diagnostic`].
pub struct Finding {
    pub span: Span,
    pub severity: Severity,
    pub message: Seq<char>,
}

impl View for Position {
    type V = Place;

    open spec fn view(&self) -> Place {
        Place { line: self.line as int, column: self.column as int }
    }
}

impl View for Range {
    type V = Span;

    open spec fn view(&self) -> Span {
        Span { start: self.start@, end: self.end@ }
    }
}

impl View for Diagnostic {
    type V = Finding;

    open spec fn view(&self) -> Finding {
        Finding { span: self.range@, severity: self.severity, message: self.message@ }
    }
}

/// The values of a sequence of diagnostics, in the same order.
pub open spec fn findings(diagnostics: Seq<Diagnostic>) -> Seq<Finding> {
    diagnostics.map_values(|d: Diagnostic| d@)
}

impl Span {
    /// The columns `from` up to `to` of one line.
    pub open spec fn on_line(line: int, from: int, to: int) -> Span {
        Span { start: Place { line, column: from }, end: Place { line, column: to } }
    }
}

impl Finding {
    /// An error over `span` that says `message`.
    pub open spec fn error(span: Span, message: Seq<char>) -> Finding {
        Finding { span, severity: Severity::Error, message }
    }

    /// A `)` at this place closes nothing.
    pub open spec fn unmatched_close(line: int, column: int) -> Finding {
        Finding::error(Span::on_line(line, column, column + 1), "Unmatched ')'"@)
    }

    /// The `(` at this place is never closed.
    pub open spec fn unmatched_open(line: int, column: int) -> Finding {
        Finding::error(Span::on_line(line, column, column + 1), "Unmatched '('"@)
    }

    /// The line holds a semicolon; `length` is that of its trimmed content.
    pub open spec fn semicolon(line: int, length: int) -> Finding {
        Finding {
            span: Span::on_line(line, 0, length),
            severity: Severity::Warning,
            message: "Semicolons are unnecessary in Dice"@,
        }
    }

    /// The condition on this line compares a `left` with a `right`; `length`
    /// is that of the whole line.
    pub open spec fn type_mismatch(line: int, length: int, left: VarType, right: VarType)
        -> Finding {
        Finding::error(
            Span::on_line(line, 0, length),
            "Type mismatch in condition: cannot compare "@ + left.name() + " and "@ + right.name(),
        )
    }

    /// An `else` for an `if` that has one already.
    pub open spec fn duplicate_else(line: int) -> Finding {
        Finding::error(Span::on_line(line, 0, 4), "Multiple 'else' blocks for one 'if'"@)
    }

    /// An `else` where no `if` is open.
    pub open spec fn orphan_else(line: int) -> Finding {
        Finding::error(Span::on_line(line, 0, 4), "Unmatched 'else' with no open 'if'"@)
    }

    /// An `end` where no `if` is open.
    pub open spec fn orphan_end(line: int) -> Finding {
        Finding::error(Span::on_line(line, 0, 3), "Unmatched 'end' with no corresponding 'if'"@)
    }

    /// The `if` at this place is never closed.
    pub open spec fn unclosed_if(line: int, column: int) -> Finding {
        Finding::error(Span::on_line(line, column, column + 2), "Unclosed 'if' block, missing 'end'"@)
    }
}

impl Range {
    /// The columns `from` up to `to` of one line.
    pub fn on_line(line: usize, from: usize, to: usize) -> (r: Range)
        ensures
            r@ == Span::on_line(line as int, from as int, to as int),
    {
        Range { start: Position { line, column: from }, end: Position { line, column: to } }
    }
}

impl Diagnostic {
    /// An error over `range` that says `message`.
    pub fn error(range: Range, message: &str) -> (d: Diagnostic)
        ensures
            d@ == Finding::error(range@, message@),
    {
        Diagnostic { range, severity: Severity::Error, message: String::from_str(message) }
    }

    /// A `)` at this place closes nothing.
    pub fn unmatched_close(line: usize, column: usize) -> (d: Diagnostic)
        requires
            column < usize::MAX,
        ensures
            d@ == Finding::unmatched_close(line as int, column as int),
    {
        Diagnostic::error(Range::on_line(line, column, column + 1), "Unmatched ')'")
    }

    /// The `(` at this place is never closed.
    pub fn unmatched_open(line: usize, column: usize) -> (d: Diagnostic)
        requires
            column < usize::MAX,
        ensures
            d@ == Finding::unmatched_open(line as int, column as int),
    {
        Diagnostic::error(Range::on_line(line, column, column + 1), "Unmatched '('")
    }

    /// The line holds a semicolon; `length` is that of its trimmed content.
    pub fn semicolon(line: usize, length: usize) -> (d: Diagnostic)
        ensures
            d@ == Finding::semicolon(line as int, length as int),
    {
        Diagnostic {
            range: Range::on_line(line, 0, length),
            severity: Severity::Warning,
            message: String::from_str("Semicolons are unnecessary in Dice"),
        }
    }

    /// The condition on this line compares a `left` with a `right`; `length`
    /// is that of the whole line.
    pub fn type_mismatch(line: usize, length: usize, left: VarType, right: VarType) -> (d:
        Diagnostic)
        ensures
            d@ == Finding::type_mismatch(line as int, length as int, left, right),
    {
        let mut message = String::from_str("Type mismatch in condition: cannot compare ");
        message.append(left.as_str());
        message.append(" and ");
        message.append(right.as_str());
        Diagnostic { range: Range::on_line(line, 0, length), severity: Severity::Error, message }
    }

    /// An `else` for an `if` that has one already.
    pub fn duplicate_else(line: usize) -> (d: Diagnostic)
        ensures
            d@ == Finding::duplicate_else(line as int),
    {
        Diagnostic::error(Range::on_line(line, 0, 4), "Multiple 'else' blocks for one 'if'")
    }

    /// An `else` where no `if` is open.
    pub fn orphan_else(line: usize) -> (d: Diagnostic)
        ensures
            d@ == Finding::orphan_else(line as int),
    {
        Diagnostic::error(Range::on_line(line, 0, 4), "Unmatched 'else' with no open 'if'")
    }

    /// An `end` where no `if` is open.
    pub fn orphan_end(line: usize) -> (d: Diagnostic)
        ensures
            d@ == Finding::orphan_end(line as int),
    {
        Diagnostic::error(Range::on_line(line, 0, 3), "Unmatched 'end' with no corresponding 'if'")
    }

    /// The `if` at this place is never closed.
    pub fn unclosed_if(line: usize, column: usize) -> (d: Diagnostic)
        requires
            column + 2 <= usize::MAX,
        ensures
            d@ == Finding::unclosed_if(line as int, column as int),
    {
        Diagnostic::error(Range::on_line(line, column, column + 2), "Unclosed 'if' block, missing 'end'")
    }
}

} // verus!
