//! The values that go to and come from an editor: positions, ranges,
//! locations and diagnostics, with zero-based lines and columns.
use vstd::prelude::*;
use vstd::string::StringExecFns;

use crate::error::LineCol;

verus! {

/// A position in a document: a zero-based line and a zero-based character
/// in it.
#[derive(Debug, Clone, Copy, PartialEq, Eq)]
pub struct Position {
    pub line: u64,
    pub character: u64,
}

impl Position {
    pub fn new(line: u64, character: u64) -> (r: Position)
        ensures
            r == (Position { line, character }),
    {
        Position { line, character }
    }
}

/// A range in a document, from `start` up to `end`.
#[derive(Debug, Clone, Copy, PartialEq, Eq)]
pub struct Range {
    pub start: Position,
    pub end: Position,
}

/// A range in the document named by `uri`.
#[derive(Debug, Clone, PartialEq, Eq)]
pub struct Location {
    pub uri: String,
    pub range: Range,
}

/// How severe a diagnostic is.
#[derive(Debug, Clone, Copy, PartialEq, Eq)]
pub enum DiagnosticSeverity {
    Error,
    Warning,
    Information,
    Hint,
}

/// A finding about a document, as it is published to the editor.
#[derive(Debug, Clone, PartialEq, Eq)]
pub struct Diagnostic {
    pub range: Range,
    pub severity: DiagnosticSeverity,
    pub code: String,
    pub source: String,
    pub message: String,
}

/// The position that a line and a column stand for.
pub open spec fn position_at(lc: LineCol) -> Position {
    Position { line: lc.line as u64, character: lc.col as u64 }
}

/// Makes the range from `start` up to `end`.
pub fn into_lsp_range(start: &LineCol, end: &LineCol) -> (r: Range)
    ensures
        r == (Range { start: position_at(*start), end: position_at(*end) }),
{
    Range {
        start: Position::new(start.line as u64, start.col as u64),
        end: Position::new(end.line as u64, end.col as u64),
    }
}

/// Makes the diagnostic of this server for `range`: an error, with the code
/// `mojom` and the source `mojom-lsp`.
pub fn create_diagnostic(range: Range, message: String) -> (d: Diagnostic)
    ensures
        d.range == range,
        d.severity == DiagnosticSeverity::Error,
        d.code@ == "mojom"@,
        d.source@ == "mojom-lsp"@,
        d.message == message,
{
    Diagnostic {
        range,
        severity: DiagnosticSeverity::Error,
        code: String::from_str("mojom"),
        source: String::from_str("mojom-lsp"),
        message,
    }
}

} // verus!
