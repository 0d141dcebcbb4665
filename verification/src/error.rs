//! Positions in a text as a line and a column, and the error of a parse.
use vstd::prelude::*;
use vstd::string::StringExecFns;
use vstd::string::StringSliceAdditionalSpecFns;
use vstd::utf8::{is_char_boundary, is_continuation_byte};

use crate::grammar::Rule;
use crate::lexer::LF;

verus! {

/// A zero-based line and column in a text. The column counts characters,
/// not bytes.
#[derive(Debug, Clone, Copy, PartialEq, Eq)]
pub struct LineCol {
    pub line: usize,
    pub col: usize,
}

/// The number of line feeds among the first `p` bytes of `s`.
pub open spec fn line_of(s: Seq<u8>, p: int) -> nat
    decreases p,
{
    if p <= 0 {
        0
    } else if s[p - 1] == LF {
        line_of(s, p - 1) + 1
    } else {
        line_of(s, p - 1)
    }
}

/// The number of characters between the start of the line that holds
/// offset `p` and `p`: the bytes there that start a character.
pub open spec fn column_of(s: Seq<u8>, p: int) -> nat
    decreases p,
{
    if p <= 0 {
        0
    } else if s[p - 1] == LF {
        0
    } else if is_continuation_byte(s[p - 1]) {
        column_of(s, p - 1)
    } else {
        column_of(s, p - 1) + 1
    }
}

/// The line and column of offset `p` of `s`.
pub open spec fn position_of(s: Seq<u8>, p: int) -> LineCol {
    LineCol { line: line_of(s, p) as usize, col: column_of(s, p) as usize }
}

/// Finds the line and column of `offset` in the bytes of a text.
pub fn line_col_at(s: &[u8], offset: usize) -> (r: LineCol)
    requires
        offset <= s@.len(),
    ensures
        r == position_of(s@, offset as int),
        r.line == line_of(s@, offset as int),
        r.col == column_of(s@, offset as int),
{
    let mut line: usize = 0;
    let mut col: usize = 0;
    let mut i: usize = 0;
    while i < offset
        invariant
            i <= offset <= s@.len(),
            line == line_of(s@, i as int),
            col == column_of(s@, i as int),
            line <= i,
            col <= i,
        decreases offset - i,
    {
        let b = s[i];
        if b == LF {
            line += 1;
            col = 0;
        } else if !(128 <= b && b <= 191) {
            col += 1;
        }
        i += 1;
    }
    LineCol { line, col }
}

/// Converts `offset` to a line and column of `text`. `None` when the offset
/// is past the end of the text or inside a character.
pub fn line_col(text: &str, offset: usize) -> (r: Option<LineCol>)
    ensures
        r == if offset <= text.spec_bytes().len() && is_char_boundary(
            text.spec_bytes(),
            offset as int,
        ) {
            Some(position_of(text.spec_bytes(), offset as int))
        } else {
            None
        },
{
    let bytes = text.as_bytes();
    if offset <= bytes.len() && text.is_char_boundary(offset) {
        Some(line_col_at(bytes, offset))
    } else {
        None
    }
}

/// Where in the text an error is: at a point, or over a span from a first
/// position to a second.
#[derive(Debug, Clone, Copy, PartialEq, Eq)]
pub enum ErrorLocation {
    Pos(LineCol),
    Span(LineCol, LineCol),
}

/// A syntax error: where the text stops being Mojom, and what was expected
/// there.
#[derive(Debug, Clone, Copy, PartialEq, Eq)]
pub struct Error {
    pub location: ErrorLocation,
    /// The byte offset of the token that does not fit.
    pub offset: usize,
    pub expected: Rule,
}

/// How a rule is written in a message.
pub open spec fn rule_text(rule: Rule) -> Seq<char> {
    match rule {
        Rule::EndOfInput => "'End of File'"@,
        Rule::Statement => "statement"@,
        Rule::Module => "module"@,
        Rule::Import => "import"@,
        Rule::Struct => "struct"@,
        Rule::Interface => "interface"@,
        Rule::Union => "union"@,
        Rule::Const => "const"@,
        Rule::Enum => "enum"@,
        Rule::Array => "array"@,
        Rule::MapOf => "map"@,
        Rule::Comma => "','"@,
        Rule::Semicolon => "';'"@,
        Rule::Equal => "'='"@,
        Rule::Arrow => "'=>'"@,
        Rule::LParen => "'('"@,
        Rule::RParen => "')'"@,
        Rule::LBrace => "'{'"@,
        Rule::RBrace => "'}'"@,
        Rule::LBracket => "'['"@,
        Rule::RBracket => "']'"@,
        Rule::LAngleBracket => "'<'"@,
        Rule::RAngleBracket => "'>'"@,
        Rule::Name => "name"@,
        Rule::Identifier => "identifier"@,
        Rule::StringLiteral => "string_literal"@,
        Rule::Integer => "integer"@,
        Rule::Literal => "literal"@,
        Rule::TypeSpec => "type_spec"@,
        Rule::Attribute => "attribute"@,
        Rule::InterfaceBody => "interface_body"@,
        Rule::StructItem => "struct_item"@,
        Rule::UnionField => "union_field"@,
        Rule::EnumValue => "enum_value"@,
        Rule::Parameter => "parameter"@,
    }
}

/// The name of a rule as messages show it: tokens in quotes, keywords as
/// they are written.
pub fn rule_name(rule: Rule) -> (r: &'static str)
    ensures
        r@ == rule_text(rule),
{
    match rule {
        Rule::EndOfInput => "'End of File'",
        Rule::Statement => "statement",
        Rule::Module => "module",
        Rule::Import => "import",
        Rule::Struct => "struct",
        Rule::Interface => "interface",
        Rule::Union => "union",
        Rule::Const => "const",
        Rule::Enum => "enum",
        Rule::Array => "array",
        Rule::MapOf => "map",
        Rule::Comma => "','",
        Rule::Semicolon => "';'",
        Rule::Equal => "'='",
        Rule::Arrow => "'=>'",
        Rule::LParen => "'('",
        Rule::RParen => "')'",
        Rule::LBrace => "'{'",
        Rule::RBrace => "'}'",
        Rule::LBracket => "'['",
        Rule::RBracket => "']'",
        Rule::LAngleBracket => "'<'",
        Rule::RAngleBracket => "'>'",
        Rule::Name => "name",
        Rule::Identifier => "identifier",
        Rule::StringLiteral => "string_literal",
        Rule::Integer => "integer",
        Rule::Literal => "literal",
        Rule::TypeSpec => "type_spec",
        Rule::Attribute => "attribute",
        Rule::InterfaceBody => "interface_body",
        Rule::StructItem => "struct_item",
        Rule::UnionField => "union_field",
        Rule::EnumValue => "enum_value",
        Rule::Parameter => "parameter",
    }
}

impl Error {
    /// The error of a parse that stopped at `offset` of `s`: a point.
    pub fn at_offset(s: &[u8], offset: usize, expected: Rule) -> (e: Error)
        requires
            offset <= s@.len(),
        ensures
            e == Error::point(s@, offset as int, expected),
    {
        Error { location: ErrorLocation::Pos(line_col_at(s, offset)), offset, expected }
    }

    /// The error that says `expected` was looked for at offset `p` of `s`.
    pub open spec fn point(s: Seq<u8>, p: int, expected: Rule) -> Error {
        Error { location: ErrorLocation::Pos(position_of(s, p)), offset: p as usize, expected }
    }

    /// The positions at which the error starts and ends. An error at a
    /// point starts and ends at that point.
    pub fn range(&self) -> (r: (LineCol, LineCol))
        ensures
            r == match self.location {
                ErrorLocation::Pos(p) => (p, p),
                ErrorLocation::Span(start, end) => (start, end),
            },
    {
        match self.location {
            ErrorLocation::Pos(p) => (p, p),
            ErrorLocation::Span(start, end) => (start, end),
        }
    }

    /// The message of the error: what was expected.
    pub fn message(&self) -> (r: String)
        ensures
            r@ == "expected "@ + rule_text(self.expected),
    {
        String::from_str("expected ").concat(rule_name(self.expected))
    }
}

} // verus!
