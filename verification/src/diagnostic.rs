//! The state of the analysis of the current document: the document as it
//! was last checked, and the files it imports.
use vstd::prelude::*;
use vstd::slice::slice_subrange;
use vstd::utf8::encode_utf8;

use crate::definition::{declared, find_definition_preorder, lemma_first_match_none, place_of};
use crate::error::{rule_text, Error, ErrorLocation};
use crate::imported_files::{
    find_in_imports, import_paths, lemma_find_in_imports_none, lists_imports, none_answers,
    ImportedFiles,
};
use crate::lexer::{is_alpha, is_digit, CR, DOT, LF, UNDERSCORE};
use crate::lsp::{
    create_diagnostic, into_lsp_range, position_at, Diagnostic, DiagnosticSeverity, Location,
    Position,
};
use crate::lsp;
use crate::mojomast::MojomAst;
use crate::parser::{parse, parse_result};
use crate::semantic::{
    accepted_module, check_semantics, is_duplicate_module, modules, reports_duplicates,
};
use crate::syntax::MojomFileView;

verus! {

/// The offset of the first line feed at or after `p`, or the end of `s`.
pub open spec fn line_stop(s: Seq<u8>, p: int) -> int
    decreases s.len() - p,
{
    if 0 <= p < s.len() && s[p] != LF {
        line_stop(s, p + 1)
    } else {
        p
    }
}

/// The length of the line that starts at `p`, without its line feed and
/// without the carriage return that may stand before the line feed.
pub open spec fn line_len(s: Seq<u8>, p: int) -> int {
    let e = line_stop(s, p);
    if p < e < s.len() && s[e - 1] == CR {
        e - p - 1
    } else {
        e - p
    }
}

/// The sum, over the `lines` lines from the one that starts at `p` on, of
/// the length of the line and one. Lines that the text does not have add
/// nothing.
pub open spec fn lines_offset(s: Seq<u8>, p: int, lines: nat) -> int
    decreases lines,
{
    if lines == 0 || p < 0 || p >= s.len() {
        0
    } else {
        line_len(s, p) + 1 + lines_offset(s, line_stop(s, p) + 1, (lines - 1) as nat)
    }
}

/// The byte offset that a position stands for: the lengths of the lines
/// before its line, one more for each, and its character.
pub open spec fn offset_of(s: Seq<u8>, pos: Position) -> int {
    lines_offset(s, 0, pos.line as nat) + pos.character
}

/// A line ends at or after its start, inside the text.
pub proof fn lemma_line_stop_bounds(s: Seq<u8>, p: int)
    requires
        0 <= p <= s.len(),
    ensures
        p <= line_stop(s, p) <= s.len(),
    decreases s.len() - p,
{
    if p < s.len() && s[p] != LF {
        lemma_line_stop_bounds(s, p + 1);
    }
}

/// The sum over lines is never negative.
pub proof fn lemma_lines_offset_nonnegative(s: Seq<u8>, p: int, lines: nat)
    ensures
        lines_offset(s, p, lines) >= 0,
    decreases lines,
{
    if !(lines == 0 || p < 0 || p >= s.len()) {
        lemma_line_stop_bounds(s, p);
        lemma_lines_offset_nonnegative(s, line_stop(s, p) + 1, (lines - 1) as nat);
    }
}

/// Converts a position to a byte offset of `text`. `None` when the
/// offset is past the end of the text.
pub fn get_offset_from_position(text: &[u8], pos: &Position) -> (r: Option<usize>)
    ensures
        match r {
            Some(offset) => offset == offset_of(text@, *pos) && offset <= text@.len(),
            None => offset_of(text@, *pos) > text@.len(),
        },
{
    let len = text.len();
    let mut offset: usize = 0;
    let mut start: usize = 0;
    let mut line: u64 = 0;
    while line < pos.line && start < len
        invariant
            len == text@.len(),
            line <= pos.line,
            offset <= start <= len,
            lines_offset(text@, 0, pos.line as nat) == offset + lines_offset(
                text@,
                start as int,
                (pos.line - line) as nat,
            ),
        decreases pos.line - line,
    {
        let mut stop: usize = start;
        while stop < len && text[stop] != LF
            invariant
                len == text@.len(),
                start <= stop <= len,
                line_stop(text@, start as int) == line_stop(text@, stop as int),
            decreases len - stop,
        {
            stop += 1;
        }
        let length = if start < stop && stop < len && text[stop - 1] == CR {
            stop - start - 1
        } else {
            stop - start
        };
        proof {
            lemma_lines_offset_nonnegative(text@, stop + 1, (pos.line - line - 1) as nat);
        }
        if length >= len - offset {
            return None;
        }
        offset = offset + length + 1;
        line += 1;
        if stop >= len {
            start = len;
        } else {
            start = stop + 1;
        }
    }
    if pos.character > (len - offset) as u64 {
        None
    } else {
        Some(offset + pos.character as usize)
    }
}

/// A code of a character that may be part of an identifier under the
/// cursor: an ASCII letter or digit, `_` or `.`.
pub open spec fn is_identifier_code(c: int) -> bool {
    65 <= c <= 90 || 97 <= c <= 122 || 48 <= c <= 57 || c == 95 || c == 46
}

/// Tells whether `ch` may be part of an identifier under the cursor.
pub fn is_identifier_char(ch: char) -> (r: bool)
    ensures
        r == is_identifier_code(ch as int),
{
    ('A' <= ch && ch <= 'Z') || ('a' <= ch && ch <= 'z') || ('0' <= ch && ch <= '9') || ch == '_'
        || ch == '.'
}

/// Tells whether the byte `b` may be part of an identifier under the
/// cursor.
pub fn is_identifier_byte(b: u8) -> (r: bool)
    ensures
        r == is_identifier_code(b as int),
{
    (65 <= b && b <= 90) || (97 <= b && b <= 122) || (48 <= b && b <= 57) || b == UNDERSCORE || b
        == DOT
}

/// Where the run of identifier characters that ends at `p` starts.
pub open spec fn identifier_start(s: Seq<u8>, p: int) -> int
    decreases p,
{
    if 0 < p <= s.len() && is_identifier_code(s[p - 1] as int) {
        identifier_start(s, p - 1)
    } else {
        p
    }
}

/// Where the run of identifier characters that starts at `p` stops.
pub open spec fn identifier_stop(s: Seq<u8>, p: int) -> int
    decreases s.len() - p,
{
    if 0 <= p < s.len() && is_identifier_code(s[p] as int) {
        identifier_stop(s, p + 1)
    } else {
        p
    }
}

/// The identifier under the cursor at `pos`: the identifier characters
/// around the offset of `pos`. `None` when the offset is past the end of
/// the text.
pub open spec fn identifier_at(s: Seq<u8>, pos: Position) -> Option<Seq<u8>> {
    let offset = offset_of(s, pos);
    if offset <= s.len() {
        Some(s.subrange(identifier_start(s, offset), identifier_stop(s, offset)))
    } else {
        None
    }
}

/// Finds the identifier under the cursor at `pos`: from the offset of
/// `pos` it reaches left and right as far as letters, digits, `_` and `.`
/// go.
pub fn get_identifier<'a>(text: &'a [u8], pos: &Position) -> (r: Option<&'a [u8]>)
    ensures
        match r {
            Some(ident) => identifier_at(text@, *pos) == Some(ident@),
            None => identifier_at(text@, *pos) is None,
        },
{
    let offset = match get_offset_from_position(text, pos) {
        Some(offset) => offset,
        None => {
            return None;
        },
    };
    let mut s: usize = offset;
    while s > 0 && is_identifier_byte(text[s - 1])
        invariant
            s <= offset <= text@.len(),
            identifier_start(text@, offset as int) == identifier_start(text@, s as int),
        decreases s,
    {
        s -= 1;
    }
    let mut e: usize = offset;
    while e < text.len() && is_identifier_byte(text[e])
        invariant
            offset <= e <= text@.len(),
            identifier_stop(text@, offset as int) == identifier_stop(text@, e as int),
        decreases text@.len() - e,
    {
        e += 1;
    }
    Some(slice_subrange(text, s, e))
}

/// The state of the analysis: the current document where its last check
/// gave a tree, and the outcomes of reading its imports. The tree of the
/// current document is always the tree of its text.
#[derive(Debug)]
pub struct Analyzer {
    ast: Option<MojomAst>,
    imported_files: Option<ImportedFiles>,
}

/// `d` is the diagnostic of the syntax error `e`: an error over the range
/// of `e`, with its message.
pub open spec fn is_syntax_diagnostic(d: Diagnostic, e: Error) -> bool {
    &&& d.range == match e.location {
        ErrorLocation::Pos(p) => lsp::Range { start: position_at(p), end: position_at(p) },
        ErrorLocation::Span(a, b) => lsp::Range { start: position_at(a), end: position_at(b) },
    }
    &&& d.severity == DiagnosticSeverity::Error
    &&& d.code@ == "mojom"@
    &&& d.source@ == "mojom-lsp"@
    &&& d.message@ == "expected "@ + rule_text(e.expected)
}

/// The document that a check of `text` leaves, and the diagnostics that it
/// publishes.
pub open spec fn checked(
    uri: String,
    text: String,
    ast: Option<MojomAst>,
    published: Seq<Diagnostic>,
) -> bool {
    match parse_result(encode_utf8(text@)) {
        Ok(tree) => {
            &&& ast matches Some(doc)
            &&& doc.wf()
            &&& doc.uri == uri
            &&& doc.text == text
            &&& doc.mojom@ == tree
            &&& doc.module == accepted_module(tree.stmts)
            &&& reports_duplicates(published, 0, encode_utf8(text@), modules(tree.stmts))
        },
        Err(e) => {
            &&& ast is None
            &&& published.len() == 1
            &&& is_syntax_diagnostic(published[0], e)
        },
    }
}

/// The place of `ident` in a document and its imports: where the document
/// declares it, else where an imported file defines it.
pub open spec fn definition_place(
    ast: &MojomAst,
    imports: Option<ImportedFiles>,
    ident: Seq<u8>,
) -> Option<Location> {
    match place_of(declared(ast.mojom@, ast.bytes()), ident, ast) {
        Some(loc) => Some(loc),
        None => match imports {
            Some(files) => find_in_imports(files.parsed_imports@, 0, ident),
            None => None,
        },
    }
}

impl Analyzer {
    #[verifier::type_invariant]
    spec fn inv(&self) -> bool {
        self.ast matches Some(doc) ==> doc.wf()
    }

    /// The current document, if there is one.
    pub closed spec fn document(&self) -> Option<MojomAst> {
        self.ast
    }

    /// The outcomes of reading the imports, once they were read.
    pub closed spec fn imports(&self) -> Option<ImportedFiles> {
        self.imported_files
    }

    /// The state before any document was checked.
    pub fn new() -> (r: Analyzer)
        ensures
            r.document() is None,
            r.imports() is None,
    {
        Analyzer { ast: None, imported_files: None }
    }

    /// The current document, if there is one.
    pub fn ast(&self) -> (r: Option<&MojomAst>)
        ensures
            match r {
                Some(doc) => self.document() == Some(*doc) && doc.wf(),
                None => self.document() is None,
            },
    {
        proof {
            use_type_invariant(self);
        }
        self.ast.as_ref()
    }

    /// Tells whether `uri` names the current document.
    pub fn is_same_uri(&self, uri: &String) -> (r: bool)
        ensures
            r == (self.document() matches Some(doc) && doc.uri@ == uri@),
    {
        match &self.ast {
            Some(doc) => doc.uri == *uri,
            None => false,
        }
    }

    /// Checks `text` as the new current document and gives the diagnostics
    /// to publish for `uri`, which may be none.
    ///
    /// Where the text parses, it becomes the current document, with its
    /// first module statement as its module, and each later module
    /// statement gives a diagnostic. Where it does not, there is no current
    /// document any more, and the one diagnostic is the syntax error. The
    /// imports that were read before stay as they are.
    pub fn check_syntax(&mut self, uri: String, text: String) -> (r: Vec<Diagnostic>)
        ensures
            checked(uri, text, final(self).document(), r@),
            final(self).imports() == old(self).imports(),
    {
        match parse(text.as_str()) {
            Ok(mojom) => {
                let analysis = check_semantics(text.as_str(), &mojom);
                self.ast = Some(MojomAst::from_mojom(uri, text, mojom, analysis.module));
                analysis.diagnostics
            },
            Err(err) => {
                self.ast = None;
                let (start, end) = err.range();
                let range = into_lsp_range(&start, &end);
                let diagnostic = create_diagnostic(range, err.message());
                let mut diagnostics: Vec<Diagnostic> = Vec::new();
                diagnostics.push(diagnostic);
                diagnostics
            },
        }
    }

    /// Lists the paths that the current document imports, in order; none
    /// without a current document.
    pub fn import_paths(&self) -> (r: Vec<String>)
        ensures
            match self.document() {
                Some(doc) => lists_imports(r@, doc),
                None => r@.len() == 0,
            },
    {
        proof {
            use_type_invariant(self);
        }
        match &self.ast {
            Some(doc) => import_paths(doc),
            None => Vec::new(),
        }
    }

    /// Keeps the outcomes of reading the imports of the current document.
    /// Without a current document nothing changes.
    pub fn check_imported_files(&mut self, files: ImportedFiles)
        ensures
            final(self).document() == old(self).document(),
            final(self).imports() == if old(self).document() is Some {
                Some(files)
            } else {
                old(self).imports()
            },
    {
        proof {
            use_type_invariant(&*self);
        }
        if self.ast.is_some() {
            self.imported_files = Some(files);
        }
    }

    /// Finds where the identifier under the cursor at `pos` is defined:
    /// in the current document, else in the files it imports. `None`
    /// without a current document, for a position past the end of the
    /// text, and when nothing defines the identifier.
    pub fn find_definition(&self, pos: &Position) -> (r: Option<Location>)
        ensures
            r == match self.document() {
                Some(doc) => match identifier_at(doc.bytes(), *pos) {
                    Some(ident) => definition_place(&doc, self.imports(), ident),
                    None => None,
                },
                None => None,
            },
    {
        proof {
            use_type_invariant(self);
        }
        let ast = match &self.ast {
            Some(ast) => ast,
            None => {
                return None;
            },
        };
        let ident = match get_identifier(ast.text.as_str().as_bytes(), pos) {
            Some(ident) => ident,
            None => {
                return None;
            },
        };
        match find_definition_in_doc(ast, ident) {
            Some(loc) => Some(loc),
            None => find_definition_in_imported_files(&self.imported_files, ident),
        }
    }
}

/// Finds where the document declares `ident`.
pub fn find_definition_in_doc(ast: &MojomAst, ident: &[u8]) -> (r: Option<Location>)
    requires
        ast.wf(),
    ensures
        r == place_of(declared(ast.mojom@, ast.bytes()), ident@, ast),
{
    find_definition_preorder(ident, ast)
}

/// Finds where the imported files define `ident`, where imports were read.
pub fn find_definition_in_imported_files(imported_files: &Option<ImportedFiles>, ident: &[u8]) -> (r:
    Option<Location>)
    ensures
        r == match *imported_files {
            Some(files) => find_in_imports(files.parsed_imports@, 0, ident@),
            None => None,
        },
{
    match imported_files {
        Some(files) => files.find_definition(ident),
        None => None,
    }
}

/// Nothing defines `ident`: the document declares no such name, and no
/// definition of an import that was read and parsed answers to it.
pub open spec fn nothing_defines(ast: &MojomAst, imports: Option<ImportedFiles>, ident: Seq<u8>) -> bool {
    &&& forall|k: int|
        0 <= k < declared(ast.mojom@, ast.bytes()).len() ==> (#[trigger] declared(
            ast.mojom@,
            ast.bytes(),
        )[k]).ident != ident
    &&& imports matches Some(files) ==> none_answers(files.parsed_imports@, 0, ident)
}

/// The search for a definition finds nothing exactly when nothing, in the
/// document or in its imports, defines the identifier.
pub proof fn lemma_definition_found_iff_defined(
    ast: &MojomAst,
    imports: Option<ImportedFiles>,
    ident: Seq<u8>,
)
    ensures
        definition_place(ast, imports, ident) is None <==> nothing_defines(ast, imports, ident),
{
    lemma_first_match_none(declared(ast.mojom@, ast.bytes()), ident);
    if let Some(files) = imports {
        lemma_find_in_imports_none(files.parsed_imports@, 0, ident);
    }
}

/// Two diagnostics say the same.
pub open spec fn same_diagnostic(a: Diagnostic, b: Diagnostic) -> bool {
    &&& a.range == b.range
    &&& a.severity == b.severity
    &&& a.code@ == b.code@
    &&& a.source@ == b.source@
    &&& a.message@ == b.message@
}

/// Two lists of diagnostics say the same, in the same order.
pub open spec fn same_diagnostics(a: Seq<Diagnostic>, b: Seq<Diagnostic>) -> bool {
    &&& a.len() == b.len()
    &&& forall|k: int| 0 <= k < a.len() ==> same_diagnostic(#[trigger] a[k], b[k])
}

/// Two documents have the same tree and the same module, or both are
/// absent.
pub open spec fn same_document(a: Option<MojomAst>, b: Option<MojomAst>) -> bool {
    match (a, b) {
        (Some(a), Some(b)) => a.uri == b.uri && a.text == b.text && a.mojom@ == b.mojom@
            && a.module == b.module,
        (None, None) => true,
        _ => false,
    }
}

/// A check of the same text gives the same again: the same diagnostics, and
/// the same document with the same tree.
pub proof fn lemma_check_is_repeatable(
    uri: String,
    text: String,
    first: Option<MojomAst>,
    first_published: Seq<Diagnostic>,
    second: Option<MojomAst>,
    second_published: Seq<Diagnostic>,
)
    requires
        checked(uri, text, first, first_published),
        checked(uri, text, second, second_published),
    ensures
        same_document(first, second),
        same_diagnostics(first_published, second_published),
{
    if let Ok(tree) = parse_result(encode_utf8(text@)) {
        let found = modules(tree.stmts);
        assert forall|k: int| 0 <= k < first_published.len() implies same_diagnostic(
            #[trigger] first_published[k],
            second_published[k],
        ) by {
            assert(is_duplicate_module(
                first_published[0 + (k + 1) - 1],
                encode_utf8(text@),
                found[0],
                found[k + 1],
            ));
        }
    }
}

} // verus!
