//! The files that a document imports: what each of them defines, and the
//! search for a name among them.
use vstd::prelude::*;
use vstd::slice::slice_to_vec;
use vstd::string::StringSliceAdditionalSpecFns;
use vstd::utf8::{decode_utf8, encode_utf8, valid_utf8};

use crate::definition::{
    create_lsp_range, declared, definitions, definitions_from, event_name, event_within,
    events_within, lemma_definitions_declared, lemma_file_events_within, lsp_range_of, path_after,
    path_within, qualified, qualified_ident, Definition,
};
use crate::error::{rule_text, Error};
use crate::lexer::{byte_at, pair_at, string_body_end, string_end, BACKSLASH, DOT, QUOTE};
use crate::lsp;
use crate::lsp::Location;
use crate::mojomast::MojomAst;
use crate::parser::{parse, parse_result};
use crate::semantic::{accepted_module, check_semantics};
use crate::syntax::{statement_views, Import, MojomFileView, Range, Statement, StatementView};
use crate::text::{append_bytes, bytes_eq, lemma_ascii_boundaries, substring};
use crate::traverse::{preorder, Traversal};

verus! {

/// A name that an imported file defines, and where it stands in that file.
#[derive(Debug, Clone, PartialEq, Eq)]
pub struct ImportDefinition {
    pub ident: Vec<u8>,
    pub range: lsp::Range,
}

pub struct ImportDefinitionView {
    pub ident: Seq<u8>,
    pub range: lsp::Range,
}

impl View for ImportDefinition {
    type V = ImportDefinitionView;

    open spec fn view(&self) -> ImportDefinitionView {
        ImportDefinitionView { ident: self.ident@, range: self.range }
    }
}

/// The views of definitions, in order.
pub open spec fn definition_views(defs: Seq<ImportDefinition>) -> Seq<ImportDefinitionView> {
    defs.map_values(|d: ImportDefinition| d@)
}

/// An imported file that was read and parsed.
#[derive(Debug, Clone, PartialEq, Eq)]
pub struct ImportedFile {
    pub uri: String,
    pub module_name: Option<Vec<u8>>,
    pub definitions: Vec<ImportDefinition>,
}

/// Why an imported file is not there.
#[derive(Debug, Clone, PartialEq, Eq)]
pub enum ImportError {
    /// The file could not be read.
    IoError(String),
    /// No file is at the path.
    NotFound(String),
    /// The file is not a Mojom file.
    SyntaxError(String),
}

/// An imported file, or why it is not there.
pub type ImportResult = Result<ImportedFile, ImportError>;

/// The error for a file that could not be read: `NotFound` where no file
/// was at the path, `IoError` for anything else.
pub fn import_error(not_found: bool, message: String) -> (e: ImportError)
    ensures
        e == if not_found {
            ImportError::NotFound(message)
        } else {
            ImportError::IoError(message)
        },
{
    if not_found {
        ImportError::NotFound(message)
    } else {
        ImportError::IoError(message)
    }
}

/// The imports of a document, one entry for each import statement, in
/// order.
#[derive(Debug, Clone, PartialEq, Eq)]
pub struct ImportedFiles {
    pub parsed_imports: Vec<ImportResult>,
}

/// The name of the module of an imported file, as bytes.
pub open spec fn module_bytes(name: Option<Vec<u8>>) -> Option<Seq<u8>> {
    match name {
        Some(n) => Some(n@),
        None => None,
    }
}

/// A definition of a file of module `module` answers to `ident`: under its
/// own qualified name, or under the name of the module, a dot, and that
/// name.
pub open spec fn answers_to(def: Seq<u8>, module: Option<Seq<u8>>, ident: Seq<u8>) -> bool {
    def == ident || (module matches Some(m) && m + seq![DOT] + def == ident)
}

/// The first definition of `file`, from definition `k` on, that answers to
/// `ident`.
pub open spec fn find_in_file(file: ImportedFile, k: int, ident: Seq<u8>) -> Option<Location>
    decreases file.definitions@.len() - k,
{
    if k < 0 || k >= file.definitions@.len() {
        None
    } else if answers_to(file.definitions@[k].ident@, module_bytes(file.module_name), ident) {
        Some(Location { uri: file.uri, range: file.definitions@[k].range })
    } else {
        find_in_file(file, k + 1, ident)
    }
}

/// The first definition that answers to `ident` in the imports from import
/// `k` on that were read and parsed.
pub open spec fn find_in_imports(imports: Seq<ImportResult>, k: int, ident: Seq<u8>) -> Option<
    Location,
>
    decreases imports.len() - k,
{
    if k < 0 || k >= imports.len() {
        None
    } else {
        match imports[k] {
            Ok(file) => match find_in_file(file, 0, ident) {
                Some(loc) => Some(loc),
                None => find_in_imports(imports, k + 1, ident),
            },
            Err(_) => find_in_imports(imports, k + 1, ident),
        }
    }
}

/// Tells whether a definition of a file answers to `ident`.
fn answers(def: &Vec<u8>, module: &Option<Vec<u8>>, ident: &[u8]) -> (r: bool)
    ensures
        r == answers_to(def@, module_bytes(*module), ident@),
{
    if bytes_eq(def.as_slice(), ident) {
        return true;
    }
    match module {
        Some(name) => {
            let mut canonical: Vec<u8> = Vec::new();
            append_bytes(&mut canonical, name.as_slice());
            canonical.push(DOT);
            append_bytes(&mut canonical, def.as_slice());
            assert(canonical@ =~= name@ + seq![DOT] + def@);
            bytes_eq(canonical.as_slice(), ident)
        },
        None => false,
    }
}

impl ImportedFiles {
    /// Keeps the outcomes of reading the imports of a document.
    pub fn new(parsed_imports: Vec<ImportResult>) -> (r: ImportedFiles)
        ensures
            r.parsed_imports == parsed_imports,
    {
        ImportedFiles { parsed_imports }
    }

    /// Finds where `ident` is defined in the imported files: the first
    /// definition, in the order of the imports and of each file, that
    /// answers to `ident`. Imports that failed are passed over.
    pub fn find_definition(&self, ident: &[u8]) -> (r: Option<Location>)
        ensures
            r == find_in_imports(self.parsed_imports@, 0, ident@),
    {
        let mut i: usize = 0;
        while i < self.parsed_imports.len()
            invariant
                i <= self.parsed_imports@.len(),
                find_in_imports(self.parsed_imports@, 0, ident@) == find_in_imports(
                    self.parsed_imports@,
                    i as int,
                    ident@,
                ),
            decreases self.parsed_imports@.len() - i,
        {
            if let Ok(imported) = &self.parsed_imports[i] {
                let mut k: usize = 0;
                while k < imported.definitions.len()
                    invariant
                        k <= imported.definitions@.len(),
                        i < self.parsed_imports@.len(),
                        self.parsed_imports@[i as int] == Ok::<ImportedFile, ImportError>(
                            *imported,
                        ),
                        find_in_file(*imported, 0, ident@) == find_in_file(
                            *imported,
                            k as int,
                            ident@,
                        ),
                        find_in_imports(self.parsed_imports@, 0, ident@) == find_in_imports(
                            self.parsed_imports@,
                            i as int,
                            ident@,
                        ),
                    decreases imported.definitions@.len() - k,
                {
                    let definition = &imported.definitions[k];
                    if answers(&definition.ident, &imported.module_name, ident) {
                        return Some(
                            Location { uri: imported.uri.clone(), range: definition.range },
                        );
                    }
                    k += 1;
                }
            }
            i += 1;
        }
        None
    }
}

/// A definition as an importer sees it: the qualified name, and the place
/// of the declared name in lines and columns of the imported text `s`.
pub open spec fn import_view(d: Definition, s: Seq<u8>) -> ImportDefinitionView {
    ImportDefinitionView { ident: d.ident, range: lsp_range_of(s, d.range) }
}

/// The definitions `defs` of a text `s` as an importer sees them.
pub open spec fn import_views(defs: Seq<Definition>, s: Seq<u8>) -> Seq<ImportDefinitionView> {
    defs.map_values(|d: Definition| import_view(d, s))
}

/// Adds the definition of `field` inside `path` to `definitions`.
pub fn add_definition(
    field: &Range,
    ast: &MojomAst,
    path: &Vec<Range>,
    definitions: &mut Vec<ImportDefinition>,
)
    requires
        path_within(path@, ast.bytes().len()),
        field.within(ast.bytes().len()),
    ensures
        final(definitions)@.len() == old(definitions)@.len() + 1,
        final(definitions)@.drop_last() == old(definitions)@,
        final(definitions)@.last()@ == import_view(
            Definition { ident: qualified(path@, *field, ast.bytes()), range: *field },
            ast.bytes(),
        ),
{
    let ident = qualified_ident(ast, path, field);
    let range = create_lsp_range(ast, field);
    definitions.push(ImportDefinition { ident, range });
}

/// Lists what a document defines, as an importer of it sees it: the names
/// that the file declares, in source order.
pub fn import_definitions(ast: &MojomAst) -> (r: Vec<ImportDefinition>)
    requires
        ast.wf(),
    ensures
        definition_views(r@) == import_views(declared(ast.mojom@, ast.bytes()), ast.bytes()),
{
    let ghost s = ast.bytes();
    let mut path: Vec<Range> = Vec::new();
    let mut out: Vec<ImportDefinition> = Vec::new();
    let mut walk = preorder(&ast.mojom);
    proof {
        lemma_file_events_within(&ast.mojom, s);
        lemma_definitions_declared(&ast.mojom, s);
    }
    loop
        invariant
            walk.wf(),
            s == ast.bytes(),
            path_within(path@, s.len()),
            events_within(walk.remaining(), s.len()),
            definition_views(out@) + import_views(
                definitions_from(walk.remaining(), path@, s),
                s,
            ) == import_views(declared(ast.mojom@, s), s),
        decreases walk.remaining().len(),
    {
        let ghost events = walk.remaining();
        let ghost before = path@;
        let traversal = match walk.next() {
            Some(traversal) => traversal,
            None => {
                return out;
            },
        };
        proof {
            assert forall|k: int| 0 <= k < events.drop_first().len() implies event_within(
                #[trigger] events.drop_first()[k],
                s.len(),
            ) by {
            }
        }
        match traversal {
            Traversal::EnterInterface(node) => {
                add_definition(&node.name, ast, &path, &mut out);
                path.push(node.name);
            },
            Traversal::LeaveInterface(_) => {
                path.pop();
            },
            Traversal::EnterStruct(node) => {
                add_definition(&node.name, ast, &path, &mut out);
                path.push(node.name);
            },
            Traversal::LeaveStruct(_) => {
                path.pop();
            },
            Traversal::Union(node) => add_definition(&node.name, ast, &path, &mut out),
            Traversal::Enum(node) => add_definition(&node.name, ast, &path, &mut out),
            Traversal::Const(node) => add_definition(&node.name, ast, &path, &mut out),
            _ => {},
        }
    }
}

/// What an importer keeps of an imported file whose text is `s` and whose
/// tree is `tree`.
pub open spec fn is_import_of(file: ImportedFile, uri: String, s: Seq<u8>, tree: MojomFileView) -> bool {
    &&& file.uri == uri
    &&& module_bytes(file.module_name) == match accepted_module(tree.stmts) {
        Some(m) => Some(m.name.of(s)),
        None => None,
    }
    &&& definition_views(file.definitions@) == import_views(declared(tree, s), s)
}

/// Parses the text of an imported file and lists what it defines. A text
/// that is not a Mojom file gives `SyntaxError` with the message of the
/// error.
pub fn parse_imported(uri: String, text: String) -> (r: ImportResult)
    ensures
        match parse_result(encode_utf8(text@)) {
            Ok(tree) => r matches Ok(file) && is_import_of(file, uri, encode_utf8(text@), tree),
            Err(e) => r matches Err(ImportError::SyntaxError(m)) && m@ == "expected "@ + rule_text(
                e.expected,
            ),
        },
{
    let mojom = match parse(text.as_str()) {
        Ok(mojom) => mojom,
        Err(err) => {
            return Err(ImportError::SyntaxError(err.message()));
        },
    };
    let analysis = check_semantics(text.as_str(), &mojom);
    let ast = MojomAst::from_mojom(uri, text, mojom, analysis.module);
    let definitions = import_definitions(&ast);
    let module_name = match ast.module_name() {
        Some(name) => Some(slice_to_vec(name)),
        None => None,
    };
    Ok(ImportedFile { uri: ast.uri.clone(), module_name, definitions })
}

/// The import statements among the first `n` statements, in order.
pub open spec fn imports_upto(stmts: Seq<StatementView>, n: int) -> Seq<Import>
    decreases n,
{
    if n <= 0 {
        Seq::empty()
    } else {
        match stmts[n - 1] {
            StatementView::Import(i) => imports_upto(stmts, n - 1).push(i),
            _ => imports_upto(stmts, n - 1),
        }
    }
}

/// The path that an import names: the text between the quotes.
pub open spec fn import_path(i: Import, s: Seq<u8>) -> Seq<char> {
    decode_utf8(s.subrange(i.path.start + 1, i.path.end - 1))
}

/// A string literal starts and ends with a quote, and ends inside the
/// text.
pub proof fn lemma_string_quotes(s: Seq<u8>, p: int)
    requires
        string_end(s, p) is Some,
    ensures
        p + 2 <= string_end(s, p)->0 <= s.len(),
        s[p] == QUOTE,
        s[string_end(s, p)->0 - 1] == QUOTE,
{
    lemma_string_body(s, p + 1);
}

/// The inside of a string literal ends with a quote, inside the text.
pub proof fn lemma_string_body(s: Seq<u8>, p: int)
    requires
        string_body_end(s, p) is Some,
    ensures
        p < string_body_end(s, p)->0 <= s.len(),
        s[string_body_end(s, p)->0 - 1] == QUOTE,
    decreases s.len() - p,
{
    if 0 <= p < s.len() && s[p] != QUOTE {
        if pair_at(s, p, BACKSLASH, QUOTE) {
            lemma_string_body(s, p + 2);
        } else {
            lemma_string_body(s, p + 1);
        }
    }
}

/// `paths` holds the paths that the document imports, one for each import
/// statement, in order: the text of each path without its quotes.
pub open spec fn lists_imports(paths: Seq<String>, ast: MojomAst) -> bool {
    let imports = imports_upto(ast.mojom@.stmts, ast.mojom@.stmts.len() as int);
    &&& paths.len() == imports.len()
    &&& forall|k: int|
        0 <= k < paths.len() ==> (#[trigger] paths[k])@ == import_path(imports[k], ast.bytes())
}

/// Lists the paths that the document imports, one for each import
/// statement, in order: the text of each path without its quotes.
pub fn import_paths(ast: &MojomAst) -> (r: Vec<String>)
    requires
        ast.wf(),
    ensures
        lists_imports(r@, *ast),
{
    broadcast use vstd::utf8::encode_utf8_valid_utf8, vstd::utf8::encode_utf8_decode_utf8;

    let ghost s = ast.bytes();
    let ghost stmts = ast.mojom@.stmts;
    let text = ast.text.as_str();
    let mut out: Vec<String> = Vec::new();
    let mut i: usize = 0;
    while i < ast.mojom.stmts.len()
        invariant
            i <= ast.mojom.stmts@.len(),
            ast.wf(),
            valid_utf8(s),
            s == ast.bytes(),
            s == text.spec_bytes(),
            stmts == ast.mojom@.stmts,
            stmts.len() == ast.mojom.stmts@.len(),
            out@.len() == imports_upto(stmts, i as int).len(),
            forall|k: int|
                0 <= k < out@.len() ==> (#[trigger] out@[k])@ == import_path(
                    imports_upto(stmts, i as int)[k],
                    s,
                ),
        decreases ast.mojom.stmts@.len() - i,
    {
        assert(statement_views(ast.mojom.stmts@)[i as int] == ast.mojom.stmts@[i as int]@);
        if let Statement::Import(stmt) = &ast.mojom.stmts[i] {
            proof {
                lemma_string_quotes(s, stmt.path.start as int);
                lemma_ascii_boundaries(s, stmt.path.start as int);
                lemma_ascii_boundaries(s, stmt.path.end - 1);
            }
            let path = substring(text, stmt.path.start + 1, stmt.path.end - 1);
            let ghost before = out@;
            out.push(path.to_owned());
            proof {
                let found = imports_upto(stmts, i as int);
                vstd::utf8::encode_utf8_decode_utf8(path@);
                assert forall|k: int| 0 <= k < out@.len() implies (#[trigger] out@[k])@
                    == import_path(found.push(*stmt)[k], s) by {
                    if k < before.len() {
                    }
                }
            }
        } else {
        }
        i += 1;
    }
    out
}

/// No definition of `file` from definition `k` on answers to `ident`.
pub open spec fn none_answers_in_file(file: ImportedFile, k: int, ident: Seq<u8>) -> bool {
    forall|j: int|
        k <= j < file.definitions@.len() ==> !answers_to(
            (#[trigger] file.definitions@[j]).ident@,
            module_bytes(file.module_name),
            ident,
        )
}

/// No definition of an import from import `k` on that was read and parsed
/// answers to `ident`.
pub open spec fn none_answers(imports: Seq<ImportResult>, k: int, ident: Seq<u8>) -> bool {
    forall|i: int|
        k <= i < imports.len() ==> ((#[trigger] imports[i]) matches Ok(file)
            ==> none_answers_in_file(file, 0, ident))
}

/// A search in a file finds nothing exactly when no definition answers.
pub proof fn lemma_find_in_file_none(file: ImportedFile, k: int, ident: Seq<u8>)
    requires
        0 <= k,
    ensures
        find_in_file(file, k, ident) is None <==> none_answers_in_file(file, k, ident),
    decreases file.definitions@.len() - k,
{
    if k < file.definitions@.len() {
        lemma_find_in_file_none(file, k + 1, ident);
        if !answers_to(file.definitions@[k].ident@, module_bytes(file.module_name), ident) {
            if none_answers_in_file(file, k + 1, ident) {
                assert forall|j: int| k <= j < file.definitions@.len() implies !answers_to(
                    (#[trigger] file.definitions@[j]).ident@,
                    module_bytes(file.module_name),
                    ident,
                ) by {}
            }
        }
    }
}

/// A search in the imports finds nothing exactly when no definition of an
/// import that was read and parsed answers.
pub proof fn lemma_find_in_imports_none(imports: Seq<ImportResult>, k: int, ident: Seq<u8>)
    requires
        0 <= k,
    ensures
        find_in_imports(imports, k, ident) is None <==> none_answers(imports, k, ident),
    decreases imports.len() - k,
{
    if k < imports.len() {
        lemma_find_in_imports_none(imports, k + 1, ident);
        if let Ok(file) = imports[k] {
            lemma_find_in_file_none(file, 0, ident);
        }
        if none_answers(imports, k + 1, ident) && (imports[k] matches Ok(file)
            ==> none_answers_in_file(file, 0, ident)) {
            assert forall|i: int| k <= i < imports.len() implies ((#[trigger] imports[i]) matches Ok(
                file,
            ) ==> none_answers_in_file(file, 0, ident)) by {}
        }
    }
}

} // verus!
