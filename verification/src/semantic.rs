//! The checks on a parsed file beyond its syntax: a file declares at most
//! one module.
use vstd::prelude::*;
use vstd::string::StringExecFns;
use vstd::string::StringSliceAdditionalSpecFns;
use vstd::utf8::decode_utf8;

use crate::definition::lsp_range_of;
use crate::error::line_col_at;
use crate::lsp::{create_diagnostic, into_lsp_range, Diagnostic, DiagnosticSeverity};
use crate::syntax::{statement_views, Module, MojomFile, Range, Statement, StatementView};
use crate::text::{lemma_ascii_range_boundaries, lemma_identifier_ascii, substring};

verus! {

/// What the checks found: the module of the file, and the diagnostics.
#[derive(Debug)]
pub struct Analysis {
    pub module: Option<Module>,
    pub diagnostics: Vec<Diagnostic>,
}

/// The module statements among the first `n` statements, in order.
pub open spec fn modules_upto(stmts: Seq<StatementView>, n: int) -> Seq<Module>
    decreases n,
{
    if n <= 0 {
        Seq::empty()
    } else {
        match stmts[n - 1] {
            StatementView::Module(m) => modules_upto(stmts, n - 1).push(m),
            _ => modules_upto(stmts, n - 1),
        }
    }
}

/// The module statements of a file, in order.
pub open spec fn modules(stmts: Seq<StatementView>) -> Seq<Module> {
    modules_upto(stmts, stmts.len() as int)
}

/// The module that is accepted for a file: the first it declares.
pub open spec fn accepted_module(stmts: Seq<StatementView>) -> Option<Module> {
    if modules(stmts).len() > 0 {
        Some(modules(stmts)[0])
    } else {
        None
    }
}

/// The message about the module statement `other` of a file whose module
/// is `first`.
pub open spec fn duplicate_message(s: Seq<u8>, first: Module, other: Module) -> Seq<char> {
    "Found more than one module statement: "@ + decode_utf8(first.name.of(s)) + " and "@
        + decode_utf8(other.name.of(s))
}

/// `d` is the diagnostic about the module statement `other` of a file whose
/// module is `first`: an error on the name of `other`.
pub open spec fn is_duplicate_module(d: Diagnostic, s: Seq<u8>, first: Module, other: Module) -> bool {
    &&& d.range == lsp_range_of(s, other.name)
    &&& d.severity == DiagnosticSeverity::Error
    &&& d.code@ == "mojom"@
    &&& d.source@ == "mojom-lsp"@
    &&& d.message@ == duplicate_message(s, first, other)
}

/// `diagnostics` holds, from index `from` on, one diagnostic for each of
/// `found` but the first, in order, and nothing else.
pub open spec fn reports_duplicates(
    diagnostics: Seq<Diagnostic>,
    from: int,
    s: Seq<u8>,
    found: Seq<Module>,
) -> bool {
    &&& diagnostics.len() == from + if found.len() > 0 {
        found.len() - 1
    } else {
        0
    }
    &&& forall|j: int|
        1 <= j < found.len() ==> is_duplicate_module(
            #[trigger] diagnostics[from + j - 1],
            s,
            found[0],
            found[j],
        )
}

/// Copies out the text that `name` covers.
fn name_text<'a>(text: &'a str, name: &Range) -> (r: &'a str)
    requires
        name.is_identifier(text.spec_bytes()),
    ensures
        r@ == decode_utf8(name.of(text.spec_bytes())),
{
    broadcast use vstd::utf8::encode_utf8_valid_utf8, vstd::utf8::encode_utf8_decode_utf8;

    proof {
        lemma_identifier_ascii(text.spec_bytes(), name.start as int);
        lemma_ascii_range_boundaries(text.spec_bytes(), name.start as int, name.end as int);
    }
    substring(text, name.start, name.end)
}

/// Finds the module of a file: the first module statement. Each module
/// statement after the first adds a diagnostic on its name.
pub fn find_module(text: &str, mojom: &MojomFile, diagnostics: &mut Vec<Diagnostic>) -> (r: Option<
    Module,
>)
    requires
        mojom@.wf(text.spec_bytes()),
    ensures
        r == accepted_module(mojom@.stmts),
        final(diagnostics)@.take(old(diagnostics)@.len() as int) == old(diagnostics)@,
        reports_duplicates(
            final(diagnostics)@,
            old(diagnostics)@.len() as int,
            text.spec_bytes(),
            modules(mojom@.stmts),
        ),
{
    let ghost s = text.spec_bytes();
    let ghost stmts = mojom@.stmts;
    let ghost before = diagnostics@;
    let bytes = text.as_bytes();
    let mut module: Option<Module> = None;
    let mut i: usize = 0;
    while i < mojom.stmts.len()
        invariant
            i <= mojom.stmts@.len(),
            stmts == mojom@.stmts,
            stmts.len() == mojom.stmts@.len(),
            s == text.spec_bytes(),
            bytes@ == s,
            mojom@.wf(s),
            module == if modules_upto(stmts, i as int).len() > 0 {
                Some(modules_upto(stmts, i as int)[0])
            } else {
                None
            },
            diagnostics@.take(before.len() as int) == before,
            reports_duplicates(
                diagnostics@,
                before.len() as int,
                s,
                modules_upto(stmts, i as int),
            ),
        decreases mojom.stmts@.len() - i,
    {
        let ghost found = modules_upto(stmts, i as int);
        assert(statement_views(mojom.stmts@)[i as int] == mojom.stmts@[i as int]@);
        match &mojom.stmts[i] {
            Statement::Module(stmt) => {
                match module {
                    Some(first) => {
                        proof {
                            lemma_found_are_modules(stmts, i as int, s);
                        }
                        let message = String::from_str(
                            "Found more than one module statement: ",
                        ).concat(name_text(text, &first.name)).concat(" and ").concat(
                            name_text(text, &stmt.name),
                        );
                        let start = line_col_at(bytes, stmt.name.start);
                        let end = line_col_at(bytes, stmt.name.end);
                        let range = into_lsp_range(&start, &end);
                        diagnostics.push(create_diagnostic(range, message));
                        proof {
                            let now = found.push(*stmt);
                            assert forall|j: int| 1 <= j < now.len() implies is_duplicate_module(
                                #[trigger] diagnostics@[before.len() + j - 1],
                                s,
                                now[0],
                                now[j],
                            ) by {
                                if j < found.len() {
                                }
                            }
                        }
                    },
                    None => {
                        module = Some(*stmt);
                    },
                }
            },
            _ => {
            },
        }
        i += 1;
    }
    module
}

/// The modules found among the first `n` statements of a well-formed file
/// are well formed.
pub proof fn lemma_found_are_modules(stmts: Seq<StatementView>, n: int, s: Seq<u8>)
    requires
        0 <= n <= stmts.len(),
        forall|i: int| 0 <= i < stmts.len() ==> (#[trigger] stmts[i]).wf(s),
    ensures
        forall|j: int|
            0 <= j < modules_upto(stmts, n).len() ==> (#[trigger] modules_upto(stmts, n)[j]).wf(s),
    decreases n,
{
    if n > 0 {
        lemma_found_are_modules(stmts, n - 1, s);
        let before = modules_upto(stmts, n - 1);
        let found = modules_upto(stmts, n);
        assert forall|j: int| 0 <= j < found.len() implies (#[trigger] found[j]).wf(s) by {
            if j < before.len() {
            }
        }
    }
}

/// Checks a parsed file. The module of the file is the first module
/// statement; every later module statement gets one diagnostic, on its
/// name, in source order.
pub fn check_semantics(text: &str, mojom: &MojomFile) -> (r: Analysis)
    requires
        mojom@.wf(text.spec_bytes()),
    ensures
        r.module == accepted_module(mojom@.stmts),
        r.module matches Some(m) ==> m.wf(text.spec_bytes()),
        reports_duplicates(r.diagnostics@, 0, text.spec_bytes(), modules(mojom@.stmts)),
{
    let mut diagnostics: Vec<Diagnostic> = Vec::new();
    let module = find_module(text, mojom, &mut diagnostics);
    proof {
        lemma_accepted_is_module(mojom@.stmts, text.spec_bytes());
    }
    Analysis { module, diagnostics }
}

/// The module that is accepted for a well-formed file is well formed.
pub proof fn lemma_accepted_is_module(stmts: Seq<StatementView>, s: Seq<u8>)
    requires
        forall|i: int| 0 <= i < stmts.len() ==> (#[trigger] stmts[i]).wf(s),
    ensures
        accepted_module(stmts) matches Some(m) ==> m.wf(s),
{
    lemma_found_are_modules(stmts, stmts.len() as int, s);
}

} // verus!
