//! A document: its text, the tree parsed from it, and the module it
//! declares.
use vstd::prelude::*;
use vstd::slice::slice_subrange;
use vstd::utf8::encode_utf8;

use crate::error::{line_col_at, position_of, Error, LineCol};
use crate::parser::{parse, parse_result};
use crate::syntax::{Module, MojomFile, MojomFileView, Range};

verus! {

/// A parsed document.
#[derive(Debug)]
pub struct MojomAst {
    pub uri: String,
    pub text: String,
    pub mojom: MojomFile,
    /// The module statement that was accepted for the file, if any.
    pub module: Option<Module>,
}

impl MojomAst {
    /// The bytes of the text.
    pub open spec fn bytes(&self) -> Seq<u8> {
        encode_utf8(self.text@)
    }

    /// The tree and the module are those of the text: every range lies in
    /// it, and every name range covers a name.
    pub open spec fn wf(&self) -> bool {
        &&& self.mojom@.wf(self.bytes())
        &&& match self.module {
            Some(m) => m.wf(self.bytes()),
            None => true,
        }
    }

    /// Parses `text` into a document without a module.
    pub fn new(uri: String, text: String) -> (r: Result<MojomAst, Error>)
        ensures
            match r {
                Ok(ast) => parse_result(encode_utf8(text@)) == Ok::<MojomFileView, Error>(
                    ast.mojom@,
                ) && ast.uri == uri && ast.text == text && ast.module is None && ast.wf(),
                Err(e) => parse_result(encode_utf8(text@)) == Err::<MojomFileView, Error>(e),
            },
    {
        match parse(text.as_str()) {
            Ok(mojom) => Ok(MojomAst { uri, text, mojom, module: None }),
            Err(e) => Err(e),
        }
    }

    /// Makes a document of a text and what was found in it.
    pub fn from_mojom(uri: String, text: String, mojom: MojomFile, module: Option<Module>) -> (r:
        MojomAst)
        ensures
            r.uri == uri,
            r.text == text,
            r.mojom == mojom,
            r.module == module,
    {
        MojomAst { uri, text, mojom, module }
    }

    /// The bytes of the text that `field` covers.
    pub fn text(&self, field: &Range) -> (r: &[u8])
        requires
            field.start <= field.end <= self.bytes().len(),
        ensures
            r@ == field.of(self.bytes()),
    {
        slice_subrange(self.text.as_str().as_bytes(), field.start, field.end)
    }

    /// The line and column of `offset` in the text.
    pub fn line_col(&self, offset: usize) -> (r: LineCol)
        requires
            offset <= self.bytes().len(),
        ensures
            r == position_of(self.bytes(), offset as int),
    {
        line_col_at(self.text.as_str().as_bytes(), offset)
    }

    /// The name of the module of the document, where it has one.
    pub fn module_name(&self) -> (r: Option<&[u8]>)
        requires
            self.wf(),
        ensures
            match r {
                Some(name) => self.module is Some && name@ == self.module->0.name.of(self.bytes()),
                None => self.module is None,
            },
    {
        match &self.module {
            Some(module) => Some(self.text(&module.name)),
            None => None,
        }
    }
}

} // verus!
