//! Type expressions: the tree that `typespec` builds from the text of a
//! parameter's or a field's type.
use vstd::prelude::*;
use vstd::string::StringSliceAdditionalSpecFns;
use vstd::utf8::encode_utf8;

use crate::error::Error;
use crate::grammar;
use crate::grammar::{Outcome, Rule, TypeMatch, TypeNameMatch};
use crate::lexer::{
    has_byte, identifier_end, name_end, scan_identifier, scan_keyword, scan_name, trivia, AMP,
    COMMA, LANGLE, QUESTION, RANGLE,
};
use crate::parser::{array_size, in_text, moved, punct, token, yields, Failure, Parsed};
use crate::syntax::Range;
use crate::text::{
    lemma_ascii_range_boundaries, lemma_identifier_ascii, lemma_name_ascii, substring,
};

verus! {

/// The name part of a type expression.
#[derive(Debug, PartialEq)]
pub enum TypeName {
    /// `array<T, N>`
    FixedArray(Box<TypeSpec>, u64),
    /// `array<T>`
    Array(Box<TypeSpec>),
    /// `map<K, V>`
    MapOf(String, Box<TypeSpec>),
    /// `I&` or `associated I&`; the flag tells which.
    InterfaceRequest(String, bool),
    /// `handle` or `handle<kind>`
    Handle(Option<String>),
    /// `associated I`
    Associated(String),
    /// A primitive or a declared type.
    BasicTypeName(String),
}

/// A type expression: its name and whether a `?` follows it.
#[derive(Debug, PartialEq)]
pub struct TypeSpec {
    pub name: TypeName,
    pub is_nullable: bool,
}

/// `TypeName` with each identifier as the bytes of its text.
pub enum TypeNameView {
    FixedArray(Box<TypeSpecView>, nat),
    Array(Box<TypeSpecView>),
    MapOf(Seq<u8>, Box<TypeSpecView>),
    InterfaceRequest(Seq<u8>, bool),
    Handle(Option<Seq<u8>>),
    Associated(Seq<u8>),
    BasicTypeName(Seq<u8>),
}

pub struct TypeSpecView {
    pub name: TypeNameView,
    pub is_nullable: bool,
}

/// The view of a type name.
pub open spec fn name_view(n: TypeName) -> TypeNameView
    decreases n,
{
    match n {
        TypeName::FixedArray(t, size) => TypeNameView::FixedArray(
            Box::new(spec_view(*t)),
            size as nat,
        ),
        TypeName::Array(t) => TypeNameView::Array(Box::new(spec_view(*t))),
        TypeName::MapOf(k, v) => TypeNameView::MapOf(encode_utf8(k@), Box::new(spec_view(*v))),
        TypeName::InterfaceRequest(i, a) => TypeNameView::InterfaceRequest(encode_utf8(i@), a),
        TypeName::Handle(Some(h)) => TypeNameView::Handle(Some(encode_utf8(h@))),
        TypeName::Handle(None) => TypeNameView::Handle(None),
        TypeName::Associated(i) => TypeNameView::Associated(encode_utf8(i@)),
        TypeName::BasicTypeName(i) => TypeNameView::BasicTypeName(encode_utf8(i@)),
    }
}

/// The view of a type expression.
pub open spec fn spec_view(t: TypeSpec) -> TypeSpecView
    decreases t,
{
    TypeSpecView { name: name_view(t.name), is_nullable: t.is_nullable }
}

impl View for TypeName {
    type V = TypeNameView;

    open spec fn view(&self) -> TypeNameView {
        name_view(*self)
    }
}

impl View for TypeSpec {
    type V = TypeSpecView;

    open spec fn view(&self) -> TypeSpecView {
        spec_view(*self)
    }
}

/// A type name with the end of its last token, as the grammar gives them.
pub open spec fn name_match(t: (TypeName, usize)) -> TypeNameMatch {
    TypeNameMatch { tree: t.0@, end: t.1 as int }
}

/// A type expression with the end of its last token, as the grammar gives
/// them.
pub open spec fn tree_match(t: (TypeSpec, usize)) -> TypeMatch {
    TypeMatch { tree: t.0@, end: t.1 as int }
}

/// Copies out the text of an identifier or a name that `r` covers.
fn token_text(text: &str, r: Range) -> (res: String)
    requires
        identifier_end(text.spec_bytes(), r.start as int) == Some(r.end as int) || name_end(
            text.spec_bytes(),
            r.start as int,
        ) == Some(r.end as int),
    ensures
        encode_utf8(res@) == r.of(text.spec_bytes()),
{
    broadcast use vstd::utf8::encode_utf8_valid_utf8;

    proof {
        let bytes = text.spec_bytes();
        if identifier_end(bytes, r.start as int) == Some(r.end as int) {
            lemma_identifier_ascii(bytes, r.start as int);
        } else {
            lemma_name_ascii(bytes, r.start as int);
        }
        lemma_ascii_range_boundaries(bytes, r.start as int, r.end as int);
    }
    substring(text, r.start, r.end).to_owned()
}

/// Builds `array<T>` or `array<T, N>` from the `<` on.
fn array_tree(text: &str, pos: usize) -> (r: Parsed<(TypeName, usize)>)
    requires
        pos <= text.spec_bytes().len(),
    ensures
        yields(
            r,
            grammar::array_type(text.spec_bytes(), pos as int),
            |t: (TypeName, usize)| name_match(t),
        ),
        in_text(r, pos, text.spec_bytes().len()),
        moved(r, pos),
    decreases text.spec_bytes().len() - pos, 0nat,
{
    let s = text.as_bytes();
    let (_, p) = punct(s, pos, LANGLE, Rule::LAngleBracket)?;
    let ((elem, _), after) = type_tree(text, p)?;
    if has_byte(s, after, COMMA) {
        let (size, close) = array_size(s, trivia(s, after + 1))?;
        if !has_byte(s, close, RANGLE) {
            return Err(Failure { at: close, expected: Rule::RAngleBracket });
        }
        Ok(((TypeName::FixedArray(Box::new(elem), size), close + 1), trivia(s, close + 1)))
    } else {
        if !has_byte(s, after, RANGLE) {
            return Err(Failure { at: after, expected: Rule::RAngleBracket });
        }
        Ok(((TypeName::Array(Box::new(elem)), after + 1), trivia(s, after + 1)))
    }
}

/// Builds `map<K, V>` from the `<` on.
fn map_tree(text: &str, pos: usize) -> (r: Parsed<(TypeName, usize)>)
    requires
        pos <= text.spec_bytes().len(),
    ensures
        yields(
            r,
            grammar::map_type(text.spec_bytes(), pos as int),
            |t: (TypeName, usize)| name_match(t),
        ),
        in_text(r, pos, text.spec_bytes().len()),
        moved(r, pos),
    decreases text.spec_bytes().len() - pos, 0nat,
{
    let s = text.as_bytes();
    let (_, p) = punct(s, pos, LANGLE, Rule::LAngleBracket)?;
    let (key, p) = token(s, p, scan_identifier(s, p), Rule::Identifier)?;
    let (_, p) = punct(s, p, COMMA, Rule::Comma)?;
    let ((value, _), close) = type_tree(text, p)?;
    if !has_byte(s, close, RANGLE) {
        return Err(Failure { at: close, expected: Rule::RAngleBracket });
    }
    Ok(((TypeName::MapOf(token_text(text, key), Box::new(value)), close + 1), trivia(s, close + 1)))
}

/// Builds what may follow `handle`, which ends at `end`.
fn handle_tree(text: &str, pos: usize, end: usize) -> (r: Parsed<(TypeName, usize)>)
    requires
        end <= pos <= text.spec_bytes().len(),
    ensures
        yields(
            r,
            grammar::handle_type(text.spec_bytes(), pos as int, end as int),
            |t: (TypeName, usize)| name_match(t),
        ),
        in_text(r, pos, text.spec_bytes().len()),
{
    let s = text.as_bytes();
    if !has_byte(s, pos, LANGLE) {
        return Ok(((TypeName::Handle(None), end), pos));
    }
    let q = trivia(s, pos + 1);
    let (kind, close) = token(s, q, scan_name(s, q), Rule::Name)?;
    if !has_byte(s, close, RANGLE) {
        return Err(Failure { at: close, expected: Rule::RAngleBracket });
    }
    Ok(((TypeName::Handle(Some(token_text(text, kind))), close + 1), trivia(s, close + 1)))
}

/// Builds the type that an identifier stands for, with the `&` that may
/// follow it.
fn named_tree(text: &str, pos: usize, associated: bool) -> (r: Parsed<(TypeName, usize)>)
    requires
        pos <= text.spec_bytes().len(),
    ensures
        yields(
            r,
            grammar::named_type(text.spec_bytes(), pos as int, associated),
            |t: (TypeName, usize)| name_match(t),
        ),
        in_text(r, pos, text.spec_bytes().len()),
        moved(r, pos),
{
    let s = text.as_bytes();
    let rule = if associated {
        Rule::Identifier
    } else {
        Rule::TypeSpec
    };
    let (id, p) = token(s, pos, scan_identifier(s, pos), rule)?;
    let ident = token_text(text, id);
    if has_byte(s, p, AMP) {
        Ok(((TypeName::InterfaceRequest(ident, associated), p + 1), trivia(s, p + 1)))
    } else if associated {
        Ok(((TypeName::Associated(ident), id.end), p))
    } else {
        Ok(((TypeName::BasicTypeName(ident), id.end), p))
    }
}

/// Builds the name part of a type expression.
fn base_tree(text: &str, pos: usize) -> (r: Parsed<(TypeName, usize)>)
    requires
        pos <= text.spec_bytes().len(),
    ensures
        yields(
            r,
            grammar::base_type(text.spec_bytes(), pos as int),
            |t: (TypeName, usize)| name_match(t),
        ),
        in_text(r, pos, text.spec_bytes().len()),
        moved(r, pos),
    decreases text.spec_bytes().len() - pos, 1nat,
{
    let s = text.as_bytes();
    if let Some(e) = scan_keyword(s, pos, "array") {
        return array_tree(text, trivia(s, e));
    }
    if let Some(e) = scan_keyword(s, pos, "map") {
        return map_tree(text, trivia(s, e));
    }
    if let Some(e) = scan_keyword(s, pos, "handle") {
        return handle_tree(text, trivia(s, e), e);
    }
    if let Some(e) = scan_keyword(s, pos, "associated") {
        return named_tree(text, trivia(s, e), true);
    }
    named_tree(text, pos, false)
}

/// Builds the type expression that starts at `pos` of `text`.
fn type_tree(text: &str, pos: usize) -> (r: Parsed<(TypeSpec, usize)>)
    requires
        pos <= text.spec_bytes().len(),
    ensures
        yields(
            r,
            grammar::type_spec(text.spec_bytes(), pos as int),
            |t: (TypeSpec, usize)| tree_match(t),
        ),
        in_text(r, pos, text.spec_bytes().len()),
        moved(r, pos),
    decreases text.spec_bytes().len() - pos, 2nat,
{
    let s = text.as_bytes();
    let ((name, end), p) = base_tree(text, pos)?;
    if has_byte(s, p, QUESTION) {
        Ok(((TypeSpec { name, is_nullable: true }, p + 1), trivia(s, p + 1)))
    } else {
        Ok(((TypeSpec { name, is_nullable: false }, end), p))
    }
}

/// What `typespec` gives for the bytes `s`: the tree of the type expression
/// that starts `s`, or the error at the first token that does not fit.
pub open spec fn typespec_result(s: Seq<u8>) -> Result<TypeSpecView, Error> {
    match grammar::type_spec(s, 0) {
        Outcome::Match { value, next } => Ok(value.tree),
        Outcome::Fail { at, expected } => Err(Error::point(s, at, expected)),
    }
}

/// Parses the type expression that `input` starts with: a primitive or
/// declared type, `handle` or `handle<kind>`, `array<T>`, `array<T, N>`,
/// `map<K, V>`, `associated I`, `I&`, `associated I&`, each with a `?` after
/// it where the type is nullable.
///
/// Nothing may stand before the expression; what follows it is not read.
pub fn typespec(input: &str) -> (r: Result<TypeSpec, Error>)
    ensures
        match r {
            Ok(t) => typespec_result(input.spec_bytes()) == Ok::<TypeSpecView, Error>(t@),
            Err(e) => typespec_result(input.spec_bytes()) == Err::<TypeSpecView, Error>(e),
        },
{
    match type_tree(input, 0) {
        Ok(((tree, _), _)) => Ok(tree),
        Err(f) => Err(Error::at_offset(input.as_bytes(), f.at, f.expected)),
    }
}

} // verus!
