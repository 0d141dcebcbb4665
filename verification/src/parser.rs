//! The parser: for each rule of the grammar, a function that reads it from
//! the source bytes and is proved to give what the rule says.
use vstd::prelude::*;
use vstd::string::StringSliceAdditionalSpecFns;

use crate::error::Error;
use crate::grammar;
use crate::grammar::{Outcome, Rule};
use crate::lexer::{
    digit_at, digits_end, has_byte, has_digit, has_keyword, has_pair, identifier_end, is_digit,
    is_digit_byte, name_end, scan_enum_value, scan_identifier, scan_keyword, scan_name,
    scan_ordinal, scan_string, scan_value, skip_trivia, trivia, AMP, COMMA, EQUAL, LANGLE, LBRACE,
    LBRACKET, LPAREN, QUESTION, RANGLE, RBRACE, RBRACKET, RPAREN, SEMICOLON,
};
use crate::syntax::{
    interface_member_views, params_wf, statement_views, struct_body_views, Const, Enum, EnumValue, Import,
    Interface, InterfaceMember, Method, Module, MojomFile, MojomFileView, Parameter, Range, Response, Statement,
    Struct, StructBody, StructField, Union, UnionField,
};

verus! {

/// Where a parse stopped, and what was expected there.
#[derive(Debug, Clone, Copy, PartialEq, Eq)]
pub struct Failure {
    pub at: usize,
    pub expected: Rule,
}

/// What a parsing function returns: the node and the offset of the next
/// token, or the failure.
pub type Parsed<T> = Result<(T, usize), Failure>;

/// `r` is the outcome `o`, the node taken by `view`.
pub open spec fn yields<T, V>(r: Parsed<T>, o: Outcome<V>, view: spec_fn(T) -> V) -> bool {
    match r {
        Ok((v, n)) => o == (Outcome::Match { value: view(v), next: n as int }),
        Err(f) => o == (Outcome::<V>::Fail { at: f.at as int, expected: f.expected }),
    }
}

/// `r` is the outcome `o`, the node taken by its view.
pub open spec fn agrees<T: View>(r: Parsed<T>, o: Outcome<T::V>) -> bool {
    yields(r, o, |v: T| v@)
}

/// Both the next offset of a match and the offset of a failure lie between
/// `pos` and the end of the text.
pub open spec fn in_text<T>(r: Parsed<T>, pos: usize, len: nat) -> bool {
    match r {
        Ok((_, n)) => pos <= n <= len,
        Err(f) => pos <= f.at <= len,
    }
}

/// A match has read at least one byte.
pub open spec fn moved<T>(r: Parsed<T>, pos: usize) -> bool {
    r matches Ok((_, n)) ==> pos < n
}

/// The end that a scanner found, as the grammar writes it.
pub open spec fn end_of(end: Option<usize>) -> Option<int> {
    match end {
        Some(e) => Some(e as int),
        None => None,
    }
}

/// Makes the token that `end` closes, and skips to the next one.
pub fn token(s: &[u8], pos: usize, end: Option<usize>, rule: Rule) -> (r: Parsed<Range>)
    requires
        pos <= s@.len(),
        end matches Some(e) ==> pos < e <= s@.len(),
    ensures
        agrees(r, grammar::token(s@, pos as int, end_of(end), rule)),
        in_text(r, pos, s@.len()),
        moved(r, pos),
        r matches Ok((v, n)) ==> v.start == pos && Some(v.end) == end && v.end <= n,
        r matches Err(f) ==> f.at == pos,
{
    match end {
        Some(e) => Ok((Range { start: pos, end: e }, trivia(s, e))),
        None => Err(Failure { at: pos, expected: rule }),
    }
}

/// Reads the one-byte token `b`.
pub fn punct(s: &[u8], pos: usize, b: u8, rule: Rule) -> (r: Parsed<()>)
    requires
        pos <= s@.len(),
    ensures
        agrees(r, grammar::punct(s@, pos as int, b, rule)),
        in_text(r, pos, s@.len()),
        moved(r, pos),
{
    if has_byte(s, pos, b) {
        Ok(((), trivia(s, pos + 1)))
    } else {
        Err(Failure { at: pos, expected: rule })
    }
}

/// Reads the keyword `word`.
pub fn keyword(s: &[u8], pos: usize, word: &str, rule: Rule) -> (r: Parsed<()>)
    requires
        pos <= s@.len(),
    ensures
        agrees(r, grammar::keyword(s@, pos as int, word, rule)),
        in_text(r, pos, s@.len()),
        moved(r, pos),
{
    match scan_keyword(s, pos, word) {
        Some(e) => Ok(((), trivia(s, e))),
        None => Err(Failure { at: pos, expected: rule }),
    }
}

/// Reads a token that may be absent.
pub fn optional(s: &[u8], pos: usize, end: Option<usize>) -> (r: (Option<Range>, usize))
    requires
        pos <= s@.len(),
        end matches Some(e) ==> pos < e <= s@.len(),
    ensures
        r.0 == grammar::optional(pos as int, end_of(end)),
        r.1 == grammar::after_optional(s@, pos as int, end_of(end)),
        pos <= r.1 <= s@.len(),
{
    match end {
        Some(e) => (Some(Range { start: pos, end: e }), trivia(s, e)),
        None => (None, pos),
    }
}

/// Reads one attribute.
pub fn attribute(s: &[u8], pos: usize) -> (r: Parsed<()>)
    requires
        pos <= s@.len(),
    ensures
        agrees(r, grammar::attribute(s@, pos as int)),
        in_text(r, pos, s@.len()),
        moved(r, pos),
{
    let (_, p) = token(s, pos, scan_name(s, pos), Rule::Attribute)?;
    if !has_byte(s, p, EQUAL) {
        return Ok(((), p));
    }
    let q = trivia(s, p + 1);
    let (_, p) = token(s, q, scan_value(s, q), Rule::Literal)?;
    Ok(((), p))
}

/// Reads the attribute section that may stand at `pos`.
pub fn attributes(s: &[u8], pos: usize) -> (r: Parsed<()>)
    requires
        pos <= s@.len(),
    ensures
        agrees(r, grammar::attributes(s@, pos as int)),
        in_text(r, pos, s@.len()),
{
    if !has_byte(s, pos, LBRACKET) {
        return Ok(((), pos));
    }
    let first = trivia(s, pos + 1);
    if has_byte(s, first, RBRACKET) {
        return Ok(((), trivia(s, first + 1)));
    }
    let mut p: usize = first;
    loop
        invariant
            pos <= p <= s@.len(),
            grammar::attributes(s@, pos as int) == grammar::attribute_list(s@, p as int),
        decreases s@.len() - p,
    {
        let (_, after) = attribute(s, p)?;
        if !has_byte(s, after, COMMA) {
            return punct(s, after, RBRACKET, Rule::RBracket);
        }
        p = trivia(s, after + 1);
    }
}

/// Reads `module a.b;` from the keyword on.
pub fn module_decl(s: &[u8], pos: usize) -> (r: Parsed<Module>)
    requires
        pos <= s@.len(),
    ensures
        agrees(r, grammar::module_decl(s@, pos as int)),
        in_text(r, pos, s@.len()),
        moved(r, pos),
        r matches Ok((v, _)) ==> v.wf(s@),
{
    let (_, p) = keyword(s, pos, "module", Rule::Module)?;
    let (name, p) = token(s, p, scan_identifier(s, p), Rule::Identifier)?;
    let (_, p) = punct(s, p, SEMICOLON, Rule::Semicolon)?;
    Ok((Module { name }, p))
}

/// Reads `import "path";` from the keyword on.
pub fn import_decl(s: &[u8], pos: usize) -> (r: Parsed<Import>)
    requires
        pos <= s@.len(),
    ensures
        agrees(r, grammar::import_decl(s@, pos as int)),
        in_text(r, pos, s@.len()),
        moved(r, pos),
        r matches Ok((v, _)) ==> v.wf(s@),
{
    let (_, p) = keyword(s, pos, "import", Rule::Import)?;
    let (path, p) = token(s, p, scan_string(s, p), Rule::StringLiteral)?;
    let (_, p) = punct(s, p, SEMICOLON, Rule::Semicolon)?;
    Ok((Import { path }, p))
}

/// A longer run of digits writes no smaller a number.
pub proof fn lemma_decimal_prefix(d: Seq<u8>, k: int)
    requires
        0 <= k <= d.len(),
    ensures
        grammar::decimal_value(d.take(k)) <= grammar::decimal_value(d),
    decreases d.len() - k,
{
    if k < d.len() {
        lemma_decimal_prefix(d.drop_last(), k);
        assert(d.drop_last().take(k) =~= d.take(k));
    } else {
        assert(d.take(k) =~= d);
    }
}

/// A run of digits ends inside the text.
pub proof fn lemma_digits_end_bounds(s: Seq<u8>, p: int)
    requires
        0 <= p <= s.len(),
    ensures
        p <= digits_end(s, p) <= s.len(),
    decreases s.len() - p,
{
    if p < s.len() && is_digit(s[p]) {
        lemma_digits_end_bounds(s, p + 1);
    }
}

/// Reads the size of a fixed array.
pub fn array_size(s: &[u8], pos: usize) -> (r: Parsed<u64>)
    requires
        pos <= s@.len(),
    ensures
        yields(r, grammar::array_size(s@, pos as int), |v: u64| v as nat),
        in_text(r, pos, s@.len()),
        moved(r, pos),
{
    if !has_digit(s, pos) {
        return Err(Failure { at: pos, expected: Rule::Integer });
    }
    let ghost end = digits_end(s@, pos as int);
    let mut v: u64 = 0;
    let mut i: usize = pos;
    while i < s.len() && is_digit_byte(s[i])
        invariant
            pos <= i <= s@.len(),
            digit_at(s@, pos as int),
            end == digits_end(s@, pos as int),
            end == digits_end(s@, i as int),
            v == grammar::decimal_value(s@.subrange(pos as int, i as int)),
        decreases s@.len() - i,
    {
        let d: u64 = (s[i] - 48) as u64;
        proof {
            lemma_digits_end_bounds(s@, i + 1);
            let upto = s@.subrange(pos as int, i + 1);
            assert(upto.drop_last() =~= s@.subrange(pos as int, i as int));
            lemma_decimal_prefix(s@.subrange(pos as int, end), i + 1 - pos);
            assert(s@.subrange(pos as int, end).take(i + 1 - pos) =~= upto);
        }
        if v > (u64::MAX - d) / 10 {
            return Err(Failure { at: pos, expected: Rule::Integer });
        }
        v = v * 10 + d;
        i += 1;
    }
    Ok((v, trivia(s, i)))
}

/// Reads `<T>` or `<T, N>` of an array. Gives the end of the `>`.
pub fn array_type(s: &[u8], pos: usize) -> (r: Parsed<usize>)
    requires
        pos <= s@.len(),
    ensures
        yields(r, grammar::base_end(grammar::array_type(s@, pos as int)), |e: usize| e as int),
        in_text(r, pos, s@.len()),
        moved(r, pos),
        r matches Ok((e, n)) ==> pos < e <= n,
    decreases s@.len() - pos, 0nat,
{
    let (_, p) = punct(s, pos, LANGLE, Rule::LAngleBracket)?;
    let (_, after) = type_spec(s, p)?;
    let close = if has_byte(s, after, COMMA) {
        let (_, p) = array_size(s, trivia(s, after + 1))?;
        p
    } else {
        after
    };
    if !has_byte(s, close, RANGLE) {
        return Err(Failure { at: close, expected: Rule::RAngleBracket });
    }
    Ok((close + 1, trivia(s, close + 1)))
}

/// Reads `<K, V>` of a map. Gives the end of the `>`.
pub fn map_type(s: &[u8], pos: usize) -> (r: Parsed<usize>)
    requires
        pos <= s@.len(),
    ensures
        yields(r, grammar::base_end(grammar::map_type(s@, pos as int)), |e: usize| e as int),
        in_text(r, pos, s@.len()),
        moved(r, pos),
        r matches Ok((e, n)) ==> pos < e <= n,
    decreases s@.len() - pos, 0nat,
{
    let (_, p) = punct(s, pos, LANGLE, Rule::LAngleBracket)?;
    let (_, p) = token(s, p, scan_identifier(s, p), Rule::Identifier)?;
    let (_, p) = punct(s, p, COMMA, Rule::Comma)?;
    let (_, close) = type_spec(s, p)?;
    if !has_byte(s, close, RANGLE) {
        return Err(Failure { at: close, expected: Rule::RAngleBracket });
    }
    Ok((close + 1, trivia(s, close + 1)))
}

/// Reads what may follow `handle`, which ends at `end`. Gives the end of
/// the type.
pub fn handle_type(s: &[u8], pos: usize, end: usize) -> (r: Parsed<usize>)
    requires
        end <= pos <= s@.len(),
    ensures
        yields(
            r,
            grammar::base_end(grammar::handle_type(s@, pos as int, end as int)),
            |e: usize| e as int,
        ),
        in_text(r, pos, s@.len()),
        r matches Ok((e, n)) ==> end <= e <= n,
{
    if !has_byte(s, pos, LANGLE) {
        return Ok((end, pos));
    }
    let q = trivia(s, pos + 1);
    let (_, close) = token(s, q, scan_name(s, q), Rule::Name)?;
    if !has_byte(s, close, RANGLE) {
        return Err(Failure { at: close, expected: Rule::RAngleBracket });
    }
    Ok((close + 1, trivia(s, close + 1)))
}

/// Reads an identifier and the `&` that may follow it. Gives the end of the
/// type.
pub fn named_type(s: &[u8], pos: usize, associated: bool) -> (r: Parsed<usize>)
    requires
        pos <= s@.len(),
    ensures
        yields(
            r,
            grammar::base_end(grammar::named_type(s@, pos as int, associated)),
            |e: usize| e as int,
        ),
        in_text(r, pos, s@.len()),
        moved(r, pos),
        r matches Ok((e, n)) ==> pos < e <= n,
        r matches Err(f) ==> f.at == pos && identifier_end(s@, pos as int) is None,
{
    let rule = if associated {
        Rule::Identifier
    } else {
        Rule::TypeSpec
    };
    let (id, p) = token(s, pos, scan_identifier(s, pos), rule)?;
    if has_byte(s, p, AMP) {
        Ok((p + 1, trivia(s, p + 1)))
    } else {
        Ok((id.end, p))
    }
}

/// Reads the name part of a type expression. Gives the end of its last
/// token.
pub fn base_type(s: &[u8], pos: usize) -> (r: Parsed<usize>)
    requires
        pos <= s@.len(),
    ensures
        yields(r, grammar::base_end(grammar::base_type(s@, pos as int)), |e: usize| e as int),
        in_text(r, pos, s@.len()),
        moved(r, pos),
        r matches Ok((e, n)) ==> pos < e <= n,
        name_end(s@, pos as int) is None ==> (r matches Err(f) && f.at == pos),
    decreases s@.len() - pos, 1nat,
{
    if let Some(e) = scan_keyword(s, pos, "array") {
        return array_type(s, trivia(s, e));
    }
    if let Some(e) = scan_keyword(s, pos, "map") {
        return map_type(s, trivia(s, e));
    }
    if let Some(e) = scan_keyword(s, pos, "handle") {
        return handle_type(s, trivia(s, e), e);
    }
    if let Some(e) = scan_keyword(s, pos, "associated") {
        return named_type(s, trivia(s, e), true);
    }
    named_type(s, pos, false)
}

/// Reads a type expression. Gives the end of its last token.
pub fn type_spec(s: &[u8], pos: usize) -> (r: Parsed<usize>)
    requires
        pos <= s@.len(),
    ensures
        yields(r, grammar::type_end(grammar::type_spec(s@, pos as int)), |e: usize| e as int),
        in_text(r, pos, s@.len()),
        moved(r, pos),
        r matches Ok((e, n)) ==> pos < e <= n,
        name_end(s@, pos as int) is None ==> (r matches Err(f) && f.at == pos),
    decreases s@.len() - pos, 2nat,
{
    let (end, p) = base_type(s, pos)?;
    if has_byte(s, p, QUESTION) {
        Ok((p + 1, trivia(s, p + 1)))
    } else {
        Ok((end, p))
    }
}

/// Reads a type expression, for its range.
pub fn type_range(s: &[u8], pos: usize) -> (r: Parsed<Range>)
    requires
        pos <= s@.len(),
    ensures
        agrees(r, grammar::type_range(s@, pos as int)),
        in_text(r, pos, s@.len()),
        moved(r, pos),
        r matches Ok((v, _)) ==> v.is_type(s@),
        name_end(s@, pos as int) is None ==> (r matches Err(f) && f.at == pos),
{
    let (end, p) = type_spec(s, pos)?;
    Ok((Range { start: pos, end }, p))
}

/// Reads `const T name = value;` from the keyword on.
pub fn const_decl(s: &[u8], pos: usize) -> (r: Parsed<Const>)
    requires
        pos <= s@.len(),
    ensures
        agrees(r, grammar::const_decl(s@, pos as int)),
        in_text(r, pos, s@.len()),
        moved(r, pos),
        r matches Ok((v, _)) ==> v.wf(s@),
{
    let (_, p) = keyword(s, pos, "const", Rule::Const)?;
    let (typ, p) = type_range(s, p)?;
    let (name, p) = token(s, p, scan_name(s, p), Rule::Name)?;
    let (_, p) = punct(s, p, EQUAL, Rule::Equal)?;
    let (value, p) = token(s, p, scan_value(s, p), Rule::Literal)?;
    let (_, p) = punct(s, p, SEMICOLON, Rule::Semicolon)?;
    Ok((Const { typ, name, value }, p))
}

/// Reads one enumerator.
pub fn enum_value(s: &[u8], pos: usize) -> (r: Parsed<EnumValue>)
    requires
        pos <= s@.len(),
    ensures
        agrees(r, grammar::enum_value(s@, pos as int)),
        in_text(r, pos, s@.len()),
        moved(r, pos),
        r matches Ok((v, _)) ==> v.wf(s@),
{
    let (_, p) = attributes(s, pos)?;
    let (name, p) = token(s, p, scan_name(s, p), Rule::EnumValue)?;
    if !has_byte(s, p, EQUAL) {
        return Ok((EnumValue { name, value: None }, p));
    }
    let q = trivia(s, p + 1);
    let (value, p) = token(s, q, scan_enum_value(s, q), Rule::Integer)?;
    Ok((EnumValue { name, value: Some(value) }, p))
}

/// Reads the enumerators of a block, from after its `{` to its `}`.
pub fn enum_values(s: &[u8], pos: usize) -> (r: Parsed<Vec<EnumValue>>)
    requires
        pos <= s@.len(),
    ensures
        agrees(r, grammar::enum_values(s@, pos as int, Seq::empty())),
        in_text(r, pos, s@.len()),
        moved(r, pos),
        r matches Ok((v, _)) ==> forall|i: int| 0 <= i < v@.len() ==> (#[trigger] v@[i]).wf(s@),
{
    let mut acc: Vec<EnumValue> = Vec::new();
    let mut p: usize = pos;
    loop
        invariant
            pos <= p <= s@.len(),
            grammar::enum_values(s@, pos as int, Seq::empty()) == grammar::enum_values(
                s@,
                p as int,
                acc@,
            ),
            forall|i: int| 0 <= i < acc@.len() ==> (#[trigger] acc@[i]).wf(s@),
        decreases s@.len() - p,
    {
        if has_byte(s, p, RBRACE) {
            return Ok((acc, trivia(s, p + 1)));
        }
        let (v, after) = enum_value(s, p)?;
        acc.push(v);
        if has_byte(s, after, RBRACE) {
            return Ok((acc, trivia(s, after + 1)));
        }
        if !has_byte(s, after, COMMA) {
            return Err(Failure { at: after, expected: Rule::RBrace });
        }
        p = trivia(s, after + 1);
    }
}

/// Reads `enum E { ... };` or `enum E;` from the keyword on.
pub fn enum_decl(s: &[u8], pos: usize) -> (r: Parsed<Enum>)
    requires
        pos <= s@.len(),
    ensures
        agrees(r, grammar::enum_decl(s@, pos as int)),
        in_text(r, pos, s@.len()),
        moved(r, pos),
        r matches Ok((v, _)) ==> v@.wf(s@),
{
    let (_, p) = keyword(s, pos, "enum", Rule::Enum)?;
    let (name, p) = token(s, p, scan_name(s, p), Rule::Name)?;
    let (values, p) = if has_byte(s, p, LBRACE) {
        enum_values(s, trivia(s, p + 1))?
    } else {
        (Vec::new(), p)
    };
    let (_, p) = punct(s, p, SEMICOLON, Rule::Semicolon)?;
    Ok((Enum { name, values }, p))
}

/// Reads `= value` where it is written.
pub fn default_value(s: &[u8], pos: usize) -> (r: Parsed<Option<Range>>)
    requires
        pos <= s@.len(),
    ensures
        agrees(r, grammar::default_value(s@, pos as int)),
        in_text(r, pos, s@.len()),
        r matches Ok((Some(v), _)) ==> v.is_value(s@),
{
    if !has_byte(s, pos, EQUAL) {
        return Ok((None, pos));
    }
    let q = trivia(s, pos + 1);
    let (value, p) = token(s, q, scan_value(s, q), Rule::Literal)?;
    Ok((Some(value), p))
}

/// Reads a field of a struct.
pub fn struct_field(s: &[u8], pos: usize) -> (r: Parsed<StructField>)
    requires
        pos <= s@.len(),
    ensures
        agrees(r, grammar::struct_field(s@, pos as int)),
        in_text(r, pos, s@.len()),
        moved(r, pos),
        r matches Ok((v, _)) ==> v.wf(s@),
{
    let (typ, p) = type_range(s, pos)?;
    let (name, p) = token(s, p, scan_name(s, p), Rule::Name)?;
    let (ordinal, p) = optional(s, p, scan_ordinal(s, p));
    let (default, p) = default_value(s, p)?;
    let (_, p) = punct(s, p, SEMICOLON, Rule::Semicolon)?;
    Ok((StructField { typ, name, ordinal, default }, p))
}

/// Reads a member of a struct body.
pub fn struct_item(s: &[u8], pos: usize) -> (r: Parsed<StructBody>)
    requires
        pos <= s@.len(),
    ensures
        agrees(r, grammar::struct_item(s@, pos as int)),
        in_text(r, pos, s@.len()),
        moved(r, pos),
        r matches Ok((v, _)) ==> v@.wf(s@),
{
    let (_, p) = attributes(s, pos)?;
    if has_keyword(s, p, "const") {
        let (c, p) = const_decl(s, p)?;
        Ok((StructBody::Const(c), p))
    } else if has_keyword(s, p, "enum") {
        let (e, p) = enum_decl(s, p)?;
        Ok((StructBody::Enum(e), p))
    } else if scan_name(s, p).is_none() {
        Err(Failure { at: p, expected: Rule::StructItem })
    } else {
        let (f, p) = struct_field(s, p)?;
        Ok((StructBody::Field(f), p))
    }
}

/// Reads the members of a struct, from after its `{` to its `}`.
pub fn struct_items(s: &[u8], pos: usize) -> (r: Parsed<Vec<StructBody>>)
    requires
        pos <= s@.len(),
    ensures
        yields(
            r,
            grammar::struct_items(s@, pos as int, Seq::empty()),
            |v: Vec<StructBody>| struct_body_views(v@),
        ),
        in_text(r, pos, s@.len()),
        moved(r, pos),
        r matches Ok((v, _)) ==> forall|i: int|
            0 <= i < v@.len() ==> (#[trigger] struct_body_views(v@)[i]).wf(s@),
{
    let mut acc: Vec<StructBody> = Vec::new();
    let mut p: usize = pos;
    assert(struct_body_views(acc@) =~= Seq::empty());
    loop
        invariant
            pos <= p <= s@.len(),
            grammar::struct_items(s@, pos as int, Seq::empty()) == grammar::struct_items(
                s@,
                p as int,
                struct_body_views(acc@),
            ),
            forall|i: int|
                0 <= i < acc@.len() ==> (#[trigger] struct_body_views(acc@)[i]).wf(s@),
        decreases s@.len() - p,
    {
        if has_byte(s, p, RBRACE) {
            return Ok((acc, trivia(s, p + 1)));
        }
        let (m, after) = struct_item(s, p)?;
        assert(struct_body_views(acc@.push(m)) =~= struct_body_views(acc@).push(m@));
        acc.push(m);
        p = after;
    }
}

/// Reads `struct S { ... };` or `struct S;` from the keyword on.
pub fn struct_decl(s: &[u8], pos: usize) -> (r: Parsed<Struct>)
    requires
        pos <= s@.len(),
    ensures
        agrees(r, grammar::struct_decl(s@, pos as int)),
        in_text(r, pos, s@.len()),
        moved(r, pos),
        r matches Ok((v, _)) ==> v@.wf(s@),
{
    let (_, p) = keyword(s, pos, "struct", Rule::Struct)?;
    let (name, p) = token(s, p, scan_name(s, p), Rule::Name)?;
    let (members, p) = if has_byte(s, p, LBRACE) {
        struct_items(s, trivia(s, p + 1))?
    } else {
        let none: Vec<StructBody> = Vec::new();
        assert(struct_body_views(none@) =~= Seq::empty());
        (none, p)
    };
    let (_, p) = punct(s, p, SEMICOLON, Rule::Semicolon)?;
    Ok((Struct { name, members }, p))
}

/// Reads a field of a union.
pub fn union_field(s: &[u8], pos: usize) -> (r: Parsed<UnionField>)
    requires
        pos <= s@.len(),
    ensures
        agrees(r, grammar::union_field(s@, pos as int)),
        in_text(r, pos, s@.len()),
        moved(r, pos),
        r matches Ok((v, _)) ==> v.wf(s@),
{
    let (_, p) = attributes(s, pos)?;
    if scan_name(s, p).is_none() {
        return Err(Failure { at: p, expected: Rule::UnionField });
    }
    let (typ, p) = type_range(s, p)?;
    let (name, p) = token(s, p, scan_name(s, p), Rule::Name)?;
    let (ordinal, p) = optional(s, p, scan_ordinal(s, p));
    let (_, p) = punct(s, p, SEMICOLON, Rule::Semicolon)?;
    Ok((UnionField { typ, name, ordinal }, p))
}

/// Reads the fields of a union, from after its `{` to its `}`.
pub fn union_fields(s: &[u8], pos: usize) -> (r: Parsed<Vec<UnionField>>)
    requires
        pos <= s@.len(),
    ensures
        agrees(r, grammar::union_fields(s@, pos as int, Seq::empty())),
        in_text(r, pos, s@.len()),
        moved(r, pos),
        r matches Ok((v, _)) ==> forall|i: int| 0 <= i < v@.len() ==> (#[trigger] v@[i]).wf(s@),
{
    let mut acc: Vec<UnionField> = Vec::new();
    let mut p: usize = pos;
    loop
        invariant
            pos <= p <= s@.len(),
            grammar::union_fields(s@, pos as int, Seq::empty()) == grammar::union_fields(
                s@,
                p as int,
                acc@,
            ),
            forall|i: int| 0 <= i < acc@.len() ==> (#[trigger] acc@[i]).wf(s@),
        decreases s@.len() - p,
    {
        if has_byte(s, p, RBRACE) {
            return Ok((acc, trivia(s, p + 1)));
        }
        let (f, after) = union_field(s, p)?;
        acc.push(f);
        p = after;
    }
}

/// Reads `union U { ... };` from the keyword on.
pub fn union_decl(s: &[u8], pos: usize) -> (r: Parsed<Union>)
    requires
        pos <= s@.len(),
    ensures
        agrees(r, grammar::union_decl(s@, pos as int)),
        in_text(r, pos, s@.len()),
        moved(r, pos),
        r matches Ok((v, _)) ==> v@.wf(s@),
{
    let (_, p) = keyword(s, pos, "union", Rule::Union)?;
    let (name, p) = token(s, p, scan_name(s, p), Rule::Name)?;
    let (_, p) = punct(s, p, LBRACE, Rule::LBrace)?;
    let (fields, p) = union_fields(s, p)?;
    let (_, p) = punct(s, p, SEMICOLON, Rule::Semicolon)?;
    Ok((Union { name, fields }, p))
}

/// Reads one parameter.
pub fn parameter(s: &[u8], pos: usize) -> (r: Parsed<Parameter>)
    requires
        pos <= s@.len(),
    ensures
        agrees(r, grammar::parameter(s@, pos as int)),
        in_text(r, pos, s@.len()),
        moved(r, pos),
        r matches Ok((v, _)) ==> v.wf(s@),
{
    let (_, p) = attributes(s, pos)?;
    if scan_name(s, p).is_none() {
        return Err(Failure { at: p, expected: Rule::Parameter });
    }
    let (typ, p) = type_range(s, p)?;
    let (name, p) = token(s, p, scan_name(s, p), Rule::Name)?;
    let (ordinal, p) = optional(s, p, scan_ordinal(s, p));
    Ok((Parameter { typ, name, ordinal }, p))
}

/// Reads `( ... )`.
pub fn parameter_list(s: &[u8], pos: usize) -> (r: Parsed<Vec<Parameter>>)
    requires
        pos <= s@.len(),
    ensures
        agrees(r, grammar::parameter_list(s@, pos as int)),
        in_text(r, pos, s@.len()),
        moved(r, pos),
        r matches Ok((v, _)) ==> params_wf(v@, s@),
{
    let (_, first) = punct(s, pos, LPAREN, Rule::LParen)?;
    let mut acc: Vec<Parameter> = Vec::new();
    let mut p: usize = first;
    loop
        invariant
            pos < first <= p <= s@.len(),
            grammar::parameter_list(s@, pos as int) == grammar::parameters(s@, p as int, acc@),
            params_wf(acc@, s@),
        decreases s@.len() - p,
    {
        if has_byte(s, p, RPAREN) {
            return Ok((acc, trivia(s, p + 1)));
        }
        let (v, after) = parameter(s, p)?;
        acc.push(v);
        if has_byte(s, after, RPAREN) {
            return Ok((acc, trivia(s, after + 1)));
        }
        if !has_byte(s, after, COMMA) {
            return Err(Failure { at: after, expected: Rule::RParen });
        }
        p = trivia(s, after + 1);
    }
}

/// The parameters of a response that may be absent.
pub open spec fn response_view(r: Option<Response>) -> Option<Seq<Parameter>> {
    match r {
        Some(r) => Some(r@),
        None => None,
    }
}

/// Reads `=> ( ... )` where it is written.
pub fn response(s: &[u8], pos: usize) -> (r: Parsed<Option<Response>>)
    requires
        pos <= s@.len(),
    ensures
        yields(r, grammar::response(s@, pos as int), |v: Option<Response>| response_view(v)),
        in_text(r, pos, s@.len()),
        r matches Ok((Some(v), _)) ==> params_wf(v@, s@),
{
    if !has_pair(s, pos, EQUAL, RANGLE) {
        return Ok((None, pos));
    }
    let (params, p) = parameter_list(s, trivia(s, pos + 2))?;
    Ok((Some(Response { params }), p))
}

/// Reads a method, from its name on.
pub fn method_decl(s: &[u8], pos: usize) -> (r: Parsed<Method>)
    requires
        pos <= s@.len(),
    ensures
        agrees(r, grammar::method_decl(s@, pos as int)),
        in_text(r, pos, s@.len()),
        moved(r, pos),
        r matches Ok((v, _)) ==> v@.wf(s@),
{
    let (name, p) = token(s, pos, scan_name(s, pos), Rule::Name)?;
    let (ordinal, p) = optional(s, p, scan_ordinal(s, p));
    let (params, p) = parameter_list(s, p)?;
    let (response, p) = response(s, p)?;
    let (_, p) = punct(s, p, SEMICOLON, Rule::Semicolon)?;
    Ok((Method { name, ordinal, params, response }, p))
}

/// Reads a member of an interface body.
pub fn interface_member(s: &[u8], pos: usize) -> (r: Parsed<InterfaceMember>)
    requires
        pos <= s@.len(),
    ensures
        agrees(r, grammar::interface_member(s@, pos as int)),
        in_text(r, pos, s@.len()),
        moved(r, pos),
        r matches Ok((v, _)) ==> v@.wf(s@),
{
    let (_, p) = attributes(s, pos)?;
    if has_keyword(s, p, "const") {
        let (c, p) = const_decl(s, p)?;
        Ok((InterfaceMember::Const(c), p))
    } else if has_keyword(s, p, "enum") {
        let (e, p) = enum_decl(s, p)?;
        Ok((InterfaceMember::Enum(e), p))
    } else if scan_name(s, p).is_none() {
        Err(Failure { at: p, expected: Rule::InterfaceBody })
    } else {
        let (m, p) = method_decl(s, p)?;
        Ok((InterfaceMember::Method(m), p))
    }
}

/// Reads the members of an interface, from after its `{` to its `}`.
pub fn interface_members(s: &[u8], pos: usize) -> (r: Parsed<Vec<InterfaceMember>>)
    requires
        pos <= s@.len(),
    ensures
        yields(
            r,
            grammar::interface_members(s@, pos as int, Seq::empty()),
            |v: Vec<InterfaceMember>| interface_member_views(v@),
        ),
        in_text(r, pos, s@.len()),
        moved(r, pos),
        r matches Ok((v, _)) ==> forall|i: int|
            0 <= i < v@.len() ==> (#[trigger] interface_member_views(v@)[i]).wf(s@),
{
    let mut acc: Vec<InterfaceMember> = Vec::new();
    let mut p: usize = pos;
    assert(interface_member_views(acc@) =~= Seq::empty());
    loop
        invariant
            pos <= p <= s@.len(),
            grammar::interface_members(s@, pos as int, Seq::empty())
                == grammar::interface_members(s@, p as int, interface_member_views(acc@)),
            forall|i: int|
                0 <= i < acc@.len() ==> (#[trigger] interface_member_views(acc@)[i]).wf(s@),
        decreases s@.len() - p,
    {
        if has_byte(s, p, RBRACE) {
            return Ok((acc, trivia(s, p + 1)));
        }
        let (m, after) = interface_member(s, p)?;
        assert(interface_member_views(acc@.push(m)) =~= interface_member_views(acc@).push(m@));
        acc.push(m);
        p = after;
    }
}

/// Reads `interface I { ... };` from the keyword on.
pub fn interface_decl(s: &[u8], pos: usize) -> (r: Parsed<Interface>)
    requires
        pos <= s@.len(),
    ensures
        agrees(r, grammar::interface_decl(s@, pos as int)),
        in_text(r, pos, s@.len()),
        moved(r, pos),
        r matches Ok((v, _)) ==> v@.wf(s@),
{
    let (_, p) = keyword(s, pos, "interface", Rule::Interface)?;
    let (name, p) = token(s, p, scan_name(s, p), Rule::Name)?;
    let (_, p) = punct(s, p, LBRACE, Rule::LBrace)?;
    let (members, p) = interface_members(s, p)?;
    let (_, p) = punct(s, p, SEMICOLON, Rule::Semicolon)?;
    Ok((Interface { name, members }, p))
}

/// Reads the statement that the keyword at `pos` starts.
pub fn declaration(s: &[u8], pos: usize) -> (r: Parsed<Statement>)
    requires
        pos <= s@.len(),
    ensures
        agrees(r, grammar::declaration(s@, pos as int)),
        in_text(r, pos, s@.len()),
        moved(r, pos),
        r matches Ok((v, _)) ==> v@.wf(s@),
{
    if has_keyword(s, pos, "module") {
        let (v, p) = module_decl(s, pos)?;
        Ok((Statement::Module(v), p))
    } else if has_keyword(s, pos, "import") {
        let (v, p) = import_decl(s, pos)?;
        Ok((Statement::Import(v), p))
    } else if has_keyword(s, pos, "interface") {
        let (v, p) = interface_decl(s, pos)?;
        Ok((Statement::Interface(v), p))
    } else if has_keyword(s, pos, "struct") {
        let (v, p) = struct_decl(s, pos)?;
        Ok((Statement::Struct(v), p))
    } else if has_keyword(s, pos, "union") {
        let (v, p) = union_decl(s, pos)?;
        Ok((Statement::Union(v), p))
    } else if has_keyword(s, pos, "enum") {
        let (v, p) = enum_decl(s, pos)?;
        Ok((Statement::Enum(v), p))
    } else if has_keyword(s, pos, "const") {
        let (v, p) = const_decl(s, pos)?;
        Ok((Statement::Const(v), p))
    } else {
        Err(Failure { at: pos, expected: Rule::Statement })
    }
}

/// Reads a statement at file scope, with its attributes.
pub fn statement(s: &[u8], pos: usize) -> (r: Parsed<Statement>)
    requires
        pos <= s@.len(),
    ensures
        agrees(r, grammar::statement(s@, pos as int)),
        in_text(r, pos, s@.len()),
        moved(r, pos),
        r matches Ok((v, _)) ==> v@.wf(s@),
{
    let (_, p) = attributes(s, pos)?;
    declaration(s, p)
}

/// Reads a whole file.
pub fn mojom_file(s: &[u8]) -> (r: Parsed<MojomFile>)
    ensures
        agrees(r, grammar::mojom_file(s@)),
        in_text(r, 0, s@.len()),
        r matches Ok((v, n)) ==> v@.wf(s@) && n == s@.len(),
{
    let first = trivia(s, 0);
    let mut stmts: Vec<Statement> = Vec::new();
    let mut p: usize = first;
    assert(statement_views(stmts@) =~= Seq::empty());
    loop
        invariant
            p <= s@.len(),
            first == skip_trivia(s@, 0),
            grammar::statements(s@, first as int, Seq::empty()) == grammar::statements(
                s@,
                p as int,
                statement_views(stmts@),
            ),
            forall|i: int|
                0 <= i < stmts@.len() ==> (#[trigger] statement_views(stmts@)[i]).wf(s@),
        decreases s@.len() - p,
    {
        if p >= s.len() {
            return Ok((MojomFile { stmts }, p));
        }
        let (t, after) = statement(s, p)?;
        assert(statement_views(stmts@.push(t)) =~= statement_views(stmts@).push(t@));
        stmts.push(t);
        p = after;
    }
}

/// Reads `module a.b;` at `pos`, with the attributes that may stand before it.
pub fn module_stmt(s: &[u8], pos: usize) -> (r: Parsed<Module>)
    requires
        pos <= s@.len(),
    ensures
        agrees(
            r,
            grammar::with_attributes(s@, pos as int, |s: Seq<u8>, q: int| grammar::module_decl(s, q)),
        ),
        in_text(r, pos, s@.len()),
        moved(r, pos),
        r matches Ok((v, _)) ==> v.wf(s@),
{
    let (_, p) = attributes(s, pos)?;
    module_decl(s, p)
}

/// Reads `import "path";` at `pos`, with the attributes that may stand before it.
pub fn import_stmt(s: &[u8], pos: usize) -> (r: Parsed<Import>)
    requires
        pos <= s@.len(),
    ensures
        agrees(
            r,
            grammar::with_attributes(s@, pos as int, |s: Seq<u8>, q: int| grammar::import_decl(s, q)),
        ),
        in_text(r, pos, s@.len()),
        moved(r, pos),
        r matches Ok((v, _)) ==> v.wf(s@),
{
    let (_, p) = attributes(s, pos)?;
    import_decl(s, p)
}

/// Reads a constant at `pos`, with the attributes that may stand before it.
pub fn const_stmt(s: &[u8], pos: usize) -> (r: Parsed<Const>)
    requires
        pos <= s@.len(),
    ensures
        agrees(
            r,
            grammar::with_attributes(s@, pos as int, |s: Seq<u8>, q: int| grammar::const_decl(s, q)),
        ),
        in_text(r, pos, s@.len()),
        moved(r, pos),
        r matches Ok((v, _)) ==> v.wf(s@),
{
    let (_, p) = attributes(s, pos)?;
    const_decl(s, p)
}

/// Reads an enum at `pos`, with the attributes that may stand before it.
pub fn enum_stmt(s: &[u8], pos: usize) -> (r: Parsed<Enum>)
    requires
        pos <= s@.len(),
    ensures
        agrees(
            r,
            grammar::with_attributes(s@, pos as int, |s: Seq<u8>, q: int| grammar::enum_decl(s, q)),
        ),
        in_text(r, pos, s@.len()),
        moved(r, pos),
        r matches Ok((v, _)) ==> v@.wf(s@),
{
    let (_, p) = attributes(s, pos)?;
    enum_decl(s, p)
}

/// Reads a struct at `pos`, with the attributes that may stand before it.
pub fn struct_stmt(s: &[u8], pos: usize) -> (r: Parsed<Struct>)
    requires
        pos <= s@.len(),
    ensures
        agrees(
            r,
            grammar::with_attributes(s@, pos as int, |s: Seq<u8>, q: int| grammar::struct_decl(s, q)),
        ),
        in_text(r, pos, s@.len()),
        moved(r, pos),
        r matches Ok((v, _)) ==> v@.wf(s@),
{
    let (_, p) = attributes(s, pos)?;
    struct_decl(s, p)
}

/// Reads a union at `pos`, with the attributes that may stand before it.
pub fn union_stmt(s: &[u8], pos: usize) -> (r: Parsed<Union>)
    requires
        pos <= s@.len(),
    ensures
        agrees(
            r,
            grammar::with_attributes(s@, pos as int, |s: Seq<u8>, q: int| grammar::union_decl(s, q)),
        ),
        in_text(r, pos, s@.len()),
        moved(r, pos),
        r matches Ok((v, _)) ==> v@.wf(s@),
{
    let (_, p) = attributes(s, pos)?;
    union_decl(s, p)
}

/// Reads a method at `pos`, with the attributes that may stand before it.
pub fn method_stmt(s: &[u8], pos: usize) -> (r: Parsed<Method>)
    requires
        pos <= s@.len(),
    ensures
        agrees(
            r,
            grammar::with_attributes(s@, pos as int, |s: Seq<u8>, q: int| grammar::method_decl(s, q)),
        ),
        in_text(r, pos, s@.len()),
        moved(r, pos),
        r matches Ok((v, _)) ==> v@.wf(s@),
{
    let (_, p) = attributes(s, pos)?;
    method_decl(s, p)
}

/// Reads an interface at `pos`, with the attributes that may stand before it.
pub fn interface_stmt(s: &[u8], pos: usize) -> (r: Parsed<Interface>)
    requires
        pos <= s@.len(),
    ensures
        agrees(
            r,
            grammar::with_attributes(s@, pos as int, |s: Seq<u8>, q: int| grammar::interface_decl(s, q)),
        ),
        in_text(r, pos, s@.len()),
        moved(r, pos),
        r matches Ok((v, _)) ==> v@.wf(s@),
{
    let (_, p) = attributes(s, pos)?;
    interface_decl(s, p)
}

/// What `parse` gives for the bytes `s`: the tree of the file, or the error
/// at the first token that does not fit.
#[verifier::opaque]
pub open spec fn parse_result(s: Seq<u8>) -> Result<MojomFileView, Error> {
    match grammar::mojom_file(s) {
        Outcome::Match { value, next } => Ok(value),
        Outcome::Fail { at, expected } => Err(Error::point(s, at, expected)),
    }
}

/// Parses the bytes of a Mojom file into its tree.
pub fn parse_bytes(s: &[u8]) -> (r: Result<MojomFile, Error>)
    ensures
        match r {
            Ok(f) => parse_result(s@) == Ok::<MojomFileView, Error>(f@) && f@.wf(s@),
            Err(e) => parse_result(s@) == Err::<MojomFileView, Error>(e) && e.offset <= s@.len(),
        },
{
    reveal(parse_result);
    match mojom_file(s) {
        Ok((file, _)) => Ok(file),
        Err(f) => Err(Error::at_offset(s, f.at, f.expected)),
    }
}

/// Parses `input` into a syntax tree.
///
/// The tree is the one that the grammar gives for the bytes of `input`;
/// every range in it is non-empty and inside the input, and every name range
/// covers exactly a name. Where the input is not a Mojom file, the error
/// is at the first token that does not fit.
pub fn parse(input: &str) -> (r: Result<MojomFile, Error>)
    ensures
        match r {
            Ok(f) => parse_result(input.spec_bytes()) == Ok::<MojomFileView, Error>(f@) && f@.wf(
                input.spec_bytes(),
            ),
            Err(e) => parse_result(input.spec_bytes()) == Err::<MojomFileView, Error>(e)
                && e.offset <= input.spec_bytes().len(),
        },
{
    parse_bytes(input.as_bytes())
}

} // verus!
