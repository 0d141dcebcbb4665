//! The Mojom grammar, as functions of the source bytes.
//!
//! Each rule takes the bytes `s` and the offset `p` at which its first token
//! must start, and gives an [`Outcome`]: the node it stands for and the
//! offset of the next token (white space and comments after the rule are
//! skipped), or the offset at which no token fits and the rule that was
//! expected there. Nothing is retried: the first unexpected token ends the
//! parse.
//!
//! Repetitions are written with an accumulator: `rest(s, p, acc)` is the
//! outcome of the whole list when `acc` has been read and `p` comes next.
use vstd::prelude::*;
use vstd::string::StringSliceAdditionalSpecFns;

use crate::lexer::{
    byte_at, digit_at, digits_end, enum_value_end, identifier_end, keyword_at, name_end,
    ordinal_end, pair_at, skip_trivia, string_end, value_end, AMP, COMMA, EQUAL, LANGLE, LBRACE,
    LBRACKET, LPAREN, QUESTION, RANGLE, RBRACE, RBRACKET, RPAREN, SEMICOLON,
};
use crate::syntax::{
    Const, EnumValue, EnumView, Import, InterfaceMemberView, InterfaceView, MethodView, Module,
    MojomFileView, Parameter, Range, StatementView, StructBodyView, StructField, StructView,
    UnionField, UnionView,
};
use crate::typespec::{TypeNameView, TypeSpecView};

verus! {

/// What the parser can expect at an offset.
#[derive(Debug, Clone, Copy, PartialEq, Eq)]
pub enum Rule {
    EndOfInput,
    Statement,
    Module,
    Import,
    Struct,
    Interface,
    Union,
    Const,
    Enum,
    Array,
    MapOf,
    Comma,
    Semicolon,
    Equal,
    Arrow,
    LParen,
    RParen,
    LBrace,
    RBrace,
    LBracket,
    RBracket,
    LAngleBracket,
    RAngleBracket,
    Name,
    Identifier,
    StringLiteral,
    Integer,
    Literal,
    TypeSpec,
    Attribute,
    InterfaceBody,
    StructItem,
    UnionField,
    EnumValue,
    Parameter,
}

/// What a rule gives at an offset.
pub enum Outcome<T> {
    /// The rule matches: its value, and the offset of the next token.
    Match { value: T, next: int },
    /// No token fits at `at`, where `expected` was looked for.
    Fail { at: int, expected: Rule },
}

impl<T> Outcome<T> {
    /// The same failure, for a rule with another value.
    pub open spec fn fail<U>(self) -> Outcome<U>
        recommends
            self is Fail,
    {
        Outcome::Fail { at: self->at, expected: self->expected }
    }
}

/// The range from `start` up to `end`.
pub open spec fn span(start: int, end: int) -> Range {
    Range { start: start as usize, end: end as usize }
}

/// A token at `p` that ends at `end`, or a failure that names `rule`.
pub open spec fn token(s: Seq<u8>, p: int, end: Option<int>, rule: Rule) -> Outcome<Range> {
    match end {
        Some(e) => Outcome::Match { value: span(p, e), next: skip_trivia(s, e) },
        None => Outcome::Fail { at: p, expected: rule },
    }
}

/// The one-byte token `b` at `p`.
pub open spec fn punct(s: Seq<u8>, p: int, b: u8, rule: Rule) -> Outcome<()> {
    if byte_at(s, p, b) {
        Outcome::Match { value: (), next: skip_trivia(s, p + 1) }
    } else {
        Outcome::Fail { at: p, expected: rule }
    }
}

/// The keyword `word` at `p`: a whole name, not the start of a longer one.
pub open spec fn keyword(s: Seq<u8>, p: int, word: &str, rule: Rule) -> Outcome<()> {
    if keyword_at(s, p, word.spec_bytes()) {
        Outcome::Match { value: (), next: skip_trivia(s, p + word.spec_bytes().len()) }
    } else {
        Outcome::Fail { at: p, expected: rule }
    }
}

/// A token that may be absent: its range where it is there.
pub open spec fn optional(p: int, end: Option<int>) -> Option<Range> {
    match end {
        Some(e) => Some(span(p, e)),
        None => None,
    }
}

/// The offset of the next token after a token that may be absent.
pub open spec fn after_optional(s: Seq<u8>, p: int, end: Option<int>) -> int {
    match end {
        Some(e) => skip_trivia(s, e),
        None => p,
    }
}

/// One attribute: a name, and `=` with a value where one is given.
pub open spec fn attribute(s: Seq<u8>, p: int) -> Outcome<()> {
    let name = token(s, p, name_end(s, p), Rule::Attribute);
    let q = skip_trivia(s, name->next + 1);
    let value = token(s, q, value_end(s, q), Rule::Literal);
    if name is Fail {
        name.fail()
    } else if !byte_at(s, name->next, EQUAL) {
        Outcome::Match { value: (), next: name->next }
    } else if value is Fail {
        value.fail()
    } else {
        Outcome::Match { value: (), next: value->next }
    }
}

/// The attributes from `p` on, separated by commas, and the closing `]`.
pub open spec fn attribute_list(s: Seq<u8>, p: int) -> Outcome<()>
    decreases s.len() - p,
{
    let a = attribute(s, p);
    let q = skip_trivia(s, a->next + 1);
    if a is Fail {
        a.fail()
    } else if !byte_at(s, a->next, COMMA) {
        punct(s, a->next, RBRACKET, Rule::RBracket)
    } else if p < q <= s.len() {
        attribute_list(s, q)
    } else {
        Outcome::Fail { at: q, expected: Rule::Attribute }
    }
}

/// The attribute section that a rule may start with: `[`, attributes
/// separated by commas, `]`. It stands for nothing in the tree.
pub open spec fn attributes(s: Seq<u8>, p: int) -> Outcome<()> {
    let q = skip_trivia(s, p + 1);
    if !byte_at(s, p, LBRACKET) {
        Outcome::Match { value: (), next: p }
    } else if byte_at(s, q, RBRACKET) {
        Outcome::Match { value: (), next: skip_trivia(s, q + 1) }
    } else {
        attribute_list(s, q)
    }
}

/// The number that the decimal digits `d` write.
pub open spec fn decimal_value(d: Seq<u8>) -> nat
    decreases d.len(),
{
    if d.len() == 0 {
        0
    } else {
        decimal_value(d.drop_last()) * 10 + (d.last() - 48) as nat
    }
}

/// The size of a fixed array: decimal digits whose number fits 64 bits.
pub open spec fn array_size(s: Seq<u8>, p: int) -> Outcome<nat> {
    let e = digits_end(s, p);
    let n = decimal_value(s.subrange(p, e));
    if digit_at(s, p) && n <= u64::MAX {
        Outcome::Match { value: n, next: skip_trivia(s, e) }
    } else {
        Outcome::Fail { at: p, expected: Rule::Integer }
    }
}

/// A type expression that was matched: its tree, and where its last token
/// ends.
pub struct TypeMatch {
    pub tree: TypeSpecView,
    pub end: int,
}

/// The name part of a type expression that was matched.
pub struct TypeNameMatch {
    pub tree: TypeNameView,
    pub end: int,
}

/// `array<T>` or `array<T, N>`, from the `<` on.
pub open spec fn array_type(s: Seq<u8>, p: int) -> Outcome<TypeNameMatch>
    decreases s.len() - p, 0nat,
{
    let open = punct(s, p, LANGLE, Rule::LAngleBracket);
    let elem = if p < open->next <= s.len() {
        type_spec(s, open->next)
    } else {
        Outcome::Fail { at: open->next, expected: Rule::TypeSpec }
    };
    let sized = byte_at(s, elem->next, COMMA);
    let size = array_size(s, skip_trivia(s, elem->next + 1));
    let close = if sized {
        size->next
    } else {
        elem->next
    };
    if open is Fail {
        open.fail()
    } else if elem is Fail {
        elem.fail()
    } else if sized && size is Fail {
        size.fail()
    } else if !byte_at(s, close, RANGLE) {
        Outcome::Fail { at: close, expected: Rule::RAngleBracket }
    } else {
        Outcome::Match {
            value: TypeNameMatch {
                tree: if sized {
                    TypeNameView::FixedArray(Box::new(elem->value.tree), size->value)
                } else {
                    TypeNameView::Array(Box::new(elem->value.tree))
                },
                end: close + 1,
            },
            next: skip_trivia(s, close + 1),
        }
    }
}

/// `map<K, V>`, from the `<` on.
pub open spec fn map_type(s: Seq<u8>, p: int) -> Outcome<TypeNameMatch>
    decreases s.len() - p, 0nat,
{
    let open = punct(s, p, LANGLE, Rule::LAngleBracket);
    let key = token(s, open->next, identifier_end(s, open->next), Rule::Identifier);
    let comma = punct(s, key->next, COMMA, Rule::Comma);
    let value = if p < comma->next <= s.len() {
        type_spec(s, comma->next)
    } else {
        Outcome::Fail { at: comma->next, expected: Rule::TypeSpec }
    };
    if open is Fail {
        open.fail()
    } else if key is Fail {
        key.fail()
    } else if comma is Fail {
        comma.fail()
    } else if value is Fail {
        value.fail()
    } else if !byte_at(s, value->next, RANGLE) {
        Outcome::Fail { at: value->next, expected: Rule::RAngleBracket }
    } else {
        Outcome::Match {
            value: TypeNameMatch {
                tree: TypeNameView::MapOf(key->value.of(s), Box::new(value->value.tree)),
                end: value->next + 1,
            },
            next: skip_trivia(s, value->next + 1),
        }
    }
}

/// `handle` or `handle<kind>`, from what follows the keyword on. The keyword
/// ends at `end`.
pub open spec fn handle_type(s: Seq<u8>, p: int, end: int) -> Outcome<TypeNameMatch> {
    let q = skip_trivia(s, p + 1);
    let kind = token(s, q, name_end(s, q), Rule::Name);
    if !byte_at(s, p, LANGLE) {
        Outcome::Match {
            value: TypeNameMatch { tree: TypeNameView::Handle(None), end },
            next: p,
        }
    } else if kind is Fail {
        kind.fail()
    } else if !byte_at(s, kind->next, RANGLE) {
        Outcome::Fail { at: kind->next, expected: Rule::RAngleBracket }
    } else {
        Outcome::Match {
            value: TypeNameMatch {
                tree: TypeNameView::Handle(Some(kind->value.of(s))),
                end: kind->next + 1,
            },
            next: skip_trivia(s, kind->next + 1),
        }
    }
}

/// An identifier at `p`, after `associated` or not. With `&` after it, it
/// is a request for the interface; without, the associated interface or
/// the named type itself.
pub open spec fn named_type(s: Seq<u8>, p: int, associated: bool) -> Outcome<TypeNameMatch> {
    let id = token(s, p, identifier_end(s, p), if associated {
        Rule::Identifier
    } else {
        Rule::TypeSpec
    });
    if id is Fail {
        id.fail()
    } else if byte_at(s, id->next, AMP) {
        Outcome::Match {
            value: TypeNameMatch {
                tree: TypeNameView::InterfaceRequest(id->value.of(s), associated),
                end: id->next + 1,
            },
            next: skip_trivia(s, id->next + 1),
        }
    } else {
        Outcome::Match {
            value: TypeNameMatch {
                tree: if associated {
                    TypeNameView::Associated(id->value.of(s))
                } else {
                    TypeNameView::BasicTypeName(id->value.of(s))
                },
                end: id->value.end as int,
            },
            next: id->next,
        }
    }
}

/// The name part of a type expression.
pub open spec fn base_type(s: Seq<u8>, p: int) -> Outcome<TypeNameMatch>
    decreases s.len() - p, 1nat,
{
    let array = keyword(s, p, "array", Rule::Array);
    let map = keyword(s, p, "map", Rule::MapOf);
    let handle = keyword(s, p, "handle", Rule::TypeSpec);
    let associated = keyword(s, p, "associated", Rule::TypeSpec);
    if array is Match {
        if p < array->next <= s.len() {
            array_type(s, array->next)
        } else {
            Outcome::Fail { at: array->next, expected: Rule::LAngleBracket }
        }
    } else if map is Match {
        if p < map->next <= s.len() {
            map_type(s, map->next)
        } else {
            Outcome::Fail { at: map->next, expected: Rule::LAngleBracket }
        }
    } else if handle is Match {
        handle_type(s, handle->next, p + "handle".spec_bytes().len())
    } else if associated is Match {
        named_type(s, associated->next, true)
    } else {
        named_type(s, p, false)
    }
}

/// A type expression: a type name, and `?` where the type is nullable.
pub open spec fn type_spec(s: Seq<u8>, p: int) -> Outcome<TypeMatch>
    decreases s.len() - p, 2nat,
{
    let name = base_type(s, p);
    if name is Fail {
        name.fail()
    } else if byte_at(s, name->next, QUESTION) {
        Outcome::Match {
            value: TypeMatch {
                tree: TypeSpecView { name: name->value.tree, is_nullable: true },
                end: name->next + 1,
            },
            next: skip_trivia(s, name->next + 1),
        }
    } else {
        Outcome::Match {
            value: TypeMatch {
                tree: TypeSpecView { name: name->value.tree, is_nullable: false },
                end: name->value.end,
            },
            next: name->next,
        }
    }
}

/// Where the last token of a type expression ends, in place of its tree.
pub open spec fn type_end(o: Outcome<TypeMatch>) -> Outcome<int> {
    match o {
        Outcome::Match { value, next } => Outcome::Match { value: value.end, next },
        Outcome::Fail { at, expected } => Outcome::Fail { at, expected },
    }
}

/// Where the last token of a type name ends, in place of its tree.
pub open spec fn base_end(o: Outcome<TypeNameMatch>) -> Outcome<int> {
    match o {
        Outcome::Match { value, next } => Outcome::Match { value: value.end, next },
        Outcome::Fail { at, expected } => Outcome::Fail { at, expected },
    }
}

/// The range that the type expression at `p` covers.
pub open spec fn type_range(s: Seq<u8>, p: int) -> Outcome<Range> {
    let t = type_spec(s, p);
    if t is Fail {
        t.fail()
    } else {
        Outcome::Match { value: span(p, t->value.end), next: t->next }
    }
}

/// `module a.b;`
pub open spec fn module_decl(s: Seq<u8>, p: int) -> Outcome<Module> {
    let kw = keyword(s, p, "module", Rule::Module);
    let name = token(s, kw->next, identifier_end(s, kw->next), Rule::Identifier);
    let semi = punct(s, name->next, SEMICOLON, Rule::Semicolon);
    if kw is Fail {
        kw.fail()
    } else if name is Fail {
        name.fail()
    } else if semi is Fail {
        semi.fail()
    } else {
        Outcome::Match { value: Module { name: name->value }, next: semi->next }
    }
}

/// `import "path";`
pub open spec fn import_decl(s: Seq<u8>, p: int) -> Outcome<Import> {
    let kw = keyword(s, p, "import", Rule::Import);
    let path = token(s, kw->next, string_end(s, kw->next), Rule::StringLiteral);
    let semi = punct(s, path->next, SEMICOLON, Rule::Semicolon);
    if kw is Fail {
        kw.fail()
    } else if path is Fail {
        path.fail()
    } else if semi is Fail {
        semi.fail()
    } else {
        Outcome::Match { value: Import { path: path->value }, next: semi->next }
    }
}

/// `const T name = value;`
pub open spec fn const_decl(s: Seq<u8>, p: int) -> Outcome<Const> {
    let kw = keyword(s, p, "const", Rule::Const);
    let typ = type_range(s, kw->next);
    let name = token(s, typ->next, name_end(s, typ->next), Rule::Name);
    let eq = punct(s, name->next, EQUAL, Rule::Equal);
    let value = token(s, eq->next, value_end(s, eq->next), Rule::Literal);
    let semi = punct(s, value->next, SEMICOLON, Rule::Semicolon);
    if kw is Fail {
        kw.fail()
    } else if typ is Fail {
        typ.fail()
    } else if name is Fail {
        name.fail()
    } else if eq is Fail {
        eq.fail()
    } else if value is Fail {
        value.fail()
    } else if semi is Fail {
        semi.fail()
    } else {
        Outcome::Match {
            value: Const { typ: typ->value, name: name->value, value: value->value },
            next: semi->next,
        }
    }
}

/// One enumerator: attributes, a name, and `=` with an integer or an
/// identifier where a value is given.
pub open spec fn enum_value(s: Seq<u8>, p: int) -> Outcome<EnumValue> {
    let attrs = attributes(s, p);
    let name = token(s, attrs->next, name_end(s, attrs->next), Rule::EnumValue);
    let q = skip_trivia(s, name->next + 1);
    let value = token(s, q, enum_value_end(s, q), Rule::Integer);
    if attrs is Fail {
        attrs.fail()
    } else if name is Fail {
        name.fail()
    } else if !byte_at(s, name->next, EQUAL) {
        Outcome::Match { value: EnumValue { name: name->value, value: None }, next: name->next }
    } else if value is Fail {
        value.fail()
    } else {
        Outcome::Match {
            value: EnumValue { name: name->value, value: Some(value->value) },
            next: value->next,
        }
    }
}

/// The enumerators from `p` on, up to the closing `}`. A comma may stand
/// before the `}`.
pub open spec fn enum_values(s: Seq<u8>, p: int, acc: Seq<EnumValue>) -> Outcome<Seq<EnumValue>>
    decreases s.len() - p,
{
    let v = enum_value(s, p);
    let q = skip_trivia(s, v->next + 1);
    if byte_at(s, p, RBRACE) {
        Outcome::Match { value: acc, next: skip_trivia(s, p + 1) }
    } else if v is Fail {
        v.fail()
    } else if byte_at(s, v->next, RBRACE) {
        Outcome::Match { value: acc.push(v->value), next: q }
    } else if byte_at(s, v->next, COMMA) && p < q <= s.len() {
        enum_values(s, q, acc.push(v->value))
    } else {
        Outcome::Fail { at: v->next, expected: Rule::RBrace }
    }
}

/// `enum E { ... };` or `enum E;`
pub open spec fn enum_decl(s: Seq<u8>, p: int) -> Outcome<EnumView> {
    let kw = keyword(s, p, "enum", Rule::Enum);
    let name = token(s, kw->next, name_end(s, kw->next), Rule::Name);
    let values = if byte_at(s, name->next, LBRACE) {
        enum_values(s, skip_trivia(s, name->next + 1), Seq::empty())
    } else {
        Outcome::Match { value: Seq::empty(), next: name->next }
    };
    let semi = punct(s, values->next, SEMICOLON, Rule::Semicolon);
    if kw is Fail {
        kw.fail()
    } else if name is Fail {
        name.fail()
    } else if values is Fail {
        values.fail()
    } else if semi is Fail {
        semi.fail()
    } else {
        Outcome::Match {
            value: EnumView { name: name->value, values: values->value },
            next: semi->next,
        }
    }
}

/// `= value` where it is written.
pub open spec fn default_value(s: Seq<u8>, p: int) -> Outcome<Option<Range>> {
    let q = skip_trivia(s, p + 1);
    let value = token(s, q, value_end(s, q), Rule::Literal);
    if !byte_at(s, p, EQUAL) {
        Outcome::Match { value: None, next: p }
    } else if value is Fail {
        value.fail()
    } else {
        Outcome::Match { value: Some(value->value), next: value->next }
    }
}

/// `T name @ordinal = default;` of a struct.
pub open spec fn struct_field(s: Seq<u8>, p: int) -> Outcome<StructField> {
    let typ = type_range(s, p);
    let name = token(s, typ->next, name_end(s, typ->next), Rule::Name);
    let ordinal = ordinal_end(s, name->next);
    let default = default_value(s, after_optional(s, name->next, ordinal));
    let semi = punct(s, default->next, SEMICOLON, Rule::Semicolon);
    if typ is Fail {
        typ.fail()
    } else if name is Fail {
        name.fail()
    } else if default is Fail {
        default.fail()
    } else if semi is Fail {
        semi.fail()
    } else {
        Outcome::Match {
            value: StructField {
                typ: typ->value,
                name: name->value,
                ordinal: optional(name->next, ordinal),
                default: default->value,
            },
            next: semi->next,
        }
    }
}

/// A member of a struct body: a constant, an enum or a field.
pub open spec fn struct_item(s: Seq<u8>, p: int) -> Outcome<StructBodyView> {
    let attrs = attributes(s, p);
    let q = attrs->next;
    let c = const_decl(s, q);
    let e = enum_decl(s, q);
    let f = struct_field(s, q);
    if attrs is Fail {
        attrs.fail()
    } else if keyword_at(s, q, "const".spec_bytes()) {
        if c is Fail {
            c.fail()
        } else {
            Outcome::Match { value: StructBodyView::Const(c->value), next: c->next }
        }
    } else if keyword_at(s, q, "enum".spec_bytes()) {
        if e is Fail {
            e.fail()
        } else {
            Outcome::Match { value: StructBodyView::Enum(e->value), next: e->next }
        }
    } else if name_end(s, q) is None {
        Outcome::Fail { at: q, expected: Rule::StructItem }
    } else if f is Fail {
        f.fail()
    } else {
        Outcome::Match { value: StructBodyView::Field(f->value), next: f->next }
    }
}

/// The members of a struct from `p` on, up to the closing `}`.
pub open spec fn struct_items(s: Seq<u8>, p: int, acc: Seq<StructBodyView>) -> Outcome<
    Seq<StructBodyView>,
>
    decreases s.len() - p,
{
    let m = struct_item(s, p);
    if byte_at(s, p, RBRACE) {
        Outcome::Match { value: acc, next: skip_trivia(s, p + 1) }
    } else if m is Fail {
        m.fail()
    } else if p < m->next <= s.len() {
        struct_items(s, m->next, acc.push(m->value))
    } else {
        Outcome::Fail { at: m->next, expected: Rule::RBrace }
    }
}

/// `struct S { ... };` or `struct S;`
pub open spec fn struct_decl(s: Seq<u8>, p: int) -> Outcome<StructView> {
    let kw = keyword(s, p, "struct", Rule::Struct);
    let name = token(s, kw->next, name_end(s, kw->next), Rule::Name);
    let members = if byte_at(s, name->next, LBRACE) {
        struct_items(s, skip_trivia(s, name->next + 1), Seq::empty())
    } else {
        Outcome::Match { value: Seq::empty(), next: name->next }
    };
    let semi = punct(s, members->next, SEMICOLON, Rule::Semicolon);
    if kw is Fail {
        kw.fail()
    } else if name is Fail {
        name.fail()
    } else if members is Fail {
        members.fail()
    } else if semi is Fail {
        semi.fail()
    } else {
        Outcome::Match {
            value: StructView { name: name->value, members: members->value },
            next: semi->next,
        }
    }
}

/// `T name @ordinal;` of a union, after its attributes.
pub open spec fn union_field(s: Seq<u8>, p: int) -> Outcome<UnionField> {
    let attrs = attributes(s, p);
    let q = attrs->next;
    let typ = type_range(s, q);
    let name = token(s, typ->next, name_end(s, typ->next), Rule::Name);
    let ordinal = ordinal_end(s, name->next);
    let semi = punct(s, after_optional(s, name->next, ordinal), SEMICOLON, Rule::Semicolon);
    if attrs is Fail {
        attrs.fail()
    } else if name_end(s, q) is None {
        Outcome::Fail { at: q, expected: Rule::UnionField }
    } else if typ is Fail {
        typ.fail()
    } else if name is Fail {
        name.fail()
    } else if semi is Fail {
        semi.fail()
    } else {
        Outcome::Match {
            value: UnionField {
                typ: typ->value,
                name: name->value,
                ordinal: optional(name->next, ordinal),
            },
            next: semi->next,
        }
    }
}

/// The fields of a union from `p` on, up to the closing `}`.
pub open spec fn union_fields(s: Seq<u8>, p: int, acc: Seq<UnionField>) -> Outcome<
    Seq<UnionField>,
>
    decreases s.len() - p,
{
    let f = union_field(s, p);
    if byte_at(s, p, RBRACE) {
        Outcome::Match { value: acc, next: skip_trivia(s, p + 1) }
    } else if f is Fail {
        f.fail()
    } else if p < f->next <= s.len() {
        union_fields(s, f->next, acc.push(f->value))
    } else {
        Outcome::Fail { at: f->next, expected: Rule::RBrace }
    }
}

/// `union U { ... };`
pub open spec fn union_decl(s: Seq<u8>, p: int) -> Outcome<UnionView> {
    let kw = keyword(s, p, "union", Rule::Union);
    let name = token(s, kw->next, name_end(s, kw->next), Rule::Name);
    let open = punct(s, name->next, LBRACE, Rule::LBrace);
    let fields = union_fields(s, open->next, Seq::empty());
    let semi = punct(s, fields->next, SEMICOLON, Rule::Semicolon);
    if kw is Fail {
        kw.fail()
    } else if name is Fail {
        name.fail()
    } else if open is Fail {
        open.fail()
    } else if fields is Fail {
        fields.fail()
    } else if semi is Fail {
        semi.fail()
    } else {
        Outcome::Match {
            value: UnionView { name: name->value, fields: fields->value },
            next: semi->next,
        }
    }
}

/// One parameter: attributes, a type, a name, and an ordinal where one is
/// written.
pub open spec fn parameter(s: Seq<u8>, p: int) -> Outcome<Parameter> {
    let attrs = attributes(s, p);
    let q = attrs->next;
    let typ = type_range(s, q);
    let name = token(s, typ->next, name_end(s, typ->next), Rule::Name);
    let ordinal = ordinal_end(s, name->next);
    if attrs is Fail {
        attrs.fail()
    } else if name_end(s, q) is None {
        Outcome::Fail { at: q, expected: Rule::Parameter }
    } else if typ is Fail {
        typ.fail()
    } else if name is Fail {
        name.fail()
    } else {
        Outcome::Match {
            value: Parameter {
                typ: typ->value,
                name: name->value,
                ordinal: optional(name->next, ordinal),
            },
            next: after_optional(s, name->next, ordinal),
        }
    }
}

/// The parameters from `p` on, up to the closing `)`. A comma may stand
/// before the `)`.
pub open spec fn parameters(s: Seq<u8>, p: int, acc: Seq<Parameter>) -> Outcome<Seq<Parameter>>
    decreases s.len() - p,
{
    let v = parameter(s, p);
    let q = skip_trivia(s, v->next + 1);
    if byte_at(s, p, RPAREN) {
        Outcome::Match { value: acc, next: skip_trivia(s, p + 1) }
    } else if v is Fail {
        v.fail()
    } else if byte_at(s, v->next, RPAREN) {
        Outcome::Match { value: acc.push(v->value), next: q }
    } else if byte_at(s, v->next, COMMA) && p < q <= s.len() {
        parameters(s, q, acc.push(v->value))
    } else {
        Outcome::Fail { at: v->next, expected: Rule::RParen }
    }
}

/// `( ... )`
pub open spec fn parameter_list(s: Seq<u8>, p: int) -> Outcome<Seq<Parameter>> {
    let open = punct(s, p, LPAREN, Rule::LParen);
    if open is Fail {
        open.fail()
    } else {
        parameters(s, open->next, Seq::empty())
    }
}

/// `=> ( ... )` where it is written.
pub open spec fn response(s: Seq<u8>, p: int) -> Outcome<Option<Seq<Parameter>>> {
    let params = parameter_list(s, skip_trivia(s, p + 2));
    if !pair_at(s, p, EQUAL, RANGLE) {
        Outcome::Match { value: None, next: p }
    } else if params is Fail {
        params.fail()
    } else {
        Outcome::Match { value: Some(params->value), next: params->next }
    }
}

/// `Name@ordinal( ... ) => ( ... );`
pub open spec fn method_decl(s: Seq<u8>, p: int) -> Outcome<MethodView> {
    let name = token(s, p, name_end(s, p), Rule::Name);
    let ordinal = ordinal_end(s, name->next);
    let params = parameter_list(s, after_optional(s, name->next, ordinal));
    let resp = response(s, params->next);
    let semi = punct(s, resp->next, SEMICOLON, Rule::Semicolon);
    if name is Fail {
        name.fail()
    } else if params is Fail {
        params.fail()
    } else if resp is Fail {
        resp.fail()
    } else if semi is Fail {
        semi.fail()
    } else {
        Outcome::Match {
            value: MethodView {
                name: name->value,
                ordinal: optional(name->next, ordinal),
                params: params->value,
                response: resp->value,
            },
            next: semi->next,
        }
    }
}

/// A member of an interface body: a constant, an enum or a method.
pub open spec fn interface_member(s: Seq<u8>, p: int) -> Outcome<InterfaceMemberView> {
    let attrs = attributes(s, p);
    let q = attrs->next;
    let c = const_decl(s, q);
    let e = enum_decl(s, q);
    let m = method_decl(s, q);
    if attrs is Fail {
        attrs.fail()
    } else if keyword_at(s, q, "const".spec_bytes()) {
        if c is Fail {
            c.fail()
        } else {
            Outcome::Match { value: InterfaceMemberView::Const(c->value), next: c->next }
        }
    } else if keyword_at(s, q, "enum".spec_bytes()) {
        if e is Fail {
            e.fail()
        } else {
            Outcome::Match { value: InterfaceMemberView::Enum(e->value), next: e->next }
        }
    } else if name_end(s, q) is None {
        Outcome::Fail { at: q, expected: Rule::InterfaceBody }
    } else if m is Fail {
        m.fail()
    } else {
        Outcome::Match { value: InterfaceMemberView::Method(m->value), next: m->next }
    }
}

/// The members of an interface from `p` on, up to the closing `}`.
pub open spec fn interface_members(
    s: Seq<u8>,
    p: int,
    acc: Seq<InterfaceMemberView>,
) -> Outcome<Seq<InterfaceMemberView>>
    decreases s.len() - p,
{
    let m = interface_member(s, p);
    if byte_at(s, p, RBRACE) {
        Outcome::Match { value: acc, next: skip_trivia(s, p + 1) }
    } else if m is Fail {
        m.fail()
    } else if p < m->next <= s.len() {
        interface_members(s, m->next, acc.push(m->value))
    } else {
        Outcome::Fail { at: m->next, expected: Rule::RBrace }
    }
}

/// `interface I { ... };`
pub open spec fn interface_decl(s: Seq<u8>, p: int) -> Outcome<InterfaceView> {
    let kw = keyword(s, p, "interface", Rule::Interface);
    let name = token(s, kw->next, name_end(s, kw->next), Rule::Name);
    let open = punct(s, name->next, LBRACE, Rule::LBrace);
    let members = interface_members(s, open->next, Seq::empty());
    let semi = punct(s, members->next, SEMICOLON, Rule::Semicolon);
    if kw is Fail {
        kw.fail()
    } else if name is Fail {
        name.fail()
    } else if open is Fail {
        open.fail()
    } else if members is Fail {
        members.fail()
    } else if semi is Fail {
        semi.fail()
    } else {
        Outcome::Match {
            value: InterfaceView { name: name->value, members: members->value },
            next: semi->next,
        }
    }
}

/// The rule `decl` with the attribute section that may stand before it.
pub open spec fn with_attributes<T>(
    s: Seq<u8>,
    p: int,
    decl: spec_fn(Seq<u8>, int) -> Outcome<T>,
) -> Outcome<T> {
    let attrs = attributes(s, p);
    if attrs is Fail {
        attrs.fail()
    } else {
        decl(s, attrs->next)
    }
}

/// The statement that the keyword at `p` starts.
pub open spec fn declaration(s: Seq<u8>, p: int) -> Outcome<StatementView> {
    let module = module_decl(s, p);
    let import = import_decl(s, p);
    let interface = interface_decl(s, p);
    let structure = struct_decl(s, p);
    let union = union_decl(s, p);
    let enumeration = enum_decl(s, p);
    let constant = const_decl(s, p);
    if keyword_at(s, p, "module".spec_bytes()) {
        if module is Fail {
            module.fail()
        } else {
            Outcome::Match { value: StatementView::Module(module->value), next: module->next }
        }
    } else if keyword_at(s, p, "import".spec_bytes()) {
        if import is Fail {
            import.fail()
        } else {
            Outcome::Match { value: StatementView::Import(import->value), next: import->next }
        }
    } else if keyword_at(s, p, "interface".spec_bytes()) {
        if interface is Fail {
            interface.fail()
        } else {
            Outcome::Match {
                value: StatementView::Interface(interface->value),
                next: interface->next,
            }
        }
    } else if keyword_at(s, p, "struct".spec_bytes()) {
        if structure is Fail {
            structure.fail()
        } else {
            Outcome::Match {
                value: StatementView::Struct(structure->value),
                next: structure->next,
            }
        }
    } else if keyword_at(s, p, "union".spec_bytes()) {
        if union is Fail {
            union.fail()
        } else {
            Outcome::Match { value: StatementView::Union(union->value), next: union->next }
        }
    } else if keyword_at(s, p, "enum".spec_bytes()) {
        if enumeration is Fail {
            enumeration.fail()
        } else {
            Outcome::Match {
                value: StatementView::Enum(enumeration->value),
                next: enumeration->next,
            }
        }
    } else if keyword_at(s, p, "const".spec_bytes()) {
        if constant is Fail {
            constant.fail()
        } else {
            Outcome::Match {
                value: StatementView::Const(constant->value),
                next: constant->next,
            }
        }
    } else {
        Outcome::Fail { at: p, expected: Rule::Statement }
    }
}

/// A statement at file scope, with its attributes.
pub open spec fn statement(s: Seq<u8>, p: int) -> Outcome<StatementView> {
    with_attributes(s, p, |s: Seq<u8>, q: int| declaration(s, q))
}

/// The statements from `p` on, up to the end of the input.
pub open spec fn statements(s: Seq<u8>, p: int, acc: Seq<StatementView>) -> Outcome<
    Seq<StatementView>,
>
    decreases s.len() - p,
{
    let t = statement(s, p);
    if p >= s.len() {
        Outcome::Match { value: acc, next: p }
    } else if t is Fail {
        t.fail()
    } else if p < t->next <= s.len() {
        statements(s, t->next, acc.push(t->value))
    } else {
        Outcome::Fail { at: t->next, expected: Rule::EndOfInput }
    }
}

/// A whole file: white space and comments, then statements up to the end.
pub open spec fn mojom_file(s: Seq<u8>) -> Outcome<MojomFileView> {
    let stmts = statements(s, skip_trivia(s, 0), Seq::empty());
    if stmts is Fail {
        stmts.fail()
    } else {
        Outcome::Match { value: MojomFileView { stmts: stmts->value }, next: stmts->next }
    }
}

} // verus!
