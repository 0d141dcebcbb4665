//! The declaration tree of a Mojom file.
//!
//! Nodes do not own text: every name, type and value is a [`Range`] of byte
//! offsets into the source the tree was parsed from. Each node type has a
//! mathematical view in which vectors become sequences; the grammar and the
//! well-formedness predicates are stated over those views.
use vstd::prelude::*;

use crate::grammar::{type_range, Outcome};
use crate::lexer::{
    enum_value_end, identifier_end, name_end, ordinal_end, string_end, value_end,
};

verus! {

/// A half-open range of byte offsets into a source text.
#[derive(Debug, Clone, Copy, PartialEq, Eq)]
pub struct Range {
    pub start: usize,
    pub end: usize,
}

impl Range {
    /// The range is not empty and lies inside a text of `len` bytes.
    pub open spec fn within(self, len: nat) -> bool {
        self.start < self.end <= len
    }

    /// The bytes of `s` that the range covers.
    pub open spec fn of(self, s: Seq<u8>) -> Seq<u8>
        recommends
            self.within(s.len()),
    {
        s.subrange(self.start as int, self.end as int)
    }

    /// The range covers exactly the name token that starts at its first byte.
    pub open spec fn is_name(self, s: Seq<u8>) -> bool {
        self.within(s.len()) && name_end(s, self.start as int) == Some(self.end as int)
    }

    /// The range covers exactly the dotted identifier that starts at its first byte.
    pub open spec fn is_identifier(self, s: Seq<u8>) -> bool {
        self.within(s.len()) && identifier_end(s, self.start as int) == Some(self.end as int)
    }

    /// The range covers exactly the string literal, quotes included, that
    /// starts at its first byte.
    pub open spec fn is_string(self, s: Seq<u8>) -> bool {
        self.within(s.len()) && string_end(s, self.start as int) == Some(self.end as int)
    }

    /// The range covers exactly the value that starts at its first byte.
    pub open spec fn is_value(self, s: Seq<u8>) -> bool {
        self.within(s.len()) && value_end(s, self.start as int) == Some(self.end as int)
    }

    /// The range covers exactly the value of an enumerator that starts at
    /// its first byte.
    pub open spec fn is_enum_value(self, s: Seq<u8>) -> bool {
        self.within(s.len()) && enum_value_end(s, self.start as int) == Some(self.end as int)
    }

    /// The range covers exactly the ordinal that starts at its first byte.
    pub open spec fn is_ordinal(self, s: Seq<u8>) -> bool {
        self.within(s.len()) && ordinal_end(s, self.start as int) == Some(self.end as int)
    }

    /// The range covers exactly the type expression that starts at its
    /// first byte.
    pub open spec fn is_type(self, s: Seq<u8>) -> bool {
        &&& self.within(s.len())
        &&& type_range(s, self.start as int) matches Outcome::Match { value, .. } && value == self
    }
}

/// The ordinal that may be absent covers exactly an ordinal.
pub open spec fn opt_ordinal(r: Option<Range>, s: Seq<u8>) -> bool {
    r matches Some(r) ==> r.is_ordinal(s)
}

/// A node without a list is its own view.
impl View for Range {
    type V = Range;

    open spec fn view(&self) -> Range {
        *self
    }
}

impl View for Module {
    type V = Module;

    open spec fn view(&self) -> Module {
        *self
    }
}

impl View for Import {
    type V = Import;

    open spec fn view(&self) -> Import {
        *self
    }
}

impl View for Const {
    type V = Const;

    open spec fn view(&self) -> Const {
        *self
    }
}

impl View for EnumValue {
    type V = EnumValue;

    open spec fn view(&self) -> EnumValue {
        *self
    }
}

impl View for StructField {
    type V = StructField;

    open spec fn view(&self) -> StructField {
        *self
    }
}

impl View for UnionField {
    type V = UnionField;

    open spec fn view(&self) -> UnionField {
        *self
    }
}

impl View for Parameter {
    type V = Parameter;

    open spec fn view(&self) -> Parameter {
        *self
    }
}

/// `module a.b;`
#[derive(Debug, Clone, Copy, PartialEq, Eq)]
pub struct Module {
    pub name: Range,
}

impl Module {
    pub open spec fn wf(self, s: Seq<u8>) -> bool {
        self.name.is_identifier(s)
    }
}

/// `import "path";` The range covers the literal with its quotes.
#[derive(Debug, Clone, Copy, PartialEq, Eq)]
pub struct Import {
    pub path: Range,
}

impl Import {
    pub open spec fn wf(self, s: Seq<u8>) -> bool {
        self.path.is_string(s)
    }
}

/// `const T name = value;`
#[derive(Debug, Clone, Copy, PartialEq, Eq)]
pub struct Const {
    pub typ: Range,
    pub name: Range,
    pub value: Range,
}

impl Const {
    pub open spec fn wf(self, s: Seq<u8>) -> bool {
        &&& self.typ.is_type(s)
        &&& self.name.is_name(s)
        &&& self.value.is_value(s)
    }
}

/// One enumerator, with its value if one is written.
#[derive(Debug, Clone, Copy, PartialEq, Eq)]
pub struct EnumValue {
    pub name: Range,
    pub value: Option<Range>,
}

impl EnumValue {
    pub open spec fn wf(self, s: Seq<u8>) -> bool {
        &&& self.name.is_name(s)
        &&& self.value matches Some(v) ==> v.is_enum_value(s)
    }
}

/// `enum E { ... };` or the forward form `enum E;`, whose `values` is empty.
#[derive(Debug, Clone, PartialEq, Eq)]
pub struct Enum {
    pub name: Range,
    pub values: Vec<EnumValue>,
}

pub struct EnumView {
    pub name: Range,
    pub values: Seq<EnumValue>,
}

impl View for Enum {
    type V = EnumView;

    open spec fn view(&self) -> EnumView {
        EnumView { name: self.name, values: self.values@ }
    }
}

impl EnumView {
    pub open spec fn wf(self, s: Seq<u8>) -> bool {
        &&& self.name.is_name(s)
        &&& forall|i: int| 0 <= i < self.values.len() ==> (#[trigger] self.values[i]).wf(s)
    }
}

/// A data member of a struct.
#[derive(Debug, Clone, Copy, PartialEq, Eq)]
pub struct StructField {
    pub typ: Range,
    pub name: Range,
    pub ordinal: Option<Range>,
    pub default: Option<Range>,
}

impl StructField {
    pub open spec fn wf(self, s: Seq<u8>) -> bool {
        &&& self.typ.is_type(s)
        &&& self.name.is_name(s)
        &&& opt_ordinal(self.ordinal, s)
        &&& self.default matches Some(v) ==> v.is_value(s)
    }
}

/// A member of a struct body.
#[derive(Debug, Clone, PartialEq, Eq)]
pub enum StructBody {
    Const(Const),
    Enum(Enum),
    Field(StructField),
}

pub enum StructBodyView {
    Const(Const),
    Enum(EnumView),
    Field(StructField),
}

impl View for StructBody {
    type V = StructBodyView;

    open spec fn view(&self) -> StructBodyView {
        match *self {
            StructBody::Const(c) => StructBodyView::Const(c),
            StructBody::Enum(e) => StructBodyView::Enum(e@),
            StructBody::Field(f) => StructBodyView::Field(f),
        }
    }
}

impl StructBodyView {
    pub open spec fn wf(self, s: Seq<u8>) -> bool {
        match self {
            StructBodyView::Const(c) => c.wf(s),
            StructBodyView::Enum(e) => e.wf(s),
            StructBodyView::Field(f) => f.wf(s),
        }
    }
}

/// The views of the members of a struct, in order.
pub open spec fn struct_body_views(members: Seq<StructBody>) -> Seq<StructBodyView> {
    members.map_values(|m: StructBody| m@)
}

/// `struct S { ... };` or the forward form `struct S;`, whose `members` is empty.
#[derive(Debug, Clone, PartialEq, Eq)]
pub struct Struct {
    pub name: Range,
    pub members: Vec<StructBody>,
}

pub struct StructView {
    pub name: Range,
    pub members: Seq<StructBodyView>,
}

impl View for Struct {
    type V = StructView;

    open spec fn view(&self) -> StructView {
        StructView { name: self.name, members: struct_body_views(self.members@) }
    }
}

impl StructView {
    pub open spec fn wf(self, s: Seq<u8>) -> bool {
        &&& self.name.is_name(s)
        &&& forall|i: int| 0 <= i < self.members.len() ==> (#[trigger] self.members[i]).wf(s)
    }
}

/// A member of a union.
#[derive(Debug, Clone, Copy, PartialEq, Eq)]
pub struct UnionField {
    pub typ: Range,
    pub name: Range,
    pub ordinal: Option<Range>,
}

impl UnionField {
    pub open spec fn wf(self, s: Seq<u8>) -> bool {
        &&& self.typ.is_type(s)
        &&& self.name.is_name(s)
        &&& opt_ordinal(self.ordinal, s)
    }
}

/// `union U { ... };`
#[derive(Debug, Clone, PartialEq, Eq)]
pub struct Union {
    pub name: Range,
    pub fields: Vec<UnionField>,
}

pub struct UnionView {
    pub name: Range,
    pub fields: Seq<UnionField>,
}

impl View for Union {
    type V = UnionView;

    open spec fn view(&self) -> UnionView {
        UnionView { name: self.name, fields: self.fields@ }
    }
}

impl UnionView {
    pub open spec fn wf(self, s: Seq<u8>) -> bool {
        &&& self.name.is_name(s)
        &&& forall|i: int| 0 <= i < self.fields.len() ==> (#[trigger] self.fields[i]).wf(s)
    }
}

/// One parameter of a method or of its response.
#[derive(Debug, Clone, Copy, PartialEq, Eq)]
pub struct Parameter {
    pub typ: Range,
    pub name: Range,
    pub ordinal: Option<Range>,
}

impl Parameter {
    pub open spec fn wf(self, s: Seq<u8>) -> bool {
        &&& self.typ.is_type(s)
        &&& self.name.is_name(s)
        &&& opt_ordinal(self.ordinal, s)
    }
}

/// Every parameter of the list is well formed.
pub open spec fn params_wf(params: Seq<Parameter>, s: Seq<u8>) -> bool {
    forall|i: int| 0 <= i < params.len() ==> (#[trigger] params[i]).wf(s)
}

/// What follows `=>` in a method.
#[derive(Debug, Clone, PartialEq, Eq)]
pub struct Response {
    pub params: Vec<Parameter>,
}

impl View for Response {
    type V = Seq<Parameter>;

    open spec fn view(&self) -> Seq<Parameter> {
        self.params@
    }
}

/// A method of an interface. `response` is `None` when no `=>` is written.
#[derive(Debug, Clone, PartialEq, Eq)]
pub struct Method {
    pub name: Range,
    pub ordinal: Option<Range>,
    pub params: Vec<Parameter>,
    pub response: Option<Response>,
}

pub struct MethodView {
    pub name: Range,
    pub ordinal: Option<Range>,
    pub params: Seq<Parameter>,
    pub response: Option<Seq<Parameter>>,
}

impl View for Method {
    type V = MethodView;

    open spec fn view(&self) -> MethodView {
        MethodView {
            name: self.name,
            ordinal: self.ordinal,
            params: self.params@,
            response: match self.response {
                Some(r) => Some(r@),
                None => None,
            },
        }
    }
}

impl MethodView {
    pub open spec fn wf(self, s: Seq<u8>) -> bool {
        &&& self.name.is_name(s)
        &&& opt_ordinal(self.ordinal, s)
        &&& params_wf(self.params, s)
        &&& match self.response {
            Some(r) => params_wf(r, s),
            None => true,
        }
    }
}

/// A member of an interface body.
#[derive(Debug, Clone, PartialEq, Eq)]
pub enum InterfaceMember {
    Const(Const),
    Enum(Enum),
    Method(Method),
}

pub enum InterfaceMemberView {
    Const(Const),
    Enum(EnumView),
    Method(MethodView),
}

impl View for InterfaceMember {
    type V = InterfaceMemberView;

    open spec fn view(&self) -> InterfaceMemberView {
        match *self {
            InterfaceMember::Const(c) => InterfaceMemberView::Const(c),
            InterfaceMember::Enum(e) => InterfaceMemberView::Enum(e@),
            InterfaceMember::Method(m) => InterfaceMemberView::Method(m@),
        }
    }
}

impl InterfaceMemberView {
    pub open spec fn wf(self, s: Seq<u8>) -> bool {
        match self {
            InterfaceMemberView::Const(c) => c.wf(s),
            InterfaceMemberView::Enum(e) => e.wf(s),
            InterfaceMemberView::Method(m) => m.wf(s),
        }
    }
}

/// The views of the members of an interface, in order.
pub open spec fn interface_member_views(members: Seq<InterfaceMember>) -> Seq<
    InterfaceMemberView,
> {
    members.map_values(|m: InterfaceMember| m@)
}

/// `interface I { ... };`
#[derive(Debug, Clone, PartialEq, Eq)]
pub struct Interface {
    pub name: Range,
    pub members: Vec<InterfaceMember>,
}

pub struct InterfaceView {
    pub name: Range,
    pub members: Seq<InterfaceMemberView>,
}

impl View for Interface {
    type V = InterfaceView;

    open spec fn view(&self) -> InterfaceView {
        InterfaceView { name: self.name, members: interface_member_views(self.members@) }
    }
}

impl InterfaceView {
    pub open spec fn wf(self, s: Seq<u8>) -> bool {
        &&& self.name.is_name(s)
        &&& forall|i: int| 0 <= i < self.members.len() ==> (#[trigger] self.members[i]).wf(s)
    }
}

/// A statement at file scope.
#[derive(Debug, Clone, PartialEq, Eq)]
pub enum Statement {
    Module(Module),
    Import(Import),
    Interface(Interface),
    Struct(Struct),
    Union(Union),
    Enum(Enum),
    Const(Const),
}

pub enum StatementView {
    Module(Module),
    Import(Import),
    Interface(InterfaceView),
    Struct(StructView),
    Union(UnionView),
    Enum(EnumView),
    Const(Const),
}

impl View for Statement {
    type V = StatementView;

    open spec fn view(&self) -> StatementView {
        match *self {
            Statement::Module(m) => StatementView::Module(m),
            Statement::Import(i) => StatementView::Import(i),
            Statement::Interface(i) => StatementView::Interface(i@),
            Statement::Struct(s) => StatementView::Struct(s@),
            Statement::Union(u) => StatementView::Union(u@),
            Statement::Enum(e) => StatementView::Enum(e@),
            Statement::Const(c) => StatementView::Const(c),
        }
    }
}

impl StatementView {
    pub open spec fn wf(self, s: Seq<u8>) -> bool {
        match self {
            StatementView::Module(m) => m.wf(s),
            StatementView::Import(i) => i.wf(s),
            StatementView::Interface(i) => i.wf(s),
            StatementView::Struct(t) => t.wf(s),
            StatementView::Union(u) => u.wf(s),
            StatementView::Enum(e) => e.wf(s),
            StatementView::Const(c) => c.wf(s),
        }
    }
}

/// The views of statements, in order.
pub open spec fn statement_views(stmts: Seq<Statement>) -> Seq<StatementView> {
    stmts.map_values(|t: Statement| t@)
}

/// A whole source file: its statements in source order.
#[derive(Debug, Clone, PartialEq, Eq)]
pub struct MojomFile {
    pub stmts: Vec<Statement>,
}

pub struct MojomFileView {
    pub stmts: Seq<StatementView>,
}

impl View for MojomFile {
    type V = MojomFileView;

    open spec fn view(&self) -> MojomFileView {
        MojomFileView { stmts: statement_views(self.stmts@) }
    }
}

impl MojomFileView {
    /// The tree is a tree of the text `s`: every range of it is non-empty
    /// and inside `s`, and covers exactly the token that its place in the
    /// tree asks for: a name, an identifier, a string literal, a type
    /// expression, a value or an ordinal.
    pub open spec fn wf(self, s: Seq<u8>) -> bool {
        forall|i: int| 0 <= i < self.stmts.len() ==> (#[trigger] self.stmts[i]).wf(s)
    }
}

} // verus!
