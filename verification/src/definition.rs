//! Where a name is defined: the qualified names that a file declares, and
//! the search for one of them.
use vstd::prelude::*;

use crate::error::position_of;
use crate::lexer::DOT;
use crate::lsp;
use crate::lsp::{into_lsp_range, position_at, Location};
use crate::mojomast::MojomAst;
use crate::syntax::{
    interface_member_views, statement_views, struct_body_views, Interface, InterfaceMember,
    InterfaceMemberView, MojomFile, MojomFileView, Range, Statement, StatementView, Struct,
    StructBody, StructBodyView,
};
use crate::text::{append_bytes, bytes_eq};
use crate::traverse::{
    file_events, file_rest, interface_events, interface_rest, preorder, statement_events,
    struct_events, struct_rest, Traversal,
};

verus! {

/// The range in the editor's terms that `field` covers in the text `s`.
pub open spec fn lsp_range_of(s: Seq<u8>, field: Range) -> lsp::Range {
    lsp::Range {
        start: position_at(position_of(s, field.start as int)),
        end: position_at(position_of(s, field.end as int)),
    }
}

/// Converts a range of byte offsets of the document into lines and columns.
pub fn create_lsp_range(ast: &MojomAst, field: &Range) -> (r: lsp::Range)
    requires
        field.start <= ast.bytes().len(),
        field.end <= ast.bytes().len(),
    ensures
        r == lsp_range_of(ast.bytes(), *field),
{
    let start = ast.line_col(field.start);
    let end = ast.line_col(field.end);
    into_lsp_range(&start, &end)
}

/// The names that `path` covers in `s`, each with a dot after it.
pub open spec fn dotted_prefix(path: Seq<Range>, s: Seq<u8>) -> Seq<u8>
    decreases path.len(),
{
    if path.len() == 0 {
        Seq::empty()
    } else {
        dotted_prefix(path.drop_last(), s) + path.last().of(s) + seq![DOT]
    }
}

/// The qualified name of `name` inside the declarations named by `path`,
/// outermost first: the names joined by dots.
pub open spec fn qualified(path: Seq<Range>, name: Range, s: Seq<u8>) -> Seq<u8> {
    dotted_prefix(path, s) + name.of(s)
}

/// Every range of `path` lies in a text of `len` bytes.
pub open spec fn path_within(path: Seq<Range>, len: nat) -> bool {
    forall|k: int| 0 <= k < path.len() ==> (#[trigger] path[k]).within(len)
}

/// Builds the qualified name of `field` inside `path`.
pub fn qualified_ident(ast: &MojomAst, path: &Vec<Range>, field: &Range) -> (r: Vec<u8>)
    requires
        path_within(path@, ast.bytes().len()),
        field.within(ast.bytes().len()),
    ensures
        r@ == qualified(path@, *field, ast.bytes()),
{
    let mut out: Vec<u8> = Vec::new();
    let mut i: usize = 0;
    while i < path.len()
        invariant
            i <= path@.len(),
            path_within(path@, ast.bytes().len()),
            out@ == dotted_prefix(path@.take(i as int), ast.bytes()),
        decreases path@.len() - i,
    {
        append_bytes(&mut out, ast.text(&path[i]));
        out.push(DOT);
        proof {
            assert(path@.take(i + 1).drop_last() =~= path@.take(i as int));
        }
        i += 1;
    }
    assert(path@.take(i as int) =~= path@);
    append_bytes(&mut out, ast.text(field));
    out
}

/// The name that an event defines: that of an interface or a struct as it
/// is entered, of a union, of an enum, of a constant.
pub open spec fn event_name(ev: Traversal) -> Option<Range> {
    match ev {
        Traversal::EnterInterface(i) => Some(i.name),
        Traversal::EnterStruct(s) => Some(s.name),
        Traversal::Union(u) => Some(u.name),
        Traversal::Enum(e) => Some(e.name),
        Traversal::Const(c) => Some(c.name),
        _ => None,
    }
}

/// The path of enclosing declarations after an event: an interface or a
/// struct joins it as it is entered and leaves it as it is left.
pub open spec fn path_after(ev: Traversal, path: Seq<Range>) -> Seq<Range> {
    match ev {
        Traversal::EnterInterface(i) => path.push(i.name),
        Traversal::EnterStruct(s) => path.push(s.name),
        Traversal::LeaveInterface(_) | Traversal::LeaveStruct(_) => if path.len() > 0 {
            path.drop_last()
        } else {
            path
        },
        _ => path,
    }
}

/// A name that a file defines: the qualified name, and the range of the
/// declared name.
pub struct Definition {
    pub ident: Seq<u8>,
    pub range: Range,
}

/// The definitions that `events` give inside `path`, in order.
pub open spec fn definitions_from(events: Seq<Traversal>, path: Seq<Range>, s: Seq<u8>) -> Seq<
    Definition,
>
    decreases events.len(),
{
    if events.len() == 0 {
        Seq::empty()
    } else {
        let rest = definitions_from(events.drop_first(), path_after(events[0], path), s);
        match event_name(events[0]) {
            Some(name) => seq![Definition { ident: qualified(path, name, s), range: name }] + rest,
            None => rest,
        }
    }
}

/// The definitions of a file whose text is `s`, in source order. Interfaces,
/// structs, unions, enums and constants at file scope are defined under
/// their own names; enums and constants inside an interface or a struct
/// under the name of that declaration, a dot, and their own name.
pub open spec fn definitions(f: &MojomFile, s: Seq<u8>) -> Seq<Definition> {
    definitions_from(file_events(f), Seq::empty(), s)
}

/// The range of the first definition whose qualified name is `target`.
pub open spec fn first_match(defs: Seq<Definition>, target: Seq<u8>) -> Option<Range>
    decreases defs.len(),
{
    if defs.len() == 0 {
        None
    } else if defs[0].ident == target {
        Some(defs[0].range)
    } else {
        first_match(defs.drop_first(), target)
    }
}

/// The name that an event defines, if any, lies in a text of `len` bytes.
pub open spec fn event_within(ev: Traversal, len: nat) -> bool {
    match event_name(ev) {
        Some(name) => name.within(len),
        None => true,
    }
}

/// Every event of `events` defines a name inside the text, or none.
pub open spec fn events_within(events: Seq<Traversal>, len: nat) -> bool {
    forall|k: int| 0 <= k < events.len() ==> event_within(#[trigger] events[k], len)
}

/// In a tree that is well formed for `s`, every statement's events define
/// names inside `s`.
pub proof fn lemma_statement_events_within(t: &Statement, s: Seq<u8>)
    requires
        t@.wf(s),
    ensures
        events_within(statement_events(t), s.len()),
{
    match t {
        Statement::Interface(i) => {
            let events = interface_events(i);
            assert forall|k: int| 0 <= k < events.len() implies event_within(
                #[trigger] events[k],
                s.len(),
            ) by {
                if 0 < k && k <= i.members@.len() {
                    let m = i.members@[k - 1];
                    assert(i@.members[k - 1].wf(s));
                }
            }
        },
        Statement::Struct(st) => {
            let events = struct_events(st);
            assert forall|k: int| 0 <= k < events.len() implies event_within(
                #[trigger] events[k],
                s.len(),
            ) by {
                if 0 < k && k <= st.members@.len() {
                    assert(st@.members[k - 1].wf(s));
                }
            }
        },
        _ => {},
    }
}

/// In a tree that is well formed for `s`, the events of the statements
/// from `pos` on define names inside `s`.
pub proof fn lemma_file_rest_within(f: &MojomFile, pos: int, s: Seq<u8>)
    requires
        f@.wf(s),
        0 <= pos,
    ensures
        events_within(file_rest(f, pos), s.len()),
    decreases f.stmts@.len() - pos,
{
    if pos < f.stmts@.len() {
        assert(f@.stmts[pos].wf(s));
        lemma_statement_events_within(&f.stmts@[pos], s);
        lemma_file_rest_within(f, pos + 1, s);
    }
}

/// In a tree that is well formed for `s`, every event defines a name
/// inside `s`, or none.
pub proof fn lemma_file_events_within(f: &MojomFile, s: Seq<u8>)
    requires
        f@.wf(s),
    ensures
        events_within(file_events(f), s.len()),
{
    lemma_file_rest_within(f, 0, s);
    let events = file_events(f);
    assert forall|k: int| 0 <= k < events.len() implies event_within(
        #[trigger] events[k],
        s.len(),
    ) by {
        if 0 < k && k <= file_rest(f, 0).len() {
        }
    }
}

/// Tells whether the qualified name of `field` inside `path` is `target`,
/// and gives the place of `field` if it is.
pub fn match_field(target: &[u8], field: &Range, ast: &MojomAst, path: &Vec<Range>) -> (r: Option<
    Location,
>)
    requires
        path_within(path@, ast.bytes().len()),
        field.within(ast.bytes().len()),
    ensures
        r == if qualified(path@, *field, ast.bytes()) == target@ {
            Some(Location { uri: ast.uri, range: lsp_range_of(ast.bytes(), *field) })
        } else {
            None
        },
{
    let ident = qualified_ident(ast, path, field);
    if bytes_eq(ident.as_slice(), target) {
        let range = create_lsp_range(ast, field);
        Some(Location { uri: ast.uri.clone(), range })
    } else {
        None
    }
}

/// The place of the first definition of `ident` among `defs`.
pub open spec fn place_of(defs: Seq<Definition>, ident: Seq<u8>, ast: &MojomAst) -> Option<
    Location,
> {
    match first_match(defs, ident) {
        Some(range) => Some(Location { uri: ast.uri, range: lsp_range_of(ast.bytes(), range) }),
        None => None,
    }
}

/// Finds where `ident` is defined in the document: the first of the names
/// that the file declares, in source order, whose qualified name is
/// `ident`. `None` when the document declares no such name.
pub fn find_definition_preorder(ident: &[u8], ast: &MojomAst) -> (r: Option<Location>)
    requires
        ast.wf(),
    ensures
        r == place_of(declared(ast.mojom@, ast.bytes()), ident@, ast),
{
    let mut path: Vec<Range> = Vec::new();
    let mut walk = preorder(&ast.mojom);
    proof {
        lemma_file_events_within(&ast.mojom, ast.bytes());
        lemma_definitions_declared(&ast.mojom, ast.bytes());
    }
    loop
        invariant
            walk.wf(),
            path_within(path@, ast.bytes().len()),
            events_within(walk.remaining(), ast.bytes().len()),
            place_of(declared(ast.mojom@, ast.bytes()), ident@, ast) == place_of(
                definitions_from(walk.remaining(), path@, ast.bytes()),
                ident@,
                ast,
            ),
        decreases walk.remaining().len(),
    {
        let ghost events = walk.remaining();
        let ghost before = path@;
        let traversal = match walk.next() {
            Some(traversal) => traversal,
            None => {
                return None;
            },
        };
        proof {
            assert forall|k: int| 0 <= k < events.drop_first().len() implies event_within(
                #[trigger] events.drop_first()[k],
                ast.bytes().len(),
            ) by {
            }
        }
        let loc = match traversal {
            Traversal::EnterInterface(node) => {
                let loc = match_field(ident, &node.name, ast, &path);
                path.push(node.name);
                loc
            },
            Traversal::LeaveInterface(_) => {
                path.pop();
                None
            },
            Traversal::EnterStruct(node) => {
                let loc = match_field(ident, &node.name, ast, &path);
                path.push(node.name);
                loc
            },
            Traversal::LeaveStruct(_) => {
                path.pop();
                None
            },
            Traversal::Union(node) => match_field(ident, &node.name, ast, &path),
            Traversal::Enum(node) => match_field(ident, &node.name, ast, &path),
            Traversal::Const(node) => match_field(ident, &node.name, ast, &path),
            _ => None,
        };
        proof {
            let defs = definitions_from(events, before, ast.bytes());
            let rest = definitions_from(events.drop_first(), path@, ast.bytes());
            if let Some(name) = event_name(events[0]) {
                assert(defs.drop_first() =~= rest);
            }
        }
        if loc.is_some() {
            return loc;
        }
    }
}

/// The name that a member of an interface defines: that of a constant or of
/// an enum. A method defines none.
pub open spec fn interface_member_name(m: InterfaceMemberView) -> Option<Range> {
    match m {
        InterfaceMemberView::Const(c) => Some(c.name),
        InterfaceMemberView::Enum(e) => Some(e.name),
        InterfaceMemberView::Method(_) => None,
    }
}

/// The name that a member of a struct defines: that of a constant or of an
/// enum. A field defines none.
pub open spec fn struct_member_name(m: StructBodyView) -> Option<Range> {
    match m {
        StructBodyView::Const(c) => Some(c.name),
        StructBodyView::Enum(e) => Some(e.name),
        StructBodyView::Field(_) => None,
    }
}

/// The definitions of the members named by `names` inside the declaration
/// named by `owner`: for each name, in order, `owner.name`.
pub open spec fn nested_definitions(owner: Range, names: Seq<Option<Range>>, s: Seq<u8>) -> Seq<
    Definition,
>
    decreases names.len(),
{
    if names.len() == 0 {
        Seq::empty()
    } else {
        let rest = nested_definitions(owner, names.drop_first(), s);
        match names[0] {
            Some(name) => seq![
                Definition { ident: qualified(seq![owner], name, s), range: name },
            ] + rest,
            None => rest,
        }
    }
}

/// The definition of a name at file scope.
pub open spec fn top_definition(name: Range, s: Seq<u8>) -> Definition {
    Definition { ident: qualified(Seq::empty(), name, s), range: name }
}

/// The definitions of one statement: an interface or a struct defines its
/// own name, then the enums and constants among its members; a union, an
/// enum or a constant defines its name; a module or an import defines
/// nothing.
pub open spec fn statement_definitions(t: StatementView, s: Seq<u8>) -> Seq<Definition> {
    match t {
        StatementView::Interface(i) => seq![top_definition(i.name, s)] + nested_definitions(
            i.name,
            i.members.map_values(|m: InterfaceMemberView| interface_member_name(m)),
            s,
        ),
        StatementView::Struct(t) => seq![top_definition(t.name, s)] + nested_definitions(
            t.name,
            t.members.map_values(|m: StructBodyView| struct_member_name(m)),
            s,
        ),
        StatementView::Union(u) => seq![top_definition(u.name, s)],
        StatementView::Enum(e) => seq![top_definition(e.name, s)],
        StatementView::Const(c) => seq![top_definition(c.name, s)],
        StatementView::Module(_) | StatementView::Import(_) => Seq::empty(),
    }
}

/// The definitions of the statements from `pos` on, in order.
pub open spec fn declared_from(stmts: Seq<StatementView>, pos: int, s: Seq<u8>) -> Seq<Definition>
    decreases stmts.len() - pos,
{
    if pos < 0 || pos >= stmts.len() {
        Seq::empty()
    } else {
        statement_definitions(stmts[pos], s) + declared_from(stmts, pos + 1, s)
    }
}

/// The names that a file declares, read off its tree: the definitions of
/// its statements, in order.
pub open spec fn declared(v: MojomFileView, s: Seq<u8>) -> Seq<Definition> {
    declared_from(v.stmts, 0, s)
}

/// The walk gives, for the members of an interface from `k` on and its end,
/// the definitions nested in it.
proof fn lemma_interface_rest(i: &Interface, k: int, tail: Seq<Traversal>, s: Seq<u8>)
    requires
        0 <= k <= i.members@.len(),
    ensures
        definitions_from(
            interface_rest(i, k) + seq![Traversal::LeaveInterface(i)] + tail,
            seq![i.name],
            s,
        ) == nested_definitions(
            i.name,
            i@.members.map_values(|m: InterfaceMemberView| interface_member_name(m)).subrange(
                k,
                i.members@.len() as int,
            ),
            s,
        ) + definitions_from(tail, Seq::empty(), s),
    decreases i.members@.len() - k,
{
    let events = interface_rest(i, k) + seq![Traversal::LeaveInterface(i)] + tail;
    let names = i@.members.map_values(|m: InterfaceMemberView| interface_member_name(m));
    let n = i.members@.len() as int;
    if k == n {
        assert(events.drop_first() =~= tail);
        assert(seq![i.name].drop_last() =~= Seq::<Range>::empty());
    } else {
        lemma_interface_rest(i, k + 1, tail, s);
        assert(events.drop_first() =~= interface_rest(i, k + 1) + seq![
            Traversal::LeaveInterface(i),
        ] + tail);
        assert(names.subrange(k, n).drop_first() =~= names.subrange(k + 1, n));
    }
}

/// The walk gives, for the members of a struct from `k` on and its end, the
/// definitions nested in it.
proof fn lemma_struct_rest(t: &Struct, k: int, tail: Seq<Traversal>, s: Seq<u8>)
    requires
        0 <= k <= t.members@.len(),
    ensures
        definitions_from(
            struct_rest(t, k) + seq![Traversal::LeaveStruct(t)] + tail,
            seq![t.name],
            s,
        ) == nested_definitions(
            t.name,
            t@.members.map_values(|m: StructBodyView| struct_member_name(m)).subrange(
                k,
                t.members@.len() as int,
            ),
            s,
        ) + definitions_from(tail, Seq::empty(), s),
    decreases t.members@.len() - k,
{
    let events = struct_rest(t, k) + seq![Traversal::LeaveStruct(t)] + tail;
    let names = t@.members.map_values(|m: StructBodyView| struct_member_name(m));
    let n = t.members@.len() as int;
    if k == n {
        assert(events.drop_first() =~= tail);
        assert(seq![t.name].drop_last() =~= Seq::<Range>::empty());
    } else {
        lemma_struct_rest(t, k + 1, tail, s);
        assert(events.drop_first() =~= struct_rest(t, k + 1) + seq![Traversal::LeaveStruct(t)]
            + tail);
        assert(names.subrange(k, n).drop_first() =~= names.subrange(k + 1, n));
    }
}

/// The walk gives, for one statement at file scope, the definitions of the
/// statement.
proof fn lemma_statement_definitions(t: &Statement, tail: Seq<Traversal>, s: Seq<u8>)
    ensures
        definitions_from(statement_events(t) + tail, Seq::empty(), s) == statement_definitions(
            t@,
            s,
        ) + definitions_from(tail, Seq::empty(), s),
{
    let events = statement_events(t) + tail;
    match t {
        Statement::Interface(i) => {
            lemma_interface_rest(i, 0, tail, s);
            let names = i@.members.map_values(|m: InterfaceMemberView| interface_member_name(m));
            assert(names.subrange(0, i.members@.len() as int) =~= names);
            assert(events.drop_first() =~= interface_rest(i, 0) + seq![
                Traversal::LeaveInterface(i),
            ] + tail);
        },
        Statement::Struct(st) => {
            lemma_struct_rest(st, 0, tail, s);
            let names = st@.members.map_values(|m: StructBodyView| struct_member_name(m));
            assert(names.subrange(0, st.members@.len() as int) =~= names);
            assert(events.drop_first() =~= struct_rest(st, 0) + seq![Traversal::LeaveStruct(st)]
                + tail);
        },
        _ => {
            assert(events.drop_first() =~= tail);
        },
    }
}

/// The walk gives, for the statements from `pos` on, the definitions of
/// those statements.
proof fn lemma_file_rest_definitions(f: &MojomFile, pos: int, tail: Seq<Traversal>, s: Seq<u8>)
    requires
        0 <= pos,
    ensures
        definitions_from(file_rest(f, pos) + tail, Seq::empty(), s) == declared_from(
            f@.stmts,
            pos,
            s,
        ) + definitions_from(tail, Seq::empty(), s),
    decreases f.stmts@.len() - pos,
{
    if pos < f.stmts@.len() {
        let t = &f.stmts@[pos];
        lemma_file_rest_definitions(f, pos + 1, tail, s);
        lemma_statement_definitions(t, file_rest(f, pos + 1) + tail, s);
        assert(file_rest(f, pos) + tail =~= statement_events(t) + (file_rest(f, pos + 1) + tail));
    } else {
    }
}

/// The definitions that the walk over a file gives are the names that the
/// file declares.
pub proof fn lemma_definitions_declared(f: &MojomFile, s: Seq<u8>)
    ensures
        definitions(f, s) == declared(f@, s),
{
    let tail = seq![Traversal::LeaveMojomFile(f)];
    lemma_file_rest_definitions(f, 0, tail, s);
    assert(file_events(f).drop_first() =~= file_rest(f, 0) + tail);
    assert(definitions_from(
        tail.drop_first(),
        path_after(tail[0], Seq::<Range>::empty()),
        s,
    ) =~= Seq::empty());
}

/// A search finds nothing exactly when no definition has the name.
pub proof fn lemma_first_match_none(defs: Seq<Definition>, target: Seq<u8>)
    ensures
        first_match(defs, target) is None <==> forall|k: int|
            0 <= k < defs.len() ==> (#[trigger] defs[k]).ident != target,
    decreases defs.len(),
{
    if defs.len() > 0 {
        let rest = defs.drop_first();
        lemma_first_match_none(rest, target);
        if defs[0].ident != target {
            if first_match(rest, target) is None {
                assert forall|k: int| 0 <= k < defs.len() implies (#[trigger] defs[k]).ident
                    != target by {
                    if k > 0 {
                        assert(defs[k] == rest[k - 1]);
                    }
                }
            } else {
                let k = choose|k: int| 0 <= k < rest.len() && (#[trigger] rest[k]).ident == target;
            }
        }
    }
}

} // verus!
