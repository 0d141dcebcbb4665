//! A walk over a declaration tree in source order, as a sequence of events.
//!
//! Interfaces and structs are entered and left, with their members in
//! between; every other declaration is a single event.
use vstd::prelude::*;

use crate::syntax::{
    Const, Enum, Import, Interface, InterfaceMember, Method, Module, MojomFile, Statement, Struct,
    StructBody, StructField, Union,
};

verus! {

/// One event of the walk.
#[derive(Debug, Clone, Copy, PartialEq)]
pub enum Traversal<'a> {
    EnterMojomFile(&'a MojomFile),
    LeaveMojomFile(&'a MojomFile),
    EnterInterface(&'a Interface),
    LeaveInterface(&'a Interface),
    EnterStruct(&'a Struct),
    LeaveStruct(&'a Struct),
    Module(&'a Module),
    Import(&'a Import),
    Method(&'a Method),
    Union(&'a Union),
    Enum(&'a Enum),
    Const(&'a Const),
    StructField(&'a StructField),
}

/// The event of a member of an interface.
pub open spec fn member_event<'a>(m: &'a InterfaceMember) -> Traversal<'a> {
    match m {
        InterfaceMember::Const(c) => Traversal::Const(c),
        InterfaceMember::Enum(e) => Traversal::Enum(e),
        InterfaceMember::Method(m) => Traversal::Method(m),
    }
}

/// The event of a member of a struct.
pub open spec fn item_event<'a>(m: &'a StructBody) -> Traversal<'a> {
    match m {
        StructBody::Const(c) => Traversal::Const(c),
        StructBody::Enum(e) => Traversal::Enum(e),
        StructBody::Field(f) => Traversal::StructField(f),
    }
}

/// The events of the members of `i` from member `pos` on.
pub open spec fn interface_rest<'a>(i: &'a Interface, pos: int) -> Seq<Traversal<'a>> {
    Seq::new((i.members@.len() - pos) as nat, |k: int| member_event(&i.members@[pos + k]))
}

/// The events of an interface: it is entered, each member is one event, it
/// is left.
pub open spec fn interface_events<'a>(i: &'a Interface) -> Seq<Traversal<'a>> {
    seq![Traversal::EnterInterface(i)] + interface_rest(i, 0) + seq![Traversal::LeaveInterface(i)]
}

/// The events of the members of `s` from member `pos` on.
pub open spec fn struct_rest<'a>(s: &'a Struct, pos: int) -> Seq<Traversal<'a>> {
    Seq::new((s.members@.len() - pos) as nat, |k: int| item_event(&s.members@[pos + k]))
}

/// The events of a struct: it is entered, each member is one event, it is
/// left.
pub open spec fn struct_events<'a>(s: &'a Struct) -> Seq<Traversal<'a>> {
    seq![Traversal::EnterStruct(s)] + struct_rest(s, 0) + seq![Traversal::LeaveStruct(s)]
}

/// The events of a statement at file scope.
pub open spec fn statement_events<'a>(t: &'a Statement) -> Seq<Traversal<'a>> {
    match t {
        Statement::Module(m) => seq![Traversal::Module(m)],
        Statement::Import(i) => seq![Traversal::Import(i)],
        Statement::Interface(i) => interface_events(i),
        Statement::Struct(s) => struct_events(s),
        Statement::Union(u) => seq![Traversal::Union(u)],
        Statement::Enum(e) => seq![Traversal::Enum(e)],
        Statement::Const(c) => seq![Traversal::Const(c)],
    }
}

/// The events of the statements of `f` from statement `pos` on.
pub open spec fn file_rest<'a>(f: &'a MojomFile, pos: int) -> Seq<Traversal<'a>>
    decreases f.stmts@.len() - pos,
{
    if pos < 0 || pos >= f.stmts@.len() {
        Seq::empty()
    } else {
        statement_events(&f.stmts@[pos]) + file_rest(f, pos + 1)
    }
}

/// The events of a whole file, in the order of the walk.
pub open spec fn file_events<'a>(f: &'a MojomFile) -> Seq<Traversal<'a>> {
    seq![Traversal::EnterMojomFile(f)] + file_rest(f, 0) + seq![Traversal::LeaveMojomFile(f)]
}

/// A node with members that the walk is inside of.
#[derive(Debug, Clone, Copy)]
pub enum Frame<'a> {
    /// The file, not entered yet.
    Start(&'a MojomFile),
    /// The file; the statement at the index comes next.
    File(&'a MojomFile, usize),
    /// An interface; the member at the index comes next.
    Interface(&'a Interface, usize),
    /// A struct; the member at the index comes next.
    Struct(&'a Struct, usize),
}

impl<'a> Frame<'a> {
    /// The index is not past the members of the node.
    pub open spec fn wf(self) -> bool {
        match self {
            Frame::Start(_) => true,
            Frame::File(f, pos) => pos <= f.stmts@.len(),
            Frame::Interface(i, pos) => pos <= i.members@.len(),
            Frame::Struct(s, pos) => pos <= s.members@.len(),
        }
    }

    /// The events that the node still gives.
    pub open spec fn events(self) -> Seq<Traversal<'a>> {
        match self {
            Frame::Start(f) => file_events(f),
            Frame::File(f, pos) => file_rest(f, pos as int) + seq![Traversal::LeaveMojomFile(f)],
            Frame::Interface(i, pos) => interface_rest(i, pos as int) + seq![
                Traversal::LeaveInterface(i),
            ],
            Frame::Struct(s, pos) => struct_rest(s, pos as int) + seq![Traversal::LeaveStruct(s)],
        }
    }
}

/// The events that a stack of frames still gives: those of the innermost
/// node, which is last in the stack, come first.
pub open spec fn stack_events<'a>(stack: Seq<Frame<'a>>) -> Seq<Traversal<'a>>
    decreases stack.len(),
{
    if stack.len() == 0 {
        Seq::empty()
    } else {
        stack.last().events() + stack_events(stack.drop_last())
    }
}

/// A walk over a file in progress.
pub struct Preorder<'a> {
    stack: Vec<Frame<'a>>,
}

impl<'a> Preorder<'a> {
    /// No frame of the walk points past the members of its node. This holds
    /// of every walk that `preorder` starts, at every step.
    pub closed spec fn wf(&self) -> bool {
        forall|k: int| 0 <= k < self.stack@.len() ==> (#[trigger] self.stack@[k]).wf()
    }

    /// The events that the walk has not given yet, in order.
    pub closed spec fn remaining(&self) -> Seq<Traversal<'a>> {
        stack_events(self.stack@)
    }

    /// Gives the next event of the walk, or `None` when the walk is over.
    pub fn next(&mut self) -> (r: Option<Traversal<'a>>)
        requires
            old(self).wf(),
        ensures
            final(self).wf(),
            match r {
                Some(t) => old(self).remaining().len() > 0 && t == old(self).remaining()[0]
                    && final(self).remaining() == old(self).remaining().drop_first(),
                None => old(self).remaining().len() == 0 && final(self).remaining().len() == 0,
            },
    {
        let ghost before = self.stack@;
        let frame = match self.stack.pop() {
            Some(frame) => frame,
            None => {
                return None;
            },
        };
        let ghost below = self.stack@;
        assert(below == before.drop_last());
        match frame {
            Frame::Start(f) => {
                self.stack.push(Frame::File(f, 0));
                proof {
                    assert(self.stack@.drop_last() == below);
                    assert(stack_events(before) == file_events(f) + stack_events(below));
                    assert(stack_events(before).drop_first() =~= stack_events(self.stack@));
                }
                Some(Traversal::EnterMojomFile(f))
            },
            Frame::File(f, pos) => {
                if pos >= f.stmts.len() {
                    return Some(Traversal::LeaveMojomFile(f));
                }
                self.stack.push(Frame::File(f, pos + 1));
                let ghost upper = self.stack@;
                assert(upper.drop_last() == below);
                match &f.stmts[pos] {
                    Statement::Module(m) => Some(Traversal::Module(m)),
                    Statement::Import(i) => Some(Traversal::Import(i)),
                    Statement::Union(u) => Some(Traversal::Union(u)),
                    Statement::Enum(e) => Some(Traversal::Enum(e)),
                    Statement::Const(c) => Some(Traversal::Const(c)),
                    Statement::Interface(i) => {
                        self.stack.push(Frame::Interface(i, 0));
                        proof {
                            assert(self.stack@.drop_last() == upper);
                            assert(interface_events(i).drop_first() =~= Frame::Interface(
                                i,
                                0,
                            ).events());
                        }
                        Some(Traversal::EnterInterface(i))
                    },
                    Statement::Struct(s) => {
                        self.stack.push(Frame::Struct(s, 0));
                        proof {
                            assert(self.stack@.drop_last() == upper);
                            assert(struct_events(s).drop_first() =~= Frame::Struct(
                                s,
                                0,
                            ).events());
                        }
                        Some(Traversal::EnterStruct(s))
                    },
                }
            },
            Frame::Interface(i, pos) => {
                if pos >= i.members.len() {
                    return Some(Traversal::LeaveInterface(i));
                }
                self.stack.push(Frame::Interface(i, pos + 1));
                proof {
                    assert(self.stack@.drop_last() == below);
                }
                let event = match &i.members[pos] {
                    InterfaceMember::Const(c) => Traversal::Const(c),
                    InterfaceMember::Enum(e) => Traversal::Enum(e),
                    InterfaceMember::Method(m) => Traversal::Method(m),
                };
                Some(event)
            },
            Frame::Struct(s, pos) => {
                if pos >= s.members.len() {
                    return Some(Traversal::LeaveStruct(s));
                }
                self.stack.push(Frame::Struct(s, pos + 1));
                proof {
                    assert(self.stack@.drop_last() == below);
                }
                let event = match &s.members[pos] {
                    StructBody::Const(c) => Traversal::Const(c),
                    StructBody::Enum(e) => Traversal::Enum(e),
                    StructBody::Field(f) => Traversal::StructField(f),
                };
                Some(event)
            },
        }
    }
}

/// Starts a walk over `mojom`. The events of the walk are those of
/// `file_events`, in that order.
pub fn preorder<'a>(mojom: &'a MojomFile) -> (r: Preorder<'a>)
    ensures
        r.wf(),
        r.remaining() == file_events(mojom),
{
    let mut stack: Vec<Frame<'a>> = Vec::new();
    stack.push(Frame::Start(mojom));
    proof {
        assert(stack_events(stack@.drop_last()) =~= Seq::empty());
    }
    Preorder { stack }
}

/// The number of events that a statement gives: an interface or a struct
/// gives one as it is entered, one for each member and one as it is left;
/// any other statement gives one.
pub open spec fn event_count(t: &Statement) -> int {
    match t {
        Statement::Interface(i) => i.members@.len() as int + 2,
        Statement::Struct(s) => s.members@.len() as int + 2,
        _ => 1,
    }
}

/// The number of events that the first `k` statements of `f` give.
pub open spec fn events_before(f: &MojomFile, k: int) -> int
    decreases k,
{
    if k <= 0 {
        0
    } else {
        events_before(f, k - 1) + event_count(&f.stmts@[k - 1])
    }
}

/// A statement gives as many events as `event_count` says.
pub proof fn lemma_event_count(t: &Statement)
    ensures
        statement_events(t).len() == event_count(t),
{
}

/// Among the events of the statements from `pos` on, those of statement
/// `k` stand together, after the events of the statements between.
proof fn lemma_rest_block(f: &MojomFile, pos: int, k: int)
    requires
        0 <= pos <= k < f.stmts@.len(),
    ensures
        events_before(f, pos) <= events_before(f, k),
        events_before(f, k) - events_before(f, pos) + event_count(&f.stmts@[k]) <= file_rest(
            f,
            pos,
        ).len(),
        file_rest(f, pos).subrange(
            events_before(f, k) - events_before(f, pos),
            events_before(f, k) - events_before(f, pos) + event_count(&f.stmts@[k]),
        ) == statement_events(&f.stmts@[k]),
    decreases k - pos,
{
    lemma_event_count(&f.stmts@[pos]);
    if pos < k {
        lemma_rest_block(f, pos + 1, k);
        lemma_events_before_step(f, pos, k);
    }
}

/// The first `pos + 1` statements give the events of the first `pos` and
/// those of statement `pos`; and no more than the first `k`, for a later
/// `k`.
proof fn lemma_events_before_step(f: &MojomFile, pos: int, k: int)
    requires
        0 <= pos < k,
    ensures
        events_before(f, pos + 1) == events_before(f, pos) + event_count(&f.stmts@[pos]),
        events_before(f, pos + 1) <= events_before(f, k),
    decreases k - pos,
{
    if pos + 1 < k {
        lemma_events_before_step(f, pos + 1, k);
    }
}

/// The walk over a file gives a block of events for each statement, in
/// source order: the events of statement `k` stand together, after the
/// entry of the file and the events of the statements before `k`. The block
/// of an interface or a struct is its entry, one event for each member in
/// order, and its leave; the block of any other statement is one event.
pub proof fn lemma_walk_blocks(f: &MojomFile, k: int)
    requires
        0 <= k < f.stmts@.len(),
    ensures
        1 + events_before(f, k) + event_count(&f.stmts@[k]) < file_events(f).len(),
        file_events(f).subrange(
            1 + events_before(f, k),
            1 + events_before(f, k) + event_count(&f.stmts@[k]),
        ) == statement_events(&f.stmts@[k]),
{
    lemma_rest_block(f, 0, k);
}

/// The walk over a file starts with the entry of the file and ends with
/// its leave, and gives nothing but the blocks of the statements between.
pub proof fn lemma_walk_ends(f: &MojomFile)
    ensures
        file_events(f).len() == events_before(f, f.stmts@.len() as int) + 2,
        file_events(f).first() == Traversal::EnterMojomFile(f),
        file_events(f).last() == Traversal::LeaveMojomFile(f),
{
    lemma_rest_length(f, 0);
}

/// The statements from `pos` on give the events that the statements before
/// `pos` do not.
proof fn lemma_rest_length(f: &MojomFile, pos: int)
    requires
        0 <= pos <= f.stmts@.len(),
    ensures
        file_rest(f, pos).len() + events_before(f, pos) == events_before(
            f,
            f.stmts@.len() as int,
        ),
    decreases f.stmts@.len() - pos,
{
    if pos < f.stmts@.len() {
        lemma_rest_length(f, pos + 1);
        lemma_event_count(&f.stmts@[pos]);
    }
}

} // verus!
