//! Groups a flat instruction sequence, as the parser reads it (`if`, `block`,
//! `loop`, `else` and `end` as separate instructions), into structured
//! instructions that hold their bodies.
use vstd::prelude::*;
use crate::error::Error;
use crate::model::{grouped_expr, grouped_instr, grouped_instrs, BlockType, Expression, Instruction};

verus! {

/// An instruction as grouping sees it: a structured instruction holds its
/// grouped bodies; any other instruction stands for itself.
pub ghost enum GNode {
    Plain(Instruction),
    If(BlockType, Seq<GNode>, Seq<GNode>),
    Block(BlockType, Seq<GNode>),
    Loop(BlockType, Seq<GNode>),
}

/// What a group still open is: the whole line, the `then` part of an `if`,
/// its `else` part (after the grouped `then` part), a `block` or a `loop`.
pub ghost enum GKind {
    Top,
    Then(BlockType),
    Else(BlockType, Seq<GNode>),
    Block(BlockType),
    Loop(BlockType),
}

/// A group still open, with the instructions grouped in it so far.
pub ghost struct GFrame {
    pub kind: GKind,
    pub items: Seq<GNode>,
}

/// How grouping sees a grouped instruction.
pub open spec fn gview(i: Instruction) -> GNode
    decreases i,
{
    match i {
        Instruction::If(bt, t, e) => match (t, e) {
            (Some(tb), Some(eb)) => {
                proof {
                    assert(decreases_to!(tb.instrs => tb.instrs@));
                    assert(decreases_to!(eb.instrs => eb.instrs@));
                }
                GNode::If(bt, gviews(tb.instrs@), gviews(eb.instrs@))
            },
            _ => GNode::Plain(i),
        },
        Instruction::Block(bt, b) => match b {
            Some(body) => {
                proof {
                    assert(decreases_to!(body.instrs => body.instrs@));
                }
                GNode::Block(bt, gviews(body.instrs@))
            },
            None => GNode::Plain(i),
        },
        Instruction::Loop(bt, b) => match b {
            Some(body) => {
                proof {
                    assert(decreases_to!(body.instrs => body.instrs@));
                }
                GNode::Loop(bt, gviews(body.instrs@))
            },
            None => GNode::Plain(i),
        },
        _ => GNode::Plain(i),
    }
}

/// How grouping sees a sequence of grouped instructions.
pub open spec fn gviews(s: Seq<Instruction>) -> Seq<GNode>
    decreases s,
{
    if s.len() == 0 {
        Seq::empty()
    } else {
        gviews(s.drop_last()).push(gview(s.last()))
    }
}

/// The open groups with `node` added to the innermost one.
pub open spec fn add_node(st: Seq<GFrame>, node: GNode) -> Seq<GFrame> {
    st.update(st.len() - 1, GFrame { kind: st.last().kind, items: st.last().items.push(node) })
}

/// The innermost group closed, and `node` added to the one around it.
pub open spec fn close_with(st: Seq<GFrame>, node: GNode) -> Seq<GFrame> {
    add_node(st.drop_last(), node)
}

/// The open groups after one more instruction: `if`, `block` and `loop` open
/// a group; `else` turns the `then` part of an `if` into its `else` part; `end`
/// closes the innermost group; anything else joins the innermost group. An
/// `else` or `end` that closes nothing fails; so does an `else` that closes
/// anything but the `then` part of an `if`.
pub open spec fn group_step(st: Seq<GFrame>, tok: Instruction) -> Result<Seq<GFrame>, Error> {
    let top = st.last();
    match tok {
        Instruction::If(bt, _, _) => Ok(st.push(GFrame { kind: GKind::Then(bt), items: Seq::empty() })),
        Instruction::Block(bt, _) => Ok(st.push(GFrame { kind: GKind::Block(bt), items: Seq::empty() })),
        Instruction::Loop(bt, _) => Ok(st.push(GFrame { kind: GKind::Loop(bt), items: Seq::empty() })),
        Instruction::Else => match top.kind {
            GKind::Then(bt) => Ok(st.update(st.len() - 1, GFrame { kind: GKind::Else(bt, top.items), items: Seq::empty() })),
            GKind::Top => Err(Error::UnexpectedEndOfBlock),
            _ => Err(Error::ExpectedEnd),
        },
        Instruction::End => match top.kind {
            GKind::Top => Err(Error::UnexpectedEndOfBlock),
            GKind::Then(bt) => Ok(close_with(st, GNode::If(bt, top.items, Seq::empty()))),
            GKind::Else(bt, then_items) => Ok(close_with(st, GNode::If(bt, then_items, top.items))),
            GKind::Block(bt) => Ok(close_with(st, GNode::Block(bt, top.items))),
            GKind::Loop(bt) => Ok(close_with(st, GNode::Loop(bt, top.items))),
        },
        _ => Ok(add_node(st, GNode::Plain(tok))),
    }
}

/// The groups open after the instructions `s`, or the first failure.
pub open spec fn group_run(s: Seq<Instruction>) -> Result<Seq<GFrame>, Error>
    decreases s.len(),
{
    if s.len() == 0 {
        Ok(seq![GFrame { kind: GKind::Top, items: Seq::empty() }])
    } else {
        match group_run(s.drop_last()) {
            Ok(st) => group_step(st, s.last()),
            Err(e) => Err(e),
        }
    }
}

/// The end of the input: the `then` part of an `if` closes by itself (with an
/// empty `else` part); an open `else` part, `block` or `loop` fails.
pub open spec fn group_finish(st: Seq<GFrame>) -> Result<Seq<GNode>, Error>
    decreases st.len(),
{
    if st.len() <= 1 {
        Ok(st[0].items)
    } else {
        match st.last().kind {
            GKind::Then(bt) => group_finish(close_with(st, GNode::If(bt, st.last().items, Seq::empty()))),
            _ => Err(Error::ExpectedEnd),
        }
    }
}

/// The grouping of a flat instruction sequence, or why there is none.
pub open spec fn grouping(s: Seq<Instruction>) -> Result<Seq<GNode>, Error> {
    match group_run(s) {
        Ok(st) => group_finish(st),
        Err(e) => Err(e),
    }
}

/// A grouped instruction ready to run: no bare `else` or `end`, and every
/// structured instruction holds its bodies, all of them ready to run.
pub open spec fn ready(n: GNode) -> bool
    decreases n,
{
    match n {
        GNode::Plain(i) => !(i is Else) && !(i is End) && !(i is If) && !(i is Block) && !(i is Loop),
        GNode::If(_, t, e) => readies(t) && readies(e),
        GNode::Block(_, b) => readies(b),
        GNode::Loop(_, b) => readies(b),
    }
}

/// Every grouped instruction of the sequence is ready to run.
pub open spec fn readies(s: Seq<GNode>) -> bool
    decreases s,
{
    if s.len() == 0 {
        true
    } else {
        readies(s.drop_last()) && ready(s.last())
    }
}

/// The open groups are those grouping builds: the whole line first, then
/// only `if`, `block` and `loop` groups, all holding instructions ready to
/// run.
pub open spec fn open_ready(st: Seq<GFrame>) -> bool {
    &&& st.len() >= 1
    &&& st[0].kind is Top
    &&& forall|i: int| 1 <= i < st.len() ==> !(#[trigger] st[i].kind is Top)
    &&& forall|i: int| 0 <= i < st.len() ==> readies(#[trigger] st[i].items)
    &&& forall|i: int| 0 <= i < st.len() ==> (#[trigger] st[i].kind matches GKind::Else(_, t) ==> readies(t))
}

proof fn lemma_readies_push(s: Seq<GNode>, n: GNode)
    ensures
        readies(s.push(n)) == (readies(s) && ready(n)),
{
    assert(s.push(n).drop_last() =~= s);
}

/// Adding a ready instruction to the innermost group keeps the groups ready.
proof fn lemma_add_ready(st: Seq<GFrame>, n: GNode)
    requires
        open_ready(st),
        ready(n),
    ensures
        open_ready(add_node(st, n)),
{
    lemma_readies_push(st.last().items, n);
    let st2 = add_node(st, n);
    assert forall|i: int| 0 <= i < st2.len() implies readies(#[trigger] st2[i].items) by {
        if i < st.len() - 1 {
            assert(st2[i] == st[i]);
        }
    }
    assert forall|i: int| 0 <= i < st2.len() implies (#[trigger] st2[i].kind matches GKind::Else(_, t) ==> readies(t)) by {
        assert(st2[i].kind == st[i].kind);
    }
    assert forall|i: int| 1 <= i < st2.len() implies !(#[trigger] st2[i].kind is Top) by {
        assert(st2[i].kind == st[i].kind);
    }
}

/// Closing the innermost group into a ready instruction keeps the groups
/// ready.
proof fn lemma_close_ready(st: Seq<GFrame>, n: GNode)
    requires
        open_ready(st),
        st.len() >= 2,
        ready(n),
    ensures
        open_ready(close_with(st, n)),
{
    let d = st.drop_last();
    assert forall|i: int| 0 <= i < d.len() implies readies(#[trigger] d[i].items) by {
        assert(d[i] == st[i]);
    }
    assert forall|i: int| 0 <= i < d.len() implies (#[trigger] d[i].kind matches GKind::Else(_, t) ==> readies(t)) by {
        assert(d[i] == st[i]);
    }
    assert forall|i: int| 1 <= i < d.len() implies !(#[trigger] d[i].kind is Top) by {
        assert(d[i] == st[i]);
    }
    assert(d[0] == st[0]);
    lemma_add_ready(d, n);
}

/// One step of grouping keeps the groups ready.
proof fn lemma_step_ready(st: Seq<GFrame>, tok: Instruction)
    requires
        open_ready(st),
    ensures
        group_step(st, tok) matches Ok(st2) ==> open_ready(st2),
{
    let top = st.last();
    assert(readies(top.items));
    assert(readies(Seq::<GNode>::empty()));
    match tok {
        Instruction::If(bt, _, _) => {
            let st2 = st.push(GFrame { kind: GKind::Then(bt), items: Seq::empty() });
            assert forall|i: int| 0 <= i < st2.len() implies readies(#[trigger] st2[i].items) by {
                if i < st.len() { assert(st2[i] == st[i]); }
            }
            assert forall|i: int| 0 <= i < st2.len() implies (#[trigger] st2[i].kind matches GKind::Else(_, t) ==> readies(t)) by {
                if i < st.len() { assert(st2[i] == st[i]); }
            }
            assert forall|i: int| 1 <= i < st2.len() implies !(#[trigger] st2[i].kind is Top) by {
                if i < st.len() { assert(st2[i] == st[i]); }
            }
        },
        Instruction::Block(bt, _) => {
            let st2 = st.push(GFrame { kind: GKind::Block(bt), items: Seq::empty() });
            assert forall|i: int| 0 <= i < st2.len() implies readies(#[trigger] st2[i].items) by {
                if i < st.len() { assert(st2[i] == st[i]); }
            }
            assert forall|i: int| 0 <= i < st2.len() implies (#[trigger] st2[i].kind matches GKind::Else(_, t) ==> readies(t)) by {
                if i < st.len() { assert(st2[i] == st[i]); }
            }
            assert forall|i: int| 1 <= i < st2.len() implies !(#[trigger] st2[i].kind is Top) by {
                if i < st.len() { assert(st2[i] == st[i]); }
            }
        },
        Instruction::Loop(bt, _) => {
            let st2 = st.push(GFrame { kind: GKind::Loop(bt), items: Seq::empty() });
            assert forall|i: int| 0 <= i < st2.len() implies readies(#[trigger] st2[i].items) by {
                if i < st.len() { assert(st2[i] == st[i]); }
            }
            assert forall|i: int| 0 <= i < st2.len() implies (#[trigger] st2[i].kind matches GKind::Else(_, t) ==> readies(t)) by {
                if i < st.len() { assert(st2[i] == st[i]); }
            }
            assert forall|i: int| 1 <= i < st2.len() implies !(#[trigger] st2[i].kind is Top) by {
                if i < st.len() { assert(st2[i] == st[i]); }
            }
        },
        Instruction::Else => {
            if let GKind::Then(bt) = top.kind {
                let st2 = st.update(st.len() - 1, GFrame { kind: GKind::Else(bt, top.items), items: Seq::empty() });
                assert forall|i: int| 0 <= i < st2.len() implies readies(#[trigger] st2[i].items) by {
                    if i < st.len() - 1 { assert(st2[i] == st[i]); }
                }
                assert forall|i: int| 0 <= i < st2.len() implies (#[trigger] st2[i].kind matches GKind::Else(_, t) ==> readies(t)) by {
                    if i < st.len() - 1 { assert(st2[i] == st[i]); }
                }
                assert forall|i: int| 1 <= i < st2.len() implies !(#[trigger] st2[i].kind is Top) by {
                    if i < st.len() - 1 { assert(st2[i] == st[i]); }
                }
            }
        },
        Instruction::End => {
            match top.kind {
                GKind::Top => {},
                GKind::Then(bt) => {
                    assert(ready(GNode::If(bt, top.items, Seq::empty())));
                    lemma_close_ready(st, GNode::If(bt, top.items, Seq::empty()));
                },
                GKind::Else(bt, t) => {
                    assert(readies(t));
                    assert(ready(GNode::If(bt, t, top.items)));
                    lemma_close_ready(st, GNode::If(bt, t, top.items));
                },
                GKind::Block(bt) => {
                    lemma_close_ready(st, GNode::Block(bt, top.items));
                },
                GKind::Loop(bt) => {
                    lemma_close_ready(st, GNode::Loop(bt, top.items));
                },
            }
        },
        _ => {
            lemma_add_ready(st, GNode::Plain(tok));
        },
    }
}

/// The groups open after any prefix are ready.
proof fn lemma_run_ready(s: Seq<Instruction>)
    ensures
        group_run(s) matches Ok(st) ==> open_ready(st),
    decreases s.len(),
{
    if s.len() == 0 {
        let st = seq![GFrame { kind: GKind::Top, items: Seq::empty() }];
        assert(readies(st[0].items));
    } else {
        lemma_run_ready(s.drop_last());
        if let Ok(st) = group_run(s.drop_last()) {
            lemma_step_ready(st, s.last());
        }
    }
}

/// What the end of the input leaves is ready.
proof fn lemma_finish_ready(st: Seq<GFrame>)
    requires
        open_ready(st),
    ensures
        group_finish(st) matches Ok(nodes) ==> readies(nodes),
    decreases st.len(),
{
    if st.len() > 1 {
        if let GKind::Then(bt) = st.last().kind {
            assert(readies(Seq::<GNode>::empty()));
            assert(ready(GNode::If(bt, st.last().items, Seq::empty())));
            lemma_close_ready(st, GNode::If(bt, st.last().items, Seq::empty()));
            lemma_finish_ready(close_with(st, GNode::If(bt, st.last().items, Seq::empty())));
        }
    }
}

/// Grouping gives instructions ready to run.
pub proof fn lemma_grouping_ready(s: Seq<Instruction>)
    ensures
        grouping(s) matches Ok(nodes) ==> readies(nodes),
{
    lemma_run_ready(s);
    if let Ok(st) = group_run(s) {
        lemma_finish_ready(st);
    }
}

/// An instruction that grouping sees as ready is ready to run.
pub proof fn lemma_view_ready(i: Instruction)
    requires
        ready(gview(i)),
    ensures
        grouped_instr(i),
    decreases i,
{
    match i {
        Instruction::If(bt, Some(t), Some(e)) => {
            assert(decreases_to!(t.instrs => t.instrs@));
            assert(decreases_to!(e.instrs => e.instrs@));
            lemma_views_ready(t.instrs@);
            lemma_views_ready(e.instrs@);
        },
        Instruction::Block(bt, Some(b)) => {
            assert(decreases_to!(b.instrs => b.instrs@));
            lemma_views_ready(b.instrs@);
        },
        Instruction::Loop(bt, Some(b)) => {
            assert(decreases_to!(b.instrs => b.instrs@));
            lemma_views_ready(b.instrs@);
        },
        _ => {},
    }
}

/// Instructions that grouping sees as ready are ready to run.
pub proof fn lemma_views_ready(s: Seq<Instruction>)
    requires
        readies(gviews(s)),
    ensures
        grouped_instrs(s),
    decreases s,
{
    if s.len() > 0 {
        lemma_readies_push(gviews(s.drop_last()), gview(s.last()));
        lemma_views_ready(s.drop_last());
        lemma_view_ready(s.last());
    }
}

/// An instruction as the parser reads it: a structured instruction without
/// the bodies that grouping fills in.
pub open spec fn head(i: Instruction) -> Instruction {
    match i {
        Instruction::If(bt, _, _) => Instruction::If(bt, None, None),
        Instruction::Block(bt, _) => Instruction::Block(bt, None),
        Instruction::Loop(bt, _) => Instruction::Loop(bt, None),
        _ => i,
    }
}

/// The instructions that grouping uses up: `else` and `end`.
pub open spec fn dropped(i: Instruction) -> bool {
    i is Else || i is End
}

/// What grouping keeps of a flat sequence, in order: every instruction but
/// `else` and `end`, structured ones without bodies.
pub open spec fn kept(s: Seq<Instruction>) -> Seq<Instruction>
    decreases s.len(),
{
    if s.len() == 0 {
        Seq::empty()
    } else if dropped(s.last()) {
        kept(s.drop_last())
    } else {
        kept(s.drop_last()).push(head(s.last()))
    }
}

/// A grouped instruction listed flat again: its head, then the instructions
/// of its bodies in order, with no `else` or `end`.
pub open spec fn listing(n: GNode) -> Seq<Instruction>
    decreases n,
{
    match n {
        GNode::Plain(i) => seq![i],
        GNode::If(bt, t, e) => seq![Instruction::If(bt, None, None)] + listings(t) + listings(e),
        GNode::Block(bt, b) => seq![Instruction::Block(bt, None)] + listings(b),
        GNode::Loop(bt, b) => seq![Instruction::Loop(bt, None)] + listings(b),
    }
}

/// A sequence of grouped instructions listed flat again.
pub open spec fn listings(s: Seq<GNode>) -> Seq<Instruction>
    decreases s,
{
    if s.len() == 0 {
        Seq::empty()
    } else {
        listings(s.drop_last()) + listing(s.last())
    }
}

/// An open group listed flat: the head that opened it, what it holds so far
/// (for an `else` part, the grouped `then` part first).
spec fn frame_listing(f: GFrame) -> Seq<Instruction> {
    match f.kind {
        GKind::Top => listings(f.items),
        GKind::Then(bt) => seq![Instruction::If(bt, None, None)] + listings(f.items),
        GKind::Else(bt, t) => seq![Instruction::If(bt, None, None)] + listings(t) + listings(f.items),
        GKind::Block(bt) => seq![Instruction::Block(bt, None)] + listings(f.items),
        GKind::Loop(bt) => seq![Instruction::Loop(bt, None)] + listings(f.items),
    }
}

/// The open groups listed flat, outermost first.
spec fn frames_listing(st: Seq<GFrame>) -> Seq<Instruction>
    decreases st.len(),
{
    if st.len() == 0 {
        Seq::empty()
    } else {
        frames_listing(st.drop_last()) + frame_listing(st.last())
    }
}

proof fn lemma_listings_push(s: Seq<GNode>, n: GNode)
    ensures
        listings(s.push(n)) == listings(s) + listing(n),
{
    assert(s.push(n).drop_last() =~= s);
}

/// Adding an instruction to the innermost group adds its listing at the end.
proof fn lemma_add_listing(st: Seq<GFrame>, n: GNode)
    requires
        st.len() >= 1,
    ensures
        frames_listing(add_node(st, n)) == frames_listing(st) + listing(n),
{
    let st2 = add_node(st, n);
    let top = st.last();
    lemma_listings_push(top.items, n);
    assert(st2.drop_last() =~= st.drop_last());
    assert(st2.last() == GFrame { kind: top.kind, items: top.items.push(n) });
    let l = listing(n);
    let li = listings(top.items);
    match top.kind {
        GKind::Top => {},
        GKind::Then(bt) => {
            assert(seq![Instruction::If(bt, None, None)] + (li + l) =~= (seq![Instruction::If(bt, None, None)] + li) + l);
        },
        GKind::Else(bt, t) => {
            let h = seq![Instruction::If(bt, None, None)] + listings(t);
            assert(h + (li + l) =~= (h + li) + l);
        },
        GKind::Block(bt) => {
            assert(seq![Instruction::Block(bt, None)] + (li + l) =~= (seq![Instruction::Block(bt, None)] + li) + l);
        },
        GKind::Loop(bt) => {
            assert(seq![Instruction::Loop(bt, None)] + (li + l) =~= (seq![Instruction::Loop(bt, None)] + li) + l);
        },
    }
    assert(frames_listing(st2) =~= frames_listing(st) + l);
}

/// Closing the innermost group into `n`: the listing of `n` takes the place
/// of the group's own.
proof fn lemma_close_listing(st: Seq<GFrame>, n: GNode)
    requires
        st.len() >= 2,
        listing(n) == frame_listing(st.last()),
    ensures
        frames_listing(close_with(st, n)) == frames_listing(st),
{
    lemma_add_listing(st.drop_last(), n);
}

/// One step of grouping lists what it kept of the instruction at the end.
proof fn lemma_step_listing(st: Seq<GFrame>, tok: Instruction)
    requires
        open_ready(st),
    ensures
        group_step(st, tok) matches Ok(st2) ==> frames_listing(st2) == (
            if dropped(tok) { frames_listing(st) } else { frames_listing(st).push(head(tok)) }),
{
    let top = st.last();
    let li = listings(top.items);
    assert(listings(Seq::<GNode>::empty()) =~= Seq::<Instruction>::empty());
    match tok {
        Instruction::If(bt, _, _) => {
            let st2 = st.push(GFrame { kind: GKind::Then(bt), items: Seq::empty() });
            assert(st2.drop_last() =~= st);
            assert(frames_listing(st2) =~= frames_listing(st).push(head(tok)));
        },
        Instruction::Block(bt, _) => {
            let st2 = st.push(GFrame { kind: GKind::Block(bt), items: Seq::empty() });
            assert(st2.drop_last() =~= st);
            assert(frames_listing(st2) =~= frames_listing(st).push(head(tok)));
        },
        Instruction::Loop(bt, _) => {
            let st2 = st.push(GFrame { kind: GKind::Loop(bt), items: Seq::empty() });
            assert(st2.drop_last() =~= st);
            assert(frames_listing(st2) =~= frames_listing(st).push(head(tok)));
        },
        Instruction::Else => {
            if let GKind::Then(bt) = top.kind {
                let st2 = st.update(st.len() - 1, GFrame { kind: GKind::Else(bt, top.items), items: Seq::empty() });
                assert(st2.drop_last() =~= st.drop_last());
                assert(frame_listing(st2.last()) =~= frame_listing(top));
            }
        },
        Instruction::End => {
            if st.len() >= 2 {
                assert(!(st[st.len() - 1].kind is Top));
                match top.kind {
                    GKind::Top => {},
                    GKind::Then(bt) => {
                        let n = GNode::If(bt, top.items, Seq::empty());
                        assert(listing(n) =~= frame_listing(top));
                        lemma_close_listing(st, n);
                    },
                    GKind::Else(bt, t) => {
                        let n = GNode::If(bt, t, top.items);
                        assert(listing(n) =~= frame_listing(top));
                        lemma_close_listing(st, n);
                    },
                    GKind::Block(bt) => {
                        let n = GNode::Block(bt, top.items);
                        assert(listing(n) =~= frame_listing(top));
                        lemma_close_listing(st, n);
                    },
                    GKind::Loop(bt) => {
                        let n = GNode::Loop(bt, top.items);
                        assert(listing(n) =~= frame_listing(top));
                        lemma_close_listing(st, n);
                    },
                }
            }
        },
        _ => {
            lemma_add_listing(st, GNode::Plain(tok));
            assert(listing(GNode::Plain(tok)) =~= seq![head(tok)]);
        },
    }
}

/// The groups open after any prefix list what grouping kept of it.
proof fn lemma_run_listing(s: Seq<Instruction>)
    ensures
        group_run(s) matches Ok(st) ==> frames_listing(st) == kept(s),
    decreases s.len(),
{
    lemma_run_ready(s);
    if s.len() == 0 {
        let st = seq![GFrame { kind: GKind::Top, items: Seq::empty() }];
        assert(st.drop_last() =~= Seq::<GFrame>::empty());
        assert(frames_listing(Seq::<GFrame>::empty()) == Seq::<Instruction>::empty());
        assert(listings(Seq::<GNode>::empty()) == Seq::<Instruction>::empty());
        assert(frames_listing(st) =~= Seq::<Instruction>::empty());
    } else {
        lemma_run_listing(s.drop_last());
        lemma_run_ready(s.drop_last());
        if let Ok(st) = group_run(s.drop_last()) {
            lemma_step_listing(st, s.last());
        }
    }
}

/// What the end of the input leaves lists the same as the open groups.
proof fn lemma_finish_listing(st: Seq<GFrame>)
    requires
        open_ready(st),
    ensures
        group_finish(st) matches Ok(nodes) ==> listings(nodes) == frames_listing(st),
    decreases st.len(),
{
    if st.len() <= 1 {
        assert(st.drop_last() =~= Seq::<GFrame>::empty());
        assert(frames_listing(Seq::<GFrame>::empty()) == Seq::<Instruction>::empty());
        assert(frames_listing(st) =~= listings(st[0].items));
    } else {
        if let GKind::Then(bt) = st.last().kind {
            let n = GNode::If(bt, st.last().items, Seq::empty());
            assert(listings(Seq::<GNode>::empty()) =~= Seq::<Instruction>::empty());
            assert(listing(n) =~= frame_listing(st.last()));
            assert(readies(Seq::<GNode>::empty()));
            lemma_close_ready(st, n);
            lemma_close_listing(st, n);
            lemma_finish_listing(close_with(st, n));
        }
    }
}

/// Grouping drops exactly the `else` and `end` instructions and keeps the
/// order of the rest: listing its result flat again gives the input without
/// them.
pub proof fn lemma_grouping_keeps_order(s: Seq<Instruction>)
    ensures
        grouping(s) matches Ok(nodes) ==> listings(nodes) == kept(s),
{
    lemma_run_ready(s);
    lemma_run_listing(s);
    if let Ok(st) = group_run(s) {
        lemma_finish_listing(st);
    }
}

/// Open groups in the making.
enum FrameKind {
    Top,
    Then(BlockType),
    Else(BlockType, Vec<Instruction>),
    Block(BlockType),
    Loop(BlockType),
}

struct Frame {
    kind: FrameKind,
    items: Vec<Instruction>,
}

spec fn kind_view(k: FrameKind) -> GKind {
    match k {
        FrameKind::Top => GKind::Top,
        FrameKind::Then(bt) => GKind::Then(bt),
        FrameKind::Else(bt, t) => GKind::Else(bt, gviews(t@)),
        FrameKind::Block(bt) => GKind::Block(bt),
        FrameKind::Loop(bt) => GKind::Loop(bt),
    }
}

spec fn frame_view(f: Frame) -> GFrame {
    GFrame { kind: kind_view(f.kind), items: gviews(f.items@) }
}

spec fn frames_view(fs: Seq<Frame>) -> Seq<GFrame> {
    fs.map_values(|f: Frame| frame_view(f))
}

/// Only the outermost group is the whole line.
spec fn frames_ok(fs: Seq<Frame>) -> bool {
    &&& fs.len() >= 1
    &&& fs[0].kind is Top
    &&& forall|i: int| 1 <= i < fs.len() ==> !(#[trigger] fs[i].kind is Top)
}

proof fn lemma_gviews_push(s: Seq<Instruction>, x: Instruction)
    ensures
        gviews(s.push(x)) == gviews(s).push(gview(x)),
{
    assert(s.push(x).drop_last() =~= s);
}

/// Once grouping fails, it fails the same way whatever follows.
proof fn lemma_run_err(s: Seq<Instruction>, i: int)
    requires
        0 <= i <= s.len(),
        group_run(s.subrange(0, i)) is Err,
    ensures
        group_run(s) == group_run(s.subrange(0, i)),
    decreases s.len() - i,
{
    if i < s.len() {
        assert(s.subrange(0, i + 1).drop_last() =~= s.subrange(0, i));
        lemma_run_err(s, i + 1);
    } else {
        assert(s.subrange(0, i) =~= s);
    }
}

/// Adds a grouped instruction to the innermost group.
fn add_to_top(frames: &mut Vec<Frame>, node: Instruction)
    requires
        frames_ok(old(frames)@),
    ensures
        frames_ok(final(frames)@),
        frames_view(final(frames)@) == add_node(frames_view(old(frames)@), gview(node)),
{
    let ghost fs0 = frames@;
    let mut top = match frames.pop() {
        Some(f) => f,
        None => return,
    };
    let ghost items0 = top.items@;
    top.items.push(node);
    frames.push(top);
    proof {
        lemma_gviews_push(items0, node);
        assert(frames_view(frames@) =~= add_node(frames_view(fs0), gview(node)));
        assert forall|i: int| 1 <= i < frames@.len() implies !(#[trigger] frames@[i].kind is Top) by {
            assert(frames@[i].kind == fs0[i].kind);
        }
    }
}

/// An `else`: the `then` part of the innermost `if` is grouped; its `else`
/// part opens.
fn close_else(frames: &mut Vec<Frame>) -> (r: Result<(), Error>)
    requires
        frames_ok(old(frames)@),
    ensures
        r is Ok ==> frames_ok(final(frames)@),
        match group_step(frames_view(old(frames)@), Instruction::Else) {
            Ok(st) => r is Ok && frames_view(final(frames)@) == st,
            Err(e) => r == Err::<(), Error>(e),
        },
{
    let ghost fs0 = frames@;
    let top = match frames.pop() {
        Some(f) => f,
        None => return Err(Error::UnexpectedEndOfBlock),
    };
    match top.kind {
        FrameKind::Then(bt) => {
            frames.push(Frame { kind: FrameKind::Else(bt, top.items), items: Vec::new() });
            proof {
                assert(gviews(Seq::<Instruction>::empty()) == Seq::<GNode>::empty());
                assert(frames_view(frames@) =~= frames_view(fs0).update(fs0.len() - 1,
                    GFrame { kind: GKind::Else(bt, gviews(top.items@)), items: Seq::empty() }));
                assert forall|i: int| 1 <= i < frames@.len() implies !(#[trigger] frames@[i].kind is Top) by {
                    if i < fs0.len() - 1 {
                        assert(frames@[i].kind == fs0[i].kind);
                    }
                }
            }
            Ok(())
        },
        FrameKind::Top => Err(Error::UnexpectedEndOfBlock),
        _ => Err(Error::ExpectedEnd),
    }
}

/// An `end`: the innermost group closes and joins the one around it.
fn close_end(frames: &mut Vec<Frame>) -> (r: Result<(), Error>)
    requires
        frames_ok(old(frames)@),
    ensures
        r is Ok ==> frames_ok(final(frames)@),
        match group_step(frames_view(old(frames)@), Instruction::End) {
            Ok(st) => r is Ok && frames_view(final(frames)@) == st,
            Err(e) => r == Err::<(), Error>(e),
        },
{
    let ghost fs0 = frames@;
    let top = match frames.pop() {
        Some(f) => f,
        None => return Err(Error::UnexpectedEndOfBlock),
    };
    let node = match top.kind {
        FrameKind::Top => return Err(Error::UnexpectedEndOfBlock),
        FrameKind::Then(bt) => Instruction::If(bt, Some(Expression { instrs: top.items }), Some(Expression { instrs: Vec::new() })),
        FrameKind::Else(bt, then_items) => Instruction::If(bt, Some(Expression { instrs: then_items }), Some(Expression { instrs: top.items })),
        FrameKind::Block(bt) => Instruction::Block(bt, Some(Expression { instrs: top.items })),
        FrameKind::Loop(bt) => Instruction::Loop(bt, Some(Expression { instrs: top.items })),
    };
    proof {
        assert(gviews(Seq::<Instruction>::empty()) == Seq::<GNode>::empty());
        assert(frames_view(frames@) =~= frames_view(fs0).drop_last());
    }
    add_to_top(frames, node);
    Ok(())
}

/// Groups the flat instruction sequence `instrs` (see `grouping`).
pub fn group_expr(instrs: Vec<Instruction>) -> (r: Result<Expression, Error>)
    ensures
        match grouping(instrs@) {
            Ok(nodes) => r matches Ok(e) && gviews(e.instrs@) == nodes,
            Err(err) => r == Err::<Expression, Error>(err),
        },
        r matches Ok(e) ==> grouped_expr(e),
        r matches Ok(e) ==> listings(gviews(e.instrs@)) == kept(instrs@),
{
    let ghost s = instrs@;
    let n = instrs.len();
    let mut rest = instrs;
    let mut rev: Vec<Instruction> = Vec::new();
    proof {
        assert(s.subrange(0, n as int) =~= s);
    }
    while rest.len() > 0
        invariant
            n == s.len(),
            rest@ == s.subrange(0, n - rev@.len()),
            rev@.len() <= n,
            forall|k: int| 0 <= k < rev@.len() ==> #[trigger] rev@[k] == s[n - 1 - k],
        decreases rest@.len(),
    {
        let x = rest.pop().unwrap();
        rev.push(x);
    }
    let mut frames: Vec<Frame> = Vec::new();
    frames.push(Frame { kind: FrameKind::Top, items: Vec::new() });
    proof {
        assert(frames_view(frames@) =~= seq![GFrame { kind: GKind::Top, items: Seq::empty() }]);
        assert(s.subrange(0, 0) =~= Seq::<Instruction>::empty());
    }
    while rev.len() > 0
        invariant
            n == s.len(),
            rev@.len() <= n,
            forall|k: int| 0 <= k < rev@.len() ==> #[trigger] rev@[k] == s[n - 1 - k],
            frames_ok(frames@),
            s == instrs@,
            group_run(s.subrange(0, n - rev@.len())) == Ok::<Seq<GFrame>, Error>(frames_view(frames@)),
        decreases rev@.len(),
    {
        let ghost i = n - rev@.len();
        let ghost st0 = frames_view(frames@);
        let tok = rev.pop().unwrap();
        proof {
            assert(tok == s[i]);
            assert(s.subrange(0, i + 1).drop_last() =~= s.subrange(0, i));
            assert(s.subrange(0, i + 1).last() == s[i]);
        }
        match tok {
            Instruction::If(bt, _, _) => {
                frames.push(Frame { kind: FrameKind::Then(bt), items: Vec::new() });
                proof {
                    assert(frames_view(frames@) =~= st0.push(GFrame { kind: GKind::Then(bt), items: Seq::empty() }));
                }
            },
            Instruction::Block(bt, _) => {
                frames.push(Frame { kind: FrameKind::Block(bt), items: Vec::new() });
                proof {
                    assert(frames_view(frames@) =~= st0.push(GFrame { kind: GKind::Block(bt), items: Seq::empty() }));
                }
            },
            Instruction::Loop(bt, _) => {
                frames.push(Frame { kind: FrameKind::Loop(bt), items: Vec::new() });
                proof {
                    assert(frames_view(frames@) =~= st0.push(GFrame { kind: GKind::Loop(bt), items: Seq::empty() }));
                }
            },
            Instruction::Else => {
                match close_else(&mut frames) {
                    Ok(()) => {},
                    Err(e) => {
                        proof {
                            assert(group_run(s.subrange(0, i + 1)) == group_step(st0, tok));
                            assert(group_step(st0, tok) == Err::<Seq<GFrame>, Error>(e));
                            lemma_run_err(s, i + 1);
                            assert(grouping(s) == Err::<Seq<GNode>, Error>(e));
                        }
                        return Err(e);
                    },
                }
            },
            Instruction::End => {
                match close_end(&mut frames) {
                    Ok(()) => {},
                    Err(e) => {
                        proof {
                            assert(group_run(s.subrange(0, i + 1)) == group_step(st0, tok));
                            assert(group_step(st0, tok) == Err::<Seq<GFrame>, Error>(e));
                            lemma_run_err(s, i + 1);
                            assert(grouping(s) == Err::<Seq<GNode>, Error>(e));
                        }
                        return Err(e);
                    },
                }
            },
            other => {
                add_to_top(&mut frames, other);
            },
        }
    }
    proof {
        assert(s.subrange(0, n as int) =~= s);
    }
    while frames.len() > 1
        invariant
            frames_ok(frames@),
            s == instrs@,
            grouping(s) == group_finish(frames_view(frames@)),
        decreases frames@.len(),
    {
        let ghost fs0 = frames@;
        let top = frames.pop().unwrap();
        match top.kind {
            FrameKind::Then(bt) => {
                let node = Instruction::If(bt, Some(Expression { instrs: top.items }), Some(Expression { instrs: Vec::new() }));
                proof {
                    assert(gviews(Seq::<Instruction>::empty()) == Seq::<GNode>::empty());
                    assert(frames_view(frames@) =~= frames_view(fs0).drop_last());
                }
                add_to_top(&mut frames, node);
            },
            _ => {
                proof {
                    assert(frames_view(fs0)[fs0.len() - 1] == frame_view(fs0[fs0.len() - 1]));
                    assert(!(fs0[fs0.len() - 1].kind is Top));
                }
                return Err(Error::ExpectedEnd);
            },
        }
    }
    let top = match frames.pop() {
        Some(f) => f,
        None => return Err(Error::UnexpectedEndOfBlock),
    };
    proof {
        lemma_grouping_ready(s);
        lemma_grouping_keeps_order(s);
        if readies(gviews(top.items@)) {
            lemma_views_ready(top.items@);
        }
    }
    Ok(Expression { instrs: top.items })
}

} // verus!
