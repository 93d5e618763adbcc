//! Splits a flat instruction sequence into chunks: runs of instructions,
//! and `if` instructions holding the chunks of their two branches. The
//! instructions themselves are not copied: a chunk refers to them.
use vstd::prelude::*;
use crate::error::Error;
use crate::model::Instruction;

verus! {

/// A command as chunking sees it.
pub ghost enum CNode {
    Instr(Instruction),
    If(Seq<CNode>, Seq<CNode>),
}

/// What a chunk still open is: the whole sequence, the `then` branch of an
/// `if`, or its `else` branch (after the `then` branch).
pub ghost enum CKind {
    Top,
    Then,
    Else(Seq<CNode>),
}

/// A chunk still open, with its commands so far.
pub ghost struct CFrame {
    pub kind: CKind,
    pub items: Seq<CNode>,
}

/// A run of commands.
#[derive(PartialEq, Debug)]
pub struct Chunk<'a> {
    pub commands: Vec<Command<'a>>,
}

/// One instruction, or an `if` with the chunks of its branches.
#[derive(PartialEq, Debug)]
pub enum Command<'a> {
    Instr(&'a Instruction),
    If(Chunk<'a>, Chunk<'a>),
}

/// How chunking sees a command.
pub open spec fn cview(c: Command) -> CNode
    decreases c,
{
    match c {
        Command::Instr(i) => CNode::Instr(*i),
        Command::If(a, b) => {
            proof {
                assert(decreases_to!(a.commands => a.commands@));
                assert(decreases_to!(b.commands => b.commands@));
            }
            CNode::If(cviews(a.commands@), cviews(b.commands@))
        },
    }
}

/// How chunking sees a sequence of commands.
pub open spec fn cviews(s: Seq<Command>) -> Seq<CNode>
    decreases s,
{
    if s.len() == 0 {
        Seq::empty()
    } else {
        cviews(s.drop_last()).push(cview(s.last()))
    }
}

/// The open chunks with `node` added to the innermost one.
pub open spec fn add_cnode(st: Seq<CFrame>, node: CNode) -> Seq<CFrame> {
    st.update(st.len() - 1, CFrame { kind: st.last().kind, items: st.last().items.push(node) })
}

/// The open chunks after one more instruction: `if` opens a `then` branch;
/// `else` turns it into the `else` branch; `end` closes the innermost
/// branch; anything else joins the innermost chunk. An `else` or `end` that
/// closes nothing fails, and so does an `else` after an `else`.
pub open spec fn chunk_step(st: Seq<CFrame>, tok: Instruction) -> Result<Seq<CFrame>, Error> {
    let top = st.last();
    match tok {
        Instruction::If(_, _, _) => Ok(st.push(CFrame { kind: CKind::Then, items: Seq::empty() })),
        Instruction::Else => match top.kind {
            CKind::Then => Ok(st.update(st.len() - 1, CFrame { kind: CKind::Else(top.items), items: Seq::empty() })),
            CKind::Top => Err(Error::UnexpectedEndOfBlock),
            CKind::Else(_) => Err(Error::ExpectedEnd),
        },
        Instruction::End => match top.kind {
            CKind::Top => Err(Error::UnexpectedEndOfBlock),
            CKind::Then => Ok(add_cnode(st.drop_last(), CNode::If(top.items, Seq::empty()))),
            CKind::Else(then_items) => Ok(add_cnode(st.drop_last(), CNode::If(then_items, top.items))),
        },
        _ => Ok(add_cnode(st, CNode::Instr(tok))),
    }
}

/// The chunks open after the instructions `s`, or the first failure.
pub open spec fn chunk_run(s: Seq<Instruction>) -> Result<Seq<CFrame>, Error>
    decreases s.len(),
{
    if s.len() == 0 {
        Ok(seq![CFrame { kind: CKind::Top, items: Seq::empty() }])
    } else {
        match chunk_run(s.drop_last()) {
            Ok(st) => chunk_step(st, s.last()),
            Err(e) => Err(e),
        }
    }
}

/// The end of the input: an open `then` branch closes by itself (with an
/// empty `else` branch); an open `else` branch fails.
pub open spec fn chunk_finish(st: Seq<CFrame>) -> Result<Seq<CNode>, Error>
    decreases st.len(),
{
    if st.len() <= 1 {
        Ok(st[0].items)
    } else {
        match st.last().kind {
            CKind::Then => chunk_finish(add_cnode(st.drop_last(), CNode::If(st.last().items, Seq::empty()))),
            _ => Err(Error::ExpectedEnd),
        }
    }
}

/// The chunks of a flat instruction sequence, or why there are none.
pub open spec fn chunking(s: Seq<Instruction>) -> Result<Seq<CNode>, Error> {
    match chunk_run(s) {
        Ok(st) => chunk_finish(st),
        Err(e) => Err(e),
    }
}

/// A chunk node that chunking can give: its instructions, and those of its
/// branches, are none of `if`, `else` and `end`.
pub open spec fn plain_cnode(n: CNode) -> bool
    decreases n,
{
    match n {
        CNode::Instr(i) => !(i is If) && !(i is Else) && !(i is End),
        CNode::If(t, e) => plain_cnodes(t) && plain_cnodes(e),
    }
}

/// Chunk nodes that chunking can give.
pub open spec fn plain_cnodes(s: Seq<CNode>) -> bool
    decreases s,
{
    if s.len() == 0 {
        true
    } else {
        plain_cnodes(s.drop_last()) && plain_cnode(s.last())
    }
}

/// A chunk node written flat, with `it` for its `if`: an instruction stands
/// for itself; an `if` is `it`, its `then` branch, `else`, its `else` branch
/// and `end`.
pub open spec fn cflat(n: CNode, it: Instruction) -> Seq<Instruction>
    decreases n,
{
    match n {
        CNode::Instr(i) => seq![i],
        CNode::If(t, e) => seq![it] + cflats(t, it) + seq![Instruction::Else] + cflats(e, it) + seq![Instruction::End],
    }
}

/// Chunk nodes written flat, one after the other.
pub open spec fn cflats(s: Seq<CNode>, it: Instruction) -> Seq<Instruction>
    decreases s,
{
    if s.len() == 0 {
        Seq::empty()
    } else {
        cflats(s.drop_last(), it) + cflat(s.last(), it)
    }
}

/// Chunking the instructions `s` from the open chunks `st`.
spec fn chunk_from(st: Seq<CFrame>, s: Seq<Instruction>) -> Result<Seq<CFrame>, Error>
    decreases s.len(),
{
    if s.len() == 0 {
        Ok(st)
    } else {
        match chunk_from(st, s.drop_last()) {
            Ok(m) => chunk_step(m, s.last()),
            Err(e) => Err(e),
        }
    }
}

/// The open chunks with `ns` added to the innermost one.
spec fn append_top(st: Seq<CFrame>, ns: Seq<CNode>) -> Seq<CFrame> {
    st.update(st.len() - 1, CFrame { kind: st.last().kind, items: st.last().items + ns })
}

proof fn lemma_run_from(s: Seq<Instruction>)
    ensures
        chunk_run(s) == chunk_from(seq![CFrame { kind: CKind::Top, items: Seq::empty() }], s),
    decreases s.len(),
{
    if s.len() > 0 {
        lemma_run_from(s.drop_last());
    }
}

proof fn lemma_from_concat(st: Seq<CFrame>, a: Seq<Instruction>, b: Seq<Instruction>)
    ensures
        chunk_from(st, a + b) == (match chunk_from(st, a) {
            Ok(m) => chunk_from(m, b),
            Err(e) => Err(e),
        }),
    decreases b.len(),
{
    if b.len() == 0 {
        assert(a + b =~= a);
    } else {
        assert((a + b).drop_last() =~= a + b.drop_last());
        assert((a + b).last() == b.last());
        lemma_from_concat(st, a, b.drop_last());
    }
}

proof fn lemma_from_one(st: Seq<CFrame>, x: Instruction)
    ensures
        chunk_from(st, seq![x]) == chunk_step(st, x),
{
    assert(seq![x].drop_last() =~= Seq::<Instruction>::empty());
    assert(chunk_from(st, Seq::<Instruction>::empty()) == Ok::<Seq<CFrame>, Error>(st));
    assert(seq![x].last() == x);
}

/// Chunking a node written flat adds the node to the innermost chunk.
proof fn lemma_flat_node(st: Seq<CFrame>, n: CNode, it: Instruction)
    requires
        st.len() >= 1,
        it is If,
        plain_cnode(n),
    ensures
        chunk_from(st, cflat(n, it)) == Ok::<Seq<CFrame>, Error>(add_cnode(st, n)),
    decreases n,
{
    match n {
        CNode::Instr(i) => {
            lemma_from_one(st, i);
        },
        CNode::If(t, e) => {
            let tf = cflats(t, it);
            let ef = cflats(e, it);
            let v = seq![it] + tf;
            let w = v + seq![Instruction::Else];
            let x = w + ef;
            assert(cflat(n, it) == x + seq![Instruction::End]);
            let st1 = st.push(CFrame { kind: CKind::Then, items: Seq::empty() });
            lemma_from_one(st, it);
            lemma_from_concat(st, seq![it], tf);
            lemma_flat_nodes(st1, t, it);
            let st2 = st.push(CFrame { kind: CKind::Then, items: t });
            assert(append_top(st1, t) =~= st2);
            lemma_from_concat(st, v, seq![Instruction::Else]);
            lemma_from_one(st2, Instruction::Else);
            let st3 = st.push(CFrame { kind: CKind::Else(t), items: Seq::empty() });
            assert(st2.update(st2.len() - 1, CFrame { kind: CKind::Else(t), items: Seq::empty() }) =~= st3);
            lemma_from_concat(st, w, ef);
            lemma_flat_nodes(st3, e, it);
            let st4 = st.push(CFrame { kind: CKind::Else(t), items: e });
            assert(append_top(st3, e) =~= st4);
            lemma_from_concat(st, x, seq![Instruction::End]);
            lemma_from_one(st4, Instruction::End);
            assert(st4.drop_last() =~= st);
        },
    }
}

/// Chunking nodes written flat adds them, in order, to the innermost chunk.
proof fn lemma_flat_nodes(st: Seq<CFrame>, ns: Seq<CNode>, it: Instruction)
    requires
        st.len() >= 1,
        it is If,
        plain_cnodes(ns),
    ensures
        chunk_from(st, cflats(ns, it)) == Ok::<Seq<CFrame>, Error>(append_top(st, ns)),
    decreases ns,
{
    if ns.len() == 0 {
        assert(st.last().items + ns =~= st.last().items);
        assert(append_top(st, ns) =~= st);
    } else {
        let dl = ns.drop_last();
        lemma_from_concat(st, cflats(dl, it), cflat(ns.last(), it));
        lemma_flat_nodes(st, dl, it);
        lemma_flat_node(append_top(st, dl), ns.last(), it);
        assert(st.last().items + dl.push(ns.last()) =~= (st.last().items + dl).push(ns.last()));
        assert(dl.push(ns.last()) =~= ns);
        assert(add_cnode(append_top(st, dl), ns.last()) =~= append_top(st, ns));
    }
}

/// Chunking reads back what it gives: any chunk nodes it can give, written
/// flat (each `if` with its `then` branch, `else`, its `else` branch and
/// `end`, at any depth), chunk to exactly those nodes.
pub proof fn law_chunking_reads_back(ns: Seq<CNode>, it: Instruction)
    requires
        it is If,
        plain_cnodes(ns),
    ensures
        chunking(cflats(ns, it)) == Ok::<Seq<CNode>, Error>(ns),
{
    let init = seq![CFrame { kind: CKind::Top, items: Seq::empty() }];
    lemma_run_from(cflats(ns, it));
    lemma_flat_nodes(init, ns, it);
    assert(Seq::<CNode>::empty() + ns =~= ns);
    assert(append_top(init, ns) =~= seq![CFrame { kind: CKind::Top, items: ns }]);
}

enum Open<'a> {
    Top,
    Then,
    Else(Vec<Command<'a>>),
}

struct OpenChunk<'a> {
    kind: Open<'a>,
    items: Vec<Command<'a>>,
}

spec fn open_view(k: Open) -> CKind {
    match k {
        Open::Top => CKind::Top,
        Open::Then => CKind::Then,
        Open::Else(t) => CKind::Else(cviews(t@)),
    }
}

spec fn oc_view(f: OpenChunk) -> CFrame {
    CFrame { kind: open_view(f.kind), items: cviews(f.items@) }
}

spec fn ocs_view(fs: Seq<OpenChunk>) -> Seq<CFrame> {
    fs.map_values(|f: OpenChunk| oc_view(f))
}

spec fn ocs_ok(fs: Seq<OpenChunk>) -> bool {
    &&& fs.len() >= 1
    &&& fs[0].kind is Top
    &&& forall|i: int| 1 <= i < fs.len() ==> !(#[trigger] fs[i].kind is Top)
}

proof fn lemma_cviews_push(s: Seq<Command>, x: Command)
    ensures
        cviews(s.push(x)) == cviews(s).push(cview(x)),
{
    assert(s.push(x).drop_last() =~= s);
}

/// Once chunking fails, it fails the same way whatever follows.
proof fn lemma_chunk_err(s: Seq<Instruction>, i: int)
    requires
        0 <= i <= s.len(),
        chunk_run(s.subrange(0, i)) is Err,
    ensures
        chunk_run(s) == chunk_run(s.subrange(0, i)),
    decreases s.len() - i,
{
    if i < s.len() {
        assert(s.subrange(0, i + 1).drop_last() =~= s.subrange(0, i));
        lemma_chunk_err(s, i + 1);
    } else {
        assert(s.subrange(0, i) =~= s);
    }
}

fn add_command<'a>(open: &mut Vec<OpenChunk<'a>>, c: Command<'a>)
    requires
        ocs_ok(old(open)@),
    ensures
        ocs_ok(final(open)@),
        ocs_view(final(open)@) == add_cnode(ocs_view(old(open)@), cview(c)),
{
    let ghost fs0 = open@;
    let mut top = open.pop().unwrap();
    let ghost items0 = top.items@;
    top.items.push(c);
    open.push(top);
    proof {
        lemma_cviews_push(items0, c);
        assert(ocs_view(open@) =~= add_cnode(ocs_view(fs0), cview(c)));
        assert forall|i: int| 1 <= i < open@.len() implies !(#[trigger] open@[i].kind is Top) by {
            assert(open@[i].kind == fs0[i].kind);
        }
    }
}

/// Chunks the flat instruction sequence `instrs` (see `chunking`).
pub fn preprocess<'a>(instrs: &'a Vec<Instruction>) -> (r: Result<Chunk<'a>, Error>)
    ensures
        match chunking(instrs@) {
            Ok(nodes) => r matches Ok(c) && cviews(c.commands@) == nodes,
            Err(err) => r is Err && r->Err_0 == err,
        },
{
    let ghost s = instrs@;
    let n = instrs.len();
    let mut open: Vec<OpenChunk<'a>> = Vec::new();
    open.push(OpenChunk { kind: Open::Top, items: Vec::new() });
    proof {
        assert(ocs_view(open@) =~= seq![CFrame { kind: CKind::Top, items: Seq::empty() }]);
        assert(s.subrange(0, 0) =~= Seq::<Instruction>::empty());
    }
    let mut i: usize = 0;
    while i < n
        invariant
            n == s.len(),
            s == instrs@,
            i <= n,
            ocs_ok(open@),
            chunk_run(s.subrange(0, i as int)) == Ok::<Seq<CFrame>, Error>(ocs_view(open@)),
        decreases n - i,
    {
        let ghost st0 = ocs_view(open@);
        let ghost fs0 = open@;
        let instr = &instrs[i];
        proof {
            assert(s.subrange(0, i + 1).drop_last() =~= s.subrange(0, i as int));
            assert(s.subrange(0, i + 1).last() == s[i as int]);
        }
        match instr {
            Instruction::If(_, _, _) => {
                open.push(OpenChunk { kind: Open::Then, items: Vec::new() });
                proof {
                    assert(cviews(Seq::<Command>::empty()) == Seq::<CNode>::empty());
                    assert(ocs_view(open@) =~= st0.push(CFrame { kind: CKind::Then, items: Seq::empty() }));
                }
            },
            Instruction::Else => {
                let top = open.pop().unwrap();
                match top.kind {
                    Open::Then => {
                        open.push(OpenChunk { kind: Open::Else(top.items), items: Vec::new() });
                        proof {
                            assert(cviews(Seq::<Command>::empty()) == Seq::<CNode>::empty());
                            assert(ocs_view(open@) =~= st0.update(st0.len() - 1,
                                CFrame { kind: CKind::Else(cviews(top.items@)), items: Seq::empty() }));
                            assert forall|j: int| 1 <= j < open@.len() implies !(#[trigger] open@[j].kind is Top) by {
                                if j < fs0.len() - 1 {
                                    assert(open@[j].kind == fs0[j].kind);
                                }
                            }
                        }
                    },
                    Open::Top => {
                        proof {
                            lemma_chunk_err(s, i + 1);
                        }
                        return Err(Error::UnexpectedEndOfBlock);
                    },
                    Open::Else(_) => {
                        proof {
                            lemma_chunk_err(s, i + 1);
                        }
                        return Err(Error::ExpectedEnd);
                    },
                }
            },
            Instruction::End => {
                let top = open.pop().unwrap();
                let c = match top.kind {
                    Open::Top => {
                        proof {
                            lemma_chunk_err(s, i + 1);
                        }
                        return Err(Error::UnexpectedEndOfBlock);
                    },
                    Open::Then => Command::If(Chunk { commands: top.items }, Chunk { commands: Vec::new() }),
                    Open::Else(then_items) => Command::If(Chunk { commands: then_items }, Chunk { commands: top.items }),
                };
                proof {
                    assert(cviews(Seq::<Command>::empty()) == Seq::<CNode>::empty());
                    assert(ocs_view(open@) =~= st0.drop_last());
                }
                add_command(&mut open, c);
            },
            _ => {
                add_command(&mut open, Command::Instr(instr));
            },
        }
        i = i + 1;
    }
    proof {
        assert(s.subrange(0, n as int) =~= s);
    }
    while open.len() > 1
        invariant
            ocs_ok(open@),
            s == instrs@,
            chunking(s) == chunk_finish(ocs_view(open@)),
        decreases open@.len(),
    {
        let ghost fs0 = open@;
        let top = open.pop().unwrap();
        match top.kind {
            Open::Then => {
                let c = Command::If(Chunk { commands: top.items }, Chunk { commands: Vec::new() });
                proof {
                    assert(cviews(Seq::<Command>::empty()) == Seq::<CNode>::empty());
                    assert(ocs_view(open@) =~= ocs_view(fs0).drop_last());
                }
                add_command(&mut open, c);
            },
            _ => {
                proof {
                    assert(ocs_view(fs0)[fs0.len() - 1] == oc_view(fs0[fs0.len() - 1]));
                    assert(!(fs0[fs0.len() - 1].kind is Top));
                }
                return Err(Error::ExpectedEnd);
            },
        }
    }
    let top = open.pop().unwrap();
    Ok(Chunk { commands: top.items })
}

} // verus!
