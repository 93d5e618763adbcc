//! Scans flat instruction sequences.
use vstd::prelude::*;
use crate::model::Instruction;
use crate::preprocessor::{cflat, cflats, plain_cnode, plain_cnodes, CNode};

verus! {

/// The nesting depth just before position `j`, for a scan that starts just
/// after the `if` (or `else`) at `start` with depth 1: an `if` opens a level,
/// an `end` closes one, and an `else` closes the level the scan started in.
pub open spec fn nesting(s: Seq<Instruction>, start: int, j: int) -> int
    decreases j - start,
{
    if j <= start + 1 {
        1
    } else {
        let d = nesting(s, start, j - 1);
        match s[j - 1] {
            Instruction::If(_, _, _) => d + 1,
            Instruction::Else => if d == 1 { 0 } else { d },
            Instruction::End => d - 1,
            _ => d,
        }
    }
}

/// Whether `r` is where a scan from the `if` (or `else`) at `start` stops:
/// just after the first `else` or `end` that closes it, or at the end of
/// the sequence when nothing does.
pub open spec fn closes_at(s: Seq<Instruction>, start: int, r: int) -> bool {
    &&& r >= start + 1
    &&& (r == start + 1 || r <= s.len())
    &&& (r >= s.len() || nesting(s, start, r) == 0)
    &&& forall|j: int| start + 1 <= j < r ==> #[trigger] nesting(s, start, j) > 0
}

/// Scanning over a chunk node written flat (at `p`, with the scan at a
/// depth of at least one) comes back to the depth it started at, and never
/// goes below it on the way.
proof fn lemma_nesting_node(s: Seq<Instruction>, start: int, p: int, n: CNode, it: Instruction)
    requires
        0 <= start < p,
        it is If,
        plain_cnode(n),
        p + cflat(n, it).len() <= s.len(),
        s.subrange(p, p + cflat(n, it).len()) == cflat(n, it),
        nesting(s, start, p) >= 1,
    ensures
        nesting(s, start, p + cflat(n, it).len()) == nesting(s, start, p),
        forall|j: int| p <= j <= p + cflat(n, it).len() ==> #[trigger] nesting(s, start, j) >= nesting(s, start, p),
    decreases n,
{
    let d = nesting(s, start, p);
    let fl = cflat(n, it);
    assert(forall|k: int| 0 <= k < fl.len() ==> s[p + k] == #[trigger] fl[k]) by {
        assert forall|k: int| 0 <= k < fl.len() implies s[p + k] == #[trigger] fl[k] by {
            assert(s.subrange(p, p + fl.len())[k] == s[p + k]);
        }
    }
    match n {
        CNode::Instr(i) => {
            assert(s[p] == i);
        },
        CNode::If(t, e) => {
            let tf = cflats(t, it);
            let ef = cflats(e, it);
            let q = p + 1 + tf.len();
            let r = q + 1 + ef.len();
            assert(fl.len() == tf.len() + ef.len() + 3);
            assert(fl[0] == it);
            assert(s[p] == it);
            assert(nesting(s, start, p + 1) == d + 1);
            assert(s.subrange(p + 1, q) =~= tf) by {
                assert forall|k: int| 0 <= k < tf.len() implies s.subrange(p + 1, q)[k] == tf[k] by {
                    assert(fl[1 + k] == tf[k]);
                }
            }
            lemma_nesting_nodes(s, start, p + 1, t, it);
            assert(fl[1 + tf.len() as int] == Instruction::Else);
            assert(s[q] == Instruction::Else);
            assert(nesting(s, start, q + 1) == d + 1);
            assert(s.subrange(q + 1, r) =~= ef) by {
                assert forall|k: int| 0 <= k < ef.len() implies s.subrange(q + 1, r)[k] == ef[k] by {
                    assert(fl[2 + tf.len() + k] == ef[k]);
                }
            }
            lemma_nesting_nodes(s, start, q + 1, e, it);
            assert(fl[2 + tf.len() + ef.len() as int] == Instruction::End);
            assert(s[r] == Instruction::End);
            assert(nesting(s, start, r + 1) == d);
            assert forall|j: int| p <= j <= p + fl.len() implies #[trigger] nesting(s, start, j) >= d by {
                if j == p {
                } else if j <= q {
                    assert(nesting(s, start, j) >= d + 1);
                } else if j <= r {
                    assert(nesting(s, start, j) >= d + 1);
                }
            }
        },
    }
}

/// Scanning over chunk nodes written flat comes back to the depth it started
/// at, and never goes below it on the way.
proof fn lemma_nesting_nodes(s: Seq<Instruction>, start: int, p: int, ns: Seq<CNode>, it: Instruction)
    requires
        0 <= start < p,
        it is If,
        plain_cnodes(ns),
        p + cflats(ns, it).len() <= s.len(),
        s.subrange(p, p + cflats(ns, it).len()) == cflats(ns, it),
        nesting(s, start, p) >= 1,
    ensures
        nesting(s, start, p + cflats(ns, it).len()) == nesting(s, start, p),
        forall|j: int| p <= j <= p + cflats(ns, it).len() ==> #[trigger] nesting(s, start, j) >= nesting(s, start, p),
    decreases ns,
{
    if ns.len() > 0 {
        let dl = ns.drop_last();
        let a = cflats(dl, it);
        let b = cflat(ns.last(), it);
        let fl = cflats(ns, it);
        assert(fl == a + b);
        assert(s.subrange(p, p + a.len()) =~= a) by {
            assert forall|k: int| 0 <= k < a.len() implies s.subrange(p, p + a.len())[k] == a[k] by {
                assert(s.subrange(p, p + fl.len())[k] == fl[k]);
            }
        }
        lemma_nesting_nodes(s, start, p, dl, it);
        assert(s.subrange(p + a.len(), p + fl.len()) =~= b) by {
            assert forall|k: int| 0 <= k < b.len() implies s.subrange(p + a.len(), p + fl.len())[k] == b[k] by {
                assert(s.subrange(p, p + fl.len())[a.len() + k] == fl[a.len() + k]);
            }
        }
        lemma_nesting_node(s, start, p + a.len(), ns.last(), it);
        assert forall|j: int| p <= j <= p + fl.len() implies #[trigger] nesting(s, start, j) >= nesting(s, start, p) by {
            if j <= p + a.len() {
            } else {
                assert(nesting(s, start, j) >= nesting(s, start, p + a.len()));
            }
        }
    }
}

/// A scan from an `if` stops just after the `else` or `end` that closes it,
/// past any well nested instructions in between: for any instructions that
/// chunking can give, written flat after the `if` (with `if`, `else` and
/// `end` at any depth) and followed by an `else` or `end`, the scan stops
/// right after that `else` or `end`, and nowhere else.
pub proof fn law_skip_block_passes_nested_ifs(s: Seq<Instruction>, start: int, ws: Seq<CNode>, it: Instruction)
    requires
        0 <= start,
        s[start] is If,
        it is If,
        plain_cnodes(ws),
        start + 1 + cflats(ws, it).len() < s.len(),
        s.subrange(start + 1, start + 1 + cflats(ws, it).len()) == cflats(ws, it),
        s[start + 1 + cflats(ws, it).len()] is Else || s[start + 1 + cflats(ws, it).len()] is End,
    ensures
        closes_at(s, start, start + 2 + cflats(ws, it).len()),
        forall|r: int| #[trigger] closes_at(s, start, r) ==> r == start + 2 + cflats(ws, it).len(),
{
    let l = cflats(ws, it).len();
    let stop = start + 2 + l;
    assert(nesting(s, start, start + 1) == 1);
    lemma_nesting_nodes(s, start, start + 1, ws, it);
    assert(nesting(s, start, stop) == 0);
    assert forall|r: int| #[trigger] closes_at(s, start, r) implies r == stop by {
        if r < stop {
            assert(nesting(s, start, r) >= 1);
        } else if r > stop {
            assert(nesting(s, start, stop) > 0);
        }
    }
}

/// The position just after the `else` or `end` that closes the block opened
/// at `start` (or the end of the sequence when nothing closes it).
pub fn skip_block(instrs: &Vec<Instruction>, start: usize) -> (r: usize)
    requires
        start < usize::MAX,
    ensures
        r >= start + 1,
        r == start + 1 || r <= instrs@.len(),
        r >= instrs@.len() || nesting(instrs@, start as int, r as int) == 0,
        forall|j: int| start + 1 <= j < r ==> #[trigger] nesting(instrs@, start as int, j) > 0,
        closes_at(instrs@, start as int, r as int),
{
    let mut depth: usize = 1;
    let mut i: usize = start + 1;
    while depth > 0 && i < instrs.len()
        invariant
            start + 1 <= i,
            i == start + 1 || i <= instrs@.len(),
            depth == nesting(instrs@, start as int, i as int),
            depth <= i - start,
            forall|j: int| start + 1 <= j < i ==> #[trigger] nesting(instrs@, start as int, j) > 0,
        decreases instrs@.len() - i,
    {
        match &instrs[i] {
            Instruction::If(_, _, _) => depth = depth + 1,
            Instruction::Else => {
                if depth == 1 {
                    depth = depth - 1;
                }
            },
            Instruction::End => depth = depth - 1,
            _ => {},
        }
        i = i + 1;
    }
    i
}

} // verus!
