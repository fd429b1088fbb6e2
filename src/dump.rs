use crate::grep::{node_records, parse, source_parses, tree_records, GrepError, LanguageSlot};
use vstd::prelude::*;

verus! {

/// One node of a syntax tree as the pre-order walk reports it: its kind,
/// start and end as (row, column), whether it is named, and how many
/// children it has.
#[derive(Debug)]
pub struct NodeRecord {
    pub kind: String,
    pub start: (usize, usize),
    pub end: (usize, usize),
    pub is_named: bool,
    pub child_count: usize,
}

/// A plain copy of a syntax tree, for inspection.
#[derive(Debug)]
pub struct DebugNode {
    pub kind: String,
    pub start: (usize, usize),
    pub end: (usize, usize),
    pub is_named: bool,
    pub children: Vec<DebugNode>,
}

/// The record of `n` itself.
pub open spec fn record_of(n: DebugNode) -> NodeRecord {
    NodeRecord {
        kind: n.kind,
        start: n.start,
        end: n.end,
        is_named: n.is_named,
        child_count: n.children@.len() as usize,
    }
}

/// The records of a tree in pre-order: the node, then each child's
/// records in order.
pub open spec fn flatten(n: DebugNode) -> Seq<NodeRecord>
    decreases n, 0int,
{
    seq![record_of(n)] + flatten_prefix(n.children@, n.children@.len() as int)
}

/// The records of the first `k` trees of `cs`, one tree after the other.
pub open spec fn flatten_prefix(cs: Seq<DebugNode>, k: int) -> Seq<NodeRecord>
    decreases cs, k,
{
    if k <= 0 || k > cs.len() {
        Seq::empty()
    } else {
        flatten_prefix(cs, k - 1) + flatten(cs[k - 1])
    }
}

/// The records of the first `k` trees depend on those trees alone.
proof fn lemma_prefix_stable(cs: Seq<DebugNode>, ds: Seq<DebugNode>, k: int)
    requires
        0 <= k <= cs.len(),
        k <= ds.len(),
        forall|j: int| 0 <= j < k ==> cs[j] == ds[j],
    ensures
        flatten_prefix(cs, k) == flatten_prefix(ds, k),
    decreases k,
{
    if k > 0 {
        lemma_prefix_stable(cs, ds, k - 1);
    }
}

/// Every node of `t` has a number of children that a record can hold.
pub open spec fn fits(t: DebugNode) -> bool
    decreases t, 0int,
{
    t.children@.len() <= usize::MAX && fits_prefix(t.children@, t.children@.len() as int)
}

/// Each of the first `k` trees of `cs` fits.
pub open spec fn fits_prefix(cs: Seq<DebugNode>, k: int) -> bool
    decreases cs, k,
{
    if k <= 0 || k > cs.len() {
        true
    } else {
        fits_prefix(cs, k - 1) && fits(cs[k - 1])
    }
}

/// Whether the first `k` trees fit depends on those trees alone.
proof fn lemma_fits_stable(cs: Seq<DebugNode>, ds: Seq<DebugNode>, k: int)
    requires
        0 <= k <= cs.len(),
        k <= ds.len(),
        forall|j: int| 0 <= j < k ==> cs[j] == ds[j],
    ensures
        fits_prefix(cs, k) == fits_prefix(ds, k),
    decreases k,
{
    if k > 0 {
        lemma_fits_stable(cs, ds, k - 1);
    }
}

/// Where the first `m` trees fit, so does each one of them.
proof fn lemma_fits_each(cs: Seq<DebugNode>, m: int, k: int)
    requires
        0 <= k < m <= cs.len(),
        fits_prefix(cs, m),
    ensures
        fits(cs[k]),
    decreases m,
{
    if k < m - 1 {
        lemma_fits_each(cs, m - 1, k);
    }
}

/// `recs` is the pre-order walk of some tree whose child counts fit a
/// record.
pub open spec fn is_tree_walk(recs: Seq<NodeRecord>) -> bool {
    exists|t: DebugNode| fits(t) && flatten(t) == recs
}

/// The records of `t` stand in `s` from `pos` on.
pub open spec fn walk_at(s: Seq<NodeRecord>, pos: int, t: DebugNode) -> bool {
    &&& fits(t)
    &&& 0 <= pos
    &&& pos + flatten(t).len() <= s.len()
    &&& s.subrange(pos, pos + flatten(t).len()) == flatten(t)
}

/// A walk of `t` begins with the record of `t` itself.
proof fn lemma_walk_head(s: Seq<NodeRecord>, pos: int, t: DebugNode)
    requires
        walk_at(s, pos, t),
    ensures
        s[pos] == record_of(t),
        flatten(t).len() == 1 + flatten_prefix(t.children@, t.children@.len() as int).len(),
{
    assert(s.subrange(pos, pos + flatten(t).len())[0] == flatten(t)[0]);
}

/// The records of the first `k` trees begin the records of the first `m`.
proof fn lemma_prefix_grows(cs: Seq<DebugNode>, k: int, m: int)
    requires
        0 <= k <= m <= cs.len(),
    ensures
        flatten_prefix(cs, k).len() <= flatten_prefix(cs, m).len(),
        flatten_prefix(cs, m).subrange(0, flatten_prefix(cs, k).len() as int) == flatten_prefix(
            cs,
            k,
        ),
    decreases m - k,
{
    if k < m {
        lemma_prefix_grows(cs, k, m - 1);
        assert(flatten_prefix(cs, m).subrange(0, flatten_prefix(cs, k).len() as int)
            =~= flatten_prefix(cs, m - 1).subrange(0, flatten_prefix(cs, k).len() as int));
    } else {
        assert(flatten_prefix(cs, m).subrange(0, flatten_prefix(cs, k).len() as int)
            =~= flatten_prefix(cs, k));
    }
}

/// Within the walk of `t` at `pos`, the walk of its child `k` starts right
/// after the node's own record and the walks of the children before it.
proof fn lemma_child_walk(s: Seq<NodeRecord>, pos: int, t: DebugNode, k: int)
    requires
        walk_at(s, pos, t),
        0 <= k < t.children@.len(),
    ensures
        walk_at(s, pos + 1 + flatten_prefix(t.children@, k).len(), t.children@[k]),
        flatten_prefix(t.children@, k + 1).len() == flatten_prefix(t.children@, k).len()
            + flatten(t.children@[k]).len(),
{
    let cs = t.children@;
    let n = cs.len() as int;
    let f = flatten(t);
    let pk = flatten_prefix(cs, k);
    let fc = flatten(cs[k]);
    let start = pos + 1 + pk.len();
    lemma_prefix_grows(cs, k + 1, n);
    lemma_fits_each(cs, n, k);
    assert(flatten_prefix(cs, k + 1) == pk + fc);
    assert(f == seq![record_of(t)] + flatten_prefix(cs, n));
    assert forall|j: int| 0 <= j < fc.len() implies s[start + j] == fc[j] by {
        assert(s.subrange(pos, pos + f.len())[1 + pk.len() + j] == f[1 + pk.len() + j]);
        assert(flatten_prefix(cs, n).subrange(0, flatten_prefix(cs, k + 1).len() as int)[pk.len()
            + j] == (pk + fc)[pk.len() + j]);
    }
    assert(s.subrange(start, start + fc.len()) =~= fc);
}

/// Rebuilds the tree whose records start at `pos`; returns it with the
/// position after its last record, or `None` when the records end first.
fn build_node(recs: &Vec<NodeRecord>, pos: usize) -> (r: Option<(DebugNode, usize)>)
    requires
        pos <= recs@.len(),
    ensures
        r matches Some((n, next)) ==> pos < next <= recs@.len() && recs@.subrange(
            pos as int,
            next as int,
        ) == flatten(n) && fits(n),
        forall|t: DebugNode|
            #[trigger] walk_at(recs@, pos as int, t) ==> (r matches Some((n, next)) && next == pos
                + flatten(t).len()),
    decreases recs@.len() - pos,
{
    if pos >= recs.len() {
        return None;
    }
    let rec = &recs[pos];
    let mut children: Vec<DebugNode> = Vec::new();
    let mut cur: usize = pos + 1;
    let mut k: usize = 0;
    assert(recs@.subrange(pos + 1, cur as int) =~= flatten_prefix(children@, 0));
    while k < rec.child_count
        invariant
            pos < cur <= recs@.len(),
            k <= rec.child_count,
            children@.len() == k,
            fits_prefix(children@, k as int),
            recs@.subrange(pos + 1, cur as int) == flatten_prefix(children@, k as int),
            *rec == recs@[pos as int],
            forall|t: DebugNode|
                #[trigger] walk_at(recs@, pos as int, t) ==> k <= t.children@.len() && cur == pos
                    + 1 + flatten_prefix(t.children@, k as int).len(),
        decreases rec.child_count - k,
    {
        let ghost k0 = k;
        let ghost cur0 = cur;
        assert forall|t: DebugNode| #[trigger] walk_at(recs@, pos as int, t) implies walk_at(
            recs@,
            cur0 as int,
            t.children@[k0 as int],
        ) && flatten_prefix(t.children@, k0 + 1).len() == flatten_prefix(t.children@, k0 as int).len()
            + flatten(t.children@[k0 as int]).len() by {
            lemma_walk_head(recs@, pos as int, t);
            lemma_child_walk(recs@, pos as int, t, k0 as int);
        }
        match build_node(recs, cur) {
            Some((c, next)) => {
                let ghost before = children@;
                let ghost c0 = cur;
                children.push(c);
                cur = next;
                proof {
                    lemma_prefix_stable(before, children@, k as int);
                    lemma_fits_stable(before, children@, k as int);
                    assert(children@[k as int] == c);
                    assert(recs@.subrange(pos + 1, cur as int) =~= recs@.subrange(
                        pos + 1,
                        c0 as int,
                    ) + recs@.subrange(c0 as int, cur as int));
                }
            },
            None => {
                return None;
            },
        }
        k += 1;
        assert forall|t: DebugNode| #[trigger] walk_at(recs@, pos as int, t) implies k
            <= t.children@.len() && cur == pos + 1 + flatten_prefix(t.children@, k as int).len() by {
            lemma_walk_head(recs@, pos as int, t);
            assert(walk_at(recs@, cur0 as int, t.children@[k0 as int]));
        }
    }
    let node = DebugNode {
        kind: rec.kind.clone(),
        start: rec.start,
        end: rec.end,
        is_named: rec.is_named,
        children,
    };
    assert(record_of(node) == recs@[pos as int]);
    assert(fits(node));
    assert forall|t: DebugNode| #[trigger] walk_at(recs@, pos as int, t) implies cur == pos
        + flatten(t).len() by {
        lemma_walk_head(recs@, pos as int, t);
    }
    assert(recs@.subrange(pos as int, cur as int) =~= seq![recs@[pos as int]] + recs@.subrange(
        pos + 1,
        cur as int,
    ));
    Some((node, cur))
}

/// Rebuilds a tree from its records in pre-order. When it returns a tree,
/// that tree's records in pre-order are exactly `recs`; it returns `None`
/// exactly when `recs` is not the walk of any tree whose child counts fit a
/// record.
pub fn build_debug_tree(recs: &Vec<NodeRecord>) -> (r: Option<DebugNode>)
    ensures
        r matches Some(n) ==> flatten(n) == recs@,
        r matches Some(n) ==> fits(n),
        r.is_none() <==> !is_tree_walk(recs@),
{
    match build_node(recs, 0) {
        Some((n, next)) => {
            if next == recs.len() {
                assert(recs@.subrange(0, next as int) =~= recs@);
                Some(n)
            } else {
                assert forall|t: DebugNode| !(fits(t) && flatten(t) == recs@) by {
                    if fits(t) && flatten(t) == recs@ {
                        assert(recs@.subrange(0, recs@.len() as int) =~= recs@);
                        assert(walk_at(recs@, 0, t));
                    }
                }
                None
            }
        },
        None => {
            assert forall|t: DebugNode| !(fits(t) && flatten(t) == recs@) by {
                if fits(t) && flatten(t) == recs@ {
                    assert(recs@.subrange(0, recs@.len() as int) =~= recs@);
                    assert(walk_at(recs@, 0, t));
                }
            }
            None
        },
    }
}

/// A plain copy of the tree that the installed language parses from `src`.
/// Fails when no language is installed, then when the grammar gives no
/// tree for `src`.
pub fn dump_ast_nodes(slot: &LanguageSlot, src: &str) -> (r: Result<DebugNode, GrepError>)
    ensures
        match slot.current {
            None => r == Err::<DebugNode, GrepError>(GrepError::LanguageNotConfigured),
            Some(l) => if source_parses(l, src@) {
                r matches Ok(n) && flatten(n) == tree_records(l, src@) && fits(n)
            } else {
                r == Err::<DebugNode, GrepError>(GrepError::TreeUnavailable)
            },
        },
{
    let lang = match slot.language() {
        Ok(l) => l,
        Err(e) => return Err(e),
    };
    let parsed = match parse(&lang, src) {
        Some(p) => p,
        None => return Err(GrepError::TreeUnavailable),
    };
    let recs = node_records(&parsed);
    match build_debug_tree(&recs) {
        Some(n) => Ok(n),
        None => Err(GrepError::TreeUnavailable),
    }
}

} // verus!
