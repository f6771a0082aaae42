//! Derivation of the inherited-block status, and the reset cascade.
//!
//! Roots are the nodes nothing blocks. Blocked state flows from the roots
//! along `to_block` edges: a node inherits blocked exactly when some chain
//! of such edges leads to it from a root-reachable node that is itself
//! blocked. The pass computes this as a pure fixpoint, one relaxation
//! round per node, reading each round only the previous round's values;
//! a depth-first walk with a visited-node short-circuit would be faster,
//! but is only safe on trees, so general-graph safety wins: diamond
//! shapes propagate fully, and a cycle smuggled in by a malformed save
//! cannot hang the pass. On trees and diamonds the fixpoint assigns the
//! same values a depth-first traversal would.

use vstd::prelude::*;

use crate::graph::{
    edges_in_range, inverse_edges, wf, GameGraph, Node, NodeType,
    TIMER_RESET_BLOCKER_FIXED_MS,
};
use crate::timer::ProgressTimer;

verus! {

/// Node `a` blocks node `b`.
pub open spec fn edge(nodes: Seq<Node>, a: int, b: int) -> bool {
    &&& 0 <= a < nodes.len()
    &&& 0 <= b < nodes.len()
    &&& nodes[a].to_block@.contains(b as usize)
}

/// A root: a live node that nothing blocks.
pub open spec fn is_root(nodes: Seq<Node>, n: int) -> bool {
    0 <= n < nodes.len() && nodes[n].blockers@.len() == 0
}

/// Whether a chain of at most `k` blocking edges leads from some root
/// to `n`.
pub open spec fn rooted_within(nodes: Seq<Node>, n: int, k: nat) -> bool
    decreases k,
{
    is_root(nodes, n) || (k > 0 && exists|a: int|
        #[trigger] edge(nodes, a, n) && rooted_within(nodes, a, (k - 1) as nat))
}

/// Whether the propagation pass reaches `n` at all: a chain of any length
/// from a root suffices, and no chain ever needs more edges than there are
/// nodes.
pub open spec fn rooted(nodes: Seq<Node>, n: int) -> bool {
    rooted_within(nodes, n, nodes.len())
}

/// Whether blocked state reaches `n` through a chain of at most `k`
/// blocking edges: some predecessor is either a root-reachable node that
/// is itself blocked, or inherits blocked state through a shorter chain.
pub open spec fn blocked_within(nodes: Seq<Node>, n: int, k: nat) -> bool
    decreases k,
{
    k > 0 && exists|a: int|
        #[trigger] edge(nodes, a, n) && ((rooted(nodes, a) && nodes[a].self_blocked)
            || blocked_within(nodes, a, (k - 1) as nat))
}

/// The derived inherited-block status of node `n`.
pub open spec fn spec_inherited(nodes: Seq<Node>, n: int) -> bool {
    blocked_within(nodes, n, nodes.len())
}

/// One relaxation sweep for root reachability: marks every node that is a
/// root or has a marked predecessor, reading only `cur`.
fn rooted_sweep(nodes: &Vec<Node>, cur: &Vec<bool>, round: Ghost<nat>) -> (next: Vec<bool>)
    requires
        forall|i: int| 0 <= i < nodes@.len() ==> #[trigger] edges_in_range(nodes@, i),
        inverse_edges(nodes@),
        cur@.len() == nodes@.len(),
        forall|n: int| 0 <= n < nodes@.len()
            ==> (#[trigger] cur@[n] <==> rooted_within(nodes@, n, round@)),
    ensures
        next@.len() == nodes@.len(),
        forall|n: int| 0 <= n < nodes@.len()
            ==> (#[trigger] next@[n] <==> rooted_within(nodes@, n, round@ + 1)),
{
    let len: usize = nodes.len();
    let mut next: Vec<bool> = Vec::new();
    let mut n: usize = 0;
    while n < len
        invariant
            len == nodes@.len(),
            n <= len,
            forall|i: int| 0 <= i < nodes@.len() ==> #[trigger] edges_in_range(nodes@, i),
            inverse_edges(nodes@),
            cur@.len() == nodes@.len(),
            forall|m: int| 0 <= m < nodes@.len()
                ==> (#[trigger] cur@[m] <==> rooted_within(nodes@, m, round@)),
            next@.len() == n,
            forall|m: int| 0 <= m < n
                ==> (#[trigger] next@[m] <==> rooted_within(nodes@, m, round@ + 1)),
        decreases len - n,
    {
        let mut found: bool = false;
        let bl_len: usize = nodes[n].blockers.len();
        let mut j: usize = 0;
        while j < bl_len
            invariant
                len == nodes@.len(),
                n < len,
                bl_len == nodes@[n as int].blockers@.len(),
                j <= bl_len,
                forall|i: int| 0 <= i < nodes@.len() ==> #[trigger] edges_in_range(nodes@, i),
                cur@.len() == nodes@.len(),
                found <==> exists|i: int| 0 <= i < j
                    && cur@[#[trigger] nodes@[n as int].blockers@[i] as int],
            decreases bl_len - j,
        {
            let a: usize = nodes[n].blockers[j];
            proof {
                assert(edges_in_range(nodes@, n as int));
            }
            if cur[a] {
                found = true;
            }
            j = j + 1;
        }
        let val: bool = nodes[n].blockers.len() == 0 || found;
        proof {
            let ghost ns = nodes@;
            let ghost ni = n as int;
            let ghost bl = ns[ni].blockers@;
            if found {
                let i = choose|i: int| 0 <= i < bl.len() && cur@[#[trigger] bl[i] as int];
                let a = bl[i] as int;
                assert(edges_in_range(ns, ni));
                assert(ns[ni].blockers@[i] < ns.len());
                assert(bl.contains(bl[i]));
                assert(a as usize == bl[i]);
                assert(ns[ni].blockers@.contains(a as usize));
                assert(ns[a].to_block@.contains(ni as usize));
                assert(edge(ns, a, ni));
                assert(rooted_within(ns, a, round@));
                assert(rooted_within(ns, ni, round@ + 1));
            }
            if rooted_within(ns, ni, round@ + 1) && !is_root(ns, ni) {
                let a = choose|a: int|
                    #[trigger] edge(ns, a, ni) && rooted_within(ns, a, (round@ + 1 - 1) as nat);
                assert(ns[ni].blockers@.contains(a as usize));
                let i = choose|i: int| 0 <= i < bl.len() && bl[i] == a as usize;
                assert(cur@[bl[i] as int]);
            }
            assert(val <==> rooted_within(ns, ni, round@ + 1));
        }
        next.push(val);
        n = n + 1;
    }
    next
}

/// Root reachability of every node, by `len` relaxation rounds.
fn compute_rooted(nodes: &Vec<Node>) -> (r: Vec<bool>)
    requires
        forall|i: int| 0 <= i < nodes@.len() ==> #[trigger] edges_in_range(nodes@, i),
        inverse_edges(nodes@),
    ensures
        r@.len() == nodes@.len(),
        forall|n: int| 0 <= n < nodes@.len()
            ==> (#[trigger] r@[n] <==> rooted(nodes@, n)),
{
    let len: usize = nodes.len();
    let mut cur: Vec<bool> = Vec::new();
    let mut n: usize = 0;
    while n < len
        invariant
            len == nodes@.len(),
            n <= len,
            cur@.len() == n,
            forall|m: int| 0 <= m < n
                ==> (#[trigger] cur@[m] <==> rooted_within(nodes@, m, 0)),
        decreases len - n,
    {
        let val: bool = nodes[n].blockers.len() == 0;
        proof {
            assert(val <==> rooted_within(nodes@, n as int, 0));
        }
        cur.push(val);
        n = n + 1;
    }
    let mut round: usize = 0;
    while round < len
        invariant
            len == nodes@.len(),
            round <= len,
            forall|i: int| 0 <= i < nodes@.len() ==> #[trigger] edges_in_range(nodes@, i),
            inverse_edges(nodes@),
            cur@.len() == nodes@.len(),
            forall|m: int| 0 <= m < nodes@.len()
                ==> (#[trigger] cur@[m] <==> rooted_within(nodes@, m, round as nat)),
        decreases len - round,
    {
        cur = rooted_sweep(nodes, &cur, Ghost(round as nat));
        round = round + 1;
    }
    cur
}

/// One relaxation sweep for blocked state: marks every node with a
/// predecessor that is root-reachable and self-blocked, or already marked.
fn blocked_sweep(
    nodes: &Vec<Node>,
    rooted_v: &Vec<bool>,
    cur: &Vec<bool>,
    round: Ghost<nat>,
) -> (next: Vec<bool>)
    requires
        forall|i: int| 0 <= i < nodes@.len() ==> #[trigger] edges_in_range(nodes@, i),
        inverse_edges(nodes@),
        rooted_v@.len() == nodes@.len(),
        forall|n: int| 0 <= n < nodes@.len()
            ==> (#[trigger] rooted_v@[n] <==> rooted(nodes@, n)),
        cur@.len() == nodes@.len(),
        forall|n: int| 0 <= n < nodes@.len()
            ==> (#[trigger] cur@[n] <==> blocked_within(nodes@, n, round@)),
    ensures
        next@.len() == nodes@.len(),
        forall|n: int| 0 <= n < nodes@.len()
            ==> (#[trigger] next@[n] <==> blocked_within(nodes@, n, round@ + 1)),
{
    let len: usize = nodes.len();
    let mut next: Vec<bool> = Vec::new();
    let mut n: usize = 0;
    while n < len
        invariant
            len == nodes@.len(),
            n <= len,
            forall|i: int| 0 <= i < nodes@.len() ==> #[trigger] edges_in_range(nodes@, i),
            inverse_edges(nodes@),
            rooted_v@.len() == nodes@.len(),
            forall|m: int| 0 <= m < nodes@.len()
                ==> (#[trigger] rooted_v@[m] <==> rooted(nodes@, m)),
            cur@.len() == nodes@.len(),
            forall|m: int| 0 <= m < nodes@.len()
                ==> (#[trigger] cur@[m] <==> blocked_within(nodes@, m, round@)),
            next@.len() == n,
            forall|m: int| 0 <= m < n
                ==> (#[trigger] next@[m] <==> blocked_within(nodes@, m, round@ + 1)),
        decreases len - n,
    {
        let mut found: bool = false;
        let bl_len: usize = nodes[n].blockers.len();
        let mut j: usize = 0;
        while j < bl_len
            invariant
                len == nodes@.len(),
                n < len,
                bl_len == nodes@[n as int].blockers@.len(),
                j <= bl_len,
                forall|i: int| 0 <= i < nodes@.len() ==> #[trigger] edges_in_range(nodes@, i),
                rooted_v@.len() == nodes@.len(),
                cur@.len() == nodes@.len(),
                found <==> exists|i: int| 0 <= i < j && {
                    let a = #[trigger] nodes@[n as int].blockers@[i] as int;
                    (rooted_v@[a] && nodes@[a].self_blocked) || cur@[a]
                },
            decreases bl_len - j,
        {
            let a: usize = nodes[n].blockers[j];
            proof {
                assert(edges_in_range(nodes@, n as int));
            }
            if (rooted_v[a] && nodes[a].self_blocked) || cur[a] {
                found = true;
            }
            j = j + 1;
        }
        proof {
            let ghost ns = nodes@;
            let ghost ni = n as int;
            let ghost bl = ns[ni].blockers@;
            if found {
                let i = choose|i: int| 0 <= i < bl.len() && {
                    let a = #[trigger] bl[i] as int;
                    (rooted_v@[a] && ns[a].self_blocked) || cur@[a]
                };
                let a = bl[i] as int;
                assert(edges_in_range(ns, ni));
                assert(ns[ni].blockers@[i] < ns.len());
                assert(bl.contains(bl[i]));
                assert(a as usize == bl[i]);
                assert(ns[ni].blockers@.contains(a as usize));
                assert(ns[a].to_block@.contains(ni as usize));
                assert(edge(ns, a, ni));
                assert(blocked_within(ns, ni, round@ + 1));
            }
            if blocked_within(ns, ni, round@ + 1) {
                let a = choose|a: int|
                    #[trigger] edge(ns, a, ni) && ((rooted(ns, a) && ns[a].self_blocked)
                        || blocked_within(ns, a, (round@ + 1 - 1) as nat));
                assert(ns[ni].blockers@.contains(a as usize));
                let i = choose|i: int| 0 <= i < bl.len() && bl[i] == a as usize;
                assert((rooted_v@[bl[i] as int] && ns[bl[i] as int].self_blocked) || cur@[bl[
                    i
                ] as int]);
                assert(found);
            }
            assert(found <==> blocked_within(ns, ni, round@ + 1));
        }
        next.push(found);
        n = n + 1;
    }
    next
}

/// What the inherited-block pass does: every node's inherited flag is set
/// exactly when blocked state reaches it from a root along `to_block`
/// edges, and nothing else moves.
pub open spec fn inherited_pass_rel(g0: GameGraph, g1: GameGraph) -> bool {
    &&& g1.nodes@.len() == g0.nodes@.len()
    &&& g1.currency == g0.currency
    &&& forall|i: int| 0 <= i < g0.nodes@.len()
        ==> {
            let n0 = g0.nodes@[i];
            let n1 = #[trigger] g1.nodes@[i];
            n1.position == n0.position && n1.node_type == n0.node_type && n1.progress
                == n0.progress && n1.blockers@ == n0.blockers@ && n1.to_block@ == n0.to_block@
                && n1.self_blocked == n0.self_blocked && (n1.inherited_blocked
                <==> spec_inherited(g0.nodes@, i))
        }
}

impl GameGraph {
    /// Recomputes every node's inherited-block status from the current
    /// edges and self-block flags: node `n` ends up inherited-blocked
    /// exactly when blocked state reaches it from a root along `to_block`
    /// edges (`spec_inherited`). Nothing else changes.
    pub fn update_inherited_block_status(&mut self)
        requires
            wf(*old(self)),
        ensures
            wf(*final(self)),
            inherited_pass_rel(*old(self), *final(self)),
    {
        let ghost ns0 = self.nodes@;
        let rooted_v: Vec<bool> = compute_rooted(&self.nodes);
        let len: usize = self.nodes.len();
        let mut cur: Vec<bool> = Vec::new();
        let mut n: usize = 0;
        while n < len
            invariant
                len == ns0.len(),
                self.nodes@ == ns0,
                n <= len,
                cur@.len() == n,
                forall|m: int| 0 <= m < n
                    ==> (#[trigger] cur@[m] <==> blocked_within(ns0, m, 0)),
            decreases len - n,
        {
            cur.push(false);
            n = n + 1;
        }
        let mut round: usize = 0;
        while round < len
            invariant
                len == ns0.len(),
                self.nodes@ == ns0,
                wf(*self),
                round <= len,
                rooted_v@.len() == ns0.len(),
                forall|m: int| 0 <= m < ns0.len()
                    ==> (#[trigger] rooted_v@[m] <==> rooted(ns0, m)),
                cur@.len() == ns0.len(),
                forall|m: int| 0 <= m < ns0.len()
                    ==> (#[trigger] cur@[m] <==> blocked_within(ns0, m, round as nat)),
            decreases len - round,
        {
            cur = blocked_sweep(&self.nodes, &rooted_v, &cur, Ghost(round as nat));
            round = round + 1;
        }
        let mut i: usize = 0;
        while i < len
            invariant
                len == ns0.len(),
                self.nodes@.len() == ns0.len(),
                self.currency == old(self).currency,
                i <= len,
                cur@.len() == ns0.len(),
                forall|m: int| 0 <= m < ns0.len()
                    ==> (#[trigger] cur@[m] <==> blocked_within(ns0, m, ns0.len())),
                forall|k: int| i <= k < len ==> #[trigger] self.nodes@[k] == ns0[k],
                forall|k: int| 0 <= k < i
                    ==> {
                        let n0 = ns0[k];
                        let n1 = #[trigger] self.nodes@[k];
                        n1.position == n0.position && n1.node_type == n0.node_type
                            && n1.progress == n0.progress && n1.blockers@ == n0.blockers@
                            && n1.to_block@ == n0.to_block@ && n1.self_blocked == n0.self_blocked
                            && (n1.inherited_blocked <==> blocked_within(ns0, k, ns0.len()))
                    },
            decreases len - i,
        {
            let b: bool = cur[i];
            self.nodes[i].inherited_blocked = b;
            i = i + 1;
        }
        proof {
            crate::graph::lemma_wf_preserved_same_edges(*old(self), *self);
        }
    }
}

/// The two node lists agree on everything the blocking derivation reads:
/// length, both edge lists and the self-block flags.
pub open spec fn same_blocking_fields(ns1: Seq<Node>, ns2: Seq<Node>) -> bool {
    &&& ns1.len() == ns2.len()
    &&& forall|i: int| 0 <= i < ns1.len()
        ==> #[trigger] ns1[i].to_block@ == ns2[i].to_block@ && ns1[i].blockers@ == ns2[
            i
        ].blockers@ && ns1[i].self_blocked == ns2[i].self_blocked
}

/// Root reachability only reads the blocking fields.
pub proof fn lemma_rooted_within_congruent(ns1: Seq<Node>, ns2: Seq<Node>, n: int, k: nat)
    requires
        same_blocking_fields(ns1, ns2),
    ensures
        rooted_within(ns1, n, k) == rooted_within(ns2, n, k),
    decreases k,
{
    if 0 <= n < ns1.len() {
        assert(ns1[n].to_block@ == ns2[n].to_block@);
        assert(ns1[n].blockers@ == ns2[n].blockers@);
    }
    if k > 0 {
        if rooted_within(ns1, n, k) && !is_root(ns1, n) {
            let a = choose|a: int|
                #[trigger] edge(ns1, a, n) && rooted_within(ns1, a, (k - 1) as nat);
            lemma_rooted_within_congruent(ns1, ns2, a, (k - 1) as nat);
            assert(ns1[a].to_block@ == ns2[a].to_block@);
            assert(edge(ns2, a, n));
        }
        if rooted_within(ns2, n, k) && !is_root(ns2, n) {
            let a = choose|a: int|
                #[trigger] edge(ns2, a, n) && rooted_within(ns2, a, (k - 1) as nat);
            lemma_rooted_within_congruent(ns1, ns2, a, (k - 1) as nat);
            assert(ns1[a].to_block@ == ns2[a].to_block@);
            assert(edge(ns1, a, n));
        }
    }
}

/// Blocked-state propagation only reads the blocking fields, so passes
/// that touch nothing but the inherited flags cannot change it.
pub proof fn lemma_blocked_within_congruent(ns1: Seq<Node>, ns2: Seq<Node>, n: int, k: nat)
    requires
        same_blocking_fields(ns1, ns2),
    ensures
        blocked_within(ns1, n, k) == blocked_within(ns2, n, k),
    decreases k,
{
    if k > 0 {
        if blocked_within(ns1, n, k) {
            let a = choose|a: int|
                #[trigger] edge(ns1, a, n) && ((rooted(ns1, a) && ns1[a].self_blocked)
                    || blocked_within(ns1, a, (k - 1) as nat));
            lemma_rooted_within_congruent(ns1, ns2, a, ns1.len());
            lemma_blocked_within_congruent(ns1, ns2, a, (k - 1) as nat);
            assert(ns1[a].to_block@ == ns2[a].to_block@);
            assert(ns1[a].self_blocked == ns2[a].self_blocked);
            assert(edge(ns2, a, n));
        }
        if blocked_within(ns2, n, k) {
            let a = choose|a: int|
                #[trigger] edge(ns2, a, n) && ((rooted(ns2, a) && ns2[a].self_blocked)
                    || blocked_within(ns2, a, (k - 1) as nat));
            lemma_rooted_within_congruent(ns1, ns2, a, ns1.len());
            lemma_blocked_within_congruent(ns1, ns2, a, (k - 1) as nat);
            assert(ns1[a].to_block@ == ns2[a].to_block@);
            assert(ns1[a].self_blocked == ns2[a].self_blocked);
            assert(edge(ns1, a, n));
        }
    }
}

/// Whether the reset cascade started at `start` reaches `n`: `n` is the
/// clicked node itself, or a blocker of some node the cascade reaches.
pub open spec fn reaches_up_within(nodes: Seq<Node>, start: int, n: int, k: nat) -> bool
    decreases k,
{
    n == start || (k > 0 && exists|a: int|
        0 <= a < nodes.len() && #[trigger] nodes[a].blockers@.contains(n as usize)
            && reaches_up_within(nodes, start, a, (k - 1) as nat))
}

/// Cascade reachability with chains of any length: no chain needs more
/// edges than there are nodes.
pub open spec fn reaches_up(nodes: Seq<Node>, start: int, n: int) -> bool {
    reaches_up_within(nodes, start, n, nodes.len())
}

/// One relaxation sweep for the reset cascade, upstream along `blockers`
/// edges.
fn reach_sweep(nodes: &Vec<Node>, start: usize, cur: &Vec<bool>, round: Ghost<nat>) -> (next:
    Vec<bool>)
    requires
        forall|i: int| 0 <= i < nodes@.len() ==> #[trigger] edges_in_range(nodes@, i),
        inverse_edges(nodes@),
        cur@.len() == nodes@.len(),
        forall|n: int| 0 <= n < nodes@.len()
            ==> (#[trigger] cur@[n] <==> reaches_up_within(nodes@, start as int, n, round@)),
    ensures
        next@.len() == nodes@.len(),
        forall|n: int| 0 <= n < nodes@.len()
            ==> (#[trigger] next@[n] <==> reaches_up_within(
                nodes@,
                start as int,
                n,
                round@ + 1,
            )),
{
    let len: usize = nodes.len();
    let mut next: Vec<bool> = Vec::new();
    let mut n: usize = 0;
    while n < len
        invariant
            len == nodes@.len(),
            n <= len,
            forall|i: int| 0 <= i < nodes@.len() ==> #[trigger] edges_in_range(nodes@, i),
            inverse_edges(nodes@),
            cur@.len() == nodes@.len(),
            forall|m: int| 0 <= m < nodes@.len()
                ==> (#[trigger] cur@[m] <==> reaches_up_within(nodes@, start as int, m, round@)),
            next@.len() == n,
            forall|m: int| 0 <= m < n
                ==> (#[trigger] next@[m] <==> reaches_up_within(
                    nodes@,
                    start as int,
                    m,
                    round@ + 1,
                )),
        decreases len - n,
    {
        let mut found: bool = false;
        let tb_len: usize = nodes[n].to_block.len();
        let mut j: usize = 0;
        while j < tb_len
            invariant
                len == nodes@.len(),
                n < len,
                tb_len == nodes@[n as int].to_block@.len(),
                j <= tb_len,
                forall|i: int| 0 <= i < nodes@.len() ==> #[trigger] edges_in_range(nodes@, i),
                cur@.len() == nodes@.len(),
                found <==> exists|i: int| 0 <= i < j
                    && cur@[#[trigger] nodes@[n as int].to_block@[i] as int],
            decreases tb_len - j,
        {
            let a: usize = nodes[n].to_block[j];
            proof {
                assert(edges_in_range(nodes@, n as int));
            }
            if cur[a] {
                found = true;
            }
            j = j + 1;
        }
        let val: bool = n == start || found;
        proof {
            let ghost ns = nodes@;
            let ghost ni = n as int;
            let ghost tb = ns[ni].to_block@;
            if found {
                let i = choose|i: int| 0 <= i < tb.len() && cur@[#[trigger] tb[i] as int];
                let a = tb[i] as int;
                assert(edges_in_range(ns, ni));
                assert(ns[ni].to_block@[i] < ns.len());
                assert(tb.contains(tb[i]));
                assert(a as usize == tb[i]);
                assert(ns[ni].to_block@.contains(a as usize));
                assert(ns[a].blockers@.contains(ni as usize));
                assert(reaches_up_within(ns, start as int, a, round@));
                assert(reaches_up_within(ns, start as int, ni, round@ + 1));
            }
            if reaches_up_within(ns, start as int, ni, round@ + 1) && ni != start as int {
                let a = choose|a: int|
                    0 <= a < ns.len() && #[trigger] ns[a].blockers@.contains(ni as usize)
                        && reaches_up_within(ns, start as int, a, (round@ + 1 - 1) as nat);
                assert(ns[ni].to_block@.contains(a as usize));
                let i = choose|i: int| 0 <= i < tb.len() && tb[i] == a as usize;
                assert(cur@[tb[i] as int]);
            }
            assert(val <==> reaches_up_within(ns, start as int, ni, round@ + 1));
        }
        next.push(val);
        n = n + 1;
    }
    next
}

/// Cascade reachability of every node from `start`, by `len` relaxation
/// rounds.
fn compute_reach(nodes: &Vec<Node>, start: usize) -> (r: Vec<bool>)
    requires
        forall|i: int| 0 <= i < nodes@.len() ==> #[trigger] edges_in_range(nodes@, i),
        inverse_edges(nodes@),
    ensures
        r@.len() == nodes@.len(),
        forall|n: int| 0 <= n < nodes@.len()
            ==> (#[trigger] r@[n] <==> reaches_up(nodes@, start as int, n)),
{
    let len: usize = nodes.len();
    let mut cur: Vec<bool> = Vec::new();
    let mut n: usize = 0;
    while n < len
        invariant
            len == nodes@.len(),
            n <= len,
            cur@.len() == n,
            forall|m: int| 0 <= m < n
                ==> (#[trigger] cur@[m] <==> reaches_up_within(nodes@, start as int, m, 0)),
        decreases len - n,
    {
        let val: bool = n == start;
        cur.push(val);
        n = n + 1;
    }
    let mut round: usize = 0;
    while round < len
        invariant
            len == nodes@.len(),
            round <= len,
            forall|i: int| 0 <= i < nodes@.len() ==> #[trigger] edges_in_range(nodes@, i),
            inverse_edges(nodes@),
            cur@.len() == nodes@.len(),
            forall|m: int| 0 <= m < nodes@.len()
                ==> (#[trigger] cur@[m] <==> reaches_up_within(
                    nodes@,
                    start as int,
                    m,
                    round as nat,
                )),
        decreases len - round,
    {
        cur = reach_sweep(nodes, start, &cur, Ghost(round as nat));
        round = round + 1;
    }
    cur
}

/// What the reset cascade does to one reached blocker node.
pub open spec fn spec_reset_node(n: Node) -> Node {
    Node {
        position: n.position,
        node_type: NodeType::Blocker { is_blocked: true },
        progress: ProgressTimer {
            duration_ms: TIMER_RESET_BLOCKER_FIXED_MS,
            elapsed_ms: 0,
            just_finished: false,
        },
        self_blocked: true,
        inherited_blocked: n.inherited_blocked,
        blockers: n.blockers,
        to_block: n.to_block,
    }
}

/// What one reset cascade does: every blocker node reachable upstream
/// from `entity` is re-locked, and nothing else moves.
pub open spec fn reset_pass_rel(g0: GameGraph, g1: GameGraph, entity: int) -> bool {
    &&& g1.nodes@.len() == g0.nodes@.len()
    &&& g1.currency == g0.currency
    &&& forall|i: int| 0 <= i < g0.nodes@.len()
        ==> #[trigger] g1.nodes@[i] == (if reaches_up(g0.nodes@, entity, i) && g0.nodes@[
            i
        ].node_type is Blocker {
            spec_reset_node(g0.nodes@[i])
        } else {
            g0.nodes@[i]
        })
}

impl GameGraph {
    /// The reset cascade of a click on `entity`: every blocker node among
    /// the nodes reachable upstream from it (through nested `blockers`
    /// sets, the clicked node included) is re-locked: manual toggle forced
    /// on, self-block forced on, timer set to the fixed reset duration with
    /// zero elapsed. Every other node is untouched.
    pub fn reset_manual_button_timers(&mut self, entity: usize)
        requires
            wf(*old(self)),
        ensures
            wf(*final(self)),
            reset_pass_rel(*old(self), *final(self), entity as int),
    {
        let ghost ns0 = self.nodes@;
        let reach: Vec<bool> = compute_reach(&self.nodes, entity);
        let len: usize = self.nodes.len();
        let mut i: usize = 0;
        while i < len
            invariant
                len == ns0.len(),
                self.nodes@.len() == ns0.len(),
                self.currency == old(self).currency,
                i <= len,
                reach@.len() == ns0.len(),
                forall|m: int| 0 <= m < ns0.len()
                    ==> (#[trigger] reach@[m] <==> reaches_up(ns0, entity as int, m)),
                forall|k: int| i <= k < len ==> #[trigger] self.nodes@[k] == ns0[k],
                forall|k: int| 0 <= k < i
                    ==> #[trigger] self.nodes@[k] == (if reaches_up(ns0, entity as int, k)
                        && ns0[k].node_type is Blocker {
                        spec_reset_node(ns0[k])
                    } else {
                        ns0[k]
                    }),
            decreases len - i,
        {
            let hit: bool = reach[i];
            if hit {
                match self.nodes[i].node_type {
                    NodeType::Blocker { is_blocked: _ } => {
                        self.nodes[i].node_type = NodeType::Blocker { is_blocked: true };
                        self.nodes[i].self_blocked = true;
                        self.nodes[i].progress = ProgressTimer {
                            duration_ms: TIMER_RESET_BLOCKER_FIXED_MS,
                            elapsed_ms: 0,
                            just_finished: false,
                        };
                    },
                    _ => {},
                }
            }
            i = i + 1;
        }
        proof {
            crate::graph::lemma_wf_preserved_same_edges(*old(self), *self);
        }
    }
}

} // verus!
