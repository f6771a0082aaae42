//! The persisted shape of a game and its reconstruction.
//!
//! A save is a flat list of nodes — position, archetype with level, timer
//! duration and remaining time, and the two edge lists as indices into the
//! same list — plus the currency counter. Reconstruction validates the
//! shape (indices in range, mutually inverse edge lists, remaining time
//! within the duration, positions on the map) and fails fast on any
//! violation: a broken save is a construction bug, not a state to repair.

use vstd::prelude::*;

use crate::graph::{wf, GameGraph, Node, NodeType};
use crate::pos::{in_bounds, Pos};
use crate::poisson::POS_LIMIT;
use crate::timer::{spec_remaining, ProgressTimer};

verus! {

/// One node as persisted.
#[derive(Debug)]
pub struct SavedNode {
    pub pos: Pos,
    pub node_type: NodeType,
    pub timer_ms_duration: u64,
    pub timer_ms_left: u64,
    /// Indices of the nodes this one blocks.
    pub to_block: Vec<usize>,
    /// Indices of the nodes that block this one.
    pub blockers: Vec<usize>,
}

/// A whole persisted game.
#[derive(Debug)]
pub struct Save {
    pub currencies: i32,
    pub nodes: Vec<SavedNode>,
}

/// A malformed save: an edge index out of range, edge lists that are not
/// inverse relations, remaining time beyond the duration, a position off
/// the map, or negative currency.
#[derive(Clone, Copy, PartialEq, Eq, Structural, Debug)]
pub struct LoadError;

/// Per-node validity: position on the map, remaining time within the
/// duration, edge indices in range.
pub open spec fn saved_node_ok(nodes: Seq<SavedNode>, i: int) -> bool {
    &&& in_bounds(nodes[i].pos, POS_LIMIT as int)
    &&& nodes[i].timer_ms_left <= nodes[i].timer_ms_duration
    &&& forall|j: int| 0 <= j < nodes[i].to_block@.len()
        ==> #[trigger] nodes[i].to_block@[j] < nodes.len()
    &&& forall|j: int| 0 <= j < nodes[i].blockers@.len()
        ==> #[trigger] nodes[i].blockers@[j] < nodes.len()
}

/// Validity of a whole save: every node valid and the edge lists mutually
/// inverse.
pub open spec fn valid_save(s: Save) -> bool {
    &&& s.currencies >= 0
    &&& forall|i: int| 0 <= i < s.nodes@.len() ==> #[trigger] saved_node_ok(s.nodes@, i)
    &&& forall|a: int, b: int| 0 <= a < s.nodes@.len() && 0 <= b < s.nodes@.len()
        ==> (#[trigger] s.nodes@[a].to_block@.contains(b as usize) <==> #[trigger] s.nodes@[
            b
        ].blockers@.contains(a as usize))
}

/// How a reconstructed graph relates to its save: same currency, and node
/// by node the same position, archetype and edges; the timer's elapsed
/// time is the duration minus the persisted remaining time; blocker nodes
/// come back self-blocked, everything else clear, and no inherited status
/// is persisted.
pub open spec fn loaded_from(s: Save, g: GameGraph) -> bool {
    &&& g.currency == s.currencies
    &&& g.nodes@.len() == s.nodes@.len()
    &&& forall|i: int| 0 <= i < s.nodes@.len()
        ==> {
            let sn = s.nodes@[i];
            let n = #[trigger] g.nodes@[i];
            &&& n.position == sn.pos
            &&& n.node_type == sn.node_type
            &&& n.progress == (ProgressTimer {
                duration_ms: sn.timer_ms_duration,
                elapsed_ms: (sn.timer_ms_duration - sn.timer_ms_left) as u64,
                just_finished: false,
            })
            &&& n.self_blocked == (sn.node_type is Blocker)
            &&& !n.inherited_blocked
            &&& n.blockers@ == sn.blockers@
            &&& n.to_block@ == sn.to_block@
        }
}

/// How a save relates to the graph it was taken from: same currency, and
/// node by node the same position, archetype and edges, with the timer
/// persisted as its duration and remaining time.
pub open spec fn saved_from(g: GameGraph, s: Save) -> bool {
    &&& s.currencies == g.currency
    &&& s.nodes@.len() == g.nodes@.len()
    &&& forall|i: int| 0 <= i < g.nodes@.len()
        ==> {
            let n = g.nodes@[i];
            let sn = #[trigger] s.nodes@[i];
            &&& sn.pos == n.position
            &&& sn.node_type == n.node_type
            &&& sn.timer_ms_duration == n.progress.duration_ms
            &&& sn.timer_ms_left == spec_remaining(n.progress)
            &&& sn.to_block@ == n.to_block@
            &&& sn.blockers@ == n.blockers@
        }
}

/// The starting game: one ready gain node, blocked by one blocker above it.
pub open spec fn is_default_save(s: Save) -> bool {
    &&& s.currencies == 0
    &&& s.nodes@.len() == 2
    &&& ({
        let n0 = s.nodes@[0];
        n0.pos == (Pos { x: 0, y: 0 }) && n0.node_type == (NodeType::Gain { level: 1u32 })
            && n0.timer_ms_duration == 2000 && n0.timer_ms_left == 2000 && n0.to_block@.len()
            == 0 && n0.blockers@ == (seq![1usize])
    })
    &&& ({
        let n1 = s.nodes@[1];
        n1.pos == (Pos { x: 0, y: 230_000 }) && n1.node_type == (NodeType::Blocker {
            is_blocked: true,
        }) && n1.timer_ms_duration == 3000 && n1.timer_ms_left == 1000 && n1.to_block@ == (seq![
            0usize
        ]) && n1.blockers@.len() == 0
    })
}

/// An element-for-element copy of a handle list.
fn copy_list(v: &Vec<usize>) -> (r: Vec<usize>)
    ensures
        r@ == v@,
{
    let mut r: Vec<usize> = Vec::new();
    let mut i: usize = 0;
    while i < v.len()
        invariant
            i <= v@.len(),
            r@ == v@.subrange(0, i as int),
        decreases v@.len() - i,
    {
        r.push(v[i]);
        i = i + 1;
    }
    proof {
        assert(r@ =~= v@);
    }
    r
}

/// Whether a handle list holds a given handle.
fn list_contains(v: &Vec<usize>, x: usize) -> (r: bool)
    ensures
        r == v@.contains(x),
{
    let mut i: usize = 0;
    while i < v.len()
        invariant
            i <= v@.len(),
            forall|j: int| 0 <= j < i ==> v@[j] != x,
        decreases v@.len() - i,
    {
        if v[i] == x {
            return true;
        }
        i = i + 1;
    }
    false
}

/// The default save a fresh game starts from.
pub fn default_save() -> (s: Save)
    ensures
        is_default_save(s),
        valid_save(s),
{
    let mut blockers0: Vec<usize> = Vec::new();
    blockers0.push(1);
    let n0 = SavedNode {
        pos: Pos { x: 0, y: 0 },
        node_type: NodeType::Gain { level: 1 },
        timer_ms_duration: 2000,
        timer_ms_left: 2000,
        to_block: Vec::new(),
        blockers: blockers0,
    };
    let mut to_block1: Vec<usize> = Vec::new();
    to_block1.push(0);
    let n1 = SavedNode {
        pos: Pos { x: 0, y: 230_000 },
        node_type: NodeType::Blocker { is_blocked: true },
        timer_ms_duration: 3000,
        timer_ms_left: 1000,
        to_block: to_block1,
        blockers: Vec::new(),
    };
    let mut nodes: Vec<SavedNode> = Vec::new();
    nodes.push(n0);
    nodes.push(n1);
    let s = Save { currencies: 0, nodes };
    proof {
        assert(s.nodes@[0].blockers@ =~= seq![1usize]);
        assert(s.nodes@[1].to_block@ =~= seq![0usize]);
        assert forall|a: int, b: int| 0 <= a < s.nodes@.len() && 0 <= b < s.nodes@.len()
            implies (#[trigger] s.nodes@[a].to_block@.contains(b as usize) <==> #[trigger] s
            .nodes@[b].blockers@.contains(a as usize)) by {
            assert(s.nodes@[1].to_block@[0] == 0usize);
            assert(s.nodes@[0].blockers@[0] == 1usize);
            if s.nodes@[a].to_block@.contains(b as usize) {
                let j = choose|j: int| 0 <= j < s.nodes@[a].to_block@.len() && s.nodes@[
                    a
                ].to_block@[j] == b as usize;
                assert(a == 1 && b == 0);
            }
            if s.nodes@[b].blockers@.contains(a as usize) {
                let j = choose|j: int| 0 <= j < s.nodes@[b].blockers@.len() && s.nodes@[
                    b
                ].blockers@[j] == a as usize;
                assert(b == 0 && a == 1);
            }
        }
    }
    s
}

/// What a stored game resolves to: itself when it holds any node, else
/// the default save (a store that lost its nodes starts the game over).
pub fn load(stored: Option<Save>) -> (s: Save)
    ensures
        match stored {
            Some(sv) => {
                if sv.nodes@.len() > 0 {
                    s == sv
                } else {
                    is_default_save(s) && valid_save(s)
                }
            },
            None => is_default_save(s) && valid_save(s),
        },
{
    match stored {
        Some(sv) => {
            if sv.nodes.len() > 0 {
                sv
            } else {
                default_save()
            }
        },
        None => default_save(),
    }
}

/// A single pair of nodes whose edge lists disagree refutes a whole save.
proof fn lemma_pair_violation(s: Save, a: int, b: int)
    requires
        0 <= a < s.nodes@.len(),
        0 <= b < s.nodes@.len(),
        s.nodes@[a].to_block@.contains(b as usize) != s.nodes@[b].blockers@.contains(a as usize),
    ensures
        !valid_save(s),
{
}

/// Whether a save passes every validity check.
fn check_valid(save: &Save) -> (r: bool)
    ensures
        r == valid_save(*save),
{
    if save.currencies < 0 {
        return false;
    }
    let len: usize = save.nodes.len();
    let mut i: usize = 0;
    while i < len
        invariant
            len == save.nodes@.len(),
            i <= len,
            save.currencies >= 0,
            forall|k: int| 0 <= k < i ==> #[trigger] saved_node_ok(save.nodes@, k),
            forall|k: int, j: int| 0 <= k < i && 0 <= j < save.nodes@[k].to_block@.len()
                ==> save.nodes@[#[trigger] save.nodes@[k].to_block@[j] as int].blockers@.contains(
                    k as usize,
                ),
            forall|k: int, j: int| 0 <= k < i && 0 <= j < save.nodes@[k].blockers@.len()
                ==> save.nodes@[#[trigger] save.nodes@[k].blockers@[j] as int].to_block@.contains(
                    k as usize,
                ),
        decreases len - i,
    {
        let p: Pos = save.nodes[i].pos;
        if p.x < -POS_LIMIT || p.x > POS_LIMIT || p.y < -POS_LIMIT || p.y > POS_LIMIT {
            proof {
                assert(!saved_node_ok(save.nodes@, i as int));
            }
            return false;
        }
        if save.nodes[i].timer_ms_left > save.nodes[i].timer_ms_duration {
            proof {
                assert(!saved_node_ok(save.nodes@, i as int));
            }
            return false;
        }
        let tb_len: usize = save.nodes[i].to_block.len();
        let mut j: usize = 0;
        while j < tb_len
            invariant
                len == save.nodes@.len(),
                i < len,
                tb_len == save.nodes@[i as int].to_block@.len(),
                j <= tb_len,
                forall|jj: int| 0 <= jj < j
                    ==> #[trigger] save.nodes@[i as int].to_block@[jj] < len,
                forall|jj: int| 0 <= jj < j
                    ==> save.nodes@[#[trigger] save.nodes@[i as int].to_block@[
                        jj
                    ] as int].blockers@.contains(i as usize),
            decreases tb_len - j,
        {
            let b: usize = save.nodes[i].to_block[j];
            if b >= len {
                proof {
                    assert(!saved_node_ok(save.nodes@, i as int));
                }
                return false;
            }
            if !list_contains(&save.nodes[b].blockers, i) {
                proof {
                    assert(save.nodes@[i as int].to_block@.contains(b));
                    lemma_pair_violation(*save, i as int, b as int);
                }
                return false;
            }
            j = j + 1;
        }
        let bl_len: usize = save.nodes[i].blockers.len();
        let mut j2: usize = 0;
        while j2 < bl_len
            invariant
                len == save.nodes@.len(),
                i < len,
                bl_len == save.nodes@[i as int].blockers@.len(),
                j2 <= bl_len,
                forall|jj: int| 0 <= jj < j2
                    ==> #[trigger] save.nodes@[i as int].blockers@[jj] < len,
                forall|jj: int| 0 <= jj < j2
                    ==> save.nodes@[#[trigger] save.nodes@[i as int].blockers@[
                        jj
                    ] as int].to_block@.contains(i as usize),
            decreases bl_len - j2,
        {
            let b: usize = save.nodes[i].blockers[j2];
            if b >= len {
                proof {
                    assert(!saved_node_ok(save.nodes@, i as int));
                }
                return false;
            }
            if !list_contains(&save.nodes[b].to_block, i) {
                proof {
                    assert(save.nodes@[i as int].blockers@.contains(b));
                    lemma_pair_violation(*save, b as int, i as int);
                }
                return false;
            }
            j2 = j2 + 1;
        }
        i = i + 1;
    }
    proof {
        let ghost ns = save.nodes@;
        assert forall|a: int, b: int| 0 <= a < ns.len() && 0 <= b < ns.len() implies (#[trigger]
        ns[a].to_block@.contains(b as usize) <==> #[trigger] ns[b].blockers@.contains(
            a as usize,
        )) by {
            if ns[a].to_block@.contains(b as usize) {
                let j = choose|j: int| 0 <= j < ns[a].to_block@.len() && ns[a].to_block@[j]
                    == b as usize;
                assert(ns[ns[a].to_block@[j] as int].blockers@.contains(a as usize));
            }
            if ns[b].blockers@.contains(a as usize) {
                let j = choose|j: int| 0 <= j < ns[b].blockers@.len() && ns[b].blockers@[j]
                    == a as usize;
                assert(ns[ns[b].blockers@[j] as int].to_block@.contains(b as usize));
            }
        }
    }
    true
}

/// Reconstructs a game from its persisted shape, or rejects a malformed
/// save. Succeeds exactly on valid saves.
pub fn start_load(save: &Save) -> (r: Result<GameGraph, LoadError>)
    ensures
        r is Err <==> !valid_save(*save),
        r matches Ok(g) ==> loaded_from(*save, g) && wf(g),
{
    if !check_valid(save) {
        return Err(LoadError);
    }
    let len: usize = save.nodes.len();
    let mut nodes: Vec<Node> = Vec::new();
    let mut i: usize = 0;
    while i < len
        invariant
            len == save.nodes@.len(),
            i <= len,
            valid_save(*save),
            nodes@.len() == i,
            forall|k: int| 0 <= k < i
                ==> {
                    let sn = save.nodes@[k];
                    let n = #[trigger] nodes@[k];
                    &&& n.position == sn.pos
                    &&& n.node_type == sn.node_type
                    &&& n.progress == (ProgressTimer {
                        duration_ms: sn.timer_ms_duration,
                        elapsed_ms: (sn.timer_ms_duration - sn.timer_ms_left) as u64,
                        just_finished: false,
                    })
                    &&& n.self_blocked == (sn.node_type is Blocker)
                    &&& !n.inherited_blocked
                    &&& n.blockers@ == sn.blockers@
                    &&& n.to_block@ == sn.to_block@
                },
        decreases len - i,
    {
        proof {
            assert(saved_node_ok(save.nodes@, i as int));
        }
        let self_blocked: bool = match save.nodes[i].node_type {
            NodeType::Blocker { is_blocked: _ } => true,
            _ => false,
        };
        let n = Node {
            position: save.nodes[i].pos,
            node_type: save.nodes[i].node_type,
            progress: ProgressTimer {
                duration_ms: save.nodes[i].timer_ms_duration,
                elapsed_ms: save.nodes[i].timer_ms_duration - save.nodes[i].timer_ms_left,
                just_finished: false,
            },
            self_blocked,
            inherited_blocked: false,
            blockers: copy_list(&save.nodes[i].blockers),
            to_block: copy_list(&save.nodes[i].to_block),
        };
        nodes.push(n);
        i = i + 1;
    }
    let g = GameGraph { nodes, currency: save.currencies };
    proof {
        assert forall|k: int| 0 <= k < g.nodes@.len() implies in_bounds(
            #[trigger] g.nodes@[k].position,
            POS_LIMIT as int,
        ) by {
            assert(saved_node_ok(save.nodes@, k));
        }
        assert forall|k: int| 0 <= k < g.nodes@.len() implies #[trigger]
        crate::graph::edges_in_range(g.nodes@, k) by {
            assert(saved_node_ok(save.nodes@, k));
            assert(g.nodes@[k].blockers@ == save.nodes@[k].blockers@);
            assert(g.nodes@[k].to_block@ == save.nodes@[k].to_block@);
        }
        assert forall|a: int, b: int| 0 <= a < g.nodes@.len() && 0 <= b < g.nodes@.len()
            implies (#[trigger] g.nodes@[a].to_block@.contains(b as usize) <==> #[trigger] g
            .nodes@[b].blockers@.contains(a as usize)) by {
            assert(g.nodes@[a].to_block@ == save.nodes@[a].to_block@);
            assert(g.nodes@[b].blockers@ == save.nodes@[b].blockers@);
            assert(save.nodes@[a].to_block@.contains(b as usize) <==> save.nodes@[
                b
            ].blockers@.contains(a as usize));
        }
    }
    Ok(g)
}

impl GameGraph {
    /// Projects the game onto its persisted shape: positions, archetypes,
    /// timer durations and remaining times, and both edge lists, as plain
    /// index lists, plus the currency counter. Only a well-formed graph may
    /// be persisted: a dangling edge is a fatal invariant violation, never
    /// something to write out.
    pub fn to_save(&self) -> (s: Save)
        requires
            wf(*self),
        ensures
            saved_from(*self, s),
    {
        let len: usize = self.nodes.len();
        let mut out: Vec<SavedNode> = Vec::new();
        let mut i: usize = 0;
        while i < len
            invariant
                len == self.nodes@.len(),
                i <= len,
                out@.len() == i,
                forall|k: int| 0 <= k < i
                    ==> {
                        let n = self.nodes@[k];
                        let sn = #[trigger] out@[k];
                        &&& sn.pos == n.position
                        &&& sn.node_type == n.node_type
                        &&& sn.timer_ms_duration == n.progress.duration_ms
                        &&& sn.timer_ms_left == spec_remaining(n.progress)
                        &&& sn.to_block@ == n.to_block@
                        &&& sn.blockers@ == n.blockers@
                    },
            decreases len - i,
        {
            let sn = SavedNode {
                pos: self.nodes[i].position,
                node_type: self.nodes[i].node_type,
                timer_ms_duration: self.nodes[i].progress.duration_ms,
                timer_ms_left: self.nodes[i].progress.remaining_ms(),
                to_block: copy_list(&self.nodes[i].to_block),
                blockers: copy_list(&self.nodes[i].blockers),
            };
            out.push(sn);
            i = i + 1;
        }
        Save { currencies: self.currency, nodes: out }
    }
}

/// A save taken from a well-formed graph is valid, so reloading it always
/// succeeds.
pub proof fn lemma_saved_is_valid(g: GameGraph, s: Save)
    requires
        wf(g),
        saved_from(g, s),
    ensures
        valid_save(s),
{
    assert forall|i: int| 0 <= i < s.nodes@.len() implies #[trigger] saved_node_ok(
        s.nodes@,
        i,
    ) by {
        assert(crate::graph::edges_in_range(g.nodes@, i));
        assert(s.nodes@[i].to_block@ == g.nodes@[i].to_block@);
        assert(s.nodes@[i].blockers@ == g.nodes@[i].blockers@);
        assert(in_bounds(g.nodes@[i].position, POS_LIMIT as int));
    }
    assert forall|a: int, b: int| 0 <= a < s.nodes@.len() && 0 <= b < s.nodes@.len() implies (
    #[trigger] s.nodes@[a].to_block@.contains(b as usize) <==> #[trigger] s.nodes@[
        b
    ].blockers@.contains(a as usize)) by {
        assert(s.nodes@[a].to_block@ == g.nodes@[a].to_block@);
        assert(s.nodes@[b].blockers@ == g.nodes@[b].blockers@);
        assert(g.nodes@[a].to_block@.contains(b as usize) <==> g.nodes@[b].blockers@.contains(
            a as usize,
        ));
    }
}

/// Saving and reloading preserves the game: currency, and node by node the
/// position, archetype, both edge lists (so the whole topology), the timer
/// duration, whether the timer is finished, and — whenever the elapsed
/// time had not overrun the duration — the exact elapsed time.
pub proof fn lemma_save_load_round_trip(g: GameGraph, s: Save, g2: GameGraph)
    requires
        wf(g),
        saved_from(g, s),
        loaded_from(s, g2),
    ensures
        g2.currency == g.currency,
        g2.nodes@.len() == g.nodes@.len(),
        forall|i: int| 0 <= i < g.nodes@.len()
            ==> {
                let n0 = g.nodes@[i];
                let n2 = #[trigger] g2.nodes@[i];
                &&& n2.position == n0.position
                &&& n2.node_type == n0.node_type
                &&& n2.blockers@ == n0.blockers@
                &&& n2.to_block@ == n0.to_block@
                &&& n2.progress.duration_ms == n0.progress.duration_ms
                &&& crate::timer::spec_finished(n2.progress) == crate::timer::spec_finished(
                    n0.progress,
                )
                &&& n0.progress.elapsed_ms <= n0.progress.duration_ms
                    ==> n2.progress.elapsed_ms == n0.progress.elapsed_ms
            },
{
    assert forall|i: int| 0 <= i < g.nodes@.len() implies {
        let n0 = g.nodes@[i];
        let n2 = #[trigger] g2.nodes@[i];
        &&& n2.position == n0.position
        &&& n2.node_type == n0.node_type
        &&& n2.blockers@ == n0.blockers@
        &&& n2.to_block@ == n0.to_block@
        &&& n2.progress.duration_ms == n0.progress.duration_ms
        &&& crate::timer::spec_finished(n2.progress) == crate::timer::spec_finished(n0.progress)
        &&& n0.progress.elapsed_ms <= n0.progress.duration_ms ==> n2.progress.elapsed_ms
            == n0.progress.elapsed_ms
    } by {
        let sn = s.nodes@[i];
        assert(sn.timer_ms_left == spec_remaining(g.nodes@[i].progress));
    }
}

} // verus!
