//! The node arena: every game node with its archetype, progress timer,
//! block flags and the two edge lists of the blocking graph, plus the
//! per-tick passes that work node by node.
//!
//! Edge conventions, kept from the save format: `blockers` holds the
//! handles of the nodes that block this one (upstream), `to_block` the
//! handles this node blocks (downstream). The two lists are inverse
//! relations of one another, and every handle is an index into the arena.

use vstd::prelude::*;

use crate::events::NewNodeEvent;
use crate::pos::{in_bounds, Pos};
use crate::timer::{spec_finished, spec_tick, ProgressTimer};
use crate::poisson::POS_LIMIT;

verus! {

/// Milliseconds of blocker-node duration per unit of currency at spawn.
pub const TIMER_BLOCKER_MULT_MS: u64 = 500;

/// Fixed duration a re-locked blocker's timer is set to.
pub const TIMER_RESET_BLOCKER_FIXED_MS: u64 = 500;

/// Milliseconds of gain-node duration per unit of currency.
pub const TIMER_GAIN_MULT_MS: u64 = 300;

/// Milliseconds of gain-node duration per level.
pub const TIMER_GAIN_MULT_PER_LEVEL_MS: u64 = 2000;

/// Base milliseconds of save-node duration.
pub const TIMER_SAVE_BASE_MS: u64 = 5000;

/// Milliseconds of save-node duration per level.
pub const TIMER_SAVE_MULT_PER_LEVEL_MS: u64 = 5000;

/// Milliseconds of save-node duration per unit of currency.
pub const TIMER_SAVE_ADD_MULT_PER_CURRENCY_MS: u64 = 500;

/// An inherited-blocked node (other than a manually blocked blocker, which
/// does not tick at all) ticks at this fraction of real time.
pub const BLOCKED_TICK_DIVISOR: u64 = 20;

/// Node archetype: what a click on the node does. A gain node earns
/// currency, a save node persists the game, a blocker node is toggled by
/// hand and gates its downstream nodes while blocked.
#[derive(Clone, Copy, PartialEq, Eq, Structural, Debug)]
pub enum NodeType {
    Gain { level: u32 },
    Save { level: u32 },
    Blocker { is_blocked: bool },
}

/// One game node.
#[derive(Debug)]
pub struct Node {
    /// Map position, set at creation and never moved.
    pub position: Pos,
    pub node_type: NodeType,
    pub progress: ProgressTimer,
    /// The node's own blocked state: timer not finished, or, for a blocker
    /// node, its manual toggle. Recomputed each tick by `check_self_block`.
    pub self_blocked: bool,
    /// Blocked state inherited from upstream, recomputed each tick by
    /// `update_inherited_block_status`; never a source of truth.
    pub inherited_blocked: bool,
    /// Handles of the nodes that block this one.
    pub blockers: Vec<usize>,
    /// Handles of the nodes this one blocks.
    pub to_block: Vec<usize>,
}

/// The whole simulation state: the arena of nodes and the currency counter.
#[derive(Debug)]
pub struct GameGraph {
    pub nodes: Vec<Node>,
    pub currency: i32,
}

/// Whether a node's edge lists point into the arena.
pub open spec fn edges_in_range(nodes: Seq<Node>, i: int) -> bool {
    &&& forall|j: int| 0 <= j < nodes[i].blockers@.len()
        ==> #[trigger] nodes[i].blockers@[j] < nodes.len()
    &&& forall|j: int| 0 <= j < nodes[i].to_block@.len()
        ==> #[trigger] nodes[i].to_block@[j] < nodes.len()
}

/// The two edge lists are inverse relations: a blocks b exactly when b
/// counts a among its blockers.
pub open spec fn inverse_edges(nodes: Seq<Node>) -> bool {
    forall|a: int, b: int| 0 <= a < nodes.len() && 0 <= b < nodes.len()
        ==> (#[trigger] nodes[a].to_block@.contains(b as usize)
            <==> #[trigger] nodes[b].blockers@.contains(a as usize))
}

/// Well-formedness of the whole graph: positions on the map, edges in
/// range and mutually inverse, currency non-negative.
pub open spec fn wf(g: GameGraph) -> bool {
    &&& forall|i: int| 0 <= i < g.nodes@.len()
        ==> in_bounds(#[trigger] g.nodes@[i].position, POS_LIMIT as int)
    &&& forall|i: int| 0 <= i < g.nodes@.len() ==> #[trigger] edges_in_range(g.nodes@, i)
    &&& inverse_edges(g.nodes@)
    &&& g.currency >= 0
}

/// A node's own blocked state: its timer has not finished, or it is a
/// blocker node whose manual toggle is on.
pub open spec fn spec_self_blocked(n: Node) -> bool {
    !spec_finished(n.progress) || (match n.node_type {
        NodeType::Blocker { is_blocked } => is_blocked,
        _ => false,
    })
}

/// The positions of all nodes, in arena order.
pub open spec fn positions_of(nodes: Seq<Node>) -> Seq<Pos> {
    Seq::new(nodes.len(), |i: int| nodes[i].position)
}

/// Everything of a node except its two status flags and its timer.
pub open spec fn same_shape(a: Node, b: Node) -> bool {
    &&& a.position == b.position
    &&& a.node_type == b.node_type
    &&& a.blockers@ == b.blockers@
    &&& a.to_block@ == b.to_block@
}

impl GameGraph {
    /// An empty graph with the given starting currency.
    pub fn new(currency: i32) -> (g: GameGraph)
        requires
            currency >= 0,
        ensures
            g.nodes@.len() == 0,
            g.currency == currency,
            wf(g),
    {
        GameGraph { nodes: Vec::new(), currency }
    }

    /// Recomputes every node's own blocked state from its timer and, for
    /// blocker nodes, the manual toggle. Nothing else changes.
    pub fn check_self_block(&mut self)
        ensures
            wf(*old(self)) ==> wf(*final(self)),
            self_block_rel(*old(self), *final(self)),
    {
        let len: usize = self.nodes.len();
        let mut i: usize = 0;
        while i < len
            invariant
                len == self.nodes@.len(),
                i <= len,
                self.currency == old(self).currency,
                forall|k: int| i <= k < len
                    ==> #[trigger] self.nodes@[k] == old(self).nodes@[k],
                forall|k: int| 0 <= k < i
                    ==> {
                        let n0 = old(self).nodes@[k];
                        let n1 = #[trigger] self.nodes@[k];
                        same_shape(n0, n1) && n1.progress == n0.progress
                            && n1.inherited_blocked == n0.inherited_blocked
                            && n1.self_blocked == spec_self_blocked(n0)
                    },
            decreases len - i,
        {
            let blocked: bool = match self.nodes[i].node_type {
                NodeType::Blocker { is_blocked } => {
                    !self.nodes[i].progress.finished() || is_blocked
                },
                _ => !self.nodes[i].progress.finished(),
            };
            self.nodes[i].self_blocked = blocked;
            i = i + 1;
        }
        proof {
            if wf(*old(self)) {
                lemma_wf_preserved_same_edges(*old(self), *self);
            }
        }
    }

    /// Advances every node's timer by `delta_ms`, gated by block status: a
    /// manually blocked blocker node whose inherited status is also blocked
    /// does not tick at all; any other inherited-blocked node ticks at
    /// `1 / BLOCKED_TICK_DIVISOR` speed (integer division of the delta);
    /// everything else ticks at full speed.
    pub fn update_progress_timer(&mut self, delta_ms: u64)
        ensures
            wf(*old(self)) ==> wf(*final(self)),
            timer_pass_rel(*old(self), *final(self), delta_ms as int),
    {
        let len: usize = self.nodes.len();
        let mut i: usize = 0;
        while i < len
            invariant
                len == self.nodes@.len(),
                i <= len,
                self.currency == old(self).currency,
                forall|k: int| i <= k < len
                    ==> #[trigger] self.nodes@[k] == old(self).nodes@[k],
                forall|k: int| 0 <= k < i
                    ==> {
                        let n0 = old(self).nodes@[k];
                        let n1 = #[trigger] self.nodes@[k];
                        same_shape(n0, n1) && n1.self_blocked == n0.self_blocked
                            && n1.inherited_blocked == n0.inherited_blocked
                            && n1.progress == spec_gated_tick(n0, delta_ms as int)
                    },
            decreases len - i,
        {
            let mut t: ProgressTimer = self.nodes[i].progress;
            match self.nodes[i].node_type {
                NodeType::Blocker { is_blocked } => {
                    if is_blocked && self.nodes[i].inherited_blocked {
                        t.just_finished = false;
                    } else {
                        t.tick(delta_ms);
                    }
                },
                _ => {
                    if self.nodes[i].inherited_blocked {
                        t.tick(delta_ms / BLOCKED_TICK_DIVISOR);
                    } else {
                        t.tick(delta_ms);
                    }
                },
            }
            self.nodes[i].progress = t;
            i = i + 1;
        }
        proof {
            if wf(*old(self)) {
                lemma_wf_preserved_same_edges(*old(self), *self);
            }
        }
    }

    /// For every blocker node whose timer finished on this very tick, turns
    /// the manual toggle on and emits one spawn request carrying the current
    /// currency, in node order. Nothing else changes.
    pub fn update_progress_manual_auto_block(&mut self) -> (events: Vec<NewNodeEvent>)
        ensures
            wf(*old(self)) ==> wf(*final(self)),
            auto_pass_rel(*old(self), *final(self), events@),
    {
        let len: usize = self.nodes.len();
        let mut events: Vec<NewNodeEvent> = Vec::new();
        let mut i: usize = 0;
        while i < len
            invariant
                len == self.nodes@.len(),
                i <= len,
                self.currency == old(self).currency,
                forall|k: int| i <= k < len
                    ==> #[trigger] self.nodes@[k] == old(self).nodes@[k],
                forall|k: int| 0 <= k < i
                    ==> {
                        let n0 = old(self).nodes@[k];
                        let n1 = #[trigger] self.nodes@[k];
                        n1.position == n0.position && n1.progress == n0.progress
                            && n1.blockers@ == n0.blockers@ && n1.to_block@ == n0.to_block@
                            && n1.self_blocked == n0.self_blocked
                            && n1.inherited_blocked == n0.inherited_blocked
                            && n1.node_type == spec_auto_blocked_type(n0)
                    },
                forall|j: int| 0 <= j < events@.len()
                    ==> {
                        let e = #[trigger] events@[j];
                        e.currencies_on_click == old(self).currency && e.entity < i
                            && spec_auto_fires(old(self).nodes@[e.entity as int])
                    },
                forall|j1: int, j2: int| 0 <= j1 < j2 < events@.len()
                    ==> #[trigger] events@[j1].entity < #[trigger] events@[j2].entity,
                forall|k: int| 0 <= k < i && spec_auto_fires(#[trigger] old(self).nodes@[k])
                    ==> exists|j: int| 0 <= j < events@.len() && #[trigger] events@[j].entity
                        == k,
            decreases len - i,
        {
            let fires: bool = match self.nodes[i].node_type {
                NodeType::Blocker { is_blocked: _ } => self.nodes[i].progress.just_finished(),
                _ => false,
            };
            if fires {
                self.nodes[i].node_type = NodeType::Blocker { is_blocked: true };
                let ghost pre = events@;
                events.push(NewNodeEvent { entity: i, currencies_on_click: self.currency });
                proof {
                    assert forall|k: int|
                        0 <= k < i + 1 && spec_auto_fires(old(self).nodes@[k]) implies exists|
                        j: int,
                    | 0 <= j < events@.len() && #[trigger] events@[j].entity == k by {
                        if k == i {
                            assert(events@[pre.len() as int].entity == i as int);
                        } else {
                            let j0 = choose|j: int| 0 <= j < pre.len() && #[trigger] pre[j].entity
                                == k;
                            assert(events@[j0].entity == k);
                        }
                    }
                }
            }
            i = i + 1;
        }
        proof {
            if wf(*old(self)) {
                lemma_wf_preserved_same_edges(*old(self), *self);
            }
        }
        events
    }
}

/// The read-only projection of one node that renderers and text overlays
/// consume: whether its timer finished and how much is left, whether it is
/// blocked (by itself or by inheritance), and its archetype with level.
#[derive(Clone, Copy, PartialEq, Eq, Structural, Debug)]
pub struct NodeStatus {
    pub finished: bool,
    pub remaining_ms: u64,
    pub blocked: bool,
    pub node_type: NodeType,
}

impl GameGraph {
    /// The status snapshot of one node, or nothing for a dead handle.
    pub fn status(&self, entity: usize) -> (r: Option<NodeStatus>)
        ensures
            r is Some <==> entity < self.nodes@.len(),
            r matches Some(st) ==> {
                let n = self.nodes@[entity as int];
                &&& st.finished == spec_finished(n.progress)
                &&& st.remaining_ms == crate::timer::spec_remaining(n.progress)
                &&& st.blocked == (n.inherited_blocked || n.self_blocked)
                &&& st.node_type == n.node_type
            },
    {
        if entity >= self.nodes.len() {
            return None;
        }
        Some(NodeStatus {
            finished: self.nodes[entity].progress.finished(),
            remaining_ms: self.nodes[entity].progress.remaining_ms(),
            blocked: self.nodes[entity].inherited_blocked || self.nodes[entity].self_blocked,
            node_type: self.nodes[entity].node_type,
        })
    }
}

/// What the timer pass does: every node's timer advances by the gated
/// tick, and nothing else moves.
pub open spec fn timer_pass_rel(g0: GameGraph, g1: GameGraph, delta: int) -> bool {
    &&& g1.nodes@.len() == g0.nodes@.len()
    &&& g1.currency == g0.currency
    &&& forall|i: int| 0 <= i < g0.nodes@.len()
        ==> {
            let n0 = g0.nodes@[i];
            let n1 = #[trigger] g1.nodes@[i];
            same_shape(n0, n1) && n1.self_blocked == n0.self_blocked && n1.inherited_blocked
                == n0.inherited_blocked && n1.progress == spec_gated_tick(n0, delta)
        }
}

/// What the auto-block pass does: just-finished blockers lock themselves,
/// and `events` is exactly one spawn request per such blocker, in node
/// order, each carrying the current currency.
pub open spec fn auto_pass_rel(g0: GameGraph, g1: GameGraph, events: Seq<NewNodeEvent>) -> bool {
    &&& g1.nodes@.len() == g0.nodes@.len()
    &&& g1.currency == g0.currency
    &&& forall|i: int| 0 <= i < g0.nodes@.len()
        ==> {
            let n0 = g0.nodes@[i];
            let n1 = #[trigger] g1.nodes@[i];
            n1.position == n0.position && n1.progress == n0.progress && n1.blockers@
                == n0.blockers@ && n1.to_block@ == n0.to_block@ && n1.self_blocked
                == n0.self_blocked && n1.inherited_blocked == n0.inherited_blocked
                && n1.node_type == spec_auto_blocked_type(n0)
        }
    &&& forall|j: int| 0 <= j < events.len()
        ==> {
            let e = #[trigger] events[j];
            e.currencies_on_click == g0.currency && e.entity < g0.nodes@.len()
                && spec_auto_fires(g0.nodes@[e.entity as int])
        }
    &&& forall|j1: int, j2: int| 0 <= j1 < j2 < events.len()
        ==> #[trigger] events[j1].entity < #[trigger] events[j2].entity
    &&& forall|i: int| 0 <= i < g0.nodes@.len() && spec_auto_fires(#[trigger] g0.nodes@[i])
        ==> exists|j: int| 0 <= j < events.len() && #[trigger] events[j].entity == i
}

/// What the self-block pass does: every node's own blocked state is
/// recomputed, and nothing else moves.
pub open spec fn self_block_rel(g0: GameGraph, g1: GameGraph) -> bool {
    &&& g1.nodes@.len() == g0.nodes@.len()
    &&& g1.currency == g0.currency
    &&& forall|i: int| 0 <= i < g0.nodes@.len()
        ==> {
            let n0 = g0.nodes@[i];
            let n1 = #[trigger] g1.nodes@[i];
            same_shape(n0, n1) && n1.progress == n0.progress && n1.inherited_blocked
                == n0.inherited_blocked && n1.self_blocked == spec_self_blocked(n0)
        }
}

/// Well-formedness only looks at positions, edge lists and currency, so it
/// carries over to any graph that keeps them all.
pub proof fn lemma_wf_preserved_same_edges(g0: GameGraph, g1: GameGraph)
    requires
        wf(g0),
        g1.nodes@.len() == g0.nodes@.len(),
        g1.currency >= 0,
        forall|i: int| 0 <= i < g0.nodes@.len()
            ==> {
                let a = g0.nodes@[i];
                let b = #[trigger] g1.nodes@[i];
                b.position == a.position && b.blockers@ == a.blockers@ && b.to_block@
                    == a.to_block@
            },
    ensures
        wf(g1),
{
    assert forall|i: int| 0 <= i < g1.nodes@.len() implies #[trigger] edges_in_range(
        g1.nodes@,
        i,
    ) by {
        assert(edges_in_range(g0.nodes@, i));
        assert(g1.nodes@[i].blockers@ == g0.nodes@[i].blockers@);
        assert(g1.nodes@[i].to_block@ == g0.nodes@[i].to_block@);
    }
    assert forall|a: int, b: int| 0 <= a < g1.nodes@.len() && 0 <= b < g1.nodes@.len() implies (
    #[trigger] g1.nodes@[a].to_block@.contains(b as usize) <==> #[trigger] g1.nodes@[
        b
    ].blockers@.contains(a as usize)) by {
        assert(g1.nodes@[a].to_block@ == g0.nodes@[a].to_block@);
        assert(g1.nodes@[b].blockers@ == g0.nodes@[b].blockers@);
        assert(g0.nodes@[a].to_block@.contains(b as usize) <==> g0.nodes@[b].blockers@.contains(
            a as usize,
        ));
    }
}

/// What the timer-gating pass does to one node's timer. A fully gated
/// blocker does not advance, but its `just_finished` flag still drops:
/// the flag is true only on the very tick that finishes the timer.
pub open spec fn spec_gated_tick(n: Node, delta: int) -> ProgressTimer {
    match n.node_type {
        NodeType::Blocker { is_blocked } => {
            if is_blocked && n.inherited_blocked {
                ProgressTimer {
                    duration_ms: n.progress.duration_ms,
                    elapsed_ms: n.progress.elapsed_ms,
                    just_finished: false,
                }
            } else {
                spec_tick(n.progress, delta)
            }
        },
        _ => {
            if n.inherited_blocked {
                spec_tick(n.progress, delta / (BLOCKED_TICK_DIVISOR as int))
            } else {
                spec_tick(n.progress, delta)
            }
        },
    }
}

/// Whether the auto-block pass fires on a node: a blocker node whose timer
/// finished on this very tick.
pub open spec fn spec_auto_fires(n: Node) -> bool {
    match n.node_type {
        NodeType::Blocker { is_blocked: _ } => n.progress.just_finished,
        _ => false,
    }
}

/// The node archetype after the auto-block pass.
pub open spec fn spec_auto_blocked_type(n: Node) -> NodeType {
    if spec_auto_fires(n) {
        NodeType::Blocker { is_blocked: true }
    } else {
        n.node_type
    }
}

} // verus!
