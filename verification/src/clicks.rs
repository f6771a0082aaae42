//! Click resolution: what a pointer activation does to a node, by
//! archetype. A click only acts on a node whose timer is finished and whose
//! inherited status is not blocked; a stale click (blocked or not finished)
//! changes nothing and emits nothing.

use vstd::prelude::*;

use crate::events::{EventSave, GameEvent, NewNodeEvent, PropagateResetManualButtons};
use crate::graph::{
    wf, GameGraph, NodeType, TIMER_GAIN_MULT_MS, TIMER_GAIN_MULT_PER_LEVEL_MS,
    TIMER_SAVE_ADD_MULT_PER_CURRENCY_MS, TIMER_SAVE_BASE_MS, TIMER_SAVE_MULT_PER_LEVEL_MS,
};
use crate::timer::{spec_finished, ProgressTimer};

verus! {

/// The level carried by a gain or save archetype (a blocker has none).
pub open spec fn spec_level(t: NodeType) -> u32 {
    match t {
        NodeType::Gain { level } => level,
        NodeType::Save { level } => level,
        NodeType::Blocker { is_blocked: _ } => 0,
    }
}

/// A blocker archetype's manual toggle.
pub open spec fn spec_manual_blocked(t: NodeType) -> bool {
    match t {
        NodeType::Blocker { is_blocked } => is_blocked,
        _ => false,
    }
}

/// A click reaches the node: the handle is live, the node's timer is
/// finished, and nothing upstream blocks it.
pub open spec fn click_ready(g: GameGraph, entity: int) -> bool {
    &&& 0 <= entity < g.nodes@.len()
    &&& !g.nodes@[entity].inherited_blocked
    &&& spec_finished(g.nodes@[entity].progress)
}

/// The graphs agree on every node but `entity`.
pub open spec fn unchanged_except(g0: GameGraph, g1: GameGraph, entity: int) -> bool {
    &&& g1.nodes@.len() == g0.nodes@.len()
    &&& forall|i: int| 0 <= i < g0.nodes@.len() && i != entity
        ==> g1.nodes@[i] == g0.nodes@[i]
}

/// The graphs are identical.
pub open spec fn unchanged(g0: GameGraph, g1: GameGraph) -> bool {
    g1.nodes@ == g0.nodes@ && g1.currency == g0.currency
}

/// A click on a gain node that is ready: currency rises by exactly one,
/// the node's level rises by one, its timer restarts at the duration the
/// new currency and old level give, and exactly one spawn request plus one
/// reset cascade are emitted. Any other click changes nothing.
pub open spec fn gain_click_result(
    g0: GameGraph,
    g1: GameGraph,
    entity: int,
    evs: Seq<GameEvent>,
) -> bool {
    if click_ready(g0, entity) && g0.nodes@[entity].node_type is Gain {
        let n0 = g0.nodes@[entity];
        let lvl = spec_level(n0.node_type) as int;
        &&& g1.currency == g0.currency + 1
        &&& unchanged_except(g0, g1, entity)
        &&& {
            let n1 = g1.nodes@[entity];
            &&& n1.position == n0.position
            &&& n1.blockers@ == n0.blockers@
            &&& n1.to_block@ == n0.to_block@
            &&& n1.self_blocked == n0.self_blocked
            &&& n1.inherited_blocked == n0.inherited_blocked
            &&& n1.node_type == NodeType::Gain { level: (lvl + 1) as u32 }
            &&& n1.progress == (ProgressTimer {
                duration_ms: ((g0.currency + 1) * TIMER_GAIN_MULT_MS + lvl
                    * TIMER_GAIN_MULT_PER_LEVEL_MS) as u64,
                elapsed_ms: 0,
                just_finished: false,
            })
        }
        &&& evs.len() == 2
        &&& evs[0] == GameEvent::NewNode(NewNodeEvent {
            entity: entity as usize,
            currencies_on_click: (g0.currency + 1) as i32,
        })
        &&& evs[1] == GameEvent::ResetPropagation(PropagateResetManualButtons(entity as usize))
    } else {
        unchanged(g0, g1) && evs.len() == 0
    }
}

/// A click on a save node that is ready: its level rises by one, its timer
/// restarts at the duration the currency and old level give, and exactly
/// one save request is emitted; currency does not move. Any other click
/// changes nothing.
pub open spec fn save_click_result(
    g0: GameGraph,
    g1: GameGraph,
    entity: int,
    evs: Seq<GameEvent>,
) -> bool {
    if click_ready(g0, entity) && g0.nodes@[entity].node_type is Save {
        let n0 = g0.nodes@[entity];
        let lvl = spec_level(n0.node_type) as int;
        &&& g1.currency == g0.currency
        &&& unchanged_except(g0, g1, entity)
        &&& {
            let n1 = g1.nodes@[entity];
            &&& n1.position == n0.position
            &&& n1.blockers@ == n0.blockers@
            &&& n1.to_block@ == n0.to_block@
            &&& n1.self_blocked == n0.self_blocked
            &&& n1.inherited_blocked == n0.inherited_blocked
            &&& n1.node_type == NodeType::Save { level: (lvl + 1) as u32 }
            &&& n1.progress == (ProgressTimer {
                duration_ms: (TIMER_SAVE_BASE_MS + lvl * TIMER_SAVE_MULT_PER_LEVEL_MS
                    + g0.currency * TIMER_SAVE_ADD_MULT_PER_CURRENCY_MS) as u64,
                elapsed_ms: 0,
                just_finished: false,
            })
        }
        &&& evs.len() == 1
        &&& evs[0] == GameEvent::Save(EventSave)
    } else {
        unchanged(g0, g1) && evs.len() == 0
    }
}

/// A click on a blocker node that is ready flips its manual toggle and
/// emits nothing. Any other click changes nothing.
pub open spec fn toggle_click_result(
    g0: GameGraph,
    g1: GameGraph,
    entity: int,
    evs: Seq<GameEvent>,
) -> bool {
    if click_ready(g0, entity) && g0.nodes@[entity].node_type is Blocker {
        let n0 = g0.nodes@[entity];
        &&& g1.currency == g0.currency
        &&& unchanged_except(g0, g1, entity)
        &&& {
            let n1 = g1.nodes@[entity];
            &&& n1.position == n0.position
            &&& n1.blockers@ == n0.blockers@
            &&& n1.to_block@ == n0.to_block@
            &&& n1.self_blocked == n0.self_blocked
            &&& n1.inherited_blocked == n0.inherited_blocked
            &&& n1.progress == n0.progress
            &&& n1.node_type == NodeType::Blocker {
                is_blocked: !spec_manual_blocked(n0.node_type),
            }
        }
        &&& evs.len() == 0
    } else {
        unchanged(g0, g1) && evs.len() == 0
    }
}

/// What one resolved click does, by the clicked node's archetype; a dead
/// handle changes nothing and emits nothing.
pub open spec fn click_rel(g0: GameGraph, g1: GameGraph, entity: int, evs: Seq<GameEvent>) -> bool {
    if 0 <= entity < g0.nodes@.len() {
        match g0.nodes@[entity].node_type {
            NodeType::Gain { .. } => gain_click_result(g0, g1, entity, evs),
            NodeType::Save { .. } => save_click_result(g0, g1, entity, evs),
            NodeType::Blocker { .. } => toggle_click_result(g0, g1, entity, evs),
        }
    } else {
        unchanged(g0, g1) && evs.len() == 0
    }
}

impl GameGraph {
    /// Resolves a click on a gain node.
    pub fn node_gain_react(&mut self, entity: usize) -> (evs: Vec<GameEvent>)
        requires
            wf(*old(self)),
            click_ready(*old(self), entity as int) && old(self).nodes@[entity as int].node_type
                is Gain ==> old(self).currency < i32::MAX && spec_level(
                old(self).nodes@[entity as int].node_type,
            ) < u32::MAX,
        ensures
            wf(*final(self)),
            gain_click_result(*old(self), *final(self), entity as int, evs@),
    {
        if entity >= self.nodes.len() {
            return Vec::new();
        }
        let nt: NodeType = self.nodes[entity].node_type;
        match nt {
            NodeType::Gain { level } => {
                if !self.nodes[entity].inherited_blocked && self.nodes[entity].progress.finished()
                {
                    self.currency = self.currency + 1;
                    let dur: u64 = (self.currency as u64) * TIMER_GAIN_MULT_MS + (level as u64)
                        * TIMER_GAIN_MULT_PER_LEVEL_MS;
                    let mut t: ProgressTimer = self.nodes[entity].progress;
                    t.set_duration(dur);
                    t.reset();
                    self.nodes[entity].progress = t;
                    self.nodes[entity].node_type = NodeType::Gain { level: level + 1 };
                    proof {
                        crate::graph::lemma_wf_preserved_same_edges(*old(self), *self);
                    }
                    let mut evs: Vec<GameEvent> = Vec::new();
                    evs.push(GameEvent::NewNode(NewNodeEvent {
                        entity,
                        currencies_on_click: self.currency,
                    }));
                    evs.push(GameEvent::ResetPropagation(PropagateResetManualButtons(entity)));
                    evs
                } else {
                    Vec::new()
                }
            },
            _ => Vec::new(),
        }
    }

    /// Resolves a click on a save node.
    pub fn node_save_react(&mut self, entity: usize) -> (evs: Vec<GameEvent>)
        requires
            wf(*old(self)),
            click_ready(*old(self), entity as int) && old(self).nodes@[entity as int].node_type
                is Save ==> spec_level(old(self).nodes@[entity as int].node_type) < u32::MAX,
        ensures
            wf(*final(self)),
            save_click_result(*old(self), *final(self), entity as int, evs@),
    {
        if entity >= self.nodes.len() {
            return Vec::new();
        }
        let nt: NodeType = self.nodes[entity].node_type;
        match nt {
            NodeType::Save { level } => {
                if !self.nodes[entity].inherited_blocked && self.nodes[entity].progress.finished()
                {
                    let dur: u64 = TIMER_SAVE_BASE_MS + (level as u64)
                        * TIMER_SAVE_MULT_PER_LEVEL_MS + (self.currency as u64)
                        * TIMER_SAVE_ADD_MULT_PER_CURRENCY_MS;
                    let mut t: ProgressTimer = self.nodes[entity].progress;
                    t.set_duration(dur);
                    t.reset();
                    self.nodes[entity].progress = t;
                    self.nodes[entity].node_type = NodeType::Save { level: level + 1 };
                    proof {
                        crate::graph::lemma_wf_preserved_same_edges(*old(self), *self);
                    }
                    let mut evs: Vec<GameEvent> = Vec::new();
                    evs.push(GameEvent::Save(EventSave));
                    evs
                } else {
                    Vec::new()
                }
            },
            _ => Vec::new(),
        }
    }

    /// Resolves a click on a blocker node: flips its manual toggle.
    pub fn node_manual_toggle_block_react(&mut self, entity: usize) -> (evs: Vec<GameEvent>)
        requires
            wf(*old(self)),
        ensures
            wf(*final(self)),
            toggle_click_result(*old(self), *final(self), entity as int, evs@),
    {
        if entity >= self.nodes.len() {
            return Vec::new();
        }
        let nt: NodeType = self.nodes[entity].node_type;
        match nt {
            NodeType::Blocker { is_blocked } => {
                if !self.nodes[entity].inherited_blocked && self.nodes[entity].progress.finished()
                {
                    self.nodes[entity].node_type = NodeType::Blocker { is_blocked: !is_blocked };
                    proof {
                        crate::graph::lemma_wf_preserved_same_edges(*old(self), *self);
                    }
                    Vec::new()
                } else {
                    Vec::new()
                }
            },
            _ => Vec::new(),
        }
    }

    /// Resolves a click on any node, dispatching on its archetype. A click
    /// on a dead handle, a blocked node or an unfinished node changes
    /// nothing and emits nothing.
    pub fn handle_click(&mut self, entity: usize) -> (evs: Vec<GameEvent>)
        requires
            wf(*old(self)),
            click_ready(*old(self), entity as int) && old(self).nodes@[entity as int].node_type
                is Gain ==> old(self).currency < i32::MAX,
            click_ready(*old(self), entity as int) && !(old(self).nodes@[entity as int].node_type
                is Blocker) ==> spec_level(old(self).nodes@[entity as int].node_type) < u32::MAX,
        ensures
            wf(*final(self)),
            click_rel(*old(self), *final(self), entity as int, evs@),
    {
        if entity >= self.nodes.len() {
            return Vec::new();
        }
        let nt: NodeType = self.nodes[entity].node_type;
        match nt {
            NodeType::Gain { .. } => self.node_gain_react(entity),
            NodeType::Save { .. } => self.node_save_react(entity),
            NodeType::Blocker { .. } => self.node_manual_toggle_block_react(entity),
        }
    }
}

} // verus!
