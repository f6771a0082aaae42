//! The node spawner: consumes "currency gained" events, asks the spatial
//! sampler for a spot near the source node, picks an archetype by weighted
//! random choice, creates the node and wires it into the blocking graph.

use vstd::prelude::*;

use crate::events::NewNodeEvent;
use crate::graph::{
    edges_in_range, wf, GameGraph, Node, NodeType, TIMER_BLOCKER_MULT_MS,
    TIMER_GAIN_MULT_MS, TIMER_GAIN_MULT_PER_LEVEL_MS, TIMER_SAVE_ADD_MULT_PER_CURRENCY_MS,
    TIMER_SAVE_BASE_MS,
};
use crate::graph::positions_of;
use crate::pos::{in_bounds, spec_dist_squared, Pos};
use crate::poisson::{
    on_spawn_ring, ring_has_room, spec_candidate_at, spec_far_from_all, Poisson, EPSILON_MILLI,
    POS_LIMIT,
};
use crate::trig::ANGLE_UNITS;
use crate::rng::{spec_weights_sum, weighted_index_new, weighted_index_sample, weights_of};
use crate::timer::ProgressTimer;

verus! {

/// Separation radius for new nodes, in milli-units (200 world units).
pub const SPAWN_RADIUS_MILLI: i64 = 200_000;

/// How many ring candidates the sampler tries per spawn.
pub const SPAWN_ATTEMPTS: u32 = 10;

/// Spawn weight of the empty outcome, unless currency is low.
pub const SPAWN_WEIGHT_NONE: u32 = 30;

/// Spawn weight of a blocker node.
pub const SPAWN_WEIGHT_BLOCKER: u32 = 50;

/// Spawn weight of a save node.
pub const SPAWN_WEIGHT_SAVE: u32 = 5;

/// Spawn weight of a gain node.
pub const SPAWN_WEIGHT_GAIN: u32 = 20;

/// Pushing an element extends what a sequence contains by exactly it.
proof fn lemma_push_contains<T>(s: Seq<T>, x: T, y: T)
    ensures
        s.push(x).contains(y) <==> (s.contains(y) || y == x),
{
    if s.push(x).contains(y) {
        let i = choose|i: int| 0 <= i < s.push(x).len() && s.push(x)[i] == y;
        if i < s.len() {
            assert(s[i] == y);
        }
    }
    if s.contains(y) {
        let i = choose|i: int| 0 <= i < s.len() && s[i] == y;
        assert(s.push(x)[i] == y);
    }
    if y == x {
        assert(s.push(x)[s.len() as int] == y);
    }
}

/// The spawn-time timer duration of each archetype, as a function of the
/// currency carried by the event.
pub open spec fn spec_spawn_duration(t: NodeType, currency: int) -> int {
    match t {
        NodeType::Blocker { is_blocked: _ } => currency * TIMER_BLOCKER_MULT_MS,
        NodeType::Save { level: _ } => TIMER_SAVE_BASE_MS + currency
            * TIMER_SAVE_ADD_MULT_PER_CURRENCY_MS,
        NodeType::Gain { level: _ } => currency * TIMER_GAIN_MULT_MS
            + TIMER_GAIN_MULT_PER_LEVEL_MS,
    }
}

/// An archetype a spawn can produce: a blocker born blocked, or a level-1
/// save or gain node.
pub open spec fn spec_spawnable(t: NodeType) -> bool {
    t == (NodeType::Blocker { is_blocked: true }) || t == (NodeType::Save { level: 1u32 })
        || t == (NodeType::Gain { level: 1u32 })
}

impl GameGraph {
    /// Appends one node at the chosen position and wires it in: the new
    /// node blocks the source node, so the source's `blockers` gains the
    /// new handle and the new node's `to_block` is exactly the source.
    pub fn spawn_node(
        &mut self,
        source: usize,
        node_type: NodeType,
        position: Pos,
        duration_ms: u64,
        self_blocked: bool,
    ) -> (idx: usize)
        requires
            wf(*old(self)),
            source < old(self).nodes@.len(),
            in_bounds(position, POS_LIMIT as int),
        ensures
            wf(*final(self)),
            idx == old(self).nodes@.len(),
            final(self).nodes@.len() == old(self).nodes@.len() + 1,
            final(self).currency == old(self).currency,
            forall|i: int| 0 <= i < old(self).nodes@.len() && i != source
                ==> final(self).nodes@[i] == old(self).nodes@[i],
            ({
                let s0 = old(self).nodes@[source as int];
                let s1 = final(self).nodes@[source as int];
                s1.position == s0.position && s1.node_type == s0.node_type && s1.progress
                    == s0.progress && s1.self_blocked == s0.self_blocked && s1.inherited_blocked
                    == s0.inherited_blocked && s1.to_block@ == s0.to_block@ && s1.blockers@
                    == s0.blockers@.push(old(self).nodes@.len() as usize)
            }),
            ({
                let n = final(self).nodes@[old(self).nodes@.len() as int];
                n.position == position && n.node_type == node_type && n.progress
                    == (ProgressTimer {
                    duration_ms,
                    elapsed_ms: 0,
                    just_finished: false,
                }) && n.self_blocked == self_blocked && !n.inherited_blocked && n.blockers@.len()
                    == 0 && n.to_block@ == (seq![source])
            }),
    {
        let idx: usize = self.nodes.len();
        let mut to_block: Vec<usize> = Vec::new();
        to_block.push(source);
        let node = Node {
            position,
            node_type,
            progress: ProgressTimer { duration_ms, elapsed_ms: 0, just_finished: false },
            self_blocked,
            inherited_blocked: false,
            blockers: Vec::new(),
            to_block,
        };
        self.nodes.push(node);
        self.nodes[source].blockers.push(idx);
        proof {
            let ghost ns0 = old(self).nodes@;
            let ghost ns1 = self.nodes@;
            let ghost li = ns0.len() as int;
            assert(ns1[source as int].blockers@ == ns0[source as int].blockers@.push(
                li as usize,
            ));
            assert forall|i: int| 0 <= i < ns1.len() implies in_bounds(
                #[trigger] ns1[i].position,
                POS_LIMIT as int,
            ) by {
                if i < li && i != source {
                    assert(ns1[i] == ns0[i]);
                }
            }
            assert forall|i: int| 0 <= i < ns1.len() implies #[trigger] edges_in_range(
                ns1,
                i,
            ) by {
                if i < li {
                    assert(edges_in_range(ns0, i));
                    if i == source {
                        assert forall|j: int| 0 <= j < ns1[i].blockers@.len() implies #[trigger]
                        ns1[i].blockers@[j] < ns1.len() by {
                            if j < ns0[i].blockers@.len() {
                                assert(ns1[i].blockers@[j] == ns0[i].blockers@[j]);
                            }
                        }
                    }
                }
            }
            assert forall|a: int, b: int| 0 <= a < ns1.len() && 0 <= b < ns1.len() implies (
            #[trigger] ns1[a].to_block@.contains(b as usize) <==> #[trigger] ns1[
                b
            ].blockers@.contains(a as usize)) by {
                if a < li {
                    assert(edges_in_range(ns0, a));
                    assert(ns1[a].to_block@ == ns0[a].to_block@);
                    if b < li {
                        assert(ns0[a].to_block@.contains(b as usize) <==> ns0[
                            b
                        ].blockers@.contains(a as usize));
                        if b == source {
                            lemma_push_contains(
                                ns0[b].blockers@,
                                li as usize,
                                a as usize,
                            );
                        } else {
                            assert(ns1[b].blockers@ == ns0[b].blockers@);
                        }
                    } else {
                        // b is the new node: nothing old points at it, and
                        // its blockers list is empty.
                        if ns1[a].to_block@.contains(b as usize) {
                            let j = choose|j: int| 0 <= j < ns0[a].to_block@.len() && ns0[
                                a
                            ].to_block@[j] == b as usize;
                            assert(ns0[a].to_block@[j] < ns0.len());
                            assert(false);
                        }
                        assert(ns1[b].blockers@.len() == 0);
                    }
                } else {
                    // a is the new node: it blocks exactly the source.
                    assert(ns1[a].to_block@ == seq![source]);
                    if ns1[a].to_block@.contains(b as usize) {
                        assert(ns1[a].to_block@[0] == source);
                    }
                    if b == source {
                        assert(ns1[a].to_block@[0] == b as usize);
                        lemma_push_contains(ns0[b].blockers@, li as usize, a as usize);
                        assert(ns1[b].blockers@.contains(a as usize));
                    } else if b < li {
                        assert(edges_in_range(ns0, b));
                        assert(ns1[b].blockers@ == ns0[b].blockers@);
                        if ns1[b].blockers@.contains(a as usize) {
                            let j = choose|j: int| 0 <= j < ns0[b].blockers@.len() && ns0[
                                b
                            ].blockers@[j] == a as usize;
                            assert(ns0[b].blockers@[j] < ns0.len());
                            assert(false);
                        }
                    } else {
                        assert(ns1[b].blockers@.len() == 0);
                    }
                }
            }
        }
        idx
    }
}

/// The sum of a four-element weight list, element by element.
proof fn lemma_weights_sum4(s: Seq<u32>)
    requires
        s.len() == 4,
    ensures
        spec_weights_sum(s) == s[0] + s[1] + s[2] + s[3],
{
    let s3 = s.drop_last();
    let s2 = s3.drop_last();
    let s1 = s2.drop_last();
    let s0 = s1.drop_last();
    assert(s0.len() == 0);
    assert(spec_weights_sum(s0) == 0);
    assert(spec_weights_sum(s1) == s[0]);
    assert(spec_weights_sum(s2) == s[0] + s[1]);
    assert(spec_weights_sum(s3) == s[0] + s[1] + s[2]);
}

/// Chooses what a spawn produces, by rand's weighted sampling over the
/// outcomes none, blocker, save and gain. The weight of the empty outcome
/// drops to zero when the click earned at most one unit of currency, so an
/// early spawn always produces a node.
pub fn pick_archetype(
    currencies_on_click: i32,
    random: &mut rand_chacha::ChaCha20Rng,
) -> (r: Option<NodeType>)
    ensures
        r matches Some(t) ==> spec_spawnable(t),
        currencies_on_click <= 1 ==> r is Some,
{
    let none_weight: u32 = if currencies_on_click <= 1 {
        0
    } else {
        SPAWN_WEIGHT_NONE
    };
    let mut weights: Vec<u32> = Vec::new();
    weights.push(none_weight);
    weights.push(SPAWN_WEIGHT_BLOCKER);
    weights.push(SPAWN_WEIGHT_SAVE);
    weights.push(SPAWN_WEIGHT_GAIN);
    proof {
        lemma_weights_sum4(weights@);
    }
    let dist = weighted_index_new(&weights);
    let idx: usize = weighted_index_sample(&dist, random);
    proof {
        assert(weights_of(dist)[idx as int] == weights@[idx as int]);
    }
    if idx == 1 {
        Some(NodeType::Blocker { is_blocked: true })
    } else if idx == 2 {
        Some(NodeType::Save { level: 1 })
    } else if idx == 3 {
        Some(NodeType::Gain { level: 1 })
    } else {
        None
    }
}

/// What one processed spawn event guarantees when it does add a node: the
/// arena grew by one node wired to the event's source, with the archetype's
/// spawn duration, and placed farther than the separation radius from every
/// node that existed before it.
pub open spec fn spawn_result(g0: GameGraph, g1: GameGraph, event: NewNodeEvent) -> bool {
    let li = g0.nodes@.len() as int;
    &&& g1.nodes@.len() == li + 1
    &&& forall|i: int| 0 <= i < li && i != event.entity ==> g1.nodes@[i] == g0.nodes@[i]
    &&& ({
        let s0 = g0.nodes@[event.entity as int];
        let s1 = g1.nodes@[event.entity as int];
        s1.position == s0.position && s1.node_type == s0.node_type && s1.progress == s0.progress
            && s1.self_blocked == s0.self_blocked && s1.inherited_blocked == s0.inherited_blocked
            && s1.to_block@ == s0.to_block@ && s1.blockers@ == s0.blockers@.push(li as usize)
    })
    &&& ({
        let n = g1.nodes@[li];
        &&& spec_spawnable(n.node_type)
        &&& n.progress == (ProgressTimer {
            duration_ms: spec_spawn_duration(
                n.node_type,
                event.currencies_on_click as int,
            ) as u64,
            elapsed_ms: 0,
            just_finished: false,
        })
        &&& n.self_blocked == (n.node_type is Blocker)
        &&& !n.inherited_blocked
        &&& n.blockers@.len() == 0
        &&& n.to_block@ == (seq![event.entity])
        &&& in_bounds(n.position, POS_LIMIT as int)
        &&& on_spawn_ring(
            g0.nodes@[event.entity as int].position,
            SPAWN_RADIUS_MILLI as int,
            n.position,
        )
        &&& exists|seed: int, k: int| 0 <= seed < ANGLE_UNITS && 0 <= k < SPAWN_ATTEMPTS
            && n.position == #[trigger] spec_candidate_at(
                g0.nodes@[event.entity as int].position,
                SPAWN_RADIUS_MILLI as int,
                seed,
                k,
                SPAWN_ATTEMPTS as int,
            )
        &&& forall|k: int| 0 <= k < li
            ==> spec_dist_squared(n.position, #[trigger] g0.nodes@[k].position)
                > SPAWN_RADIUS_MILLI * SPAWN_RADIUS_MILLI
    })
}

/// When a spawn cannot fail, whatever the draws: the click earned at most
/// one unit of currency (the empty outcome's weight is zero), the source
/// sits far enough from the map's edge for the whole ring to stay on it,
/// and every seed offset's ring has at least one attempt farther than the
/// separation radius from every existing node.
pub open spec fn spawn_guaranteed(g0: GameGraph, event: NewNodeEvent) -> bool {
    &&& event.currencies_on_click <= 1
    &&& 0 <= event.entity < g0.nodes@.len()
    &&& in_bounds(
        g0.nodes@[event.entity as int].position,
        POS_LIMIT - SPAWN_RADIUS_MILLI - EPSILON_MILLI,
    )
    &&& forall|seed: int| 0 <= seed < ANGLE_UNITS ==> #[trigger] ring_has_room(
        positions_of(g0.nodes@),
        g0.nodes@[event.entity as int].position,
        SPAWN_RADIUS_MILLI as int,
        seed,
        SPAWN_ATTEMPTS as int,
    )
}

/// What one node added by a spawner batch looks like, at index `j` of the
/// final arena: a fresh level-1 or born-blocked node, wired to the source
/// named by one of the batch's requests, with that request's spawn
/// duration, and placed on the ring around its source.
pub open spec fn spawned_into(nodes: Seq<Node>, reqs: Seq<NewNodeEvent>, j: int) -> bool {
    let n = nodes[j];
    let src = n.to_block@[0] as int;
    &&& spec_spawnable(n.node_type)
    &&& n.self_blocked == (n.node_type is Blocker)
    &&& !n.inherited_blocked
    &&& n.blockers@.len() == 0
    &&& n.to_block@.len() == 1
    &&& 0 <= src < j
    &&& in_bounds(n.position, POS_LIMIT as int)
    &&& exists|ei: int| 0 <= ei < reqs.len() && #[trigger] reqs[ei].entity == n.to_block@[0]
        && n.progress == (ProgressTimer {
        duration_ms: spec_spawn_duration(
            n.node_type,
            reqs[ei].currencies_on_click as int,
        ) as u64,
        elapsed_ms: 0,
        just_finished: false,
    })
    &&& on_spawn_ring(nodes[src].position, SPAWN_RADIUS_MILLI as int, n.position)
    &&& exists|seed: int, k: int| 0 <= seed < ANGLE_UNITS && 0 <= k < SPAWN_ATTEMPTS
        && n.position == #[trigger] spec_candidate_at(
            nodes[src].position,
            SPAWN_RADIUS_MILLI as int,
            seed,
            k,
            SPAWN_ATTEMPTS as int,
        )
}

/// What the spawner batch does: currency untouched; existing nodes keep
/// everything except that their `blockers` lists may grow; every added
/// node is a fresh spawn of one of the requests, placed on its source's
/// ring, and keeps more than the separation radius to every node that
/// preceded it, the batch's own additions included.
pub open spec fn spawn_batch_rel(g0: GameGraph, g1: GameGraph, reqs: Seq<NewNodeEvent>) -> bool {
    &&& g1.currency == g0.currency
    &&& g1.nodes@.len() >= g0.nodes@.len()
    &&& forall|i: int| 0 <= i < g0.nodes@.len()
        ==> {
            let n0 = g0.nodes@[i];
            let n1 = #[trigger] g1.nodes@[i];
            n1.position == n0.position && n1.node_type == n0.node_type && n1.progress
                == n0.progress && n1.self_blocked == n0.self_blocked && n1.inherited_blocked
                == n0.inherited_blocked && n1.to_block@ == n0.to_block@
        }
    &&& forall|j: int| g0.nodes@.len() <= j < g1.nodes@.len()
        ==> #[trigger] spawned_into(g1.nodes@, reqs, j)
    &&& forall|j: int, k: int| g0.nodes@.len() <= j < g1.nodes@.len() && 0 <= k < j
        ==> spec_dist_squared(
            #[trigger] g1.nodes@[j].position,
            #[trigger] g1.nodes@[k].position,
        ) > SPAWN_RADIUS_MILLI * SPAWN_RADIUS_MILLI
}

impl GameGraph {
    /// Processes one "currency gained" event: snapshots the node
    /// positions, asks the sampler for a spot near the source node, picks
    /// an archetype, and adds the node wired to the source. The spawn is
    /// silently dropped when the sampler finds no spot, when the weighted
    /// choice lands on the empty outcome, or when the spot would leave the
    /// map's coordinate bound.
    pub fn process_new_node_event(
        &mut self,
        event: NewNodeEvent,
        random: &mut rand_chacha::ChaCha20Rng,
    )
        requires
            wf(*old(self)),
            event.entity < old(self).nodes@.len(),
            event.currencies_on_click >= 0,
        ensures
            wf(*final(self)),
            final(self).currency == old(self).currency,
            final(self).nodes@ == old(self).nodes@ || spawn_result(
                *old(self),
                *final(self),
                event,
            ),
            spawn_guaranteed(*old(self), event)
                ==> final(self).nodes@.len() == old(self).nodes@.len() + 1,
    {
        let len: usize = self.nodes.len();
        let mut existing: Vec<Pos> = Vec::new();
        let mut k: usize = 0;
        while k < len
            invariant
                len == self.nodes@.len(),
                k <= len,
                wf(*self),
                existing@.len() == k,
                forall|i: int| 0 <= i < k
                    ==> #[trigger] existing@[i] == self.nodes@[i].position,
            decreases len - k,
        {
            let p: Pos = self.nodes[k].position;
            existing.push(p);
            k = k + 1;
        }
        let near: Pos = self.nodes[event.entity].position;
        let poisson = Poisson::new();
        let found = poisson.compute_new_position(
            &existing,
            &near,
            SPAWN_RADIUS_MILLI,
            SPAWN_ATTEMPTS,
            random,
        );
        proof {
            assert(existing@ =~= positions_of(old(self).nodes@));
        }
        match found {
            None => {
                proof {
                    if spawn_guaranteed(*old(self), event) {
                        let seed = choose|seed: int| 0 <= seed < ANGLE_UNITS && crate::poisson::sampler_post(
                            existing@,
                            near,
                            SPAWN_RADIUS_MILLI as int,
                            SPAWN_ATTEMPTS as int,
                            seed,
                            found,
                        );
                        assert(ring_has_room(
                            positions_of(old(self).nodes@),
                            near,
                            SPAWN_RADIUS_MILLI as int,
                            seed,
                            SPAWN_ATTEMPTS as int,
                        ));
                        let k0 = choose|k: int| 0 <= k < SPAWN_ATTEMPTS as int
                            && spec_far_from_all(
                            positions_of(old(self).nodes@),
                            SPAWN_RADIUS_MILLI as int,
                            #[trigger] spec_candidate_at(
                                near,
                                SPAWN_RADIUS_MILLI as int,
                                seed,
                                k,
                                SPAWN_ATTEMPTS as int,
                            ),
                        );
                        assert(!spec_far_from_all(
                            existing@,
                            SPAWN_RADIUS_MILLI as int,
                            spec_candidate_at(
                                near,
                                SPAWN_RADIUS_MILLI as int,
                                seed,
                                k0,
                                SPAWN_ATTEMPTS as int,
                            ),
                        ));
                        assert(false);
                    }
                }
            },
            Some(pos) => {
                if -POS_LIMIT <= pos.x && pos.x <= POS_LIMIT && -POS_LIMIT <= pos.y && pos.y
                    <= POS_LIMIT {
                    let picked = pick_archetype(event.currencies_on_click, random);
                    match picked {
                        None => {
                            proof {
                                if spawn_guaranteed(*old(self), event) {
                                    assert(picked is Some);
                                    assert(false);
                                }
                            }
                        },
                        Some(node_type) => {
                            let cur: u64 = event.currencies_on_click as u64;
                            let dur: u64 = match node_type {
                                NodeType::Blocker { is_blocked: _ } => cur
                                    * TIMER_BLOCKER_MULT_MS,
                                NodeType::Save { level: _ } => TIMER_SAVE_BASE_MS + cur
                                    * TIMER_SAVE_ADD_MULT_PER_CURRENCY_MS,
                                NodeType::Gain { level: _ } => cur * TIMER_GAIN_MULT_MS
                                    + TIMER_GAIN_MULT_PER_LEVEL_MS,
                            };
                            let self_blocked: bool = match node_type {
                                NodeType::Blocker { is_blocked: _ } => true,
                                _ => false,
                            };
                            self.spawn_node(event.entity, node_type, pos, dur, self_blocked);
                            proof {
                                assert forall|j: int| 0 <= j < old(self).nodes@.len()
                                    implies spec_dist_squared(
                                    pos,
                                    #[trigger] old(self).nodes@[j].position,
                                ) > SPAWN_RADIUS_MILLI * SPAWN_RADIUS_MILLI by {
                                    assert(existing@[j] == old(self).nodes@[j].position);
                                    assert(spec_dist_squared(pos, existing@[j])
                                        > SPAWN_RADIUS_MILLI * SPAWN_RADIUS_MILLI);
                                }
                                let seed = choose|seed: int| 0 <= seed < ANGLE_UNITS
                                    && crate::poisson::sampler_post(
                                    existing@,
                                    near,
                                    SPAWN_RADIUS_MILLI as int,
                                    SPAWN_ATTEMPTS as int,
                                    seed,
                                    found,
                                );
                                let k0 = choose|k: int| 0 <= k < SPAWN_ATTEMPTS as int && pos
                                    == #[trigger] spec_candidate_at(
                                    near,
                                    SPAWN_RADIUS_MILLI as int,
                                    seed,
                                    k,
                                    SPAWN_ATTEMPTS as int,
                                ) && spec_far_from_all(existing@, SPAWN_RADIUS_MILLI as int, pos)
                                    && (forall|j: int| 0 <= j < k
                                    ==> !spec_far_from_all(
                                        existing@,
                                        SPAWN_RADIUS_MILLI as int,
                                        #[trigger] spec_candidate_at(
                                            near,
                                            SPAWN_RADIUS_MILLI as int,
                                            seed,
                                            j,
                                            SPAWN_ATTEMPTS as int,
                                        ),
                                    ));
                                assert(pos == spec_candidate_at(
                                    old(self).nodes@[event.entity as int].position,
                                    SPAWN_RADIUS_MILLI as int,
                                    seed,
                                    k0,
                                    SPAWN_ATTEMPTS as int,
                                ));
                                assert(spawn_result(*old(self), *self, event));
                            }
                        },
                    }
                } else {
                    proof {
                        if spawn_guaranteed(*old(self), event) {
                            assert(on_spawn_ring(near, SPAWN_RADIUS_MILLI as int, pos));
                            assert(in_bounds(pos, POS_LIMIT as int));
                            assert(false);
                        }
                    }
                }
            },
        }
    }

    /// Consumes a batch of "currency gained" events in order: the whole
    /// spawner step of a tick.
    pub fn new_button(&mut self, events: &Vec<NewNodeEvent>, random: &mut rand_chacha::ChaCha20Rng)
        requires
            wf(*old(self)),
            forall|e: int| 0 <= e < events@.len()
                ==> #[trigger] events@[e].entity < old(self).nodes@.len()
                    && events@[e].currencies_on_click >= 0,
        ensures
            wf(*final(self)),
            spawn_batch_rel(*old(self), *final(self), events@),
            events@.len() > 0 && spawn_guaranteed(*old(self), events@[0])
                ==> final(self).nodes@.len() > old(self).nodes@.len(),
    {
        let count: usize = events.len();
        let mut e: usize = 0;
        while e < count
            invariant
                count == events@.len(),
                e <= count,
                wf(*self),
                self.currency == old(self).currency,
                self.nodes@.len() >= old(self).nodes@.len(),
                e == 0 ==> self.nodes@ == old(self).nodes@,
                e > 0 && events@.len() > 0 && spawn_guaranteed(*old(self), events@[0])
                    ==> self.nodes@.len() > old(self).nodes@.len(),
                forall|ei: int| 0 <= ei < events@.len()
                    ==> #[trigger] events@[ei].entity < old(self).nodes@.len()
                        && events@[ei].currencies_on_click >= 0,
                forall|i: int| 0 <= i < old(self).nodes@.len()
                    ==> {
                        let n0 = old(self).nodes@[i];
                        let n1 = #[trigger] self.nodes@[i];
                        n1.position == n0.position && n1.node_type == n0.node_type && n1.progress
                            == n0.progress && n1.self_blocked == n0.self_blocked
                            && n1.inherited_blocked == n0.inherited_blocked && n1.to_block@
                            == n0.to_block@
                    },
                forall|j: int| old(self).nodes@.len() <= j < self.nodes@.len()
                    ==> #[trigger] spawned_into(self.nodes@, events@, j),
                forall|j: int, k: int| old(self).nodes@.len() <= j < self.nodes@.len() && 0 <= k
                    < j
                    ==> spec_dist_squared(
                        #[trigger] self.nodes@[j].position,
                        #[trigger] self.nodes@[k].position,
                    ) > SPAWN_RADIUS_MILLI * SPAWN_RADIUS_MILLI,
            decreases count - e,
        {
            let ghost pre = *self;
            let ev: NewNodeEvent = events[e];
            self.process_new_node_event(ev, random);
            proof {
                let ghost g0len = old(self).nodes@.len() as int;
                let ghost li = pre.nodes@.len() as int;
                if self.nodes@ != pre.nodes@ {
                    assert(spawn_result(pre, *self, ev));
                    assert forall|j: int, k: int| g0len <= j < self.nodes@.len() && 0 <= k < j
                        implies spec_dist_squared(
                        #[trigger] self.nodes@[j].position,
                        #[trigger] self.nodes@[k].position,
                    ) > SPAWN_RADIUS_MILLI * SPAWN_RADIUS_MILLI by {
                        if j < li {
                            assert(self.nodes@[j].position == pre.nodes@[j].position);
                            assert(self.nodes@[k].position == pre.nodes@[k].position);
                        } else {
                            assert(j == li);
                            assert(self.nodes@[k].position == pre.nodes@[k].position);
                            assert(spec_dist_squared(self.nodes@[j].position, pre.nodes@[
                                k
                            ].position) > SPAWN_RADIUS_MILLI * SPAWN_RADIUS_MILLI);
                        }
                    }
                    assert forall|j: int| g0len <= j < self.nodes@.len() implies #[trigger]
                    spawned_into(self.nodes@, events@, j) by {
                        if j < li {
                            assert(spawned_into(pre.nodes@, events@, j));
                            let n = pre.nodes@[j];
                            let src = n.to_block@[0] as int;
                            assert(self.nodes@[j] == pre.nodes@[j]);
                            assert(self.nodes@[src].position == pre.nodes@[src].position);
                            let ei = choose|ei: int| 0 <= ei < events@.len() && #[trigger]
                                events@[ei].entity == n.to_block@[0] && n.progress
                                == (ProgressTimer {
                                duration_ms: spec_spawn_duration(
                                    n.node_type,
                                    events@[ei].currencies_on_click as int,
                                ) as u64,
                                elapsed_ms: 0,
                                just_finished: false,
                            });
                            assert(events@[ei].entity == self.nodes@[j].to_block@[0]);
                            let (seed, k) = choose|seed: int, k: int| 0 <= seed < ANGLE_UNITS
                                && 0 <= k < SPAWN_ATTEMPTS && n.position == #[trigger]
                                spec_candidate_at(
                                pre.nodes@[src].position,
                                SPAWN_RADIUS_MILLI as int,
                                seed,
                                k,
                                SPAWN_ATTEMPTS as int,
                            );
                            assert(self.nodes@[j].position == spec_candidate_at(
                                self.nodes@[src].position,
                                SPAWN_RADIUS_MILLI as int,
                                seed,
                                k,
                                SPAWN_ATTEMPTS as int,
                            ));
                        } else {
                            assert(j == li);
                            let n = self.nodes@[j];
                            assert(n.to_block@ == (seq![ev.entity]));
                            let src = n.to_block@[0] as int;
                            assert(src == ev.entity);
                            assert(self.nodes@[src].position == pre.nodes@[src].position);
                            assert(events@[e as int].entity == n.to_block@[0]);
                            let (seed, k) = choose|seed: int, k: int| 0 <= seed < ANGLE_UNITS
                                && 0 <= k < SPAWN_ATTEMPTS && n.position == #[trigger]
                                spec_candidate_at(
                                pre.nodes@[src].position,
                                SPAWN_RADIUS_MILLI as int,
                                seed,
                                k,
                                SPAWN_ATTEMPTS as int,
                            );
                            assert(n.position == spec_candidate_at(
                                self.nodes@[src].position,
                                SPAWN_RADIUS_MILLI as int,
                                seed,
                                k,
                                SPAWN_ATTEMPTS as int,
                            ));
                        }
                    }
                }
                if e == 0 && events@.len() > 0 && spawn_guaranteed(*old(self), events@[0]) {
                    assert(spawn_guaranteed(pre, ev));
                    assert(self.nodes@.len() == pre.nodes@.len() + 1);
                }
            }
            e = e + 1;
        }
    }
}

} // verus!
