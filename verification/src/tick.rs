//! One simulation step, in strict dependency order: timer tick, then
//! auto-block detection, then click resolution with its reset cascades,
//! then the self-block recompute, then the spawner, and last the
//! inherited-block recompute — so the inherited status always reflects the
//! same-tick self-block values, spawns and resets, never stale state.
//!
//! `tick_rel` states the whole pipeline: the final graph is reached from
//! the starting one by exactly these stages in this order, through
//! existentially quantified intermediate states, and the returned events
//! are the auto-spawn requests followed by each click's events in order.

use vstd::prelude::*;

use crate::blocking::{
    inherited_pass_rel, lemma_blocked_within_congruent, reset_pass_rel, same_blocking_fields,
    spec_inherited,
};
use crate::clicks::{click_rel, spec_level};
use crate::events::{GameEvent, NewNodeEvent};
use crate::graph::{auto_pass_rel, self_block_rel, timer_pass_rel, wf, GameGraph};
use crate::spawner::spawn_batch_rel;
use crate::timer::spec_finished;

verus! {

/// The auto-spawn requests, wrapped as events for the surroundings.
pub open spec fn wrap_new_nodes(autos: Seq<NewNodeEvent>) -> Seq<GameEvent> {
    Seq::new(autos.len(), |i: int| GameEvent::NewNode(autos[i]))
}

/// The spawn requests carried by a list of events, in order.
pub open spec fn spawn_targets(evs: Seq<GameEvent>) -> Seq<NewNodeEvent>
    decreases evs.len(),
{
    if evs.len() == 0 {
        Seq::empty()
    } else {
        let rest = spawn_targets(evs.drop_first());
        match evs[0] {
            GameEvent::NewNode(e) => seq![e] + rest,
            _ => rest,
        }
    }
}

/// The reset-cascade targets carried by a list of events, in order.
pub open spec fn reset_targets(evs: Seq<GameEvent>) -> Seq<usize>
    decreases evs.len(),
{
    if evs.len() == 0 {
        Seq::empty()
    } else {
        let rest = reset_targets(evs.drop_first());
        match evs[0] {
            GameEvent::ResetPropagation(p) => seq![p.0] + rest,
            _ => rest,
        }
    }
}

/// The clicks of a tick resolved one after the other, each contributing
/// its events in order.
pub open spec fn clicks_rel(
    g0: GameGraph,
    g1: GameGraph,
    clicks: Seq<usize>,
    evs: Seq<GameEvent>,
) -> bool
    decreases clicks.len(),
{
    if clicks.len() == 0 {
        g1 == g0 && evs.len() == 0
    } else {
        exists|gm: GameGraph, evs_last: Seq<GameEvent>|
            #![trigger click_rel(gm, g1, clicks.last() as int, evs_last)]
            evs_last.len() <= evs.len() && evs.skip(evs.len() - evs_last.len()) == evs_last
                && clicks_rel(g0, gm, clicks.drop_last(), evs.take(evs.len() - evs_last.len()))
                && click_rel(gm, g1, clicks.last() as int, evs_last)
    }
}

/// The reset cascades of a tick applied one after the other.
pub open spec fn resets_rel(g0: GameGraph, g1: GameGraph, targets: Seq<usize>) -> bool
    decreases targets.len(),
{
    if targets.len() == 0 {
        g1 == g0
    } else {
        exists|gm: GameGraph|
            #[trigger] reset_pass_rel(gm, g1, targets.last() as int) && resets_rel(
                g0,
                gm,
                targets.drop_last(),
            )
    }
}

/// Pipeline tail after the self-block recompute: the spawner consumes the
/// auto requests followed by the click spawn requests, then the inherited
/// status of the result is derived.
pub open spec fn tick_after_self_block(
    g5: GameGraph,
    gn: GameGraph,
    autos: Seq<NewNodeEvent>,
    click_evs: Seq<GameEvent>,
) -> bool {
    exists|g6: GameGraph|
        #[trigger] spawn_batch_rel(g5, g6, autos + spawn_targets(click_evs))
            && inherited_pass_rel(g6, gn)
}

/// Pipeline tail after the reset cascades: the self-block recompute runs.
pub open spec fn tick_after_resets(
    g4: GameGraph,
    gn: GameGraph,
    autos: Seq<NewNodeEvent>,
    click_evs: Seq<GameEvent>,
) -> bool {
    exists|g5: GameGraph|
        #[trigger] self_block_rel(g4, g5) && tick_after_self_block(g5, gn, autos, click_evs)
}

/// Pipeline tail after click resolution: the clicks' reset cascades are
/// applied in event order.
pub open spec fn tick_after_clicks(
    g3: GameGraph,
    gn: GameGraph,
    autos: Seq<NewNodeEvent>,
    click_evs: Seq<GameEvent>,
) -> bool {
    exists|g4: GameGraph|
        #[trigger] resets_rel(g3, g4, reset_targets(click_evs)) && tick_after_resets(
            g4,
            gn,
            autos,
            click_evs,
        )
}

/// Pipeline tail after the auto-block pass: the clicks resolve in order,
/// and the tick's events are the wrapped auto requests followed by the
/// clicks' events.
pub open spec fn tick_after_auto(
    g2: GameGraph,
    gn: GameGraph,
    clicks: Seq<usize>,
    autos: Seq<NewNodeEvent>,
    events: Seq<GameEvent>,
) -> bool {
    exists|g3: GameGraph, click_evs: Seq<GameEvent>|
        #![trigger clicks_rel(g2, g3, clicks, click_evs)]
        clicks_rel(g2, g3, clicks, click_evs) && events == wrap_new_nodes(autos) + click_evs
            && tick_after_clicks(g3, gn, autos, click_evs)
}

/// Pipeline tail after the timer pass: just-finished blockers lock and
/// emit their spawn requests, then the rest of the tick runs.
pub open spec fn tick_after_timer(
    g1: GameGraph,
    gn: GameGraph,
    clicks: Seq<usize>,
    events: Seq<GameEvent>,
) -> bool {
    exists|g2: GameGraph, autos: Seq<NewNodeEvent>|
        #![trigger auto_pass_rel(g1, g2, autos)]
        auto_pass_rel(g1, g2, autos) && tick_after_auto(g2, gn, clicks, autos, events)
}

/// The whole tick: timers advance, auto-blocking fires, the clicks
/// resolve in order, their reset cascades run, self-block state is
/// recomputed, the spawner consumes this tick's requests, and the
/// inherited status of the final graph is derived — with `events` exactly
/// what the tick emitted.
pub open spec fn tick_rel(
    g0: GameGraph,
    gn: GameGraph,
    delta: int,
    clicks: Seq<usize>,
    events: Seq<GameEvent>,
) -> bool {
    exists|g1: GameGraph|
        #[trigger] timer_pass_rel(g0, g1, delta) && tick_after_timer(g1, gn, clicks, events)
}

/// Appending one event extends the extracted spawn and reset targets by
/// exactly that event's contribution.
proof fn lemma_targets_push(evs: Seq<GameEvent>, e: GameEvent)
    ensures
        spawn_targets(evs.push(e)) == spawn_targets(evs) + (match e {
            GameEvent::NewNode(x) => seq![x],
            _ => Seq::<NewNodeEvent>::empty(),
        }),
        reset_targets(evs.push(e)) == reset_targets(evs) + (match e {
            GameEvent::ResetPropagation(p) => seq![p.0],
            _ => Seq::<usize>::empty(),
        }),
    decreases evs.len(),
{
    let sd = (match e {
        GameEvent::NewNode(x) => seq![x],
        _ => Seq::<NewNodeEvent>::empty(),
    });
    let rd = (match e {
        GameEvent::ResetPropagation(p) => seq![p.0],
        _ => Seq::<usize>::empty(),
    });
    if evs.len() == 0 {
        assert(evs.push(e).drop_first() =~= evs);
        assert(evs.push(e)[0] == e);
        assert(spawn_targets(evs.push(e)) =~= spawn_targets(evs) + sd);
        assert(reset_targets(evs.push(e)) =~= reset_targets(evs) + rd);
    } else {
        assert(evs.push(e).drop_first() =~= evs.drop_first().push(e));
        assert(evs.push(e)[0] == evs[0]);
        lemma_targets_push(evs.drop_first(), e);
        assert(spawn_targets(evs.push(e)) =~= spawn_targets(evs) + sd);
        assert(reset_targets(evs.push(e)) =~= reset_targets(evs) + rd);
    }
}

/// No node is at the level cap unless its timer is unfinished (an
/// unfinished node cannot be clicked, so its level cannot rise further
/// this tick).
pub open spec fn levels_clickable(g: GameGraph) -> bool {
    forall|i: int| 0 <= i < g.nodes@.len()
        ==> spec_level(#[trigger] g.nodes@[i].node_type) < u32::MAX || !spec_finished(
            g.nodes@[i].progress,
        )
}

impl GameGraph {
    /// Runs one tick. `tick_rel` binds the whole pipeline stage by stage;
    /// on top of it, well-formedness is preserved, currency moves only by
    /// the clicks (at most one unit each), positions never move, nodes are
    /// never deleted, and every node's final inherited flag agrees with
    /// `spec_inherited` of the final graph.
    pub fn game_tick(
        &mut self,
        delta_ms: u64,
        clicks: &Vec<usize>,
        random: &mut rand_chacha::ChaCha20Rng,
    ) -> (events: Vec<GameEvent>)
        requires
            wf(*old(self)),
            old(self).currency + clicks@.len() <= i32::MAX,
            forall|i: int| 0 <= i < old(self).nodes@.len()
                ==> spec_level(#[trigger] old(self).nodes@[i].node_type) < u32::MAX,
        ensures
            wf(*final(self)),
            tick_rel(*old(self), *final(self), delta_ms as int, clicks@, events@),
            old(self).currency <= final(self).currency <= old(self).currency + clicks@.len(),
            final(self).nodes@.len() >= old(self).nodes@.len(),
            forall|n: int| 0 <= n < old(self).nodes@.len()
                ==> #[trigger] final(self).nodes@[n].position == old(self).nodes@[n].position,
            forall|n: int| 0 <= n < final(self).nodes@.len()
                ==> (#[trigger] final(self).nodes@[n].inherited_blocked <==> spec_inherited(
                    final(self).nodes@,
                    n,
                )),
    {
        let ghost g0 = *old(self);
        self.update_progress_timer(delta_ms);
        let ghost gh1 = *self;
        let auto_events: Vec<NewNodeEvent> = self.update_progress_manual_auto_block();
        let ghost gh2 = *self;
        proof {
            assert forall|i: int| 0 <= i < self.nodes@.len() implies spec_level(
                #[trigger] self.nodes@[i].node_type,
            ) < u32::MAX by {
                assert(spec_level(g0.nodes@[i].node_type) < u32::MAX);
            }
        }
        let mut events: Vec<GameEvent> = Vec::new();
        let mut spawn_requests: Vec<NewNodeEvent> = Vec::new();
        let mut resets: Vec<usize> = Vec::new();
        let mut a: usize = 0;
        while a < auto_events.len()
            invariant
                a <= auto_events@.len(),
                forall|j: int| 0 <= j < auto_events@.len()
                    ==> #[trigger] auto_events@[j].entity < self.nodes@.len()
                        && auto_events@[j].currencies_on_click >= 0,
                events@.len() == a,
                forall|j: int| 0 <= j < a
                    ==> #[trigger] events@[j] == GameEvent::NewNode(auto_events@[j]),
                spawn_requests@ == auto_events@.subrange(0, a as int),
            decreases auto_events@.len() - a,
        {
            let e: NewNodeEvent = auto_events[a];
            spawn_requests.push(e);
            events.push(GameEvent::NewNode(e));
            proof {
                assert(spawn_requests@ =~= auto_events@.subrange(0, a + 1));
            }
            a = a + 1;
        }
        proof {
            assert(events@ =~= wrap_new_nodes(auto_events@));
            assert(spawn_requests@ =~= auto_events@);
            assert(spawn_targets(Seq::<GameEvent>::empty()) == Seq::<NewNodeEvent>::empty());
            assert(reset_targets(Seq::<GameEvent>::empty()) == Seq::<usize>::empty());
            assert(spawn_requests@ =~= auto_events@ + spawn_targets(Seq::<GameEvent>::empty()));
            assert(resets@ =~= reset_targets(Seq::<GameEvent>::empty()));
            assert(clicks@.subrange(0, 0).len() == 0);
            assert(clicks_rel(gh2, *self, clicks@.subrange(0, 0), Seq::<GameEvent>::empty()));
            assert(events@ =~= wrap_new_nodes(auto_events@) + Seq::<GameEvent>::empty());
        }
        let ghost mut click_evs: Seq<GameEvent> = Seq::empty();
        let mut c: usize = 0;
        while c < clicks.len()
            invariant
                c <= clicks@.len(),
                wf(*self),
                self.nodes@.len() >= g0.nodes@.len(),
                forall|n: int| 0 <= n < g0.nodes@.len()
                    ==> #[trigger] self.nodes@[n].position == g0.nodes@[n].position,
                g0.currency <= self.currency <= g0.currency + c,
                g0.currency + clicks@.len() <= i32::MAX,
                levels_clickable(*self),
                clicks_rel(gh2, *self, clicks@.subrange(0, c as int), click_evs),
                events@ == wrap_new_nodes(auto_events@) + click_evs,
                spawn_requests@ == auto_events@ + spawn_targets(click_evs),
                resets@ == reset_targets(click_evs),
                forall|j: int| 0 <= j < spawn_requests@.len()
                    ==> #[trigger] spawn_requests@[j].entity < self.nodes@.len()
                        && spawn_requests@[j].currencies_on_click >= 0,
            decreases clicks@.len() - c,
        {
            let ghost pre = *self;
            let ghost click_evs_base = click_evs;
            let target: usize = clicks[c];
            let evs: Vec<GameEvent> = self.handle_click(target);
            let mut v: usize = 0;
            while v < evs.len()
                invariant
                    v <= evs@.len(),
                    forall|j: int| 0 <= j < evs@.len()
                        ==> (#[trigger] evs@[j] matches GameEvent::NewNode(e)
                            ==> e.entity < self.nodes@.len() && e.currencies_on_click >= 0),
                    events@ == wrap_new_nodes(auto_events@) + click_evs_base + evs@.subrange(
                        0,
                        v as int,
                    ),
                    spawn_requests@ == auto_events@ + spawn_targets(
                        click_evs_base + evs@.subrange(0, v as int),
                    ),
                    resets@ == reset_targets(click_evs_base + evs@.subrange(0, v as int)),
                    forall|j: int| 0 <= j < spawn_requests@.len()
                        ==> #[trigger] spawn_requests@[j].entity < self.nodes@.len()
                            && spawn_requests@[j].currencies_on_click >= 0,
                decreases evs@.len() - v,
            {
                let ev: GameEvent = evs[v];
                proof {
                    let ghost seen = click_evs_base + evs@.subrange(0, v as int);
                    lemma_targets_push(seen, ev);
                    assert(seen.push(ev) =~= click_evs_base + evs@.subrange(0, v + 1));
                }
                match ev {
                    GameEvent::NewNode(e) => {
                        spawn_requests.push(e);
                        proof {
                            let ghost seen = click_evs_base + evs@.subrange(0, v as int);
                            assert(spawn_targets(seen.push(ev)) =~= spawn_targets(seen) + seq![
                                e
                            ]);
                            assert(spawn_requests@ =~= auto_events@ + spawn_targets(
                                seen.push(ev),
                            ));
                            assert(reset_targets(seen.push(ev)) =~= reset_targets(seen));
                        }
                    },
                    GameEvent::ResetPropagation(p) => {
                        resets.push(p.0);
                        proof {
                            let ghost seen = click_evs_base + evs@.subrange(0, v as int);
                            assert(reset_targets(seen.push(ev)) =~= reset_targets(seen) + seq![
                                p.0
                            ]);
                            assert(resets@ =~= reset_targets(seen.push(ev)));
                            assert(spawn_targets(seen.push(ev)) =~= spawn_targets(seen));
                        }
                    },
                    GameEvent::Save(_) => {
                        proof {
                            let ghost seen = click_evs_base + evs@.subrange(0, v as int);
                            assert(spawn_targets(seen.push(ev)) =~= spawn_targets(seen));
                            assert(reset_targets(seen.push(ev)) =~= reset_targets(seen));
                        }
                    },
                }
                events.push(ev);
                proof {
                    assert(events@ =~= wrap_new_nodes(auto_events@) + click_evs_base
                        + evs@.subrange(0, v + 1));
                }
                v = v + 1;
            }
            proof {
                assert(evs@.subrange(0, evs@.len() as int) =~= evs@);
                click_evs = click_evs_base + evs@;
                assert(clicks@.subrange(0, c + 1).drop_last() =~= clicks@.subrange(0, c as int));
                assert(clicks@.subrange(0, c + 1).last() == clicks@[c as int]);
                let ghost n0 = click_evs.len() - evs@.len();
                assert(click_evs.take(n0) =~= click_evs_base);
                assert(click_evs.skip(n0) =~= evs@);
                assert(clicks_rel(
                    gh2,
                    pre,
                    clicks@.subrange(0, c + 1).drop_last(),
                    click_evs.take(n0),
                ));
                assert(click_rel(
                    pre,
                    *self,
                    clicks@.subrange(0, c + 1).last() as int,
                    evs@,
                ));
                assert(clicks_rel(gh2, *self, clicks@.subrange(0, c + 1), click_evs));
            }
            c = c + 1;
        }
        let ghost gh3 = *self;
        proof {
            assert(clicks@.subrange(0, clicks@.len() as int) =~= clicks@);
            assert(clicks_rel(gh2, gh3, clicks@, click_evs));
            assert(resets_rel(gh3, *self, resets@.subrange(0, 0)));
        }
        let mut r: usize = 0;
        while r < resets.len()
            invariant
                r <= resets@.len(),
                wf(*self),
                self.nodes@.len() >= g0.nodes@.len(),
                forall|n: int| 0 <= n < g0.nodes@.len()
                    ==> #[trigger] self.nodes@[n].position == g0.nodes@[n].position,
                g0.currency <= self.currency <= g0.currency + clicks@.len(),
                resets_rel(gh3, *self, resets@.subrange(0, r as int)),
                forall|j: int| 0 <= j < spawn_requests@.len()
                    ==> #[trigger] spawn_requests@[j].entity < self.nodes@.len()
                        && spawn_requests@[j].currencies_on_click >= 0,
            decreases resets@.len() - r,
        {
            let ghost pre = *self;
            let target: usize = resets[r];
            self.reset_manual_button_timers(target);
            proof {
                assert(resets@.subrange(0, r + 1).drop_last() =~= resets@.subrange(0, r as int));
                assert(resets@.subrange(0, r + 1).last() == resets@[r as int]);
                assert(resets_rel(gh3, pre, resets@.subrange(0, r + 1).drop_last()));
                assert(reset_pass_rel(pre, *self, resets@.subrange(0, r + 1).last() as int));
                assert(resets_rel(gh3, *self, resets@.subrange(0, r + 1)));
            }
            r = r + 1;
        }
        let ghost gh4 = *self;
        proof {
            assert(resets@.subrange(0, resets@.len() as int) =~= resets@);
            assert(resets_rel(gh3, gh4, resets@));
        }
        self.check_self_block();
        let ghost gh5 = *self;
        self.new_button(&spawn_requests, random);
        let ghost gh6 = *self;
        let ghost pre_inherit = *self;
        self.update_inherited_block_status();
        proof {
            assert(same_blocking_fields(pre_inherit.nodes@, self.nodes@));
            assert forall|n: int| 0 <= n < self.nodes@.len() implies (#[trigger] self.nodes@[
                n
            ].inherited_blocked <==> spec_inherited(self.nodes@, n)) by {
                lemma_blocked_within_congruent(
                    pre_inherit.nodes@,
                    self.nodes@,
                    n,
                    pre_inherit.nodes@.len(),
                );
            }
            // assemble the pipeline relation, innermost stage first
            assert(spawn_batch_rel(gh5, gh6, auto_events@ + spawn_targets(click_evs)));
            assert(inherited_pass_rel(gh6, *self));
            assert(tick_after_self_block(gh5, *self, auto_events@, click_evs));
            assert(self_block_rel(gh4, gh5));
            assert(tick_after_resets(gh4, *self, auto_events@, click_evs));
            assert(resets_rel(gh3, gh4, reset_targets(click_evs)));
            assert(tick_after_clicks(gh3, *self, auto_events@, click_evs));
            assert(clicks_rel(gh2, gh3, clicks@, click_evs));
            assert(tick_after_auto(gh2, *self, clicks@, auto_events@, events@));
            assert(auto_pass_rel(gh1, gh2, auto_events@));
            assert(tick_after_timer(gh1, *self, clicks@, events@));
            assert(timer_pass_rel(g0, gh1, delta_ms as int));
            assert(tick_rel(g0, *self, delta_ms as int, clicks@, events@));
        }
        events
    }
}

} // verus!
