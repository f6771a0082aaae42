use sidleffect::events::NewNodeEvent;
use sidleffect::graph::{GameGraph, Node, NodeType};
use sidleffect::pos::{distance_squared, Pos};
use rand::SeedableRng;
use sidleffect::saves::{default_save, start_load};
use sidleffect::spawner::{pick_archetype, SPAWN_RADIUS_MILLI};
use sidleffect::timer::ProgressTimer;

fn single_gain_graph() -> GameGraph {
    GameGraph {
        nodes: vec![Node {
            position: Pos { x: 0, y: 0 },
            node_type: NodeType::Gain { level: 1 },
            progress: ProgressTimer::new(2000, 0),
            self_blocked: false,
            inherited_blocked: false,
            blockers: vec![],
            to_block: vec![],
        }],
        currency: 0,
    }
}

#[test]
fn low_currency_always_spawns_something() {
    // With at most one unit of currency the weight of the empty outcome is
    // zero, so the weighted choice can never land on it.
    let mut rng = rand_chacha::ChaCha20Rng::seed_from_u64(7);
    for _ in 0..50 {
        let picked = pick_archetype(1, &mut rng);
        assert!(picked.is_some());
        match picked.unwrap() {
            NodeType::Blocker { is_blocked } => assert!(is_blocked),
            NodeType::Save { level } => assert_eq!(level, 1),
            NodeType::Gain { level } => assert_eq!(level, 1),
        }
    }
}

#[test]
fn spawn_wires_the_new_node_to_its_source() {
    let mut g = single_gain_graph();
    let mut rng = rand_chacha::ChaCha20Rng::seed_from_u64(3);
    let events = vec![NewNodeEvent { entity: 0, currencies_on_click: 1 }];
    g.new_button(&events, &mut rng);
    // Low currency forbids the empty outcome, and a lone node cannot
    // saturate the ring, so the spawn must have happened.
    assert_eq!(g.nodes.len(), 2);
    assert_eq!(g.nodes[1].to_block, vec![0]);
    assert_eq!(g.nodes[0].blockers, vec![1]);
    assert!(g.nodes[1].blockers.is_empty());
    let rr = (SPAWN_RADIUS_MILLI as i128) * (SPAWN_RADIUS_MILLI as i128);
    assert!(distance_squared(&g.nodes[1].position, &g.nodes[0].position) > rr);
    // Spawn-time duration formula, by archetype, for one unit of currency.
    match g.nodes[1].node_type {
        NodeType::Blocker { is_blocked } => {
            assert!(is_blocked);
            assert!(g.nodes[1].self_blocked);
            assert_eq!(g.nodes[1].progress.duration_ms, 500);
        }
        NodeType::Save { level } => {
            assert_eq!(level, 1);
            assert_eq!(g.nodes[1].progress.duration_ms, 5500);
        }
        NodeType::Gain { level } => {
            assert_eq!(level, 1);
            assert_eq!(g.nodes[1].progress.duration_ms, 2300);
        }
    }
    assert_eq!(g.nodes[1].progress.elapsed_ms, 0);
}

#[test]
fn batch_spawns_avoid_each_other() {
    let mut g = single_gain_graph();
    let mut rng = rand_chacha::ChaCha20Rng::seed_from_u64(11);
    let events = vec![
        NewNodeEvent { entity: 0, currencies_on_click: 1 },
        NewNodeEvent { entity: 0, currencies_on_click: 1 },
        NewNodeEvent { entity: 0, currencies_on_click: 1 },
    ];
    g.new_button(&events, &mut rng);
    let rr = (SPAWN_RADIUS_MILLI as i128) * (SPAWN_RADIUS_MILLI as i128);
    for j in 1..g.nodes.len() {
        for k in 0..j {
            assert!(
                distance_squared(&g.nodes[j].position, &g.nodes[k].position) > rr,
                "nodes {} and {} are too close",
                j,
                k
            );
        }
    }
}

#[test]
fn game_tick_runs_the_full_pipeline() {
    // Start from the default save: a gain node ready in 2s, blocked by a
    // blocker whose timer has 1s left.
    let save = default_save();
    let mut g = start_load(&save).expect("the default save is valid");
    let mut rng = rand_chacha::ChaCha20Rng::seed_from_u64(5);
    g.update_inherited_block_status();
    // The blocker is manually blocked, so the gain node inherits a block.
    assert!(g.nodes[0].inherited_blocked);
    assert!(!g.nodes[1].inherited_blocked);
    // A click on the blocked gain node changes nothing.
    let evs = g.game_tick(100, &vec![0], &mut rng);
    assert_eq!(g.currency, 0);
    assert!(evs.is_empty());
    // Let the blocker finish: it re-locks itself and requests a spawn,
    // which at zero currency always produces a node.
    let before = g.nodes.len();
    let evs2 = g.game_tick(2000, &vec![], &mut rng);
    assert_eq!(evs2.len(), 1);
    assert_eq!(g.nodes.len(), before + 1);
    // The inherited pass at the end of a tick is a fixpoint: running it
    // once more changes no flag.
    let snapshot: Vec<bool> = g.nodes.iter().map(|n| n.inherited_blocked).collect();
    g.update_inherited_block_status();
    let again: Vec<bool> = g.nodes.iter().map(|n| n.inherited_blocked).collect();
    assert_eq!(snapshot, again);
}

#[test]
fn game_tick_click_earns_and_spawns() {
    // A lone, finished, unblocked gain node: one click in a tick earns
    // exactly one unit of currency, and the spawn request it emits always
    // produces a node at low currency.
    let mut g = single_gain_graph();
    g.nodes[0].progress.tick(2000);
    let mut rng = rand_chacha::ChaCha20Rng::seed_from_u64(9);
    let evs = g.game_tick(0, &vec![0], &mut rng);
    assert_eq!(g.currency, 1);
    assert_eq!(evs.len(), 2);
    assert_eq!(g.nodes.len(), 2);
    assert_eq!(g.nodes[1].to_block, vec![0]);
    assert_eq!(g.nodes[0].blockers, vec![1]);
    assert_eq!(g.nodes[0].node_type, NodeType::Gain { level: 2 });
}
