use sidleffect::graph::{GameGraph, Node, NodeType};
use sidleffect::pos::Pos;
use sidleffect::saves::{default_save, load, start_load, LoadError, Save, SavedNode};
use sidleffect::timer::ProgressTimer;

fn saved(
    node_type: NodeType,
    duration: u64,
    left: u64,
    to_block: Vec<usize>,
    blockers: Vec<usize>,
) -> SavedNode {
    SavedNode {
        pos: Pos { x: 0, y: 0 },
        node_type,
        timer_ms_duration: duration,
        timer_ms_left: left,
        to_block,
        blockers,
    }
}

#[test]
fn save_load_round_trip_preserves_topology() {
    // Three nodes: 0 blocks 1 and 2, 1 blocks 2.
    let g = GameGraph {
        nodes: vec![
            Node {
                position: Pos { x: 10_000, y: 20_000 },
                node_type: NodeType::Blocker { is_blocked: true },
                progress: ProgressTimer::new(3000, 1000),
                self_blocked: true,
                inherited_blocked: false,
                blockers: vec![],
                to_block: vec![1, 2],
            },
            Node {
                position: Pos { x: -5000, y: 0 },
                node_type: NodeType::Gain { level: 4 },
                progress: ProgressTimer::new(2300, 2300),
                self_blocked: false,
                inherited_blocked: true,
                blockers: vec![0],
                to_block: vec![2],
            },
            Node {
                position: Pos { x: 0, y: 99_000 },
                node_type: NodeType::Save { level: 2 },
                progress: ProgressTimer::new(11_500, 0),
                self_blocked: false,
                inherited_blocked: true,
                blockers: vec![0, 1],
                to_block: vec![],
            },
        ],
        currency: 7,
    };
    let save = g.to_save();
    let g2 = start_load(&save).expect("a save of a well-formed graph is valid");
    assert_eq!(g2.currency, 7);
    assert_eq!(g2.nodes.len(), 3);
    for i in 0..3 {
        assert_eq!(g2.nodes[i].position, g.nodes[i].position);
        assert_eq!(g2.nodes[i].node_type, g.nodes[i].node_type);
        assert_eq!(g2.nodes[i].blockers, g.nodes[i].blockers);
        assert_eq!(g2.nodes[i].to_block, g.nodes[i].to_block);
        assert_eq!(
            g2.nodes[i].progress.duration_ms,
            g.nodes[i].progress.duration_ms
        );
        assert_eq!(
            g2.nodes[i].progress.elapsed_ms,
            g.nodes[i].progress.elapsed_ms
        );
        // Degrees (and hence the relative topology) carry over.
        assert_eq!(g2.nodes[i].blockers.len(), g.nodes[i].blockers.len());
        assert_eq!(g2.nodes[i].to_block.len(), g.nodes[i].to_block.len());
    }
    // Reloading resets derived flags: blockers self-blocked, others clear.
    assert!(g2.nodes[0].self_blocked);
    assert!(!g2.nodes[1].self_blocked);
    assert!(!g2.nodes[1].inherited_blocked);
    // A second round trip gives the same save back.
    let save2 = g2.to_save();
    assert_eq!(save2.currencies, save.currencies);
    for i in 0..3 {
        assert_eq!(save2.nodes[i].timer_ms_left, save.nodes[i].timer_ms_left);
        assert_eq!(save2.nodes[i].to_block, save.nodes[i].to_block);
        assert_eq!(save2.nodes[i].blockers, save.nodes[i].blockers);
    }
}

#[test]
fn default_save_is_the_two_seed_nodes() {
    let s = default_save();
    assert_eq!(s.currencies, 0);
    assert_eq!(s.nodes.len(), 2);
    assert_eq!(s.nodes[0].node_type, NodeType::Gain { level: 1 });
    assert_eq!(s.nodes[0].timer_ms_duration, 2000);
    assert_eq!(s.nodes[0].timer_ms_left, 2000);
    assert_eq!(s.nodes[0].blockers, vec![1]);
    assert_eq!(s.nodes[0].to_block, Vec::<usize>::new());
    assert_eq!(s.nodes[1].node_type, NodeType::Blocker { is_blocked: true });
    assert_eq!(s.nodes[1].pos, Pos { x: 0, y: 230_000 });
    assert_eq!(s.nodes[1].timer_ms_duration, 3000);
    assert_eq!(s.nodes[1].timer_ms_left, 1000);
    assert_eq!(s.nodes[1].to_block, vec![0]);
    let g = start_load(&s).expect("the default save is valid");
    assert_eq!(g.nodes.len(), 2);
    assert!(g.nodes[1].self_blocked);
}

#[test]
fn empty_or_missing_store_falls_back_to_default() {
    let from_none = load(None);
    assert_eq!(from_none.nodes.len(), 2);
    let from_empty = load(Some(Save { currencies: 9, nodes: vec![] }));
    assert_eq!(from_empty.currencies, 0);
    assert_eq!(from_empty.nodes.len(), 2);
    let kept = load(Some(Save {
        currencies: 9,
        nodes: vec![saved(NodeType::Gain { level: 1 }, 100, 50, vec![], vec![])],
    }));
    assert_eq!(kept.currencies, 9);
    assert_eq!(kept.nodes.len(), 1);
}

#[test]
fn out_of_range_edge_is_rejected() {
    let s = Save {
        currencies: 0,
        nodes: vec![saved(NodeType::Gain { level: 1 }, 100, 50, vec![5], vec![])],
    };
    assert_eq!(start_load(&s).err(), Some(LoadError));
}

#[test]
fn non_inverse_edges_are_rejected() {
    // 0 claims to block 1, but 1 does not list 0 among its blockers.
    let s = Save {
        currencies: 0,
        nodes: vec![
            saved(NodeType::Gain { level: 1 }, 100, 50, vec![1], vec![]),
            saved(NodeType::Gain { level: 1 }, 100, 50, vec![], vec![]),
        ],
    };
    assert_eq!(start_load(&s).err(), Some(LoadError));
}

#[test]
fn overlong_remaining_time_is_rejected() {
    let s = Save {
        currencies: 0,
        nodes: vec![saved(NodeType::Gain { level: 1 }, 100, 200, vec![], vec![])],
    };
    assert_eq!(start_load(&s).err(), Some(LoadError));
}

#[test]
fn negative_currency_is_rejected() {
    let s = Save {
        currencies: -1,
        nodes: vec![saved(NodeType::Gain { level: 1 }, 100, 50, vec![], vec![])],
    };
    assert_eq!(start_load(&s).err(), Some(LoadError));
}
