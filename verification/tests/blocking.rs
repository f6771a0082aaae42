use sidleffect::graph::{GameGraph, Node, NodeType};
use sidleffect::pos::Pos;
use sidleffect::timer::ProgressTimer;

/// A bare node for graph-shape tests: position, archetype, flags and edges.
fn node(
    x: i64,
    node_type: NodeType,
    self_blocked: bool,
    blockers: Vec<usize>,
    to_block: Vec<usize>,
) -> Node {
    Node {
        position: Pos { x, y: 0 },
        node_type,
        progress: ProgressTimer::new(1000, 0),
        self_blocked,
        inherited_blocked: false,
        blockers,
        to_block,
    }
}

#[test]
fn chain_propagates_from_blocked_root() {
    // A blocks B, B blocks C; A is self-blocked.
    let mut g = GameGraph {
        nodes: vec![
            node(0, NodeType::Blocker { is_blocked: true }, true, vec![], vec![1]),
            node(1, NodeType::Gain { level: 1 }, false, vec![0], vec![2]),
            node(2, NodeType::Gain { level: 1 }, false, vec![1], vec![]),
        ],
        currency: 0,
    };
    g.update_inherited_block_status();
    assert!(!g.nodes[0].inherited_blocked);
    assert!(g.nodes[1].inherited_blocked);
    assert!(g.nodes[2].inherited_blocked);
}

#[test]
fn chain_clears_when_root_unblocks() {
    let mut g = GameGraph {
        nodes: vec![
            node(0, NodeType::Blocker { is_blocked: false }, false, vec![], vec![1]),
            node(1, NodeType::Gain { level: 1 }, false, vec![0], vec![2]),
            node(2, NodeType::Gain { level: 1 }, false, vec![1], vec![]),
        ],
        currency: 0,
    };
    g.nodes[1].inherited_blocked = true;
    g.nodes[2].inherited_blocked = true;
    g.update_inherited_block_status();
    assert!(!g.nodes[1].inherited_blocked);
    assert!(!g.nodes[2].inherited_blocked);
}

#[test]
fn diamond_shared_descendant_is_blocked() {
    // Root R blocks B1 and B2, both of which block C; only B1 is
    // self-blocked. The propagation is a pure fixpoint, so C inherits the
    // block through B1 no matter in which order the two arms are walked.
    let mut g = GameGraph {
        nodes: vec![
            node(0, NodeType::Gain { level: 1 }, false, vec![], vec![1, 2]),
            node(1, NodeType::Blocker { is_blocked: true }, true, vec![0], vec![3]),
            node(2, NodeType::Blocker { is_blocked: false }, false, vec![0], vec![3]),
            node(3, NodeType::Gain { level: 1 }, false, vec![1, 2], vec![]),
        ],
        currency: 0,
    };
    g.update_inherited_block_status();
    assert!(!g.nodes[0].inherited_blocked);
    assert!(!g.nodes[1].inherited_blocked);
    assert!(!g.nodes[2].inherited_blocked);
    assert!(g.nodes[3].inherited_blocked);
}

#[test]
fn diamond_other_arm_first_still_blocks() {
    // The same diamond with the arms swapped in index order.
    let mut g = GameGraph {
        nodes: vec![
            node(0, NodeType::Gain { level: 1 }, false, vec![], vec![1, 2]),
            node(1, NodeType::Blocker { is_blocked: false }, false, vec![0], vec![3]),
            node(2, NodeType::Blocker { is_blocked: true }, true, vec![0], vec![3]),
            node(3, NodeType::Gain { level: 1 }, false, vec![1, 2], vec![]),
        ],
        currency: 0,
    };
    g.update_inherited_block_status();
    assert!(g.nodes[3].inherited_blocked);
}

#[test]
fn unreachable_cycle_neither_blocks_nor_hangs() {
    // Two nodes blocking each other form a cycle no root reaches; the
    // pass terminates and leaves them clear.
    let mut g = GameGraph {
        nodes: vec![
            node(0, NodeType::Blocker { is_blocked: true }, true, vec![1], vec![1]),
            node(1, NodeType::Blocker { is_blocked: true }, true, vec![0], vec![0]),
        ],
        currency: 0,
    };
    g.update_inherited_block_status();
    assert!(!g.nodes[0].inherited_blocked);
    assert!(!g.nodes[1].inherited_blocked);
}

#[test]
fn reset_cascade_relocks_upstream_blockers() {
    // Node 2 (a gain) is blocked by 1 (a blocker), which is blocked by 0
    // (a blocker); node 3 is unrelated.
    let mut g = GameGraph {
        nodes: vec![
            node(0, NodeType::Blocker { is_blocked: false }, false, vec![], vec![1]),
            node(1, NodeType::Blocker { is_blocked: false }, false, vec![0], vec![2]),
            node(2, NodeType::Gain { level: 1 }, false, vec![1], vec![]),
            node(3, NodeType::Blocker { is_blocked: false }, false, vec![], vec![]),
        ],
        currency: 0,
    };
    g.reset_manual_button_timers(2);
    assert_eq!(g.nodes[0].node_type, NodeType::Blocker { is_blocked: true });
    assert!(g.nodes[0].self_blocked);
    assert_eq!(g.nodes[0].progress.duration_ms, 500);
    assert_eq!(g.nodes[0].progress.elapsed_ms, 0);
    assert_eq!(g.nodes[1].node_type, NodeType::Blocker { is_blocked: true });
    assert!(g.nodes[1].self_blocked);
    // The clicked gain node itself is no blocker and keeps its state.
    assert_eq!(g.nodes[2].node_type, NodeType::Gain { level: 1 });
    assert!(!g.nodes[2].self_blocked);
    // The unrelated blocker is untouched.
    assert_eq!(g.nodes[3].node_type, NodeType::Blocker { is_blocked: false });
    assert!(!g.nodes[3].self_blocked);
}

#[test]
fn gated_blocker_drops_just_finished_without_moving() {
    // A manually blocked blocker with a blocked inherited status does not
    // advance, but its just-finished flag still falls: the flag is true
    // only on the very tick that finished the timer.
    let mut g = GameGraph {
        nodes: vec![node(0, NodeType::Blocker { is_blocked: true }, true, vec![], vec![])],
        currency: 0,
    };
    g.nodes[0].progress.tick(1000);
    assert!(g.nodes[0].progress.just_finished);
    g.nodes[0].inherited_blocked = true;
    g.update_progress_timer(700);
    assert_eq!(g.nodes[0].progress.elapsed_ms, 1000);
    assert!(!g.nodes[0].progress.just_finished);
}

#[test]
fn self_block_pass_reads_timer_and_toggle() {
    let mut g = GameGraph {
        nodes: vec![
            node(0, NodeType::Gain { level: 1 }, true, vec![], vec![]),
            node(1, NodeType::Blocker { is_blocked: true }, false, vec![], vec![]),
            node(2, NodeType::Blocker { is_blocked: false }, true, vec![], vec![]),
        ],
        currency: 0,
    };
    // Finish the timers of nodes 0 and 1 and 2.
    for n in g.nodes.iter_mut() {
        n.progress.tick(1000);
    }
    g.check_self_block();
    // A finished gain node is not self-blocked.
    assert!(!g.nodes[0].self_blocked);
    // A finished blocker follows its manual toggle.
    assert!(g.nodes[1].self_blocked);
    assert!(!g.nodes[2].self_blocked);
}
