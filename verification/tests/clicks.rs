use sidleffect::events::{EventSave, GameEvent, NewNodeEvent, PropagateResetManualButtons};
use sidleffect::graph::{GameGraph, Node, NodeType};
use sidleffect::pos::Pos;
use sidleffect::timer::ProgressTimer;

/// One node whose timer has the given duration and elapsed time.
fn node(node_type: NodeType, duration_ms: u64, elapsed_ms: u64) -> Node {
    Node {
        position: Pos { x: 0, y: 0 },
        node_type,
        progress: ProgressTimer::new(duration_ms, elapsed_ms),
        self_blocked: false,
        inherited_blocked: false,
        blockers: vec![],
        to_block: vec![],
    }
}

#[test]
fn gain_click_earns_one_and_spawns_once() {
    let mut g = GameGraph {
        nodes: vec![node(NodeType::Gain { level: 1 }, 100, 100)],
        currency: 0,
    };
    let evs = g.node_gain_react(0);
    assert_eq!(g.currency, 1);
    assert_eq!(evs.len(), 2);
    assert_eq!(
        evs[0],
        GameEvent::NewNode(NewNodeEvent { entity: 0, currencies_on_click: 1 })
    );
    assert_eq!(
        evs[1],
        GameEvent::ResetPropagation(PropagateResetManualButtons(0))
    );
    assert_eq!(g.nodes[0].node_type, NodeType::Gain { level: 2 });
    // New duration: 1 unit of currency times 300 ms plus old level 1 times
    // 2000 ms.
    assert_eq!(g.nodes[0].progress.duration_ms, 2300);
    assert_eq!(g.nodes[0].progress.elapsed_ms, 0);
}

#[test]
fn blocked_gain_click_is_ignored() {
    let mut g = GameGraph {
        nodes: vec![node(NodeType::Gain { level: 1 }, 100, 100)],
        currency: 0,
    };
    g.nodes[0].inherited_blocked = true;
    let evs = g.node_gain_react(0);
    assert_eq!(g.currency, 0);
    assert_eq!(evs.len(), 0);
    assert_eq!(g.nodes[0].node_type, NodeType::Gain { level: 1 });
    assert_eq!(g.nodes[0].progress.duration_ms, 100);
    assert_eq!(g.nodes[0].progress.elapsed_ms, 100);
}

#[test]
fn unfinished_gain_click_is_ignored() {
    let mut g = GameGraph {
        nodes: vec![node(NodeType::Gain { level: 1 }, 100, 40)],
        currency: 5,
    };
    let evs = g.node_gain_react(0);
    assert_eq!(g.currency, 5);
    assert_eq!(evs.len(), 0);
    assert_eq!(g.nodes[0].progress.elapsed_ms, 40);
}

#[test]
fn save_click_raises_level_and_requests_save() {
    let mut g = GameGraph {
        nodes: vec![node(NodeType::Save { level: 1 }, 100, 100)],
        currency: 3,
    };
    let evs = g.node_save_react(0);
    assert_eq!(g.currency, 3);
    assert_eq!(evs.len(), 1);
    assert_eq!(evs[0], GameEvent::Save(EventSave));
    assert_eq!(g.nodes[0].node_type, NodeType::Save { level: 2 });
    // New duration: base 5000 plus old level 1 times 5000 plus currency 3
    // times 500 milliseconds.
    assert_eq!(g.nodes[0].progress.duration_ms, 11500);
    assert_eq!(g.nodes[0].progress.elapsed_ms, 0);
}

#[test]
fn blocker_click_toggles_the_manual_flag() {
    let mut g = GameGraph {
        nodes: vec![node(NodeType::Blocker { is_blocked: true }, 100, 100)],
        currency: 0,
    };
    let evs = g.node_manual_toggle_block_react(0);
    assert_eq!(evs.len(), 0);
    assert_eq!(g.nodes[0].node_type, NodeType::Blocker { is_blocked: false });
    let evs2 = g.node_manual_toggle_block_react(0);
    assert_eq!(evs2.len(), 0);
    assert_eq!(g.nodes[0].node_type, NodeType::Blocker { is_blocked: true });
}

#[test]
fn blocked_blocker_click_is_ignored() {
    let mut g = GameGraph {
        nodes: vec![node(NodeType::Blocker { is_blocked: true }, 100, 100)],
        currency: 0,
    };
    g.nodes[0].inherited_blocked = true;
    let evs = g.node_manual_toggle_block_react(0);
    assert_eq!(evs.len(), 0);
    assert_eq!(g.nodes[0].node_type, NodeType::Blocker { is_blocked: true });
}

#[test]
fn handle_click_dispatches_on_archetype() {
    let mut g = GameGraph {
        nodes: vec![
            node(NodeType::Gain { level: 1 }, 100, 100),
            node(NodeType::Blocker { is_blocked: true }, 100, 100),
        ],
        currency: 0,
    };
    let evs = g.handle_click(0);
    assert_eq!(g.currency, 1);
    assert_eq!(evs.len(), 2);
    let evs2 = g.handle_click(1);
    assert_eq!(evs2.len(), 0);
    assert_eq!(g.nodes[1].node_type, NodeType::Blocker { is_blocked: false });
}

#[test]
fn click_on_dead_handle_is_ignored() {
    let mut g = GameGraph {
        nodes: vec![node(NodeType::Gain { level: 1 }, 100, 100)],
        currency: 0,
    };
    let evs = g.handle_click(7);
    assert_eq!(evs.len(), 0);
    assert_eq!(g.currency, 0);
}

#[test]
fn status_reports_the_snapshot() {
    let mut g = GameGraph {
        nodes: vec![node(NodeType::Save { level: 4 }, 1000, 400)],
        currency: 0,
    };
    g.nodes[0].self_blocked = true;
    let st = g.status(0).unwrap();
    assert!(!st.finished);
    assert_eq!(st.remaining_ms, 600);
    assert!(st.blocked);
    assert_eq!(st.node_type, NodeType::Save { level: 4 });
    assert!(g.status(1).is_none());
}
