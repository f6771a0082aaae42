//! Events the core emits for its collaborators: a request to spawn a node,
//! a request to persist the game, and the reset cascade started by a click
//! on a gain node.

use vstd::prelude::*;

verus! {

/// A node produced currency: the spawner may grow the map near it.
#[derive(Clone, Copy, PartialEq, Eq, Structural, Debug)]
pub struct NewNodeEvent {
    pub entity: usize,
    pub currencies_on_click: i32,
}

/// The blockers upstream of this node must be re-locked.
#[derive(Clone, Copy, PartialEq, Eq, Structural, Debug)]
pub struct PropagateResetManualButtons(pub usize);

/// The game state should be persisted.
#[derive(Clone, Copy, PartialEq, Eq, Structural, Debug)]
pub struct EventSave;

/// Any event the core hands to its surroundings.
#[derive(Clone, Copy, PartialEq, Eq, Structural, Debug)]
pub enum GameEvent {
    NewNode(NewNodeEvent),
    ResetPropagation(PropagateResetManualButtons),
    Save(EventSave),
}

} // verus!
