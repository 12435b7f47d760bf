use vstd::prelude::*;

use crate::state::{GameState, StateModel};
use crate::types::PlayerId;

verus! {

/// The player who makes the active player's decisions this turn: the turn's
/// decision controller when there is one, else the active player.
pub open spec fn spec_turn_decision_maker(s: StateModel) -> PlayerId {
    match s.turn_decision_controller {
        Some(p) => p,
        None => s.active_player,
    }
}

/// The player entitled to submit actions on behalf of `semantic_player`.
pub open spec fn spec_authorized_submitter_for_player(s: StateModel, semantic_player: PlayerId) -> PlayerId {
    if semantic_player == s.active_player {
        spec_turn_decision_maker(s)
    } else {
        semantic_player
    }
}

pub open spec fn spec_authorized_submitter(s: StateModel) -> Option<PlayerId> {
    match s.waiting_for.acting_player() {
        Some(p) => Some(spec_authorized_submitter_for_player(s, p)),
        None => None,
    }
}

/// The player whose resources the turn uses: the active player.
pub fn turn_resource_owner(state: &GameState) -> (r: PlayerId)
    ensures
        r == state.active_player,
{
    state.active_player
}

pub fn turn_decision_maker(state: &GameState) -> (r: PlayerId)
    ensures
        r == spec_turn_decision_maker(state@),
{
    match state.turn_decision_controller {
        Some(p) => p,
        None => state.active_player,
    }
}

pub fn authorized_submitter_for_player(state: &GameState, semantic_player: PlayerId) -> (r: PlayerId)
    ensures
        r == spec_authorized_submitter_for_player(state@, semantic_player),
{
    if semantic_player == state.active_player {
        turn_decision_maker(state)
    } else {
        semantic_player
    }
}

/// Who may submit the action the engine waits for; `None` once nobody can act.
pub fn authorized_submitter(state: &GameState) -> (r: Option<PlayerId>)
    ensures
        r == spec_authorized_submitter(state@),
{
    match state.waiting_for.acting_player() {
        Some(p) => Some(authorized_submitter_for_player(state, p)),
        None => None,
    }
}

/// Does `viewer` make the decisions of another player's turn?
pub fn viewer_controls_active_turn(state: &GameState, viewer: PlayerId) -> (r: bool)
    ensures
        r == (state.turn_decision_controller == Some(viewer)),
{
    match state.turn_decision_controller {
        Some(p) => p == viewer,
        None => false,
    }
}

/// Only non-active players, or whoever makes the active player's decisions, ever
/// submit: an active player whose turn is controlled by another submits nothing for
/// themselves.
pub proof fn law_submitter_is_decision_maker_or_self(s: StateModel, p: PlayerId)
    ensures
        spec_authorized_submitter_for_player(s, p) == p || (p == s.active_player
            && spec_authorized_submitter_for_player(s, p) == spec_turn_decision_maker(s)),
        s.turn_decision_controller is None ==> spec_authorized_submitter_for_player(s, p) == p,
{
}

} // verus!
