use vstd::prelude::*;

use crate::game::layers::{evaluate_layers, spec_evaluate_layers, lemma_layered_idempotent, layered};
use crate::state::{GameState, StateModel};
use crate::types::{GameObject, WaitingFor, WaitingForView};

verus! {

/// The state with `priority_player` taken from a pending priority wait.
pub open spec fn spec_sync_priority(s: StateModel) -> StateModel {
    match s.waiting_for {
        WaitingForView::Priority { player } => StateModel { priority_player: player, ..s },
        _ => s,
    }
}

/// The state as it leaves the engine: priority synchronised with what the engine
/// waits for, and layers evaluated when they are dirty.
pub open spec fn spec_finalize_public_state(s: StateModel) -> StateModel {
    let s1 = spec_sync_priority(s);
    if s1.layers_dirty {
        spec_evaluate_layers(s1)
    } else {
        s1
    }
}

/// Finalize outward-facing game state before it leaves the engine boundary:
/// synchronise `priority_player` from `waiting_for`, and evaluate layers when dirty.
/// Derived display data (what clients render beyond the rules state) is not part of
/// this engine core's state, so no display state is derived here.
pub fn finalize_public_state(state: &mut GameState)
    ensures
        final(state)@ == spec_finalize_public_state(old(state)@),
{
    if let WaitingFor::Priority { player } = state.waiting_for {
        state.priority_player = player;
    }
    if state.layers_dirty {
        evaluate_layers(state);
    }
}

/// The state after the engine starts waiting for `w`.
pub open spec fn spec_sync_waiting_for(s: StateModel, w: WaitingForView) -> StateModel {
    spec_sync_priority(StateModel { waiting_for: w, ..s })
}

pub fn sync_waiting_for(state: &mut GameState, waiting_for: &WaitingFor)
    ensures
        final(state)@ == spec_sync_waiting_for(old(state)@, waiting_for@),
{
    state.waiting_for = waiting_for.duplicate();
    if let WaitingFor::Priority { player } = waiting_for {
        state.priority_player = *player;
    }
}

/// Finalizing is idempotent: a finalized state is left as it is.
pub proof fn law_finalize_idempotent(s: StateModel)
    ensures
        spec_finalize_public_state(spec_finalize_public_state(s)) == spec_finalize_public_state(s),
{
    let f = spec_finalize_public_state(s);
    assert(!f.layers_dirty);
    assert(spec_sync_priority(f) == f);
}

/// After finalizing, layers are clean and a player waited on for priority holds it.
pub proof fn law_finalize_syncs(s: StateModel)
    ensures
        !spec_finalize_public_state(s).layers_dirty,
        spec_finalize_public_state(s).waiting_for == s.waiting_for,
        s.waiting_for matches WaitingForView::Priority { player } ==> spec_finalize_public_state(
            s,
        ).priority_player == player,
{
}

/// Evaluating layers again changes nothing.
pub proof fn law_evaluate_layers_idempotent(s: StateModel)
    ensures
        spec_evaluate_layers(spec_evaluate_layers(s)) == spec_evaluate_layers(s),
{
    let a = spec_evaluate_layers(s);
    let b = spec_evaluate_layers(a);
    assert forall|j: int| 0 <= j < s.objects.len() implies b.objects[j] == a.objects[j] by {
        lemma_layered_idempotent(s.objects[j]);
    }
    assert(b.objects =~= a.objects);
}

/// Synchronising to the same wait twice is the same as once.
pub proof fn law_sync_waiting_for_idempotent(s: StateModel, w: WaitingForView)
    ensures
        spec_sync_waiting_for(spec_sync_waiting_for(s, w), w) == spec_sync_waiting_for(s, w),
        spec_sync_waiting_for(s, w).waiting_for == w,
{
}

} // verus!
