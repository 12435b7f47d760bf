use vstd::prelude::*;

use crate::game::zones::World;
use crate::state::{GameState, StateModel};
use crate::types::{evs, lemma_evs_push, next_phase, spec_next_phase, GameEvent, GameEventView, WaitingFor, WaitingForView};

verus! {

/// CR 117.3a: the active player receives priority, and no one has passed yet.
pub open spec fn spec_reset_priority(s: StateModel) -> StateModel {
    StateModel { priority_player: s.active_player, priority_passes: 0, ..s }
}

pub fn reset_priority(state: &mut GameState)
    ensures
        final(state)@ == spec_reset_priority(old(state)@),
{
    state.priority_player = state.active_player;
    state.priority_passes = 0;
}

/// The world after the turn moves on to its next step.
pub open spec fn spec_advance_phase(w: World) -> World {
    let next = spec_next_phase(w.0.phase);
    (StateModel { phase: next, ..w.0 }, w.1.push(GameEventView::PhaseChanged { phase: next }))
}

pub fn advance_phase(state: &mut GameState, events: &mut Vec<GameEvent>)
    ensures
        (final(state)@, evs(final(events)@)) == spec_advance_phase((old(state)@, evs(old(events)@))),
{
    let next = next_phase(state.phase);
    state.phase = next;
    proof {
        lemma_evs_push(events@, GameEvent::PhaseChanged { phase: next });
    }
    events.push(GameEvent::PhaseChanged { phase: next });
}

/// The state once the engine settles on the new step: the active player gets
/// priority and the engine waits for them.
pub open spec fn spec_auto_advance(s: StateModel) -> StateModel {
    StateModel {
        waiting_for: WaitingForView::Priority { player: s.active_player },
        ..spec_reset_priority(s)
    }
}

pub fn auto_advance(state: &mut GameState, events: &mut Vec<GameEvent>) -> (r: WaitingFor)
    ensures
        final(state)@ == spec_auto_advance(old(state)@),
        final(events)@ == old(events)@,
        r@ == (WaitingForView::Priority { player: old(state).active_player }),
{
    reset_priority(state);
    state.waiting_for = WaitingFor::Priority { player: state.active_player };
    WaitingFor::Priority { player: state.active_player }
}

/// A triggered ability waiting for targets makes the engine wait for its controller.
pub open spec fn spec_pending_trigger_wait(s: StateModel) -> Option<WaitingForView> {
    match s.pending_trigger {
        Some(t) => Some(
            WaitingForView::TriggerTargetSelection { player: t.controller, source_id: t.source_id },
        ),
        None => None,
    }
}

pub fn begin_pending_trigger_target_selection(state: &GameState) -> (r: Option<WaitingFor>)
    ensures
        match spec_pending_trigger_wait(state@) {
            Some(v) => r matches Some(x) && x@ == v,
            None => r is None,
        },
{
    match state.pending_trigger {
        Some(t) => Some(
            WaitingFor::TriggerTargetSelection { player: t.controller, source_id: t.source_id },
        ),
        None => None,
    }
}

} // verus!
