use vstd::prelude::*;

use crate::ability::TargetRef;
use crate::state::{GameState, StateModel};
use crate::types::{
    ActionError, CounterType, EngineError, ManaType, ObjectId, Phase, PlayerId, WaitingFor,
    WaitingForView, Zone,
};

verus! {

/// An event as proposed to the replacement pipeline (CR 614), possibly modified by
/// replacement effects on its way to being applied.
#[derive(Debug)]
pub enum ProposedEvent {
    ZoneChange {
        object_id: ObjectId,
        from: Zone,
        to: Zone,
        enter_tapped: bool,
        enter_with_counters: Vec<(CounterType, u32)>,
        controller_override: Option<PlayerId>,
        enter_transformed: bool,
    },
    Damage { source_id: ObjectId, target: TargetRef, amount: u32, is_combat: bool },
    AddCounter { object_id: ObjectId, counter_type: CounterType, count: u32 },
    RemoveCounter { object_id: ObjectId, counter_type: CounterType, count: u32 },
    Tap { object_id: ObjectId },
    Untap { object_id: ObjectId },
    Draw { player_id: PlayerId, count: u32 },
    LifeGain { player_id: PlayerId, amount: u32 },
    LifeLoss { player_id: PlayerId, amount: u32 },
    Discard { player_id: PlayerId, object_id: ObjectId },
    ProduceMana { source_id: ObjectId, player_id: PlayerId, mana_type: ManaType },
    BeginTurn { player_id: PlayerId },
    BeginPhase { phase: Phase },
    CreateToken { owner: PlayerId },
    Destroy { object_id: ObjectId },
    Sacrifice { object_id: ObjectId },
}

/// Where the replacement pipeline leaves an event.
#[derive(Debug)]
pub enum ReplacementResult {
    /// Apply this (possibly modified) event.
    Execute(ProposedEvent),
    /// The player must choose among further replacements.
    NeedsChoice(PlayerId),
    /// The event does not happen.
    Prevented,
}

/// A replacement choice the engine is waiting on: the chooser and, for each option,
/// where choosing it leaves the event.
#[derive(Debug)]
pub struct PendingReplacement {
    pub chooser: PlayerId,
    pub options: Vec<ReplacementResult>,
}

pub struct PendingReplacementView {
    pub chooser: PlayerId,
    pub options: Seq<ReplacementResult>,
}

impl View for PendingReplacement {
    type V = PendingReplacementView;

    open spec fn view(&self) -> PendingReplacementView {
        PendingReplacementView { chooser: self.chooser, options: self.options@ }
    }
}

/// What choosing option `index` of the pending replacement gives: the option itself,
/// or `None` when there is no such option.
pub open spec fn spec_continue_replacement(s: StateModel, index: usize) -> Option<ReplacementResult> {
    match s.pending_replacement {
        Some(p) => if index < p.options.len() {
            Some(p.options[index as int])
        } else {
            None
        },
        None => None,
    }
}

/// The pending choice once option `index` is taken. CR 616.1e: when the option leads
/// to a further choice, that player chooses again among the options that remain;
/// otherwise nothing is pending.
pub open spec fn spec_pending_after_choice(s: StateModel, index: usize) -> Option<PendingReplacementView> {
    match s.pending_replacement {
        Some(p) => if index < p.options.len() {
            match p.options[index as int] {
                ReplacementResult::NeedsChoice(next) => Some(
                    PendingReplacementView { chooser: next, options: p.options.remove(index as int) },
                ),
                _ => None,
            }
        } else {
            None
        },
        None => None,
    }
}

/// Take the chosen option of the pending replacement choice. The chosen option is
/// used up in every case; a further choice keeps the others pending.
pub fn continue_replacement(state: &mut GameState, index: usize) -> (r: Result<
    ReplacementResult,
    EngineError,
>)
    ensures
        final(state)@ == (StateModel {
            pending_replacement: spec_pending_after_choice(old(state)@, index),
            ..old(state)@
        }),
        match spec_continue_replacement(old(state)@, index) {
            Some(o) => r == Ok::<ReplacementResult, EngineError>(o),
            None => r == Err::<ReplacementResult, EngineError>(
                EngineError::InvalidAction(ActionError::InvalidReplacementChoice { index }),
            ),
        },
{
    let pending = state.pending_replacement.take();
    match pending {
        Some(p) => {
            let mut options = p.options;
            if index < options.len() {
                let o = options.remove(index);
                match o {
                    ReplacementResult::NeedsChoice(next) => {
                        state.pending_replacement = Some(PendingReplacement { chooser: next, options });
                    },
                    _ => {},
                }
                Ok(o)
            } else {
                Err(EngineError::InvalidAction(ActionError::InvalidReplacementChoice { index }))
            }
        },
        None => Err(EngineError::InvalidAction(ActionError::InvalidReplacementChoice { index })),
    }
}

/// CR 616.1: the engine waits for `player` to choose among the pending replacements.
pub open spec fn spec_replacement_choice_waiting_for(s: StateModel, player: PlayerId) -> WaitingForView {
    WaitingForView::ReplacementChoice {
        player,
        candidate_count: match s.pending_replacement {
            Some(p) => p.options.len() as usize,
            None => 0,
        },
    }
}

pub fn replacement_choice_waiting_for(player: PlayerId, state: &GameState) -> (r: WaitingFor)
    ensures
        r@ == spec_replacement_choice_waiting_for(state@, player),
{
    let n = match &state.pending_replacement {
        Some(p) => p.options.len(),
        None => 0,
    };
    WaitingFor::ReplacementChoice { player, candidate_count: n }
}

} // verus!
