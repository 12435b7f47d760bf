use vstd::prelude::*;

use crate::ability::Duration;
use crate::game::combat::{
    law_declared_blocks_mark_attackers_blocked,
    assign_damage_as_though_unblocked, attacker_pos, declare_attackers, declare_blockers, find_attacker,
    is_attacker, resolve_combat_damage, spec_declare_attackers, spec_declare_blockers,
    spec_resolve_combat_damage, spec_unblocked_assignments, target_when_unblocked, unblocked_target,
};
use crate::game::layers::{keeps_past_combat, prune_end_of_combat_effects};
use crate::game::turns::{
    advance_phase, auto_advance, begin_pending_trigger_target_selection, reset_priority,
    spec_advance_phase, spec_auto_advance, spec_pending_trigger_wait, spec_reset_priority,
};
use crate::game::zones::World;
use crate::seqs::{first_match, lemma_first_match, lemma_first_match_at};
use crate::state::{GameState, StateModel};
use crate::types::{
    evs, lemma_evs_push, ActionError, AttackTarget, AttackerInfo, CombatDamageAssignmentMode,
    CombatModel, CombatState, DamageAssignment, DamageSlot, DamageTarget, EngineError, GameEvent,
    GameEventView, ObjectId, Phase, PlayerId, TransientEffect, TrampleKind, WaitingFor,
    WaitingForView,
};

verus! {

pub open spec fn result_view(r: Result<WaitingFor, EngineError>) -> Result<WaitingForView, EngineError> {
    match r {
        Ok(w) => Ok(w@),
        Err(e) => Err(e),
    }
}

/// CR 508.8: with no attackers, combat ends: the turn goes to the end of combat
/// step, combat and end-of-combat effects are cleared, the turn moves on and the
/// active player gets priority.
pub open spec fn spec_end_combat(w: World) -> World {
    let s1 = StateModel {
        phase: Phase::EndCombat,
        combat: None,
        transient_effects: w.0.transient_effects.filter(|e: TransientEffect| keeps_past_combat(e)),
        ..w.0
    };
    let w2 = spec_advance_phase((s1, w.1.push(GameEventView::PhaseChanged { phase: Phase::EndCombat })));
    (spec_auto_advance(w2.0), w2.1)
}

fn end_combat(state: &mut GameState, events: &mut Vec<GameEvent>) -> (r: WaitingFor)
    ensures
        (final(state)@, evs(final(events)@)) == spec_end_combat((old(state)@, evs(old(events)@))),
        r@ == (WaitingForView::Priority { player: old(state).active_player }),
{
    state.phase = Phase::EndCombat;
    proof {
        lemma_evs_push(events@, GameEvent::PhaseChanged { phase: Phase::EndCombat });
    }
    events.push(GameEvent::PhaseChanged { phase: Phase::EndCombat });
    state.combat = None;
    prune_end_of_combat_effects(state);
    advance_phase(state, events);
    auto_advance(state, events)
}

/// Declaring attackers on behalf of `player`: only the active player may; then the
/// declaration is checked and made, a triggered ability needing targets takes over,
/// an empty declaration ends combat, and otherwise the active player gets priority.
pub open spec fn spec_handle_declare_attackers(
    w: World,
    player: PlayerId,
    attacks: Seq<(ObjectId, AttackTarget)>,
) -> (World, Result<WaitingForView, EngineError>) {
    if w.0.active_player != player {
        (w, Err(EngineError::WrongPlayer))
    } else {
        let (w1, r) = spec_declare_attackers(w, attacks);
        match r {
            Err(e) => (w1, Err(EngineError::InvalidAction(e))),
            Ok(_) => match spec_pending_trigger_wait(w1.0) {
                Some(v) => (w1, Ok(v)),
                None => if attacks.len() == 0 {
                    (spec_end_combat(w1), Ok(WaitingForView::Priority { player: w1.0.active_player }))
                } else {
                    (
                        (spec_reset_priority(w1.0), w1.1),
                        Ok(WaitingForView::Priority { player: w1.0.active_player }),
                    )
                },
            },
        }
    }
}

/// Declare attackers for `player` (see `spec_handle_declare_attackers`).
/// Triggered abilities are not collected here: this engine core does not model
/// trigger processing; a trigger already waiting for targets is honoured.
pub fn handle_declare_attackers(
    state: &mut GameState,
    player: PlayerId,
    attacks: &[(ObjectId, AttackTarget)],
    events: &mut Vec<GameEvent>,
) -> (r: Result<WaitingFor, EngineError>)
    ensures
        ((final(state)@, evs(final(events)@)), result_view(r)) == spec_handle_declare_attackers(
            (old(state)@, evs(old(events)@)),
            player,
            attacks@,
        ),
{
    if state.active_player != player {
        return Err(EngineError::WrongPlayer);
    }
    match declare_attackers(state, attacks, events) {
        Ok(()) => {},
        Err(e) => {
            return Err(EngineError::InvalidAction(e));
        },
    }
    if let Some(waiting_for) = begin_pending_trigger_target_selection(state) {
        return Ok(waiting_for);
    }
    if attacks.len() == 0 {
        Ok(end_combat(state, events))
    } else {
        reset_priority(state);
        Ok(WaitingFor::Priority { player: state.active_player })
    }
}

/// Declaring blockers: the declaration is checked and made, a triggered ability
/// needing targets takes over, and otherwise the active player gets priority.
pub open spec fn spec_handle_declare_blockers(w: World, blocks: Seq<(ObjectId, ObjectId)>) -> (World, Result<
    WaitingForView,
    EngineError,
>) {
    let (w1, r) = spec_declare_blockers(w, blocks);
    match r {
        Err(e) => (w1, Err(EngineError::InvalidAction(e))),
        Ok(_) => match spec_pending_trigger_wait(w1.0) {
            Some(v) => (w1, Ok(v)),
            None => (
                (spec_reset_priority(w1.0), w1.1),
                Ok(WaitingForView::Priority { player: w.0.active_player }),
            ),
        },
    }
}

/// Declare blockers (see `spec_handle_declare_blockers`).
/// Triggered abilities are not collected here: this engine core does not model
/// trigger processing; a trigger already waiting for targets is honoured.
pub fn handle_declare_blockers(
    state: &mut GameState,
    assignments: &[(ObjectId, ObjectId)],
    events: &mut Vec<GameEvent>,
) -> (r: Result<WaitingFor, EngineError>)
    ensures
        ((final(state)@, evs(final(events)@)), result_view(r)) == spec_handle_declare_blockers(
            (old(state)@, evs(old(events)@)),
            assignments@,
        ),
{
    match declare_blockers(state, assignments, events) {
        Ok(()) => {},
        Err(e) => {
            return Err(EngineError::InvalidAction(e));
        },
    }
    if let Some(waiting_for) = begin_pending_trigger_target_selection(state) {
        return Ok(waiting_for);
    }
    reset_priority(state);
    Ok(WaitingFor::Priority { player: state.active_player })
}

/// CR 508.8: declaring no attackers skips blockers and damage and ends combat.
pub open spec fn spec_handle_empty_attackers(w: World) -> (World, Result<WaitingForView, EngineError>) {
    let (w1, r) = spec_declare_attackers(w, Seq::empty());
    match r {
        Err(e) => (w1, Err(EngineError::InvalidAction(e))),
        Ok(_) => match spec_pending_trigger_wait(w1.0) {
            Some(v) => (w1, Ok(v)),
            None => (spec_end_combat(w1), Ok(WaitingForView::Priority { player: w.0.active_player })),
        },
    }
}

/// Declare no attackers (see `spec_handle_empty_attackers`).
/// Triggered abilities are not collected here: this engine core does not model
/// trigger processing; a trigger already waiting for targets is honoured.
pub fn handle_empty_attackers(state: &mut GameState, events: &mut Vec<GameEvent>) -> (r: Result<
    WaitingFor,
    EngineError,
>)
    ensures
        ((final(state)@, evs(final(events)@)), result_view(r)) == spec_handle_empty_attackers(
            (old(state)@, evs(old(events)@)),
        ),
{
    let none: [(ObjectId, AttackTarget); 0] = [];
    proof {
        assert(none@ =~= Seq::<(ObjectId, AttackTarget)>::empty());
    }
    match declare_attackers(state, &none, events) {
        Ok(()) => {},
        Err(e) => {
            return Err(EngineError::InvalidAction(e));
        },
    }
    if let Some(waiting_for) = begin_pending_trigger_target_selection(state) {
        return Ok(waiting_for);
    }
    Ok(end_combat(state, events))
}

/// Declaring no blockers: the turn moves on to combat damage.
pub open spec fn spec_handle_empty_blockers(w: World) -> (World, Result<WaitingForView, EngineError>) {
    let (w1, r) = spec_declare_blockers(w, Seq::empty());
    match r {
        Err(e) => (w1, Err(EngineError::InvalidAction(e))),
        Ok(_) => match spec_pending_trigger_wait(w1.0) {
            Some(v) => (w1, Ok(v)),
            None => {
                let w2 = spec_advance_phase(w1);
                ((spec_auto_advance(w2.0), w2.1), Ok(WaitingForView::Priority { player: w.0.active_player }))
            },
        },
    }
}

/// Declare no blockers (see `spec_handle_empty_blockers`).
/// Triggered abilities are not collected here: this engine core does not model
/// trigger processing; a trigger already waiting for targets is honoured.
pub fn handle_empty_blockers(state: &mut GameState, events: &mut Vec<GameEvent>) -> (r: Result<
    WaitingFor,
    EngineError,
>)
    ensures
        ((final(state)@, evs(final(events)@)), result_view(r)) == spec_handle_empty_blockers(
            (old(state)@, evs(old(events)@)),
        ),
{
    let none: [(ObjectId, ObjectId); 0] = [];
    proof {
        assert(none@ =~= Seq::<(ObjectId, ObjectId)>::empty());
    }
    match declare_blockers(state, &none, events) {
        Ok(()) => {},
        Err(e) => {
            return Err(EngineError::InvalidAction(e));
        },
    }
    if let Some(waiting_for) = begin_pending_trigger_target_selection(state) {
        return Ok(waiting_for);
    }
    advance_phase(state, events);
    Ok(auto_advance(state, events))
}

/// Total of the amounts in an assignment list.
pub open spec fn assignment_sum(a: Seq<(ObjectId, u32)>) -> int
    decreases a.len(),
{
    if a.len() == 0 {
        0
    } else {
        assignment_sum(a.drop_last()) + a.last().1
    }
}

proof fn lemma_assignment_sum_prefix(a: Seq<(ObjectId, u32)>, k: int)
    requires
        0 <= k <= a.len(),
    ensures
        0 <= assignment_sum(a.take(k)) <= assignment_sum(a),
    decreases a.len() - k,
{
    if k < a.len() {
        lemma_assignment_sum_prefix(a, k + 1);
        assert(a.take(k + 1).drop_last() =~= a.take(k));
    } else {
        assert(a.take(k) =~= a);
    }
    lemma_assignment_sum_nonneg(a.take(k));
}

proof fn lemma_assignment_sum_nonneg(a: Seq<(ObjectId, u32)>)
    ensures
        assignment_sum(a) >= 0,
    decreases a.len(),
{
    if a.len() > 0 {
        lemma_assignment_sum_nonneg(a.drop_last());
    }
}

pub open spec fn for_blocker(b: ObjectId) -> spec_fn((ObjectId, u32)) -> bool {
    |p: (ObjectId, u32)| p.0 == b
}

/// The damage assigned to blocker `b` (the first assignment naming it), or 0.
pub open spec fn assigned_to(a: Seq<(ObjectId, u32)>, b: ObjectId) -> u32 {
    let k = first_match(a, for_blocker(b));
    if k >= 0 {
        a[k].1
    } else {
        0
    }
}

pub open spec fn is_blocker_of(slots: Seq<DamageSlot>, id: ObjectId) -> bool {
    exists|k: int| 0 <= k < slots.len() && (#[trigger] slots[k]).blocker_id == id
}

pub open spec fn names_non_blocker(slots: Seq<DamageSlot>) -> spec_fn((ObjectId, u32)) -> bool {
    |p: (ObjectId, u32)| !is_blocker_of(slots, p.0)
}

pub open spec fn under_lethal(a: Seq<(ObjectId, u32)>) -> spec_fn(DamageSlot) -> bool {
    |sl: DamageSlot| assigned_to(a, sl.blocker_id) < sl.lethal_minimum
}

/// What is wrong with a combat damage assignment, checked in this order: the mode
/// must be offered; an as-though-unblocked assignment takes no splits and needs the
/// attacker in combat; otherwise the assigned total must equal the attacker's damage
/// (0 when it has neither blockers nor trample), every assignment must name one of
/// its blockers, excess damage needs trample, damage to a planeswalker's controller
/// needs trample over planeswalkers against a planeswalker and at least its loyalty
/// to the planeswalker, and with trample every blocker must get its lethal minimum.
pub open spec fn spec_assignment_error(
    s: StateModel,
    attacker_id: ObjectId,
    total_damage: u32,
    blockers: Seq<DamageSlot>,
    assignment_modes: Seq<CombatDamageAssignmentMode>,
    trample: Option<TrampleKind>,
    attack_target: AttackTarget,
    pw_loyalty: Option<u32>,
    pw_controller: Option<PlayerId>,
    mode: CombatDamageAssignmentMode,
    assignments: Seq<(ObjectId, u32)>,
    trample_damage: u32,
    controller_damage: u32,
) -> Option<ActionError> {
    if !assignment_modes.contains(mode) {
        Some(ActionError::ModeNotAllowed { mode, attacker_id })
    } else if mode == CombatDamageAssignmentMode::AsThoughUnblocked {
        if assignments.len() > 0 || trample_damage > 0 || controller_damage > 0 {
            Some(ActionError::SplitsWithUnblockedMode)
        } else if match s.combat {
            Some(c) => attacker_pos(c, attacker_id) < 0,
            None => true,
        } {
            Some(ActionError::AttackerNotInCombat { attacker_id })
        } else {
            None
        }
    } else {
        let assigned = assignment_sum(assignments) + trample_damage + controller_damage;
        let expected: u32 = if blockers.len() == 0 && trample is None {
            0
        } else {
            total_damage
        };
        if assigned != expected {
            Some(ActionError::TotalMismatch { assigned: assigned as u32, expected })
        } else if first_match(assignments, names_non_blocker(blockers)) >= 0 {
            Some(
                ActionError::NotABlocker {
                    blocker_id: assignments[first_match(assignments, names_non_blocker(blockers))].0,
                    attacker_id,
                },
            )
        } else if (trample_damage > 0 || controller_damage > 0) && trample is None {
            Some(ActionError::TrampleRequired)
        } else if controller_damage > 0 && !(trample == Some(TrampleKind::OverPlaneswalkers)
            && pw_controller is Some && attack_target is Planeswalker) {
            Some(ActionError::ControllerDamageNotAllowed)
        } else if controller_damage > 0 && trample_damage < match pw_loyalty {
            Some(l) => l,
            None => 0,
        } {
            Some(
                ActionError::PlaneswalkerNotLethal {
                    loyalty_threshold: match pw_loyalty {
                        Some(l) => l,
                        None => 0,
                    },
                    controller_damage,
                },
            )
        } else if trample is Some && first_match(blockers, under_lethal(assignments)) >= 0 {
            let sl = blockers[first_match(blockers, under_lethal(assignments))];
            Some(
                ActionError::BlockerNotLethal {
                    blocker_id: sl.blocker_id,
                    lethal_minimum: sl.lethal_minimum,
                },
            )
        } else {
            None
        }
    }
}

/// The damage each blocker is assigned, in order, skipping zero amounts.
pub open spec fn blocker_damage(attacker_id: ObjectId, a: Seq<(ObjectId, u32)>) -> Seq<
    (ObjectId, DamageAssignment),
>
    decreases a.len(),
{
    if a.len() == 0 {
        Seq::empty()
    } else {
        let rest = blocker_damage(attacker_id, a.drop_last());
        if a.last().1 > 0 {
            rest.push(
                (
                    attacker_id,
                    DamageAssignment { target: DamageTarget::Object(a.last().0), amount: a.last().1 },
                ),
            )
        } else {
            rest
        }
    }
}

/// The damage an accepted ordinary assignment queues: each blocker's share; excess
/// trample damage to where unblocked damage would go; and damage to the
/// planeswalker's controller.
pub open spec fn normal_pending(
    s: StateModel,
    attacker_id: ObjectId,
    assignments: Seq<(ObjectId, u32)>,
    trample: Option<TrampleKind>,
    attack_target: AttackTarget,
    defending_player: PlayerId,
    trample_damage: u32,
    controller_damage: u32,
    pw_controller: Option<PlayerId>,
) -> Seq<(ObjectId, DamageAssignment)> {
    blocker_damage(attacker_id, assignments) + (if trample_damage > 0 {
        match unblocked_target(s, attack_target, trample, defending_player) {
            Some(t) => seq![(attacker_id, DamageAssignment { target: t, amount: trample_damage })],
            None => Seq::empty(),
        }
    } else {
        Seq::empty()
    }) + (if controller_damage > 0 {
        match pw_controller {
            Some(c) => seq![
                (attacker_id, DamageAssignment { target: DamageTarget::Player(c), amount: controller_damage }),
            ],
            None => Seq::empty(),
        }
    } else {
        Seq::empty()
    })
}

/// The state with more damage queued and the damage step advanced, when in combat.
pub open spec fn with_pending(s: StateModel, extra: Seq<(ObjectId, DamageAssignment)>) -> StateModel {
    match s.combat {
        Some(c) => StateModel {
            combat: Some(
                CombatModel {
                    pending_damage: c.pending_damage + extra,
                    damage_step_index: Some(
                        (match c.damage_step_index {
                            Some(i) => i,
                            None => 0,
                        } + 1) as u32,
                    ),
                    ..c
                },
            ),
            ..s
        },
        None => s,
    }
}

/// Queued damage is dealt; unless the game is over, `player` gets priority.
pub open spec fn spec_finish_damage(w: World, player: PlayerId) -> (World, Result<WaitingForView, EngineError>) {
    let (w2, over) = spec_resolve_combat_damage(w);
    match over {
        Some(v) => (w2, Ok(v)),
        None => ((spec_reset_priority(w2.0), w2.1), Ok(WaitingForView::Priority { player })),
    }
}

pub open spec fn with_attacker(a: ObjectId) -> spec_fn(DamageAssignment) -> (ObjectId, DamageAssignment) {
    |d: DamageAssignment| (a, d)
}

/// CR 510.1: assigning an attacker's combat damage. A refused assignment changes
/// nothing. An accepted one queues the damage, advances the damage step, and deals
/// all queued damage.
pub open spec fn spec_handle_assign_combat_damage(
    w: World,
    player: PlayerId,
    attacker_id: ObjectId,
    total_damage: u32,
    blockers: Seq<DamageSlot>,
    assignment_modes: Seq<CombatDamageAssignmentMode>,
    trample: Option<TrampleKind>,
    defending_player: PlayerId,
    attack_target: AttackTarget,
    pw_loyalty: Option<u32>,
    pw_controller: Option<PlayerId>,
    mode: CombatDamageAssignmentMode,
    assignments: Seq<(ObjectId, u32)>,
    trample_damage: u32,
    controller_damage: u32,
) -> (World, Result<WaitingForView, EngineError>) {
    match spec_assignment_error(
        w.0,
        attacker_id,
        total_damage,
        blockers,
        assignment_modes,
        trample,
        attack_target,
        pw_loyalty,
        pw_controller,
        mode,
        assignments,
        trample_damage,
        controller_damage,
    ) {
        Some(e) => (w, Err(EngineError::InvalidAction(e))),
        None => {
            let extra = if mode == CombatDamageAssignmentMode::AsThoughUnblocked {
                let c = w.0.combat.unwrap();
                let info = c.attackers[attacker_pos(c, attacker_id)];
                spec_unblocked_assignments(w.0, info, total_damage, trample).map_values(
                    with_attacker(attacker_id),
                )
            } else {
                normal_pending(
                    w.0,
                    attacker_id,
                    assignments,
                    trample,
                    attack_target,
                    defending_player,
                    trample_damage,
                    controller_damage,
                    pw_controller,
                )
            };
            spec_finish_damage((with_pending(w.0, extra), w.1), player)
        },
    }
}

/// The precondition of a damage assignment: when the assignment will be accepted,
/// the damage step counter can still advance; and an ordinary assignment's amounts
/// add up without overflowing.
pub open spec fn assignment_fits(
    s: StateModel,
    attacker_id: ObjectId,
    total_damage: u32,
    blockers: Seq<DamageSlot>,
    assignment_modes: Seq<CombatDamageAssignmentMode>,
    trample: Option<TrampleKind>,
    attack_target: AttackTarget,
    pw_loyalty: Option<u32>,
    pw_controller: Option<PlayerId>,
    mode: CombatDamageAssignmentMode,
    assignments: Seq<(ObjectId, u32)>,
    trample_damage: u32,
    controller_damage: u32,
) -> bool {
    &&& spec_assignment_error(
        s,
        attacker_id,
        total_damage,
        blockers,
        assignment_modes,
        trample,
        attack_target,
        pw_loyalty,
        pw_controller,
        mode,
        assignments,
        trample_damage,
        controller_damage,
    ) is None ==> (s.combat matches Some(c) ==> (c.damage_step_index matches Some(i) ==> i < u32::MAX))
    &&& (mode == CombatDamageAssignmentMode::Normal && assignment_modes.contains(mode))
        ==> assignment_sum(assignments) + trample_damage + controller_damage <= u32::MAX
}

fn mode_offered(modes: &[CombatDamageAssignmentMode], mode: CombatDamageAssignmentMode) -> (r: bool)
    ensures
        r == modes@.contains(mode),
{
    let mut i: usize = 0;
    while i < modes.len()
        invariant
            i <= modes@.len(),
            forall|j: int| 0 <= j < i ==> modes@[j] != mode,
        decreases modes@.len() - i,
    {
        if modes[i] == mode {
            return true;
        }
        i += 1;
    }
    false
}

fn queue_damage(state: &mut GameState, extra: Vec<(ObjectId, DamageAssignment)>)
    requires
        old(state)@.combat matches Some(c) ==> (c.damage_step_index matches Some(i) ==> i < u32::MAX),
    ensures
        final(state)@ == with_pending(old(state)@, extra@),
{
    match state.combat.take() {
        Some(c) => {
            let CombatState { attackers, blocks, mut pending_damage, damage_step_index } = c;
            let ghost p0 = pending_damage@;
            let mut extra = extra;
            pending_damage.append(&mut extra);
            let next = match damage_step_index {
                Some(i) => i + 1,
                None => 1,
            };
            state.combat = Some(
                CombatState { attackers, blocks, pending_damage, damage_step_index: Some(next) },
            );
        },
        None => {},
    }
}

fn blocker_damage_exec(attacker_id: ObjectId, assignments: &[(ObjectId, u32)]) -> (r: Vec<
    (ObjectId, DamageAssignment),
>)
    ensures
        r@ == blocker_damage(attacker_id, assignments@),
{
    let mut out: Vec<(ObjectId, DamageAssignment)> = Vec::new();
    let mut i: usize = 0;
    while i < assignments.len()
        invariant
            i <= assignments@.len(),
            out@ == blocker_damage(attacker_id, assignments@.take(i as int)),
        decreases assignments@.len() - i,
    {
        let (b, amount) = assignments[i];
        proof {
            assert(assignments@.take(i + 1).drop_last() =~= assignments@.take(i as int));
        }
        if amount > 0 {
            out.push((attacker_id, DamageAssignment { target: DamageTarget::Object(b), amount }));
        }
        i += 1;
    }
    assert(assignments@.take(assignments@.len() as int) =~= assignments@);
    out
}

fn finish_damage(state: &mut GameState, player: PlayerId, events: &mut Vec<GameEvent>) -> (r: Result<
    WaitingFor,
    EngineError,
>)
    ensures
        ((final(state)@, evs(final(events)@)), result_view(r)) == spec_finish_damage(
            (old(state)@, evs(old(events)@)),
            player,
        ),
{
    if let Some(waiting_for) = resolve_combat_damage(state, events) {
        return Ok(waiting_for);
    }
    reset_priority(state);
    Ok(WaitingFor::Priority { player })
}

/// Check and apply a combat damage assignment for one attacker.
#[allow(clippy::too_many_arguments)]
#[verifier::loop_isolation(false)]
pub fn handle_assign_combat_damage(
    state: &mut GameState,
    player: PlayerId,
    attacker_id: ObjectId,
    total_damage: u32,
    blockers: &[DamageSlot],
    assignment_modes: &[CombatDamageAssignmentMode],
    trample: Option<TrampleKind>,
    defending_player: PlayerId,
    attack_target: &AttackTarget,
    pw_loyalty: Option<u32>,
    pw_controller: Option<PlayerId>,
    mode: CombatDamageAssignmentMode,
    assignments: &[(ObjectId, u32)],
    trample_damage: u32,
    controller_damage: u32,
    events: &mut Vec<GameEvent>,
) -> (r: Result<WaitingFor, EngineError>)
    requires
        assignment_fits(
            old(state)@,
            attacker_id,
            total_damage,
            blockers@,
            assignment_modes@,
            trample,
            *attack_target,
            pw_loyalty,
            pw_controller,
            mode,
            assignments@,
            trample_damage,
            controller_damage,
        ),
    ensures
        ((final(state)@, evs(final(events)@)), result_view(r)) == spec_handle_assign_combat_damage(
            (old(state)@, evs(old(events)@)),
            player,
            attacker_id,
            total_damage,
            blockers@,
            assignment_modes@,
            trample,
            defending_player,
            *attack_target,
            pw_loyalty,
            pw_controller,
            mode,
            assignments@,
            trample_damage,
            controller_damage,
        ),
{
    if !mode_offered(assignment_modes, mode) {
        return Err(EngineError::InvalidAction(ActionError::ModeNotAllowed { mode, attacker_id }));
    }
    if mode == CombatDamageAssignmentMode::AsThoughUnblocked {
        if assignments.len() > 0 || trample_damage > 0 || controller_damage > 0 {
            return Err(EngineError::InvalidAction(ActionError::SplitsWithUnblockedMode));
        }
        let info: AttackerInfo = match &state.combat {
            Some(c) => match find_attacker(&c.attackers, attacker_id) {
                Some(k) => c.attackers[k],
                None => {
                    return Err(
                        EngineError::InvalidAction(ActionError::AttackerNotInCombat { attacker_id }),
                    );
                },
            },
            None => {
                return Err(EngineError::InvalidAction(ActionError::AttackerNotInCombat { attacker_id }));
            },
        };
        let damage = assign_damage_as_though_unblocked(state, &info, total_damage, trample);
        let mut extra: Vec<(ObjectId, DamageAssignment)> = Vec::new();
        let mut i: usize = 0;
        while i < damage.len()
            invariant
                i <= damage@.len(),
                extra@ == damage@.take(i as int).map_values(with_attacker(attacker_id)),
            decreases damage@.len() - i,
        {
            extra.push((attacker_id, damage[i]));
            proof {
                assert(extra@ =~= damage@.take(i + 1).map_values(with_attacker(attacker_id)));
            }
            i += 1;
        }
        assert(damage@.take(damage@.len() as int) =~= damage@);
        queue_damage(state, extra);
        return finish_damage(state, player, events);
    }
    // Ordinary assignment: totals.
    let mut sum: u64 = 0;
    let mut i: usize = 0;
    while i < assignments.len()
        invariant
            i <= assignments@.len(),
            sum == assignment_sum(assignments@.take(i as int)),
            assignment_sum(assignments@) + trample_damage + controller_damage <= u32::MAX,
        decreases assignments@.len() - i,
    {
        proof {
            assert(assignments@.take(i + 1).drop_last() =~= assignments@.take(i as int));
            lemma_assignment_sum_prefix(assignments@, i + 1);
        }
        sum = sum + assignments[i].1 as u64;
        i += 1;
    }
    assert(assignments@.take(assignments@.len() as int) =~= assignments@);
    let assigned_total = sum + trample_damage as u64 + controller_damage as u64;
    let expected_total: u32 = if blockers.len() == 0 && trample.is_none() {
        0
    } else {
        total_damage
    };
    if assigned_total != expected_total as u64 {
        return Err(
            EngineError::InvalidAction(
                ActionError::TotalMismatch { assigned: assigned_total as u32, expected: expected_total },
            ),
        );
    }
    // Every assignment must name a blocker of this attacker.
    proof {
        lemma_first_match(assignments@, names_non_blocker(blockers@));
    }
    let mut a: usize = 0;
    while a < assignments.len()
        invariant
            a <= assignments@.len(),
            forall|j: int| 0 <= j < a ==> is_blocker_of(blockers@, (#[trigger] assignments@[j]).0),
        decreases assignments@.len() - a,
    {
        let id = assignments[a].0;
        let mut found = false;
        let mut b: usize = 0;
        while b < blockers.len()
            invariant
                b <= blockers@.len(),
                found == exists|k: int| 0 <= k < b && (#[trigger] blockers@[k]).blocker_id == id,
            decreases blockers@.len() - b,
        {
            if blockers[b].blocker_id == id {
                found = true;
            }
            b += 1;
        }
        if !found {
            proof {
                assert(!is_blocker_of(blockers@, id));
                assert forall|j: int| 0 <= j < a implies !names_non_blocker(blockers@)(
                    #[trigger] assignments@[j],
                ) by {}
                lemma_first_match_at(assignments@, names_non_blocker(blockers@), a as int);
            }
            return Err(
                EngineError::InvalidAction(ActionError::NotABlocker { blocker_id: id, attacker_id }),
            );
        }
        a += 1;
    }
    proof {
        assert forall|j: int| 0 <= j < assignments@.len() implies !names_non_blocker(blockers@)(
            #[trigger] assignments@[j],
        ) by {}
    }
    if (trample_damage > 0 || controller_damage > 0) && trample.is_none() {
        return Err(EngineError::InvalidAction(ActionError::TrampleRequired));
    }
    if controller_damage > 0 {
        let is_pw = match attack_target {
            AttackTarget::Planeswalker(_) => true,
            _ => false,
        };
        let is_valid = trample == Some(TrampleKind::OverPlaneswalkers) && pw_controller.is_some()
            && is_pw;
        if !is_valid {
            return Err(EngineError::InvalidAction(ActionError::ControllerDamageNotAllowed));
        }
        let loyalty_threshold = match pw_loyalty {
            Some(l) => l,
            None => 0,
        };
        if trample_damage < loyalty_threshold {
            return Err(
                EngineError::InvalidAction(
                    ActionError::PlaneswalkerNotLethal { loyalty_threshold, controller_damage },
                ),
            );
        }
    }
    if trample.is_some() {
        proof {
            lemma_first_match(blockers@, under_lethal(assignments@));
        }
        let mut k: usize = 0;
        while k < blockers.len()
            invariant
                k <= blockers@.len(),
                forall|j: int| 0 <= j < k ==> !under_lethal(assignments@)(#[trigger] blockers@[j]),
            decreases blockers@.len() - k,
        {
            let slot = blockers[k];
            proof {
                lemma_first_match(assignments@, for_blocker(slot.blocker_id));
            }
            let mut assigned: u32 = 0;
            let mut done = false;
            let mut q: usize = 0;
            while q < assignments.len() && !done
                invariant
                    q <= assignments@.len(),
                    done ==> assigned == assigned_to(assignments@, slot.blocker_id),
                    !done ==> assigned == 0 && forall|j: int| 0 <= j < q ==> (
                    #[trigger] assignments@[j]).0 != slot.blocker_id,
                decreases assignments@.len() - q,
            {
                if assignments[q].0 == slot.blocker_id {
                    proof {
                        assert forall|j: int| 0 <= j < q implies !for_blocker(slot.blocker_id)(
                            #[trigger] assignments@[j],
                        ) by {}
                        lemma_first_match_at(assignments@, for_blocker(slot.blocker_id), q as int);
                    }
                    assigned = assignments[q].1;
                    done = true;
                }
                q += 1;
            }
            proof {
                if !done {
                    assert forall|j: int| 0 <= j < assignments@.len() implies !for_blocker(
                        slot.blocker_id,
                    )(#[trigger] assignments@[j]) by {}
                }
                assert(assigned == assigned_to(assignments@, slot.blocker_id));
            }
            if assigned < slot.lethal_minimum {
                proof {
                    lemma_first_match_at(blockers@, under_lethal(assignments@), k as int);
                }
                return Err(
                    EngineError::InvalidAction(
                        ActionError::BlockerNotLethal {
                            blocker_id: slot.blocker_id,
                            lethal_minimum: slot.lethal_minimum,
                        },
                    ),
                );
            }
            k += 1;
        }
    }
    // Accepted: queue the damage.
    let mut extra = blocker_damage_exec(attacker_id, assignments);
    if trample_damage > 0 {
        match target_when_unblocked(state, *attack_target, trample, defending_player) {
            Some(t) => extra.push((attacker_id, DamageAssignment { target: t, amount: trample_damage })),
            None => {},
        }
    }
    if controller_damage > 0 {
        match pw_controller {
            Some(c) => extra.push(
                (attacker_id, DamageAssignment { target: DamageTarget::Player(c), amount: controller_damage }),
            ),
            None => {},
        }
    }
    assert(extra@ =~= normal_pending(
        state@,
        attacker_id,
        assignments@,
        trample,
        *attack_target,
        defending_player,
        trample_damage,
        controller_damage,
        pw_controller,
    ));
    queue_damage(state, extra);
    finish_damage(state, player, events)
}

/// CR 510.1: an accepted ordinary damage assignment hands out exactly the damage that
/// must be assigned (all of it, or none for an attacker that is unblocked and has
/// no trample), names only the attacker's blockers, and with trample gives each
/// blocker at least lethal damage.
pub proof fn law_accepted_assignment_adds_up(
    s: StateModel,
    attacker_id: ObjectId,
    total_damage: u32,
    blockers: Seq<DamageSlot>,
    assignment_modes: Seq<CombatDamageAssignmentMode>,
    trample: Option<TrampleKind>,
    attack_target: AttackTarget,
    pw_loyalty: Option<u32>,
    pw_controller: Option<PlayerId>,
    assignments: Seq<(ObjectId, u32)>,
    trample_damage: u32,
    controller_damage: u32,
)
    requires
        spec_assignment_error(
            s,
            attacker_id,
            total_damage,
            blockers,
            assignment_modes,
            trample,
            attack_target,
            pw_loyalty,
            pw_controller,
            CombatDamageAssignmentMode::Normal,
            assignments,
            trample_damage,
            controller_damage,
        ) is None,
    ensures
        assignment_sum(assignments) + trample_damage + controller_damage == if blockers.len() == 0
            && trample is None {
            0
        } else {
            total_damage as int
        },
        forall|k: int| 0 <= k < assignments.len() ==> is_blocker_of(blockers, #[trigger] assignments[k].0),
        trample is Some ==> forall|k: int|
            0 <= k < blockers.len() ==> assigned_to(assignments, (#[trigger] blockers[k]).blocker_id)
                >= blockers[k].lethal_minimum,
{
    lemma_first_match(assignments, names_non_blocker(blockers));
    lemma_first_match(blockers, under_lethal(assignments));
    assert forall|k: int| 0 <= k < assignments.len() implies is_blocker_of(
        blockers,
        #[trigger] assignments[k].0,
    ) by {
        assert(!names_non_blocker(blockers)(assignments[k]));
    }
    if trample is Some {
        assert forall|k: int| 0 <= k < blockers.len() implies assigned_to(
            assignments,
            (#[trigger] blockers[k]).blocker_id,
        ) >= blockers[k].lethal_minimum by {
            assert(!under_lethal(assignments)(blockers[k]));
        }
    }
}

/// CR 510.1: a refused damage assignment changes nothing.
pub proof fn law_refused_assignment_changes_nothing(
    w: World,
    player: PlayerId,
    attacker_id: ObjectId,
    total_damage: u32,
    blockers: Seq<DamageSlot>,
    assignment_modes: Seq<CombatDamageAssignmentMode>,
    trample: Option<TrampleKind>,
    defending_player: PlayerId,
    attack_target: AttackTarget,
    pw_loyalty: Option<u32>,
    pw_controller: Option<PlayerId>,
    mode: CombatDamageAssignmentMode,
    assignments: Seq<(ObjectId, u32)>,
    trample_damage: u32,
    controller_damage: u32,
)
    ensures
        spec_handle_assign_combat_damage(
            w,
            player,
            attacker_id,
            total_damage,
            blockers,
            assignment_modes,
            trample,
            defending_player,
            attack_target,
            pw_loyalty,
            pw_controller,
            mode,
            assignments,
            trample_damage,
            controller_damage,
        ).1 is Err ==> spec_handle_assign_combat_damage(
            w,
            player,
            attacker_id,
            total_damage,
            blockers,
            assignment_modes,
            trample,
            defending_player,
            attack_target,
            pw_loyalty,
            pw_controller,
            mode,
            assignments,
            trample_damage,
            controller_damage,
        ).0 == w,
{
    let r = spec_handle_assign_combat_damage(
        w,
        player,
        attacker_id,
        total_damage,
        blockers,
        assignment_modes,
        trample,
        defending_player,
        attack_target,
        pw_loyalty,
        pw_controller,
        mode,
        assignments,
        trample_damage,
        controller_damage,
    );
    if spec_assignment_error(
        w.0,
        attacker_id,
        total_damage,
        blockers,
        assignment_modes,
        trample,
        attack_target,
        pw_loyalty,
        pw_controller,
        mode,
        assignments,
        trample_damage,
        controller_damage,
    ) is None {
        let (w2, over) = spec_resolve_combat_damage(
            (
                with_pending(
                    w.0,
                    if mode == CombatDamageAssignmentMode::AsThoughUnblocked {
                        let c = w.0.combat.unwrap();
                        let info = c.attackers[attacker_pos(c, attacker_id)];
                        spec_unblocked_assignments(w.0, info, total_damage, trample).map_values(
                            with_attacker(attacker_id),
                        )
                    } else {
                        normal_pending(
                            w.0,
                            attacker_id,
                            assignments,
                            trample,
                            attack_target,
                            defending_player,
                            trample_damage,
                            controller_damage,
                            pw_controller,
                        )
                    },
                ),
                w.1,
            ),
        );
        assert(r.1 is Ok);
    }
}

/// CR 508.8: declaring no attackers through the empty-attackers handler has exactly
/// the effect and answer of the active player declaring an empty set of attackers.
pub proof fn law_empty_attackers_is_declaring_none(w: World)
    ensures
        spec_handle_empty_attackers(w) == spec_handle_declare_attackers(
            w,
            w.0.active_player,
            Seq::<(ObjectId, AttackTarget)>::empty(),
        ),
{
}

/// CR 509.1h: when a declaration of blockers is accepted, the combat the engine
/// leaves has every attacker named by a block marked blocked, and an attacker named
/// by no block keeps its flag.
pub proof fn law_accepted_blocks_leave_attackers_blocked(w: World, blocks: Seq<(ObjectId, ObjectId)>)
    requires
        spec_handle_declare_blockers(w, blocks).1 is Ok,
    ensures
        ({
            let c = w.0.combat.unwrap();
            let c2 = spec_handle_declare_blockers(w, blocks).0.0.combat.unwrap();
            &&& w.0.combat is Some
            &&& spec_handle_declare_blockers(w, blocks).0.0.combat is Some
            &&& c2.attackers.len() == c.attackers.len()
            &&& forall|i: int|
                0 <= i < c.attackers.len() ==> {
                    &&& (#[trigger] c2.attackers[i]).object_id == c.attackers[i].object_id
                    &&& (exists|j: int| 0 <= j < blocks.len() && blocks[j].1 == c.attackers[i].object_id)
                        ==> c2.attackers[i].blocked
                    &&& (forall|j: int| 0 <= j < blocks.len() ==> blocks[j].1 != c.attackers[i].object_id)
                        ==> c2.attackers[i].blocked == c.attackers[i].blocked
                }
        }),
{
    law_declared_blocks_mark_attackers_blocked(w, blocks);
}

proof fn lemma_blocker_damage_targets_objects(attacker_id: ObjectId, a: Seq<(ObjectId, u32)>)
    ensures
        forall|k: int|
            0 <= k < blocker_damage(attacker_id, a).len() ==> (#[trigger] blocker_damage(attacker_id, a)[k]).0
                == attacker_id && blocker_damage(attacker_id, a)[k].1.target is Object,
    decreases a.len(),
{
    if a.len() > 0 {
        lemma_blocker_damage_targets_objects(attacker_id, a.drop_last());
    }
}

/// CR 702.19c, 510.1c: in an accepted ordinary assignment, the excess trample damage
/// goes to what the attacker attacks: the attacked player; the attacked planeswalker,
/// or battle, while it is on the battlefield. Only the attacker deals the queued
/// damage, and when it attacks a planeswalker or battle that is still there and
/// assigns nothing to a controller, no player is dealt any of it. The queued damage
/// is then dealt as every assignment's is.
pub proof fn law_trample_excess_goes_to_what_is_attacked(
    w: World,
    player: PlayerId,
    attacker_id: ObjectId,
    total_damage: u32,
    blockers: Seq<DamageSlot>,
    assignment_modes: Seq<CombatDamageAssignmentMode>,
    trample: Option<TrampleKind>,
    defending_player: PlayerId,
    attack_target: AttackTarget,
    pw_loyalty: Option<u32>,
    pw_controller: Option<PlayerId>,
    assignments: Seq<(ObjectId, u32)>,
    trample_damage: u32,
    controller_damage: u32,
)
    requires
        spec_assignment_error(
            w.0,
            attacker_id,
            total_damage,
            blockers,
            assignment_modes,
            trample,
            attack_target,
            pw_loyalty,
            pw_controller,
            CombatDamageAssignmentMode::Normal,
            assignments,
            trample_damage,
            controller_damage,
        ) is None,
        trample_damage > 0,
    ensures
        exists|extra: Seq<(ObjectId, DamageAssignment)>|
            #![trigger with_pending(w.0, extra)]
            {
                &&& spec_handle_assign_combat_damage(
                    w,
                    player,
                    attacker_id,
                    total_damage,
                    blockers,
                    assignment_modes,
                    trample,
                    defending_player,
                    attack_target,
                    pw_loyalty,
                    pw_controller,
                    CombatDamageAssignmentMode::Normal,
                    assignments,
                    trample_damage,
                    controller_damage,
                ) == spec_finish_damage((with_pending(w.0, extra), w.1), player)
                &&& forall|k: int| 0 <= k < extra.len() ==> (#[trigger] extra[k]).0 == attacker_id
                &&& (attack_target matches AttackTarget::Player(p) ==> extra.contains(
                    (attacker_id, DamageAssignment { target: DamageTarget::Player(p), amount: trample_damage }),
                ))
                &&& (attack_target matches AttackTarget::Planeswalker(pw) ==> (w.0.on_battlefield(pw)
                    ==> extra.contains(
                    (attacker_id, DamageAssignment { target: DamageTarget::Object(pw), amount: trample_damage }),
                )))
                &&& (attack_target matches AttackTarget::Battle(b) ==> (w.0.on_battlefield(b) ==> extra.contains(
                    (attacker_id, DamageAssignment { target: DamageTarget::Object(b), amount: trample_damage }),
                )))
                &&& ((controller_damage == 0 && match attack_target {
                    AttackTarget::Player(_) => false,
                    AttackTarget::Planeswalker(pw) => w.0.on_battlefield(pw),
                    AttackTarget::Battle(b) => w.0.on_battlefield(b),
                }) ==> forall|k: int| 0 <= k < extra.len() ==> !((#[trigger] extra[k]).1.target is Player))
            },
{
    let extra = normal_pending(
        w.0,
        attacker_id,
        assignments,
        trample,
        attack_target,
        defending_player,
        trample_damage,
        controller_damage,
        pw_controller,
    );
    assert(spec_handle_assign_combat_damage(
        w,
        player,
        attacker_id,
        total_damage,
        blockers,
        assignment_modes,
        trample,
        defending_player,
        attack_target,
        pw_loyalty,
        pw_controller,
        CombatDamageAssignmentMode::Normal,
        assignments,
        trample_damage,
        controller_damage,
    ) == spec_finish_damage((with_pending(w.0, extra), w.1), player));
    let bd = blocker_damage(attacker_id, assignments);
    lemma_blocker_damage_targets_objects(attacker_id, assignments);
    let t = unblocked_target(w.0, attack_target, trample, defending_player);
    if let Some(tt) = t {
        assert(extra[bd.len() as int] == (attacker_id, DamageAssignment { target: tt, amount: trample_damage }));
    }
    assert forall|k: int| 0 <= k < extra.len() implies (#[trigger] extra[k]).0 == attacker_id by {
        if k < bd.len() {
            assert(extra[k] == bd[k]);
        }
    }
    if controller_damage == 0 && match attack_target {
        AttackTarget::Player(_) => false,
        AttackTarget::Planeswalker(pw) => w.0.on_battlefield(pw),
        AttackTarget::Battle(b) => w.0.on_battlefield(b),
    } {
        assert forall|k: int| 0 <= k < extra.len() implies !((#[trigger] extra[k]).1.target is Player) by {
            if k < bd.len() {
                assert(extra[k] == bd[k]);
            }
        }
    }
}


/// The queued share of assignment `a`: the attacker deals `a.1` to blocker `a.0`.
pub open spec fn blocker_share(attacker_id: ObjectId, a: (ObjectId, u32)) -> (ObjectId, DamageAssignment) {
    (attacker_id, DamageAssignment { target: DamageTarget::Object(a.0), amount: a.1 })
}

proof fn lemma_blocker_damage_shares(attacker_id: ObjectId, a: Seq<(ObjectId, u32)>)
    ensures
        forall|k: int|
            0 <= k < a.len() && (#[trigger] a[k]).1 > 0 ==> blocker_damage(attacker_id, a).contains(
                blocker_share(attacker_id, a[k]),
            ),
        forall|m: int|
            0 <= m < blocker_damage(attacker_id, a).len() ==> exists|k: int|
                0 <= k < a.len() && a[k].1 > 0 && #[trigger] blocker_damage(attacker_id, a)[m] == blocker_share(
                    attacker_id,
                    #[trigger] a[k],
                ),
    decreases a.len(),
{
    if a.len() > 0 {
        let init = a.drop_last();
        lemma_blocker_damage_shares(attacker_id, init);
        let rest = blocker_damage(attacker_id, init);
        let bd = blocker_damage(attacker_id, a);
        assert forall|k: int| 0 <= k < a.len() && (#[trigger] a[k]).1 > 0 implies bd.contains(
            blocker_share(attacker_id, a[k]),
        ) by {
            if k < a.len() - 1 {
                assert(init[k] == a[k]);
                let j = choose|j: int| 0 <= j < rest.len() && rest[j] == blocker_share(attacker_id, init[k]);
                assert(bd[j] == rest[j]);
            } else {
                assert(bd[rest.len() as int] == blocker_share(attacker_id, a[k]));
            }
        }
        assert forall|m: int| 0 <= m < bd.len() implies exists|k: int|
            0 <= k < a.len() && a[k].1 > 0 && #[trigger] bd[m] == blocker_share(attacker_id, #[trigger] a[k]) by {
            if m < rest.len() {
                assert(bd[m] == rest[m]);
                let k = choose|k: int|
                    0 <= k < init.len() && init[k].1 > 0 && rest[m] == blocker_share(attacker_id, init[k]);
                assert(a[k] == init[k]);
            } else {
                assert(bd[m] == blocker_share(attacker_id, a[a.len() - 1]));
            }
        }
    }
}

/// CR 510.1, 510.2: an accepted ordinary assignment queues exactly what was
/// assigned: each blocker's nonzero share goes to that blocker, the damage assigned
/// to the planeswalker's controller goes to that player, and nothing else is queued
/// but the excess trample damage; then the queued damage is dealt.
pub proof fn law_accepted_assignment_queues_each_share(
    w: World,
    player: PlayerId,
    attacker_id: ObjectId,
    total_damage: u32,
    blockers: Seq<DamageSlot>,
    assignment_modes: Seq<CombatDamageAssignmentMode>,
    trample: Option<TrampleKind>,
    defending_player: PlayerId,
    attack_target: AttackTarget,
    pw_loyalty: Option<u32>,
    pw_controller: Option<PlayerId>,
    assignments: Seq<(ObjectId, u32)>,
    trample_damage: u32,
    controller_damage: u32,
)
    requires
        spec_assignment_error(
            w.0,
            attacker_id,
            total_damage,
            blockers,
            assignment_modes,
            trample,
            attack_target,
            pw_loyalty,
            pw_controller,
            CombatDamageAssignmentMode::Normal,
            assignments,
            trample_damage,
            controller_damage,
        ) is None,
    ensures
        exists|extra: Seq<(ObjectId, DamageAssignment)>|
            #![trigger with_pending(w.0, extra)]
            {
                &&& spec_handle_assign_combat_damage(
                    w,
                    player,
                    attacker_id,
                    total_damage,
                    blockers,
                    assignment_modes,
                    trample,
                    defending_player,
                    attack_target,
                    pw_loyalty,
                    pw_controller,
                    CombatDamageAssignmentMode::Normal,
                    assignments,
                    trample_damage,
                    controller_damage,
                ) == spec_finish_damage((with_pending(w.0, extra), w.1), player)
                &&& forall|k: int|
                    0 <= k < assignments.len() && (#[trigger] assignments[k]).1 > 0 ==> extra.contains(
                        blocker_share(attacker_id, assignments[k]),
                    )
                &&& (controller_damage > 0 && pw_controller is Some) ==> extra.contains(
                    (
                        attacker_id,
                        DamageAssignment {
                            target: DamageTarget::Player(pw_controller.unwrap()),
                            amount: controller_damage,
                        },
                    ),
                )
                &&& forall|m: int|
                    0 <= m < extra.len() ==> {
                        ||| exists|k: int|
                            0 <= k < assignments.len() && assignments[k].1 > 0 && #[trigger] extra[m]
                                == blocker_share(attacker_id, #[trigger] assignments[k])
                        ||| trample_damage > 0 && extra[m].0 == attacker_id && extra[m].1.amount == trample_damage
                        ||| controller_damage > 0 && pw_controller is Some && extra[m] == (
                            attacker_id,
                            DamageAssignment {
                                target: DamageTarget::Player(pw_controller.unwrap()),
                                amount: controller_damage,
                            },
                        )
                    }
            },
{
    let extra = normal_pending(
        w.0,
        attacker_id,
        assignments,
        trample,
        attack_target,
        defending_player,
        trample_damage,
        controller_damage,
        pw_controller,
    );
    assert(spec_handle_assign_combat_damage(
        w,
        player,
        attacker_id,
        total_damage,
        blockers,
        assignment_modes,
        trample,
        defending_player,
        attack_target,
        pw_loyalty,
        pw_controller,
        CombatDamageAssignmentMode::Normal,
        assignments,
        trample_damage,
        controller_damage,
    ) == spec_finish_damage((with_pending(w.0, extra), w.1), player));
    let bd = blocker_damage(attacker_id, assignments);
    lemma_blocker_damage_shares(attacker_id, assignments);
    let t = unblocked_target(w.0, attack_target, trample, defending_player);
    let tr: Seq<(ObjectId, DamageAssignment)> = if trample_damage > 0 {
        match t {
            Some(tt) => seq![(attacker_id, DamageAssignment { target: tt, amount: trample_damage })],
            None => Seq::empty(),
        }
    } else {
        Seq::empty()
    };
    assert(extra == bd + tr + (if controller_damage > 0 {
        match pw_controller {
            Some(c) => seq![
                (attacker_id, DamageAssignment { target: DamageTarget::Player(c), amount: controller_damage }),
            ],
            None => Seq::empty(),
        }
    } else {
        Seq::empty()
    }));
    assert forall|k: int|
        0 <= k < assignments.len() && (#[trigger] assignments[k]).1 > 0 implies extra.contains(
        blocker_share(attacker_id, assignments[k]),
    ) by {
        let j = choose|j: int| 0 <= j < bd.len() && bd[j] == blocker_share(attacker_id, assignments[k]);
        assert(extra[j] == bd[j]);
    }
    if controller_damage > 0 && pw_controller is Some {
        assert(extra[extra.len() - 1] == (
            attacker_id,
            DamageAssignment { target: DamageTarget::Player(pw_controller.unwrap()), amount: controller_damage },
        ));
    }
    assert forall|m: int| 0 <= m < extra.len() implies {
        ||| exists|k: int|
            0 <= k < assignments.len() && assignments[k].1 > 0 && #[trigger] extra[m] == blocker_share(
                attacker_id,
                #[trigger] assignments[k],
            )
        ||| trample_damage > 0 && extra[m].0 == attacker_id && extra[m].1.amount == trample_damage
        ||| controller_damage > 0 && pw_controller is Some && extra[m] == (
            attacker_id,
            DamageAssignment { target: DamageTarget::Player(pw_controller.unwrap()), amount: controller_damage },
        )
    } by {
        if m < bd.len() {
            assert(extra[m] == bd[m]);
        } else if m < bd.len() + tr.len() {
            assert(extra[m] == tr[m - bd.len()]);
        }
    }
}


/// CR 510.1c: when the attacker's controller assigns its damage as though it weren't
/// blocked, all of it is queued for what the attacker attacks: the attacked player,
/// or the attacked planeswalker or battle while it is on the battlefield; no damage
/// queues nothing. Then the queued damage is dealt.
pub proof fn law_as_though_unblocked_goes_to_what_is_attacked(
    w: World,
    player: PlayerId,
    attacker_id: ObjectId,
    total_damage: u32,
    blockers: Seq<DamageSlot>,
    assignment_modes: Seq<CombatDamageAssignmentMode>,
    trample: Option<TrampleKind>,
    defending_player: PlayerId,
    attack_target: AttackTarget,
    pw_loyalty: Option<u32>,
    pw_controller: Option<PlayerId>,
    assignments: Seq<(ObjectId, u32)>,
    trample_damage: u32,
    controller_damage: u32,
)
    requires
        spec_assignment_error(
            w.0,
            attacker_id,
            total_damage,
            blockers,
            assignment_modes,
            trample,
            attack_target,
            pw_loyalty,
            pw_controller,
            CombatDamageAssignmentMode::AsThoughUnblocked,
            assignments,
            trample_damage,
            controller_damage,
        ) is None,
    ensures
        exists|extra: Seq<(ObjectId, DamageAssignment)>|
            #![trigger with_pending(w.0, extra)]
            {
                let c = w.0.combat.unwrap();
                let attacked = c.attackers[attacker_pos(c, attacker_id)].attack_target;
                let all_to = |t: DamageTarget|
                    extra == seq![(attacker_id, DamageAssignment { target: t, amount: total_damage })];
                &&& spec_handle_assign_combat_damage(
                    w,
                    player,
                    attacker_id,
                    total_damage,
                    blockers,
                    assignment_modes,
                    trample,
                    defending_player,
                    attack_target,
                    pw_loyalty,
                    pw_controller,
                    CombatDamageAssignmentMode::AsThoughUnblocked,
                    assignments,
                    trample_damage,
                    controller_damage,
                ) == spec_finish_damage((with_pending(w.0, extra), w.1), player)
                &&& total_damage == 0 ==> extra.len() == 0
                &&& total_damage > 0 ==> match attacked {
                    AttackTarget::Player(p) => all_to(DamageTarget::Player(p)),
                    AttackTarget::Planeswalker(pw) => w.0.on_battlefield(pw) ==> all_to(DamageTarget::Object(pw)),
                    AttackTarget::Battle(b) => w.0.on_battlefield(b) ==> all_to(DamageTarget::Object(b)),
                }
            },
{
    let c = w.0.combat.unwrap();
    let info = c.attackers[attacker_pos(c, attacker_id)];
    let ua = spec_unblocked_assignments(w.0, info, total_damage, trample);
    let extra = ua.map_values(with_attacker(attacker_id));
    assert(spec_handle_assign_combat_damage(
        w,
        player,
        attacker_id,
        total_damage,
        blockers,
        assignment_modes,
        trample,
        defending_player,
        attack_target,
        pw_loyalty,
        pw_controller,
        CombatDamageAssignmentMode::AsThoughUnblocked,
        assignments,
        trample_damage,
        controller_damage,
    ) == spec_finish_damage((with_pending(w.0, extra), w.1), player));
    match unblocked_target(w.0, info.attack_target, trample, info.defending_player) {
        Some(t) => {
            if total_damage > 0 {
                assert(extra =~= seq![(attacker_id, DamageAssignment { target: t, amount: total_damage })]);
            } else {
                assert(extra.len() == 0);
            }
        },
        None => {
            assert(extra.len() == 0);
        },
    }
}

} // verus!
