use phase_engine::ability::{Effect, PlayerFilter, QuantityExpr, ResolvedAbility};
use phase_engine::game::effects::speed_effects::{resolve_increase, resolve_start};
use phase_engine::game::public_state::{finalize_public_state, sync_waiting_for};
use phase_engine::game::turn_control::{
    authorized_submitter, authorized_submitter_for_player, turn_decision_maker, turn_resource_owner,
    viewer_controls_active_turn,
};
use phase_engine::parser::warnings::{clear_warnings, push_warning, take_warnings, Warnings};
use phase_engine::persistence::{is_stale, split_rows, stale_cutoff};
use phase_engine::state::{create_object, GameState};
use phase_engine::types::{
    ActionError, CardId, CombatDamageAssignmentMode, CounterType, EffectError, EffectKind, EngineError, GameEvent,
    ObjectId, PlayerId, WaitingFor, Zone,
};

fn speed_ability(effect: Effect, controller: PlayerId) -> ResolvedAbility {
    ResolvedAbility::new(effect, vec![], ObjectId(1), controller)
}

#[test]
fn start_your_engines_gives_speed_one_only_to_players_without_speed() {
    let mut state = GameState::new_two_player(1);
    state.players[1].speed = Some(3);
    let mut events = Vec::new();
    let a = speed_ability(Effect::StartYourEngines { player_scope: PlayerFilter::All }, PlayerId(0));
    assert_eq!(resolve_start(&mut state, &a, &mut events), Ok(()));
    assert_eq!(state.players[0].speed, Some(1));
    assert_eq!(state.players[1].speed, Some(3));
    assert_eq!(events, vec![GameEvent::SpeedChanged { player: PlayerId(0), old_speed: None, new_speed: 1 }]);
}

#[test]
fn speed_increase_stops_at_four_and_respects_scope() {
    let mut state = GameState::new_two_player(1);
    state.players[0].speed = Some(3);
    state.players[1].speed = Some(1);
    let mut events = Vec::new();
    let a = speed_ability(
        Effect::IncreaseSpeed { player_scope: PlayerFilter::Controller, amount: QuantityExpr::Fixed { value: 5 } },
        PlayerId(0),
    );
    assert_eq!(resolve_increase(&mut state, &a, &mut events), Ok(()));
    assert_eq!(state.players[0].speed, Some(4));
    assert_eq!(state.players[1].speed, Some(1));
    let b = speed_ability(
        Effect::IncreaseSpeed { player_scope: PlayerFilter::Opponent, amount: QuantityExpr::Fixed { value: 2 } },
        PlayerId(0),
    );
    resolve_increase(&mut state, &b, &mut events).unwrap();
    assert_eq!(state.players[1].speed, Some(3));
    // A speed already at four does not change, and no event is emitted for it.
    let n = events.len();
    resolve_increase(&mut state, &a, &mut events).unwrap();
    assert_eq!(events.len(), n);
}

#[test]
fn speed_resolvers_refuse_other_effects() {
    let mut state = GameState::new_two_player(1);
    let mut events = Vec::new();
    let other = speed_ability(Effect::TapTargets, PlayerId(0));
    assert_eq!(
        resolve_start(&mut state, &other, &mut events),
        Err(EffectError::InvalidParam { expected: EffectKind::StartYourEngines })
    );
    assert_eq!(
        resolve_increase(&mut state, &other, &mut events),
        Err(EffectError::InvalidParam { expected: EffectKind::IncreaseSpeed })
    );
    assert!(events.is_empty());
}

#[test]
fn negative_or_zero_speed_increase_does_nothing() {
    let mut state = GameState::new_two_player(1);
    let mut events = Vec::new();
    let a = speed_ability(
        Effect::IncreaseSpeed { player_scope: PlayerFilter::All, amount: QuantityExpr::Fixed { value: -2 } },
        PlayerId(0),
    );
    resolve_increase(&mut state, &a, &mut events).unwrap();
    assert_eq!(state.players[0].speed, None);
    assert!(events.is_empty());
}

#[test]
fn turn_control_follows_the_decision_controller() {
    let mut state = GameState::new_two_player(1);
    assert_eq!(turn_resource_owner(&state), PlayerId(0));
    assert_eq!(turn_decision_maker(&state), PlayerId(0));
    assert_eq!(authorized_submitter(&state), Some(PlayerId(0)));
    assert!(!viewer_controls_active_turn(&state, PlayerId(1)));

    state.turn_decision_controller = Some(PlayerId(1));
    assert_eq!(turn_resource_owner(&state), PlayerId(0));
    assert_eq!(turn_decision_maker(&state), PlayerId(1));
    assert_eq!(authorized_submitter_for_player(&state, PlayerId(0)), PlayerId(1));
    assert_eq!(authorized_submitter_for_player(&state, PlayerId(1)), PlayerId(1));
    assert_eq!(authorized_submitter(&state), Some(PlayerId(1)));
    assert!(viewer_controls_active_turn(&state, PlayerId(1)));
    assert!(!viewer_controls_active_turn(&state, PlayerId(0)));

    state.waiting_for = WaitingFor::GameOver { winner: None };
    assert_eq!(authorized_submitter(&state), None);
}

#[test]
fn finalize_syncs_priority_and_evaluates_dirty_layers() {
    let mut state = GameState::new_two_player(1);
    let card = CardId(1);
    let id = create_object(&mut state, card, PlayerId(0), "Bear".to_string(), Zone::Battlefield);
    {
        let o = state.objects.iter_mut().find(|o| o.id == id).unwrap();
        o.base_power = Some(2);
        o.base_toughness = Some(2);
        o.power = Some(2);
        o.toughness = Some(2);
        o.counters.set(CounterType::Plus1Plus1, 3);
        o.counters.set(CounterType::Minus1Minus1, 1);
    }
    state.waiting_for = WaitingFor::Priority { player: PlayerId(1) };
    state.layers_dirty = true;
    finalize_public_state(&mut state);
    assert_eq!(state.priority_player, PlayerId(1));
    assert!(!state.layers_dirty);
    let o = state.object(id).unwrap();
    assert_eq!((o.power, o.toughness), (Some(4), Some(4)));
    // Finalizing again changes nothing.
    finalize_public_state(&mut state);
    let o = state.object(id).unwrap();
    assert_eq!((o.power, o.toughness), (Some(4), Some(4)));
    assert_eq!(state.priority_player, PlayerId(1));
}

#[test]
fn sync_waiting_for_moves_priority_only_for_priority_waits() {
    let mut state = GameState::new_two_player(1);
    sync_waiting_for(&mut state, &WaitingFor::DeclareBlockers { player: PlayerId(1) });
    assert_eq!(state.waiting_for, WaitingFor::DeclareBlockers { player: PlayerId(1) });
    assert_eq!(state.priority_player, PlayerId(0));
    sync_waiting_for(&mut state, &WaitingFor::Priority { player: PlayerId(1) });
    assert_eq!(state.priority_player, PlayerId(1));
}

#[test]
fn warnings_are_taken_in_order_and_cleared() {
    let mut w = Warnings::new();
    push_warning(&mut w, "first".to_string());
    push_warning(&mut w, "second".to_string());
    assert_eq!(take_warnings(&mut w), vec!["first".to_string(), "second".to_string()]);
    assert!(take_warnings(&mut w).is_empty());
    push_warning(&mut w, "dropped".to_string());
    clear_warnings(&mut w);
    assert!(take_warnings(&mut w).is_empty());
}

#[test]
fn stale_cutoff_saturates_at_the_epoch() {
    assert_eq!(stale_cutoff(100_000, 86_400), 13_600);
    assert_eq!(stale_cutoff(1_000, 86_400), 0);
    assert!(is_stale(1_000, stale_cutoff(100_000, 86_400)));
    assert!(!is_stale(100_000, stale_cutoff(100_000, 86_400)));
    assert!(!is_stale(13_600, 13_600));
}

#[test]
fn split_rows_keeps_readable_rows_in_order() {
    let rows: Vec<Result<(String, String), String>> = vec![
        Ok(("A".to_string(), "1".to_string())),
        Err("bad".to_string()),
        Ok(("B".to_string(), "2".to_string())),
    ];
    let (good, bad) = split_rows(rows);
    assert_eq!(good, vec![("A".to_string(), "1".to_string()), ("B".to_string(), "2".to_string())]);
    assert_eq!(bad, vec!["bad".to_string()]);
}

#[test]
fn refusal_messages_read_as_the_engine_reports_them() {
    assert_eq!(
        ActionError::TotalMismatch { assigned: 3, expected: 5 }.message(),
        "Damage assignment total 3 != expected 5"
    );
    assert_eq!(
        ActionError::ModeNotAllowed { mode: CombatDamageAssignmentMode::AsThoughUnblocked, attacker_id: ObjectId(1) }
            .message(),
        "Combat damage assignment mode AsThoughUnblocked is not allowed for attacker ObjectId(1)"
    );
    assert_eq!(
        ActionError::NotABlocker { blocker_id: ObjectId(10), attacker_id: ObjectId(0) }.message(),
        "ObjectId(10) is not a blocker of attacker ObjectId(0)"
    );
    assert_eq!(
        ActionError::PlaneswalkerNotLethal { loyalty_threshold: 1000, controller_damage: 7 }.message(),
        "Trample over planeswalkers: must assign at least 1000 to PW before 7 to controller"
    );
    assert_eq!(
        ActionError::BlockerNotLethal { blocker_id: ObjectId(4), lethal_minimum: 4 }.message(),
        "Trample: blocker ObjectId(4) must receive at least 4 lethal damage before excess to player"
    );
    assert_eq!(EngineError::InvalidAction(ActionError::InvalidCopyTarget).message(), "Invalid copy target");
    assert_eq!(
        EngineError::InvalidAction(ActionError::NotWaitingForCopyTarget).message(),
        "Not waiting for copy target choice"
    );
    assert_eq!(
        EffectError::InvalidParam { expected: EffectKind::StartYourEngines }.message(),
        "expected StartYourEngines"
    );
    assert_eq!(EffectError::InvalidParam { expected: EffectKind::IncreaseSpeed }.message(), "expected IncreaseSpeed");
    assert_eq!(
        ActionError::AttackerNotInCombat { attacker_id: ObjectId(18446744073709551615) }.message(),
        "Attacker ObjectId(18446744073709551615) not found in combat state"
    );
}
