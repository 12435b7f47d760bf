use phase_engine::ability::{
    AbilityDefinition, AbilityKind, Effect, QuantityExpr, ReplacementDefinition, ReplacementEvent,
    ReplacementMode, TargetFilter, TargetRef,
};
use phase_engine::game::engine_replacement::{
    apply_post_replacement_effect, copy_effect_for_source, find_copy_targets, handle_copy_target_choice,
    handle_replacement_choice,
};
use phase_engine::game::replacement_events::apply_proposed_event;
use phase_engine::replacement::{replacement_choice_waiting_for, PendingReplacement, ProposedEvent, ReplacementResult};
use phase_engine::state::{create_object, GameState};
use phase_engine::types::{
    ActionError, CardId, CastingVariant, CounterType, EngineError, GameEvent, GameObject, ObjectId,
    PendingSpellResolution, PlayerId, WaitingFor, Zone,
};

fn obj_mut(state: &mut GameState, id: ObjectId) -> &mut GameObject {
    state.objects.iter_mut().find(|o| o.id == id).unwrap()
}

fn obj(state: &GameState, id: ObjectId) -> &GameObject {
    state.object(id).unwrap()
}

fn make_creature(state: &mut GameState, owner: PlayerId, name: &str) -> ObjectId {
    let card = CardId(state.next_object_id);
    let id = create_object(state, card, owner, name.to_string(), Zone::Battlefield);
    obj_mut(state, id).card_types.creature = true;
    id
}

/// Leave the engine waiting for `player` to choose among `options`.
fn await_choice(state: &mut GameState, player: PlayerId, options: Vec<ReplacementResult>) {
    state.pending_replacement = Some(PendingReplacement { chooser: player, options });
    state.waiting_for = replacement_choice_waiting_for(player, state);
    state.priority_player = player;
}

#[test]
fn add_counter_replacement_accepted_applies_counters() {
    let mut state = GameState::new_two_player(42);
    let target = make_creature(&mut state, PlayerId(0), "Bear");
    let proposed = ProposedEvent::AddCounter { object_id: target, counter_type: CounterType::Plus1Plus1, count: 2 };
    await_choice(&mut state, PlayerId(1), vec![ReplacementResult::Execute(proposed)]);

    let mut events = Vec::new();
    handle_replacement_choice(&mut state, 0, &mut events).expect("accept");

    let counters_on_target = obj(&state, target).counters.get(CounterType::Plus1Plus1);
    assert_eq!(counters_on_target, 2, "AddCounter accepted after replacement choice must deliver counters");
}

#[test]
fn tap_replacement_accepted_applies_tap() {
    let mut state = GameState::new_two_player(42);
    let target = make_creature(&mut state, PlayerId(0), "Bear");
    assert!(!obj(&state, target).tapped, "precondition");
    await_choice(&mut state, PlayerId(1), vec![ReplacementResult::Execute(ProposedEvent::Tap { object_id: target })]);

    let mut events = Vec::new();
    handle_replacement_choice(&mut state, 0, &mut events).expect("accept");

    assert!(obj(&state, target).tapped, "Tap accepted after replacement choice must tap the target");
}

#[test]
fn replacement_prevented_does_not_apply() {
    let mut state = GameState::new_two_player(42);
    let target = make_creature(&mut state, PlayerId(0), "Bear");
    let source_id = ObjectId(state.next_object_id);
    state.next_object_id += 1;
    let damage_event = ProposedEvent::Damage {
        source_id,
        target: TargetRef::Object(target),
        amount: 0,
        is_combat: false,
    };
    let mut events = Vec::new();
    apply_proposed_event(&mut state, damage_event, &mut events);
    assert_eq!(obj(&state, target).damage_marked, 0, "zero-amount damage event applies zero damage");
}

#[test]
fn prevented_choice_applies_nothing_and_returns_priority() {
    let mut state = GameState::new_two_player(42);
    let target = make_creature(&mut state, PlayerId(0), "Bear");
    await_choice(&mut state, PlayerId(1), vec![ReplacementResult::Prevented]);
    let snapshot = |s: &GameState| {
        s.objects.iter().map(|o| (o.id, o.zone, o.tapped, o.counters, o.damage_marked)).collect::<Vec<_>>()
    };
    let before = snapshot(&state);
    let mut events = Vec::new();
    let r = handle_replacement_choice(&mut state, 0, &mut events);
    assert_eq!(r, Ok(WaitingFor::Priority { player: PlayerId(0) }));
    assert!(events.is_empty());
    assert_eq!(snapshot(&state), before);
    assert!(!obj(&state, target).tapped);
    assert!(state.pending_replacement.is_none());
}

#[test]
fn prevented_entry_sends_the_spell_to_the_graveyard() {
    let mut state = GameState::new_two_player(42);
    let card = CardId(9);
    let spell = create_object(&mut state, card, PlayerId(0), "Clone".to_string(), Zone::Stack);
    state.pending_spell_resolution = Some(PendingSpellResolution {
        object_id: spell,
        controller: PlayerId(0),
        cast_from_zone: Some(Zone::Hand),
        spell_targets: vec![],
        casting_variant: CastingVariant::Normal,
        actual_mana_spent: 4,
    });
    await_choice(&mut state, PlayerId(0), vec![ReplacementResult::Prevented]);
    let mut events = Vec::new();
    handle_replacement_choice(&mut state, 0, &mut events).unwrap();
    assert_eq!(obj(&state, spell).zone, Zone::Graveyard);
    assert!(state.pending_spell_resolution.is_none());
}

#[test]
fn unoffered_replacement_option_is_refused() {
    let mut state = GameState::new_two_player(42);
    let target = make_creature(&mut state, PlayerId(0), "Bear");
    await_choice(&mut state, PlayerId(1), vec![ReplacementResult::Execute(ProposedEvent::Tap { object_id: target })]);
    let mut events = Vec::new();
    let r = handle_replacement_choice(&mut state, 3, &mut events);
    assert_eq!(r, Err(EngineError::InvalidAction(ActionError::InvalidReplacementChoice { index: 3 })));
    assert!(!obj(&state, target).tapped);
    assert!(state.pending_replacement.is_none());
}

#[test]
fn further_choice_is_asked_of_the_named_player() {
    let mut state = GameState::new_two_player(42);
    let target = make_creature(&mut state, PlayerId(0), "Bear");
    await_choice(
        &mut state,
        PlayerId(0),
        vec![
            ReplacementResult::NeedsChoice(PlayerId(1)),
            ReplacementResult::Execute(ProposedEvent::Tap { object_id: target }),
        ],
    );
    let mut events = Vec::new();
    let r = handle_replacement_choice(&mut state, 0, &mut events).unwrap();
    assert_eq!(r, WaitingFor::ReplacementChoice { player: PlayerId(1), candidate_count: 1 });
    let pending = state.pending_replacement.as_ref().unwrap();
    assert_eq!(pending.chooser, PlayerId(1));
    assert_eq!(pending.options.len(), 1);
    assert!(!obj(&state, target).tapped);
    // The remaining option can then be chosen.
    handle_replacement_choice(&mut state, 0, &mut events).unwrap();
    assert!(obj(&state, target).tapped);
}

#[test]
fn accepted_entry_applies_counters_tapped_and_pending_counters() {
    let mut state = GameState::new_two_player(42);
    let card = CardId(9);
    let id = create_object(&mut state, card, PlayerId(0), "Walker".to_string(), Zone::Hand);
    state.pending_etb_counters.push((id, CounterType::Plus1Plus1, 1));
    state.pending_etb_counters.push((ObjectId(77), CounterType::Charge, 5));
    let proposed = ProposedEvent::ZoneChange {
        object_id: id,
        from: Zone::Hand,
        to: Zone::Battlefield,
        enter_tapped: true,
        enter_with_counters: vec![(CounterType::Plus1Plus1, 2)],
        controller_override: Some(PlayerId(1)),
        enter_transformed: false,
    };
    await_choice(&mut state, PlayerId(0), vec![ReplacementResult::Execute(proposed)]);
    let mut events = Vec::new();
    let r = handle_replacement_choice(&mut state, 0, &mut events).unwrap();
    assert_eq!(r, WaitingFor::Priority { player: PlayerId(0) });
    let o = obj(&state, id);
    assert_eq!(o.zone, Zone::Battlefield);
    assert!(o.tapped);
    assert_eq!(o.controller, PlayerId(1));
    assert_eq!(o.counters.get(CounterType::Plus1Plus1), 3);
    assert_eq!(state.pending_etb_counters, vec![(ObjectId(77), CounterType::Charge, 5)]);
    assert!(state.layers_dirty);
    assert_eq!(
        events,
        vec![
            GameEvent::ZoneChanged { object_id: id, from: Zone::Hand, to: Zone::Battlefield },
            GameEvent::CounterAdded { object_id: id, counter_type: CounterType::Plus1Plus1, count: 2 },
            GameEvent::CounterAdded { object_id: id, counter_type: CounterType::Plus1Plus1, count: 1 },
        ]
    );
}

fn copy_definition(limited: bool) -> AbilityDefinition {
    AbilityDefinition {
        kind: AbilityKind::Spell,
        effect: Box::new(Effect::BecomeCopy { target: TargetFilter::Any, duration: None, limited_by_mana_spent: limited }),
        sub_ability: None,
        else_ability: None,
        duration: None,
        condition: None,
    }
}

#[test]
fn copy_entry_waits_for_a_copy_target_within_the_mana_spent() {
    let mut state = GameState::new_two_player(42);
    let small = make_creature(&mut state, PlayerId(1), "Small");
    obj_mut(&mut state, small).mana_value = 2;
    let big = make_creature(&mut state, PlayerId(1), "Big");
    obj_mut(&mut state, big).mana_value = 7;
    let card = CardId(9);
    let clone = create_object(&mut state, card, PlayerId(0), "Mockingbird".to_string(), Zone::Battlefield);
    let ctx = PendingSpellResolution {
        object_id: clone,
        controller: PlayerId(0),
        cast_from_zone: Some(Zone::Hand),
        spell_targets: vec![],
        casting_variant: CastingVariant::Normal,
        actual_mana_spent: 3,
    };
    let mut events = Vec::new();
    let def = copy_definition(true);
    let wf = apply_post_replacement_effect(&mut state, &def, Some(clone), Some(&ctx), &mut events);
    assert_eq!(
        wf,
        Some(WaitingFor::CopyTargetChoice {
            player: PlayerId(0),
            source_id: clone,
            valid_targets: vec![small],
            max_mana_value: Some(3),
        })
    );
    assert!(events.is_empty());
    assert_eq!(find_copy_targets(&state, &TargetFilter::Any, clone, PlayerId(0), None), vec![small, big]);
}

#[test]
fn copy_target_choice_makes_the_source_a_copy() {
    let mut state = GameState::new_two_player(42);
    let bear = make_creature(&mut state, PlayerId(1), "Bear");
    obj_mut(&mut state, bear).power = Some(2);
    let card = CardId(9);
    let clone = create_object(&mut state, card, PlayerId(0), "Clone".to_string(), Zone::Battlefield);
    obj_mut(&mut state, clone).replacement_definitions.push(ReplacementDefinition {
        event: ReplacementEvent::ZoneChange,
        mode: ReplacementMode::Optional,
        execute: Some(Box::new(copy_definition(false))),
    });
    assert!(copy_effect_for_source(&state, clone).is_some());
    let waiting = WaitingFor::CopyTargetChoice {
        player: PlayerId(0),
        source_id: clone,
        valid_targets: vec![bear],
        max_mana_value: None,
    };
    let mut events = Vec::new();
    let r = handle_copy_target_choice(&mut state, waiting, Some(TargetRef::Object(bear)), &mut events);
    assert_eq!(r, Ok(WaitingFor::Priority { player: PlayerId(0) }));
    let o = obj(&state, clone);
    assert_eq!(o.name, "Bear");
    assert_eq!(o.power, Some(2));
    assert!(o.card_types.creature);
    assert!(state.layers_dirty);
    assert!(events.contains(&GameEvent::BecameCopy { object_id: clone, copied_from: bear }));
}

#[test]
fn copy_target_choice_refuses_invalid_answers() {
    let mut state = GameState::new_two_player(42);
    let bear = make_creature(&mut state, PlayerId(1), "Bear");
    let other = make_creature(&mut state, PlayerId(1), "Other");
    let waiting = || WaitingFor::CopyTargetChoice {
        player: PlayerId(0),
        source_id: ObjectId(50),
        valid_targets: vec![bear],
        max_mana_value: None,
    };
    let mut events = Vec::new();
    assert_eq!(
        handle_copy_target_choice(&mut state, waiting(), Some(TargetRef::Object(other)), &mut events),
        Err(EngineError::InvalidAction(ActionError::InvalidCopyTarget))
    );
    assert_eq!(
        handle_copy_target_choice(&mut state, waiting(), Some(TargetRef::Player(PlayerId(1))), &mut events),
        Err(EngineError::InvalidAction(ActionError::InvalidCopyTarget))
    );
    assert_eq!(
        handle_copy_target_choice(
            &mut state,
            WaitingFor::Priority { player: PlayerId(0) },
            Some(TargetRef::Object(bear)),
            &mut events
        ),
        Err(EngineError::InvalidAction(ActionError::NotWaitingForCopyTarget))
    );
    assert!(events.is_empty());
}

#[test]
fn other_post_effect_resolves_at_once() {
    let mut state = GameState::new_two_player(42);
    let land = make_creature(&mut state, PlayerId(0), "Shock Land");
    let def = AbilityDefinition {
        kind: AbilityKind::Spell,
        effect: Box::new(Effect::LoseLife { amount: QuantityExpr::Fixed { value: 2 } }),
        sub_ability: None,
        else_ability: None,
        duration: None,
        condition: None,
    };
    let mut events = Vec::new();
    let wf = apply_post_replacement_effect(&mut state, &def, Some(land), None, &mut events);
    assert_eq!(wf, None);
    assert_eq!(state.players[0].life, 18);
}

#[test]
fn copy_targets_name_each_object_once() {
    let mut state = GameState::new_two_player(42);
    let bear = make_creature(&mut state, PlayerId(1), "Bear");
    // A second object carrying the same id is not the object that id names.
    let card = CardId(8);
    let shadow = create_object(&mut state, card, PlayerId(1), "Shadow".to_string(), Zone::Battlefield);
    obj_mut(&mut state, shadow).card_types.creature = true;
    let last = state.objects.len() - 1;
    state.objects[last].id = bear;
    let targets = find_copy_targets(&state, &TargetFilter::Any, ObjectId(999), PlayerId(0), None);
    assert_eq!(targets, vec![bear]);
}
