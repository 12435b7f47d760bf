use phase_engine::ability::{Effect, ResolvedAbility, TargetFilter, TargetRef};
use phase_engine::game::effects::revealing::resolve;
use phase_engine::state::{create_object, GameState};
use phase_engine::types::{CardId, EffectKind, GameEvent, ObjectId, PlayerId, Zone};

#[test]
fn reveal_self_ref_emits_cards_revealed_with_source_object() {
    let mut state = GameState::new_two_player(42);
    let obj = create_object(&mut state, CardId(1), PlayerId(0), "Nexus of Fate".to_string(), Zone::Library);

    let ability = ResolvedAbility::new(Effect::Reveal { target: TargetFilter::SelfRef }, vec![], obj, PlayerId(0));

    let mut events = Vec::new();
    resolve(&mut state, &ability, &mut events).unwrap();

    let revealed = events.iter().find_map(|e| match e {
        GameEvent::CardsRevealed { player, card_ids, card_names } => {
            Some((*player, card_ids.clone(), card_names.clone()))
        }
        _ => None,
    });

    let (player, card_ids, card_names) = revealed.expect("CardsRevealed emitted");
    assert_eq!(player, PlayerId(0));
    assert_eq!(card_ids, vec![obj]);
    assert_eq!(card_names, vec!["Nexus of Fate".to_string()]);
}

#[test]
fn reveal_does_not_mutate_game_state() {
    let mut state = GameState::new_two_player(42);
    let obj = create_object(&mut state, CardId(1), PlayerId(0), "Progenitus".to_string(), Zone::Graveyard);

    let before_revealed = state.revealed_cards.clone();
    let before_zones = state.object(obj).map(|o| (o.zone, o.owner, o.controller));

    let ability = ResolvedAbility::new(Effect::Reveal { target: TargetFilter::SelfRef }, vec![], obj, PlayerId(0));

    let mut events = Vec::new();
    resolve(&mut state, &ability, &mut events).unwrap();

    assert_eq!(state.revealed_cards, before_revealed);
    assert_eq!(state.object(obj).map(|o| (o.zone, o.owner, o.controller)), before_zones);
}

#[test]
fn reveal_targets_reveals_only_object_targets_then_reports_resolution() {
    let mut state = GameState::new_two_player(7);
    let a = create_object(&mut state, CardId(1), PlayerId(0), "Island".to_string(), Zone::Hand);
    let b = create_object(&mut state, CardId(2), PlayerId(1), "Forest".to_string(), Zone::Hand);
    let ability = ResolvedAbility::new(
        Effect::Reveal { target: TargetFilter::Any },
        vec![TargetRef::Object(a), TargetRef::Player(PlayerId(1)), TargetRef::Object(b)],
        ObjectId(99),
        PlayerId(1),
    );
    let mut events = Vec::new();
    resolve(&mut state, &ability, &mut events).unwrap();
    assert_eq!(events.len(), 2);
    assert_eq!(
        events[0],
        GameEvent::CardsRevealed {
            player: PlayerId(1),
            card_ids: vec![a, b],
            card_names: vec!["Island".to_string(), "Forest".to_string()],
        }
    );
    assert_eq!(events[1], GameEvent::EffectResolved { kind: EffectKind::Reveal, source_id: ObjectId(99) });
}

#[test]
fn reveal_without_targets_or_self_reference_reveals_nothing() {
    let mut state = GameState::new_two_player(7);
    let ability = ResolvedAbility::new(Effect::Reveal { target: TargetFilter::Any }, vec![], ObjectId(5), PlayerId(0));
    let mut events = Vec::new();
    resolve(&mut state, &ability, &mut events).unwrap();
    assert_eq!(events, vec![GameEvent::EffectResolved { kind: EffectKind::Reveal, source_id: ObjectId(5) }]);
}
