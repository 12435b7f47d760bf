use phase_engine::game::engine_combat::handle_declare_attackers;
use phase_engine::game::sba::check_state_based_actions;
use phase_engine::state::{create_object, GameState};
use phase_engine::types::{AttackTarget, CardId, CounterType, GameObject, ObjectId, PlayerId, Zone};

const P0: PlayerId = PlayerId(0);
const P1: PlayerId = PlayerId(1);

fn obj_mut(state: &mut GameState, id: ObjectId) -> &mut GameObject {
    state.objects.iter_mut().find(|o| o.id == id).unwrap()
}

fn obj(state: &GameState, id: ObjectId) -> &GameObject {
    state.object(id).unwrap()
}

fn add_creature(state: &mut GameState, controller: PlayerId, name: &str, power: i32, toughness: i32) -> ObjectId {
    let card = CardId(state.next_object_id);
    let id = create_object(state, card, controller, name.to_string(), Zone::Battlefield);
    let o = obj_mut(state, id);
    o.card_types.creature = true;
    o.power = Some(power);
    o.toughness = Some(toughness);
    o.base_power = Some(power);
    o.base_toughness = Some(toughness);
    id
}

/// Turn an existing battlefield creature into a Siege with the given defense.
fn make_into_siege(state: &mut GameState, id: ObjectId, protector: PlayerId, printed_defense: u32) {
    let o = obj_mut(state, id);
    o.card_types.creature = false;
    o.card_types.battle = true;
    o.power = None;
    o.toughness = None;
    o.base_power = None;
    o.base_toughness = None;
    o.defense = Some(printed_defense);
    o.counters.set(CounterType::Defense, printed_defense);
    o.protector = Some(protector);
}

fn prime_siege(controller: PlayerId, protector: PlayerId, name: &str, printed_defense: u32) -> (GameState, ObjectId) {
    let mut state = GameState::new_two_player(42);
    let id = add_creature(&mut state, controller, name, 0, 0);
    make_into_siege(&mut state, id, protector, printed_defense);
    (state, id)
}

fn make_ready(state: &mut GameState, id: ObjectId) {
    let turn = state.turn_number.saturating_sub(1);
    obj_mut(state, id).entered_battlefield_turn = Some(turn);
}

#[test]
fn battle_has_defense_equal_to_counters() {
    let (state, battle) = prime_siege(P0, P1, "Test Siege", 4);
    let o = obj(&state, battle);
    assert_eq!(o.defense, Some(4));
    assert_eq!(o.counters.get(CounterType::Defense), 4);
}

#[test]
fn zero_defense_battle_goes_to_graveyard_via_sba() {
    let (mut state, battle) = prime_siege(P0, P1, "Dying Siege", 0);

    let mut events = Vec::new();
    check_state_based_actions(&mut state, &mut events);

    assert_eq!(obj(&state, battle).zone, Zone::Graveyard, "0-defense battle should be sent to graveyard by SBA");
}

#[test]
fn protector_getter_returns_chosen_player() {
    let (state, battle) = prime_siege(P0, P1, "Protected Siege", 3);
    assert_eq!(obj(&state, battle).protector(), Some(P1));
}

#[test]
fn non_battle_has_no_protector() {
    let mut state = GameState::new_two_player(42);
    let creature = add_creature(&mut state, P0, "Vanilla", 2, 2);
    assert_eq!(obj(&state, creature).protector(), None);
}

#[test]
fn battle_attack_defending_player_is_protector() {
    let mut state = GameState::new_two_player(42);
    let siege_id = add_creature(&mut state, P0, "Attackable Siege", 0, 0);
    let attacker = add_creature(&mut state, P0, "Attacker", 3, 3);
    make_ready(&mut state, attacker);
    make_into_siege(&mut state, siege_id, P1, 5);

    let mut events = Vec::new();
    handle_declare_attackers(&mut state, P0, &[(attacker, AttackTarget::Battle(siege_id))], &mut events)
        .expect("attacking a battle controlled by you but protected by an opponent is legal");

    let combat = state.combat.as_ref().expect("combat state");
    let info = combat.attackers.iter().find(|a| a.object_id == attacker).expect("attacker recorded");
    assert_eq!(info.defending_player, P1, "defending player for battle = protector (not controller)");
    assert!(matches!(info.attack_target, AttackTarget::Battle(id) if id == siege_id));
}

#[test]
fn battle_protector_cannot_attack_own_battle() {
    let mut state = GameState::new_two_player(42);
    let siege_id = add_creature(&mut state, P1, "My Siege", 0, 0);
    let attacker = add_creature(&mut state, P0, "Attacker", 3, 3);
    make_ready(&mut state, attacker);
    make_into_siege(&mut state, siege_id, P0, 3);

    let mut events = Vec::new();
    let result = handle_declare_attackers(&mut state, P0, &[(attacker, AttackTarget::Battle(siege_id))], &mut events);
    assert!(result.is_err(), "protector cannot attack the battle it protects");
}

#[test]
fn battle_with_defense_left_stays_on_the_battlefield() {
    let (mut state, battle) = prime_siege(P0, P1, "Sturdy Siege", 2);
    let mut events = Vec::new();
    check_state_based_actions(&mut state, &mut events);
    assert_eq!(obj(&state, battle).zone, Zone::Battlefield);
    assert!(events.is_empty());
}
