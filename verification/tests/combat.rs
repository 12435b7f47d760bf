use phase_engine::game::engine_combat::{handle_assign_combat_damage, handle_declare_attackers};
use phase_engine::state::{create_object, GameState};
use phase_engine::types::{
    ActionError, AttackTarget, AttackerInfo, CardId, CombatDamageAssignmentMode, CombatState, DamageSlot,
    EngineError, GameObject, ObjectId, PlayerId, TrampleKind, WaitingFor, Zone,
};

fn setup() -> GameState {
    let mut state = GameState::new_two_player(42);
    state.turn_number = 2;
    state.active_player = PlayerId(0);
    state.priority_player = PlayerId(0);
    state
}

fn obj_mut(state: &mut GameState, id: ObjectId) -> &mut GameObject {
    state.objects.iter_mut().find(|o| o.id == id).unwrap()
}

fn obj(state: &GameState, id: ObjectId) -> &GameObject {
    state.object(id).unwrap()
}

fn create_creature(state: &mut GameState, owner: PlayerId, name: &str, power: i32, toughness: i32) -> ObjectId {
    let card = CardId(state.next_object_id);
    let id = create_object(state, card, owner, name.to_string(), Zone::Battlefield);
    let o = obj_mut(state, id);
    o.card_types.creature = true;
    o.power = Some(power);
    o.toughness = Some(toughness);
    o.entered_battlefield_turn = Some(1);
    id
}

fn create_planeswalker(state: &mut GameState, owner: PlayerId, name: &str, loyalty: u32) -> ObjectId {
    let card = CardId(state.next_object_id);
    let id = create_object(state, card, owner, name.to_string(), Zone::Battlefield);
    let o = obj_mut(state, id);
    o.card_types.planeswalker = true;
    o.loyalty = Some(loyalty);
    id
}

fn blocked_combat(attacker: AttackerInfo, blocker: ObjectId) -> CombatState {
    let mut combat = CombatState::new();
    let mut info = attacker;
    info.blocked = true;
    combat.attackers.push(info);
    combat.blocks.push((blocker, attacker.object_id));
    combat
}

const BOTH_MODES: [CombatDamageAssignmentMode; 2] =
    [CombatDamageAssignmentMode::Normal, CombatDamageAssignmentMode::AsThoughUnblocked];

#[test]
fn as_though_unblocked_mode_applies_only_when_chosen() {
    let mut state = setup();
    let attacker = create_creature(&mut state, PlayerId(0), "Thorn Elemental", 5, 5);
    let blocker = create_creature(&mut state, PlayerId(1), "Wall", 0, 4);
    state.combat = Some(blocked_combat(AttackerInfo::attacking_player(attacker, PlayerId(1)), blocker));

    let mut events = Vec::new();
    let waiting = handle_assign_combat_damage(
        &mut state,
        PlayerId(0),
        attacker,
        5,
        &[DamageSlot { blocker_id: blocker, lethal_minimum: 4 }],
        &BOTH_MODES,
        None,
        PlayerId(1),
        &AttackTarget::Player(PlayerId(1)),
        None,
        None,
        CombatDamageAssignmentMode::AsThoughUnblocked,
        &[],
        0,
        0,
        &mut events,
    )
    .unwrap();

    assert!(matches!(waiting, WaitingFor::Priority { .. }));
    assert_eq!(state.players[1].life, 15);
    assert_eq!(obj(&state, blocker).damage_marked, 0);
}

#[test]
fn as_though_unblocked_mode_can_hit_planeswalker() {
    let mut state = setup();
    let attacker = create_creature(&mut state, PlayerId(0), "Thorn Elemental", 4, 4);
    let blocker = create_creature(&mut state, PlayerId(1), "Wall", 0, 4);
    let pw = create_planeswalker(&mut state, PlayerId(1), "Test Planeswalker", 6);
    state.combat = Some(blocked_combat(
        AttackerInfo::new(attacker, AttackTarget::Planeswalker(pw), PlayerId(1)),
        blocker,
    ));

    let mut events = Vec::new();
    let waiting = handle_assign_combat_damage(
        &mut state,
        PlayerId(0),
        attacker,
        4,
        &[DamageSlot { blocker_id: blocker, lethal_minimum: 4 }],
        &BOTH_MODES,
        None,
        PlayerId(1),
        &AttackTarget::Planeswalker(pw),
        None,
        None,
        CombatDamageAssignmentMode::AsThoughUnblocked,
        &[],
        0,
        0,
        &mut events,
    )
    .unwrap();

    assert!(matches!(waiting, WaitingFor::Priority { .. }));
    assert_eq!(obj(&state, pw).loyalty, Some(2));
    assert_eq!(state.players[1].life, 20);
    assert_eq!(obj(&state, blocker).damage_marked, 0);
}

#[test]
fn normal_assignment_damages_the_blocker_only() {
    let mut state = setup();
    let attacker = create_creature(&mut state, PlayerId(0), "Thorn Elemental", 5, 5);
    let blocker = create_creature(&mut state, PlayerId(1), "Wall", 0, 6);
    state.combat = Some(blocked_combat(AttackerInfo::attacking_player(attacker, PlayerId(1)), blocker));
    let mut events = Vec::new();
    let waiting = handle_assign_combat_damage(
        &mut state,
        PlayerId(0),
        attacker,
        5,
        &[DamageSlot { blocker_id: blocker, lethal_minimum: 6 }],
        &BOTH_MODES,
        None,
        PlayerId(1),
        &AttackTarget::Player(PlayerId(1)),
        None,
        None,
        CombatDamageAssignmentMode::Normal,
        &[(blocker, 5)],
        0,
        0,
        &mut events,
    )
    .unwrap();
    assert!(matches!(waiting, WaitingFor::Priority { .. }));
    assert_eq!(obj(&state, blocker).damage_marked, 5);
    assert_eq!(state.players[1].life, 20);
}

fn refused(
    state: &mut GameState,
    attacker: ObjectId,
    blocker: ObjectId,
    modes: &[CombatDamageAssignmentMode],
    trample: Option<TrampleKind>,
    mode: CombatDamageAssignmentMode,
    assignments: &[(ObjectId, u32)],
    trample_damage: u32,
) -> EngineError {
    let mut events = Vec::new();
    let r = handle_assign_combat_damage(
        state,
        PlayerId(0),
        attacker,
        5,
        &[DamageSlot { blocker_id: blocker, lethal_minimum: 4 }],
        modes,
        trample,
        PlayerId(1),
        &AttackTarget::Player(PlayerId(1)),
        None,
        None,
        mode,
        assignments,
        trample_damage,
        0,
        &mut events,
    );
    assert!(events.is_empty());
    r.unwrap_err()
}

#[test]
fn refused_assignments_report_the_first_problem_and_change_nothing() {
    let mut state = setup();
    let attacker = create_creature(&mut state, PlayerId(0), "Thorn Elemental", 5, 5);
    let blocker = create_creature(&mut state, PlayerId(1), "Wall", 0, 4);
    let other = create_creature(&mut state, PlayerId(1), "Bystander", 1, 1);
    state.combat = Some(blocked_combat(AttackerInfo::attacking_player(attacker, PlayerId(1)), blocker));
    let normal = [CombatDamageAssignmentMode::Normal];

    assert_eq!(
        refused(&mut state, attacker, blocker, &normal, None, CombatDamageAssignmentMode::AsThoughUnblocked, &[], 0),
        EngineError::InvalidAction(ActionError::ModeNotAllowed {
            mode: CombatDamageAssignmentMode::AsThoughUnblocked,
            attacker_id: attacker
        })
    );
    assert_eq!(
        refused(
            &mut state,
            attacker,
            blocker,
            &BOTH_MODES,
            None,
            CombatDamageAssignmentMode::AsThoughUnblocked,
            &[(blocker, 5)],
            0
        ),
        EngineError::InvalidAction(ActionError::SplitsWithUnblockedMode)
    );
    assert_eq!(
        refused(&mut state, attacker, blocker, &normal, None, CombatDamageAssignmentMode::Normal, &[(blocker, 3)], 0),
        EngineError::InvalidAction(ActionError::TotalMismatch { assigned: 3, expected: 5 })
    );
    assert_eq!(
        refused(&mut state, attacker, blocker, &normal, None, CombatDamageAssignmentMode::Normal, &[(other, 5)], 0),
        EngineError::InvalidAction(ActionError::NotABlocker { blocker_id: other, attacker_id: attacker })
    );
    assert_eq!(
        refused(&mut state, attacker, blocker, &normal, None, CombatDamageAssignmentMode::Normal, &[(blocker, 4)], 1),
        EngineError::InvalidAction(ActionError::TrampleRequired)
    );
    assert_eq!(
        refused(
            &mut state,
            attacker,
            blocker,
            &normal,
            Some(TrampleKind::Standard),
            CombatDamageAssignmentMode::Normal,
            &[(blocker, 3)],
            2
        ),
        EngineError::InvalidAction(ActionError::BlockerNotLethal { blocker_id: blocker, lethal_minimum: 4 })
    );
    assert_eq!(obj(&state, blocker).damage_marked, 0);
    assert_eq!(state.players[1].life, 20);
}

#[test]
fn trample_excess_goes_to_the_defending_player() {
    let mut state = setup();
    let attacker = create_creature(&mut state, PlayerId(0), "Thorn Elemental", 5, 5);
    let blocker = create_creature(&mut state, PlayerId(1), "Wall", 0, 4);
    state.combat = Some(blocked_combat(AttackerInfo::attacking_player(attacker, PlayerId(1)), blocker));
    let mut events = Vec::new();
    handle_assign_combat_damage(
        &mut state,
        PlayerId(0),
        attacker,
        5,
        &[DamageSlot { blocker_id: blocker, lethal_minimum: 4 }],
        &[CombatDamageAssignmentMode::Normal],
        Some(TrampleKind::Standard),
        PlayerId(1),
        &AttackTarget::Player(PlayerId(1)),
        None,
        None,
        CombatDamageAssignmentMode::Normal,
        &[(blocker, 4)],
        1,
        0,
        &mut events,
    )
    .unwrap();
    assert_eq!(state.players[1].life, 19);
    // The blocker took lethal damage and state-based actions put it into the graveyard.
    assert_eq!(obj(&state, blocker).zone, Zone::Graveyard);
}

#[test]
fn only_the_active_player_declares_attackers() {
    let mut state = setup();
    let attacker = create_creature(&mut state, PlayerId(0), "Bear", 2, 2);
    let mut events = Vec::new();
    let r = handle_declare_attackers(
        &mut state,
        PlayerId(1),
        &[(attacker, AttackTarget::Player(PlayerId(1)))],
        &mut events,
    );
    assert_eq!(r, Err(EngineError::WrongPlayer));
    assert!(state.combat.is_none());
}

#[test]
fn declared_attacker_is_tapped_and_recorded() {
    let mut state = setup();
    let attacker = create_creature(&mut state, PlayerId(0), "Bear", 2, 2);
    let mut events = Vec::new();
    let r = handle_declare_attackers(
        &mut state,
        PlayerId(0),
        &[(attacker, AttackTarget::Player(PlayerId(1)))],
        &mut events,
    );
    assert_eq!(r, Ok(WaitingFor::Priority { player: PlayerId(0) }));
    assert!(obj(&state, attacker).tapped);
    let combat = state.combat.as_ref().unwrap();
    assert_eq!(combat.attackers, vec![AttackerInfo::attacking_player(attacker, PlayerId(1))]);
}

#[test]
fn summoning_sick_creature_cannot_attack() {
    let mut state = setup();
    let attacker = create_creature(&mut state, PlayerId(0), "Bear", 2, 2);
    obj_mut(&mut state, attacker).entered_battlefield_turn = Some(2);
    let mut events = Vec::new();
    let r = handle_declare_attackers(
        &mut state,
        PlayerId(0),
        &[(attacker, AttackTarget::Player(PlayerId(1)))],
        &mut events,
    );
    assert_eq!(r, Err(EngineError::InvalidAction(ActionError::IllegalAttacker { object_id: attacker })));
}

#[test]
fn empty_attackers_matches_declaring_none() {
    let mut a = setup();
    let mut b = setup();
    let mut ea = Vec::new();
    let mut eb = Vec::new();
    let ra = phase_engine::game::engine_combat::handle_empty_attackers(&mut a, &mut ea);
    let rb = handle_declare_attackers(&mut b, PlayerId(0), &[], &mut eb);
    assert_eq!(ra, rb);
    assert_eq!(ea, eb);
    assert_eq!(a.phase, b.phase);
    assert!(a.combat.is_none() && b.combat.is_none());
}
