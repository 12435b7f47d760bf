use vstd::prelude::*;

use crate::game::damage::{deal_damage, spec_deal_damage, DamageContext};
use crate::game::sba::{check_state_based_actions, game_over, spec_check_state_based_actions, spec_game_over};
use crate::game::zones::World;
use crate::seqs::{first_match, lemma_first_match, lemma_first_match_at};
use crate::state::{find_object, find_player, lemma_obj_idx, lemma_obj_idx_update, obj_idx, GameState, StateModel};
use crate::types::{
    evs, lemma_evs_push, ActionError, AttackTarget, AttackerInfo, CombatModel, CombatState,
    DamageAssignment, DamageTarget, GameEvent, GameEventView, GameObject, ObjectId, PlayerId,
    TrampleKind, WaitingFor, WaitingForView, Zone,
};

verus! {

/// CR 302.6: a creature that came under its controller's control this turn can't
/// attack unless it has haste.
pub open spec fn summoning_sick(s: StateModel, o: GameObject) -> bool {
    o.entered_battlefield_turn == Some(s.turn_number) && !o.keywords.haste
}

/// CR 508.1a: an untapped creature the active player controls, on the battlefield,
/// without defender and not summoning sick, can attack.
pub open spec fn can_attack(s: StateModel, id: ObjectId) -> bool {
    s.has_object(id) && {
        let o = s.obj(id);
        &&& o.zone == Zone::Battlefield
        &&& o.card_types.creature
        &&& o.controller == s.active_player
        &&& !o.tapped
        &&& !o.keywords.defender
        &&& !summoning_sick(s, o)
    }
}

/// CR 508.1b: a creature attacks an opponent, a planeswalker an opponent controls,
/// or a battle an opponent protects (CR 310.8b: never one the active player protects).
pub open spec fn attackable(s: StateModel, t: AttackTarget) -> bool {
    match t {
        AttackTarget::Player(p) => s.has_player(p) && p != s.active_player,
        AttackTarget::Planeswalker(pw) => s.on_battlefield(pw) && s.obj(pw).card_types.planeswalker
            && s.obj(pw).controller != s.active_player,
        AttackTarget::Battle(b) => s.on_battlefield(b) && match s.obj(b).spec_protector() {
            Some(p) => p != s.active_player,
            None => false,
        },
    }
}

/// CR 508.5, 310.8d: the defending player: the attacked player, the attacked
/// planeswalker's controller, or the attacked battle's protector.
pub open spec fn defending_player(s: StateModel, t: AttackTarget) -> PlayerId {
    match t {
        AttackTarget::Player(p) => p,
        AttackTarget::Planeswalker(pw) => s.obj(pw).controller,
        AttackTarget::Battle(b) => s.obj(b).protector.unwrap(),
    }
}

/// What is wrong with the `i`th declared attack, if anything.
pub open spec fn attack_error_at(s: StateModel, attacks: Seq<(ObjectId, AttackTarget)>, i: int) -> Option<
    ActionError,
> {
    let (id, t) = attacks[i];
    if !can_attack(s, id) || exists|j: int| 0 <= j < i && (#[trigger] attacks[j]).0 == id {
        Some(ActionError::IllegalAttacker { object_id: id })
    } else if !attackable(s, t) {
        Some(ActionError::IllegalAttackTarget { object_id: id })
    } else {
        None
    }
}

/// The first thing wrong with the first `k` declared attacks.
pub open spec fn spec_attack_error(s: StateModel, attacks: Seq<(ObjectId, AttackTarget)>, k: int) -> Option<
    ActionError,
>
    decreases k,
{
    if k <= 0 {
        None
    } else {
        match spec_attack_error(s, attacks, k - 1) {
            Some(e) => Some(e),
            None => attack_error_at(s, attacks, k - 1),
        }
    }
}

proof fn lemma_attack_error_stays(s: StateModel, attacks: Seq<(ObjectId, AttackTarget)>, k: int, n: int)
    requires
        0 <= k <= n,
        spec_attack_error(s, attacks, k) is Some,
    ensures
        spec_attack_error(s, attacks, n) == spec_attack_error(s, attacks, k),
    decreases n - k,
{
    if k < n {
        lemma_attack_error_stays(s, attacks, k, n - 1);
    }
}

proof fn lemma_attack_error_none(s: StateModel, attacks: Seq<(ObjectId, AttackTarget)>, k: int, i: int)
    requires
        0 <= i < k,
        spec_attack_error(s, attacks, k) is None,
    ensures
        attack_error_at(s, attacks, i) is None,
    decreases k,
{
    if i < k - 1 {
        lemma_attack_error_none(s, attacks, k - 1, i);
    }
}

pub open spec fn attacker_info(s: StateModel, a: (ObjectId, AttackTarget)) -> AttackerInfo {
    AttackerInfo {
        object_id: a.0,
        attack_target: a.1,
        defending_player: defending_player(s, a.1),
        blocked: false,
    }
}

/// The world after the first `k` attackers are declared: each is announced and,
/// unless it has vigilance, tapped (CR 508.1f).
pub open spec fn spec_tap_attackers(w: World, attacks: Seq<(ObjectId, AttackTarget)>, k: int) -> World
    decreases k,
{
    if k <= 0 {
        w
    } else {
        let w1 = spec_tap_attackers(w, attacks, k - 1);
        let (id, t) = attacks[k - 1];
        let ev = w1.1.push(GameEventView::AttackerDeclared { object_id: id, target: t });
        if w1.0.has_object(id) && !w1.0.obj(id).keywords.vigilance {
            (
                w1.0.set_obj(id, GameObject { tapped: true, ..w1.0.obj(id) }),
                ev.push(GameEventView::PermanentTapped { object_id: id }),
            )
        } else {
            (w1.0, ev)
        }
    }
}

/// Declaring attackers: refused with the first problem, else a new combat with
/// these attackers, each announced and tapped unless it has vigilance.
pub open spec fn spec_declare_attackers(w: World, attacks: Seq<(ObjectId, AttackTarget)>) -> (World, Result<
    (),
    ActionError,
>) {
    match spec_attack_error(w.0, attacks, attacks.len() as int) {
        Some(e) => (w, Err(e)),
        None => {
            let c = CombatModel {
                attackers: attacks.map_values(|a: (ObjectId, AttackTarget)| attacker_info(w.0, a)),
                blocks: Seq::empty(),
                pending_damage: Seq::empty(),
                damage_step_index: None,
            };
            (
                spec_tap_attackers(
                    (StateModel { combat: Some(c), ..w.0 }, w.1),
                    attacks,
                    attacks.len() as int,
                ),
                Ok(()),
            )
        },
    }
}

fn check_attack(state: &GameState, attacks: &[(ObjectId, AttackTarget)], i: usize) -> (r: Option<
    ActionError,
>)
    requires
        i < attacks@.len(),
    ensures
        r == attack_error_at(state@, attacks@, i as int),
{
    let (id, t) = attacks[i];
    let mut j: usize = 0;
    while j < i
        invariant
            i < attacks@.len(),
            j <= i,
            forall|k: int| 0 <= k < j ==> (#[trigger] attacks@[k]).0 != id,
            id == attacks@[i as int].0,
        decreases i - j,
    {
        if attacks[j].0 == id {
            return Some(ActionError::IllegalAttacker { object_id: id });
        }
        j += 1;
    }
    let attacker_ok = match state.object(id) {
        Some(o) => o.zone == Zone::Battlefield && o.card_types.creature && o.controller
            == state.active_player && !o.tapped && !o.keywords.defender && !(
        o.entered_battlefield_turn == Some(state.turn_number) && !o.keywords.haste),
        None => false,
    };
    if !attacker_ok {
        return Some(ActionError::IllegalAttacker { object_id: id });
    }
    let target_ok = match t {
        AttackTarget::Player(p) => find_player(&state.players, p).is_some() && p
            != state.active_player,
        AttackTarget::Planeswalker(pw) => match state.object(pw) {
            Some(o) => o.zone == Zone::Battlefield && o.card_types.planeswalker && o.controller
                != state.active_player,
            None => false,
        },
        AttackTarget::Battle(b) => match state.object(b) {
            Some(o) => o.zone == Zone::Battlefield && match o.protector() {
                Some(p) => p != state.active_player,
                None => false,
            },
            None => false,
        },
    };
    if !target_ok {
        return Some(ActionError::IllegalAttackTarget { object_id: id });
    }
    None
}

fn defender_of(state: &GameState, t: AttackTarget) -> (r: PlayerId)
    requires
        attackable(state@, t),
    ensures
        r == defending_player(state@, t),
{
    match t {
        AttackTarget::Player(p) => p,
        AttackTarget::Planeswalker(pw) => match state.object(pw) {
            Some(o) => o.controller,
            None => state.active_player,
        },
        AttackTarget::Battle(b) => match state.object(b) {
            Some(o) => match o.protector {
                Some(p) => p,
                None => state.active_player,
            },
            None => state.active_player,
        },
    }
}

/// CR 508.1: declare attackers. Refused with the first problem found, in
/// declaration order; otherwise combat starts with these attackers.
pub fn declare_attackers(
    state: &mut GameState,
    attacks: &[(ObjectId, AttackTarget)],
    events: &mut Vec<GameEvent>,
) -> (r: Result<(), ActionError>)
    ensures
        ((final(state)@, evs(final(events)@)), r) == spec_declare_attackers(
            (old(state)@, evs(old(events)@)),
            attacks@,
        ),
{
    let n = attacks.len();
    let mut i: usize = 0;
    while i < n
        invariant
            n == attacks@.len(),
            i <= n,
            spec_attack_error(state@, attacks@, i as int) is None,
        decreases n - i,
    {
        match check_attack(state, attacks, i) {
            Some(e) => {
                proof {
                    lemma_attack_error_stays(state@, attacks@, i + 1, n as int);
                }
                return Err(e);
            },
            None => {},
        }
        i += 1;
    }
    let ghost s0 = state@;
    let mut infos: Vec<AttackerInfo> = Vec::new();
    let mut k: usize = 0;
    while k < n
        invariant
            n == attacks@.len(),
            k <= n,
            state@ == s0,
            spec_attack_error(s0, attacks@, n as int) is None,
            infos@ == attacks@.take(k as int).map_values(
                |a: (ObjectId, AttackTarget)| attacker_info(s0, a),
            ),
        decreases n - k,
    {
        proof {
            lemma_attack_error_none(s0, attacks@, n as int, k as int);
        }
        let (id, t) = attacks[k];
        let d = defender_of(state, t);
        infos.push(AttackerInfo { object_id: id, attack_target: t, defending_player: d, blocked: false });
        proof {
            assert(infos@ =~= attacks@.take(k + 1).map_values(
                |a: (ObjectId, AttackTarget)| attacker_info(s0, a),
            ));
        }
        k += 1;
    }
    assert(attacks@.take(n as int) =~= attacks@);
    state.combat = Some(
        CombatState {
            attackers: infos,
            blocks: Vec::new(),
            pending_damage: Vec::new(),
            damage_step_index: None,
        },
    );
    let ghost w1 = (state@, evs(events@));
    let mut m: usize = 0;
    while m < n
        invariant
            n == attacks@.len(),
            m <= n,
            (state@, evs(events@)) == spec_tap_attackers(w1, attacks@, m as int),
        decreases n - m,
    {
        let (id, t) = attacks[m];
        proof {
            lemma_evs_push(events@, GameEvent::AttackerDeclared { object_id: id, target: t });
            lemma_obj_idx(state@.objects, id);
        }
        events.push(GameEvent::AttackerDeclared { object_id: id, target: t });
        match find_object(&state.objects, id) {
            Some(j) => {
                if !state.objects[j].keywords.vigilance {
                    let ghost prev = state@.objects;
                    let mut o = state.objects.remove(j);
                    o.tapped = true;
                    state.objects.insert(j, o);
                    proof {
                        lemma_evs_push(events@, GameEvent::PermanentTapped { object_id: id });
                    }
                    events.push(GameEvent::PermanentTapped { object_id: id });
                    assert(state@.objects =~= prev.update(
                        j as int,
                        GameObject { tapped: true, ..prev[j as int] },
                    ));
                }
            },
            None => {},
        }
        m += 1;
    }
    Ok(())
}


pub open spec fn is_attacker(a: ObjectId) -> spec_fn(AttackerInfo) -> bool {
    |ai: AttackerInfo| ai.object_id == a
}

/// Position of attacker `a` in the combat, or -1.
pub open spec fn attacker_pos(c: CombatModel, a: ObjectId) -> int {
    first_match(c.attackers, is_attacker(a))
}

/// CR 509.1a: an untapped creature on the battlefield can block an attacker whose
/// defending player controls it.
pub open spec fn can_block(s: StateModel, c: CombatModel, b: ObjectId, a: ObjectId) -> bool {
    &&& s.on_battlefield(b)
    &&& s.obj(b).card_types.creature
    &&& !s.obj(b).tapped
    &&& attacker_pos(c, a) >= 0
    &&& s.obj(b).controller == c.attackers[attacker_pos(c, a)].defending_player
}

/// What is wrong with the `i`th declared block, if anything (a creature blocks once).
pub open spec fn block_error_at(s: StateModel, c: CombatModel, blocks: Seq<(ObjectId, ObjectId)>, i: int) -> Option<
    ActionError,
> {
    let (b, a) = blocks[i];
    if !can_block(s, c, b, a) || exists|j: int| 0 <= j < i && (#[trigger] blocks[j]).0 == b {
        Some(ActionError::IllegalBlocker { object_id: b })
    } else {
        None
    }
}

/// The first thing wrong with the first `k` declared blocks.
pub open spec fn spec_block_error(s: StateModel, c: CombatModel, blocks: Seq<(ObjectId, ObjectId)>, k: int) -> Option<
    ActionError,
>
    decreases k,
{
    if k <= 0 {
        None
    } else {
        match spec_block_error(s, c, blocks, k - 1) {
            Some(e) => Some(e),
            None => block_error_at(s, c, blocks, k - 1),
        }
    }
}

proof fn lemma_block_error_stays(
    s: StateModel,
    c: CombatModel,
    blocks: Seq<(ObjectId, ObjectId)>,
    k: int,
    n: int,
)
    requires
        0 <= k <= n,
        spec_block_error(s, c, blocks, k) is Some,
    ensures
        spec_block_error(s, c, blocks, n) == spec_block_error(s, c, blocks, k),
    decreases n - k,
{
    if k < n {
        lemma_block_error_stays(s, c, blocks, k, n - 1);
    }
}

/// Is attacker `a` among the blocked ones?
pub open spec fn blocked_by_any(blocks: Seq<(ObjectId, ObjectId)>, a: ObjectId) -> bool {
    exists|j: int| 0 <= j < blocks.len() && (#[trigger] blocks[j]).1 == a
}

pub open spec fn mark_blocked(blocks: Seq<(ObjectId, ObjectId)>, ai: AttackerInfo) -> AttackerInfo {
    AttackerInfo { blocked: ai.blocked || blocked_by_any(blocks, ai.object_id), ..ai }
}

pub open spec fn block_event(p: (ObjectId, ObjectId)) -> GameEventView {
    GameEventView::BlockerDeclared { blocker_id: p.0, attacker_id: p.1 }
}

/// Declaring blockers: refused without a combat or with the first bad block; else
/// the blocks are recorded, blocked attackers marked, and each block announced.
pub open spec fn spec_declare_blockers(w: World, blocks: Seq<(ObjectId, ObjectId)>) -> (World, Result<
    (),
    ActionError,
>) {
    match w.0.combat {
        None => (w, Err(ActionError::NoCombat)),
        Some(c) => match spec_block_error(w.0, c, blocks, blocks.len() as int) {
            Some(e) => (w, Err(e)),
            None => (
                (
                    StateModel {
                        combat: Some(
                            CombatModel {
                                attackers: c.attackers.map_values(
                                    |ai: AttackerInfo| mark_blocked(blocks, ai),
                                ),
                                blocks,
                                ..c
                            },
                        ),
                        ..w.0
                    },
                    w.1 + blocks.map_values(|p: (ObjectId, ObjectId)| block_event(p)),
                ),
                Ok(()),
            ),
        },
    }
}

pub fn find_attacker(attackers: &Vec<AttackerInfo>, a: ObjectId) -> (r: Option<usize>)
    ensures
        match r {
            Some(i) => first_match(attackers@, is_attacker(a)) == i as int && i < attackers@.len(),
            None => first_match(attackers@, is_attacker(a)) == -1,
        },
{
    proof {
        lemma_first_match(attackers@, is_attacker(a));
    }
    let mut i: usize = 0;
    while i < attackers.len()
        invariant
            i <= attackers@.len(),
            forall|j: int| 0 <= j < i ==> (#[trigger] attackers@[j]).object_id != a,
        decreases attackers@.len() - i,
    {
        if attackers[i].object_id == a {
            proof {
                assert forall|j: int| 0 <= j < i implies !is_attacker(a)(#[trigger] attackers@[j]) by {}
                lemma_first_match_at(attackers@, is_attacker(a), i as int);
            }
            return Some(i);
        }
        i += 1;
    }
    proof {
        assert forall|j: int| 0 <= j < attackers@.len() implies !is_attacker(a)(
            #[trigger] attackers@[j],
        ) by {}
    }
    None
}

fn check_block(state: &GameState, attackers: &Vec<AttackerInfo>, blocks: &[(ObjectId, ObjectId)], i: usize) -> (r:
    Option<ActionError>)
    requires
        i < blocks@.len(),
        state@.combat matches Some(c) && c.attackers == attackers@,
    ensures
        r == block_error_at(state@, state@.combat.unwrap(), blocks@, i as int),
{
    let (b, a) = blocks[i];
    let mut j: usize = 0;
    while j < i
        invariant
            i < blocks@.len(),
            j <= i,
            forall|k: int| 0 <= k < j ==> (#[trigger] blocks@[k]).0 != b,
            b == blocks@[i as int].0,
        decreases i - j,
    {
        if blocks[j].0 == b {
            return Some(ActionError::IllegalBlocker { object_id: b });
        }
        j += 1;
    }
    let ok = match state.object(b) {
        Some(o) => o.zone == Zone::Battlefield && o.card_types.creature && !o.tapped && match find_attacker(
            attackers,
            a,
        ) {
            Some(k) => o.controller == attackers[k].defending_player,
            None => false,
        },
        None => false,
    };
    if !ok {
        return Some(ActionError::IllegalBlocker { object_id: b });
    }
    None
}

/// CR 509.1: declare blockers as (blocker, attacker) pairs.
pub fn declare_blockers(state: &mut GameState, blocks: &[(ObjectId, ObjectId)], events: &mut Vec<GameEvent>) -> (r:
    Result<(), ActionError>)
    ensures
        ((final(state)@, evs(final(events)@)), r) == spec_declare_blockers(
            (old(state)@, evs(old(events)@)),
            blocks@,
        ),
{
    let combat = match state.combat.take() {
        Some(c) => c,
        None => {
            return Err(ActionError::NoCombat);
        },
    };
    let CombatState { attackers, blocks: old_blocks, pending_damage, damage_step_index } = combat;
    state.combat = Some(CombatState { attackers, blocks: old_blocks, pending_damage, damage_step_index });
    assert(state@ == old(state)@);
    let attackers = match &state.combat {
        Some(c) => c.attackers.clone(),
        None => Vec::new(),
    };
    assert(attackers@ =~= state@.combat.unwrap().attackers);
    let n = blocks.len();
    let mut i: usize = 0;
    while i < n
        invariant
            n == blocks@.len(),
            i <= n,
            state@ == old(state)@,
            state@.combat matches Some(c) && c.attackers == attackers@,
            spec_block_error(state@, state@.combat.unwrap(), blocks@, i as int) is None,
        decreases n - i,
    {
        match check_block(state, &attackers, blocks, i) {
            Some(e) => {
                proof {
                    lemma_block_error_stays(state@, state@.combat.unwrap(), blocks@, i + 1, n as int);
                }
                return Err(e);
            },
            None => {},
        }
        i += 1;
    }
    let mut marked: Vec<AttackerInfo> = Vec::new();
    let mut k: usize = 0;
    while k < attackers.len()
        invariant
            k <= attackers@.len(),
            n == blocks@.len(),
            marked@ == attackers@.take(k as int).map_values(
                |ai: AttackerInfo| mark_blocked(blocks@, ai),
            ),
        decreases attackers@.len() - k,
    {
        let ai = attackers[k];
        let mut hit = false;
        let mut j: usize = 0;
        while j < n
            invariant
                n == blocks@.len(),
                j <= n,
                hit == exists|q: int| 0 <= q < j && (#[trigger] blocks@[q]).1 == ai.object_id,
            decreases n - j,
        {
            if blocks[j].1 == ai.object_id {
                hit = true;
            }
            j += 1;
        }
        marked.push(AttackerInfo { blocked: ai.blocked || hit, ..ai });
        proof {
            assert(marked@ =~= attackers@.take(k + 1).map_values(
                |ai: AttackerInfo| mark_blocked(blocks@, ai),
            ));
        }
        k += 1;
    }
    assert(attackers@.take(attackers@.len() as int) =~= attackers@);
    let ghost ev0 = evs(events@);
    let mut m: usize = 0;
    while m < n
        invariant
            n == blocks@.len(),
            m <= n,
            evs(events@) == ev0 + blocks@.take(m as int).map_values(
                |p: (ObjectId, ObjectId)| block_event(p),
            ),
        decreases n - m,
    {
        let (b, a) = blocks[m];
        proof {
            lemma_evs_push(events@, GameEvent::BlockerDeclared { blocker_id: b, attacker_id: a });
        }
        events.push(GameEvent::BlockerDeclared { blocker_id: b, attacker_id: a });
        proof {
            assert(ev0 + blocks@.take(m + 1).map_values(|p: (ObjectId, ObjectId)| block_event(p))
                =~= (ev0 + blocks@.take(m as int).map_values(
                |p: (ObjectId, ObjectId)| block_event(p),
            )).push(block_event(blocks@[m as int])));
        }
        m += 1;
    }
    assert(blocks@.take(n as int) =~= blocks@);
    let mut recorded: Vec<(ObjectId, ObjectId)> = Vec::new();
    let mut q: usize = 0;
    while q < n
        invariant
            n == blocks@.len(),
            q <= n,
            recorded@ == blocks@.take(q as int),
        decreases n - q,
    {
        recorded.push(blocks[q]);
        assert(recorded@ =~= blocks@.take(q + 1));
        q += 1;
    }
    let c = state.combat.take();
    match c {
        Some(c) => {
            state.combat = Some(
                CombatState {
                    attackers: marked,
                    blocks: recorded,
                    pending_damage: c.pending_damage,
                    damage_step_index: c.damage_step_index,
                },
            );
        },
        None => {},
    }
    Ok(())
}

/// CR 510.1c-d: where damage assigned as though the attacker weren't blocked goes:
/// the attacked player; the attacked planeswalker or battle while it is on the
/// battlefield; or, with trample over planeswalkers, the defending player once the
/// planeswalker is gone.
pub open spec fn unblocked_target(s: StateModel, t: AttackTarget, trample: Option<TrampleKind>, defending: PlayerId) -> Option<
    DamageTarget,
> {
    match t {
        AttackTarget::Player(p) => Some(DamageTarget::Player(p)),
        AttackTarget::Planeswalker(pw) => if s.on_battlefield(pw) {
            Some(DamageTarget::Object(pw))
        } else if trample == Some(TrampleKind::OverPlaneswalkers) {
            Some(DamageTarget::Player(defending))
        } else {
            None
        },
        AttackTarget::Battle(b) => if s.on_battlefield(b) {
            Some(DamageTarget::Object(b))
        } else {
            None
        },
    }
}

pub fn target_when_unblocked(state: &GameState, t: AttackTarget, trample: Option<TrampleKind>, defending: PlayerId) -> (r:
    Option<DamageTarget>)
    ensures
        r == unblocked_target(state@, t, trample, defending),
{
    match t {
        AttackTarget::Player(p) => Some(DamageTarget::Player(p)),
        AttackTarget::Planeswalker(pw) => {
            let here = match state.object(pw) {
                Some(o) => o.zone == Zone::Battlefield,
                None => false,
            };
            if here {
                Some(DamageTarget::Object(pw))
            } else if trample == Some(TrampleKind::OverPlaneswalkers) {
                Some(DamageTarget::Player(defending))
            } else {
                None
            }
        },
        AttackTarget::Battle(b) => {
            let here = match state.object(b) {
                Some(o) => o.zone == Zone::Battlefield,
                None => false,
            };
            if here {
                Some(DamageTarget::Object(b))
            } else {
                None
            }
        },
    }
}

/// All the damage, as one assignment to the unblocked target (none when there is
/// no damage or no target).
pub open spec fn spec_unblocked_assignments(s: StateModel, info: AttackerInfo, total: u32, trample: Option<
    TrampleKind,
>) -> Seq<DamageAssignment> {
    match unblocked_target(s, info.attack_target, trample, info.defending_player) {
        Some(t) => if total > 0 {
            seq![DamageAssignment { target: t, amount: total }]
        } else {
            Seq::empty()
        },
        None => Seq::empty(),
    }
}

/// CR 510.1c: assign an attacker's damage as though it weren't blocked.
pub fn assign_damage_as_though_unblocked(
    state: &GameState,
    info: &AttackerInfo,
    total: u32,
    trample: Option<TrampleKind>,
) -> (r: Vec<DamageAssignment>)
    ensures
        r@ == spec_unblocked_assignments(state@, *info, total, trample),
{
    let mut out: Vec<DamageAssignment> = Vec::new();
    match target_when_unblocked(state, info.attack_target, trample, info.defending_player) {
        Some(t) => {
            if total > 0 {
                out.push(DamageAssignment { target: t, amount: total });
            }
        },
        None => {},
    }
    assert(out@ =~= spec_unblocked_assignments(state@, *info, total, trample));
    out
}

/// The context in which a source deals damage: as it is now, or, once it is gone,
/// controlled by the active player without lifelink.
pub open spec fn damage_context(s: StateModel, source_id: ObjectId) -> DamageContext {
    match DamageContext::spec_from_source(s, source_id) {
        Some(c) => c,
        None => DamageContext { source_id, controller: s.active_player, lifelink: false },
    }
}

/// The world after the first `k` pending assignments are dealt, in order.
pub open spec fn spec_deal_pending(w: World, pending: Seq<(ObjectId, DamageAssignment)>, k: int) -> World
    decreases k,
{
    if k <= 0 {
        w
    } else {
        let w1 = spec_deal_pending(w, pending, k - 1);
        let (src, a) = pending[k - 1];
        spec_deal_damage(w1, damage_context(w1.0, src), a.target, a.amount)
    }
}

/// CR 510.2: combat damage is dealt: all pending assignments, then state-based
/// actions; the result says whether the game is over.
pub open spec fn spec_resolve_combat_damage(w: World) -> (World, Option<WaitingForView>) {
    let w1 = match w.0.combat {
        Some(c) => spec_deal_pending(
            (StateModel { combat: Some(CombatModel { pending_damage: Seq::empty(), ..c }), ..w.0 }, w.1),
            c.pending_damage,
            c.pending_damage.len() as int,
        ),
        None => w,
    };
    let w2 = spec_check_state_based_actions(w1);
    (w2, spec_game_over(w2.0.players))
}

pub fn resolve_combat_damage(state: &mut GameState, events: &mut Vec<GameEvent>) -> (r: Option<WaitingFor>)
    ensures
        (final(state)@, evs(final(events)@)) == spec_resolve_combat_damage(
            (old(state)@, evs(old(events)@)),
        ).0,
        match spec_resolve_combat_damage((old(state)@, evs(old(events)@))).1 {
            Some(v) => r matches Some(x) && x@ == v,
            None => r is None,
        },
{
    let pending = match state.combat.take() {
        Some(c) => {
            let CombatState { attackers, blocks, pending_damage, damage_step_index } = c;
            state.combat = Some(
                CombatState { attackers, blocks, pending_damage: Vec::new(), damage_step_index },
            );
            pending_damage
        },
        None => Vec::new(),
    };
    let ghost w0 = (state@, evs(events@));
    let n = pending.len();
    let mut i: usize = 0;
    while i < n
        invariant
            n == pending@.len(),
            i <= n,
            (state@, evs(events@)) == spec_deal_pending(w0, pending@, i as int),
        decreases n - i,
    {
        let (src, a) = pending[i];
        let ctx = match DamageContext::from_source(state, src) {
            Some(c) => c,
            None => DamageContext::fallback(src, state.active_player),
        };
        deal_damage(state, ctx, a.target, a.amount, events);
        i += 1;
    }
    check_state_based_actions(state, events);
    game_over(&state.players)
}

/// CR 310.8b: a battle's protector can never attack it: a declaration in which the
/// active player attacks a battle they protect is refused.
pub proof fn law_protector_cannot_attack_own_battle(
    s: StateModel,
    attacks: Seq<(ObjectId, AttackTarget)>,
    i: int,
    battle: ObjectId,
)
    requires
        0 <= i < attacks.len(),
        attacks[i].1 == AttackTarget::Battle(battle),
        s.has_object(battle),
        s.obj(battle).spec_protector() == Some(s.active_player),
    ensures
        spec_attack_error(s, attacks, attacks.len() as int) is Some,
{
    if spec_attack_error(s, attacks, attacks.len() as int) is None {
        lemma_attack_error_none(s, attacks, attacks.len() as int, i);
    }
}

proof fn lemma_tap_attackers_keeps_combat(w: World, attacks: Seq<(ObjectId, AttackTarget)>, k: int)
    ensures
        spec_tap_attackers(w, attacks, k).0.combat == w.0.combat,
    decreases k,
{
    if k > 0 {
        lemma_tap_attackers_keeps_combat(w, attacks, k - 1);
    }
}

/// CR 310.8d, 508.5: in an accepted declaration, each creature attacking a battle
/// has that battle's protector as its defending player.
pub proof fn law_battle_defender_is_protector(
    w: World,
    attacks: Seq<(ObjectId, AttackTarget)>,
    i: int,
    battle: ObjectId,
)
    requires
        spec_declare_attackers(w, attacks).1 is Ok,
        0 <= i < attacks.len(),
        attacks[i].1 == AttackTarget::Battle(battle),
    ensures
        spec_declare_attackers(w, attacks).0.0.combat matches Some(c) && c.attackers[i].defending_player
            == w.0.obj(battle).spec_protector().unwrap(),
{
    lemma_attack_error_none(w.0, attacks, attacks.len() as int, i);
    let c = CombatModel {
        attackers: attacks.map_values(|a: (ObjectId, AttackTarget)| attacker_info(w.0, a)),
        blocks: Seq::empty(),
        pending_damage: Seq::empty(),
        damage_step_index: None,
    };
    lemma_tap_attackers_keeps_combat((StateModel { combat: Some(c), ..w.0 }, w.1), attacks, attacks.len() as int);
}

/// CR 509.1h: in an accepted declaration of blockers, every attacker named by some
/// block becomes blocked; an attacker named by no block keeps its flag; the attackers
/// stay the same creatures in the same order, and the blocks are those declared.
pub proof fn law_declared_blocks_mark_attackers_blocked(w: World, blocks: Seq<(ObjectId, ObjectId)>)
    requires
        spec_declare_blockers(w, blocks).1 is Ok,
    ensures
        ({
            let c = w.0.combat.unwrap();
            let c2 = spec_declare_blockers(w, blocks).0.0.combat.unwrap();
            &&& w.0.combat is Some
            &&& spec_declare_blockers(w, blocks).0.0.combat is Some
            &&& c2.blocks == blocks
            &&& c2.attackers.len() == c.attackers.len()
            &&& forall|i: int|
                0 <= i < c.attackers.len() ==> {
                    &&& (#[trigger] c2.attackers[i]).object_id == c.attackers[i].object_id
                    &&& c2.attackers[i].attack_target == c.attackers[i].attack_target
                    &&& c2.attackers[i].defending_player == c.attackers[i].defending_player
                    &&& (exists|j: int| 0 <= j < blocks.len() && blocks[j].1 == c.attackers[i].object_id)
                        ==> c2.attackers[i].blocked
                    &&& (forall|j: int| 0 <= j < blocks.len() ==> blocks[j].1 != c.attackers[i].object_id)
                        ==> c2.attackers[i].blocked == c.attackers[i].blocked
                }
        }),
{
    let c = w.0.combat.unwrap();
    let c2 = spec_declare_blockers(w, blocks).0.0.combat.unwrap();
    assert forall|i: int| 0 <= i < c.attackers.len() implies (exists|j: int|
        0 <= j < blocks.len() && blocks[j].1 == c.attackers[i].object_id) ==> (#[trigger] c2.attackers[i]).blocked by {
        if exists|j: int| 0 <= j < blocks.len() && blocks[j].1 == c.attackers[i].object_id {
            let j = choose|j: int| 0 <= j < blocks.len() && blocks[j].1 == c.attackers[i].object_id;
            assert(blocked_by_any(blocks, c.attackers[i].object_id));
        }
    }
}

proof fn lemma_block_error_none(s: StateModel, c: CombatModel, blocks: Seq<(ObjectId, ObjectId)>, k: int)
    requires
        0 <= k <= blocks.len(),
    ensures
        spec_block_error(s, c, blocks, k) is None <==> forall|i: int|
            0 <= i < k ==> #[trigger] block_error_at(s, c, blocks, i) is None,
    decreases k,
{
    if k > 0 {
        lemma_block_error_none(s, c, blocks, k - 1);
    }
}

/// CR 509.1a-b: a declaration of blockers during combat is accepted exactly when
/// each block names, as blocker, an untapped creature on the battlefield that the
/// attacker's defending player controls, blocking a creature that is attacking, and
/// no creature blocks twice. A refused declaration changes nothing.
pub proof fn law_blocks_accepted_iff_legal(w: World, blocks: Seq<(ObjectId, ObjectId)>)
    requires
        w.0.combat is Some,
    ensures
        ({
            let c = w.0.combat.unwrap();
            &&& spec_declare_blockers(w, blocks).1 is Ok <==> forall|i: int|
                0 <= i < blocks.len() ==> {
                    let b = (#[trigger] blocks[i]).0;
                    let a = blocks[i].1;
                    &&& w.0.on_battlefield(b)
                    &&& w.0.obj(b).card_types.creature
                    &&& !w.0.obj(b).tapped
                    &&& attacker_pos(c, a) >= 0
                    &&& w.0.obj(b).controller == c.attackers[attacker_pos(c, a)].defending_player
                    &&& forall|j: int| 0 <= j < i ==> blocks[j].0 != b
                }
            &&& spec_declare_blockers(w, blocks).1 is Err ==> spec_declare_blockers(w, blocks).0 == w
        }),
{
    let c = w.0.combat.unwrap();
    lemma_block_error_none(w.0, c, blocks, blocks.len() as int);
    if spec_block_error(w.0, c, blocks, blocks.len() as int) is None {
        assert forall|i: int| 0 <= i < blocks.len() implies {
            let b = (#[trigger] blocks[i]).0;
            let a = blocks[i].1;
            &&& w.0.on_battlefield(b)
            &&& w.0.obj(b).card_types.creature
            &&& !w.0.obj(b).tapped
            &&& attacker_pos(c, a) >= 0
            &&& w.0.obj(b).controller == c.attackers[attacker_pos(c, a)].defending_player
            &&& forall|j: int| 0 <= j < i ==> blocks[j].0 != b
        } by {
            assert(block_error_at(w.0, c, blocks, i) is None);
        }
    } else {
        let i = choose|i: int| 0 <= i < blocks.len() && !(block_error_at(w.0, c, blocks, i) is None);
        let b = blocks[i].0;
        if exists|j: int| 0 <= j < i && (#[trigger] blocks[j]).0 == b {
            let j = choose|j: int| 0 <= j < i && (#[trigger] blocks[j]).0 == b;
            assert(blocks[j].0 == b);
        }
    }
}

/// CR 508.1: an accepted declaration of attackers starts a combat that records each
/// declared attacker, in order, with what it attacks, unblocked, and no blocks or
/// damage yet; an attacked player is the defending player.
pub proof fn law_declared_attackers_are_recorded(w: World, attacks: Seq<(ObjectId, AttackTarget)>)
    requires
        spec_declare_attackers(w, attacks).1 is Ok,
    ensures
        ({
            let c = spec_declare_attackers(w, attacks).0.0.combat;
            &&& c is Some
            &&& c.unwrap().attackers.len() == attacks.len()
            &&& c.unwrap().blocks.len() == 0
            &&& c.unwrap().pending_damage.len() == 0
            &&& forall|i: int|
                0 <= i < attacks.len() ==> {
                    &&& (#[trigger] c.unwrap().attackers[i]).object_id == attacks[i].0
                    &&& c.unwrap().attackers[i].attack_target == attacks[i].1
                    &&& !c.unwrap().attackers[i].blocked
                    &&& (attacks[i].1 matches AttackTarget::Player(p) ==> c.unwrap().attackers[i].defending_player
                        == p)
                }
        }),
{
    let c = CombatModel {
        attackers: attacks.map_values(|a: (ObjectId, AttackTarget)| attacker_info(w.0, a)),
        blocks: Seq::empty(),
        pending_damage: Seq::empty(),
        damage_step_index: None,
    };
    lemma_tap_attackers_keeps_combat((StateModel { combat: Some(c), ..w.0 }, w.1), attacks, attacks.len() as int);
}

proof fn lemma_tap_attackers_objects(w: World, attacks: Seq<(ObjectId, AttackTarget)>, k: int)
    requires
        0 <= k <= attacks.len(),
    ensures
        forall|id: ObjectId|
            #[trigger] spec_tap_attackers(w, attacks, k).0.has_object(id) == w.0.has_object(id),
        forall|id: ObjectId|
            w.0.has_object(id) ==> {
                let o = spec_tap_attackers(w, attacks, k).0.obj(id);
                &&& o == (GameObject { tapped: o.tapped, ..w.0.obj(id) })
                &&& o.tapped == (w.0.obj(id).tapped || (!w.0.obj(id).keywords.vigilance && exists|j: int|
                    0 <= j < k && (#[trigger] attacks[j]).0 == id))
            },
    decreases k,
{
    if k > 0 {
        lemma_tap_attackers_objects(w, attacks, k - 1);
        let w1 = spec_tap_attackers(w, attacks, k - 1);
        let id = attacks[k - 1].0;
        lemma_obj_idx(w1.0.objects, id);
        if w1.0.has_object(id) && !w1.0.obj(id).keywords.vigilance {
            let i = obj_idx(w1.0.objects, id);
            let o = GameObject { tapped: true, ..w1.0.obj(id) };
            assert(spec_tap_attackers(w, attacks, k).0 == w1.0.set_obj_at(i, o));
            assert forall|x: ObjectId| #[trigger] spec_tap_attackers(w, attacks, k).0.has_object(x)
                == w.0.has_object(x) by {
                lemma_obj_idx_update(w1.0.objects, i, o, x);
                assert(w1.0.has_object(x) == w.0.has_object(x));
                assert(spec_tap_attackers(w, attacks, k).0.objects == w1.0.objects.update(i, o));
            }
            assert forall|x: ObjectId| w.0.has_object(x) implies {
                let ox = spec_tap_attackers(w, attacks, k).0.obj(x);
                &&& ox == (GameObject { tapped: ox.tapped, ..w.0.obj(x) })
                &&& ox.tapped == (w.0.obj(x).tapped || (!w.0.obj(x).keywords.vigilance && exists|j: int|
                    0 <= j < k && (#[trigger] attacks[j]).0 == x))
            } by {
                lemma_obj_idx_update(w1.0.objects, i, o, x);
                lemma_obj_idx(w1.0.objects, x);
                assert(w1.0.has_object(x) == w.0.has_object(x));
                assert(spec_tap_attackers(w, attacks, k).0.objects == w1.0.objects.update(i, o));
                if x == id {
                    assert(attacks[k - 1].0 == x);
                } else {
                    if exists|j: int| 0 <= j < k && (#[trigger] attacks[j]).0 == x {
                        let j = choose|j: int| 0 <= j < k && (#[trigger] attacks[j]).0 == x;
                        assert(j < k - 1);
                    }
                }
            }
        } else {
            assert(spec_tap_attackers(w, attacks, k).0 == w1.0);
            assert forall|x: ObjectId| w.0.has_object(x) implies {
                let ox = spec_tap_attackers(w, attacks, k).0.obj(x);
                &&& ox == (GameObject { tapped: ox.tapped, ..w.0.obj(x) })
                &&& ox.tapped == (w.0.obj(x).tapped || (!w.0.obj(x).keywords.vigilance && exists|j: int|
                    0 <= j < k && (#[trigger] attacks[j]).0 == x))
            } by {
                if x == id {
                    if w.0.has_object(x) {
                        assert(w1.0.has_object(x));
                        assert(w1.0.obj(x).keywords.vigilance);
                    }
                } else {
                    if exists|j: int| 0 <= j < k && (#[trigger] attacks[j]).0 == x {
                        let j = choose|j: int| 0 <= j < k && (#[trigger] attacks[j]).0 == x;
                        assert(j < k - 1);
                    }
                }
            }
        }
    }
}

/// CR 508.1f: in an accepted declaration of attackers, each attacker becomes tapped
/// unless it has vigilance (CR 702.20b), in which case it stays untapped; nothing
/// else about any object changes, and no other object is tapped.
pub proof fn law_attackers_tap_unless_vigilant(w: World, attacks: Seq<(ObjectId, AttackTarget)>, id: ObjectId)
    requires
        spec_declare_attackers(w, attacks).1 is Ok,
        w.0.has_object(id),
    ensures
        ({
            let s2 = spec_declare_attackers(w, attacks).0.0;
            let o = s2.obj(id);
            &&& s2.has_object(id)
            &&& o == (GameObject { tapped: o.tapped, ..w.0.obj(id) })
            &&& (exists|j: int| 0 <= j < attacks.len() && attacks[j].0 == id) ==> o.tapped
                == !w.0.obj(id).keywords.vigilance
            &&& (forall|j: int| 0 <= j < attacks.len() ==> attacks[j].0 != id) ==> o.tapped == w.0.obj(id).tapped
        }),
{
    let c = CombatModel {
        attackers: attacks.map_values(|a: (ObjectId, AttackTarget)| attacker_info(w.0, a)),
        blocks: Seq::empty(),
        pending_damage: Seq::empty(),
        damage_step_index: None,
    };
    let w0 = (StateModel { combat: Some(c), ..w.0 }, w.1);
    lemma_tap_attackers_objects(w0, attacks, attacks.len() as int);
    assert(spec_declare_attackers(w, attacks).0 == spec_tap_attackers(w0, attacks, attacks.len() as int));
    assert(w0.0.has_object(id) && w0.0.obj(id) == w.0.obj(id));
    if exists|j: int| 0 <= j < attacks.len() && attacks[j].0 == id {
        let j = choose|j: int| 0 <= j < attacks.len() && attacks[j].0 == id;
        lemma_attack_error_none(w.0, attacks, attacks.len() as int, j);
        assert(can_attack(w.0, id));
        assert(attacks[j].0 == id);
    }
}

} // verus!
