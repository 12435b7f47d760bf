use vstd::prelude::*;

use crate::ability::{Effect, EffectView, QuantityExpr, ResolvedAbility, ResolvedAbilityView, TargetRef};
use crate::game::damage::{change_life, spec_change_life};
use crate::game::effects::quantity::{
    ability_condition_holds, condition_holds, resolve_quantity_with_targets, spec_quantity,
};
use crate::game::effects::revealing::{resolve, spec_reveal, target_object_ids};
use crate::game::effects::speed_effects::{resolve_increase, resolve_start, spec_resolve_increase, spec_resolve_start};
use crate::game::zones::World;
use crate::state::{find_object, lemma_obj_idx, lemma_obj_idx_update, lemma_set_obj, obj_idx, GameState, StateModel};
use crate::types::{evs, lemma_evs_push, EffectError, GameEvent, GameEventView, GameObject, ObjectId, PlayerId, Zone};

verus! {

/// CR 707.2: the copiable values of `from`, taken on by `src`.
pub open spec fn copied(src: GameObject, from: GameObject) -> GameObject {
    GameObject {
        name: from.name,
        card_types: from.card_types,
        base_power: from.base_power,
        base_toughness: from.base_toughness,
        power: from.power,
        toughness: from.toughness,
        keywords: from.keywords,
        colors: from.colors,
        mana_value: from.mana_value,
        ..src
    }
}

/// CR 707.9: the source becomes a copy of its first object target; nothing happens
/// when either is gone.
pub open spec fn spec_become_copy(w: World, a: ResolvedAbilityView) -> World {
    let ids = target_object_ids(a.targets);
    if ids.len() > 0 && w.0.has_object(a.source_id) && w.0.has_object(ids[0]) {
        let s1 = w.0.set_obj(a.source_id, copied(w.0.obj(a.source_id), w.0.obj(ids[0])));
        (
            StateModel { layers_dirty: true, ..s1 },
            w.1.push(GameEventView::BecameCopy { object_id: a.source_id, copied_from: ids[0] }),
        )
    } else {
        w
    }
}

fn first_object_target(targets: &Vec<TargetRef>) -> (r: Option<ObjectId>)
    ensures
        target_object_ids(targets@).len() > 0 ==> r == Some(target_object_ids(targets@)[0]),
        target_object_ids(targets@).len() == 0 ==> r is None,
{
    let mut i: usize = 0;
    while i < targets.len()
        invariant
            i <= targets@.len(),
            target_object_ids(targets@.take(i as int)).len() == 0,
        decreases targets@.len() - i,
    {
        proof {
            assert(targets@.take(i + 1).drop_last() =~= targets@.take(i as int));
        }
        match targets[i] {
            TargetRef::Object(id) => {
                proof {
                    assert(targets@.take(i + 1).last() == targets@[i as int]);
                    assert(target_object_ids(targets@.take(i + 1)).len() == 1);
                    assert(target_object_ids(targets@.take(i + 1))[0] == id);
                    lemma_target_ids_prefix(targets@, i + 1);
                }
                return Some(id);
            },
            TargetRef::Player(_) => {},
        }
        i += 1;
    }
    assert(targets@.take(targets@.len() as int) =~= targets@);
    None
}

/// Object ids of a prefix are a prefix of the object ids.
proof fn lemma_target_ids_prefix(t: Seq<TargetRef>, k: int)
    requires
        0 <= k <= t.len(),
    ensures
        target_object_ids(t.take(k)).len() <= target_object_ids(t).len(),
        forall|j: int| 0 <= j < target_object_ids(t.take(k)).len() ==> target_object_ids(t)[j]
            == #[trigger] target_object_ids(t.take(k))[j],
    decreases t.len() - k,
{
    if k < t.len() {
        lemma_target_ids_prefix(t, k + 1);
        let a = t.take(k + 1);
        assert(a.drop_last() =~= t.take(k));
        let ids_k = target_object_ids(t.take(k));
        let ids_a = target_object_ids(a);
        assert(ids_a.len() >= ids_k.len());
        assert forall|j: int| 0 <= j < ids_k.len() implies target_object_ids(t)[j]
            == #[trigger] ids_k[j] by {
            assert(ids_a[j] == ids_k[j]);
        }
    } else {
        assert(t.take(k) =~= t);
    }
}

fn become_copy(state: &mut GameState, ability: &ResolvedAbility, events: &mut Vec<GameEvent>)
    ensures
        (final(state)@, evs(final(events)@)) == spec_become_copy((old(state)@, evs(old(events)@)), ability@),
{
    let t = match first_object_target(&ability.targets) {
        Some(t) => t,
        None => {
            return ;
        },
    };
    proof {
        lemma_obj_idx(state@.objects, t);
        lemma_obj_idx(state@.objects, ability.source_id);
    }
    let ti = match find_object(&state.objects, t) {
        Some(i) => i,
        None => {
            return ;
        },
    };
    let si = match find_object(&state.objects, ability.source_id) {
        Some(i) => i,
        None => {
            return ;
        },
    };
    let name = state.objects[ti].name.clone();
    let card_types = state.objects[ti].card_types;
    let base_power = state.objects[ti].base_power;
    let base_toughness = state.objects[ti].base_toughness;
    let power = state.objects[ti].power;
    let toughness = state.objects[ti].toughness;
    let keywords = state.objects[ti].keywords;
    let colors = state.objects[ti].colors;
    let mana_value = state.objects[ti].mana_value;
    let mut o = state.objects.remove(si);
    o.name = name;
    o.card_types = card_types;
    o.base_power = base_power;
    o.base_toughness = base_toughness;
    o.power = power;
    o.toughness = toughness;
    o.keywords = keywords;
    o.colors = colors;
    o.mana_value = mana_value;
    state.objects.insert(si, o);
    state.layers_dirty = true;
    assert(state@.objects =~= old(state)@.objects.update(
        si as int,
        copied(old(state)@.objects[si as int], old(state)@.objects[ti as int]),
    ));
    proof {
        lemma_evs_push(events@, GameEvent::BecameCopy { object_id: ability.source_id, copied_from: t });
    }
    events.push(GameEvent::BecameCopy { object_id: ability.source_id, copied_from: t });
}

/// A resolved amount of life, from 0 up to `u32::MAX`.
pub open spec fn life_amount(v: int) -> int {
    if v < 0 {
        0
    } else if v > u32::MAX {
        u32::MAX as int
    } else {
        v
    }
}

/// The controller gains (`gain`) or loses the resolved amount of life; a zero amount
/// does nothing.
pub open spec fn spec_life_effect(w: World, a: ResolvedAbilityView, amount: QuantityExpr, gain: bool) -> World {
    let n = life_amount(spec_quantity(w.0, amount, a.controller));
    if n == 0 {
        w
    } else {
        spec_change_life(w, a.controller, if gain { n } else { -n })
    }
}

fn life_effect(state: &mut GameState, ability: &ResolvedAbility, amount: &QuantityExpr, gain: bool, events: &mut Vec<
    GameEvent,
>)
    ensures
        (final(state)@, evs(final(events)@)) == spec_life_effect(
            (old(state)@, evs(old(events)@)),
            ability@,
            *amount,
            gain,
        ),
{
    let v = resolve_quantity_with_targets(state, amount, ability);
    let n: i64 = if v < 0 {
        0
    } else if v > u32::MAX as i128 {
        u32::MAX as i64
    } else {
        v as i64
    };
    if n == 0 {
        return ;
    }
    change_life(
        state,
        ability.controller,
        if gain {
            n
        } else {
            -n
        },
        events,
    );
}

/// The world after the first `k` object targets on the battlefield become tapped
/// (those already tapped are left as they are).
pub open spec fn spec_tap_each(w: World, ids: Seq<ObjectId>, k: int) -> World
    decreases k,
{
    if k <= 0 {
        w
    } else {
        let w1 = spec_tap_each(w, ids, k - 1);
        let id = ids[k - 1];
        if w1.0.on_battlefield(id) && !w1.0.obj(id).tapped {
            (
                w1.0.set_obj(id, GameObject { tapped: true, ..w1.0.obj(id) }),
                w1.1.push(GameEventView::PermanentTapped { object_id: id }),
            )
        } else {
            w1
        }
    }
}

fn tap_targets(state: &mut GameState, ability: &ResolvedAbility, events: &mut Vec<GameEvent>)
    ensures
        (final(state)@, evs(final(events)@)) == spec_tap_each(
            (old(state)@, evs(old(events)@)),
            target_object_ids(ability@.targets),
            target_object_ids(ability@.targets).len() as int,
        ),
{
    let ghost w0 = (state@, evs(events@));
    let ghost ids = target_object_ids(ability@.targets);
    let mut ids_v: Vec<ObjectId> = Vec::new();
    let mut i: usize = 0;
    while i < ability.targets.len()
        invariant
            i <= ability.targets@.len(),
            ids_v@ == target_object_ids(ability.targets@.take(i as int)),
        decreases ability.targets@.len() - i,
    {
        proof {
            assert(ability.targets@.take(i + 1).drop_last() =~= ability.targets@.take(i as int));
        }
        match ability.targets[i] {
            TargetRef::Object(id) => ids_v.push(id),
            TargetRef::Player(_) => {},
        }
        i += 1;
    }
    assert(ability.targets@.take(ability.targets@.len() as int) =~= ability.targets@);
    let mut k: usize = 0;
    while k < ids_v.len()
        invariant
            ids_v@ == ids,
            k <= ids.len(),
            (state@, evs(events@)) == spec_tap_each(w0, ids, k as int),
        decreases ids.len() - k,
    {
        let id = ids_v[k];
        proof {
            lemma_obj_idx(state@.objects, id);
        }
        match find_object(&state.objects, id) {
            Some(j) => {
                if state.objects[j].zone == Zone::Battlefield && !state.objects[j].tapped {
                    let ghost prev = state@.objects;
                    let mut o = state.objects.remove(j);
                    o.tapped = true;
                    state.objects.insert(j, o);
                    assert(state@.objects =~= prev.update(j as int, GameObject { tapped: true, ..prev[j as int] }));
                    proof {
                        lemma_evs_push(events@, GameEvent::PermanentTapped { object_id: id });
                    }
                    events.push(GameEvent::PermanentTapped { object_id: id });
                }
            },
            None => {},
        }
        k += 1;
    }
}

/// The world after one ability's own effect (not its follow-ups) resolves.
pub open spec fn spec_resolve_effect(w: World, a: ResolvedAbilityView) -> World {
    match a.effect {
        EffectView::Reveal { .. } => spec_reveal(w, a),
        EffectView::StartYourEngines { .. } => spec_resolve_start(w, a).0,
        EffectView::IncreaseSpeed { .. } => spec_resolve_increase(w, a).0,
        EffectView::BecomeCopy { .. } => spec_become_copy(w, a),
        EffectView::GainLife { amount } => spec_life_effect(w, a, amount, true),
        EffectView::LoseLife { amount } => spec_life_effect(w, a, amount, false),
        EffectView::TapTargets => {
            let ids = target_object_ids(a.targets);
            spec_tap_each(w, ids, ids.len() as int)
        },
        EffectView::Unimplemented => w,
    }
}

/// CR 608.2: an ability resolves: when its condition holds, its effect and then its
/// follow-up ability; otherwise its alternative ability, if it has one.
pub open spec fn spec_resolve_chain(w: World, a: ResolvedAbilityView) -> World
    decreases a,
{
    if ability_condition_holds(w.0, a) {
        let w1 = spec_resolve_effect(w, a);
        match a.sub_ability {
            Some(sub) => spec_resolve_chain(w1, *sub),
            None => w1,
        }
    } else {
        match a.else_ability {
            Some(e) => spec_resolve_chain(w, *e),
            None => w,
        }
    }
}

fn resolve_effect(state: &mut GameState, ability: &ResolvedAbility, events: &mut Vec<GameEvent>)
    ensures
        (final(state)@, evs(final(events)@)) == spec_resolve_effect((old(state)@, evs(old(events)@)), ability@),
{
    match &ability.effect {
        Effect::Reveal { .. } => {
            let _ = resolve(state, ability, events);
        },
        Effect::StartYourEngines { .. } => {
            let _ = resolve_start(state, ability, events);
        },
        Effect::IncreaseSpeed { .. } => {
            let _ = resolve_increase(state, ability, events);
        },
        Effect::BecomeCopy { .. } => become_copy(state, ability, events),
        Effect::GainLife { amount } => life_effect(state, ability, amount, true, events),
        Effect::LoseLife { amount } => life_effect(state, ability, amount, false, events),
        Effect::TapTargets => tap_targets(state, ability, events),
        Effect::Unimplemented => {},
    }
}

/// Resolve an ability with its follow-up and alternative abilities.
pub fn resolve_ability_chain(state: &mut GameState, ability: &ResolvedAbility, events: &mut Vec<GameEvent>) -> (r:
    Result<(), EffectError>)
    ensures
        r is Ok,
        (final(state)@, evs(final(events)@)) == spec_resolve_chain((old(state)@, evs(old(events)@)), ability@),
    decreases ability,
{
    let holds = match &ability.condition {
        Some(c) => condition_holds(state, c, ability),
        None => true,
    };
    if holds {
        resolve_effect(state, ability, events);
        match &ability.sub_ability {
            Some(sub) => {
                let _ = resolve_ability_chain(state, sub, events);
            },
            None => {},
        }
    } else {
        match &ability.else_ability {
            Some(e) => {
                let _ = resolve_ability_chain(state, e, events);
            },
            None => {},
        }
    }
    Ok(())
}


/// CR 707.2, 707.9: when a "becomes a copy" ability resolves while its source and
/// its first object target both exist, the source takes the target's name, card
/// types, colors, power and toughness, keywords and mana value, and keeps everything
/// else it had (its id, owner, controller, zone, status, counters); every other
/// object is left as it was, and the copy is announced.
pub proof fn law_become_copy_takes_copiable_values(w: World, a: ResolvedAbilityView, other: ObjectId)
    requires
        a.effect is BecomeCopy,
        target_object_ids(a.targets).len() > 0,
        w.0.has_object(a.source_id),
        w.0.has_object(target_object_ids(a.targets)[0]),
    ensures
        ({
            let t = target_object_ids(a.targets)[0];
            let before = w.0.obj(a.source_id);
            let from = w.0.obj(t);
            let after = spec_resolve_effect(w, a);
            let now = after.0.obj(a.source_id);
            &&& after.0.has_object(a.source_id)
            &&& now.name == from.name
            &&& now.card_types == from.card_types
            &&& now.colors == from.colors
            &&& now.keywords == from.keywords
            &&& now.base_power == from.base_power
            &&& now.base_toughness == from.base_toughness
            &&& now.power == from.power
            &&& now.toughness == from.toughness
            &&& now.mana_value == from.mana_value
            &&& now == (GameObject {
                name: now.name,
                card_types: now.card_types,
                colors: now.colors,
                keywords: now.keywords,
                base_power: now.base_power,
                base_toughness: now.base_toughness,
                power: now.power,
                toughness: now.toughness,
                mana_value: now.mana_value,
                ..before
            })
            &&& (other != a.source_id && w.0.has_object(other)) ==> (after.0.has_object(other) && after.0.obj(other)
                == w.0.obj(other))
            &&& after.1 == w.1.push(GameEventView::BecameCopy { object_id: a.source_id, copied_from: t })
        }),
{
    let t = target_object_ids(a.targets)[0];
    lemma_obj_idx(w.0.objects, a.source_id);
    let o = copied(w.0.obj(a.source_id), w.0.obj(t));
    lemma_set_obj(w.0, a.source_id, o, other);
    lemma_set_obj(w.0, a.source_id, o, a.source_id);
}

} // verus!
