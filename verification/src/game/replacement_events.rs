use vstd::prelude::*;

use crate::ability::TargetRef;
use crate::game::combat::damage_context;
use crate::game::damage::{change_life, deal_damage, spec_change_life, spec_deal_damage, DamageContext};
use crate::game::zones::{move_at, move_to_zone, moved, spec_move_at, spec_move_to_zone, World};
use crate::replacement::ProposedEvent;
use crate::seqs::{first_match, lemma_first_match, lemma_first_match_at};
use crate::state::{find_object, find_player, lemma_obj_idx, lemma_obj_idx_update, obj_idx, GameState, StateModel};
use crate::types::{
    evs, lemma_evs_push, sat_add, CounterType, DamageTarget, GameEvent, GameEventView, GameObject,
    ManaType, ObjectId, Player, PlayerId, Zone,
};

verus! {

/// The object and events after each of the first `k` (type, count) pairs is added
/// as counters, each announced.
pub open spec fn spec_etb_counters(
    o: GameObject,
    ev: Seq<GameEventView>,
    counters: Seq<(CounterType, u32)>,
    k: int,
) -> (GameObject, Seq<GameEventView>)
    decreases k,
{
    if k <= 0 {
        (o, ev)
    } else {
        let (o1, ev1) = spec_etb_counters(o, ev, counters, k - 1);
        let (ct, n) = counters[k - 1];
        (
            GameObject { counters: o1.counters.added(ct, n), ..o1 },
            ev1.push(GameEventView::CounterAdded { object_id: o1.id, counter_type: ct, count: n }),
        )
    }
}

/// CR 614.1c: put the counters an object enters with on it.
pub fn apply_etb_counters(obj: &mut GameObject, counters: &[(CounterType, u32)], events: &mut Vec<GameEvent>)
    ensures
        (*final(obj), evs(final(events)@)) == spec_etb_counters(
            *old(obj),
            evs(old(events)@),
            counters@,
            counters@.len() as int,
        ),
{
    let mut i: usize = 0;
    while i < counters.len()
        invariant
            i <= counters@.len(),
            (*obj, evs(events@)) == spec_etb_counters(*old(obj), evs(old(events)@), counters@, i as int),
        decreases counters@.len() - i,
    {
        let (ct, n) = counters[i];
        let mut c = obj.counters;
        c.add(ct, n);
        obj.counters = c;
        proof {
            lemma_evs_push(events@, GameEvent::CounterAdded { object_id: obj.id, counter_type: ct, count: n });
        }
        events.push(GameEvent::CounterAdded { object_id: obj.id, counter_type: ct, count: n });
        i += 1;
    }
}

pub open spec fn pending_entry_for(id: ObjectId) -> spec_fn((ObjectId, CounterType, u32)) -> bool {
    |e: (ObjectId, CounterType, u32)| e.0 == id
}

pub open spec fn pending_entry_not_for(id: ObjectId) -> spec_fn((ObjectId, CounterType, u32)) -> bool {
    |e: (ObjectId, CounterType, u32)| e.0 != id
}

/// The counters waiting for object `id` to enter, in order.
pub open spec fn pending_counters_for(p: Seq<(ObjectId, CounterType, u32)>, id: ObjectId) -> Seq<
    (CounterType, u32),
> {
    p.filter(pending_entry_for(id)).map_values(|e: (ObjectId, CounterType, u32)| (e.1, e.2))
}

/// CR 712.14a: the world after a permanent is turned to its back face.
pub open spec fn spec_transform(w: World, id: ObjectId) -> World {
    (
        w.0.set_obj(id, GameObject { transformed: true, ..w.0.obj(id) }),
        w.1.push(GameEventView::Transformed { object_id: id }),
    )
}

/// The object entering the battlefield, tapped and given to another controller when
/// asked, with the counters it enters with and then the pending ones added.
pub open spec fn spec_adjust_object(
    o: GameObject,
    ev: Seq<GameEventView>,
    enter_tapped: bool,
    enter_with_counters: Seq<(CounterType, u32)>,
    controller_override: Option<PlayerId>,
    pend: Seq<(CounterType, u32)>,
) -> (GameObject, Seq<GameEventView>) {
    let o1 = GameObject {
        tapped: if enter_tapped {
            true
        } else {
            o.tapped
        },
        controller: match controller_override {
            Some(c) => c,
            None => o.controller,
        },
        ..o
    };
    let (o2, ev2) = spec_etb_counters(o1, ev, enter_with_counters, enter_with_counters.len() as int);
    spec_etb_counters(o2, ev2, pend, pend.len() as int)
}

/// Entering the battlefield after a replacement choice: the object is tapped and its
/// controller changed when the pipeline says so, then gets the counters it enters
/// with and those that delayed triggers left for it (which are then used up).
pub open spec fn spec_enter_adjust(
    w: World,
    object_id: ObjectId,
    enter_tapped: bool,
    enter_with_counters: Seq<(CounterType, u32)>,
    controller_override: Option<PlayerId>,
) -> World {
    if w.0.has_object(object_id) {
        let pend = pending_counters_for(w.0.pending_etb_counters, object_id);
        let (o3, ev3) = spec_adjust_object(
            w.0.obj(object_id),
            w.1,
            enter_tapped,
            enter_with_counters,
            controller_override,
            pend,
        );
        let s3 = w.0.set_obj(object_id, o3);
        let s4 = if pend.len() > 0 {
            StateModel {
                pending_etb_counters: w.0.pending_etb_counters.filter(pending_entry_not_for(object_id)),
                ..s3
            }
        } else {
            s3
        };
        (s4, ev3)
    } else {
        w
    }
}

/// Turn the object to its back face when it should enter transformed and can.
pub open spec fn spec_enter_transformed(w: World, object_id: ObjectId) -> World {
    if w.0.has_object(object_id) && w.0.obj(object_id).has_back_face && !w.0.obj(object_id).transformed {
        spec_transform(w, object_id)
    } else {
        w
    }
}

/// A zone change accepted after a replacement choice: the object moves; entering the
/// battlefield it is adjusted as `spec_enter_adjust` says and turns to its back face
/// when it enters transformed; layers become dirty when the battlefield is involved.
pub open spec fn spec_zone_change(
    w: World,
    object_id: ObjectId,
    from: Zone,
    to: Zone,
    enter_tapped: bool,
    enter_with_counters: Seq<(CounterType, u32)>,
    controller_override: Option<PlayerId>,
    enter_transformed: bool,
) -> World {
    let w1 = spec_move_to_zone(w, object_id, to);
    let w2 = if to == Zone::Battlefield {
        spec_enter_adjust(w1, object_id, enter_tapped, enter_with_counters, controller_override)
    } else {
        w1
    };
    let w3 = if enter_transformed && to == Zone::Battlefield {
        spec_enter_transformed(w2, object_id)
    } else {
        w2
    };
    if to == Zone::Battlefield || from == Zone::Battlefield {
        (StateModel { layers_dirty: true, ..w3.0 }, w3.1)
    } else {
        w3
    }
}

fn split_pending(p: &Vec<(ObjectId, CounterType, u32)>, id: ObjectId) -> (r: (
    Vec<(CounterType, u32)>,
    Vec<(ObjectId, CounterType, u32)>,
))
    ensures
        r.0@ == pending_counters_for(p@, id),
        r.1@ == p@.filter(pending_entry_not_for(id)),
{
    let mut mine: Vec<(CounterType, u32)> = Vec::new();
    let mut rest: Vec<(ObjectId, CounterType, u32)> = Vec::new();
    let mut i: usize = 0;
    while i < p.len()
        invariant
            i <= p@.len(),
            mine@ == pending_counters_for(p@.take(i as int), id),
            rest@ == p@.take(i as int).filter(pending_entry_not_for(id)),
        decreases p@.len() - i,
    {
        let e = p[i];
        proof {
            assert(p@.take(i + 1).drop_last() =~= p@.take(i as int));
            reveal_with_fuel(Seq::<(ObjectId, CounterType, u32)>::filter, 1);
        }
        if e.0 == id {
            mine.push((e.1, e.2));
        } else {
            rest.push(e);
        }
        proof {
            let t = p@.take(i + 1);
            assert(t.filter(pending_entry_for(id)) == if e.0 == id {
                p@.take(i as int).filter(pending_entry_for(id)).push(e)
            } else {
                p@.take(i as int).filter(pending_entry_for(id))
            });
            assert(mine@ =~= pending_counters_for(t, id));
        }
        i += 1;
    }
    assert(p@.take(p@.len() as int) =~= p@);
    (mine, rest)
}

/// CR 712.14a: turn a permanent to its back face.
pub fn transform_permanent(state: &mut GameState, id: ObjectId, events: &mut Vec<GameEvent>)
    requires
        old(state)@.has_object(id),
    ensures
        (final(state)@, evs(final(events)@)) == spec_transform((old(state)@, evs(old(events)@)), id),
{
    proof {
        lemma_obj_idx(state@.objects, id);
    }
    match find_object(&state.objects, id) {
        Some(i) => {
            let ghost prev = state@.objects;
            let mut o = state.objects.remove(i);
            o.transformed = true;
            state.objects.insert(i, o);
            assert(state@.objects =~= prev.update(i as int, GameObject { transformed: true, ..prev[i as int] }));
            proof {
                lemma_evs_push(events@, GameEvent::Transformed { object_id: id });
            }
            events.push(GameEvent::Transformed { object_id: id });
        },
        None => {},
    }
}

fn adjust_object(
    o: &mut GameObject,
    enter_tapped: bool,
    enter_with_counters: &Vec<(CounterType, u32)>,
    controller_override: Option<PlayerId>,
    pend: &Vec<(CounterType, u32)>,
    events: &mut Vec<GameEvent>,
)
    ensures
        (*final(o), evs(final(events)@)) == spec_adjust_object(
            *old(o),
            evs(old(events)@),
            enter_tapped,
            enter_with_counters@,
            controller_override,
            pend@,
        ),
{
    if enter_tapped {
        o.tapped = true;
    }
    match controller_override {
        Some(c) => o.controller = c,
        None => {},
    }
    apply_etb_counters(o, enter_with_counters.as_slice(), events);
    apply_etb_counters(o, pend.as_slice(), events);
}

#[verifier::rlimit(30)]
fn enter_adjust(
    state: &mut GameState,
    object_id: ObjectId,
    enter_tapped: bool,
    enter_with_counters: Vec<(CounterType, u32)>,
    controller_override: Option<PlayerId>,
    events: &mut Vec<GameEvent>,
)
    ensures
        (final(state)@, evs(final(events)@)) == spec_enter_adjust(
            (old(state)@, evs(old(events)@)),
            object_id,
            enter_tapped,
            enter_with_counters@,
            controller_override,
        ),
{
    proof {
        lemma_obj_idx(state@.objects, object_id);
    }
    match find_object(&state.objects, object_id) {
        Some(i) => {
            let ghost s1 = state@;
            let (pending, rest) = split_pending(&state.pending_etb_counters, object_id);
            let mut o = state.objects.remove(i);
            adjust_object(&mut o, enter_tapped, &enter_with_counters, controller_override, &pending, events);
            state.objects.insert(i, o);
            assert(state@.objects =~= s1.objects.update(i as int, state@.objects[i as int]));
            if pending.len() > 0 {
                state.pending_etb_counters = rest;
            }
        },
        None => {},
    }
}

fn enter_transformed_if_able(state: &mut GameState, object_id: ObjectId, events: &mut Vec<GameEvent>)
    ensures
        (final(state)@, evs(final(events)@)) == spec_enter_transformed((old(state)@, evs(old(events)@)), object_id),
{
    let go = match state.object(object_id) {
        Some(o) => o.has_back_face && !o.transformed,
        None => false,
    };
    if go {
        transform_permanent(state, object_id, events);
    }
}

fn apply_zone_change(
    state: &mut GameState,
    object_id: ObjectId,
    from: Zone,
    to: Zone,
    enter_tapped: bool,
    enter_with_counters: Vec<(CounterType, u32)>,
    controller_override: Option<PlayerId>,
    enter_transformed: bool,
    events: &mut Vec<GameEvent>,
)
    ensures
        (final(state)@, evs(final(events)@)) == spec_zone_change(
            (old(state)@, evs(old(events)@)),
            object_id,
            from,
            to,
            enter_tapped,
            enter_with_counters@,
            controller_override,
            enter_transformed,
        ),
{
    move_to_zone(state, object_id, to, events);
    if to == Zone::Battlefield {
        enter_adjust(state, object_id, enter_tapped, enter_with_counters, controller_override, events);
    }
    if enter_transformed && to == Zone::Battlefield {
        enter_transformed_if_able(state, object_id, events);
    }
    if to == Zone::Battlefield || from == Zone::Battlefield {
        state.layers_dirty = true;
    }
}

pub open spec fn in_library_of(p: PlayerId) -> spec_fn(GameObject) -> bool {
    |o: GameObject| o.zone == Zone::Library && o.owner == p
}

/// CR 121.1: drawing a card puts the first card of the player's library into their
/// hand; with an empty library nothing happens.
pub open spec fn spec_draw_one(w: World, p: PlayerId) -> World {
    let k = first_match(w.0.objects, in_library_of(p));
    if k >= 0 {
        let id = w.0.objects[k].id;
        let w1 = spec_move_at(w, k, Zone::Hand);
        let s2 = if w1.0.has_player(p) {
            w1.0.set_player(
                p,
                Player { cards_drawn_this_turn: sat_add(w1.0.player(p).cards_drawn_this_turn, 1), ..w1.0.player(p) },
            )
        } else {
            w1.0
        };
        (s2, w1.1.push(GameEventView::CardDrawn { player_id: p, object_id: id }))
    } else {
        w
    }
}

pub open spec fn spec_draw_n(w: World, p: PlayerId, n: int) -> World
    decreases n,
{
    if n <= 0 {
        w
    } else {
        spec_draw_one(spec_draw_n(w, p, n - 1), p)
    }
}

fn top_of_library(objs: &Vec<GameObject>, p: PlayerId) -> (r: Option<usize>)
    ensures
        match r {
            Some(k) => k == first_match(objs@, in_library_of(p)) && k < objs@.len(),
            None => first_match(objs@, in_library_of(p)) == -1,
        },
{
    let mut k: usize = 0;
    while k < objs.len()
        invariant
            k <= objs@.len(),
            forall|j: int| 0 <= j < k ==> !in_library_of(p)(#[trigger] objs@[j]),
        decreases objs@.len() - k,
    {
        if objs[k].zone == Zone::Library && objs[k].owner == p {
            proof {
                lemma_first_match_at(objs@, in_library_of(p), k as int);
            }
            return Some(k);
        }
        k += 1;
    }
    proof {
        lemma_first_match(objs@, in_library_of(p));
    }
    None
}

fn draw_one(state: &mut GameState, p: PlayerId, events: &mut Vec<GameEvent>)
    ensures
        (final(state)@, evs(final(events)@)) == spec_draw_one((old(state)@, evs(old(events)@)), p),
{
    match top_of_library(&state.objects, p) {
        Some(k) => {
            let id = state.objects[k].id;
            move_at(state, k, Zone::Hand, events);
            match find_player(&state.players, p) {
                Some(i) => {
                    let mut pl = state.players[i];
                    pl.cards_drawn_this_turn = pl.cards_drawn_this_turn.saturating_add(1);
                    state.players.set(i, pl);
                },
                None => {},
            }
            proof {
                lemma_evs_push(events@, GameEvent::CardDrawn { player_id: p, object_id: id });
            }
            events.push(GameEvent::CardDrawn { player_id: p, object_id: id });
        },
        None => {},
    }
}

/// The world after a discard is accepted: the card goes to the graveyard, the
/// discard is recorded for the player, and announced.
pub open spec fn spec_discard(w: World, p: PlayerId, id: ObjectId) -> World {
    let w1 = spec_move_to_zone(w, id, Zone::Graveyard);
    let s2 = if w1.0.has_player(p) {
        w1.0.set_player(
            p,
            Player { discards_this_turn: sat_add(w1.0.player(p).discards_this_turn, 1), ..w1.0.player(p) },
        )
    } else {
        w1.0
    };
    (s2, w1.1.push(GameEventView::Discarded { player_id: p, object_id: id }))
}

pub open spec fn to_damage_target(t: TargetRef) -> DamageTarget {
    match t {
        TargetRef::Object(id) => DamageTarget::Object(id),
        TargetRef::Player(p) => DamageTarget::Player(p),
    }
}

/// Do +1/+1 or -1/-1 counters change, so that layers must be evaluated again?
pub open spec fn counter_affects_layers(ct: CounterType) -> bool {
    ct == CounterType::Plus1Plus1 || ct == CounterType::Minus1Minus1
}

/// The world after `count` counters of a type are put on an object: layers become
/// dirty for power/toughness counters, and the controller is recorded as having
/// put a counter this turn.
pub open spec fn spec_add_counter(w: World, object_id: ObjectId, counter_type: CounterType, count: u32) -> World {
    if w.0.has_object(object_id) {
        let o = w.0.obj(object_id);
        let s1 = w.0.set_obj(object_id, GameObject { counters: o.counters.added(counter_type, count), ..o });
        let added = s1.players_who_added_counter_this_turn;
        (
            StateModel {
                layers_dirty: s1.layers_dirty || counter_affects_layers(counter_type),
                players_who_added_counter_this_turn: if added.contains(o.controller) {
                    added
                } else {
                    added.push(o.controller)
                },
                ..s1
            },
            w.1.push(GameEventView::CounterAdded { object_id, counter_type, count }),
        )
    } else {
        w
    }
}

/// The world after up to `count` counters of a type are taken off an object.
pub open spec fn spec_remove_counter(w: World, object_id: ObjectId, counter_type: CounterType, count: u32) -> World {
    if w.0.has_object(object_id) {
        let o = w.0.obj(object_id);
        let s1 = w.0.set_obj(object_id, GameObject { counters: o.counters.removed(counter_type, count), ..o });
        (
            StateModel { layers_dirty: s1.layers_dirty || counter_affects_layers(counter_type), ..s1 },
            w.1.push(GameEventView::CounterRemoved { object_id, counter_type, count }),
        )
    } else {
        w
    }
}

/// The world after a permanent is tapped or untapped.
pub open spec fn spec_set_tapped(w: World, object_id: ObjectId, tapped: bool) -> World {
    if w.0.has_object(object_id) {
        (
            w.0.set_obj(object_id, GameObject { tapped, ..w.0.obj(object_id) }),
            w.1.push(
                if tapped {
                    GameEventView::PermanentTapped { object_id }
                } else {
                    GameEventView::PermanentUntapped { object_id }
                },
            ),
        )
    } else {
        w
    }
}

/// The world after one mana of a type is added to a player's pool.
pub open spec fn spec_produce_mana(w: World, source_id: ObjectId, player_id: PlayerId, mana_type: ManaType) -> World {
    if w.0.has_player(player_id) {
        let p = w.0.player(player_id);
        (
            w.0.set_player(player_id, Player { mana_pool: p.mana_pool.plus_one(mana_type), ..p }),
            w.1.push(GameEventView::ManaAdded { player_id, mana_type, source_id }),
        )
    } else {
        w
    }
}

/// The world after an event accepted at a replacement choice is applied. Events
/// that never surface as a choice (turn and phase beginnings) and those delivered
/// elsewhere (tokens, destruction, sacrifice) change nothing here.
pub open spec fn spec_apply_event(w: World, e: ProposedEvent) -> World {
    match e {
        ProposedEvent::ZoneChange {
            object_id,
            from,
            to,
            enter_tapped,
            enter_with_counters,
            controller_override,
            enter_transformed,
        } => spec_zone_change(
            w,
            object_id,
            from,
            to,
            enter_tapped,
            enter_with_counters@,
            controller_override,
            enter_transformed,
        ),
        ProposedEvent::Damage { source_id, target, amount, .. } => spec_deal_damage(
            w,
            damage_context(w.0, source_id),
            to_damage_target(target),
            amount,
        ),
        ProposedEvent::AddCounter { object_id, counter_type, count } => spec_add_counter(
            w,
            object_id,
            counter_type,
            count,
        ),
        ProposedEvent::RemoveCounter { object_id, counter_type, count } => spec_remove_counter(
            w,
            object_id,
            counter_type,
            count,
        ),
        ProposedEvent::Tap { object_id } => spec_set_tapped(w, object_id, true),
        ProposedEvent::Untap { object_id } => spec_set_tapped(w, object_id, false),
        ProposedEvent::Draw { player_id, count } => spec_draw_n(w, player_id, count as int),
        ProposedEvent::LifeGain { player_id, amount } => spec_change_life(w, player_id, amount as int),
        ProposedEvent::LifeLoss { player_id, amount } => spec_change_life(w, player_id, -amount),
        ProposedEvent::Discard { player_id, object_id } => spec_discard(w, player_id, object_id),
        ProposedEvent::ProduceMana { source_id, player_id, mana_type } => spec_produce_mana(
            w,
            source_id,
            player_id,
            mana_type,
        ),
        _ => w,
    }
}

fn set_tapped(state: &mut GameState, object_id: ObjectId, tapped: bool, events: &mut Vec<GameEvent>)
    ensures
        (final(state)@, evs(final(events)@)) == spec_set_tapped((old(state)@, evs(old(events)@)), object_id, tapped),
{
    proof {
        lemma_obj_idx(state@.objects, object_id);
    }
    match find_object(&state.objects, object_id) {
        Some(i) => {
            let ghost prev = state@.objects;
            let mut o = state.objects.remove(i);
            o.tapped = tapped;
            state.objects.insert(i, o);
            assert(state@.objects =~= prev.update(i as int, GameObject { tapped, ..prev[i as int] }));
            let ev = if tapped {
                GameEvent::PermanentTapped { object_id }
            } else {
                GameEvent::PermanentUntapped { object_id }
            };
            proof {
                lemma_evs_push(events@, ev);
            }
            events.push(ev);
        },
        None => {},
    }
}

fn add_counter(
    state: &mut GameState,
    object_id: ObjectId,
    counter_type: CounterType,
    count: u32,
    events: &mut Vec<GameEvent>,
)
    ensures
        (final(state)@, evs(final(events)@)) == spec_add_counter(
            (old(state)@, evs(old(events)@)),
            object_id,
            counter_type,
            count,
        ),
{
    proof {
        lemma_obj_idx(state@.objects, object_id);
    }
    match find_object(&state.objects, object_id) {
        Some(i) => {
            let ghost prev = state@.objects;
            let mut o = state.objects.remove(i);
            let mut c = o.counters;
            c.add(counter_type, count);
            o.counters = c;
            let controller = o.controller;
            state.objects.insert(i, o);
            assert(state@.objects =~= prev.update(i as int, state@.objects[i as int]));
            if counter_type == CounterType::Plus1Plus1 || counter_type == CounterType::Minus1Minus1 {
                state.layers_dirty = true;
            }
            let mut present = false;
            let mut j: usize = 0;
            while j < state.players_who_added_counter_this_turn.len()
                invariant
                    j <= state@.players_who_added_counter_this_turn.len(),
                    present == exists|q: int| 0 <= q < j
                        && state@.players_who_added_counter_this_turn[q] == controller,
                decreases state@.players_who_added_counter_this_turn.len() - j,
            {
                if state.players_who_added_counter_this_turn[j] == controller {
                    present = true;
                }
                j += 1;
            }
            if !present {
                state.players_who_added_counter_this_turn.push(controller);
            }
            proof {
                lemma_evs_push(events@, GameEvent::CounterAdded { object_id, counter_type, count });
            }
            events.push(GameEvent::CounterAdded { object_id, counter_type, count });
        },
        None => {},
    }
}

fn remove_counter(
    state: &mut GameState,
    object_id: ObjectId,
    counter_type: CounterType,
    count: u32,
    events: &mut Vec<GameEvent>,
)
    ensures
        (final(state)@, evs(final(events)@)) == spec_remove_counter(
            (old(state)@, evs(old(events)@)),
            object_id,
            counter_type,
            count,
        ),
{
    proof {
        lemma_obj_idx(state@.objects, object_id);
    }
    match find_object(&state.objects, object_id) {
        Some(i) => {
            let ghost prev = state@.objects;
            let mut o = state.objects.remove(i);
            let mut c = o.counters;
            c.remove(counter_type, count);
            o.counters = c;
            state.objects.insert(i, o);
            assert(state@.objects =~= prev.update(i as int, state@.objects[i as int]));
            if counter_type == CounterType::Plus1Plus1 || counter_type == CounterType::Minus1Minus1 {
                state.layers_dirty = true;
            }
            proof {
                lemma_evs_push(events@, GameEvent::CounterRemoved { object_id, counter_type, count });
            }
            events.push(GameEvent::CounterRemoved { object_id, counter_type, count });
        },
        None => {},
    }
}

fn draw_n(state: &mut GameState, player_id: PlayerId, count: u32, events: &mut Vec<GameEvent>)
    ensures
        (final(state)@, evs(final(events)@)) == spec_draw_n((old(state)@, evs(old(events)@)), player_id, count as int),
{
    let ghost w0 = (state@, evs(events@));
    let mut d: u32 = 0;
    while d < count
        invariant
            d <= count,
            (state@, evs(events@)) == spec_draw_n(w0, player_id, d as int),
        decreases count - d,
    {
        draw_one(state, player_id, events);
        d += 1;
    }
}

fn discard(state: &mut GameState, player_id: PlayerId, object_id: ObjectId, events: &mut Vec<GameEvent>)
    ensures
        (final(state)@, evs(final(events)@)) == spec_discard((old(state)@, evs(old(events)@)), player_id, object_id),
{
    move_to_zone(state, object_id, Zone::Graveyard, events);
    match find_player(&state.players, player_id) {
        Some(i) => {
            let mut pl = state.players[i];
            pl.discards_this_turn = pl.discards_this_turn.saturating_add(1);
            state.players.set(i, pl);
        },
        None => {},
    }
    proof {
        lemma_evs_push(events@, GameEvent::Discarded { player_id, object_id });
    }
    events.push(GameEvent::Discarded { player_id, object_id });
}

fn produce_mana(
    state: &mut GameState,
    source_id: ObjectId,
    player_id: PlayerId,
    mana_type: ManaType,
    events: &mut Vec<GameEvent>,
)
    ensures
        (final(state)@, evs(final(events)@)) == spec_produce_mana(
            (old(state)@, evs(old(events)@)),
            source_id,
            player_id,
            mana_type,
        ),
{
    match find_player(&state.players, player_id) {
        Some(i) => {
            let mut pl = state.players[i];
            let mut pool = pl.mana_pool;
            pool.add(mana_type);
            pl.mana_pool = pool;
            state.players.set(i, pl);
            proof {
                lemma_evs_push(events@, GameEvent::ManaAdded { player_id, mana_type, source_id });
            }
            events.push(GameEvent::ManaAdded { player_id, mana_type, source_id });
        },
        None => {},
    }
}

/// Apply an event accepted at a replacement choice.
pub fn apply_proposed_event(state: &mut GameState, event: ProposedEvent, events: &mut Vec<GameEvent>)
    ensures
        (final(state)@, evs(final(events)@)) == spec_apply_event((old(state)@, evs(old(events)@)), event),
{
    match event {
        ProposedEvent::ZoneChange {
            object_id,
            from,
            to,
            enter_tapped,
            enter_with_counters,
            controller_override,
            enter_transformed,
        } => apply_zone_change(
            state,
            object_id,
            from,
            to,
            enter_tapped,
            enter_with_counters,
            controller_override,
            enter_transformed,
            events,
        ),
        ProposedEvent::Damage { source_id, target, amount, .. } => {
            let ctx = match DamageContext::from_source(state, source_id) {
                Some(c) => c,
                None => DamageContext::fallback(source_id, state.active_player),
            };
            let t = match target {
                TargetRef::Object(id) => DamageTarget::Object(id),
                TargetRef::Player(p) => DamageTarget::Player(p),
            };
            deal_damage(state, ctx, t, amount, events);
        },
        ProposedEvent::AddCounter { object_id, counter_type, count } => add_counter(
            state,
            object_id,
            counter_type,
            count,
            events,
        ),
        ProposedEvent::RemoveCounter { object_id, counter_type, count } => remove_counter(
            state,
            object_id,
            counter_type,
            count,
            events,
        ),
        ProposedEvent::Tap { object_id } => set_tapped(state, object_id, true, events),
        ProposedEvent::Untap { object_id } => set_tapped(state, object_id, false, events),
        ProposedEvent::Draw { player_id, count } => draw_n(state, player_id, count, events),
        ProposedEvent::LifeGain { player_id, amount } => change_life(state, player_id, amount as i64, events),
        ProposedEvent::LifeLoss { player_id, amount } => change_life(state, player_id, -(amount as i64), events),
        ProposedEvent::Discard { player_id, object_id } => discard(state, player_id, object_id, events),
        ProposedEvent::ProduceMana { source_id, player_id, mana_type } => produce_mana(
            state,
            source_id,
            player_id,
            mana_type,
            events,
        ),
        _ => {},
    }
}

proof fn lemma_etb_counters_keep_object(o: GameObject, ev: Seq<GameEventView>, counters: Seq<(CounterType, u32)>, k: int)
    ensures
        spec_etb_counters(o, ev, counters, k).0 == (GameObject {
            counters: spec_etb_counters(o, ev, counters, k).0.counters,
            ..o
        }),
    decreases k,
{
    if k > 0 {
        lemma_etb_counters_keep_object(o, ev, counters, k - 1);
    }
}

/// CR 614.1c: an accepted move onto the battlefield puts the object there, tapped
/// when the replacement says it enters tapped, under the overriding controller when
/// there is one (else its controller is kept); it stays the same card with the same
/// owner and name.
pub proof fn law_accepted_entry_places_object(
    w: World,
    object_id: ObjectId,
    from: Zone,
    enter_tapped: bool,
    enter_with_counters: Seq<(CounterType, u32)>,
    controller_override: Option<PlayerId>,
)
    requires
        w.0.has_object(object_id),
    ensures
        ({
            let s2 = spec_zone_change(
                w,
                object_id,
                from,
                Zone::Battlefield,
                enter_tapped,
                enter_with_counters,
                controller_override,
                false,
            ).0;
            let o = s2.obj(object_id);
            let before = w.0.obj(object_id);
            &&& s2.has_object(object_id)
            &&& o.zone == Zone::Battlefield
            &&& enter_tapped ==> o.tapped
            &&& o.controller == match controller_override {
                Some(c) => c,
                None => before.controller,
            }
            &&& o.owner == before.owner
            &&& o.card_id == before.card_id
            &&& o.name == before.name
            &&& s2.layers_dirty
        }),
{
    lemma_obj_idx(w.0.objects, object_id);
    let i = obj_idx(w.0.objects, object_id);
    let w1 = spec_move_to_zone(w, object_id, Zone::Battlefield);
    let m = moved(w.0.objects[i], Zone::Battlefield, w.0.turn_number);
    lemma_obj_idx_update(w.0.objects, i, m, object_id);
    assert(w1.0.objects == w.0.objects.update(i, m));
    assert(w1.0.has_object(object_id) && w1.0.obj(object_id) == m);
    let pend = pending_counters_for(w1.0.pending_etb_counters, object_id);
    let o1 = GameObject {
        tapped: if enter_tapped {
            true
        } else {
            m.tapped
        },
        controller: match controller_override {
            Some(c) => c,
            None => m.controller,
        },
        ..m
    };
    let (o2, ev2) = spec_etb_counters(o1, w1.1, enter_with_counters, enter_with_counters.len() as int);
    lemma_etb_counters_keep_object(o1, w1.1, enter_with_counters, enter_with_counters.len() as int);
    lemma_etb_counters_keep_object(o2, ev2, pend, pend.len() as int);
    let o3 = spec_adjust_object(m, w1.1, enter_tapped, enter_with_counters, controller_override, pend).0;
    assert(o3 == (GameObject { counters: o3.counters, ..o1 }));
    lemma_obj_idx(w1.0.objects, object_id);
    lemma_obj_idx_update(w1.0.objects, i, o3, object_id);
    let w2 = spec_enter_adjust(w1, object_id, enter_tapped, enter_with_counters, controller_override);
    assert(w2.0.objects == w1.0.objects.update(i, o3));
    assert(w2.0.has_object(object_id) && w2.0.obj(object_id) == o3);
}

} // verus!
