use vstd::prelude::*;

use crate::state::{find_object, lemma_obj_idx, lemma_same_id_update_keeps_ids, obj_idx, GameState, StateModel};
use crate::types::{evs, lemma_evs_push, Counters, GameEvent, GameEventView, GameObject, ObjectId, Zone};

verus! {

/// A state together with the events emitted so far.
pub type World = (StateModel, Seq<GameEventView>);

pub open spec fn no_counters() -> Counters {
    Counters {
        plus1plus1: 0,
        minus1minus1: 0,
        loyalty: 0,
        defense: 0,
        charge: 0,
        stun: 0,
        shield: 0,
        lore: 0,
        time: 0,
        oil: 0,
    }
}

/// CR 400.7: an object that changes zones becomes a new object. Leaving the
/// battlefield forgets tapped state, damage, counters and attachment; entering it
/// starts untapped and undamaged, entered this turn.
pub open spec fn moved(o: GameObject, to: Zone, turn: u32) -> GameObject {
    let left = o.zone == Zone::Battlefield && to != Zone::Battlefield;
    let entered = o.zone != Zone::Battlefield && to == Zone::Battlefield;
    GameObject {
        zone: to,
        tapped: if left || entered {
            false
        } else {
            o.tapped
        },
        damage_marked: if left || entered {
            0
        } else {
            o.damage_marked
        },
        counters: if left {
            no_counters()
        } else {
            o.counters
        },
        attached_to: if left {
            None
        } else {
            o.attached_to
        },
        entered_battlefield_turn: if entered {
            Some(turn)
        } else {
            o.entered_battlefield_turn
        },
        ..o
    }
}

/// The world after the object at position `i` moves to `to`.
pub open spec fn spec_move_at(w: World, i: int, to: Zone) -> World {
    let o = w.0.objects[i];
    (
        w.0.set_obj_at(i, moved(o, to, w.0.turn_number)),
        w.1.push(GameEventView::ZoneChanged { object_id: o.id, from: o.zone, to }),
    )
}

/// The world after the object with this id moves to `to`; nothing happens when
/// there is no such object.
pub open spec fn spec_move_to_zone(w: World, id: ObjectId, to: Zone) -> World {
    if w.0.has_object(id) {
        spec_move_at(w, obj_idx(w.0.objects, id), to)
    } else {
        w
    }
}

pub fn move_at(state: &mut GameState, i: usize, to: Zone, events: &mut Vec<GameEvent>)
    requires
        i < old(state)@.objects.len(),
    ensures
        (final(state)@, evs(final(events)@)) == spec_move_at((old(state)@, evs(old(events)@)), i as int, to),
        old(state)@.ids_well_formed() ==> final(state)@.ids_well_formed(),
{
    let mut o = state.objects.remove(i);
    let from = o.zone;
    let left = from == Zone::Battlefield && to != Zone::Battlefield;
    let entered = from != Zone::Battlefield && to == Zone::Battlefield;
    o.zone = to;
    if left || entered {
        o.tapped = false;
        o.damage_marked = 0;
    }
    if left {
        o.counters = Counters {
            plus1plus1: 0,
            minus1minus1: 0,
            loyalty: 0,
            defense: 0,
            charge: 0,
            stun: 0,
            shield: 0,
            lore: 0,
            time: 0,
            oil: 0,
        };
        o.attached_to = None;
    }
    if entered {
        o.entered_battlefield_turn = Some(state.turn_number);
    }
    let id = o.id;
    state.objects.insert(i, o);
    proof {
        lemma_evs_push(events@, GameEvent::ZoneChanged { object_id: id, from, to });
    }
    events.push(GameEvent::ZoneChanged { object_id: id, from, to });
    assert(state@.objects =~= old(state)@.objects.update(
        i as int,
        moved(old(state)@.objects[i as int], to, old(state)@.turn_number),
    ));
    proof {
        if old(state)@.ids_well_formed() {
            lemma_same_id_update_keeps_ids(
                old(state)@,
                i as int,
                moved(old(state)@.objects[i as int], to, old(state)@.turn_number),
            );
        }
    }
}

/// Move the object with this id to `to` (nothing happens when it does not exist).
pub fn move_to_zone(state: &mut GameState, id: ObjectId, to: Zone, events: &mut Vec<GameEvent>)
    ensures
        (final(state)@, evs(final(events)@)) == spec_move_to_zone((old(state)@, evs(old(events)@)), id, to),
        old(state)@.ids_well_formed() ==> final(state)@.ids_well_formed(),
{
    proof {
        lemma_obj_idx(state@.objects, id);
    }
    match find_object(&state.objects, id) {
        Some(i) => move_at(state, i, to, events),
        None => {},
    }
}

} // verus!
