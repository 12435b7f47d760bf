use vstd::prelude::*;

use crate::game::zones::World;
use crate::state::{find_object, find_player, lemma_obj_idx, obj_idx, player_idx, GameState, StateModel};
use crate::types::{
    clamp_i32, clamp_to_i32, evs, lemma_evs_push, sat_add, sat_sub, CounterType, DamageTarget,
    GameEvent, GameEventView, GameObject, ObjectId, Player, PlayerId, Zone,
};

verus! {

/// What dealing damage needs to know about its source: its controller and whether
/// it has lifelink (CR 702.15b).
#[derive(Clone, Copy, Debug, PartialEq, Eq, Structural)]
pub struct DamageContext {
    pub source_id: ObjectId,
    pub controller: PlayerId,
    pub lifelink: bool,
}

impl DamageContext {
    pub open spec fn spec_from_source(s: StateModel, source_id: ObjectId) -> Option<DamageContext> {
        if s.has_object(source_id) {
            Some(
                DamageContext {
                    source_id,
                    controller: s.obj(source_id).controller,
                    lifelink: s.obj(source_id).keywords.lifelink,
                },
            )
        } else {
            None
        }
    }

    /// The context of a source as it is now, if it still exists.
    pub fn from_source(state: &GameState, source_id: ObjectId) -> (r: Option<DamageContext>)
        ensures
            r == Self::spec_from_source(state@, source_id),
    {
        match state.object(source_id) {
            Some(o) => Some(
                DamageContext { source_id, controller: o.controller, lifelink: o.keywords.lifelink },
            ),
            None => None,
        }
    }

    /// The context of a source that no longer exists.
    pub fn fallback(source_id: ObjectId, controller: PlayerId) -> (r: DamageContext)
        ensures
            r == (DamageContext { source_id, controller, lifelink: false }),
    {
        DamageContext { source_id, controller, lifelink: false }
    }
}

/// The world after the player's life changes by `delta` (clamped to the `i32`
/// range); nothing happens when there is no such player.
pub open spec fn spec_change_life(w: World, player: PlayerId, delta: int) -> World {
    if w.0.has_player(player) {
        let p = w.0.player(player);
        let new_life = clamp_i32(p.life + delta);
        (
            w.0.set_player(player, Player { life: new_life, ..p }),
            w.1.push(GameEventView::LifeChanged { player_id: player, old_life: p.life, new_life }),
        )
    } else {
        w
    }
}

pub fn change_life(state: &mut GameState, player: PlayerId, delta: i64, events: &mut Vec<GameEvent>)
    requires
        -(u32::MAX as int) <= delta <= u32::MAX,
    ensures
        (final(state)@, evs(final(events)@)) == spec_change_life(
            (old(state)@, evs(old(events)@)),
            player,
            delta as int,
        ),
{
    match find_player(&state.players, player) {
        Some(i) => {
            let mut p = state.players[i];
            let old_life = p.life;
            let new_life = clamp_to_i32(old_life as i64 + delta);
            p.life = new_life;
            state.players.set(i, p);
            proof {
                lemma_evs_push(
                    events@,
                    GameEvent::LifeChanged { player_id: player, old_life, new_life },
                );
            }
            events.push(GameEvent::LifeChanged { player_id: player, old_life, new_life });
        },
        None => {},
    }
}

/// CR 120.3: damage removes loyalty from a planeswalker, defense counters from a
/// battle, and is marked on a creature.
pub open spec fn damaged(o: GameObject, amount: u32) -> GameObject {
    GameObject {
        loyalty: if o.card_types.planeswalker {
            match o.loyalty {
                Some(l) => Some(sat_sub(l, amount)),
                None => None,
            }
        } else {
            o.loyalty
        },
        counters: if o.card_types.battle {
            o.counters.removed(CounterType::Defense, amount)
        } else {
            o.counters
        },
        defense: if o.card_types.battle {
            Some(sat_sub(o.counters.defense, amount))
        } else {
            o.defense
        },
        damage_marked: if o.card_types.creature {
            sat_add(o.damage_marked, amount)
        } else {
            o.damage_marked
        },
        ..o
    }
}

/// Does damage to `target` land: a player who exists, or an object on the
/// battlefield?
pub open spec fn damage_lands(s: StateModel, target: DamageTarget) -> bool {
    match target {
        DamageTarget::Player(p) => s.has_player(p),
        DamageTarget::Object(id) => s.on_battlefield(id),
    }
}

/// The world after `ctx`'s source deals `amount` damage to `target`: zero damage, or
/// damage to nothing, does nothing; otherwise the damage is recorded and applied,
/// and a lifelinked source's controller gains that much life.
pub open spec fn spec_deal_damage(w: World, ctx: DamageContext, target: DamageTarget, amount: u32) -> World {
    if amount == 0 || !damage_lands(w.0, target) {
        w
    } else {
        let ev = w.1.push(GameEventView::DamageDealt { source_id: ctx.source_id, target, amount });
        let w1 = match target {
            DamageTarget::Player(p) => spec_change_life((w.0, ev), p, -amount),
            DamageTarget::Object(id) => (w.0.set_obj(id, damaged(w.0.obj(id), amount)), ev),
        };
        if ctx.lifelink {
            spec_change_life(w1, ctx.controller, amount as int)
        } else {
            w1
        }
    }
}

pub fn deal_damage(
    state: &mut GameState,
    ctx: DamageContext,
    target: DamageTarget,
    amount: u32,
    events: &mut Vec<GameEvent>,
)
    ensures
        (final(state)@, evs(final(events)@)) == spec_deal_damage(
            (old(state)@, evs(old(events)@)),
            ctx,
            target,
            amount,
        ),
{
    if amount == 0 {
        return ;
    }
    match target {
        DamageTarget::Player(p) => {
            if find_player(&state.players, p).is_none() {
                return ;
            }
            proof {
                lemma_evs_push(
                    events@,
                    GameEvent::DamageDealt { source_id: ctx.source_id, target, amount },
                );
            }
            events.push(GameEvent::DamageDealt { source_id: ctx.source_id, target, amount });
            change_life(state, p, -(amount as i64), events);
        },
        DamageTarget::Object(id) => {
            proof {
                lemma_obj_idx(state@.objects, id);
            }
            let i = match find_object(&state.objects, id) {
                Some(i) => i,
                None => {
                    return ;
                },
            };
            if state.objects[i].zone != Zone::Battlefield {
                return ;
            }
            proof {
                lemma_evs_push(
                    events@,
                    GameEvent::DamageDealt { source_id: ctx.source_id, target, amount },
                );
            }
            events.push(GameEvent::DamageDealt { source_id: ctx.source_id, target, amount });
            let mut o = state.objects.remove(i);
            if o.card_types.planeswalker {
                o.loyalty = match o.loyalty {
                    Some(l) => Some(l.saturating_sub(amount)),
                    None => None,
                };
            }
            if o.card_types.battle {
                let d = o.counters.defense.saturating_sub(amount);
                o.counters.remove(CounterType::Defense, amount);
                o.defense = Some(d);
            }
            if o.card_types.creature {
                o.damage_marked = o.damage_marked.saturating_add(amount);
            }
            state.objects.insert(i, o);
            assert(state@.objects =~= old(state)@.objects.update(
                i as int,
                damaged(old(state)@.objects[i as int], amount),
            ));
        },
    }
    if ctx.lifelink {
        change_life(state, ctx.controller, amount as i64, events);
    }
}

} // verus!
