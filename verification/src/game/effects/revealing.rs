use vstd::prelude::*;

use crate::ability::{EffectView, ResolvedAbility, ResolvedAbilityView, TargetFilterView, TargetRef};
use crate::game::zones::World;
use crate::state::{GameState, StateModel};
use crate::types::{evs, lemma_evs_push, EffectError, EffectKind, GameEvent, GameEventView, ObjectId};

verus! {

/// The object targets, in order.
pub open spec fn target_object_ids(targets: Seq<TargetRef>) -> Seq<ObjectId>
    decreases targets.len(),
{
    if targets.len() == 0 {
        Seq::empty()
    } else {
        let rest = target_object_ids(targets.drop_last());
        match targets.last() {
            TargetRef::Object(id) => rest.push(id),
            TargetRef::Player(_) => rest,
        }
    }
}

/// Does the ability reveal its own source when it has no object targets?
pub open spec fn reveals_self(effect: EffectView) -> bool {
    match effect {
        EffectView::Reveal { target } => target is SelfRef,
        _ => true,
    }
}

/// The objects revealed: the object targets, or the source for a self-reveal
/// without them.
pub open spec fn revealed_ids(a: ResolvedAbilityView) -> Seq<ObjectId> {
    let ids = target_object_ids(a.targets);
    if ids.len() == 0 && reveals_self(a.effect) {
        seq![a.source_id]
    } else {
        ids
    }
}

/// The names of those of `ids` that exist, in order.
pub open spec fn names_of(s: StateModel, ids: Seq<ObjectId>) -> Seq<String>
    decreases ids.len(),
{
    if ids.len() == 0 {
        Seq::empty()
    } else {
        let rest = names_of(s, ids.drop_last());
        if s.has_object(ids.last()) {
            rest.push(s.obj(ids.last()).name)
        } else {
            rest
        }
    }
}

/// CR 701.20: revealing announces the revealed objects (when there are any) to all
/// players, then reports the effect resolved; the game state is left unchanged
/// (CR 701.20b).
pub open spec fn spec_reveal(w: World, a: ResolvedAbilityView) -> World {
    let ids = revealed_ids(a);
    let ev = if ids.len() > 0 {
        w.1.push(
            GameEventView::CardsRevealed {
                player: a.controller,
                card_ids: ids,
                card_names: names_of(w.0, ids),
            },
        )
    } else {
        w.1
    };
    (w.0, ev.push(GameEventView::EffectResolved { kind: EffectKind::Reveal, source_id: a.source_id }))
}

/// CR 701.20: reveal the targeted objects, or the source itself.
pub fn resolve(state: &mut GameState, ability: &ResolvedAbility, events: &mut Vec<GameEvent>) -> (r:
    Result<(), EffectError>)
    ensures
        r is Ok,
        final(state)@ == old(state)@,
        (final(state)@, evs(final(events)@)) == spec_reveal((old(state)@, evs(old(events)@)), ability@),
{
    let self_ref = match &ability.effect {
        crate::ability::Effect::Reveal { target } => match target {
            crate::ability::TargetFilter::SelfRef => true,
            _ => false,
        },
        _ => true,
    };
    let mut object_ids: Vec<ObjectId> = Vec::new();
    let mut i: usize = 0;
    while i < ability.targets.len()
        invariant
            i <= ability.targets@.len(),
            object_ids@ == target_object_ids(ability.targets@.take(i as int)),
        decreases ability.targets@.len() - i,
    {
        proof {
            assert(ability.targets@.take(i + 1).drop_last() =~= ability.targets@.take(i as int));
        }
        match ability.targets[i] {
            TargetRef::Object(id) => object_ids.push(id),
            TargetRef::Player(_) => {},
        }
        i += 1;
    }
    assert(ability.targets@.take(ability.targets@.len() as int) =~= ability.targets@);
    let object_ids = if object_ids.len() == 0 && self_ref {
        let mut v: Vec<ObjectId> = Vec::new();
        v.push(ability.source_id);
        assert(v@ =~= seq![ability.source_id]);
        v
    } else {
        object_ids
    };
    assert(object_ids@ == revealed_ids(ability@));
    if object_ids.len() > 0 {
        let mut card_names: Vec<String> = Vec::new();
        let mut k: usize = 0;
        while k < object_ids.len()
            invariant
                k <= object_ids@.len(),
                card_names@ == names_of(state@, object_ids@.take(k as int)),
            decreases object_ids@.len() - k,
        {
            proof {
                assert(object_ids@.take(k + 1).drop_last() =~= object_ids@.take(k as int));
            }
            match state.object(object_ids[k]) {
                Some(o) => card_names.push(o.name.clone()),
                None => {},
            }
            k += 1;
        }
        assert(object_ids@.take(object_ids@.len() as int) =~= object_ids@);
        let ev = GameEvent::CardsRevealed { player: ability.controller, card_ids: object_ids, card_names };
        proof {
            lemma_evs_push(events@, ev);
        }
        events.push(ev);
    }
    proof {
        lemma_evs_push(
            events@,
            GameEvent::EffectResolved { kind: EffectKind::Reveal, source_id: ability.source_id },
        );
    }
    events.push(GameEvent::EffectResolved { kind: EffectKind::Reveal, source_id: ability.source_id });
    Ok(())
}

} // verus!
