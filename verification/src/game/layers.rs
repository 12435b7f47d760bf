use vstd::prelude::*;

use crate::ability::Duration;
use crate::state::{GameState, StateModel};
use crate::types::{clamp_i32, clamp_to_i32, Counters, GameObject, TransientEffect};

verus! {

/// CR 613.4c: a characteristic after +1/+1 and -1/-1 counters; an object without a
/// printed value keeps the one it has.
pub open spec fn layered_value(base: Option<i32>, current: Option<i32>, c: Counters) -> Option<i32> {
    match base {
        Some(b) => Some(clamp_i32(b + c.plus1plus1 - c.minus1minus1)),
        None => current,
    }
}

pub open spec fn layered(o: GameObject) -> GameObject {
    GameObject {
        power: layered_value(o.base_power, o.power, o.counters),
        toughness: layered_value(o.base_toughness, o.toughness, o.counters),
        ..o
    }
}

/// The state after layer evaluation: every object's power and toughness recomputed,
/// and layers clean.
pub open spec fn spec_evaluate_layers(s: StateModel) -> StateModel {
    StateModel { objects: s.objects.map_values(|o: GameObject| layered(o)), layers_dirty: false, ..s }
}

fn layered_pt(base: Option<i32>, current: Option<i32>, c: &Counters) -> (r: Option<i32>)
    ensures
        r == layered_value(base, current, *c),
{
    match base {
        Some(b) => Some(clamp_to_i32(b as i64 + c.plus1plus1 as i64 - c.minus1minus1 as i64)),
        None => current,
    }
}

/// Recompute every object's power and toughness from its printed values and
/// counters, and mark layers clean.
pub fn evaluate_layers(state: &mut GameState)
    ensures
        final(state)@ == spec_evaluate_layers(old(state)@),
{
    let n = state.objects.len();
    let mut i: usize = 0;
    while i < n
        invariant
            n == old(state)@.objects.len(),
            i <= n,
            state@.objects.len() == n,
            forall|j: int| 0 <= j < i ==> state@.objects[j] == layered(old(state)@.objects[j]),
            forall|j: int| i <= j < n ==> state@.objects[j] == old(state)@.objects[j],
            state@ == (StateModel { objects: state@.objects, ..old(state)@ }),
        decreases n - i,
    {
        let mut o = state.objects.remove(i);
        let p = layered_pt(o.base_power, o.power, &o.counters);
        let t = layered_pt(o.base_toughness, o.toughness, &o.counters);
        o.power = p;
        o.toughness = t;
        state.objects.insert(i, o);
        i += 1;
    }
    state.layers_dirty = false;
    assert(state@.objects =~= old(state)@.objects.map_values(|o: GameObject| layered(o)));
}

/// Laying out the layers twice gives what laying them out once gives.
pub proof fn lemma_layered_idempotent(o: GameObject)
    ensures
        layered(layered(o)) == layered(o),
{
}

/// CR 514.2 / 511.3: the transient effects that last past the end of combat.
pub open spec fn keeps_past_combat(e: TransientEffect) -> bool {
    e.duration != Duration::UntilEndOfCombat
}

/// Drop the effects that last until end of combat.
pub fn prune_end_of_combat_effects(state: &mut GameState)
    ensures
        final(state)@ == (StateModel {
            transient_effects: old(state)@.transient_effects.filter(|e: TransientEffect| keeps_past_combat(e)),
            ..old(state)@
        }),
{
    let mut kept: Vec<TransientEffect> = Vec::new();
    let n = state.transient_effects.len();
    let mut i: usize = 0;
    while i < n
        invariant
            n == state@.transient_effects.len(),
            i <= n,
            state@ == old(state)@,
            kept@ == state@.transient_effects.take(i as int).filter(
                |e: TransientEffect| keeps_past_combat(e),
            ),
        decreases n - i,
    {
        let e = state.transient_effects[i];
        proof {
            let s = state@.transient_effects;
            assert(s.take(i + 1).drop_last() =~= s.take(i as int));
            reveal_with_fuel(Seq::<TransientEffect>::filter, 1);
        }
        if e.duration != Duration::UntilEndOfCombat {
            kept.push(e);
        }
        i += 1;
    }
    assert(state@.transient_effects.take(n as int) =~= state@.transient_effects);
    state.transient_effects = kept;
}

} // verus!
