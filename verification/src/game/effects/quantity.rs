use vstd::prelude::*;

use crate::ability::{
    Comparator, QuantityExpr, QuantityRef, ResolvedAbility, ResolvedAbilityView, StaticCondition,
};
use crate::seqs::count_matching;
use crate::state::{GameState, StateModel};
use crate::types::{GameObject, ObjectId, PlayerId, Zone};

verus! {

pub open spec fn in_hand_of(p: PlayerId) -> spec_fn(GameObject) -> bool {
    |o: GameObject| o.zone == Zone::Hand && o.owner == p
}

/// The value of a quantity for an ability controlled by `controller`.
pub open spec fn spec_quantity(s: StateModel, q: QuantityExpr, controller: PlayerId) -> int {
    match q {
        QuantityExpr::Fixed { value } => value as int,
        QuantityExpr::Ref { qty } => match qty {
            QuantityRef::HandSize => count_matching(s.objects, in_hand_of(controller)) as int,
        },
    }
}

fn hand_size(state: &GameState, controller: PlayerId) -> (r: u64)
    ensures
        r as int == count_matching(state@.objects, in_hand_of(controller)),
{
    let n = state.objects.len();
    let mut count: u64 = 0;
    let mut i: usize = 0;
    while i < n
        invariant
            n == state@.objects.len(),
            i <= n,
            count == count_matching(state@.objects.take(i as int), in_hand_of(controller)),
            count <= i,
        decreases n - i,
    {
        proof {
            assert(state@.objects.take(i + 1).drop_last() =~= state@.objects.take(i as int));
        }
        if state.objects[i].zone == Zone::Hand && state.objects[i].owner == controller {
            count = count + 1;
        }
        i += 1;
    }
    assert(state@.objects.take(n as int) =~= state@.objects);
    count
}

/// Evaluate a quantity for an ability.
pub fn resolve_quantity_with_targets(state: &GameState, amount: &QuantityExpr, ability: &ResolvedAbility) -> (r:
    i128)
    ensures
        r == spec_quantity(state@, *amount, ability.controller),
{
    match amount {
        QuantityExpr::Fixed { value } => *value as i128,
        QuantityExpr::Ref { qty } => match qty {
            QuantityRef::HandSize => {
                let c = hand_size(state, ability.controller);
                c as i128
            },
        },
    }
}

pub open spec fn compares(c: Comparator, a: int, b: int) -> bool {
    match c {
        Comparator::EQ => a == b,
        Comparator::NE => a != b,
        Comparator::LT => a < b,
        Comparator::LE => a <= b,
        Comparator::GT => a > b,
        Comparator::GE => a >= b,
    }
}

/// Does condition `c` hold for an ability with this source and controller?
pub open spec fn spec_condition_holds(s: StateModel, c: StaticCondition, source: ObjectId, controller: PlayerId) -> bool
    decreases c,
{
    match c {
        StaticCondition::DuringYourTurn => s.active_player == controller,
        StaticCondition::SourceIsTapped => s.has_object(source) && s.obj(source).tapped,
        StaticCondition::Not { condition } => !spec_condition_holds(s, *condition, source, controller),
        StaticCondition::QuantityComparison { lhs, comparator, rhs } => compares(
            comparator,
            spec_quantity(s, lhs, controller),
            spec_quantity(s, rhs, controller),
        ),
    }
}

/// Does the ability's condition (if any) hold?
pub open spec fn ability_condition_holds(s: StateModel, a: ResolvedAbilityView) -> bool {
    match a.condition {
        Some(c) => spec_condition_holds(s, c, a.source_id, a.controller),
        None => true,
    }
}

pub fn condition_holds(state: &GameState, c: &StaticCondition, ability: &ResolvedAbility) -> (r: bool)
    ensures
        r == spec_condition_holds(state@, *c, ability.source_id, ability.controller),
    decreases c,
{
    match c {
        StaticCondition::DuringYourTurn => state.active_player == ability.controller,
        StaticCondition::SourceIsTapped => match state.object(ability.source_id) {
            Some(o) => o.tapped,
            None => false,
        },
        StaticCondition::Not { condition } => !condition_holds(state, condition, ability),
        StaticCondition::QuantityComparison { lhs, comparator, rhs } => {
            let a = resolve_quantity_with_targets(state, lhs, ability);
            let b = resolve_quantity_with_targets(state, rhs, ability);
            match comparator {
                Comparator::EQ => a == b,
                Comparator::NE => a != b,
                Comparator::LT => a < b,
                Comparator::LE => a <= b,
                Comparator::GT => a > b,
                Comparator::GE => a >= b,
            }
        },
    }
}

} // verus!
