use vstd::prelude::*;

use crate::ability::{
    lemma_any_of_view, type_filter_views, ControllerRef, FilterProp, TargetFilter, TargetFilterView, TypeFilter, TypeFilterView,
    TypeWord, TypedFilter, TypedFilterView,
};
use crate::game::combat::{attacker_pos, find_attacker};
use crate::state::{GameState, StateModel};
use crate::types::{GameObject, ObjectId, PlayerId};

verus! {

/// Does `o` have the type a type word names? A permanent is anything with a
/// permanent card type; a card is anything but a token.
pub open spec fn word_matches(o: GameObject, w: TypeWord) -> bool {
    let t = o.card_types;
    match w {
        TypeWord::Creature => t.creature,
        TypeWord::Artifact => t.artifact,
        TypeWord::Enchantment => t.enchantment,
        TypeWord::Instant => t.instant,
        TypeWord::Sorcery => t.sorcery,
        TypeWord::Planeswalker => t.planeswalker,
        TypeWord::Land => t.land,
        TypeWord::Battle => t.battle,
        TypeWord::Permanent => t.artifact || t.creature || t.enchantment || t.land || t.planeswalker
            || t.battle,
        TypeWord::Card => !o.is_token,
        TypeWord::Nested => false,
    }
}

/// Does `o` pass a type filter? An any-of passes when one of its word members
/// does; an any-of nested inside an any-of admits nothing.
pub open spec fn type_filter_matches(o: GameObject, f: TypeFilterView) -> bool {
    match f {
        TypeFilterView::Word(w) => word_matches(o, w),
        TypeFilterView::AnyOf(fs) => exists|i: int| 0 <= i < fs.len() && #[trigger] member_matches(o, fs[i]),
    }
}

/// Does `o` pass a member of an any-of?
pub open spec fn member_matches(o: GameObject, f: TypeFilterView) -> bool {
    match f {
        TypeFilterView::Word(w) => word_matches(o, w),
        TypeFilterView::AnyOf(_) => false,
    }
}

/// Is `o` attacking in the current combat, and if so is it unblocked?
pub open spec fn is_attacking(s: StateModel, o: GameObject) -> bool {
    match s.combat {
        Some(c) => attacker_pos(c, o.id) >= 0,
        None => false,
    }
}

pub open spec fn is_unblocked(s: StateModel, o: GameObject) -> bool {
    match s.combat {
        Some(c) => attacker_pos(c, o.id) >= 0 && !c.attackers[attacker_pos(c, o.id)].blocked,
        None => false,
    }
}

pub open spec fn prop_holds(s: StateModel, o: GameObject, p: FilterProp) -> bool {
    match p {
        FilterProp::Tapped => o.tapped,
        FilterProp::Untapped => !o.tapped,
        FilterProp::Attacking => is_attacking(s, o),
        FilterProp::Token => o.is_token,
        FilterProp::FaceDown => o.face_down,
        FilterProp::Unblocked => is_unblocked(s, o),
        FilterProp::HasColor { color } => o.colors.spec_has(color),
    }
}

pub open spec fn controller_matches(o: GameObject, c: Option<ControllerRef>, controller: PlayerId) -> bool {
    match c {
        Some(ControllerRef::You) => o.controller == controller,
        Some(ControllerRef::Opponent) => o.controller != controller,
        None => true,
    }
}

/// Does `o` pass the filter, for an ability with this source and controller?
pub open spec fn matches_filter(
    s: StateModel,
    o: GameObject,
    f: TargetFilterView,
    source_id: ObjectId,
    controller: PlayerId,
) -> bool {
    match f {
        TargetFilterView::Any => true,
        TargetFilterView::SelfRef => o.id == source_id,
        TargetFilterView::Typed(tf) => {
            &&& forall|i: int| 0 <= i < tf.type_filters.len() ==> type_filter_matches(o, #[trigger] tf.type_filters[i])
            &&& controller_matches(o, tf.controller, controller)
            &&& forall|i: int| 0 <= i < tf.properties.len() ==> prop_holds(s, o, #[trigger] tf.properties[i])
        },
    }
}

fn word_matches_exec(o: &GameObject, t: &TypeFilter) -> (r: bool)
    requires
        !(*t is AnyOf),
    ensures
        r == word_matches(*o, crate::ability::type_word(*t)),
{
    let c = o.card_types;
    match t {
        TypeFilter::Creature => c.creature,
        TypeFilter::Artifact => c.artifact,
        TypeFilter::Enchantment => c.enchantment,
        TypeFilter::Instant => c.instant,
        TypeFilter::Sorcery => c.sorcery,
        TypeFilter::Planeswalker => c.planeswalker,
        TypeFilter::Land => c.land,
        TypeFilter::Battle => c.battle,
        TypeFilter::Permanent => c.artifact || c.creature || c.enchantment || c.land || c.planeswalker
            || c.battle,
        TypeFilter::Card => !o.is_token,
        TypeFilter::AnyOf(_) => false,
    }
}

#[verifier::loop_isolation(false)]
fn type_filter_matches_exec(o: &GameObject, t: &TypeFilter) -> (r: bool)
    ensures
        r == type_filter_matches(*o, t@),
{
    match t {
        TypeFilter::AnyOf(v) => {
            proof {
                lemma_any_of_view(*v);
            }
            let ghost fs = type_filter_views(v@);
            let mut i: usize = 0;
            while i < v.len()
                invariant
                    i <= v@.len(),
                    forall|j: int| 0 <= j < i ==> !#[trigger] member_matches(*o, fs[j]),
                decreases v@.len() - i,
            {
                let m = match &v[i] {
                    TypeFilter::AnyOf(_) => false,
                    other => word_matches_exec(o, other),
                };
                assert(fs[i as int] == v@[i as int]@);
                if m {
                    assert(member_matches(*o, fs[i as int]));
                    return true;
                }
                i += 1;
            }
            false
        },
        _ => word_matches_exec(o, t),
    }
}

fn prop_holds_exec(state: &GameState, o: &GameObject, p: FilterProp) -> (r: bool)
    ensures
        r == prop_holds(state@, *o, p),
{
    match p {
        FilterProp::Tapped => o.tapped,
        FilterProp::Untapped => !o.tapped,
        FilterProp::Attacking => match &state.combat {
            Some(c) => find_attacker(&c.attackers, o.id).is_some(),
            None => false,
        },
        FilterProp::Token => o.is_token,
        FilterProp::FaceDown => o.face_down,
        FilterProp::Unblocked => match &state.combat {
            Some(c) => match find_attacker(&c.attackers, o.id) {
                Some(k) => !c.attackers[k].blocked,
                None => false,
            },
            None => false,
        },
        FilterProp::HasColor { color } => o.colors.has(color),
    }
}

#[verifier::loop_isolation(false)]
pub fn matches_target_filter(
    state: &GameState,
    o: &GameObject,
    filter: &TargetFilter,
    source_id: ObjectId,
    controller: PlayerId,
) -> (r: bool)
    ensures
        r == matches_filter(state@, *o, filter@, source_id, controller),
{
    match filter {
        TargetFilter::Any => true,
        TargetFilter::SelfRef => o.id == source_id,
        TargetFilter::Typed(tf) => {
            let mut i: usize = 0;
            while i < tf.type_filters.len()
                invariant
                    i <= tf.type_filters@.len(),
                    forall|j: int| 0 <= j < i ==> type_filter_matches(*o, #[trigger] tf@.type_filters[j]),
                decreases tf.type_filters@.len() - i,
            {
                if !type_filter_matches_exec(o, &tf.type_filters[i]) {
                    assert(filter@ == TargetFilterView::Typed(tf@));
                    assert(!type_filter_matches(*o, tf@.type_filters[i as int]));
                    return false;
                }
                i += 1;
            }
            let ctrl_ok = match tf.controller {
                Some(ControllerRef::You) => o.controller == controller,
                Some(ControllerRef::Opponent) => o.controller != controller,
                None => true,
            };
            if !ctrl_ok {
                return false;
            }
            let mut k: usize = 0;
            while k < tf.properties.len()
                invariant
                    k <= tf.properties@.len(),
                    forall|j: int| 0 <= j < k ==> prop_holds(state@, *o, #[trigger] tf@.properties[j]),
                decreases tf.properties@.len() - k,
            {
                if !prop_holds_exec(state, o, tf.properties[k]) {
                    assert(filter@ == TargetFilterView::Typed(tf@));
                    assert(!prop_holds(state@, *o, tf@.properties[k as int]));
                    return false;
                }
                k += 1;
            }
            true
        },
    }
}

} // verus!
