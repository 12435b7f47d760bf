use vstd::prelude::*;

use crate::ability::{
    AbilityKind, AbilityDefinition, AbilityDefinitionView, Effect, EffectView, ReplacementDefinition, ResolvedAbility,
    ResolvedAbilityView, TargetFilter, TargetFilterView, TargetRef,
};
use crate::game::effects::chain::{resolve_ability_chain, spec_resolve_chain};
use crate::game::engine_combat::result_view;
use crate::game::filter::{matches_filter, matches_target_filter};
use crate::game::replacement_events::{apply_proposed_event, spec_apply_event};
use crate::game::zones::{move_to_zone, spec_move_to_zone, World};
use crate::replacement::{
    continue_replacement, replacement_choice_waiting_for, spec_continue_replacement, spec_pending_after_choice,
    spec_replacement_choice_waiting_for, ProposedEvent, ReplacementResult,
};
use crate::seqs::{first_match, lemma_first_match, lemma_first_match_at};
use crate::state::{find_object, lemma_obj_idx, lemma_obj_idx_update, obj_idx, GameState, StateModel};
use crate::types::{
    evs, sat_add, ActionError, CastingVariant, CounterType, DelayedTrigger, EngineError, GameEvent, GameObject,
    ObjectId, PendingSpellResolution, PlayerId, WaitingFor, WaitingForView, Zone,
};

verus! {

/// The resolved form of a printed ability: its effect, kind, duration and condition,
/// with the given targets; its follow-up and alternative abilities resolve from the
/// same source and controller with no targets of their own.
pub open spec fn spec_resolved_from(
    d: AbilityDefinitionView,
    source_id: ObjectId,
    controller: PlayerId,
    targets: Seq<TargetRef>,
) -> ResolvedAbilityView
    decreases d,
{
    ResolvedAbilityView {
        effect: d.effect,
        targets,
        source_id,
        controller,
        kind: d.kind,
        sub_ability: match d.sub_ability {
            Some(s) => Some(Box::new(spec_resolved_from(*s, source_id, controller, Seq::empty()))),
            None => None,
        },
        else_ability: match d.else_ability {
            Some(e) => Some(Box::new(spec_resolved_from(*e, source_id, controller, Seq::empty()))),
            None => None,
        },
        duration: d.duration,
        condition: d.condition,
    }
}

/// Build the ability that resolves from a printed definition.
pub fn resolved_ability_from_definition(
    def: &AbilityDefinition,
    source_id: ObjectId,
    controller: PlayerId,
    targets: Vec<TargetRef>,
) -> (r: ResolvedAbility)
    ensures
        r@ == spec_resolved_from(def@, source_id, controller, targets@),
    decreases def,
{
    let sub_ability = match &def.sub_ability {
        Some(s) => Some(Box::new(resolved_ability_from_definition(s, source_id, controller, Vec::new()))),
        None => None,
    };
    let else_ability = match &def.else_ability {
        Some(e) => Some(Box::new(resolved_ability_from_definition(e, source_id, controller, Vec::new()))),
        None => None,
    };
    let condition = match &def.condition {
        Some(c) => Some(c.duplicate()),
        None => None,
    };
    let r = ResolvedAbility {
        effect: def.effect.duplicate(),
        targets,
        source_id,
        controller,
        kind: def.kind,
        sub_ability,
        else_ability,
        duration: def.duration,
        condition,
    };
    proof {
        assert(r@.sub_ability == spec_resolved_from(def@, source_id, controller, targets@).sub_ability);
        assert(r@.else_ability == spec_resolved_from(def@, source_id, controller, targets@).else_ability);
    }
    r
}

/// CR 707.9: the greatest mana value a copy target may have, when the copy effect
/// is limited by the mana spent to cast its source.
pub open spec fn spec_copy_ceiling(actual_mana_spent: u32, def: AbilityDefinitionView) -> Option<u32> {
    match def.effect {
        EffectView::BecomeCopy { limited_by_mana_spent, .. } => if limited_by_mana_spent {
            Some(actual_mana_spent)
        } else {
            None
        },
        _ => None,
    }
}

pub fn copy_target_mana_value_ceiling(actual_mana_spent: u32, def: &AbilityDefinition) -> (r: Option<u32>)
    ensures
        r == spec_copy_ceiling(actual_mana_spent, def@),
{
    match &*def.effect {
        Effect::BecomeCopy { limited_by_mana_spent, .. } => if *limited_by_mana_spent {
            Some(actual_mana_spent)
        } else {
            None
        },
        _ => None,
    }
}

pub open spec fn effect_is_copy(e: Effect) -> bool {
    e is BecomeCopy
}

/// Does this replacement run a "becomes a copy" ability?
pub open spec fn is_copy_replacement() -> spec_fn(ReplacementDefinition) -> bool {
    |r: ReplacementDefinition| r.execute matches Some(d) && effect_is_copy(*d.effect)
}

/// The first "becomes a copy" ability among the replacements printed on the source,
/// if the source exists and has one.
pub open spec fn spec_copy_effect_for_source(s: StateModel, source_id: ObjectId) -> Option<AbilityDefinition> {
    if s.has_object(source_id) {
        let defs = s.obj(source_id).replacement_definitions@;
        let k = first_match(defs, is_copy_replacement());
        if k >= 0 {
            Some(*defs[k].execute.unwrap())
        } else {
            None
        }
    } else {
        None
    }
}

#[verifier::loop_isolation(false)]
pub fn copy_effect_for_source(state: &GameState, source_id: ObjectId) -> (r: Option<&AbilityDefinition>)
    ensures
        match r {
            Some(d) => spec_copy_effect_for_source(state@, source_id) == Some(*d),
            None => spec_copy_effect_for_source(state@, source_id) is None,
        },
{
    match state.object(source_id) {
        Some(o) => {
            let defs = &o.replacement_definitions;
            let mut k: usize = 0;
            while k < defs.len()
                invariant
                    k <= defs@.len(),
                    forall|j: int| 0 <= j < k ==> !is_copy_replacement()(#[trigger] defs@[j]),
                decreases defs@.len() - k,
            {
                match &defs[k].execute {
                    Some(d) => {
                        if matches!(&*d.effect, Effect::BecomeCopy { .. }) {
                            proof {
                                assert(defs@[k as int].execute == Some(*d));
                                assert(is_copy_replacement()(defs@[k as int]));
                                lemma_first_match_at(defs@, is_copy_replacement(), k as int);
                                assert(state@.obj(source_id).replacement_definitions@ == defs@);
                            }
                            return Some(&**d);
                        }
                    },
                    None => {},
                }
                k += 1;
            }
            proof {
                lemma_first_match(defs@, is_copy_replacement());
            }
            None
        },
        None => None,
    }
}

/// May this object be chosen as what the source becomes a copy of?
pub open spec fn is_copy_target(
    s: StateModel,
    filter: TargetFilterView,
    source_id: ObjectId,
    controller: PlayerId,
    max_mana_value: Option<u32>,
) -> spec_fn(GameObject) -> bool {
    |o: GameObject|
        o.zone == Zone::Battlefield && o.id != source_id && match max_mana_value {
            Some(m) => o.mana_value <= m,
            None => true,
        } && matches_filter(s, o, filter, source_id, controller)
}

/// The copy targets among the first `k` objects, in order. An object counts only
/// where it is the one its id names (the first object with that id), so each id is
/// offered once and stands for the object that lookups by id find.
pub open spec fn copy_targets_upto(
    s: StateModel,
    filter: TargetFilterView,
    source_id: ObjectId,
    controller: PlayerId,
    max_mana_value: Option<u32>,
    k: int,
) -> Seq<ObjectId>
    decreases k,
{
    if k <= 0 {
        Seq::empty()
    } else {
        let r = copy_targets_upto(s, filter, source_id, controller, max_mana_value, k - 1);
        let o = s.objects[k - 1];
        if obj_idx(s.objects, o.id) == k - 1 && is_copy_target(s, filter, source_id, controller, max_mana_value)(o) {
            r.push(o.id)
        } else {
            r
        }
    }
}

/// CR 707.9: the permanents, other than the source, that match the filter and are
/// within the mana-value ceiling, each once, in the order of the objects.
pub open spec fn spec_copy_targets(
    s: StateModel,
    filter: TargetFilterView,
    source_id: ObjectId,
    controller: PlayerId,
    max_mana_value: Option<u32>,
) -> Seq<ObjectId> {
    copy_targets_upto(s, filter, source_id, controller, max_mana_value, s.objects.len() as int)
}

/// Among the first `k` objects: an id is offered exactly when the object it names is
/// among them and is a valid copy target; no id is offered twice.
proof fn lemma_copy_targets_upto(
    s: StateModel,
    filter: TargetFilterView,
    source_id: ObjectId,
    controller: PlayerId,
    max_mana_value: Option<u32>,
    k: int,
)
    requires
        0 <= k <= s.objects.len(),
    ensures
        copy_targets_upto(s, filter, source_id, controller, max_mana_value, k).no_duplicates(),
        forall|id: ObjectId|
            #[trigger] copy_targets_upto(s, filter, source_id, controller, max_mana_value, k).contains(id) <==> (0
                <= obj_idx(s.objects, id) < k && is_copy_target(s, filter, source_id, controller, max_mana_value)(
                s.obj(id),
            )),
    decreases k,
{
    if k > 0 {
        lemma_copy_targets_upto(s, filter, source_id, controller, max_mana_value, k - 1);
        let r = copy_targets_upto(s, filter, source_id, controller, max_mana_value, k - 1);
        let o = s.objects[k - 1];
        let pred = is_copy_target(s, filter, source_id, controller, max_mana_value);
        lemma_obj_idx(s.objects, o.id);
        assert forall|id: ObjectId|
            #[trigger] copy_targets_upto(s, filter, source_id, controller, max_mana_value, k).contains(id) <==> (0
                <= obj_idx(s.objects, id) < k && pred(s.obj(id))) by {
            lemma_obj_idx(s.objects, id);
            if obj_idx(s.objects, o.id) == k - 1 && pred(o) {
                assert(r.push(o.id).contains(id) <==> (r.contains(id) || id == o.id)) by {
                    if id == o.id {
                        assert(r.push(o.id)[r.len() as int] == id);
                    }
                    if r.contains(id) {
                        let j = choose|j: int| 0 <= j < r.len() && r[j] == id;
                        assert(r.push(o.id)[j] == id);
                    }
                    if r.push(o.id).contains(id) && id != o.id {
                        let j = choose|j: int| 0 <= j < r.push(o.id).len() && r.push(o.id)[j] == id;
                        assert(r[j] == id);
                    }
                }
            }
        }
        if obj_idx(s.objects, o.id) == k - 1 && pred(o) {
            assert(!r.contains(o.id));
            let t = r.push(o.id);
            assert forall|a: int, b: int| 0 <= a < t.len() && 0 <= b < t.len() && a != b implies t[a] != t[b] by {
                if a < r.len() && b < r.len() {
                } else if a < r.len() {
                    assert(r.contains(t[a]));
                } else {
                    assert(r.contains(t[b]));
                }
            }
        }
    }
}

pub fn find_copy_targets(
    state: &GameState,
    filter: &TargetFilter,
    source_id: ObjectId,
    controller: PlayerId,
    max_mana_value: Option<u32>,
) -> (r: Vec<ObjectId>)
    ensures
        r@ == spec_copy_targets(state@, filter@, source_id, controller, max_mana_value),
        r@.no_duplicates(),
        forall|id: ObjectId|
            #[trigger] r@.contains(id) <==> (state@.has_object(id) && is_copy_target(
                state@,
                filter@,
                source_id,
                controller,
                max_mana_value,
            )(state@.obj(id))),
{
    let ghost pred = is_copy_target(state@, filter@, source_id, controller, max_mana_value);
    let mut r: Vec<ObjectId> = Vec::new();
    let mut i: usize = 0;
    while i < state.objects.len()
        invariant
            i <= state@.objects.len(),
            pred == is_copy_target(state@, filter@, source_id, controller, max_mana_value),
            r@ == copy_targets_upto(state@, filter@, source_id, controller, max_mana_value, i as int),
        decreases state@.objects.len() - i,
    {
        let o = &state.objects[i];
        let within = match max_mana_value {
            Some(m) => o.mana_value <= m,
            None => true,
        };
        let first = match find_object(&state.objects, o.id) {
            Some(k) => k == i,
            None => false,
        };
        let ok = first && o.zone == Zone::Battlefield && o.id != source_id && within && matches_target_filter(
            state,
            o,
            filter,
            source_id,
            controller,
        );
        if ok {
            r.push(o.id);
        }
        i += 1;
    }
    proof {
        lemma_copy_targets_upto(state@, filter@, source_id, controller, max_mana_value, state@.objects.len() as int);
        lemma_obj_idx(state@.objects, ObjectId(0));
        assert forall|id: ObjectId| #[trigger] r@.contains(id) <==> (state@.has_object(id) && pred(state@.obj(id))) by {
            lemma_obj_idx(state@.objects, id);
        }
    }
    r
}

/// The first target of a pending Aura spell, when it is an object on the
/// battlefield and the spell is (still) an Aura.
pub open spec fn aura_attach_target(s: StateModel, ctx: PendingSpellResolution) -> Option<ObjectId> {
    let id = ctx.object_id;
    if s.has_object(id) && s.obj(id).card_types.aura && ctx.spell_targets@.len() > 0 {
        match ctx.spell_targets@[0] {
            TargetRef::Object(t) => if s.on_battlefield(t) {
                Some(t)
            } else {
                None
            },
            TargetRef::Player(_) => None,
        }
    } else {
        None
    }
}

/// CR 608.3: the work left over from a permanent spell whose entering waited on a
/// replacement choice: the permanent remembers the zone it was cast from (CR 603.4);
/// an Aura attaches to its first target when that is on the battlefield (CR 303.4f);
/// a permanent cast for its warp cost that has warp gets its delayed trigger
/// (CR 702.185a).
pub open spec fn spec_pending_spell_resolution(s: StateModel, ctx: PendingSpellResolution) -> StateModel {
    let id = ctx.object_id;
    let s1 = s.set_obj(id, GameObject { cast_from_zone: ctx.cast_from_zone, ..s.obj(id) });
    let s2 = match aura_attach_target(s1, ctx) {
        Some(t) => s1.set_obj(id, GameObject { attached_to: Some(t), ..s1.obj(id) }),
        None => s1,
    };
    if ctx.casting_variant == CastingVariant::Warp && s2.has_object(id) && s2.obj(id).keywords.warp {
        StateModel {
            delayed_triggers: s2.delayed_triggers.push(DelayedTrigger { object_id: id, controller: ctx.controller }),
            ..s2
        }
    } else {
        s2
    }
}

fn set_cast_from_zone(state: &mut GameState, id: ObjectId, zone: Option<Zone>)
    ensures
        final(state)@ == old(state)@.set_obj(id, GameObject { cast_from_zone: zone, ..old(state)@.obj(id) }),
{
    proof {
        lemma_obj_idx(state@.objects, id);
    }
    match find_object(&state.objects, id) {
        Some(i) => {
            let ghost prev = state@.objects;
            let mut o = state.objects.remove(i);
            o.cast_from_zone = zone;
            state.objects.insert(i, o);
            assert(state@.objects =~= prev.update(i as int, GameObject { cast_from_zone: zone, ..prev[i as int] }));
        },
        None => {},
    }
}

fn attach_to(state: &mut GameState, id: ObjectId, target: ObjectId)
    ensures
        final(state)@ == old(state)@.set_obj(id, GameObject { attached_to: Some(target), ..old(state)@.obj(id) }),
{
    proof {
        lemma_obj_idx(state@.objects, id);
    }
    match find_object(&state.objects, id) {
        Some(i) => {
            let ghost prev = state@.objects;
            let mut o = state.objects.remove(i);
            o.attached_to = Some(target);
            state.objects.insert(i, o);
            assert(state@.objects =~= prev.update(i as int, GameObject { attached_to: Some(target), ..prev[i as int] }));
        },
        None => {},
    }
}

fn aura_target_of(state: &GameState, ctx: &PendingSpellResolution) -> (r: Option<ObjectId>)
    ensures
        r == aura_attach_target(state@, *ctx),
{
    let is_aura = match state.object(ctx.object_id) {
        Some(o) => o.card_types.aura,
        None => false,
    };
    if is_aura && ctx.spell_targets.len() > 0 {
        match ctx.spell_targets[0] {
            TargetRef::Object(t) => {
                let on = match state.object(t) {
                    Some(o) => o.zone == Zone::Battlefield,
                    None => false,
                };
                if on {
                    Some(t)
                } else {
                    None
                }
            },
            TargetRef::Player(_) => None,
        }
    } else {
        None
    }
}

pub fn apply_pending_spell_resolution(state: &mut GameState, ctx: &PendingSpellResolution)
    ensures
        final(state)@ == spec_pending_spell_resolution(old(state)@, *ctx),
{
    set_cast_from_zone(state, ctx.object_id, ctx.cast_from_zone);
    match aura_target_of(state, ctx) {
        Some(t) => attach_to(state, ctx.object_id, t),
        None => {},
    }
    if ctx.casting_variant == CastingVariant::Warp {
        let has_warp = match state.object(ctx.object_id) {
            Some(o) => o.keywords.warp,
            None => false,
        };
        if has_warp {
            state.delayed_triggers.push(DelayedTrigger { object_id: ctx.object_id, controller: ctx.controller });
        }
    }
}

/// The source and controller a post-replacement ability resolves with: the object
/// that changed zones and its controller, or object 0 and the active player.
pub open spec fn post_effect_source(s: StateModel, object_id: Option<ObjectId>) -> (ObjectId, PlayerId) {
    match object_id {
        Some(id) => if s.has_object(id) {
            (id, s.obj(id).controller)
        } else {
            (ObjectId(0), s.active_player)
        },
        None => (ObjectId(0), s.active_player),
    }
}

pub open spec fn object_targets(object_id: Option<ObjectId>) -> Seq<TargetRef> {
    match object_id {
        Some(id) => seq![TargetRef::Object(id)],
        None => Seq::empty(),
    }
}

/// A side ability after a replacement was applied (a shock land's life payment, a
/// tap on decline). CR 707.9: a "becomes a copy" ability does not resolve yet: the
/// engine waits for its controller to choose among the valid copy targets, or
/// nothing happens when there are none. Any other ability resolves at once, aimed
/// at the object, and the engine then waits for whatever it left pending.
pub open spec fn spec_apply_post(
    w: World,
    def: AbilityDefinitionView,
    object_id: Option<ObjectId>,
    ctx: Option<PendingSpellResolution>,
) -> (World, Option<WaitingForView>) {
    let (source_id, controller) = post_effect_source(w.0, object_id);
    match def.effect {
        EffectView::BecomeCopy { target, .. } => {
            let max = match ctx {
                Some(c) => spec_copy_ceiling(c.actual_mana_spent, def),
                None => None,
            };
            let valid = spec_copy_targets(w.0, target, source_id, controller, max);
            (
                w,
                if valid.len() == 0 {
                    None
                } else {
                    Some(
                        WaitingForView::CopyTargetChoice {
                            player: controller,
                            source_id,
                            valid_targets: valid,
                            max_mana_value: max,
                        },
                    )
                },
            )
        },
        _ => {
            let w1 = spec_resolve_chain(w, spec_resolved_from(def, source_id, controller, object_targets(object_id)));
            (
                w1,
                if w1.0.waiting_for is Priority {
                    None
                } else {
                    Some(w1.0.waiting_for)
                },
            )
        },
    }
}

pub fn apply_post_replacement_effect(
    state: &mut GameState,
    effect_def: &AbilityDefinition,
    object_id: Option<ObjectId>,
    spell_resolution: Option<&PendingSpellResolution>,
    events: &mut Vec<GameEvent>,
) -> (r: Option<WaitingFor>)
    ensures
        ({
            let (w, wf) = spec_apply_post(
                (old(state)@, evs(old(events)@)),
                effect_def@,
                object_id,
                match spell_resolution {
                    Some(c) => Some(*c),
                    None => None,
                },
            );
            &&& (final(state)@, evs(final(events)@)) == w
            &&& match r {
                Some(x) => wf == Some(x@),
                None => wf is None,
            }
        }),
{
    let (source_id, controller) = match object_id {
        Some(id) => match state.object(id) {
            Some(o) => (id, o.controller),
            None => (ObjectId(0), state.active_player),
        },
        None => (ObjectId(0), state.active_player),
    };
    match &*effect_def.effect {
        Effect::BecomeCopy { target, .. } => {
            let max_mana_value = match spell_resolution {
                Some(c) => copy_target_mana_value_ceiling(c.actual_mana_spent, effect_def),
                None => None,
            };
            let valid_targets = find_copy_targets(state, target, source_id, controller, max_mana_value);
            if valid_targets.len() == 0 {
                None
            } else {
                Some(WaitingFor::CopyTargetChoice { player: controller, source_id, valid_targets, max_mana_value })
            }
        },
        _ => {
            let mut targets: Vec<TargetRef> = Vec::new();
            match object_id {
                Some(id) => targets.push(TargetRef::Object(id)),
                None => {},
            }
            proof {
                assert(targets@ =~= object_targets(object_id));
            }
            let resolved = resolved_ability_from_definition(effect_def, source_id, controller, targets);
            let _ = resolve_ability_chain(state, &resolved, events);
            if state.waiting_for.is_priority() {
                None
            } else {
                Some(state.waiting_for.duplicate())
            }
        },
    }
}

/// The object an accepted zone change moved, if the event was one.
pub open spec fn zone_change_id(e: ProposedEvent) -> Option<ObjectId> {
    match e {
        ProposedEvent::ZoneChange { object_id, .. } => Some(object_id),
        _ => None,
    }
}

/// Does the accepted event put something onto the battlefield?
pub open spec fn enters_battlefield(e: ProposedEvent) -> bool {
    match e {
        ProposedEvent::ZoneChange { to, .. } => to == Zone::Battlefield,
        _ => false,
    }
}

/// The accepted event is applied, the engine turns to the active player's priority,
/// and a permanent spell that was waiting on the choice finishes resolving when its
/// permanent entered. Also gives the pending spell work that was taken.
pub open spec fn spec_execute_stage(w: World, e: ProposedEvent) -> (World, Option<PendingSpellResolution>) {
    let w1 = spec_apply_event(w, e);
    let ctx = w1.0.pending_spell_resolution;
    let s2 = StateModel {
        waiting_for: WaitingForView::Priority { player: w1.0.active_player },
        pending_spell_resolution: None,
        ..w1.0
    };
    let s3 = match ctx {
        Some(c) => if enters_battlefield(e) {
            spec_pending_spell_resolution(s2, c)
        } else {
            s2
        },
        None => s2,
    };
    ((s3, w1.1), ctx)
}

/// The side ability left for after the replacement runs, and says what the engine
/// waits for when it asks for something; otherwise the engine keeps `wf`.
pub open spec fn spec_post_stage(
    w: World,
    wf: WaitingForView,
    zone_id: Option<ObjectId>,
    ctx: Option<PendingSpellResolution>,
) -> (World, WaitingForView) {
    match w.0.post_replacement_effect {
        Some(def) => {
            let (w2, next) = spec_apply_post(
                (StateModel { post_replacement_effect: None, ..w.0 }, w.1),
                def@,
                zone_id,
                ctx,
            );
            (
                w2,
                match next {
                    Some(x) => x,
                    None => wf,
                },
            )
        },
        None => (w, wf),
    }
}

/// CR 616.1e: when the engine is back at priority, the rest of the paused ability
/// chain resolves; if it pauses again, the engine waits for that instead.
pub open spec fn spec_continuation_stage(w: World, wf: WaitingForView) -> (World, WaitingForView) {
    if wf is Priority {
        match w.0.pending_continuation {
            Some(cont) => {
                let w1 = spec_resolve_chain((StateModel { pending_continuation: None, ..w.0 }, w.1), cont@);
                (
                    w1,
                    if w1.0.waiting_for is Priority {
                        wf
                    } else {
                        w1.0.waiting_for
                    },
                )
            },
            None => (w, wf),
        }
    } else {
        (w, wf)
    }
}

/// CR 616.1: the world and answer after the player picks option `index` of the
/// pending replacement choice. The chosen option is used up in every case. An
/// option that is not there is refused. A chosen event is applied and followed by
/// the work that waited on it; a further choice is asked for among the options that
/// remain (CR 616.1e); a prevented event
/// applies nothing, sends a permanent spell that was entering to the graveyard
/// (CR 608.3e) and drops the rest of the paused chain.
pub open spec fn spec_handle_replacement_choice(w: World, index: usize) -> (World, Result<WaitingForView, EngineError>) {
    let s0 = StateModel { pending_replacement: spec_pending_after_choice(w.0, index), ..w.0 };
    match spec_continue_replacement(w.0, index) {
        None => ((s0, w.1), Err(EngineError::InvalidAction(ActionError::InvalidReplacementChoice { index }))),
        Some(ReplacementResult::Execute(e)) => {
            let (w1, ctx) = spec_execute_stage((s0, w.1), e);
            let (w2, wf1) = spec_post_stage(
                w1,
                WaitingForView::Priority { player: w1.0.active_player },
                zone_change_id(e),
                ctx,
            );
            let (w3, wf2) = spec_continuation_stage(w2, wf1);
            (w3, Ok(wf2))
        },
        Some(ReplacementResult::NeedsChoice(p)) => ((s0, w.1), Ok(spec_replacement_choice_waiting_for(s0, p))),
        Some(ReplacementResult::Prevented) => {
            let w1 = match s0.pending_spell_resolution {
                Some(c) => spec_move_to_zone(
                    (StateModel { pending_spell_resolution: None, ..s0 }, w.1),
                    c.object_id,
                    Zone::Graveyard,
                ),
                None => (s0, w.1),
            };
            (
                (StateModel { pending_continuation: None, ..w1.0 }, w1.1),
                Ok(WaitingForView::Priority { player: s0.active_player }),
            )
        },
    }
}

fn execute_stage(state: &mut GameState, event: ProposedEvent, events: &mut Vec<GameEvent>) -> (r: Option<
    PendingSpellResolution,
>)
    ensures
        ((final(state)@, evs(final(events)@)), r) == spec_execute_stage((old(state)@, evs(old(events)@)), event),
{
    let enters = match &event {
        ProposedEvent::ZoneChange { to, .. } => *to == Zone::Battlefield,
        _ => false,
    };
    apply_proposed_event(state, event, events);
    state.waiting_for = WaitingFor::Priority { player: state.active_player };
    let ctx = state.pending_spell_resolution.take();
    match &ctx {
        Some(c) => {
            if enters {
                apply_pending_spell_resolution(state, c);
            }
        },
        None => {},
    }
    ctx
}

fn post_stage(
    state: &mut GameState,
    wf: WaitingFor,
    zone_id: Option<ObjectId>,
    ctx: &Option<PendingSpellResolution>,
    events: &mut Vec<GameEvent>,
) -> (r: WaitingFor)
    ensures
        ((final(state)@, evs(final(events)@)), r@) == spec_post_stage((old(state)@, evs(old(events)@)), wf@, zone_id, *ctx),
{
    match state.post_replacement_effect.take() {
        Some(def) => {
            let c = match ctx {
                Some(c) => Some(c),
                None => None,
            };
            match apply_post_replacement_effect(state, &def, zone_id, c, events) {
                Some(next) => next,
                None => wf,
            }
        },
        None => wf,
    }
}

fn continuation_stage(state: &mut GameState, wf: WaitingFor, events: &mut Vec<GameEvent>) -> (r: WaitingFor)
    ensures
        ((final(state)@, evs(final(events)@)), r@) == spec_continuation_stage((old(state)@, evs(old(events)@)), wf@),
{
    if wf.is_priority() {
        match state.pending_continuation.take() {
            Some(cont) => {
                let _ = resolve_ability_chain(state, &cont, events);
                if state.waiting_for.is_priority() {
                    wf
                } else {
                    state.waiting_for.duplicate()
                }
            },
            None => wf,
        }
    } else {
        wf
    }
}

/// CR 616.1: the player picks option `index` of the pending replacement choice.
pub fn handle_replacement_choice(state: &mut GameState, index: usize, events: &mut Vec<GameEvent>) -> (r: Result<
    WaitingFor,
    EngineError,
>)
    ensures
        ((final(state)@, evs(final(events)@)), result_view(r)) == spec_handle_replacement_choice(
            (old(state)@, evs(old(events)@)),
            index,
        ),
{
    match continue_replacement(state, index) {
        Err(e) => Err(e),
        Ok(ReplacementResult::Execute(event)) => {
            let zone_id = match &event {
                ProposedEvent::ZoneChange { object_id, .. } => Some(*object_id),
                _ => None,
            };
            let ctx = execute_stage(state, event, events);
            let wf0 = WaitingFor::Priority { player: state.active_player };
            let wf1 = post_stage(state, wf0, zone_id, &ctx, events);
            let wf2 = continuation_stage(state, wf1, events);
            Ok(wf2)
        },
        Ok(ReplacementResult::NeedsChoice(player)) => Ok(replacement_choice_waiting_for(player, state)),
        Ok(ReplacementResult::Prevented) => {
            match state.pending_spell_resolution.take() {
                Some(c) => move_to_zone(state, c.object_id, Zone::Graveyard, events),
                None => {},
            }
            state.pending_continuation = None;
            Ok(WaitingFor::Priority { player: state.active_player })
        },
    }
}

/// The ability used when the source prints no "becomes a copy" replacement: the
/// source becomes a copy of the chosen permanent, with no limit.
pub open spec fn default_copy_ability(source_id: ObjectId, player: PlayerId, target_id: ObjectId) -> ResolvedAbilityView {
    ResolvedAbilityView {
        effect: EffectView::BecomeCopy { target: TargetFilterView::Any, duration: None, limited_by_mana_spent: false },
        targets: seq![TargetRef::Object(target_id)],
        source_id,
        controller: player,
        kind: AbilityKind::Spell,
        sub_ability: None,
        else_ability: None,
        duration: None,
        condition: None,
    }
}

/// The chosen copy target, when the answer names one of the valid targets.
pub open spec fn chosen_copy_target(valid_targets: Seq<ObjectId>, target: Option<TargetRef>) -> Option<ObjectId> {
    match target {
        Some(TargetRef::Object(id)) => if valid_targets.contains(id) {
            Some(id)
        } else {
            None
        },
        _ => None,
    }
}

/// After the copy ability resolved: layers are marked dirty, the rest of a paused
/// chain resolves, and the active player gets priority.
pub open spec fn spec_after_copy(w1: World) -> (World, Result<WaitingForView, EngineError>) {
    let s2 = StateModel { layers_dirty: true, ..w1.0 };
    let w3 = match s2.pending_continuation {
        Some(cont) => spec_resolve_chain((StateModel { pending_continuation: None, ..s2 }, w1.1), cont@),
        None => (s2, w1.1),
    };
    (w3, Ok(WaitingForView::Priority { player: w3.0.active_player }))
}

/// CR 707.9: the world and answer after the player picks what the source becomes a
/// copy of. Refused when the engine is not waiting for a copy target, or when the
/// answer is not one of the valid targets (nothing changes then). Otherwise the
/// source's copy ability (or a plain copy) resolves aimed at the choice, layers are
/// marked dirty, the rest of a paused chain resolves, and the active player gets
/// priority.
pub open spec fn spec_handle_copy_target_choice(
    w: World,
    waiting_for: WaitingForView,
    target: Option<TargetRef>,
) -> (World, Result<WaitingForView, EngineError>) {
    match waiting_for {
        WaitingForView::CopyTargetChoice { player, source_id, valid_targets, .. } => match chosen_copy_target(
            valid_targets,
            target,
        ) {
            Some(target_id) => {
                let ability = match spec_copy_effect_for_source(w.0, source_id) {
                    Some(d) => spec_resolved_from(d@, source_id, player, seq![TargetRef::Object(target_id)]),
                    None => default_copy_ability(source_id, player, target_id),
                };
                spec_after_copy(spec_resolve_chain(w, ability))
            },
            None => (w, Err(EngineError::InvalidAction(ActionError::InvalidCopyTarget))),
        },
        _ => (w, Err(EngineError::InvalidAction(ActionError::NotWaitingForCopyTarget))),
    }
}

fn contains_id(v: &Vec<ObjectId>, id: ObjectId) -> (r: bool)
    ensures
        r == v@.contains(id),
{
    let mut i: usize = 0;
    while i < v.len()
        invariant
            i <= v@.len(),
            forall|j: int| 0 <= j < i ==> v@[j] != id,
        decreases v@.len() - i,
    {
        if v[i] == id {
            return true;
        }
        i += 1;
    }
    false
}

/// CR 707.9: the player picks what the source becomes a copy of.
pub fn handle_copy_target_choice(
    state: &mut GameState,
    waiting_for: WaitingFor,
    target: Option<TargetRef>,
    events: &mut Vec<GameEvent>,
) -> (r: Result<WaitingFor, EngineError>)
    ensures
        ((final(state)@, evs(final(events)@)), result_view(r)) == spec_handle_copy_target_choice(
            (old(state)@, evs(old(events)@)),
            waiting_for@,
            target,
        ),
{
    let (player, source_id, valid_targets) = match waiting_for {
        WaitingFor::CopyTargetChoice { player, source_id, valid_targets, .. } => (player, source_id, valid_targets),
        _ => {
            return Err(EngineError::InvalidAction(ActionError::NotWaitingForCopyTarget));
        },
    };
    let target_id = match target {
        Some(TargetRef::Object(id)) => {
            if contains_id(&valid_targets, id) {
                id
            } else {
                return Err(EngineError::InvalidAction(ActionError::InvalidCopyTarget));
            }
        },
        _ => {
            return Err(EngineError::InvalidAction(ActionError::InvalidCopyTarget));
        },
    };
    let mut targets: Vec<TargetRef> = Vec::new();
    targets.push(TargetRef::Object(target_id));
    proof {
        assert(targets@ =~= seq![TargetRef::Object(target_id)]);
    }
    let ability = match copy_effect_for_source(state, source_id) {
        Some(def) => resolved_ability_from_definition(def, source_id, player, targets),
        None => ResolvedAbility::new(
            Effect::BecomeCopy { target: TargetFilter::Any, duration: None, limited_by_mana_spent: false },
            targets,
            source_id,
            player,
        ),
    };
    let _ = resolve_ability_chain(state, &ability, events);
    state.layers_dirty = true;
    match state.pending_continuation.take() {
        Some(cont) => {
            let _ = resolve_ability_chain(state, &cont, events);
        },
        None => {},
    }
    Ok(WaitingFor::Priority { player: state.active_player })
}

/// CR 616.1: choosing an option that is not offered is refused; the pending choice
/// is used up and nothing else changes.
pub proof fn law_unoffered_replacement_choice_refused(w: World, index: usize)
    requires
        spec_continue_replacement(w.0, index) is None,
    ensures
        spec_handle_replacement_choice(w, index) == (
            (StateModel { pending_replacement: None, ..w.0 }, w.1),
            Err::<WaitingForView, EngineError>(
                EngineError::InvalidAction(ActionError::InvalidReplacementChoice { index }),
            ),
        ),
{
}

/// CR 615.1: a prevented event applies nothing: with no permanent spell waiting on
/// the choice, the objects, players and events are as they were, the paused chain is
/// dropped and the active player gets priority.
pub proof fn law_prevented_event_applies_nothing(w: World, index: usize)
    requires
        spec_continue_replacement(w.0, index) == Some(ReplacementResult::Prevented),
        w.0.pending_spell_resolution is None,
    ensures
        ({
            let (w2, r) = spec_handle_replacement_choice(w, index);
            &&& w2.0.objects == w.0.objects
            &&& w2.0.players == w.0.players
            &&& w2.1 == w.1
            &&& w2.0.pending_continuation is None
            &&& r == Ok::<WaitingForView, EngineError>(WaitingForView::Priority { player: w.0.active_player })
        }),
{
}

/// CR 122.1: an accepted counter placement puts the counters on the object (adding,
/// and stopping at the largest count a counter can hold); when nothing else waits on
/// the choice, that is where the object stays and the active player gets priority.
pub proof fn law_accepted_counter_placement_applies(
    w: World,
    index: usize,
    object_id: ObjectId,
    counter_type: CounterType,
    count: u32,
)
    requires
        spec_continue_replacement(w.0, index) == Some(
            ReplacementResult::Execute(ProposedEvent::AddCounter { object_id, counter_type, count }),
        ),
        w.0.has_object(object_id),
    ensures
        ({
            let e = ProposedEvent::AddCounter { object_id, counter_type, count };
            let s0 = StateModel { pending_replacement: None, ..w.0 };
            let w1 = spec_execute_stage((s0, w.1), e).0;
            &&& w1.0.has_object(object_id)
            &&& w1.0.obj(object_id).counters == w.0.obj(object_id).counters.added(counter_type, count)
            &&& w1.0.obj(object_id).counters.count(counter_type) == sat_add(
                w.0.obj(object_id).counters.count(counter_type),
                count,
            )
        }),
        (w.0.post_replacement_effect is None && w.0.pending_continuation is None) ==> ({
            let (w2, r) = spec_handle_replacement_choice(w, index);
            &&& w2.0.has_object(object_id)
            &&& w2.0.obj(object_id).counters == w.0.obj(object_id).counters.added(counter_type, count)
            &&& r == Ok::<WaitingForView, EngineError>(WaitingForView::Priority { player: w.0.active_player })
        }),
{
    let s0 = StateModel { pending_replacement: None, ..w.0 };
    lemma_obj_idx(s0.objects, object_id);
    let o = s0.obj(object_id);
    let s1 = s0.set_obj(object_id, GameObject { counters: o.counters.added(counter_type, count), ..o });
    lemma_obj_idx_update(s0.objects, obj_idx(s0.objects, object_id), GameObject {
        counters: o.counters.added(counter_type, count),
        ..o
    }, object_id);
    lemma_obj_idx(s1.objects, object_id);
}

/// CR 701.26a: an accepted tap taps the permanent; when nothing else waits on the
/// choice, it stays tapped and the active player gets priority.
pub proof fn law_accepted_tap_applies(w: World, index: usize, object_id: ObjectId)
    requires
        spec_continue_replacement(w.0, index) == Some(
            ReplacementResult::Execute(ProposedEvent::Tap { object_id }),
        ),
        w.0.has_object(object_id),
    ensures
        ({
            let s0 = StateModel { pending_replacement: None, ..w.0 };
            let w1 = spec_execute_stage((s0, w.1), ProposedEvent::Tap { object_id }).0;
            w1.0.has_object(object_id) && w1.0.obj(object_id).tapped
        }),
        (w.0.post_replacement_effect is None && w.0.pending_continuation is None) ==> ({
            let (w2, r) = spec_handle_replacement_choice(w, index);
            &&& w2.0.has_object(object_id)
            &&& w2.0.obj(object_id).tapped
            &&& r == Ok::<WaitingForView, EngineError>(WaitingForView::Priority { player: w.0.active_player })
        }),
{
    let s0 = StateModel { pending_replacement: None, ..w.0 };
    lemma_obj_idx(s0.objects, object_id);
    let o = s0.obj(object_id);
    lemma_obj_idx_update(s0.objects, obj_idx(s0.objects, object_id), GameObject { tapped: true, ..o }, object_id);
    let s1 = s0.set_obj(object_id, GameObject { tapped: true, ..o });
    lemma_obj_idx(s1.objects, object_id);
}

/// CR 707.9: the offered copy targets are exactly the permanents on the battlefield,
/// other than the source, within the mana-value ceiling and matching the copy
/// filter, each offered once.
pub proof fn law_copy_targets_are_valid(
    s: StateModel,
    filter: TargetFilterView,
    source_id: ObjectId,
    controller: PlayerId,
    max_mana_value: Option<u32>,
)
    ensures
        spec_copy_targets(s, filter, source_id, controller, max_mana_value).no_duplicates(),
        forall|id: ObjectId|
            #[trigger] spec_copy_targets(s, filter, source_id, controller, max_mana_value).contains(id) <==> (
            s.has_object(id) && s.obj(id).zone == Zone::Battlefield && id != source_id && (match max_mana_value {
                Some(m) => s.obj(id).mana_value <= m,
                None => true,
            }) && matches_filter(s, s.obj(id), filter, source_id, controller)),
{
    lemma_copy_targets_upto(s, filter, source_id, controller, max_mana_value, s.objects.len() as int);
    assert forall|id: ObjectId|
        #[trigger] spec_copy_targets(s, filter, source_id, controller, max_mana_value).contains(id) <==> (
        s.has_object(id) && s.obj(id).zone == Zone::Battlefield && id != source_id && (match max_mana_value {
            Some(m) => s.obj(id).mana_value <= m,
            None => true,
        }) && matches_filter(s, s.obj(id), filter, source_id, controller)) by {
        lemma_obj_idx(s.objects, id);
        if s.has_object(id) {
            assert(s.obj(id).id == id);
        }
    }
}

/// CR 120.3: an accepted damage event of amount 0 deals nothing: when nothing else
/// waits on the choice, the objects, the players and the events are as they were,
/// and the active player gets priority.
pub proof fn law_accepted_zero_damage_deals_nothing(
    w: World,
    index: usize,
    source_id: ObjectId,
    target: TargetRef,
    is_combat: bool,
)
    requires
        spec_continue_replacement(w.0, index) == Some(
            ReplacementResult::Execute(ProposedEvent::Damage { source_id, target, amount: 0, is_combat }),
        ),
        w.0.post_replacement_effect is None,
        w.0.pending_continuation is None,
    ensures
        ({
            let (w2, r) = spec_handle_replacement_choice(w, index);
            &&& w2.0.objects == w.0.objects
            &&& w2.0.players == w.0.players
            &&& w2.1 == w.1
            &&& r == Ok::<WaitingForView, EngineError>(WaitingForView::Priority { player: w.0.active_player })
        }),
{
}

/// CR 707.9: when the player answers a copy-target choice with one of the offered
/// permanents, the source becomes a copy of that permanent: the ability that resolves
/// is a "becomes a copy" ability of the source, under the choosing player, aimed at
/// exactly the chosen object. An answer that is not offered is refused and changes
/// nothing.
pub proof fn law_copy_choice_copies_the_chosen_permanent(
    w: World,
    player: PlayerId,
    source_id: ObjectId,
    valid_targets: Seq<ObjectId>,
    max_mana_value: Option<u32>,
    target_id: ObjectId,
    some_player: PlayerId,
)
    ensures
        ({
            let waiting = WaitingForView::CopyTargetChoice { player, source_id, valid_targets, max_mana_value };
            let answer = Some(TargetRef::Object(target_id));
            let refused = Err::<WaitingForView, EngineError>(EngineError::InvalidAction(ActionError::InvalidCopyTarget));
            &&& valid_targets.contains(target_id) ==> exists|a: ResolvedAbilityView|
                #![trigger spec_resolve_chain(w, a)]
                a.targets == seq![TargetRef::Object(target_id)] && a.source_id == source_id && a.controller == player
                    && a.effect is BecomeCopy && spec_handle_copy_target_choice(w, waiting, answer)
                    == spec_after_copy(spec_resolve_chain(w, a))
            &&& !valid_targets.contains(target_id) ==> spec_handle_copy_target_choice(w, waiting, answer) == (
                w,
                refused,
            )
            &&& spec_handle_copy_target_choice(w, waiting, None) == (w, refused)
            &&& spec_handle_copy_target_choice(w, waiting, Some(TargetRef::Player(some_player))) == (w, refused)
        }),
{
    if valid_targets.contains(target_id) {
        let id = target_id;
        let a = match spec_copy_effect_for_source(w.0, source_id) {
            Some(d) => spec_resolved_from(d@, source_id, player, seq![TargetRef::Object(id)]),
            None => default_copy_ability(source_id, player, id),
        };
        if w.0.has_object(source_id) {
            let defs = w.0.obj(source_id).replacement_definitions@;
            lemma_first_match(defs, is_copy_replacement());
            let k = first_match(defs, is_copy_replacement());
            if k >= 0 {
                assert(is_copy_replacement()(defs[k]));
            }
        }
        assert(a.targets == seq![TargetRef::Object(id)] && a.source_id == source_id && a.controller == player
            && a.effect is BecomeCopy);
        assert(spec_resolve_chain(w, a) == spec_resolve_chain(w, a));
    }
}

} // verus!
