use vstd::prelude::*;

use crate::ability::{AbilityDefinition, ReplacementDefinition, ResolvedAbility};
use crate::replacement::{PendingReplacement, PendingReplacementView};
use crate::seqs::{first_match, lemma_first_match, lemma_first_match_at};
use crate::types::{
    CardId, CardTypes, Colors, CombatModel, CombatState, CounterType, Counters, DelayedTrigger, GameObject,
    Keywords, ManaPool, ObjectId, PendingSpellResolution, PendingTrigger, Phase, Player, PlayerId,
    TransientEffect, WaitingFor, WaitingForView, Zone,
};

verus! {

/// The whole game.
#[derive(Debug)]
pub struct GameState {
    pub players: Vec<Player>,
    pub objects: Vec<GameObject>,
    pub active_player: PlayerId,
    pub priority_player: PlayerId,
    pub turn_number: u32,
    pub phase: Phase,
    pub waiting_for: WaitingFor,
    /// A player who makes the active player's decisions this turn (CR 723).
    pub turn_decision_controller: Option<PlayerId>,
    pub combat: Option<CombatState>,
    pub layers_dirty: bool,
    /// Counters that objects enter the battlefield with, set up by delayed triggers.
    pub pending_etb_counters: Vec<(ObjectId, CounterType, u32)>,
    pub players_who_added_counter_this_turn: Vec<PlayerId>,
    pub pending_replacement: Option<PendingReplacement>,
    pub pending_spell_resolution: Option<PendingSpellResolution>,
    /// An ability to run after a replacement choice has been applied.
    pub post_replacement_effect: Option<AbilityDefinition>,
    /// The rest of an ability chain that paused on a replacement choice.
    pub pending_continuation: Option<ResolvedAbility>,
    pub pending_trigger: Option<PendingTrigger>,
    pub transient_effects: Vec<TransientEffect>,
    pub delayed_triggers: Vec<DelayedTrigger>,
    pub revealed_cards: Vec<ObjectId>,
    pub next_object_id: u64,
    pub priority_passes: u32,
    pub rng_seed: u64,
}

/// The mathematical model of a game state.
pub struct StateModel {
    pub players: Seq<Player>,
    pub objects: Seq<GameObject>,
    pub active_player: PlayerId,
    pub priority_player: PlayerId,
    pub turn_number: u32,
    pub phase: Phase,
    pub waiting_for: WaitingForView,
    pub turn_decision_controller: Option<PlayerId>,
    pub combat: Option<CombatModel>,
    pub layers_dirty: bool,
    pub pending_etb_counters: Seq<(ObjectId, CounterType, u32)>,
    pub players_who_added_counter_this_turn: Seq<PlayerId>,
    pub pending_replacement: Option<PendingReplacementView>,
    pub pending_spell_resolution: Option<PendingSpellResolution>,
    pub post_replacement_effect: Option<AbilityDefinition>,
    pub pending_continuation: Option<ResolvedAbility>,
    pub pending_trigger: Option<PendingTrigger>,
    pub transient_effects: Seq<TransientEffect>,
    pub delayed_triggers: Seq<DelayedTrigger>,
    pub revealed_cards: Seq<ObjectId>,
    pub next_object_id: u64,
    pub priority_passes: u32,
    pub rng_seed: u64,
}

impl View for GameState {
    type V = StateModel;

    open spec fn view(&self) -> StateModel {
        StateModel {
            players: self.players@,
            objects: self.objects@,
            active_player: self.active_player,
            priority_player: self.priority_player,
            turn_number: self.turn_number,
            phase: self.phase,
            waiting_for: self.waiting_for@,
            turn_decision_controller: self.turn_decision_controller,
            combat: match self.combat {
                Some(c) => Some(c@),
                None => None,
            },
            layers_dirty: self.layers_dirty,
            pending_etb_counters: self.pending_etb_counters@,
            players_who_added_counter_this_turn: self.players_who_added_counter_this_turn@,
            pending_replacement: match self.pending_replacement {
                Some(p) => Some(p@),
                None => None,
            },
            pending_spell_resolution: self.pending_spell_resolution,
            post_replacement_effect: self.post_replacement_effect,
            pending_continuation: self.pending_continuation,
            pending_trigger: self.pending_trigger,
            transient_effects: self.transient_effects@,
            delayed_triggers: self.delayed_triggers@,
            revealed_cards: self.revealed_cards@,
            next_object_id: self.next_object_id,
            priority_passes: self.priority_passes,
            rng_seed: self.rng_seed,
        }
    }
}

pub open spec fn has_object_id(id: ObjectId) -> spec_fn(GameObject) -> bool {
    |o: GameObject| o.id == id
}

pub open spec fn has_player_id(id: PlayerId) -> spec_fn(Player) -> bool {
    |p: Player| p.id == id
}

/// Position of the object with this id (the first one), or -1.
pub open spec fn obj_idx(objs: Seq<GameObject>, id: ObjectId) -> int {
    first_match(objs, has_object_id(id))
}

/// Position of the player with this id (the first one), or -1.
pub open spec fn player_idx(players: Seq<Player>, id: PlayerId) -> int {
    first_match(players, has_player_id(id))
}

impl StateModel {
    pub open spec fn has_object(self, id: ObjectId) -> bool {
        obj_idx(self.objects, id) >= 0
    }

    /// The object with this id (meaningful when it exists).
    pub open spec fn obj(self, id: ObjectId) -> GameObject {
        self.objects[obj_idx(self.objects, id)]
    }

    pub open spec fn has_player(self, id: PlayerId) -> bool {
        player_idx(self.players, id) >= 0
    }

    pub open spec fn player(self, id: PlayerId) -> Player {
        self.players[player_idx(self.players, id)]
    }

    /// The state with the object at position `i` replaced.
    pub open spec fn set_obj_at(self, i: int, o: GameObject) -> StateModel {
        StateModel { objects: self.objects.update(i, o), ..self }
    }

    /// The state with the object with this id replaced (unchanged when absent).
    pub open spec fn set_obj(self, id: ObjectId, o: GameObject) -> StateModel {
        if self.has_object(id) {
            self.set_obj_at(obj_idx(self.objects, id), o)
        } else {
            self
        }
    }

    /// The state with the player with this id replaced (unchanged when absent).
    pub open spec fn set_player(self, id: PlayerId, p: Player) -> StateModel {
        if self.has_player(id) {
            StateModel { players: self.players.update(player_idx(self.players, id), p), ..self }
        } else {
            self
        }
    }

    /// Is the object with this id on the battlefield?
    pub open spec fn on_battlefield(self, id: ObjectId) -> bool {
        self.has_object(id) && self.obj(id).zone == Zone::Battlefield
    }

    /// The object ids are unique, and each is below the next id to be handed out.
    pub open spec fn ids_well_formed(self) -> bool {
        &&& forall|i: int, j: int|
            0 <= i < j < self.objects.len() ==> (#[trigger] self.objects[i]).id != (#[trigger] self.objects[j]).id
        &&& forall|i: int| 0 <= i < self.objects.len() ==> (#[trigger] self.objects[i]).id.0 < self.next_object_id
    }
}

/// Replacing an object by one with the same id keeps the ids well formed.
pub proof fn lemma_same_id_update_keeps_ids(s: StateModel, i: int, o: GameObject)
    requires
        s.ids_well_formed(),
        0 <= i < s.objects.len(),
        o.id == s.objects[i].id,
    ensures
        s.set_obj_at(i, o).ids_well_formed(),
{
    let t = s.set_obj_at(i, o);
    assert forall|a: int, b: int| 0 <= a < b < t.objects.len() implies (#[trigger] t.objects[a]).id
        != (#[trigger] t.objects[b]).id by {
        assert(t.objects[a].id == s.objects[a].id);
        assert(t.objects[b].id == s.objects[b].id);
    }
    assert forall|a: int| 0 <= a < t.objects.len() implies (#[trigger] t.objects[a]).id.0 < t.next_object_id by {
        assert(t.objects[a].id == s.objects[a].id);
    }
}

/// Find the first object with this id.
pub fn find_object(objs: &Vec<GameObject>, id: ObjectId) -> (r: Option<usize>)
    ensures
        match r {
            Some(i) => obj_idx(objs@, id) == i as int,
            None => obj_idx(objs@, id) == -1,
        },
        r matches Some(i) ==> i < objs@.len() && objs@[i as int].id == id,
{
    proof {
        lemma_first_match(objs@, has_object_id(id));
    }
    let mut i: usize = 0;
    while i < objs.len()
        invariant
            i <= objs@.len(),
            forall|j: int| 0 <= j < i ==> (#[trigger] objs@[j]).id != id,
        decreases objs@.len() - i,
    {
        if objs[i].id == id {
            proof {
                assert forall|j: int| 0 <= j < i implies !has_object_id(id)(#[trigger] objs@[j]) by {}
                lemma_first_match_at(objs@, has_object_id(id), i as int);
            }
            return Some(i);
        }
        i += 1;
    }
    proof {
        assert forall|j: int| 0 <= j < objs@.len() implies !has_object_id(id)(#[trigger] objs@[j]) by {}
    }
    None
}

/// Find the first player with this id.
pub fn find_player(players: &Vec<Player>, id: PlayerId) -> (r: Option<usize>)
    ensures
        match r {
            Some(i) => player_idx(players@, id) == i as int,
            None => player_idx(players@, id) == -1,
        },
        r matches Some(i) ==> i < players@.len() && players@[i as int].id == id,
{
    proof {
        lemma_first_match(players@, has_player_id(id));
    }
    let mut i: usize = 0;
    while i < players.len()
        invariant
            i <= players@.len(),
            forall|j: int| 0 <= j < i ==> (#[trigger] players@[j]).id != id,
        decreases players@.len() - i,
    {
        if players[i].id == id {
            proof {
                assert forall|j: int| 0 <= j < i implies !has_player_id(id)(#[trigger] players@[j]) by {}
                lemma_first_match_at(players@, has_player_id(id), i as int);
            }
            return Some(i);
        }
        i += 1;
    }
    proof {
        assert forall|j: int| 0 <= j < players@.len() implies !has_player_id(id)(
            #[trigger] players@[j],
        ) by {}
    }
    None
}

pub proof fn lemma_obj_idx(objs: Seq<GameObject>, id: ObjectId)
    ensures
        -1 <= obj_idx(objs, id) < objs.len(),
        obj_idx(objs, id) >= 0 ==> objs[obj_idx(objs, id)].id == id,
        obj_idx(objs, id) == -1 <==> forall|j: int| 0 <= j < objs.len() ==> (#[trigger] objs[j]).id
            != id,
{
    lemma_first_match(objs, has_object_id(id));
    if obj_idx(objs, id) == -1 {
        assert forall|j: int| 0 <= j < objs.len() implies (#[trigger] objs[j]).id != id by {
            assert(!has_object_id(id)(objs[j]));
        }
    } else {
        assert(has_object_id(id)(objs[obj_idx(objs, id)]));
    }
}

/// Replacing an object by one with the same id keeps every object's position.
pub proof fn lemma_obj_idx_update(objs: Seq<GameObject>, i: int, o: GameObject, id: ObjectId)
    requires
        0 <= i < objs.len(),
        o.id == objs[i].id,
    ensures
        obj_idx(objs.update(i, o), id) == obj_idx(objs, id),
{
    let s2 = objs.update(i, o);
    lemma_first_match(objs, has_object_id(id));
    lemma_first_match(s2, has_object_id(id));
    assert forall|j: int| 0 <= j < objs.len() implies has_object_id(id)(#[trigger] s2[j])
        == has_object_id(id)(objs[j]) by {}
    let r = obj_idx(objs, id);
    if r >= 0 {
        assert forall|j: int| 0 <= j < r implies !has_object_id(id)(#[trigger] s2[j]) by {
            assert(!has_object_id(id)(objs[j]));
        }
        lemma_first_match_at(s2, has_object_id(id), r);
    } else {
        let r2 = obj_idx(s2, id);
        if r2 >= 0 {
            assert(has_object_id(id)(s2[r2]));
            assert(!has_object_id(id)(objs[r2]));
        }
    }
}

/// Replacing a player by one with the same id keeps every player's position.
pub proof fn lemma_player_idx_update(ps: Seq<Player>, i: int, q: Player, id: PlayerId)
    requires
        0 <= i < ps.len(),
        q.id == ps[i].id,
    ensures
        player_idx(ps.update(i, q), id) == player_idx(ps, id),
{
    let s2 = ps.update(i, q);
    lemma_first_match(ps, has_player_id(id));
    lemma_first_match(s2, has_player_id(id));
    assert forall|j: int| 0 <= j < ps.len() implies has_player_id(id)(#[trigger] s2[j])
        == has_player_id(id)(ps[j]) by {}
    let r = player_idx(ps, id);
    if r >= 0 {
        assert forall|j: int| 0 <= j < r implies !has_player_id(id)(#[trigger] s2[j]) by {
            assert(!has_player_id(id)(ps[j]));
        }
        lemma_first_match_at(s2, has_player_id(id), r);
    } else {
        let r2 = player_idx(s2, id);
        if r2 >= 0 {
            assert(has_player_id(id)(s2[r2]));
            assert(!has_player_id(id)(ps[r2]));
        }
    }
}

/// Setting one player leaves every other player as it was, and the set player is
/// found as set.
pub proof fn lemma_set_player(s: StateModel, id: PlayerId, q: Player, other: PlayerId)
    requires
        s.has_player(id),
        q.id == id,
    ensures
        s.set_player(id, q).has_player(other) == s.has_player(other),
        s.set_player(id, q).player(id) == q,
        other != id && s.has_player(other) ==> s.set_player(id, q).player(other) == s.player(other),
{
    lemma_first_match(s.players, has_player_id(id));
    let i = player_idx(s.players, id);
    assert(has_player_id(id)(s.players[i]));
    lemma_player_idx_update(s.players, i, q, other);
    lemma_player_idx_update(s.players, i, q, id);
    lemma_first_match(s.players, has_player_id(other));
    if other != id && s.has_player(other) {
        assert(has_player_id(other)(s.players[player_idx(s.players, other)]));
    }
}

/// Replacing the object with this id by one with the same id changes that object
/// only.
pub proof fn lemma_set_obj(s: StateModel, id: ObjectId, o: GameObject, other: ObjectId)
    requires
        s.has_object(id),
        o.id == id,
    ensures
        s.set_obj(id, o).has_object(other) == s.has_object(other),
        s.set_obj(id, o).obj(id) == o,
        other != id && s.has_object(other) ==> s.set_obj(id, o).obj(other) == s.obj(other),
{
    lemma_obj_idx(s.objects, id);
    let i = obj_idx(s.objects, id);
    lemma_obj_idx_update(s.objects, i, o, other);
    lemma_obj_idx_update(s.objects, i, o, id);
    lemma_obj_idx(s.objects, other);
}

impl GameState {
    /// A two-player game at the start of turn 1: players 0 and 1 at 20 life, player 0
    /// active with priority, and nothing else.
    pub fn new_two_player(seed: u64) -> (r: GameState)
        ensures
            r@.players == seq![new_player(PlayerId(0)), new_player(PlayerId(1))],
            r@.objects == Seq::<GameObject>::empty(),
            r@.active_player == PlayerId(0),
            r@.priority_player == PlayerId(0),
            r@.turn_number == 1,
            r@.phase == Phase::PreCombatMain,
            r@.waiting_for == (WaitingForView::Priority { player: PlayerId(0) }),
            r@.turn_decision_controller is None,
            r@.combat is None,
            !r@.layers_dirty,
            r@.pending_etb_counters.len() == 0,
            r@.players_who_added_counter_this_turn.len() == 0,
            r@.pending_replacement is None,
            r@.pending_spell_resolution is None,
            r@.post_replacement_effect is None,
            r@.pending_continuation is None,
            r@.pending_trigger is None,
            r@.transient_effects.len() == 0,
            r@.delayed_triggers.len() == 0,
            r@.revealed_cards.len() == 0,
            r@.next_object_id == 1,
            r@.ids_well_formed(),
            r@.priority_passes == 0,
            r@.rng_seed == seed,
    {
        let mut players: Vec<Player> = Vec::new();
        players.push(make_player(PlayerId(0)));
        players.push(make_player(PlayerId(1)));
        let r = GameState {
            players,
            objects: Vec::new(),
            active_player: PlayerId(0),
            priority_player: PlayerId(0),
            turn_number: 1,
            phase: Phase::PreCombatMain,
            waiting_for: WaitingFor::Priority { player: PlayerId(0) },
            turn_decision_controller: None,
            combat: None,
            layers_dirty: false,
            pending_etb_counters: Vec::new(),
            players_who_added_counter_this_turn: Vec::new(),
            pending_replacement: None,
            pending_spell_resolution: None,
            post_replacement_effect: None,
            pending_continuation: None,
            pending_trigger: None,
            transient_effects: Vec::new(),
            delayed_triggers: Vec::new(),
            revealed_cards: Vec::new(),
            next_object_id: 1,
            priority_passes: 0,
            rng_seed: seed,
        };
        assert(r@.players =~= seq![new_player(PlayerId(0)), new_player(PlayerId(1))]);
        r
    }

    /// The object with this id, if any.
    pub fn object(&self, id: ObjectId) -> (r: Option<&GameObject>)
        ensures
            match r {
                Some(o) => self@.has_object(id) && *o == self@.obj(id),
                None => !self@.has_object(id),
            },
    {
        match find_object(&self.objects, id) {
            Some(i) => Some(&self.objects[i]),
            None => None,
        }
    }

    /// The player with this id, if any.
    pub fn player(&self, id: PlayerId) -> (r: Option<&Player>)
        ensures
            match r {
                Some(p) => self@.has_player(id) && *p == self@.player(id),
                None => !self@.has_player(id),
            },
    {
        match find_player(&self.players, id) {
            Some(i) => Some(&self.players[i]),
            None => None,
        }
    }
}

pub open spec fn new_player(id: PlayerId) -> Player {
    Player {
        id,
        life: 20,
        speed: None,
        mana_pool: ManaPool {
            white: 0,
            blue: 0,
            black: 0,
            red: 0,
            green: 0,
            colorless: 0,
        },
        cards_drawn_this_turn: 0,
        discards_this_turn: 0,
    }
}

fn make_player(id: PlayerId) -> (r: Player)
    ensures
        r == new_player(id),
{
    Player {
        id,
        life: 20,
        speed: None,
        mana_pool: ManaPool { white: 0, blue: 0, black: 0, red: 0, green: 0, colorless: 0 },
        cards_drawn_this_turn: 0,
        discards_this_turn: 0,
    }
}

/// A fresh object: untapped, without counters, damage, types or characteristics.
pub open spec fn fresh_object(
    id: ObjectId,
    card_id: CardId,
    owner: PlayerId,
    name: String,
    zone: Zone,
    turn: u32,
    defs: Vec<ReplacementDefinition>,
) -> GameObject {
    GameObject {
        id,
        card_id,
        owner,
        controller: owner,
        name,
        zone,
        card_types: CardTypes {
            creature: false,
            artifact: false,
            enchantment: false,
            instant: false,
            sorcery: false,
            planeswalker: false,
            land: false,
            battle: false,
            aura: false,
        },
        power: None,
        toughness: None,
        base_power: None,
        base_toughness: None,
        loyalty: None,
        defense: None,
        damage_marked: 0,
        tapped: false,
        counters: Counters {
            plus1plus1: 0,
            minus1minus1: 0,
            loyalty: 0,
            defense: 0,
            charge: 0,
            stun: 0,
            shield: 0,
            lore: 0,
            time: 0,
            oil: 0,
        },
        entered_battlefield_turn: if zone == Zone::Battlefield {
            Some(turn)
        } else {
            None
        },
        keywords: Keywords { vigilance: false, haste: false, defender: false, lifelink: false, warp: false },
        colors: Colors { white: false, blue: false, black: false, red: false, green: false },
        transformed: false,
        has_back_face: false,
        protector: None,
        cast_from_zone: None,
        attached_to: None,
        mana_value: 0,
        is_token: false,
        face_down: false,
        replacement_definitions: defs,
    }
}

/// Create an object owned and controlled by `owner` in `zone`, with the next free id.
pub fn create_object(state: &mut GameState, card_id: CardId, owner: PlayerId, name: String, zone: Zone) -> (r:
    ObjectId)
    requires
        old(state).next_object_id < u64::MAX,
    ensures
        r == ObjectId(old(state).next_object_id),
        final(state)@.objects.len() == old(state)@.objects.len() + 1,
        final(state)@.objects.drop_last() == old(state)@.objects,
        final(state)@.objects.last().replacement_definitions@.len() == 0,
        final(state)@.objects.last() == fresh_object(
            r,
            card_id,
            owner,
            name,
            zone,
            old(state).turn_number,
            final(state)@.objects.last().replacement_definitions,
        ),
        final(state)@ == (StateModel {
            objects: final(state)@.objects,
            next_object_id: (old(state).next_object_id + 1) as u64,
            ..old(state)@
        }),
        old(state)@.ids_well_formed() ==> final(state)@.ids_well_formed(),
{
    let id = ObjectId(state.next_object_id);
    let ebt = if zone == Zone::Battlefield {
        Some(state.turn_number)
    } else {
        None
    };
    let o = GameObject {
        id,
        card_id,
        owner,
        controller: owner,
        name,
        zone,
        card_types: CardTypes {
            creature: false,
            artifact: false,
            enchantment: false,
            instant: false,
            sorcery: false,
            planeswalker: false,
            land: false,
            battle: false,
            aura: false,
        },
        power: None,
        toughness: None,
        base_power: None,
        base_toughness: None,
        loyalty: None,
        defense: None,
        damage_marked: 0,
        tapped: false,
        counters: Counters {
            plus1plus1: 0,
            minus1minus1: 0,
            loyalty: 0,
            defense: 0,
            charge: 0,
            stun: 0,
            shield: 0,
            lore: 0,
            time: 0,
            oil: 0,
        },
        entered_battlefield_turn: ebt,
        keywords: Keywords { vigilance: false, haste: false, defender: false, lifelink: false, warp: false },
        colors: Colors { white: false, blue: false, black: false, red: false, green: false },
        transformed: false,
        has_back_face: false,
        protector: None,
        cast_from_zone: None,
        attached_to: None,
        mana_value: 0,
        is_token: false,
        face_down: false,
        replacement_definitions: Vec::new(),
    };
    state.objects.push(o);
    state.next_object_id = state.next_object_id + 1;
    assert(state@.objects.drop_last() =~= old(state)@.objects);
    proof {
        if old(state)@.ids_well_formed() {
            let n = old(state)@.objects.len() as int;
            assert forall|a: int, b: int| 0 <= a < b < state@.objects.len() implies (
            #[trigger] state@.objects[a]).id != (#[trigger] state@.objects[b]).id by {
                if b == n {
                    assert(old(state)@.objects[a].id.0 < old(state)@.next_object_id);
                } else {
                    assert(state@.objects[a] == old(state)@.objects[a]);
                    assert(state@.objects[b] == old(state)@.objects[b]);
                }
            }
            assert forall|a: int| 0 <= a < state@.objects.len() implies (
            #[trigger] state@.objects[a]).id.0 < state@.next_object_id by {
                if a < n {
                    assert(state@.objects[a] == old(state)@.objects[a]);
                }
            }
        }
    }
    id
}

} // verus!
