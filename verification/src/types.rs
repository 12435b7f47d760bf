use vstd::prelude::*;

use crate::ability::{Duration, ReplacementDefinition, TargetRef};

verus! {

#[derive(Clone, Copy, Debug, PartialEq, Eq, Hash, Structural)]
pub struct PlayerId(pub u8);

#[derive(Clone, Copy, Debug, PartialEq, Eq, Hash, Structural)]
pub struct ObjectId(pub u64);

#[derive(Clone, Copy, Debug, PartialEq, Eq, Hash, Structural)]
pub struct CardId(pub u64);

#[derive(Clone, Copy, Debug, PartialEq, Eq, Structural)]
pub enum Zone {
    Library,
    Hand,
    Battlefield,
    Graveyard,
    Stack,
    Exile,
    Command,
}

/// Steps and phases of a turn, in order.
#[derive(Clone, Copy, Debug, PartialEq, Eq, Structural)]
pub enum Phase {
    Untap,
    Upkeep,
    Draw,
    PreCombatMain,
    BeginCombat,
    DeclareAttackers,
    DeclareBlockers,
    CombatDamage,
    EndCombat,
    PostCombatMain,
    End,
    Cleanup,
}

/// The step that follows `p`; cleanup wraps around to untap.
pub open spec fn spec_next_phase(p: Phase) -> Phase {
    match p {
        Phase::Untap => Phase::Upkeep,
        Phase::Upkeep => Phase::Draw,
        Phase::Draw => Phase::PreCombatMain,
        Phase::PreCombatMain => Phase::BeginCombat,
        Phase::BeginCombat => Phase::DeclareAttackers,
        Phase::DeclareAttackers => Phase::DeclareBlockers,
        Phase::DeclareBlockers => Phase::CombatDamage,
        Phase::CombatDamage => Phase::EndCombat,
        Phase::EndCombat => Phase::PostCombatMain,
        Phase::PostCombatMain => Phase::End,
        Phase::End => Phase::Cleanup,
        Phase::Cleanup => Phase::Untap,
    }
}

pub fn next_phase(p: Phase) -> (r: Phase)
    ensures
        r == spec_next_phase(p),
{
    match p {
        Phase::Untap => Phase::Upkeep,
        Phase::Upkeep => Phase::Draw,
        Phase::Draw => Phase::PreCombatMain,
        Phase::PreCombatMain => Phase::BeginCombat,
        Phase::BeginCombat => Phase::DeclareAttackers,
        Phase::DeclareAttackers => Phase::DeclareBlockers,
        Phase::DeclareBlockers => Phase::CombatDamage,
        Phase::CombatDamage => Phase::EndCombat,
        Phase::EndCombat => Phase::PostCombatMain,
        Phase::PostCombatMain => Phase::End,
        Phase::End => Phase::Cleanup,
        Phase::Cleanup => Phase::Untap,
    }
}

#[derive(Clone, Copy, Debug, PartialEq, Eq, Hash, Structural)]
pub enum CounterType {
    Plus1Plus1,
    Minus1Minus1,
    Loyalty,
    Defense,
    Charge,
    Stun,
    Shield,
    Lore,
    Time,
    Oil,
}

/// The counters on an object, one count per counter type.
#[derive(Clone, Copy, Debug, PartialEq, Eq, Default, Structural)]
pub struct Counters {
    pub plus1plus1: u32,
    pub minus1minus1: u32,
    pub loyalty: u32,
    pub defense: u32,
    pub charge: u32,
    pub stun: u32,
    pub shield: u32,
    pub lore: u32,
    pub time: u32,
    pub oil: u32,
}

impl Counters {
    pub open spec fn count(self, ct: CounterType) -> u32 {
        match ct {
            CounterType::Plus1Plus1 => self.plus1plus1,
            CounterType::Minus1Minus1 => self.minus1minus1,
            CounterType::Loyalty => self.loyalty,
            CounterType::Defense => self.defense,
            CounterType::Charge => self.charge,
            CounterType::Stun => self.stun,
            CounterType::Shield => self.shield,
            CounterType::Lore => self.lore,
            CounterType::Time => self.time,
            CounterType::Oil => self.oil,
        }
    }

    pub open spec fn with_count(self, ct: CounterType, n: u32) -> Counters {
        match ct {
            CounterType::Plus1Plus1 => Counters { plus1plus1: n, ..self },
            CounterType::Minus1Minus1 => Counters { minus1minus1: n, ..self },
            CounterType::Loyalty => Counters { loyalty: n, ..self },
            CounterType::Defense => Counters { defense: n, ..self },
            CounterType::Charge => Counters { charge: n, ..self },
            CounterType::Stun => Counters { stun: n, ..self },
            CounterType::Shield => Counters { shield: n, ..self },
            CounterType::Lore => Counters { lore: n, ..self },
            CounterType::Time => Counters { time: n, ..self },
            CounterType::Oil => Counters { oil: n, ..self },
        }
    }

    /// The counters after adding `n` of type `ct` (the count stops at `u32::MAX`).
    pub open spec fn added(self, ct: CounterType, n: u32) -> Counters {
        self.with_count(ct, sat_add(self.count(ct), n))
    }

    /// The counters after removing up to `n` of type `ct`.
    pub open spec fn removed(self, ct: CounterType, n: u32) -> Counters {
        self.with_count(ct, sat_sub(self.count(ct), n))
    }

    pub fn get(&self, ct: CounterType) -> (r: u32)
        ensures
            r == self.count(ct),
    {
        match ct {
            CounterType::Plus1Plus1 => self.plus1plus1,
            CounterType::Minus1Minus1 => self.minus1minus1,
            CounterType::Loyalty => self.loyalty,
            CounterType::Defense => self.defense,
            CounterType::Charge => self.charge,
            CounterType::Stun => self.stun,
            CounterType::Shield => self.shield,
            CounterType::Lore => self.lore,
            CounterType::Time => self.time,
            CounterType::Oil => self.oil,
        }
    }

    pub fn set(&mut self, ct: CounterType, n: u32)
        ensures
            *final(self) == old(self).with_count(ct, n),
    {
        match ct {
            CounterType::Plus1Plus1 => self.plus1plus1 = n,
            CounterType::Minus1Minus1 => self.minus1minus1 = n,
            CounterType::Loyalty => self.loyalty = n,
            CounterType::Defense => self.defense = n,
            CounterType::Charge => self.charge = n,
            CounterType::Stun => self.stun = n,
            CounterType::Shield => self.shield = n,
            CounterType::Lore => self.lore = n,
            CounterType::Time => self.time = n,
            CounterType::Oil => self.oil = n,
        }
    }

    pub fn add(&mut self, ct: CounterType, n: u32)
        ensures
            *final(self) == old(self).added(ct, n),
    {
        let c = self.get(ct);
        self.set(ct, c.saturating_add(n));
    }

    pub fn remove(&mut self, ct: CounterType, n: u32)
        ensures
            *final(self) == old(self).removed(ct, n),
    {
        let c = self.get(ct);
        self.set(ct, c.saturating_sub(n));
    }
}

pub open spec fn sat_add(a: u32, b: u32) -> u32 {
    if a + b > u32::MAX {
        u32::MAX
    } else {
        (a + b) as u32
    }
}

pub open spec fn sat_sub(a: u32, b: u32) -> u32 {
    if a < b {
        0
    } else {
        (a - b) as u32
    }
}

/// `v` limited to the range of `i32`.
pub open spec fn clamp_i32(v: int) -> i32 {
    if v < i32::MIN {
        i32::MIN
    } else if v > i32::MAX {
        i32::MAX
    } else {
        v as i32
    }
}

pub fn clamp_to_i32(v: i64) -> (r: i32)
    ensures
        r == clamp_i32(v as int),
{
    if v < i32::MIN as i64 {
        i32::MIN
    } else if v > i32::MAX as i64 {
        i32::MAX
    } else {
        v as i32
    }
}

/// The card types of an object (and the Aura subtype, which attachment needs).
#[derive(Clone, Copy, Debug, PartialEq, Eq, Default, Structural)]
pub struct CardTypes {
    pub creature: bool,
    pub artifact: bool,
    pub enchantment: bool,
    pub instant: bool,
    pub sorcery: bool,
    pub planeswalker: bool,
    pub land: bool,
    pub battle: bool,
    pub aura: bool,
}

/// The keyword abilities the engine consults.
#[derive(Clone, Copy, Debug, PartialEq, Eq, Default, Structural)]
pub struct Keywords {
    pub vigilance: bool,
    pub haste: bool,
    pub defender: bool,
    pub lifelink: bool,
    pub warp: bool,
}

/// The five colors.
#[derive(Clone, Copy, Debug, PartialEq, Eq, Structural)]
pub enum ManaColor {
    White,
    Blue,
    Black,
    Red,
    Green,
}

#[derive(Clone, Copy, Debug, PartialEq, Eq, Structural)]
pub enum ManaType {
    White,
    Blue,
    Black,
    Red,
    Green,
    Colorless,
}

/// The colors an object has (CR 105.2).
#[derive(Clone, Copy, Debug, PartialEq, Eq, Structural)]
pub struct Colors {
    pub white: bool,
    pub blue: bool,
    pub black: bool,
    pub red: bool,
    pub green: bool,
}

impl Colors {
    pub open spec fn spec_has(self, c: ManaColor) -> bool {
        match c {
            ManaColor::White => self.white,
            ManaColor::Blue => self.blue,
            ManaColor::Black => self.black,
            ManaColor::Red => self.red,
            ManaColor::Green => self.green,
        }
    }

    pub fn has(&self, c: ManaColor) -> (r: bool)
        ensures
            r == self.spec_has(c),
    {
        match c {
            ManaColor::White => self.white,
            ManaColor::Blue => self.blue,
            ManaColor::Black => self.black,
            ManaColor::Red => self.red,
            ManaColor::Green => self.green,
        }
    }
}

/// Unspent mana, counted per type.
#[derive(Clone, Copy, Debug, PartialEq, Eq, Default, Structural)]
pub struct ManaPool {
    pub white: u32,
    pub blue: u32,
    pub black: u32,
    pub red: u32,
    pub green: u32,
    pub colorless: u32,
}

impl ManaPool {
    /// The pool with one more mana of type `t` (a count stops at `u32::MAX`).
    pub open spec fn plus_one(self, t: ManaType) -> ManaPool {
        match t {
            ManaType::White => ManaPool { white: sat_add(self.white, 1), ..self },
            ManaType::Blue => ManaPool { blue: sat_add(self.blue, 1), ..self },
            ManaType::Black => ManaPool { black: sat_add(self.black, 1), ..self },
            ManaType::Red => ManaPool { red: sat_add(self.red, 1), ..self },
            ManaType::Green => ManaPool { green: sat_add(self.green, 1), ..self },
            ManaType::Colorless => ManaPool { colorless: sat_add(self.colorless, 1), ..self },
        }
    }

    pub fn add(&mut self, t: ManaType)
        ensures
            *final(self) == old(self).plus_one(t),
    {
        match t {
            ManaType::White => self.white = self.white.saturating_add(1),
            ManaType::Blue => self.blue = self.blue.saturating_add(1),
            ManaType::Black => self.black = self.black.saturating_add(1),
            ManaType::Red => self.red = self.red.saturating_add(1),
            ManaType::Green => self.green = self.green.saturating_add(1),
            ManaType::Colorless => self.colorless = self.colorless.saturating_add(1),
        }
    }
}

#[derive(Clone, Copy, Debug, PartialEq, Eq, Structural)]
pub struct Player {
    pub id: PlayerId,
    pub life: i32,
    /// CR 702.179: a player's speed, absent until their engines start.
    pub speed: Option<u8>,
    pub mana_pool: ManaPool,
    pub cards_drawn_this_turn: u32,
    pub discards_this_turn: u32,
}

/// A card or token in some zone.
#[derive(Debug)]
pub struct GameObject {
    pub id: ObjectId,
    pub card_id: CardId,
    pub owner: PlayerId,
    pub controller: PlayerId,
    pub name: String,
    pub zone: Zone,
    pub card_types: CardTypes,
    pub power: Option<i32>,
    pub toughness: Option<i32>,
    pub base_power: Option<i32>,
    pub base_toughness: Option<i32>,
    pub loyalty: Option<u32>,
    pub defense: Option<u32>,
    pub damage_marked: u32,
    pub tapped: bool,
    pub counters: Counters,
    pub entered_battlefield_turn: Option<u32>,
    pub keywords: Keywords,
    pub colors: Colors,
    pub transformed: bool,
    pub has_back_face: bool,
    /// CR 310.8e: the player chosen to protect a battle.
    pub protector: Option<PlayerId>,
    pub cast_from_zone: Option<Zone>,
    pub attached_to: Option<ObjectId>,
    pub mana_value: u32,
    pub is_token: bool,
    pub face_down: bool,
    pub replacement_definitions: Vec<ReplacementDefinition>,
}

impl GameObject {
    /// CR 310.8e: a battle's protector; other objects have none.
    pub open spec fn spec_protector(&self) -> Option<PlayerId> {
        if self.card_types.battle {
            self.protector
        } else {
            None
        }
    }

    pub fn protector(&self) -> (r: Option<PlayerId>)
        ensures
            r == self.spec_protector(),
    {
        if self.card_types.battle {
            self.protector
        } else {
            None
        }
    }
}

#[derive(Clone, Copy, Debug, PartialEq, Eq, Structural)]
pub enum TrampleKind {
    Standard,
    OverPlaneswalkers,
}

/// What an attacking creature attacks.
#[derive(Clone, Copy, Debug, PartialEq, Eq, Structural)]
pub enum AttackTarget {
    Player(PlayerId),
    Planeswalker(ObjectId),
    Battle(ObjectId),
}

/// What combat damage is dealt to.
#[derive(Clone, Copy, Debug, PartialEq, Eq, Structural)]
pub enum DamageTarget {
    Player(PlayerId),
    Object(ObjectId),
}

#[derive(Clone, Copy, Debug, PartialEq, Eq, Structural)]
pub struct DamageAssignment {
    pub target: DamageTarget,
    pub amount: u32,
}

/// A blocker of the attacker being assigned, with the least damage that is lethal
/// to it.
#[derive(Clone, Copy, Debug, PartialEq, Eq, Structural)]
pub struct DamageSlot {
    pub blocker_id: ObjectId,
    pub lethal_minimum: u32,
}

#[derive(Clone, Copy, Debug, PartialEq, Eq, Structural)]
pub enum CombatDamageAssignmentMode {
    Normal,
    /// CR 510.1c: assign all damage as though the creature weren't blocked.
    AsThoughUnblocked,
}

#[derive(Clone, Copy, Debug, PartialEq, Eq, Structural)]
pub struct AttackerInfo {
    pub object_id: ObjectId,
    pub attack_target: AttackTarget,
    pub defending_player: PlayerId,
    pub blocked: bool,
}

impl AttackerInfo {
    pub fn new(object_id: ObjectId, attack_target: AttackTarget, defending_player: PlayerId) -> (r:
        AttackerInfo)
        ensures
            r == (AttackerInfo { object_id, attack_target, defending_player, blocked: false }),
    {
        AttackerInfo { object_id, attack_target, defending_player, blocked: false }
    }

    pub fn attacking_player(object_id: ObjectId, player: PlayerId) -> (r: AttackerInfo)
        ensures
            r == (AttackerInfo {
                object_id,
                attack_target: AttackTarget::Player(player),
                defending_player: player,
                blocked: false,
            }),
    {
        AttackerInfo {
            object_id,
            attack_target: AttackTarget::Player(player),
            defending_player: player,
            blocked: false,
        }
    }
}

/// The state of the current combat.
#[derive(Debug)]
pub struct CombatState {
    pub attackers: Vec<AttackerInfo>,
    /// Declared blocks, as (blocker, attacker) pairs.
    pub blocks: Vec<(ObjectId, ObjectId)>,
    /// Damage assigned and not yet dealt, as (source, assignment) pairs.
    pub pending_damage: Vec<(ObjectId, DamageAssignment)>,
    pub damage_step_index: Option<u32>,
}

pub struct CombatModel {
    pub attackers: Seq<AttackerInfo>,
    pub blocks: Seq<(ObjectId, ObjectId)>,
    pub pending_damage: Seq<(ObjectId, DamageAssignment)>,
    pub damage_step_index: Option<u32>,
}

impl View for CombatState {
    type V = CombatModel;

    open spec fn view(&self) -> CombatModel {
        CombatModel {
            attackers: self.attackers@,
            blocks: self.blocks@,
            pending_damage: self.pending_damage@,
            damage_step_index: self.damage_step_index,
        }
    }
}

impl CombatState {
    pub fn new() -> (r: CombatState)
        ensures
            r@ == (CombatModel {
                attackers: Seq::empty(),
                blocks: Seq::empty(),
                pending_damage: Seq::empty(),
                damage_step_index: None,
            }),
    {
        CombatState {
            attackers: Vec::new(),
            blocks: Vec::new(),
            pending_damage: Vec::new(),
            damage_step_index: None,
        }
    }
}

/// An effect that ends after some duration.
#[derive(Clone, Copy, Debug, PartialEq, Eq, Structural)]
pub struct TransientEffect {
    pub source_id: ObjectId,
    pub duration: Duration,
}

/// CR 702.185a: a delayed trigger that exiles a warped permanent at end of turn.
#[derive(Clone, Copy, Debug, PartialEq, Eq, Structural)]
pub struct DelayedTrigger {
    pub object_id: ObjectId,
    pub controller: PlayerId,
}

/// A triggered ability waiting for its controller to choose targets.
#[derive(Clone, Copy, Debug, PartialEq, Eq, Structural)]
pub struct PendingTrigger {
    pub source_id: ObjectId,
    pub controller: PlayerId,
}

#[derive(Clone, Copy, Debug, PartialEq, Eq, Structural)]
pub enum CastingVariant {
    Normal,
    Warp,
}

/// Work left over from a permanent spell whose entering paused on a replacement
/// choice.
#[derive(Debug)]
pub struct PendingSpellResolution {
    pub object_id: ObjectId,
    pub controller: PlayerId,
    pub cast_from_zone: Option<Zone>,
    pub spell_targets: Vec<TargetRef>,
    pub casting_variant: CastingVariant,
    pub actual_mana_spent: u32,
}

/// What the engine waits for next.
#[derive(Debug, PartialEq, Eq)]
pub enum WaitingFor {
    Priority { player: PlayerId },
    DeclareAttackers { player: PlayerId },
    DeclareBlockers { player: PlayerId },
    ReplacementChoice { player: PlayerId, candidate_count: usize },
    CopyTargetChoice {
        player: PlayerId,
        source_id: ObjectId,
        valid_targets: Vec<ObjectId>,
        max_mana_value: Option<u32>,
    },
    TriggerTargetSelection { player: PlayerId, source_id: ObjectId },
    GameOver { winner: Option<PlayerId> },
}

pub enum WaitingForView {
    Priority { player: PlayerId },
    DeclareAttackers { player: PlayerId },
    DeclareBlockers { player: PlayerId },
    ReplacementChoice { player: PlayerId, candidate_count: usize },
    CopyTargetChoice {
        player: PlayerId,
        source_id: ObjectId,
        valid_targets: Seq<ObjectId>,
        max_mana_value: Option<u32>,
    },
    TriggerTargetSelection { player: PlayerId, source_id: ObjectId },
    GameOver { winner: Option<PlayerId> },
}

impl View for WaitingFor {
    type V = WaitingForView;

    open spec fn view(&self) -> WaitingForView {
        match self {
            WaitingFor::Priority { player } => WaitingForView::Priority { player: *player },
            WaitingFor::DeclareAttackers { player } => WaitingForView::DeclareAttackers {
                player: *player,
            },
            WaitingFor::DeclareBlockers { player } => WaitingForView::DeclareBlockers {
                player: *player,
            },
            WaitingFor::ReplacementChoice { player, candidate_count } =>
                WaitingForView::ReplacementChoice {
                    player: *player,
                    candidate_count: *candidate_count,
                },
            WaitingFor::CopyTargetChoice { player, source_id, valid_targets, max_mana_value } =>
                WaitingForView::CopyTargetChoice {
                player: *player,
                source_id: *source_id,
                valid_targets: valid_targets@,
                max_mana_value: *max_mana_value,
            },
            WaitingFor::TriggerTargetSelection { player, source_id } =>
                WaitingForView::TriggerTargetSelection { player: *player, source_id: *source_id },
            WaitingFor::GameOver { winner } => WaitingForView::GameOver { winner: *winner },
        }
    }
}

impl WaitingForView {
    /// The player who must act, if any.
    pub open spec fn acting_player(self) -> Option<PlayerId> {
        match self {
            WaitingForView::Priority { player } => Some(player),
            WaitingForView::DeclareAttackers { player } => Some(player),
            WaitingForView::DeclareBlockers { player } => Some(player),
            WaitingForView::ReplacementChoice { player, .. } => Some(player),
            WaitingForView::CopyTargetChoice { player, .. } => Some(player),
            WaitingForView::TriggerTargetSelection { player, .. } => Some(player),
            WaitingForView::GameOver { .. } => None,
        }
    }
}

impl WaitingFor {
    pub fn acting_player(&self) -> (r: Option<PlayerId>)
        ensures
            r == self@.acting_player(),
    {
        match self {
            WaitingFor::Priority { player } => Some(*player),
            WaitingFor::DeclareAttackers { player } => Some(*player),
            WaitingFor::DeclareBlockers { player } => Some(*player),
            WaitingFor::ReplacementChoice { player, .. } => Some(*player),
            WaitingFor::CopyTargetChoice { player, .. } => Some(*player),
            WaitingFor::TriggerTargetSelection { player, .. } => Some(*player),
            WaitingFor::GameOver { .. } => None,
        }
    }

    pub fn is_priority(&self) -> (r: bool)
        ensures
            r == (self@ is Priority),
    {
        match self {
            WaitingFor::Priority { .. } => true,
            _ => false,
        }
    }

    /// A copy with the same view.
    pub fn duplicate(&self) -> (r: WaitingFor)
        ensures
            r@ == self@,
    {
        match self {
            WaitingFor::Priority { player } => WaitingFor::Priority { player: *player },
            WaitingFor::DeclareAttackers { player } => WaitingFor::DeclareAttackers {
                player: *player,
            },
            WaitingFor::DeclareBlockers { player } => WaitingFor::DeclareBlockers {
                player: *player,
            },
            WaitingFor::ReplacementChoice { player, candidate_count } =>
                WaitingFor::ReplacementChoice {
                    player: *player,
                    candidate_count: *candidate_count,
                },
            WaitingFor::CopyTargetChoice { player, source_id, valid_targets, max_mana_value } => {
                let v = valid_targets.clone();
                assert(v@ =~= valid_targets@);
                WaitingFor::CopyTargetChoice {
                    player: *player,
                    source_id: *source_id,
                    valid_targets: v,
                    max_mana_value: *max_mana_value,
                }
            },
            WaitingFor::TriggerTargetSelection { player, source_id } =>
                WaitingFor::TriggerTargetSelection { player: *player, source_id: *source_id },
            WaitingFor::GameOver { winner } => WaitingFor::GameOver { winner: *winner },
        }
    }
}

#[derive(Clone, Copy, Debug, PartialEq, Eq, Structural)]
pub enum EffectKind {
    Reveal,
    StartYourEngines,
    IncreaseSpeed,
    BecomeCopy,
    GainLife,
    LoseLife,
    Tap,
    Unimplemented,
}

/// What happened, in order, for observers of the game.
#[derive(Debug, PartialEq, Eq)]
pub enum GameEvent {
    CardsRevealed { player: PlayerId, card_ids: Vec<ObjectId>, card_names: Vec<String> },
    EffectResolved { kind: EffectKind, source_id: ObjectId },
    SpeedChanged { player: PlayerId, old_speed: Option<u8>, new_speed: u8 },
    PhaseChanged { phase: Phase },
    AttackerDeclared { object_id: ObjectId, target: AttackTarget },
    BlockerDeclared { blocker_id: ObjectId, attacker_id: ObjectId },
    DamageDealt { source_id: ObjectId, target: DamageTarget, amount: u32 },
    LifeChanged { player_id: PlayerId, old_life: i32, new_life: i32 },
    CounterAdded { object_id: ObjectId, counter_type: CounterType, count: u32 },
    CounterRemoved { object_id: ObjectId, counter_type: CounterType, count: u32 },
    PermanentTapped { object_id: ObjectId },
    PermanentUntapped { object_id: ObjectId },
    ZoneChanged { object_id: ObjectId, from: Zone, to: Zone },
    CardDrawn { player_id: PlayerId, object_id: ObjectId },
    Discarded { player_id: PlayerId, object_id: ObjectId },
    ManaAdded { player_id: PlayerId, mana_type: ManaType, source_id: ObjectId },
    Transformed { object_id: ObjectId },
    BecameCopy { object_id: ObjectId, copied_from: ObjectId },
}

pub enum GameEventView {
    CardsRevealed { player: PlayerId, card_ids: Seq<ObjectId>, card_names: Seq<String> },
    EffectResolved { kind: EffectKind, source_id: ObjectId },
    SpeedChanged { player: PlayerId, old_speed: Option<u8>, new_speed: u8 },
    PhaseChanged { phase: Phase },
    AttackerDeclared { object_id: ObjectId, target: AttackTarget },
    BlockerDeclared { blocker_id: ObjectId, attacker_id: ObjectId },
    DamageDealt { source_id: ObjectId, target: DamageTarget, amount: u32 },
    LifeChanged { player_id: PlayerId, old_life: i32, new_life: i32 },
    CounterAdded { object_id: ObjectId, counter_type: CounterType, count: u32 },
    CounterRemoved { object_id: ObjectId, counter_type: CounterType, count: u32 },
    PermanentTapped { object_id: ObjectId },
    PermanentUntapped { object_id: ObjectId },
    ZoneChanged { object_id: ObjectId, from: Zone, to: Zone },
    CardDrawn { player_id: PlayerId, object_id: ObjectId },
    Discarded { player_id: PlayerId, object_id: ObjectId },
    ManaAdded { player_id: PlayerId, mana_type: ManaType, source_id: ObjectId },
    Transformed { object_id: ObjectId },
    BecameCopy { object_id: ObjectId, copied_from: ObjectId },
}

impl View for GameEvent {
    type V = GameEventView;

    open spec fn view(&self) -> GameEventView {
        match *self {
            GameEvent::CardsRevealed { player, card_ids, card_names } => GameEventView::CardsRevealed {
                player,
                card_ids: card_ids@,
                card_names: card_names@,
            },
            GameEvent::EffectResolved { kind, source_id } => GameEventView::EffectResolved {
                kind,
                source_id,
            },
            GameEvent::SpeedChanged { player, old_speed, new_speed } => GameEventView::SpeedChanged {
                player,
                old_speed,
                new_speed,
            },
            GameEvent::PhaseChanged { phase } => GameEventView::PhaseChanged { phase },
            GameEvent::AttackerDeclared { object_id, target } => GameEventView::AttackerDeclared {
                object_id,
                target,
            },
            GameEvent::BlockerDeclared { blocker_id, attacker_id } =>
                GameEventView::BlockerDeclared { blocker_id, attacker_id },
            GameEvent::DamageDealt { source_id, target, amount } => GameEventView::DamageDealt {
                source_id,
                target,
                amount,
            },
            GameEvent::LifeChanged { player_id, old_life, new_life } => GameEventView::LifeChanged {
                player_id,
                old_life,
                new_life,
            },
            GameEvent::CounterAdded { object_id, counter_type, count } =>
                GameEventView::CounterAdded { object_id, counter_type, count },
            GameEvent::CounterRemoved { object_id, counter_type, count } =>
                GameEventView::CounterRemoved { object_id, counter_type, count },
            GameEvent::PermanentTapped { object_id } => GameEventView::PermanentTapped { object_id },
            GameEvent::PermanentUntapped { object_id } => GameEventView::PermanentUntapped {
                object_id,
            },
            GameEvent::ZoneChanged { object_id, from, to } => GameEventView::ZoneChanged {
                object_id,
                from,
                to,
            },
            GameEvent::CardDrawn { player_id, object_id } => GameEventView::CardDrawn {
                player_id,
                object_id,
            },
            GameEvent::Discarded { player_id, object_id } => GameEventView::Discarded {
                player_id,
                object_id,
            },
            GameEvent::ManaAdded { player_id, mana_type, source_id } => GameEventView::ManaAdded {
                player_id,
                mana_type,
                source_id,
            },
            GameEvent::Transformed { object_id } => GameEventView::Transformed { object_id },
            GameEvent::BecameCopy { object_id, copied_from } => GameEventView::BecameCopy {
                object_id,
                copied_from,
            },
        }
    }
}

/// The views of a list of events.
pub open spec fn evs(s: Seq<GameEvent>) -> Seq<GameEventView> {
    s.map_values(|e: GameEvent| e@)
}

pub proof fn lemma_evs_push(s: Seq<GameEvent>, e: GameEvent)
    ensures
        evs(s.push(e)) == evs(s).push(e@),
{
    assert(evs(s.push(e)) =~= evs(s).push(e@));
}

/// Why an action was refused.
#[derive(Clone, Copy, Debug, PartialEq, Eq, Structural)]
pub enum ActionError {
    /// The chosen damage-assignment mode is not offered for this attacker.
    ModeNotAllowed { mode: CombatDamageAssignmentMode, attacker_id: ObjectId },
    /// An as-though-unblocked assignment came with blocker or trample splits.
    SplitsWithUnblockedMode,
    /// The attacker is not part of the current combat.
    AttackerNotInCombat { attacker_id: ObjectId },
    /// The assigned damage does not add up to what must be assigned.
    TotalMismatch { assigned: u32, expected: u32 },
    /// Damage was assigned to an object that does not block the attacker.
    NotABlocker { blocker_id: ObjectId, attacker_id: ObjectId },
    /// Excess damage was assigned without trample.
    TrampleRequired,
    /// Damage to a planeswalker's controller without trample over planeswalkers
    /// while attacking a planeswalker.
    ControllerDamageNotAllowed,
    /// Too little damage to the planeswalker before damage to its controller.
    PlaneswalkerNotLethal { loyalty_threshold: u32, controller_damage: u32 },
    /// A blocker received less than lethal damage before excess went past it.
    BlockerNotLethal { blocker_id: ObjectId, lethal_minimum: u32 },
    /// The object cannot attack (as declared).
    IllegalAttacker { object_id: ObjectId },
    /// The object cannot be attacked by this creature.
    IllegalAttackTarget { object_id: ObjectId },
    /// The object cannot block (as declared).
    IllegalBlocker { object_id: ObjectId },
    /// There is no combat in progress.
    NoCombat,
    /// The engine is not waiting for a copy target.
    NotWaitingForCopyTarget,
    /// The chosen copy target is not among the valid ones.
    InvalidCopyTarget,
    /// There is no replacement choice pending, or the chosen option does not exist.
    InvalidReplacementChoice { index: usize },
}

#[derive(Clone, Copy, Debug, PartialEq, Eq, Structural)]
pub enum EngineError {
    WrongPlayer,
    InvalidAction(ActionError),
}

#[derive(Clone, Copy, Debug, PartialEq, Eq, Structural)]
pub enum EffectError {
    /// The resolver was handed an effect of another kind; it expected this kind.
    InvalidParam { expected: EffectKind },
}

} // verus!
