use vstd::prelude::*;

use crate::types::{EffectKind, ManaColor, ObjectId, PlayerId};

verus! {

/// A reference to a chosen target: an object or a player.
#[derive(Clone, Copy, Debug, PartialEq, Eq, Structural)]
pub enum TargetRef {
    Object(ObjectId),
    Player(PlayerId),
}

/// Whose objects a filter admits, relative to the filter's controller.
#[derive(Clone, Copy, Debug, PartialEq, Eq, Structural)]
pub enum ControllerRef {
    You,
    Opponent,
}

/// Object properties a filter can require.
#[derive(Clone, Copy, Debug, PartialEq, Eq, Structural)]
pub enum FilterProp {
    Tapped,
    Untapped,
    Attacking,
    Token,
    FaceDown,
    Unblocked,
    /// CR 105.2: the object has this color.
    HasColor { color: ManaColor },
}

/// A type restriction of a typed filter. `AnyOf` admits an object matching any of
/// its (simple) members.
#[derive(Debug, PartialEq, Eq)]
pub enum TypeFilter {
    Creature,
    Artifact,
    Enchantment,
    Instant,
    Sorcery,
    Planeswalker,
    Land,
    Battle,
    Permanent,
    Card,
    AnyOf(Vec<TypeFilter>),
}

/// The simple type words; `Nested` is the word of an `AnyOf` filter, which is not
/// a single word.
#[derive(Clone, Copy, Debug, PartialEq, Eq, Structural)]
pub enum TypeWord {
    Creature,
    Artifact,
    Enchantment,
    Instant,
    Sorcery,
    Planeswalker,
    Land,
    Battle,
    Permanent,
    Card,
    Nested,
}

pub enum TypeFilterView {
    Word(TypeWord),
    AnyOf(Seq<TypeFilterView>),
}

pub open spec fn type_word(t: TypeFilter) -> TypeWord {
    match t {
        TypeFilter::Creature => TypeWord::Creature,
        TypeFilter::Artifact => TypeWord::Artifact,
        TypeFilter::Enchantment => TypeWord::Enchantment,
        TypeFilter::Instant => TypeWord::Instant,
        TypeFilter::Sorcery => TypeWord::Sorcery,
        TypeFilter::Planeswalker => TypeWord::Planeswalker,
        TypeFilter::Land => TypeWord::Land,
        TypeFilter::Battle => TypeWord::Battle,
        TypeFilter::Permanent => TypeWord::Permanent,
        TypeFilter::Card => TypeWord::Card,
        TypeFilter::AnyOf(_) => TypeWord::Nested,
    }
}

/// The type words of a list of type filters.
pub open spec fn words_of(v: Seq<TypeFilter>) -> Seq<TypeWord> {
    v.map_values(|t: TypeFilter| type_word(t))
}

/// The model of a type filter: a simple word, or an any-of with the models of its
/// members (nested any-ofs included).
pub open spec fn type_filter_view(t: TypeFilter) -> TypeFilterView
    decreases t,
{
    match t {
        TypeFilter::AnyOf(v) => TypeFilterView::AnyOf(
            Seq::new(
                v@.len(),
                |i: int|
                    if 0 <= i < v@.len() {
                        type_filter_view(v@[i])
                    } else {
                        TypeFilterView::AnyOf(Seq::empty())
                    },
            ),
        ),
        _ => TypeFilterView::Word(type_word(t)),
    }
}

/// The models of a list of type filters.
pub open spec fn type_filter_views(v: Seq<TypeFilter>) -> Seq<TypeFilterView> {
    v.map_values(|t: TypeFilter| type_filter_view(t))
}

impl View for TypeFilter {
    type V = TypeFilterView;

    open spec fn view(&self) -> TypeFilterView {
        type_filter_view(*self)
    }
}

/// The simple filter for a type word.
pub fn filter_of_word(w: TypeWord) -> (r: TypeFilter)
    ensures
        type_word(r) == w,
        w != TypeWord::Nested ==> r@ == TypeFilterView::Word(w),
{
    match w {
        TypeWord::Creature => TypeFilter::Creature,
        TypeWord::Artifact => TypeFilter::Artifact,
        TypeWord::Enchantment => TypeFilter::Enchantment,
        TypeWord::Instant => TypeFilter::Instant,
        TypeWord::Sorcery => TypeFilter::Sorcery,
        TypeWord::Planeswalker => TypeFilter::Planeswalker,
        TypeWord::Land => TypeFilter::Land,
        TypeWord::Battle => TypeFilter::Battle,
        TypeWord::Permanent => TypeFilter::Permanent,
        TypeWord::Card => TypeFilter::Card,
        TypeWord::Nested => TypeFilter::AnyOf(Vec::new()),
    }
}

fn word_of(t: &TypeFilter) -> (r: TypeWord)
    ensures
        r == type_word(*t),
{
    match t {
        TypeFilter::Creature => TypeWord::Creature,
        TypeFilter::Artifact => TypeWord::Artifact,
        TypeFilter::Enchantment => TypeWord::Enchantment,
        TypeFilter::Instant => TypeWord::Instant,
        TypeFilter::Sorcery => TypeWord::Sorcery,
        TypeFilter::Planeswalker => TypeWord::Planeswalker,
        TypeFilter::Land => TypeWord::Land,
        TypeFilter::Battle => TypeWord::Battle,
        TypeFilter::Permanent => TypeWord::Permanent,
        TypeFilter::Card => TypeWord::Card,
        TypeFilter::AnyOf(_) => TypeWord::Nested,
    }
}

/// The model of an any-of is the any-of of its members' models.
pub proof fn lemma_any_of_view(v: Vec<TypeFilter>)
    ensures
        TypeFilter::AnyOf(v)@ == TypeFilterView::AnyOf(type_filter_views(v@)),
{
    let t = TypeFilter::AnyOf(v);
    assert(t@->AnyOf_0 =~= type_filter_views(v@));
}

impl TypeFilter {
    /// A copy with the same view.
    #[verifier::loop_isolation(false)]
    pub fn duplicate(&self) -> (r: TypeFilter)
        ensures
            r@ == self@,
        decreases self,
    {
        match self {
            TypeFilter::AnyOf(v) => {
                let mut out: Vec<TypeFilter> = Vec::new();
                let mut i: usize = 0;
                while i < v.len()
                    invariant
                        i <= v@.len(),
                        out@.len() == i,
                        forall|j: int| 0 <= j < i ==> (#[trigger] out@[j])@ == v@[j]@,
                    decreases v@.len() - i,
                {
                    let d = v[i].duplicate();
                    out.push(d);
                    i += 1;
                }
                proof {
                    lemma_any_of_view(out);
                    lemma_any_of_view(*v);
                    assert(type_filter_views(out@) =~= type_filter_views(v@));
                }
                TypeFilter::AnyOf(out)
            },
            _ => {
                let w = word_of(self);
                filter_of_word(w)
            },
        }
    }
}

/// A filter over objects by types, controller and properties (all must hold).
#[derive(Debug, PartialEq, Eq)]
pub struct TypedFilter {
    pub type_filters: Vec<TypeFilter>,
    pub controller: Option<ControllerRef>,
    pub properties: Vec<FilterProp>,
}

pub struct TypedFilterView {
    pub type_filters: Seq<TypeFilterView>,
    pub controller: Option<ControllerRef>,
    pub properties: Seq<FilterProp>,
}

impl View for TypedFilter {
    type V = TypedFilterView;

    open spec fn view(&self) -> TypedFilterView {
        TypedFilterView {
            type_filters: self.type_filters@.map_values(|t: TypeFilter| t@),
            controller: self.controller,
            properties: self.properties@,
        }
    }
}

impl TypedFilter {
    pub fn duplicate(&self) -> (r: TypedFilter)
        ensures
            r@ == self@,
    {
        let mut tfs: Vec<TypeFilter> = Vec::new();
        let mut i: usize = 0;
        while i < self.type_filters.len()
            invariant
                i <= self.type_filters@.len(),
                tfs@.len() == i,
                forall|j: int| 0 <= j < i ==> (#[trigger] tfs@[j])@ == self.type_filters@[j]@,
            decreases self.type_filters@.len() - i,
        {
            tfs.push(self.type_filters[i].duplicate());
            i += 1;
        }
        let props = self.properties.clone();
        assert(props@ =~= self.properties@);
        let r = TypedFilter { type_filters: tfs, controller: self.controller, properties: props };
        assert(r@.type_filters =~= self@.type_filters);
        r
    }
}

/// What an effect targets or refers to.
#[derive(Debug, PartialEq, Eq)]
pub enum TargetFilter {
    Any,
    SelfRef,
    Typed(TypedFilter),
}

pub enum TargetFilterView {
    Any,
    SelfRef,
    Typed(TypedFilterView),
}

impl View for TargetFilter {
    type V = TargetFilterView;

    open spec fn view(&self) -> TargetFilterView {
        match self {
            TargetFilter::Any => TargetFilterView::Any,
            TargetFilter::SelfRef => TargetFilterView::SelfRef,
            TargetFilter::Typed(t) => TargetFilterView::Typed(t@),
        }
    }
}

impl TargetFilter {
    pub fn duplicate(&self) -> (r: TargetFilter)
        ensures
            r@ == self@,
    {
        match self {
            TargetFilter::Any => TargetFilter::Any,
            TargetFilter::SelfRef => TargetFilter::SelfRef,
            TargetFilter::Typed(t) => TargetFilter::Typed(t.duplicate()),
        }
    }
}

/// How long an effect lasts.
#[derive(Clone, Copy, Debug, PartialEq, Eq, Structural)]
pub enum Duration {
    UntilEndOfTurn,
    UntilEndOfCombat,
    UntilYourNextTurn,
}

/// Game quantities an expression can refer to.
#[derive(Clone, Copy, Debug, PartialEq, Eq, Structural)]
pub enum QuantityRef {
    /// The number of cards in the controller's hand.
    HandSize,
}

#[derive(Clone, Copy, Debug, PartialEq, Eq, Structural)]
pub enum QuantityExpr {
    Ref { qty: QuantityRef },
    Fixed { value: i32 },
}

#[derive(Clone, Copy, Debug, PartialEq, Eq, Structural)]
pub enum Comparator {
    EQ,
    NE,
    LT,
    LE,
    GT,
    GE,
}

/// A condition under which an ability does its work.
#[derive(Debug, PartialEq, Eq)]
pub enum StaticCondition {
    DuringYourTurn,
    SourceIsTapped,
    Not { condition: Box<StaticCondition> },
    QuantityComparison { lhs: QuantityExpr, comparator: Comparator, rhs: QuantityExpr },
}

impl StaticCondition {
    pub fn duplicate(&self) -> (r: StaticCondition)
        ensures
            r == *self,
        decreases self,
    {
        match self {
            StaticCondition::DuringYourTurn => StaticCondition::DuringYourTurn,
            StaticCondition::SourceIsTapped => StaticCondition::SourceIsTapped,
            StaticCondition::Not { condition } => StaticCondition::Not {
                condition: Box::new(condition.duplicate()),
            },
            StaticCondition::QuantityComparison { lhs, comparator, rhs } => {
                StaticCondition::QuantityComparison { lhs: *lhs, comparator: *comparator, rhs: *rhs }
            },
        }
    }
}

/// Which players an effect applies to, relative to its controller.
#[derive(Clone, Copy, Debug, PartialEq, Eq, Structural)]
pub enum PlayerFilter {
    Controller,
    Opponent,
    All,
}

/// The effects this engine resolves.
#[derive(Debug, PartialEq, Eq)]
pub enum Effect {
    /// CR 701.20: reveal the targets (or the source).
    Reveal { target: TargetFilter },
    /// CR 702.179a: players with no speed get speed 1.
    StartYourEngines { player_scope: PlayerFilter },
    /// CR 702.179c-d: increase the speed of the selected players.
    IncreaseSpeed { player_scope: PlayerFilter, amount: QuantityExpr },
    /// CR 707.9: the source becomes a copy of the targeted permanent; when
    /// `limited_by_mana_spent` holds, only permanents with mana value at most the mana
    /// spent to cast the source may be chosen.
    BecomeCopy { target: TargetFilter, duration: Option<Duration>, limited_by_mana_spent: bool },
    /// The controller gains life.
    GainLife { amount: QuantityExpr },
    /// The controller loses life.
    LoseLife { amount: QuantityExpr },
    /// Tap each targeted object.
    TapTargets,
    /// Text the parser did not understand; resolves to nothing.
    Unimplemented,
}

pub enum EffectView {
    Reveal { target: TargetFilterView },
    StartYourEngines { player_scope: PlayerFilter },
    IncreaseSpeed { player_scope: PlayerFilter, amount: QuantityExpr },
    BecomeCopy { target: TargetFilterView, duration: Option<Duration>, limited_by_mana_spent: bool },
    GainLife { amount: QuantityExpr },
    LoseLife { amount: QuantityExpr },
    TapTargets,
    Unimplemented,
}

impl View for Effect {
    type V = EffectView;

    open spec fn view(&self) -> EffectView {
        match self {
            Effect::Reveal { target } => EffectView::Reveal { target: target@ },
            Effect::StartYourEngines { player_scope } => EffectView::StartYourEngines {
                player_scope: *player_scope,
            },
            Effect::IncreaseSpeed { player_scope, amount } => EffectView::IncreaseSpeed {
                player_scope: *player_scope,
                amount: *amount,
            },
            Effect::BecomeCopy { target, duration, limited_by_mana_spent } => EffectView::BecomeCopy {
                target: target@,
                duration: *duration,
                limited_by_mana_spent: *limited_by_mana_spent,
            },
            Effect::GainLife { amount } => EffectView::GainLife { amount: *amount },
            Effect::LoseLife { amount } => EffectView::LoseLife { amount: *amount },
            Effect::TapTargets => EffectView::TapTargets,
            Effect::Unimplemented => EffectView::Unimplemented,
        }
    }
}

impl Effect {
    pub fn duplicate(&self) -> (r: Effect)
        ensures
            r@ == self@,
    {
        match self {
            Effect::Reveal { target } => Effect::Reveal { target: target.duplicate() },
            Effect::StartYourEngines { player_scope } => Effect::StartYourEngines {
                player_scope: *player_scope,
            },
            Effect::IncreaseSpeed { player_scope, amount } => Effect::IncreaseSpeed {
                player_scope: *player_scope,
                amount: *amount,
            },
            Effect::BecomeCopy { target, duration, limited_by_mana_spent } => Effect::BecomeCopy {
                target: target.duplicate(),
                duration: *duration,
                limited_by_mana_spent: *limited_by_mana_spent,
            },
            Effect::GainLife { amount } => Effect::GainLife { amount: *amount },
            Effect::LoseLife { amount } => Effect::LoseLife { amount: *amount },
            Effect::TapTargets => Effect::TapTargets,
            Effect::Unimplemented => Effect::Unimplemented,
        }
    }

    /// The kind reported when this effect resolves.
    pub open spec fn spec_kind(&self) -> EffectKind {
        match self {
            Effect::Reveal { .. } => EffectKind::Reveal,
            Effect::StartYourEngines { .. } => EffectKind::StartYourEngines,
            Effect::IncreaseSpeed { .. } => EffectKind::IncreaseSpeed,
            Effect::BecomeCopy { .. } => EffectKind::BecomeCopy,
            Effect::GainLife { .. } => EffectKind::GainLife,
            Effect::LoseLife { .. } => EffectKind::LoseLife,
            Effect::TapTargets => EffectKind::Tap,
            Effect::Unimplemented => EffectKind::Unimplemented,
        }
    }
}

#[derive(Clone, Copy, Debug, PartialEq, Eq, Structural)]
pub enum AbilityKind {
    Spell,
    Activated,
    Triggered,
}

/// An ability as printed: an effect with its optional follow-up, alternative,
/// duration and condition.
#[derive(Debug, PartialEq, Eq)]
pub struct AbilityDefinition {
    pub kind: AbilityKind,
    pub effect: Box<Effect>,
    pub sub_ability: Option<Box<AbilityDefinition>>,
    pub else_ability: Option<Box<AbilityDefinition>>,
    pub duration: Option<Duration>,
    pub condition: Option<StaticCondition>,
}

pub struct AbilityDefinitionView {
    pub kind: AbilityKind,
    pub effect: EffectView,
    pub sub_ability: Option<Box<AbilityDefinitionView>>,
    pub else_ability: Option<Box<AbilityDefinitionView>>,
    pub duration: Option<Duration>,
    pub condition: Option<StaticCondition>,
}

pub open spec fn definition_view(d: AbilityDefinition) -> AbilityDefinitionView
    decreases d,
{
    AbilityDefinitionView {
        kind: d.kind,
        effect: d.effect@,
        sub_ability: match d.sub_ability {
            Some(s) => Some(Box::new(definition_view(*s))),
            None => None,
        },
        else_ability: match d.else_ability {
            Some(s) => Some(Box::new(definition_view(*s))),
            None => None,
        },
        duration: d.duration,
        condition: d.condition,
    }
}

impl View for AbilityDefinition {
    type V = AbilityDefinitionView;

    open spec fn view(&self) -> AbilityDefinitionView {
        definition_view(*self)
    }
}

/// An ability on its way to resolution: its effect, chosen targets, source and
/// controller, and the abilities resolved after it (`sub_ability`) or instead of it
/// when its condition fails (`else_ability`).
#[derive(Debug)]
pub struct ResolvedAbility {
    pub effect: Effect,
    pub targets: Vec<TargetRef>,
    pub source_id: ObjectId,
    pub controller: PlayerId,
    pub kind: AbilityKind,
    pub sub_ability: Option<Box<ResolvedAbility>>,
    pub else_ability: Option<Box<ResolvedAbility>>,
    pub duration: Option<Duration>,
    pub condition: Option<StaticCondition>,
}

pub struct ResolvedAbilityView {
    pub effect: EffectView,
    pub targets: Seq<TargetRef>,
    pub source_id: ObjectId,
    pub controller: PlayerId,
    pub kind: AbilityKind,
    pub sub_ability: Option<Box<ResolvedAbilityView>>,
    pub else_ability: Option<Box<ResolvedAbilityView>>,
    pub duration: Option<Duration>,
    pub condition: Option<StaticCondition>,
}

pub open spec fn resolved_view(a: ResolvedAbility) -> ResolvedAbilityView
    decreases a,
{
    ResolvedAbilityView {
        effect: a.effect@,
        targets: a.targets@,
        source_id: a.source_id,
        controller: a.controller,
        kind: a.kind,
        sub_ability: match a.sub_ability {
            Some(s) => Some(Box::new(resolved_view(*s))),
            None => None,
        },
        else_ability: match a.else_ability {
            Some(s) => Some(Box::new(resolved_view(*s))),
            None => None,
        },
        duration: a.duration,
        condition: a.condition,
    }
}

impl View for ResolvedAbility {
    type V = ResolvedAbilityView;

    open spec fn view(&self) -> ResolvedAbilityView {
        resolved_view(*self)
    }
}

impl ResolvedAbility {
    /// A spell ability with the given effect, targets, source and controller and
    /// nothing attached.
    pub fn new(effect: Effect, targets: Vec<TargetRef>, source_id: ObjectId, controller: PlayerId) -> (r:
        ResolvedAbility)
        ensures
            r.effect == effect,
            r.targets == targets,
            r.source_id == source_id,
            r.controller == controller,
            r.kind == AbilityKind::Spell,
            r.sub_ability is None,
            r.else_ability is None,
            r.duration is None,
            r.condition is None,
    {
        ResolvedAbility {
            effect,
            targets,
            source_id,
            controller,
            kind: AbilityKind::Spell,
            sub_ability: None,
            else_ability: None,
            duration: None,
            condition: None,
        }
    }
}

impl Clone for TargetFilter {
    /// A copy with the same view.
    fn clone(&self) -> (r: TargetFilter)
        ensures
            r@ == self@,
    {
        self.duplicate()
    }
}

/// Events a replacement effect can watch.
#[derive(Clone, Copy, Debug, PartialEq, Eq, Structural)]
pub enum ReplacementEvent {
    ZoneChange,
    Damage,
    AddCounter,
    Tap,
    Untap,
    Draw,
    LifeGain,
    LifeLoss,
    Discard,
}

#[derive(Clone, Copy, Debug, PartialEq, Eq, Structural)]
pub enum ReplacementMode {
    Mandatory,
    Optional,
}

/// A replacement effect printed on an object, with the ability it runs when applied.
#[derive(Debug)]
pub struct ReplacementDefinition {
    pub event: ReplacementEvent,
    pub mode: ReplacementMode,
    pub execute: Option<Box<AbilityDefinition>>,
}

} // verus!
