//! The texts of refusals, as shown to players: each error's message, built from
//! literal pieces, decimal numbers and object ids.

use vstd::prelude::*;

use crate::types::{ActionError, CombatDamageAssignmentMode, EffectError, EffectKind, EngineError, ObjectId};

verus! {

/// `String::push_str` appends the given text at the end of the string.
pub assume_specification[ String::push_str ](s: &mut String, string: &str)
    ensures
        final(s)@ == old(s)@ + string@,
;

/// `String::push` appends the given character at the end of the string.
pub assume_specification[ String::push ](s: &mut String, ch: char)
    ensures
        final(s)@ == old(s)@.push(ch),
;

/// The decimal digit for `d` (0 to 9).
pub open spec fn digit_char(d: int) -> char {
    if d == 0 {
        '0'
    } else if d == 1 {
        '1'
    } else if d == 2 {
        '2'
    } else if d == 3 {
        '3'
    } else if d == 4 {
        '4'
    } else if d == 5 {
        '5'
    } else if d == 6 {
        '6'
    } else if d == 7 {
        '7'
    } else if d == 8 {
        '8'
    } else {
        '9'
    }
}

/// The decimal numeral of `n`, without leading zeros.
pub open spec fn decimal(n: nat) -> Seq<char>
    decreases n,
{
    if n < 10 {
        seq![digit_char(n as int)]
    } else {
        decimal(n / 10).push(digit_char((n % 10) as int))
    }
}

fn digit(d: u64) -> (r: char)
    requires
        d < 10,
    ensures
        r == digit_char(d as int),
{
    if d == 0 {
        '0'
    } else if d == 1 {
        '1'
    } else if d == 2 {
        '2'
    } else if d == 3 {
        '3'
    } else if d == 4 {
        '4'
    } else if d == 5 {
        '5'
    } else if d == 6 {
        '6'
    } else if d == 7 {
        '7'
    } else if d == 8 {
        '8'
    } else {
        '9'
    }
}

/// Append the decimal numeral of `n`.
fn push_decimal(s: &mut String, n: u64)
    ensures
        final(s)@ == old(s)@ + decimal(n as nat),
    decreases n,
{
    if n >= 10 {
        push_decimal(s, n / 10);
    }
    s.push(digit(n % 10));
    assert(s@ =~= old(s)@ + decimal(n as nat));
}

/// An object id as it is printed: `ObjectId(5)`.
pub open spec fn object_id_text(id: ObjectId) -> Seq<char> {
    "ObjectId("@ + decimal(id.0 as nat) + ")"@
}

fn push_object_id(s: &mut String, id: ObjectId)
    ensures
        final(s)@ == old(s)@ + object_id_text(id),
{
    s.push_str("ObjectId(");
    push_decimal(s, id.0);
    s.push_str(")");
    assert(s@ =~= old(s)@ + object_id_text(id));
}

/// A damage-assignment mode as it is printed.
pub open spec fn mode_text(m: CombatDamageAssignmentMode) -> Seq<char> {
    match m {
        CombatDamageAssignmentMode::Normal => "Normal"@,
        CombatDamageAssignmentMode::AsThoughUnblocked => "AsThoughUnblocked"@,
    }
}

/// An effect kind as it is printed.
pub open spec fn effect_kind_text(k: EffectKind) -> Seq<char> {
    match k {
        EffectKind::Reveal => "Reveal"@,
        EffectKind::StartYourEngines => "StartYourEngines"@,
        EffectKind::IncreaseSpeed => "IncreaseSpeed"@,
        EffectKind::BecomeCopy => "BecomeCopy"@,
        EffectKind::GainLife => "GainLife"@,
        EffectKind::LoseLife => "LoseLife"@,
        EffectKind::Tap => "Tap"@,
        EffectKind::Unimplemented => "Unimplemented"@,
    }
}

/// The message of a refused action.
pub open spec fn action_error_text(e: ActionError) -> Seq<char> {
    match e {
        ActionError::ModeNotAllowed { mode, attacker_id } => "Combat damage assignment mode "@ + mode_text(mode)
            + " is not allowed for attacker "@ + object_id_text(attacker_id),
        ActionError::SplitsWithUnblockedMode => "As-though-unblocked assignment does not use blocker or trample splits"@,
        ActionError::AttackerNotInCombat { attacker_id } => "Attacker "@ + object_id_text(attacker_id)
            + " not found in combat state"@,
        ActionError::TotalMismatch { assigned, expected } => "Damage assignment total "@ + decimal(
            assigned as nat,
        ) + " != expected "@ + decimal(expected as nat),
        ActionError::NotABlocker { blocker_id, attacker_id } => object_id_text(blocker_id)
            + " is not a blocker of attacker "@ + object_id_text(attacker_id),
        ActionError::TrampleRequired => "Cannot assign trample damage without trample"@,
        ActionError::ControllerDamageNotAllowed =>
            "Controller damage only allowed with trample over planeswalkers attacking a planeswalker"@,
        ActionError::PlaneswalkerNotLethal { loyalty_threshold, controller_damage } =>
            "Trample over planeswalkers: must assign at least "@ + decimal(loyalty_threshold as nat)
                + " to PW before "@ + decimal(controller_damage as nat) + " to controller"@,
        ActionError::BlockerNotLethal { blocker_id, lethal_minimum } => "Trample: blocker "@ + object_id_text(
            blocker_id,
        ) + " must receive at least "@ + decimal(lethal_minimum as nat)
            + " lethal damage before excess to player"@,
        ActionError::IllegalAttacker { object_id } => object_id_text(object_id) + " cannot attack"@,
        ActionError::IllegalAttackTarget { object_id } => object_id_text(object_id)
            + " cannot attack that target"@,
        ActionError::IllegalBlocker { object_id } => object_id_text(object_id) + " cannot block"@,
        ActionError::NoCombat => "No combat in progress"@,
        ActionError::NotWaitingForCopyTarget => "Not waiting for copy target choice"@,
        ActionError::InvalidCopyTarget => "Invalid copy target"@,
        ActionError::InvalidReplacementChoice { index } => "Invalid replacement choice "@ + decimal(
            index as nat,
        ),
    }
}

/// The message of an engine refusal.
pub open spec fn engine_error_text(e: EngineError) -> Seq<char> {
    match e {
        EngineError::WrongPlayer => "Wrong player"@,
        EngineError::InvalidAction(a) => action_error_text(a),
    }
}

/// The message of an effect refusal.
pub open spec fn effect_error_text(e: EffectError) -> Seq<char> {
    match e {
        EffectError::InvalidParam { expected } => "expected "@ + effect_kind_text(expected),
    }
}

fn push_mode(s: &mut String, m: CombatDamageAssignmentMode)
    ensures
        final(s)@ == old(s)@ + mode_text(m),
{
    match m {
        CombatDamageAssignmentMode::Normal => s.push_str("Normal"),
        CombatDamageAssignmentMode::AsThoughUnblocked => s.push_str("AsThoughUnblocked"),
    }
}

fn push_effect_kind(s: &mut String, k: EffectKind)
    ensures
        final(s)@ == old(s)@ + effect_kind_text(k),
{
    match k {
        EffectKind::Reveal => s.push_str("Reveal"),
        EffectKind::StartYourEngines => s.push_str("StartYourEngines"),
        EffectKind::IncreaseSpeed => s.push_str("IncreaseSpeed"),
        EffectKind::BecomeCopy => s.push_str("BecomeCopy"),
        EffectKind::GainLife => s.push_str("GainLife"),
        EffectKind::LoseLife => s.push_str("LoseLife"),
        EffectKind::Tap => s.push_str("Tap"),
        EffectKind::Unimplemented => s.push_str("Unimplemented"),
    }
}

impl ActionError {
    /// The text shown for this refusal.
    pub fn message(&self) -> (r: String)
        ensures
            r@ == action_error_text(*self),
    {
        let mut s = String::new();
        match *self {
            ActionError::ModeNotAllowed { mode, attacker_id } => {
                s.push_str("Combat damage assignment mode ");
                push_mode(&mut s, mode);
                s.push_str(" is not allowed for attacker ");
                push_object_id(&mut s, attacker_id);
            },
            ActionError::SplitsWithUnblockedMode => {
                s.push_str("As-though-unblocked assignment does not use blocker or trample splits");
            },
            ActionError::AttackerNotInCombat { attacker_id } => {
                s.push_str("Attacker ");
                push_object_id(&mut s, attacker_id);
                s.push_str(" not found in combat state");
            },
            ActionError::TotalMismatch { assigned, expected } => {
                s.push_str("Damage assignment total ");
                push_decimal(&mut s, assigned as u64);
                s.push_str(" != expected ");
                push_decimal(&mut s, expected as u64);
            },
            ActionError::NotABlocker { blocker_id, attacker_id } => {
                push_object_id(&mut s, blocker_id);
                s.push_str(" is not a blocker of attacker ");
                push_object_id(&mut s, attacker_id);
            },
            ActionError::TrampleRequired => {
                s.push_str("Cannot assign trample damage without trample");
            },
            ActionError::ControllerDamageNotAllowed => {
                s.push_str(
                    "Controller damage only allowed with trample over planeswalkers attacking a planeswalker",
                );
            },
            ActionError::PlaneswalkerNotLethal { loyalty_threshold, controller_damage } => {
                s.push_str("Trample over planeswalkers: must assign at least ");
                push_decimal(&mut s, loyalty_threshold as u64);
                s.push_str(" to PW before ");
                push_decimal(&mut s, controller_damage as u64);
                s.push_str(" to controller");
            },
            ActionError::BlockerNotLethal { blocker_id, lethal_minimum } => {
                s.push_str("Trample: blocker ");
                push_object_id(&mut s, blocker_id);
                s.push_str(" must receive at least ");
                push_decimal(&mut s, lethal_minimum as u64);
                s.push_str(" lethal damage before excess to player");
            },
            ActionError::IllegalAttacker { object_id } => {
                push_object_id(&mut s, object_id);
                s.push_str(" cannot attack");
            },
            ActionError::IllegalAttackTarget { object_id } => {
                push_object_id(&mut s, object_id);
                s.push_str(" cannot attack that target");
            },
            ActionError::IllegalBlocker { object_id } => {
                push_object_id(&mut s, object_id);
                s.push_str(" cannot block");
            },
            ActionError::NoCombat => {
                s.push_str("No combat in progress");
            },
            ActionError::NotWaitingForCopyTarget => {
                s.push_str("Not waiting for copy target choice");
            },
            ActionError::InvalidCopyTarget => {
                s.push_str("Invalid copy target");
            },
            ActionError::InvalidReplacementChoice { index } => {
                s.push_str("Invalid replacement choice ");
                push_decimal(&mut s, index as u64);
            },
        }
        assert(s@ =~= action_error_text(*self));
        s
    }
}

impl EngineError {
    /// The text shown for this refusal.
    pub fn message(&self) -> (r: String)
        ensures
            r@ == engine_error_text(*self),
    {
        match self {
            EngineError::WrongPlayer => {
                let mut s = String::new();
                s.push_str("Wrong player");
                assert(s@ =~= engine_error_text(*self));
                s
            },
            EngineError::InvalidAction(a) => a.message(),
        }
    }
}

impl EffectError {
    /// The text shown for this refusal.
    pub fn message(&self) -> (r: String)
        ensures
            r@ == effect_error_text(*self),
    {
        let mut s = String::new();
        match *self {
            EffectError::InvalidParam { expected } => {
                s.push_str("expected ");
                push_effect_kind(&mut s, expected);
            },
        }
        assert(s@ =~= effect_error_text(*self));
        s
    }
}

} // verus!
