//! Condition phrases: "if [condition]", "as long as [condition]".

use vstd::prelude::*;

use crate::ability::{Comparator, QuantityExpr, QuantityRef, StaticCondition};
use crate::parser::text::{spec_tag, tag, OracleError};

verus! {

/// "you have no cards in hand": the controller's hand size equals 0.
pub open spec fn no_cards_in_hand() -> StaticCondition {
    StaticCondition::QuantityComparison {
        lhs: QuantityExpr::Ref { qty: QuantityRef::HandSize },
        comparator: Comparator::EQ,
        rhs: QuantityExpr::Fixed { value: 0 },
    }
}

/// The condition `s` starts with (after its keyword), and the text after it.
pub open spec fn spec_parse_inner_condition(s: Seq<char>) -> Option<(Seq<char>, StaticCondition)> {
    if spec_tag(s, "it's your turn"@) is Some {
        Some((spec_tag(s, "it's your turn"@).unwrap(), StaticCondition::DuringYourTurn))
    } else if spec_tag(s, "it is your turn"@) is Some {
        Some((spec_tag(s, "it is your turn"@).unwrap(), StaticCondition::DuringYourTurn))
    } else if spec_tag(s, "~ is tapped"@) is Some {
        Some((spec_tag(s, "~ is tapped"@).unwrap(), StaticCondition::SourceIsTapped))
    } else if spec_tag(s, "~ is untapped"@) is Some {
        Some(
            (
                spec_tag(s, "~ is untapped"@).unwrap(),
                StaticCondition::Not { condition: Box::new(StaticCondition::SourceIsTapped) },
            ),
        )
    } else if spec_tag(s, "you have no cards in hand"@) is Some {
        Some((spec_tag(s, "you have no cards in hand"@).unwrap(), no_cards_in_hand()))
    } else {
        None
    }
}

/// Parse common inner condition patterns.
fn parse_inner_condition(input: &str) -> (r: Result<(&str, StaticCondition), OracleError>)
    ensures
        match spec_parse_inner_condition(input@) {
            Some((rest, c)) => r matches Ok((x, d)) && x@ == rest && d == c,
            None => r is Err,
        },
{
    if let Some(rest) = tag(input, "it's your turn") {
        return Ok((rest, StaticCondition::DuringYourTurn));
    }
    if let Some(rest) = tag(input, "it is your turn") {
        return Ok((rest, StaticCondition::DuringYourTurn));
    }
    if let Some(rest) = tag(input, "~ is tapped") {
        return Ok((rest, StaticCondition::SourceIsTapped));
    }
    if let Some(rest) = tag(input, "~ is untapped") {
        return Ok(
            (rest, StaticCondition::Not { condition: Box::new(StaticCondition::SourceIsTapped) }),
        );
    }
    if let Some(rest) = tag(input, "you have no cards in hand") {
        return Ok(
            (
                rest,
                StaticCondition::QuantityComparison {
                    lhs: QuantityExpr::Ref { qty: QuantityRef::HandSize },
                    comparator: Comparator::EQ,
                    rhs: QuantityExpr::Fixed { value: 0 },
                },
            ),
        );
    }
    Err(OracleError)
}

/// A condition introduced by "if " or, failing that, by "as long as ".
pub open spec fn spec_parse_condition(s: Seq<char>) -> Option<(Seq<char>, StaticCondition)> {
    let first = match spec_tag(s, "if "@) {
        Some(r) => spec_parse_inner_condition(r),
        None => None,
    };
    if first is Some {
        first
    } else {
        match spec_tag(s, "as long as "@) {
            Some(r) => spec_parse_inner_condition(r),
            None => None,
        }
    }
}

/// Parse a condition phrase from Oracle text.
pub fn parse_condition(input: &str) -> (r: Result<(&str, StaticCondition), OracleError>)
    ensures
        match spec_parse_condition(input@) {
            Some((rest, c)) => r matches Ok((x, d)) && x@ == rest && d == c,
            None => r is Err,
        },
{
    if let Some(r) = tag(input, "if ") {
        if let Ok(res) = parse_inner_condition(r) {
            return Ok(res);
        }
    }
    match tag(input, "as long as ") {
        Some(r) => parse_inner_condition(r),
        None => Err(OracleError),
    }
}

} // verus!
