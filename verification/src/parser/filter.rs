//! Zone filters ("on the battlefield", "in your graveyard") and property filters
//! ("tapped", "attacking", "face down").

use vstd::prelude::*;

use crate::ability::FilterProp;
use crate::parser::text::{spec_tag, tag, OracleError};
use crate::types::Zone;

verus! {

/// The zone phrase `s` starts with, and the text after it.
pub open spec fn spec_parse_zone_filter(s: Seq<char>) -> Option<(Seq<char>, Zone)> {
    if spec_tag(s, "on the battlefield"@) is Some {
        Some((spec_tag(s, "on the battlefield"@).unwrap(), Zone::Battlefield))
    } else if spec_tag(s, "in your graveyard"@) is Some {
        Some((spec_tag(s, "in your graveyard"@).unwrap(), Zone::Graveyard))
    } else if spec_tag(s, "in a graveyard"@) is Some {
        Some((spec_tag(s, "in a graveyard"@).unwrap(), Zone::Graveyard))
    } else if spec_tag(s, "in your hand"@) is Some {
        Some((spec_tag(s, "in your hand"@).unwrap(), Zone::Hand))
    } else if spec_tag(s, "in a player's hand"@) is Some {
        Some((spec_tag(s, "in a player's hand"@).unwrap(), Zone::Hand))
    } else if spec_tag(s, "in exile"@) is Some {
        Some((spec_tag(s, "in exile"@).unwrap(), Zone::Exile))
    } else if spec_tag(s, "in your library"@) is Some {
        Some((spec_tag(s, "in your library"@).unwrap(), Zone::Library))
    } else if spec_tag(s, "on the stack"@) is Some {
        Some((spec_tag(s, "on the stack"@).unwrap(), Zone::Stack))
    } else {
        None
    }
}

/// Parse a zone filter phrase from Oracle text.
pub fn parse_zone_filter(input: &str) -> (r: Result<(&str, Zone), OracleError>)
    ensures
        match spec_parse_zone_filter(input@) {
            Some((rest, z)) => r matches Ok((x, y)) && x@ == rest && y == z,
            None => r is Err,
        },
{
    if let Some(rest) = tag(input, "on the battlefield") {
        return Ok((rest, Zone::Battlefield));
    }
    if let Some(rest) = tag(input, "in your graveyard") {
        return Ok((rest, Zone::Graveyard));
    }
    if let Some(rest) = tag(input, "in a graveyard") {
        return Ok((rest, Zone::Graveyard));
    }
    if let Some(rest) = tag(input, "in your hand") {
        return Ok((rest, Zone::Hand));
    }
    if let Some(rest) = tag(input, "in a player's hand") {
        return Ok((rest, Zone::Hand));
    }
    if let Some(rest) = tag(input, "in exile") {
        return Ok((rest, Zone::Exile));
    }
    if let Some(rest) = tag(input, "in your library") {
        return Ok((rest, Zone::Library));
    }
    if let Some(rest) = tag(input, "on the stack") {
        return Ok((rest, Zone::Stack));
    }
    Err(OracleError)
}

/// The property keyword `s` starts with, and the text after it.
pub open spec fn spec_parse_property_filter(s: Seq<char>) -> Option<(Seq<char>, FilterProp)> {
    if spec_tag(s, "tapped"@) is Some {
        Some((spec_tag(s, "tapped"@).unwrap(), FilterProp::Tapped))
    } else if spec_tag(s, "untapped"@) is Some {
        Some((spec_tag(s, "untapped"@).unwrap(), FilterProp::Untapped))
    } else if spec_tag(s, "attacking"@) is Some {
        Some((spec_tag(s, "attacking"@).unwrap(), FilterProp::Attacking))
    } else if spec_tag(s, "token"@) is Some {
        Some((spec_tag(s, "token"@).unwrap(), FilterProp::Token))
    } else if spec_tag(s, "face down"@) is Some {
        Some((spec_tag(s, "face down"@).unwrap(), FilterProp::FaceDown))
    } else if spec_tag(s, "unblocked"@) is Some {
        Some((spec_tag(s, "unblocked"@).unwrap(), FilterProp::Unblocked))
    } else {
        None
    }
}

/// Parse an object property keyword from Oracle text.
pub fn parse_property_filter(input: &str) -> (r: Result<(&str, FilterProp), OracleError>)
    ensures
        match spec_parse_property_filter(input@) {
            Some((rest, p)) => r matches Ok((x, q)) && x@ == rest && q == p,
            None => r is Err,
        },
{
    if let Some(rest) = tag(input, "tapped") {
        return Ok((rest, FilterProp::Tapped));
    }
    if let Some(rest) = tag(input, "untapped") {
        return Ok((rest, FilterProp::Untapped));
    }
    if let Some(rest) = tag(input, "attacking") {
        return Ok((rest, FilterProp::Attacking));
    }
    if let Some(rest) = tag(input, "token") {
        return Ok((rest, FilterProp::Token));
    }
    if let Some(rest) = tag(input, "face down") {
        return Ok((rest, FilterProp::FaceDown));
    }
    if let Some(rest) = tag(input, "unblocked") {
        return Ok((rest, FilterProp::Unblocked));
    }
    Err(OracleError)
}

} // verus!
