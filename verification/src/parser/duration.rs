//! Duration phrases: "until end of turn", "until your next turn", "until end of
//! combat".

use vstd::prelude::*;

use crate::ability::Duration;
use crate::parser::text::{spec_tag, tag, OracleError};

verus! {

/// The duration a phrase starts with, and the text after it.
pub open spec fn spec_parse_duration(s: Seq<char>) -> Option<(Seq<char>, Duration)> {
    if spec_tag(s, "until end of turn"@) is Some {
        Some((spec_tag(s, "until end of turn"@).unwrap(), Duration::UntilEndOfTurn))
    } else if spec_tag(s, "until end of combat"@) is Some {
        Some((spec_tag(s, "until end of combat"@).unwrap(), Duration::UntilEndOfCombat))
    } else if spec_tag(s, "until your next turn"@) is Some {
        Some((spec_tag(s, "until your next turn"@).unwrap(), Duration::UntilYourNextTurn))
    } else {
        None
    }
}

/// Parse a duration phrase from Oracle text.
pub fn parse_duration(input: &str) -> (r: Result<(&str, Duration), OracleError>)
    ensures
        match spec_parse_duration(input@) {
            Some((rest, d)) => r matches Ok((x, e)) && x@ == rest && e == d,
            None => r is Err,
        },
{
    if let Some(rest) = tag(input, "until end of turn") {
        return Ok((rest, Duration::UntilEndOfTurn));
    }
    if let Some(rest) = tag(input, "until end of combat") {
        return Ok((rest, Duration::UntilEndOfCombat));
    }
    if let Some(rest) = tag(input, "until your next turn") {
        return Ok((rest, Duration::UntilYourNextTurn));
    }
    Err(OracleError)
}

} // verus!
