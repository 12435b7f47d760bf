//! Parse context for pronoun and reference resolution threading.

use vstd::prelude::*;

use crate::ability::{QuantityRef, TargetFilter};

verus! {

/// Parsing context threaded through the phrase parsers for pronoun/reference
/// resolution ("it", "that creature", "that many").
#[derive(Clone, Debug)]
pub struct ParseContext {
    /// The current subject (resolved target: "it", "that creature").
    pub subject: Option<TargetFilter>,
    /// Resolved quantity reference ("that many", "that much").
    pub quantity_ref: Option<QuantityRef>,
    /// Card name for self-reference (~) normalization.
    pub card_name: Option<String>,
    /// Whether we are inside a trigger effect (enables event context refs).
    pub in_trigger: bool,
    /// Whether we are inside a replacement effect.
    pub in_replacement: bool,
}

impl Default for ParseContext {
    fn default() -> (r: ParseContext)
        ensures
            r.subject is None,
            r.quantity_ref is None,
            r.card_name is None,
            !r.in_trigger,
            !r.in_replacement,
    {
        ParseContext {
            subject: None,
            quantity_ref: None,
            card_name: None,
            in_trigger: false,
            in_replacement: false,
        }
    }
}

} // verus!
