//! What each phrase means: text that starts with a phrase parses to the value that
//! phrase names, and to the text after the phrase.

use vstd::prelude::*;

use crate::ability::{
    Comparator, ControllerRef, Duration, FilterProp, QuantityExpr, QuantityRef, StaticCondition, TypeWord,
};
use crate::parser::condition::{spec_parse_condition, spec_parse_inner_condition};
use crate::parser::duration::spec_parse_duration;
use crate::parser::filter::{spec_parse_property_filter, spec_parse_zone_filter};
use crate::parser::target::{spec_parse_color, spec_parse_controller_suffix, spec_parse_type_word};
use crate::parser::text::spec_tag;
use crate::types::{ManaColor, Zone};

verus! {

/// Two phrases that differ at position `k` cannot both start the same text.
proof fn lemma_phrases_exclusive(s: Seq<char>, p: Seq<char>, q: Seq<char>, k: int)
    requires
        0 <= k < p.len(),
        k < q.len(),
        p[k] != q[k],
    ensures
        !(spec_tag(s, p) is Some && spec_tag(s, q) is Some),
{
    if spec_tag(s, p) is Some && spec_tag(s, q) is Some {
        assert(s.take(p.len() as int)[k] == s[k]);
        assert(s.take(q.len() as int)[k] == s[k]);
    }
}

/// Text that starts with a zone phrase names that zone: the battlefield, a graveyard, a hand,
/// exile, a library or the stack; the rest of the text follows the phrase.
/// Text that starts with none of these phrases is no zone.
pub proof fn law_zone_phrases(s: Seq<char>)
    ensures
        spec_tag(s, "on the battlefield"@) is Some ==> spec_parse_zone_filter(s) == Some((s.skip("on the battlefield"@.len() as int), Zone::Battlefield)),
        spec_tag(s, "in your graveyard"@) is Some ==> spec_parse_zone_filter(s) == Some((s.skip("in your graveyard"@.len() as int), Zone::Graveyard)),
        spec_tag(s, "in a graveyard"@) is Some ==> spec_parse_zone_filter(s) == Some((s.skip("in a graveyard"@.len() as int), Zone::Graveyard)),
        spec_tag(s, "in your hand"@) is Some ==> spec_parse_zone_filter(s) == Some((s.skip("in your hand"@.len() as int), Zone::Hand)),
        spec_tag(s, "in a player's hand"@) is Some ==> spec_parse_zone_filter(s) == Some((s.skip("in a player's hand"@.len() as int), Zone::Hand)),
        spec_tag(s, "in exile"@) is Some ==> spec_parse_zone_filter(s) == Some((s.skip("in exile"@.len() as int), Zone::Exile)),
        spec_tag(s, "in your library"@) is Some ==> spec_parse_zone_filter(s) == Some((s.skip("in your library"@.len() as int), Zone::Library)),
        spec_tag(s, "on the stack"@) is Some ==> spec_parse_zone_filter(s) == Some((s.skip("on the stack"@.len() as int), Zone::Stack)),
        ({
            &&& spec_tag(s, "on the battlefield"@) is None
            &&& spec_tag(s, "in your graveyard"@) is None
            &&& spec_tag(s, "in a graveyard"@) is None
            &&& spec_tag(s, "in your hand"@) is None
            &&& spec_tag(s, "in a player's hand"@) is None
            &&& spec_tag(s, "in exile"@) is None
            &&& spec_tag(s, "in your library"@) is None
            &&& spec_tag(s, "on the stack"@) is None
        }) ==> spec_parse_zone_filter(s) is None,
{
    reveal_strlit("on the battlefield");
    reveal_strlit("in your graveyard");
    reveal_strlit("in a graveyard");
    reveal_strlit("in your hand");
    reveal_strlit("in a player's hand");
    reveal_strlit("in exile");
    reveal_strlit("in your library");
    reveal_strlit("on the stack");
    lemma_phrases_exclusive(s, "in your graveyard"@, "on the battlefield"@, 0);
    lemma_phrases_exclusive(s, "in a graveyard"@, "on the battlefield"@, 0);
    lemma_phrases_exclusive(s, "in a graveyard"@, "in your graveyard"@, 3);
    lemma_phrases_exclusive(s, "in your hand"@, "on the battlefield"@, 0);
    lemma_phrases_exclusive(s, "in your hand"@, "in your graveyard"@, 8);
    lemma_phrases_exclusive(s, "in your hand"@, "in a graveyard"@, 3);
    lemma_phrases_exclusive(s, "in a player's hand"@, "on the battlefield"@, 0);
    lemma_phrases_exclusive(s, "in a player's hand"@, "in your graveyard"@, 3);
    lemma_phrases_exclusive(s, "in a player's hand"@, "in a graveyard"@, 5);
    lemma_phrases_exclusive(s, "in a player's hand"@, "in your hand"@, 3);
    lemma_phrases_exclusive(s, "in exile"@, "on the battlefield"@, 0);
    lemma_phrases_exclusive(s, "in exile"@, "in your graveyard"@, 3);
    lemma_phrases_exclusive(s, "in exile"@, "in a graveyard"@, 3);
    lemma_phrases_exclusive(s, "in exile"@, "in your hand"@, 3);
    lemma_phrases_exclusive(s, "in exile"@, "in a player's hand"@, 3);
    lemma_phrases_exclusive(s, "in your library"@, "on the battlefield"@, 0);
    lemma_phrases_exclusive(s, "in your library"@, "in your graveyard"@, 8);
    lemma_phrases_exclusive(s, "in your library"@, "in a graveyard"@, 3);
    lemma_phrases_exclusive(s, "in your library"@, "in your hand"@, 8);
    lemma_phrases_exclusive(s, "in your library"@, "in a player's hand"@, 3);
    lemma_phrases_exclusive(s, "in your library"@, "in exile"@, 3);
    lemma_phrases_exclusive(s, "on the stack"@, "on the battlefield"@, 7);
    lemma_phrases_exclusive(s, "on the stack"@, "in your graveyard"@, 0);
    lemma_phrases_exclusive(s, "on the stack"@, "in a graveyard"@, 0);
    lemma_phrases_exclusive(s, "on the stack"@, "in your hand"@, 0);
    lemma_phrases_exclusive(s, "on the stack"@, "in a player's hand"@, 0);
    lemma_phrases_exclusive(s, "on the stack"@, "in exile"@, 0);
    lemma_phrases_exclusive(s, "on the stack"@, "in your library"@, 0);
}

/// Text that starts with a property word names that property.
/// Text that starts with none of these words is no property.
pub proof fn law_property_phrases(s: Seq<char>)
    ensures
        spec_tag(s, "tapped"@) is Some ==> spec_parse_property_filter(s) == Some((s.skip("tapped"@.len() as int), FilterProp::Tapped)),
        spec_tag(s, "untapped"@) is Some ==> spec_parse_property_filter(s) == Some((s.skip("untapped"@.len() as int), FilterProp::Untapped)),
        spec_tag(s, "attacking"@) is Some ==> spec_parse_property_filter(s) == Some((s.skip("attacking"@.len() as int), FilterProp::Attacking)),
        spec_tag(s, "token"@) is Some ==> spec_parse_property_filter(s) == Some((s.skip("token"@.len() as int), FilterProp::Token)),
        spec_tag(s, "face down"@) is Some ==> spec_parse_property_filter(s) == Some((s.skip("face down"@.len() as int), FilterProp::FaceDown)),
        spec_tag(s, "unblocked"@) is Some ==> spec_parse_property_filter(s) == Some((s.skip("unblocked"@.len() as int), FilterProp::Unblocked)),
        ({
            &&& spec_tag(s, "tapped"@) is None
            &&& spec_tag(s, "untapped"@) is None
            &&& spec_tag(s, "attacking"@) is None
            &&& spec_tag(s, "token"@) is None
            &&& spec_tag(s, "face down"@) is None
            &&& spec_tag(s, "unblocked"@) is None
        }) ==> spec_parse_property_filter(s) is None,
{
    reveal_strlit("tapped");
    reveal_strlit("untapped");
    reveal_strlit("attacking");
    reveal_strlit("token");
    reveal_strlit("face down");
    reveal_strlit("unblocked");
    lemma_phrases_exclusive(s, "untapped"@, "tapped"@, 0);
    lemma_phrases_exclusive(s, "attacking"@, "tapped"@, 0);
    lemma_phrases_exclusive(s, "attacking"@, "untapped"@, 0);
    lemma_phrases_exclusive(s, "token"@, "tapped"@, 1);
    lemma_phrases_exclusive(s, "token"@, "untapped"@, 0);
    lemma_phrases_exclusive(s, "token"@, "attacking"@, 0);
    lemma_phrases_exclusive(s, "face down"@, "tapped"@, 0);
    lemma_phrases_exclusive(s, "face down"@, "untapped"@, 0);
    lemma_phrases_exclusive(s, "face down"@, "attacking"@, 0);
    lemma_phrases_exclusive(s, "face down"@, "token"@, 0);
    lemma_phrases_exclusive(s, "unblocked"@, "tapped"@, 0);
    lemma_phrases_exclusive(s, "unblocked"@, "untapped"@, 2);
    lemma_phrases_exclusive(s, "unblocked"@, "attacking"@, 0);
    lemma_phrases_exclusive(s, "unblocked"@, "token"@, 0);
    lemma_phrases_exclusive(s, "unblocked"@, "face down"@, 0);
}

/// Text that starts with a duration phrase names that duration.
/// Text that starts with none of these phrases is no duration.
pub proof fn law_duration_phrases(s: Seq<char>)
    ensures
        spec_tag(s, "until end of turn"@) is Some ==> spec_parse_duration(s) == Some((s.skip("until end of turn"@.len() as int), Duration::UntilEndOfTurn)),
        spec_tag(s, "until end of combat"@) is Some ==> spec_parse_duration(s) == Some((s.skip("until end of combat"@.len() as int), Duration::UntilEndOfCombat)),
        spec_tag(s, "until your next turn"@) is Some ==> spec_parse_duration(s) == Some((s.skip("until your next turn"@.len() as int), Duration::UntilYourNextTurn)),
        ({
            &&& spec_tag(s, "until end of turn"@) is None
            &&& spec_tag(s, "until end of combat"@) is None
            &&& spec_tag(s, "until your next turn"@) is None
        }) ==> spec_parse_duration(s) is None,
{
    reveal_strlit("until end of turn");
    reveal_strlit("until end of combat");
    reveal_strlit("until your next turn");
    lemma_phrases_exclusive(s, "until end of combat"@, "until end of turn"@, 13);
    lemma_phrases_exclusive(s, "until your next turn"@, "until end of turn"@, 6);
    lemma_phrases_exclusive(s, "until your next turn"@, "until end of combat"@, 6);
}

/// Text that starts with a controller phrase names that controller: "you control" is you;
/// "an opponent controls" and "your opponents control" are the opponents.
/// Text that starts with none of these phrases is no controller.
pub proof fn law_controller_phrases(s: Seq<char>)
    ensures
        spec_tag(s, "you control"@) is Some ==> spec_parse_controller_suffix(s) == Some((s.skip("you control"@.len() as int), ControllerRef::You)),
        spec_tag(s, "an opponent controls"@) is Some ==> spec_parse_controller_suffix(s) == Some((s.skip("an opponent controls"@.len() as int), ControllerRef::Opponent)),
        spec_tag(s, "your opponents control"@) is Some ==> spec_parse_controller_suffix(s) == Some((s.skip("your opponents control"@.len() as int), ControllerRef::Opponent)),
        ({
            &&& spec_tag(s, "you control"@) is None
            &&& spec_tag(s, "an opponent controls"@) is None
            &&& spec_tag(s, "your opponents control"@) is None
        }) ==> spec_parse_controller_suffix(s) is None,
{
    reveal_strlit("you control");
    reveal_strlit("an opponent controls");
    reveal_strlit("your opponents control");
    lemma_phrases_exclusive(s, "an opponent controls"@, "you control"@, 0);
    lemma_phrases_exclusive(s, "your opponents control"@, "you control"@, 3);
    lemma_phrases_exclusive(s, "your opponents control"@, "an opponent controls"@, 0);
}

/// Text that starts with a condition phrase names that condition: it being your turn, the
/// source being tapped or untapped, or the hand size being 0.
/// Text that starts with none of these phrases is no condition.
pub proof fn law_inner_condition_phrases(s: Seq<char>)
    ensures
        spec_tag(s, "it's your turn"@) is Some ==> spec_parse_inner_condition(s) == Some((s.skip("it's your turn"@.len() as int), StaticCondition::DuringYourTurn)),
        spec_tag(s, "it is your turn"@) is Some ==> spec_parse_inner_condition(s) == Some((s.skip("it is your turn"@.len() as int), StaticCondition::DuringYourTurn)),
        spec_tag(s, "~ is tapped"@) is Some ==> spec_parse_inner_condition(s) == Some((s.skip("~ is tapped"@.len() as int), StaticCondition::SourceIsTapped)),
        spec_tag(s, "~ is untapped"@) is Some ==> spec_parse_inner_condition(s) == Some((s.skip("~ is untapped"@.len() as int), StaticCondition::Not { condition: Box::new(StaticCondition::SourceIsTapped) })),
        spec_tag(s, "you have no cards in hand"@) is Some ==> spec_parse_inner_condition(s) == Some((s.skip("you have no cards in hand"@.len() as int), StaticCondition::QuantityComparison {
                lhs: QuantityExpr::Ref { qty: QuantityRef::HandSize },
                comparator: Comparator::EQ,
                rhs: QuantityExpr::Fixed { value: 0 },
            })),
        ({
            &&& spec_tag(s, "it's your turn"@) is None
            &&& spec_tag(s, "it is your turn"@) is None
            &&& spec_tag(s, "~ is tapped"@) is None
            &&& spec_tag(s, "~ is untapped"@) is None
            &&& spec_tag(s, "you have no cards in hand"@) is None
        }) ==> spec_parse_inner_condition(s) is None,
{
    reveal_strlit("it's your turn");
    reveal_strlit("it is your turn");
    reveal_strlit("~ is tapped");
    reveal_strlit("~ is untapped");
    reveal_strlit("you have no cards in hand");
    lemma_phrases_exclusive(s, "it is your turn"@, "it's your turn"@, 2);
    lemma_phrases_exclusive(s, "~ is tapped"@, "it's your turn"@, 0);
    lemma_phrases_exclusive(s, "~ is tapped"@, "it is your turn"@, 0);
    lemma_phrases_exclusive(s, "~ is untapped"@, "it's your turn"@, 0);
    lemma_phrases_exclusive(s, "~ is untapped"@, "it is your turn"@, 0);
    lemma_phrases_exclusive(s, "~ is untapped"@, "~ is tapped"@, 5);
    lemma_phrases_exclusive(s, "you have no cards in hand"@, "it's your turn"@, 0);
    lemma_phrases_exclusive(s, "you have no cards in hand"@, "it is your turn"@, 0);
    lemma_phrases_exclusive(s, "you have no cards in hand"@, "~ is tapped"@, 0);
    lemma_phrases_exclusive(s, "you have no cards in hand"@, "~ is untapped"@, 0);
}

/// Text that starts with a color word names that color.
/// Text that starts with none of these words is no color.
pub proof fn law_color_phrases(s: Seq<char>)
    ensures
        spec_tag(s, "white"@) is Some ==> spec_parse_color(s) == Some((s.skip("white"@.len() as int), ManaColor::White)),
        spec_tag(s, "blue"@) is Some ==> spec_parse_color(s) == Some((s.skip("blue"@.len() as int), ManaColor::Blue)),
        spec_tag(s, "black"@) is Some ==> spec_parse_color(s) == Some((s.skip("black"@.len() as int), ManaColor::Black)),
        spec_tag(s, "red"@) is Some ==> spec_parse_color(s) == Some((s.skip("red"@.len() as int), ManaColor::Red)),
        spec_tag(s, "green"@) is Some ==> spec_parse_color(s) == Some((s.skip("green"@.len() as int), ManaColor::Green)),
        ({
            &&& spec_tag(s, "white"@) is None
            &&& spec_tag(s, "blue"@) is None
            &&& spec_tag(s, "black"@) is None
            &&& spec_tag(s, "red"@) is None
            &&& spec_tag(s, "green"@) is None
        }) ==> spec_parse_color(s) is None,
{
    reveal_strlit("white");
    reveal_strlit("blue");
    reveal_strlit("black");
    reveal_strlit("red");
    reveal_strlit("green");
    lemma_phrases_exclusive(s, "blue"@, "white"@, 0);
    lemma_phrases_exclusive(s, "black"@, "white"@, 0);
    lemma_phrases_exclusive(s, "black"@, "blue"@, 2);
    lemma_phrases_exclusive(s, "red"@, "white"@, 0);
    lemma_phrases_exclusive(s, "red"@, "blue"@, 0);
    lemma_phrases_exclusive(s, "red"@, "black"@, 0);
    lemma_phrases_exclusive(s, "green"@, "white"@, 0);
    lemma_phrases_exclusive(s, "green"@, "blue"@, 0);
    lemma_phrases_exclusive(s, "green"@, "black"@, 0);
    lemma_phrases_exclusive(s, "green"@, "red"@, 0);
}

/// Text that starts with a type word names that type.
/// Text that starts with none of these words is no type.
pub proof fn law_type_word_phrases(s: Seq<char>)
    ensures
        spec_tag(s, "creature"@) is Some ==> spec_parse_type_word(s) == Some((s.skip("creature"@.len() as int), TypeWord::Creature)),
        spec_tag(s, "artifact"@) is Some ==> spec_parse_type_word(s) == Some((s.skip("artifact"@.len() as int), TypeWord::Artifact)),
        spec_tag(s, "enchantment"@) is Some ==> spec_parse_type_word(s) == Some((s.skip("enchantment"@.len() as int), TypeWord::Enchantment)),
        spec_tag(s, "instant"@) is Some ==> spec_parse_type_word(s) == Some((s.skip("instant"@.len() as int), TypeWord::Instant)),
        spec_tag(s, "sorcery"@) is Some ==> spec_parse_type_word(s) == Some((s.skip("sorcery"@.len() as int), TypeWord::Sorcery)),
        spec_tag(s, "planeswalker"@) is Some ==> spec_parse_type_word(s) == Some((s.skip("planeswalker"@.len() as int), TypeWord::Planeswalker)),
        spec_tag(s, "land"@) is Some ==> spec_parse_type_word(s) == Some((s.skip("land"@.len() as int), TypeWord::Land)),
        spec_tag(s, "battle"@) is Some ==> spec_parse_type_word(s) == Some((s.skip("battle"@.len() as int), TypeWord::Battle)),
        spec_tag(s, "permanent"@) is Some ==> spec_parse_type_word(s) == Some((s.skip("permanent"@.len() as int), TypeWord::Permanent)),
        spec_tag(s, "card"@) is Some ==> spec_parse_type_word(s) == Some((s.skip("card"@.len() as int), TypeWord::Card)),
        ({
            &&& spec_tag(s, "creature"@) is None
            &&& spec_tag(s, "artifact"@) is None
            &&& spec_tag(s, "enchantment"@) is None
            &&& spec_tag(s, "instant"@) is None
            &&& spec_tag(s, "sorcery"@) is None
            &&& spec_tag(s, "planeswalker"@) is None
            &&& spec_tag(s, "land"@) is None
            &&& spec_tag(s, "battle"@) is None
            &&& spec_tag(s, "permanent"@) is None
            &&& spec_tag(s, "card"@) is None
        }) ==> spec_parse_type_word(s) is None,
{
    reveal_strlit("creature");
    reveal_strlit("artifact");
    reveal_strlit("enchantment");
    reveal_strlit("instant");
    reveal_strlit("sorcery");
    reveal_strlit("planeswalker");
    reveal_strlit("land");
    reveal_strlit("battle");
    reveal_strlit("permanent");
    reveal_strlit("card");
    lemma_phrases_exclusive(s, "artifact"@, "creature"@, 0);
    lemma_phrases_exclusive(s, "enchantment"@, "creature"@, 0);
    lemma_phrases_exclusive(s, "enchantment"@, "artifact"@, 0);
    lemma_phrases_exclusive(s, "instant"@, "creature"@, 0);
    lemma_phrases_exclusive(s, "instant"@, "artifact"@, 0);
    lemma_phrases_exclusive(s, "instant"@, "enchantment"@, 0);
    lemma_phrases_exclusive(s, "sorcery"@, "creature"@, 0);
    lemma_phrases_exclusive(s, "sorcery"@, "artifact"@, 0);
    lemma_phrases_exclusive(s, "sorcery"@, "enchantment"@, 0);
    lemma_phrases_exclusive(s, "sorcery"@, "instant"@, 0);
    lemma_phrases_exclusive(s, "planeswalker"@, "creature"@, 0);
    lemma_phrases_exclusive(s, "planeswalker"@, "artifact"@, 0);
    lemma_phrases_exclusive(s, "planeswalker"@, "enchantment"@, 0);
    lemma_phrases_exclusive(s, "planeswalker"@, "instant"@, 0);
    lemma_phrases_exclusive(s, "planeswalker"@, "sorcery"@, 0);
    lemma_phrases_exclusive(s, "land"@, "creature"@, 0);
    lemma_phrases_exclusive(s, "land"@, "artifact"@, 0);
    lemma_phrases_exclusive(s, "land"@, "enchantment"@, 0);
    lemma_phrases_exclusive(s, "land"@, "instant"@, 0);
    lemma_phrases_exclusive(s, "land"@, "sorcery"@, 0);
    lemma_phrases_exclusive(s, "land"@, "planeswalker"@, 0);
    lemma_phrases_exclusive(s, "battle"@, "creature"@, 0);
    lemma_phrases_exclusive(s, "battle"@, "artifact"@, 0);
    lemma_phrases_exclusive(s, "battle"@, "enchantment"@, 0);
    lemma_phrases_exclusive(s, "battle"@, "instant"@, 0);
    lemma_phrases_exclusive(s, "battle"@, "sorcery"@, 0);
    lemma_phrases_exclusive(s, "battle"@, "planeswalker"@, 0);
    lemma_phrases_exclusive(s, "battle"@, "land"@, 0);
    lemma_phrases_exclusive(s, "permanent"@, "creature"@, 0);
    lemma_phrases_exclusive(s, "permanent"@, "artifact"@, 0);
    lemma_phrases_exclusive(s, "permanent"@, "enchantment"@, 0);
    lemma_phrases_exclusive(s, "permanent"@, "instant"@, 0);
    lemma_phrases_exclusive(s, "permanent"@, "sorcery"@, 0);
    lemma_phrases_exclusive(s, "permanent"@, "planeswalker"@, 1);
    lemma_phrases_exclusive(s, "permanent"@, "land"@, 0);
    lemma_phrases_exclusive(s, "permanent"@, "battle"@, 0);
    lemma_phrases_exclusive(s, "card"@, "creature"@, 1);
    lemma_phrases_exclusive(s, "card"@, "artifact"@, 0);
    lemma_phrases_exclusive(s, "card"@, "enchantment"@, 0);
    lemma_phrases_exclusive(s, "card"@, "instant"@, 0);
    lemma_phrases_exclusive(s, "card"@, "sorcery"@, 0);
    lemma_phrases_exclusive(s, "card"@, "planeswalker"@, 0);
    lemma_phrases_exclusive(s, "card"@, "land"@, 0);
    lemma_phrases_exclusive(s, "card"@, "battle"@, 0);
    lemma_phrases_exclusive(s, "card"@, "permanent"@, 0);
}

/// A condition phrase is introduced by "if " or "as long as "; what follows the
/// keyword is read as a condition phrase (see `law_inner_condition_phrases`), and
/// text with neither keyword is no condition.
pub proof fn law_condition_keywords(s: Seq<char>)
    ensures
        spec_tag(s, "if "@) matches Some(r) ==> spec_parse_condition(s) == spec_parse_inner_condition(r),
        spec_tag(s, "as long as "@) matches Some(r) ==> spec_parse_condition(s) == spec_parse_inner_condition(r),
        spec_tag(s, "if "@) is None && spec_tag(s, "as long as "@) is None ==> spec_parse_condition(s) is None,
{
    reveal_strlit("if ");
    reveal_strlit("as long as ");
    lemma_phrases_exclusive(s, "if "@, "as long as "@, 0);
}

} // verus!
