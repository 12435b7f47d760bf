//! Every phrase parser, when it succeeds, consumes a non-empty prefix of its input
//! and hands back exactly the text after it.

use vstd::prelude::*;

use crate::parser::condition::{spec_parse_condition, spec_parse_inner_condition};
use crate::parser::duration::spec_parse_duration;
use crate::parser::filter::{spec_parse_property_filter, spec_parse_zone_filter};
use crate::parser::target::{
    spec_more_type_words, spec_parse_color, spec_parse_color_prefix, spec_parse_controller_suffix,
    spec_parse_target_phrase, spec_parse_type_list, spec_parse_type_phrase, spec_parse_type_word,
};
use crate::parser::text::{leading_spaces, spec_space1, spec_tag};

verus! {

/// `rest` is what is left of `s` once a non-empty prefix is taken off.
pub open spec fn is_rest_of(s: Seq<char>, rest: Seq<char>) -> bool {
    rest.len() < s.len() && rest == s.skip(s.len() - rest.len())
}

/// `rest` is `s` itself or what is left of it after a non-empty prefix.
pub open spec fn is_rest_or_same(s: Seq<char>, rest: Seq<char>) -> bool {
    rest == s || is_rest_of(s, rest)
}

proof fn lemma_rest_trans(a: Seq<char>, b: Seq<char>, c: Seq<char>)
    requires
        is_rest_of(a, b),
        is_rest_or_same(b, c),
    ensures
        is_rest_of(a, c),
{
    if c != b {
        assert(c =~= a.skip(a.len() - c.len()));
    }
}

proof fn lemma_rest_or_same_trans(a: Seq<char>, b: Seq<char>, c: Seq<char>)
    requires
        is_rest_or_same(a, b),
        is_rest_or_same(b, c),
    ensures
        is_rest_or_same(a, c),
{
    if b != a {
        lemma_rest_trans(a, b, c);
    }
}

proof fn lemma_tag_rest(s: Seq<char>, p: Seq<char>)
    ensures
        spec_tag(s, p) matches Some(r) ==> is_rest_of(s, r),
{
    if spec_tag(s, p) is Some {
        assert(s.skip(p.len() as int) =~= s.skip(s.len() - (s.len() - p.len())));
    }
}

proof fn lemma_leading_spaces_le(s: Seq<char>)
    ensures
        leading_spaces(s) <= s.len(),
    decreases s.len(),
{
    if s.len() > 0 {
        lemma_leading_spaces_le(s.drop_first());
    }
}

proof fn lemma_space1_rest(s: Seq<char>)
    ensures
        spec_space1(s) matches Some(r) ==> is_rest_of(s, r),
{
    lemma_leading_spaces_le(s);
    let k = leading_spaces(s) as int;
    if k >= 1 {
        assert(s.skip(k) =~= s.skip(s.len() - (s.len() - k)));
    }
}

proof fn lemma_type_word_rest(s: Seq<char>)
    ensures
        spec_parse_type_word(s) matches Some((r, _)) ==> is_rest_of(s, r),
{
    lemma_tag_rest(s, "creature"@);
    lemma_tag_rest(s, "artifact"@);
    lemma_tag_rest(s, "enchantment"@);
    lemma_tag_rest(s, "instant"@);
    lemma_tag_rest(s, "sorcery"@);
    lemma_tag_rest(s, "planeswalker"@);
    lemma_tag_rest(s, "land"@);
    lemma_tag_rest(s, "battle"@);
    lemma_tag_rest(s, "permanent"@);
    lemma_tag_rest(s, "card"@);
}

proof fn lemma_more_type_words_rest(s: Seq<char>)
    ensures
        is_rest_or_same(s, spec_more_type_words(s).0),
    decreases s.len(),
{
    lemma_tag_rest(s, " or "@);
    match spec_tag(s, " or "@) {
        Some(r) => {
            lemma_type_word_rest(r);
            match spec_parse_type_word(r) {
                Some((r2, _)) => {
                    lemma_more_type_words_rest(r2);
                    lemma_rest_trans(r, r2, spec_more_type_words(r2).0);
                    lemma_rest_trans(s, r, spec_more_type_words(r2).0);
                },
                None => {},
            }
        },
        None => {},
    }
}

proof fn lemma_color_rest(s: Seq<char>)
    ensures
        spec_parse_color(s) matches Some((r, _)) ==> is_rest_of(s, r),
        spec_parse_color_prefix(s) matches Some((r, _)) ==> is_rest_of(s, r),
{
    lemma_tag_rest(s, "white"@);
    lemma_tag_rest(s, "blue"@);
    lemma_tag_rest(s, "black"@);
    lemma_tag_rest(s, "red"@);
    lemma_tag_rest(s, "green"@);
    if let Some((r, _)) = spec_parse_color(s) {
        lemma_space1_rest(r);
        if let Some(r2) = spec_space1(r) {
            lemma_rest_trans(s, r, r2);
        }
    }
}

proof fn lemma_controller_rest(s: Seq<char>)
    ensures
        spec_parse_controller_suffix(s) matches Some((r, _)) ==> is_rest_of(s, r),
{
    lemma_tag_rest(s, "you control"@);
    lemma_tag_rest(s, "an opponent controls"@);
    lemma_tag_rest(s, "your opponents control"@);
}

proof fn lemma_type_phrase_rest(s: Seq<char>)
    ensures
        spec_parse_type_phrase(s) matches Some((r, _)) ==> is_rest_of(s, r),
        spec_parse_type_list(s) matches Some((r, _)) ==> is_rest_of(s, r),
{
    lemma_color_rest(s);
    let s1 = match spec_parse_color_prefix(s) {
        Some((r, _)) => r,
        None => s,
    };
    assert(is_rest_or_same(s, s1));
    lemma_type_word_rest(s);
    if let Some((r, _)) = spec_parse_type_word(s) {
        lemma_more_type_words_rest(r);
        lemma_rest_trans(s, r, spec_more_type_words(r).0);
    }
    lemma_type_word_rest(s1);
    if let Some((r, _)) = spec_parse_type_word(s1) {
        lemma_more_type_words_rest(r);
        lemma_rest_trans(s1, r, spec_more_type_words(r).0);
        let s2 = spec_more_type_words(r).0;
        lemma_space1_rest(s2);
        if let Some(r3) = spec_space1(s2) {
            lemma_controller_rest(r3);
            if let Some((r4, _)) = spec_parse_controller_suffix(r3) {
                lemma_rest_trans(s2, r3, r4);
                lemma_rest_trans(s1, s2, r4);
            }
        }
        lemma_rest_or_same_trans(s, s1, s2);
        if s1 != s {
            lemma_rest_trans(s, s1, s2);
        }
        if let Some((r4, _)) = spec_parse_type_phrase(s) {
            if r4 != s2 {
                lemma_rest_trans(s1, s2, r4);
            }
            if s1 != s {
                lemma_rest_trans(s, s1, r4);
            }
        }
    }
}

proof fn lemma_inner_condition_rest(s: Seq<char>)
    ensures
        spec_parse_inner_condition(s) matches Some((r, _)) ==> is_rest_of(s, r),
{
    lemma_tag_rest(s, "it's your turn"@);
    lemma_tag_rest(s, "it is your turn"@);
    lemma_tag_rest(s, "~ is tapped"@);
    lemma_tag_rest(s, "~ is untapped"@);
    lemma_tag_rest(s, "you have no cards in hand"@);
}

/// Each phrase parser that succeeds has consumed a non-empty prefix of its input and
/// returns exactly the text that follows it.
pub proof fn law_parsers_consume_a_prefix(s: Seq<char>)
    ensures
        spec_parse_duration(s) matches Some((r, _)) ==> is_rest_of(s, r),
        spec_parse_condition(s) matches Some((r, _)) ==> is_rest_of(s, r),
        spec_parse_zone_filter(s) matches Some((r, _)) ==> is_rest_of(s, r),
        spec_parse_property_filter(s) matches Some((r, _)) ==> is_rest_of(s, r),
        spec_parse_controller_suffix(s) matches Some((r, _)) ==> is_rest_of(s, r),
        spec_parse_type_phrase(s) matches Some((r, _)) ==> is_rest_of(s, r),
        spec_parse_target_phrase(s) matches Some((r, _)) ==> is_rest_of(s, r),
{
    lemma_tag_rest(s, "until end of turn"@);
    lemma_tag_rest(s, "until end of combat"@);
    lemma_tag_rest(s, "until your next turn"@);
    lemma_tag_rest(s, "if "@);
    lemma_tag_rest(s, "as long as "@);
    if let Some(r) = spec_tag(s, "if "@) {
        lemma_inner_condition_rest(r);
        if let Some((r2, _)) = spec_parse_inner_condition(r) {
            lemma_rest_trans(s, r, r2);
        }
    }
    if let Some(r) = spec_tag(s, "as long as "@) {
        lemma_inner_condition_rest(r);
        if let Some((r2, _)) = spec_parse_inner_condition(r) {
            lemma_rest_trans(s, r, r2);
        }
    }
    lemma_tag_rest(s, "on the battlefield"@);
    lemma_tag_rest(s, "in your graveyard"@);
    lemma_tag_rest(s, "in a graveyard"@);
    lemma_tag_rest(s, "in your hand"@);
    lemma_tag_rest(s, "in a player's hand"@);
    lemma_tag_rest(s, "in exile"@);
    lemma_tag_rest(s, "in your library"@);
    lemma_tag_rest(s, "on the stack"@);
    lemma_tag_rest(s, "tapped"@);
    lemma_tag_rest(s, "untapped"@);
    lemma_tag_rest(s, "attacking"@);
    lemma_tag_rest(s, "token"@);
    lemma_tag_rest(s, "face down"@);
    lemma_tag_rest(s, "unblocked"@);
    lemma_controller_rest(s);
    lemma_type_phrase_rest(s);
    lemma_tag_rest(s, "target"@);
    if let Some(r) = spec_tag(s, "target"@) {
        lemma_space1_rest(r);
        if let Some(r2) = spec_space1(r) {
            lemma_type_phrase_rest(r2);
            lemma_rest_trans(s, r, r2);
            if let Some((r3, _)) = spec_parse_type_phrase(r2) {
                lemma_rest_trans(s, r2, r3);
            }
        }
    }
}

} // verus!
