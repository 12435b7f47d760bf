//! Target phrases: "target creature", "target artifact or enchantment you control".

use vstd::prelude::*;

use crate::ability::{
    lemma_any_of_view, type_filter_views, type_word, words_of, ControllerRef, FilterProp, TargetFilter, TargetFilterView, TypeFilter, TypeFilterView, TypeWord,
    TypedFilter, TypedFilterView,
};
use crate::parser::text::{spec_space1, spec_tag, space1, tag, OracleError};
use crate::types::ManaColor;

verus! {

/// The color word `s` starts with, and the text after it.
pub open spec fn spec_parse_color(s: Seq<char>) -> Option<(Seq<char>, ManaColor)> {
    if spec_tag(s, "white"@) is Some {
        Some((spec_tag(s, "white"@).unwrap(), ManaColor::White))
    } else if spec_tag(s, "blue"@) is Some {
        Some((spec_tag(s, "blue"@).unwrap(), ManaColor::Blue))
    } else if spec_tag(s, "black"@) is Some {
        Some((spec_tag(s, "black"@).unwrap(), ManaColor::Black))
    } else if spec_tag(s, "red"@) is Some {
        Some((spec_tag(s, "red"@).unwrap(), ManaColor::Red))
    } else if spec_tag(s, "green"@) is Some {
        Some((spec_tag(s, "green"@).unwrap(), ManaColor::Green))
    } else {
        None
    }
}

/// Parse a color word.
pub fn parse_color(input: &str) -> (r: Result<(&str, ManaColor), OracleError>)
    ensures
        match spec_parse_color(input@) {
            Some((rest, c)) => r matches Ok((x, d)) && x@ == rest && d == c,
            None => r is Err,
        },
{
    if let Some(rest) = tag(input, "white") {
        return Ok((rest, ManaColor::White));
    }
    if let Some(rest) = tag(input, "blue") {
        return Ok((rest, ManaColor::Blue));
    }
    if let Some(rest) = tag(input, "black") {
        return Ok((rest, ManaColor::Black));
    }
    if let Some(rest) = tag(input, "red") {
        return Ok((rest, ManaColor::Red));
    }
    if let Some(rest) = tag(input, "green") {
        return Ok((rest, ManaColor::Green));
    }
    Err(OracleError)
}

/// A color word followed by spaces, both consumed.
pub open spec fn spec_parse_color_prefix(s: Seq<char>) -> Option<(Seq<char>, ManaColor)> {
    match spec_parse_color(s) {
        Some((r, c)) => match spec_space1(r) {
            Some(r2) => Some((r2, c)),
            None => None,
        },
        None => None,
    }
}

fn parse_color_prefix(input: &str) -> (r: Result<(&str, ManaColor), OracleError>)
    ensures
        match spec_parse_color_prefix(input@) {
            Some((rest, c)) => r matches Ok((x, d)) && x@ == rest && d == c,
            None => r is Err,
        },
{
    let (rest, c) = parse_color(input)?;
    match space1(rest) {
        Some(r) => Ok((r, c)),
        None => Err(OracleError),
    }
}

/// The controller phrase `s` starts with, and the text after it.
pub open spec fn spec_parse_controller_suffix(s: Seq<char>) -> Option<(Seq<char>, ControllerRef)> {
    if spec_tag(s, "you control"@) is Some {
        Some((spec_tag(s, "you control"@).unwrap(), ControllerRef::You))
    } else if spec_tag(s, "an opponent controls"@) is Some {
        Some((spec_tag(s, "an opponent controls"@).unwrap(), ControllerRef::Opponent))
    } else if spec_tag(s, "your opponents control"@) is Some {
        Some((spec_tag(s, "your opponents control"@).unwrap(), ControllerRef::Opponent))
    } else {
        None
    }
}

/// Parse a controller suffix: "you control", "an opponent controls".
pub fn parse_controller_suffix(input: &str) -> (r: Result<(&str, ControllerRef), OracleError>)
    ensures
        match spec_parse_controller_suffix(input@) {
            Some((rest, c)) => r matches Ok((x, d)) && x@ == rest && d == c,
            None => r is Err,
        },
{
    if let Some(rest) = tag(input, "you control") {
        return Ok((rest, ControllerRef::You));
    }
    if let Some(rest) = tag(input, "an opponent controls") {
        return Ok((rest, ControllerRef::Opponent));
    }
    if let Some(rest) = tag(input, "your opponents control") {
        return Ok((rest, ControllerRef::Opponent));
    }
    Err(OracleError)
}

/// The type word `s` starts with, and the text after it.
pub open spec fn spec_parse_type_word(s: Seq<char>) -> Option<(Seq<char>, TypeWord)> {
    if spec_tag(s, "creature"@) is Some {
        Some((spec_tag(s, "creature"@).unwrap(), TypeWord::Creature))
    } else if spec_tag(s, "artifact"@) is Some {
        Some((spec_tag(s, "artifact"@).unwrap(), TypeWord::Artifact))
    } else if spec_tag(s, "enchantment"@) is Some {
        Some((spec_tag(s, "enchantment"@).unwrap(), TypeWord::Enchantment))
    } else if spec_tag(s, "instant"@) is Some {
        Some((spec_tag(s, "instant"@).unwrap(), TypeWord::Instant))
    } else if spec_tag(s, "sorcery"@) is Some {
        Some((spec_tag(s, "sorcery"@).unwrap(), TypeWord::Sorcery))
    } else if spec_tag(s, "planeswalker"@) is Some {
        Some((spec_tag(s, "planeswalker"@).unwrap(), TypeWord::Planeswalker))
    } else if spec_tag(s, "land"@) is Some {
        Some((spec_tag(s, "land"@).unwrap(), TypeWord::Land))
    } else if spec_tag(s, "battle"@) is Some {
        Some((spec_tag(s, "battle"@).unwrap(), TypeWord::Battle))
    } else if spec_tag(s, "permanent"@) is Some {
        Some((spec_tag(s, "permanent"@).unwrap(), TypeWord::Permanent))
    } else if spec_tag(s, "card"@) is Some {
        Some((spec_tag(s, "card"@).unwrap(), TypeWord::Card))
    } else {
        None
    }
}

/// Parse a single type word.
fn parse_type_filter_word(input: &str) -> (r: Result<(&str, TypeFilter), OracleError>)
    ensures
        match spec_parse_type_word(input@) {
            Some((rest, w)) => r matches Ok((x, t)) && x@ == rest && type_word(t) == w && !(t is AnyOf),
            None => r is Err,
        },
{
    if let Some(rest) = tag(input, "creature") {
        return Ok((rest, TypeFilter::Creature));
    }
    if let Some(rest) = tag(input, "artifact") {
        return Ok((rest, TypeFilter::Artifact));
    }
    if let Some(rest) = tag(input, "enchantment") {
        return Ok((rest, TypeFilter::Enchantment));
    }
    if let Some(rest) = tag(input, "instant") {
        return Ok((rest, TypeFilter::Instant));
    }
    if let Some(rest) = tag(input, "sorcery") {
        return Ok((rest, TypeFilter::Sorcery));
    }
    if let Some(rest) = tag(input, "planeswalker") {
        return Ok((rest, TypeFilter::Planeswalker));
    }
    if let Some(rest) = tag(input, "land") {
        return Ok((rest, TypeFilter::Land));
    }
    if let Some(rest) = tag(input, "battle") {
        return Ok((rest, TypeFilter::Battle));
    }
    if let Some(rest) = tag(input, "permanent") {
        return Ok((rest, TypeFilter::Permanent));
    }
    if let Some(rest) = tag(input, "card") {
        return Ok((rest, TypeFilter::Card));
    }
    Err(OracleError)
}

/// The further type words of a list, each after " or ", and the text after them;
/// an " or " not followed by a type word is left unconsumed.
pub open spec fn spec_more_type_words(s: Seq<char>) -> (Seq<char>, Seq<TypeWord>)
    decreases s.len(),
{
    match spec_tag(s, " or "@) {
        Some(r) => match spec_parse_type_word(r) {
            Some((r2, w)) => {
                let (r3, ws) = spec_more_type_words(r2);
                (r3, seq![w] + ws)
            },
            None => (s, Seq::empty()),
        },
        None => (s, Seq::empty()),
    }
}

/// A list of type words joined by " or ", and the text after it.
pub open spec fn spec_parse_type_list(s: Seq<char>) -> Option<(Seq<char>, Seq<TypeWord>)> {
    match spec_parse_type_word(s) {
        Some((r, w)) => {
            let (r2, ws) = spec_more_type_words(r);
            Some((r2, seq![w] + ws))
        },
        None => None,
    }
}

/// Parse a list of type words joined by " or ".
fn parse_type_list(input: &str) -> (r: Result<(&str, Vec<TypeFilter>), OracleError>)
    ensures
        match spec_parse_type_list(input@) {
            Some((rest, ws)) => r matches Ok((x, v)) && x@ == rest && words_of(v@) == ws && (forall|
                i: int,
            | 0 <= i < v@.len() ==> !(#[trigger] v@[i] is AnyOf)),
            None => r is Err,
        },
{
    let (rest, first) = parse_type_filter_word(input)?;
    let ghost w0 = type_word(first);
    let mut types: Vec<TypeFilter> = Vec::new();
    types.push(first);
    let mut remaining = rest;
    loop
        invariant
            types@.len() >= 1,
            words_of(types@)[0] == w0,
            forall|i: int| 0 <= i < types@.len() ==> !(#[trigger] types@[i] is AnyOf),
            spec_more_type_words(rest@) == (spec_more_type_words(remaining@).0, words_of(
                types@,
            ).drop_first() + spec_more_type_words(remaining@).1),
        ensures
            types@.len() >= 1,
            words_of(types@)[0] == w0,
            forall|i: int| 0 <= i < types@.len() ==> !(#[trigger] types@[i] is AnyOf),
            spec_more_type_words(rest@) == (remaining@, words_of(types@).drop_first()),
        decreases remaining@.len(),
    {
        match tag(remaining, " or ") {
            Some(r) => match parse_type_filter_word(r) {
                Ok((r2, t)) => {
                    let ghost old_types = types@;
                    types.push(t);
                    remaining = r2;
                    proof {
                        assert(words_of(types@).drop_first() =~= words_of(old_types).drop_first()
                            + seq![type_word(t)]);
                        assert(words_of(types@)[0] == words_of(old_types)[0]);
                        let m = spec_more_type_words(remaining@);
                        assert(words_of(old_types).drop_first() + (seq![type_word(t)] + m.1)
                            =~= words_of(types@).drop_first() + m.1);
                    }
                },
                Err(_) => {
                    proof {
                        assert(spec_more_type_words(remaining@).1 =~= Seq::<TypeWord>::empty());
                        assert(words_of(types@).drop_first() + Seq::<TypeWord>::empty() =~= words_of(
                            types@,
                        ).drop_first());
                    }
                    break ;
                },
            },
            None => {
                proof {
                    assert(words_of(types@).drop_first() + Seq::<TypeWord>::empty() =~= words_of(
                        types@,
                    ).drop_first());
                }
                break ;
            },
        }
    }
    assert(words_of(types@) =~= seq![w0] + words_of(types@).drop_first());
    Ok((remaining, types))
}

/// The property a color prefix contributes: the color is kept (CR 105.2).
pub open spec fn color_properties(color: Option<ManaColor>) -> Seq<FilterProp> {
    match color {
        Some(c) => seq![FilterProp::HasColor { color: c }],
        None => Seq::empty(),
    }
}

/// The typed filter built from type filters, an optional color and an optional
/// controller: a single type filter stands alone, several are joined into one any-of
/// in their order, and the color becomes a property.
pub open spec fn spec_build_type_filter(
    types: Seq<TypeFilter>,
    color: Option<ManaColor>,
    controller: Option<ControllerRef>,
) -> TargetFilterView {
    TargetFilterView::Typed(
        TypedFilterView {
            type_filters: if types.len() == 1 {
                type_filter_views(types)
            } else {
                seq![TypeFilterView::AnyOf(type_filter_views(types))]
            },
            controller,
            properties: color_properties(color),
        },
    )
}

/// The same filter, for a list of type words.
pub open spec fn spec_type_filter(
    ws: Seq<TypeWord>,
    color: Option<ManaColor>,
    controller: Option<ControllerRef>,
) -> TargetFilterView {
    TargetFilterView::Typed(
        TypedFilterView {
            type_filters: if ws.len() == 1 {
                seq![TypeFilterView::Word(ws[0])]
            } else {
                seq![TypeFilterView::AnyOf(ws.map_values(|w: TypeWord| TypeFilterView::Word(w)))]
            },
            controller,
            properties: color_properties(color),
        },
    )
}

proof fn lemma_simple_views(v: Seq<TypeFilter>)
    requires
        forall|i: int| 0 <= i < v.len() ==> !(#[trigger] v[i] is AnyOf),
    ensures
        type_filter_views(v) == words_of(v).map_values(|w: TypeWord| TypeFilterView::Word(w)),
{
    assert(type_filter_views(v) =~= words_of(v).map_values(|w: TypeWord| TypeFilterView::Word(w)));
}

proof fn lemma_build_from_words(types: Seq<TypeFilter>, color: Option<ManaColor>, controller: Option<ControllerRef>)
    requires
        types.len() >= 1,
        forall|i: int| 0 <= i < types.len() ==> !(#[trigger] types[i] is AnyOf),
    ensures
        spec_build_type_filter(types, color, controller) == spec_type_filter(words_of(types), color, controller),
{
    lemma_simple_views(types);
    if types.len() == 1 {
        assert(type_filter_views(types) =~= seq![TypeFilterView::Word(words_of(types)[0])]);
    }
}

/// Build a `TargetFilter` from parsed components.
fn build_type_filter(types: Vec<TypeFilter>, color: Option<ManaColor>, controller: Option<
    ControllerRef,
>) -> (r: TargetFilter)
    ensures
        r@ == spec_build_type_filter(types@, color, controller),
{
    let ghost ts = types@;
    let type_filters: Vec<TypeFilter> = if types.len() == 1 {
        types
    } else {
        proof {
            lemma_any_of_view(types);
        }
        let mut v: Vec<TypeFilter> = Vec::new();
        v.push(TypeFilter::AnyOf(types));
        v
    };
    let mut properties: Vec<FilterProp> = Vec::new();
    match color {
        Some(c) => properties.push(FilterProp::HasColor { color: c }),
        None => {},
    }
    let r = TargetFilter::Typed(TypedFilter { type_filters, controller, properties });
    proof {
        if ts.len() == 1 {
            assert(r@->Typed_0.type_filters =~= type_filter_views(ts));
        } else {
            assert(r@->Typed_0.type_filters =~= seq![TypeFilterView::AnyOf(type_filter_views(ts))]);
        }
        assert(r@->Typed_0.properties =~= color_properties(color));
    }
    r
}

/// A type phrase: an optional color prefix (kept as a color property), type words
/// joined by " or ", and an optional controller suffix after spaces.
pub open spec fn spec_parse_type_phrase(s: Seq<char>) -> Option<(Seq<char>, TargetFilterView)> {
    let (s1, color) = match spec_parse_color_prefix(s) {
        Some((r, c)) => (r, Some(c)),
        None => (s, None),
    };
    match spec_parse_type_list(s1) {
        Some((s2, ws)) => {
            let (s3, controller) = match spec_space1(s2) {
                Some(r) => match spec_parse_controller_suffix(r) {
                    Some((r4, c)) => (r4, Some(c)),
                    None => (s2, None),
                },
                None => (s2, None),
            };
            Some((s3, spec_type_filter(ws, color, controller)))
        },
        None => None,
    }
}

/// Parse a type phrase into a `TargetFilter`.
pub fn parse_type_phrase(input: &str) -> (r: Result<(&str, TargetFilter), OracleError>)
    ensures
        match spec_parse_type_phrase(input@) {
            Some((rest, f)) => r matches Ok((x, g)) && x@ == rest && g@ == f,
            None => r is Err,
        },
{
    let (rest, color_opt) = match parse_color_prefix(input) {
        Ok((r, c)) => (r, Some(c)),
        Err(_) => (input, None),
    };
    let (rest, types) = parse_type_list(rest)?;
    let (rest, controller) = match space1(rest) {
        Some(r) => match parse_controller_suffix(r) {
            Ok((r4, c)) => (r4, Some(c)),
            Err(_) => (rest, None),
        },
        None => (rest, None),
    };
    proof {
        lemma_build_from_words(types@, color_opt, controller);
    }
    let filter = build_type_filter(types, color_opt, controller);
    Ok((rest, filter))
}

/// "target" and spaces, then a type phrase.
pub open spec fn spec_parse_target_phrase(s: Seq<char>) -> Option<(Seq<char>, TargetFilterView)> {
    match spec_tag(s, "target"@) {
        Some(r) => match spec_space1(r) {
            Some(r2) => spec_parse_type_phrase(r2),
            None => None,
        },
        None => None,
    }
}

/// Parse a "target <type phrase>" from Oracle text.
pub fn parse_target_phrase(input: &str) -> (r: Result<(&str, TargetFilter), OracleError>)
    ensures
        match spec_parse_target_phrase(input@) {
            Some((rest, f)) => r matches Ok((x, g)) && x@ == rest && g@ == f,
            None => r is Err,
        },
{
    match tag(input, "target") {
        Some(r) => match space1(r) {
            Some(r2) => parse_type_phrase(r2),
            None => Err(OracleError),
        },
        None => Err(OracleError),
    }
}

/// Information in the text is not lost: a type phrase that starts with a color word
/// records that color in its filter, so "red creature" and "creature" parse to
/// different filters.
pub proof fn law_type_phrase_keeps_color(s: Seq<char>)
    ensures
        spec_parse_color_prefix(s) matches Some((_, c)) ==> (spec_parse_type_phrase(s) matches Some((_, f))
            ==> f->Typed_0.properties.contains(FilterProp::HasColor { color: c })),
        spec_parse_color_prefix(s) is None ==> (spec_parse_type_phrase(s) matches Some((_, f))
            ==> f->Typed_0.properties.len() == 0),
{
    if let Some((_, c)) = spec_parse_color_prefix(s) {
        if let Some((_, f)) = spec_parse_type_phrase(s) {
            assert(f->Typed_0.properties[0] == FilterProp::HasColor { color: c });
        }
    }
}


/// The controller of a type phrase is the one the controller phrase after the type
/// words names ("creature your opponents control" is a creature the opponents
/// control), and the phrase ends after it; with no controller phrase there (after
/// spaces), the filter names no controller and the phrase ends with the type words.
pub proof fn law_type_phrase_takes_controller_suffix(s: Seq<char>)
    ensures
        ({
            let s1 = match spec_parse_color_prefix(s) {
                Some((r, _)) => r,
                None => s,
            };
            spec_parse_type_list(s1) matches Some((s2, _)) ==> (spec_parse_type_phrase(s) matches Some((rest, f))
                && match spec_space1(s2) {
                Some(r) => match spec_parse_controller_suffix(r) {
                    Some((r4, c)) => rest == r4 && f->Typed_0.controller == Some(c),
                    None => rest == s2 && f->Typed_0.controller is None,
                },
                None => rest == s2 && f->Typed_0.controller is None,
            })
        }),
{
}

} // verus!
