use phase_engine::ability::{
    Comparator, ControllerRef, FilterProp, QuantityExpr, QuantityRef, StaticCondition, TargetFilter, TypeFilter,
};
use phase_engine::ability::Duration;
use phase_engine::parser::condition::parse_condition;
use phase_engine::parser::context::ParseContext;
use phase_engine::parser::duration::parse_duration;
use phase_engine::parser::filter::{parse_property_filter, parse_zone_filter};
use phase_engine::parser::target::{parse_controller_suffix, parse_target_phrase, parse_type_phrase};
use phase_engine::types::{ManaColor, Zone};

#[test]
fn test_parse_condition_your_turn() {
    let (rest, c) = parse_condition("if it's your turn, do").unwrap();
    assert_eq!(rest, ", do");
    assert_eq!(c, StaticCondition::DuringYourTurn);
}

#[test]
fn test_parse_condition_as_long_as_tapped() {
    let (rest, c) = parse_condition("as long as ~ is tapped").unwrap();
    assert_eq!(rest, "");
    assert!(matches!(c, StaticCondition::SourceIsTapped));
}

#[test]
fn test_parse_condition_no_cards() {
    let (rest, c) = parse_condition("if you have no cards in hand").unwrap();
    assert_eq!(rest, "");
    match c {
        StaticCondition::QuantityComparison { comparator, rhs, .. } => {
            assert_eq!(comparator, Comparator::EQ);
            assert_eq!(rhs, QuantityExpr::Fixed { value: 0 });
        }
        _ => panic!("expected QuantityComparison"),
    }
}

#[test]
fn test_parse_condition_failure() {
    assert!(parse_condition("when something happens").is_err());
}

#[test]
fn parse_condition_untapped_and_hand_size_forms() {
    let (rest, c) = parse_condition("as long as ~ is untapped, it").unwrap();
    assert_eq!(rest, ", it");
    assert_eq!(c, StaticCondition::Not { condition: Box::new(StaticCondition::SourceIsTapped) });
    let (_, c2) = parse_condition("if you have no cards in hand").unwrap();
    assert_eq!(
        c2,
        StaticCondition::QuantityComparison {
            lhs: QuantityExpr::Ref { qty: QuantityRef::HandSize },
            comparator: Comparator::EQ,
            rhs: QuantityExpr::Fixed { value: 0 },
        }
    );
    // "if" must be followed by a known condition; "as long as" alone is not one.
    assert!(parse_condition("if").is_err());
    assert!(parse_condition("as long as it rains").is_err());
}

#[test]
fn test_parse_duration_end_of_turn() {
    let (rest, d) = parse_duration("until end of turn.").unwrap();
    assert_eq!(d, Duration::UntilEndOfTurn);
    assert_eq!(rest, ".");
}

#[test]
fn test_parse_duration_end_of_combat() {
    let (rest, d) = parse_duration("until end of combat").unwrap();
    assert_eq!(d, Duration::UntilEndOfCombat);
    assert_eq!(rest, "");
}

#[test]
fn test_parse_duration_next_turn() {
    let (rest, d) = parse_duration("until your next turn and").unwrap();
    assert_eq!(d, Duration::UntilYourNextTurn);
    assert_eq!(rest, " and");
}

#[test]
fn test_parse_duration_failure() {
    assert!(parse_duration("permanently").is_err());
}

#[test]
fn test_parse_zone_filter_battlefield() {
    let (rest, z) = parse_zone_filter("on the battlefield this turn").unwrap();
    assert_eq!(z, Zone::Battlefield);
    assert_eq!(rest, " this turn");
}

#[test]
fn test_parse_zone_filter_graveyard() {
    let (rest, z) = parse_zone_filter("in your graveyard").unwrap();
    assert_eq!(z, Zone::Graveyard);
    assert_eq!(rest, "");
}

#[test]
fn test_parse_zone_filter_exile() {
    let (rest, z) = parse_zone_filter("in exile").unwrap();
    assert_eq!(z, Zone::Exile);
    assert_eq!(rest, "");
}

#[test]
fn test_parse_zone_filter_failure() {
    assert!(parse_zone_filter("under the rug").is_err());
}

#[test]
fn parse_zone_filter_other_zones() {
    assert_eq!(parse_zone_filter("in a player's hand").unwrap(), ("", Zone::Hand));
    assert_eq!(parse_zone_filter("in your library,").unwrap(), (",", Zone::Library));
    assert_eq!(parse_zone_filter("on the stack").unwrap(), ("", Zone::Stack));
    assert_eq!(parse_zone_filter("in a graveyard").unwrap(), ("", Zone::Graveyard));
}

#[test]
fn test_parse_property_filter_tapped() {
    let (rest, p) = parse_property_filter("tapped creatures").unwrap();
    assert_eq!(p, FilterProp::Tapped);
    assert_eq!(rest, " creatures");
}

#[test]
fn test_parse_property_filter_attacking() {
    let (rest, p) = parse_property_filter("attacking").unwrap();
    assert_eq!(p, FilterProp::Attacking);
    assert_eq!(rest, "");
}

#[test]
fn test_parse_property_filter_face_down() {
    let (rest, p) = parse_property_filter("face down").unwrap();
    assert_eq!(p, FilterProp::FaceDown);
    assert_eq!(rest, "");
}

#[test]
fn test_parse_property_filter_failure() {
    assert!(parse_property_filter("flying").is_err());
}

#[test]
fn parse_property_filter_other_properties() {
    assert_eq!(parse_property_filter("untapped").unwrap(), ("", FilterProp::Untapped));
    assert_eq!(parse_property_filter("token creature").unwrap(), (" creature", FilterProp::Token));
    assert_eq!(parse_property_filter("unblocked").unwrap(), ("", FilterProp::Unblocked));
}

#[test]
fn test_parse_target_phrase_creature() {
    let (rest, filter) = parse_target_phrase("target creature with power").unwrap();
    assert_eq!(rest, " with power");
    match filter {
        TargetFilter::Typed(tf) => {
            assert_eq!(tf.type_filters, vec![TypeFilter::Creature]);
        }
        _ => panic!("expected Typed filter"),
    }
}

#[test]
fn test_parse_target_phrase_artifact_or_enchantment() {
    let (rest, filter) = parse_target_phrase("target artifact or enchantment you control").unwrap();
    assert_eq!(rest, "");
    match filter {
        TargetFilter::Typed(tf) => {
            assert_eq!(tf.type_filters, vec![TypeFilter::AnyOf(vec![TypeFilter::Artifact, TypeFilter::Enchantment])]);
            assert_eq!(tf.controller, Some(ControllerRef::You));
        }
        _ => panic!("expected Typed filter"),
    }
}

#[test]
fn test_parse_target_phrase_no_target_prefix() {
    assert!(parse_target_phrase("creature").is_err());
}

#[test]
fn test_parse_controller_suffix() {
    let (rest, c) = parse_controller_suffix("you control stuff").unwrap();
    assert_eq!(c, ControllerRef::You);
    assert_eq!(rest, " stuff");

    let (rest2, c2) = parse_controller_suffix("an opponent controls").unwrap();
    assert_eq!(c2, ControllerRef::Opponent);
    assert_eq!(rest2, "");
}

#[test]
fn test_parse_type_phrase_single() {
    let (rest, filter) = parse_type_phrase("creature you control").unwrap();
    assert_eq!(rest, "");
    match filter {
        TargetFilter::Typed(tf) => {
            assert_eq!(tf.type_filters, vec![TypeFilter::Creature]);
            assert_eq!(tf.controller, Some(ControllerRef::You));
        }
        _ => panic!("expected Typed filter"),
    }
}

#[test]
fn test_parse_type_phrase_multi() {
    let (rest, filter) = parse_type_phrase("instant or sorcery").unwrap();
    assert_eq!(rest, "");
    match filter {
        TargetFilter::Typed(tf) => {
            assert_eq!(tf.type_filters, vec![TypeFilter::AnyOf(vec![TypeFilter::Instant, TypeFilter::Sorcery])]);
        }
        _ => panic!("expected Typed filter"),
    }
}

#[test]
fn type_phrase_keeps_text_it_cannot_use() {
    // " or" not followed by a type word, and spaces not followed by a controller,
    // stay unconsumed.
    let (rest, filter) = parse_type_phrase("creature or flying thing").unwrap();
    assert_eq!(rest, " or flying thing");
    match filter {
        TargetFilter::Typed(tf) => {
            assert_eq!(tf.type_filters, vec![TypeFilter::Creature]);
            assert_eq!(tf.controller, None);
        }
        _ => panic!("expected Typed filter"),
    }
    let (rest, _) = parse_type_phrase("land  with flash").unwrap();
    assert_eq!(rest, "  with flash");
}

#[test]
fn type_phrase_with_color_and_opponent_controller() {
    let (rest, filter) = parse_type_phrase("red creature an opponent controls.").unwrap();
    assert_eq!(rest, ".");
    match filter {
        TargetFilter::Typed(tf) => {
            assert_eq!(tf.type_filters, vec![TypeFilter::Creature]);
            assert_eq!(tf.controller, Some(ControllerRef::Opponent));
            assert_eq!(tf.properties, vec![FilterProp::HasColor { color: ManaColor::Red }]);
        }
        _ => panic!("expected Typed filter"),
    }
    assert!(parse_type_phrase("red").is_err());
    // The color is kept: "red creature" and "creature" give different filters.
    let (rest, red) = parse_type_phrase("red creature").unwrap();
    assert_eq!(rest, "");
    let (_, plain) = parse_type_phrase("creature").unwrap();
    assert_ne!(red, plain);
    match plain {
        TargetFilter::Typed(tf) => assert!(tf.properties.is_empty()),
        _ => panic!("expected Typed filter"),
    }
}

#[test]
fn target_phrase_needs_a_space_after_target() {
    assert!(parse_target_phrase("targetcreature").is_err());
    assert!(parse_target_phrase("target ").is_err());
    let (rest, _) = parse_target_phrase("target  planeswalker or battle").unwrap();
    assert_eq!(rest, "");
}

#[test]
fn parse_context_default_is_empty() {
    let ctx = ParseContext::default();
    assert!(ctx.subject.is_none());
    assert!(ctx.quantity_ref.is_none());
    assert!(ctx.card_name.is_none());
    assert!(!ctx.in_trigger);
    assert!(!ctx.in_replacement);
}

#[test]
fn parse_context_clones_its_fields() {
    let mut ctx = ParseContext::default();
    ctx.card_name = Some("Bear".to_string());
    ctx.in_trigger = true;
    let (_, f) = parse_type_phrase("creature you control").unwrap();
    ctx.subject = Some(f);
    let copy = ctx.clone();
    assert_eq!(copy.card_name, Some("Bear".to_string()));
    assert!(copy.in_trigger);
    assert_eq!(copy.subject, ctx.subject);
}
