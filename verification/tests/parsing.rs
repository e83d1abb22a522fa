//! Tests for decimal parsing, dimensional-evaluation parsing and the
//! thought parser.

use ollama_adapter::decimal::{clamp_unit, parse_decimal, Decimal, MICROS_PER_UNIT};
use ollama_adapter::eval::parse_adjustments;
use ollama_adapter::thought::parse_thought_response;
use ollama_adapter::types::FormatError;

fn dec(negative: bool, micros: u64) -> Decimal {
    Decimal { negative, micros }
}

#[test]
fn decimal_simple_fraction() {
    assert_eq!(parse_decimal(b"0.5"), Some(dec(false, 500_000)));
}

#[test]
fn decimal_negative_fraction() {
    assert_eq!(parse_decimal(b"-0.2"), Some(dec(true, 200_000)));
}

#[test]
fn decimal_plus_sign_and_bare_dot_forms() {
    assert_eq!(parse_decimal(b"+.5"), Some(dec(false, 500_000)));
    assert_eq!(parse_decimal(b"5."), Some(dec(false, 5_000_000)));
    assert_eq!(parse_decimal(b".25"), Some(dec(false, 250_000)));
}

#[test]
fn decimal_integer() {
    assert_eq!(parse_decimal(b"42"), Some(dec(false, 42_000_000)));
}

#[test]
fn decimal_truncates_past_six_places() {
    assert_eq!(parse_decimal(b"0.1234567"), Some(dec(false, 123_456)));
}

#[test]
fn decimal_rejects_junk() {
    assert_eq!(parse_decimal(b""), None);
    assert_eq!(parse_decimal(b"a"), None);
    assert_eq!(parse_decimal(b"."), None);
    assert_eq!(parse_decimal(b"-"), None);
    assert_eq!(parse_decimal(b"1.2.3"), None);
    assert_eq!(parse_decimal(b"1 2"), None);
}

#[test]
fn decimal_negative_zero_is_canonical() {
    assert_eq!(parse_decimal(b"-0.0"), Some(dec(false, 0)));
}

#[test]
fn decimal_rejects_oversized_integer_part() {
    assert_eq!(parse_decimal(b"1000000000000"), None);
    assert_eq!(parse_decimal(b"999999999999"), Some(dec(false, 999_999_999_999 * 1_000_000)));
}

#[test]
fn clamp_unit_bounds() {
    assert_eq!(clamp_unit(dec(false, 1_500_000)), dec(false, MICROS_PER_UNIT));
    assert_eq!(clamp_unit(dec(true, 300_000)), dec(false, 0));
    assert_eq!(clamp_unit(dec(false, 400_000)), dec(false, 400_000));
}

#[test]
fn adjustments_two_values_in_order() {
    let r = parse_adjustments(b"0.5, -0.2").unwrap();
    assert_eq!(r.0, dec(false, 500_000));
    assert_eq!(r.1, dec(true, 200_000));
}

#[test]
fn adjustments_single_value_fails() {
    assert_eq!(parse_adjustments(b"0.5"), Err(FormatError::InvalidAdjustments));
}

#[test]
fn adjustments_three_tokens_fail() {
    assert_eq!(parse_adjustments(b"a,b,c"), Err(FormatError::InvalidAdjustments));
    assert_eq!(parse_adjustments(b"1,2,3"), Err(FormatError::InvalidAdjustments));
}

#[test]
fn adjustments_skip_non_numeric_tokens() {
    let r = parse_adjustments(b"noise, 1.5, more noise, -2").unwrap();
    assert_eq!(r.0, dec(false, 1_500_000));
    assert_eq!(r.1, dec(true, 2_000_000));
}

#[test]
fn thought_parse_canonical_format() {
    let completion = b"THOUGHT:\nShare context early.\nRELEVANCE:\n0.8\nFACTORS:\nTrust\nTiming\n";
    let g = parse_thought_response(completion).unwrap();
    assert_eq!(g.content, b"Share context early.".to_vec());
    assert_eq!(g.relevance, dec(false, 800_000));
    assert_eq!(g.factors, vec![b"Trust".to_vec(), b"Timing".to_vec()]);
}

#[test]
fn thought_parse_relevance_on_marker_line() {
    let completion = b"THOUGHT:\nAn idea.\nRELEVANCE: 0.25\n";
    let g = parse_thought_response(completion).unwrap();
    assert_eq!(g.content, b"An idea.".to_vec());
    assert_eq!(g.relevance, dec(false, 250_000));
    assert!(g.factors.is_empty());
}

#[test]
fn thought_parse_factors_optional() {
    let completion = b"THOUGHT:\nAn idea.\nRELEVANCE:\n0.4";
    let g = parse_thought_response(completion).unwrap();
    assert!(g.factors.is_empty());
}

#[test]
fn thought_parse_missing_thought_marker() {
    assert_eq!(
        parse_thought_response(b"no markers at all"),
        Err(FormatError::MissingThought)
    );
}

#[test]
fn thought_parse_missing_relevance_marker() {
    assert_eq!(
        parse_thought_response(b"THOUGHT:\nsomething"),
        Err(FormatError::MissingRelevance)
    );
}

#[test]
fn thought_parse_unparsable_relevance() {
    assert_eq!(
        parse_thought_response(b"THOUGHT:\nsomething\nRELEVANCE:\nhigh"),
        Err(FormatError::InvalidRelevance)
    );
}

#[test]
fn format_error_messages() {
    assert_eq!(FormatError::MissingThought.describe(), "Invalid response");
    assert_eq!(FormatError::MissingRelevance.describe(), "Missing relevance");
    assert_eq!(FormatError::InvalidRelevance.describe(), "Invalid relevance score");
    assert_eq!(
        FormatError::InvalidAdjustments.describe(),
        "Invalid response format from model"
    );
}
