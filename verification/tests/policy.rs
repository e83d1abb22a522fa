//! Tests for the content validator, cleaning, the retry policy and the
//! batch collection step.

use ollama_adapter::batch::collect_batch;
use ollama_adapter::decimal::Decimal;
use ollama_adapter::retry::{thought_attempt, RetryOutcome};
use ollama_adapter::types::GeneratedThought;
use ollama_adapter::validator::{clean_thought_content, validate_thought_content};

#[test]
fn validator_rejects_banned_terms_case_insensitively() {
    assert!(!validate_thought_content(b"Energy Level is high"));
    assert!(!validate_thought_content(b"emergence: 0.8"));
    assert!(!validate_thought_content(b"our EVOLUTION STAGE improves"));
    assert!(!validate_thought_content(b"the Dimensional Position shifted"));
}

#[test]
fn validator_accepts_clean_text() {
    assert!(validate_thought_content(b"Collaboration thrives on shared context."));
    assert!(validate_thought_content(b"emergence without a colon is fine"));
    assert!(validate_thought_content(b""));
}

#[test]
fn cleaning_removes_exactly_the_offending_lines() {
    let text = b"first line\nenergy level: 5\nthird line";
    let cleaned = clean_thought_content(text);
    assert_eq!(cleaned, b"first line\nthird line".to_vec());
}

#[test]
fn cleaning_keeps_clean_text_lines_unchanged() {
    let text = b"alpha\nbeta";
    assert_eq!(clean_thought_content(text), b"alpha\nbeta".to_vec());
}

#[test]
fn cleaning_can_empty_the_text() {
    assert_eq!(clean_thought_content(b"coherence: 1"), Vec::<u8>::new());
}

fn violating_completion() -> Vec<u8> {
    b"THOUGHT:\nGood idea.\nenergy level rising\nRELEVANCE:\n0.9\n".to_vec()
}

fn clean_completion() -> Vec<u8> {
    b"THOUGHT:\nGood idea.\nRELEVANCE:\n0.9\n".to_vec()
}

#[test]
fn retry_first_two_violations_then_success_returns_third_unmodified() {
    assert!(matches!(
        thought_attempt(&violating_completion(), 0),
        RetryOutcome::Retry
    ));
    assert!(matches!(
        thought_attempt(&violating_completion(), 1),
        RetryOutcome::Retry
    ));
    match thought_attempt(&clean_completion(), 2) {
        RetryOutcome::Success(g) => {
            assert_eq!(g.content, b"Good idea.".to_vec());
            assert_eq!(g.relevance, Decimal { negative: false, micros: 900_000 });
        }
        _ => panic!("third clean attempt must succeed"),
    }
}

#[test]
fn retry_all_three_violations_degrade_to_cleaned_content() {
    match thought_attempt(&violating_completion(), 2) {
        RetryOutcome::Degraded(g) => {
            assert_eq!(g.content, b"Good idea.".to_vec());
            assert_eq!(g.relevance, Decimal { negative: false, micros: 900_000 });
        }
        _ => panic!("final attempt must degrade, not fail"),
    }
}

#[test]
fn retry_parse_failure_is_fatal_at_once() {
    assert!(matches!(
        thought_attempt(b"no structure here", 0),
        RetryOutcome::Fatal(_)
    ));
}

#[test]
fn retry_valid_content_succeeds_immediately() {
    assert!(matches!(
        thought_attempt(&clean_completion(), 0),
        RetryOutcome::Success(_)
    ));
}

fn sample_thought(tag: u8) -> GeneratedThought {
    GeneratedThought {
        content: vec![tag],
        relevance: Decimal { negative: false, micros: 500_000 },
        factors: Vec::new(),
    }
}

#[test]
fn batch_collects_one_entry_per_identity() {
    let ids: Vec<u128> = vec![7, 11, 13];
    let results = vec![sample_thought(b'a'), sample_thought(b'b'), sample_thought(b'c')];
    let map = collect_batch(&ids, results);
    assert_eq!(map.len(), 3);
    assert_eq!(map.get(&7).unwrap().len(), 1);
    assert_eq!(map.get(&7).unwrap()[0].content, vec![b'a']);
    assert_eq!(map.get(&11).unwrap()[0].content, vec![b'b']);
    assert_eq!(map.get(&13).unwrap()[0].content, vec![b'c']);
}

#[test]
fn batch_of_nothing_is_empty() {
    let map = collect_batch(&Vec::new(), Vec::new());
    assert!(map.is_empty());
}
