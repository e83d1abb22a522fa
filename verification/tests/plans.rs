//! Tests for context-gathering, plan creation and the prompt builders.

use ollama_adapter::context::parse_real_time_context;
use ollama_adapter::decimal::Decimal;
use ollama_adapter::plan::{create_plan_from_response, parse_plan_node};
use ollama_adapter::prompts::{
    build_compression_prompt, build_context_prompt, build_evaluation_prompt, build_plan_prompt,
    build_thought_prompt, fmt2,
};
use ollama_adapter::types::{
    CellContext, DimensionalPosition, PlanNodeStatus, PlanStatus, Thought,
};

fn dec(negative: bool, micros: u64) -> Decimal {
    Decimal { negative, micros }
}

fn half() -> Decimal {
    dec(false, 500_000)
}

fn position() -> DimensionalPosition {
    DimensionalPosition {
        emergence: half(),
        coherence: half(),
        resilience: half(),
        intelligence: half(),
        efficiency: half(),
        integration: half(),
    }
}

#[test]
fn context_scan_fills_the_four_lists() {
    let response = b"MARKET_TRENDS:\ntrend a\ntrend b\nTECH_DEVELOPMENTS:\ndev a\nCURRENT_EVENTS:\nevent a\nUSER_INTERACTIONS:\nchat a\n";
    let ctx = parse_real_time_context(response);
    assert_eq!(ctx.market_trends, vec![b"trend a".to_vec(), b"trend b".to_vec()]);
    assert_eq!(ctx.technological_developments, vec![b"dev a".to_vec()]);
    assert_eq!(ctx.current_events, vec![b"event a".to_vec()]);
    assert_eq!(ctx.user_interactions, vec![b"chat a".to_vec()]);
    assert!(ctx.environmental_data.is_empty());
    assert!(ctx.mission_progress.is_empty());
}

#[test]
fn context_scan_never_fails() {
    let ctx = parse_real_time_context(b"free text before any marker\n\n");
    assert!(ctx.market_trends.is_empty());
    assert!(ctx.technological_developments.is_empty());
    assert!(ctx.current_events.is_empty());
    assert!(ctx.user_interactions.is_empty());
}

#[test]
fn node_line_parses_and_clamps_high_estimate() {
    let n = parse_plan_node(b"Build it | Assemble the parts | 1.5").unwrap();
    assert_eq!(n.title, b"Build it".to_vec());
    assert_eq!(n.description, b"Assemble the parts".to_vec());
    assert_eq!(n.estimated_completion, dec(false, 1_000_000));
    assert_eq!(n.status, PlanNodeStatus::Pending);
    assert!(n.dependencies.is_empty());
}

#[test]
fn node_line_clamps_negative_estimate_to_zero() {
    let n = parse_plan_node(b"Build it | Assemble the parts | -0.3").unwrap();
    assert_eq!(n.estimated_completion, dec(false, 0));
}

#[test]
fn node_line_unparsable_estimate_falls_back_to_zero() {
    let n = parse_plan_node(b"Build it | Assemble the parts | soon").unwrap();
    assert_eq!(n.estimated_completion, dec(false, 0));
}

#[test]
fn node_line_needs_three_parts_and_nonempty_fields() {
    assert!(parse_plan_node(b"only | two").is_none());
    assert!(parse_plan_node(b" | description | 0.5").is_none());
    assert!(parse_plan_node(b"title |  | 0.5").is_none());
}

#[test]
fn plan_with_no_valid_nodes_gets_three_defaults() {
    let plan = create_plan_from_response(b"SUMMARY:\nShip the release\n", Vec::new());
    assert_eq!(plan.summary, b"Ship the release".to_vec());
    assert_eq!(plan.nodes.len(), 3);
    assert_eq!(plan.nodes[0].title, b"Initial Analysis".to_vec());
    assert_eq!(
        plan.nodes[0].description,
        b"Analyze current state and requirements for: Ship the release".to_vec()
    );
    assert_eq!(plan.nodes[1].title, b"Implementation Strategy".to_vec());
    assert_eq!(plan.nodes[2].title, b"Validation and Review".to_vec());
    assert_eq!(plan.status, PlanStatus::Proposed);
    assert_eq!(plan.score, half());
}

#[test]
fn plan_with_two_nodes_gets_one_filler() {
    let response = b"NODES:\n1. One | First step | 0.1\n2. Two | Second step | 0.2\n";
    let plan = create_plan_from_response(response, Vec::new());
    assert_eq!(plan.nodes.len(), 3);
    assert_eq!(plan.nodes[0].title, b"1. One".to_vec());
    assert_eq!(plan.nodes[1].title, b"2. Two".to_vec());
    assert_eq!(plan.nodes[2].title, b"Phase 3".to_vec());
    assert_eq!(plan.nodes[2].description, b"Execute phase 3 of the plan".to_vec());
}

#[test]
fn plan_with_five_nodes_keeps_all_five() {
    let response = b"NODES:\na | d1 | 0.1\nb | d2 | 0.2\nc | d3 | 0.3\nd | d4 | 0.4\ne | d5 | 0.5\n";
    let plan = create_plan_from_response(response, Vec::new());
    assert_eq!(plan.nodes.len(), 5);
    assert_eq!(plan.nodes[4].title, b"e".to_vec());
    assert_eq!(plan.nodes[4].estimated_completion, half());
}

#[test]
fn plan_defaults_for_summary_and_score() {
    let plan = create_plan_from_response(b"", Vec::new());
    assert_eq!(plan.summary, b"Plan based on collected thoughts".to_vec());
    assert_eq!(plan.score, half());
    assert_eq!(plan.nodes.len(), 3);
}

#[test]
fn plan_reads_score_section() {
    let plan = create_plan_from_response(b"SCORE:\n0.75\n", Vec::new());
    assert_eq!(plan.score, dec(false, 750_000));
}

#[test]
fn plan_carries_thoughts_over() {
    let thoughts = vec![Thought {
        content: b"first idea".to_vec(),
        relevance: half(),
        factors: Vec::new(),
    }];
    let plan = create_plan_from_response(b"", thoughts);
    assert_eq!(plan.thoughts.len(), 1);
    assert_eq!(plan.thoughts[0].content, b"first idea".to_vec());
    assert!(plan.participating_cells.is_empty());
}

#[test]
fn fmt2_rounds_to_two_places() {
    assert_eq!(fmt2(dec(false, 500_000)), b"0.50".to_vec());
    assert_eq!(fmt2(dec(false, 567_000)), b"0.57".to_vec());
    assert_eq!(fmt2(dec(true, 200_000)), b"-0.20".to_vec());
    assert_eq!(fmt2(dec(false, 12_340_000)), b"12.34".to_vec());
}

fn contains(hay: &[u8], needle: &[u8]) -> bool {
    hay.windows(needle.len()).any(|w| w == needle)
}

#[test]
fn context_prompt_embeds_thoughts_and_section_labels() {
    let p = build_context_prompt(&vec![b"one".to_vec(), b"two".to_vec()]);
    assert!(contains(&p, b"one\ntwo"));
    assert!(contains(&p, b"MARKET_TRENDS:"));
    assert!(contains(&p, b"USER_INTERACTIONS:"));
    let again = build_context_prompt(&vec![b"one".to_vec(), b"two".to_vec()]);
    assert_eq!(p, again);
}

#[test]
fn evaluation_prompt_embeds_scores() {
    let p = build_evaluation_prompt(&position(), &vec![b"t".to_vec()], &vec![b"p".to_vec()]);
    assert!(contains(&p, b"- Emergence: 0.50"));
    assert!(contains(&p, b"Recent thoughts: t"));
    assert!(contains(&p, b"Recent plans: p"));
}

#[test]
fn thought_prompt_embeds_cell_state() {
    let cell = CellContext {
        current_focus: b"resilient protocols".to_vec(),
        evolution_stage: 4,
        energy_level: dec(false, 2_000_000),
        dimensional_position: position(),
    };
    let ctx = parse_real_time_context(b"MARKET_TRENDS:\nup\n");
    let p = build_thought_prompt(&cell, &ctx, b"grow the network");
    assert!(contains(&p, b"- Mission: grow the network"));
    assert!(contains(&p, b"- Focus Area: resilient protocols"));
    assert!(contains(&p, b"Evolution Stage 4"));
    assert!(contains(&p, b"- Energy/Resources: 2.00"));
    assert!(contains(&p, b"- Market: up"));
    assert!(contains(&p, b"THOUGHT:"));
    assert!(contains(&p, b"RELEVANCE:"));
}

#[test]
fn compression_prompt_joins_memories() {
    let p = build_compression_prompt(&vec![b"m1".to_vec(), b"m2".to_vec()]);
    assert!(contains(&p, b"m1\nm2"));
    assert!(contains(&p, b"Respond with ONLY the compressed summary."));
}

#[test]
fn plan_prompt_dashes_each_thought() {
    let thoughts = vec![
        Thought { content: b"alpha".to_vec(), relevance: half(), factors: Vec::new() },
        Thought { content: b"beta".to_vec(), relevance: half(), factors: Vec::new() },
    ];
    let p = build_plan_prompt(&thoughts);
    assert!(contains(&p, b"- alpha\n- beta"));
    assert!(contains(&p, b"SUMMARY:"));
    assert!(contains(&p, b"NODES:"));
    assert!(contains(&p, b"SCORE:"));
}
