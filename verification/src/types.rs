//! The data model of the adapter: positions, contexts, thoughts and plans.
//!
//! Text travels as byte strings, scores as fixed-point [`Decimal`]s,
//! identities as 128-bit values and timestamps as Unix milliseconds.

use vstd::prelude::*;

use crate::decimal::Decimal;

verus! {

/// A structural parse failure: the completion lacked the minimum
/// decodable structure for a required field.
#[derive(Clone, Copy, Debug, PartialEq, Eq, Structural)]
pub enum FormatError {
    /// No `THOUGHT:` marker in a thought completion.
    MissingThought,
    /// No `RELEVANCE:` marker after the thought text.
    MissingRelevance,
    /// No parsable relevance number at the marker.
    InvalidRelevance,
    /// An adjustment completion without exactly two numeric tokens.
    InvalidAdjustments,
}

impl FormatError {
    /// The failure as a message.
    pub fn describe(&self) -> (r: &'static str)
    {
        match self {
            FormatError::MissingThought => "Invalid response",
            FormatError::MissingRelevance => "Missing relevance",
            FormatError::InvalidRelevance => "Invalid relevance score",
            FormatError::InvalidAdjustments => "Invalid response format from model",
        }
    }
}

/// Six bounded scores describing a cell's abstract position.
pub struct DimensionalPosition {
    pub emergence: Decimal,
    pub coherence: Decimal,
    pub resilience: Decimal,
    pub intelligence: Decimal,
    pub efficiency: Decimal,
    pub integration: Decimal,
}

impl DimensionalPosition {
    /// All six scores are well-formed decimals.
    pub open spec fn wf(self) -> bool {
        &&& self.emergence.wf()
        &&& self.coherence.wf()
        &&& self.resilience.wf()
        &&& self.intelligence.wf()
        &&& self.efficiency.wf()
        &&& self.integration.wf()
    }
}

/// A cell's local state, as the prompt builder reads it.
pub struct CellContext {
    pub current_focus: Vec<u8>,
    pub evolution_stage: u64,
    pub energy_level: Decimal,
    pub dimensional_position: DimensionalPosition,
}

/// A timestamped bundle of environmental signal lists.
pub struct RealTimeContext {
    pub timestamp_millis: i64,
    pub market_trends: Vec<Vec<u8>>,
    pub current_events: Vec<Vec<u8>>,
    pub technological_developments: Vec<Vec<u8>>,
    pub user_interactions: Vec<Vec<u8>>,
    pub environmental_data: Vec<(Vec<u8>, Vec<u8>)>,
    pub mission_progress: Vec<Vec<u8>>,
}

/// A thought handed to plan creation or evaluation.
pub struct Thought {
    pub content: Vec<u8>,
    pub relevance: Decimal,
    pub factors: Vec<Vec<u8>>,
}

/// The triple a thought-generation call yields: content, relevance and
/// contributing factors.
#[derive(Clone, Debug, PartialEq, Eq)]
pub struct GeneratedThought {
    pub content: Vec<u8>,
    pub relevance: Decimal,
    pub factors: Vec<Vec<u8>>,
}

/// Status of a freshly created plan.
#[derive(Clone, Copy, Debug, PartialEq, Eq, Structural)]
pub enum PlanStatus {
    Proposed,
}

/// Status of a freshly created plan node.
#[derive(Clone, Copy, Debug, PartialEq, Eq, Structural)]
pub enum PlanNodeStatus {
    Pending,
}

/// One actionable step of a plan.
pub struct PlanNode {
    pub id: u128,
    pub title: Vec<u8>,
    pub description: Vec<u8>,
    pub status: PlanNodeStatus,
    pub estimated_completion: Decimal,
    pub dependencies: Vec<u128>,
}

/// A structured plan assembled from thoughts.
pub struct Plan {
    pub id: u128,
    pub summary: Vec<u8>,
    pub nodes: Vec<PlanNode>,
    pub thoughts: Vec<Thought>,
    pub score: Decimal,
    pub participating_cells: Vec<u128>,
    pub created_at_millis: i64,
    pub status: PlanStatus,
}

} // verus!
