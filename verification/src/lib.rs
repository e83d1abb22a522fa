//! A verified response-contract layer for a local text-completion
//! endpoint: prompt builders, completion parsers, a content policy
//! filter, a bounded retry/repair policy and a batch collection step.
//!
//! Free-form completions travel as byte strings; every parser, filter
//! and policy decision is specified over sequence-level models and
//! verified.  Transport to the endpoint itself lives outside this crate.

pub mod batch;
pub mod context;
pub mod decimal;
pub mod eval;
mod ids;
pub mod plan;
pub mod prompts;
pub mod retry;
pub mod text;
pub mod thought;
pub mod types;
pub mod validator;

pub use decimal::Decimal;
pub use types::FormatError;
