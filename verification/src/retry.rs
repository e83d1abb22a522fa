//! The retry/repair policy for thought generation: up to three attempts,
//! validation failures retried, the final attempt repaired by line-level
//! cleaning instead of failing; structural parse failures are fatal at
//! once.

use vstd::prelude::*;

use crate::text::spec_lines;
use crate::thought::ThoughtParse;
use crate::thought::parse_thought_response;
use crate::thought::spec_parse_thought;
use crate::types::FormatError;
use crate::types::GeneratedThought;
use crate::validator::clean_thought_content;
use crate::validator::content_ok;
use crate::validator::spec_clean;
use crate::validator::validate_thought_content;

verus! {

/// What one attempt of the retry policy decides.
pub enum RetryOutcome {
    /// Content failed validation; another attempt is allowed.
    Retry,
    /// Parsed and validated content, returned as-is.
    Success(GeneratedThought),
    /// The final attempt's content, line-cleaned.
    Degraded(GeneratedThought),
    /// A structural parse failure, fatal at once.
    Fatal(FormatError),
}

/// The decision one attempt yields, at the specification level.
pub enum PolicyStep {
    Retry,
    Success(Seq<u8>, int, Seq<Seq<u8>>),
    Degraded(Seq<u8>, int, Seq<Seq<u8>>),
    Fatal(FormatError),
}

/// The retry policy's decision for a completion at attempt `attempt`
/// (zero-based, three attempts in all): a parse failure is fatal;
/// validated content succeeds; failing content is retried while attempts
/// remain and line-cleaned on the last.
pub open spec fn policy_step(sp: ThoughtParse, attempt: int) -> PolicyStep {
    match sp {
        ThoughtParse::MissingThought => PolicyStep::Fatal(FormatError::MissingThought),
        ThoughtParse::MissingRelevance => PolicyStep::Fatal(FormatError::MissingRelevance),
        ThoughtParse::InvalidRelevance => PolicyStep::Fatal(FormatError::InvalidRelevance),
        ThoughtParse::Parsed(c, rv, fs) => {
            if content_ok(c) {
                PolicyStep::Success(c, rv, fs)
            } else if attempt < 2 {
                PolicyStep::Retry
            } else {
                PolicyStep::Degraded(spec_clean(c), rv, fs)
            }
        },
    }
}

/// Decide one attempt of the thought-generation retry policy.
///
/// `attempt` is the zero-based attempt index; on the final attempt
/// (index two) content failing validation is line-cleaned and returned
/// instead of retried, so the policy never fails for policy reasons.
pub fn thought_attempt(completion: &[u8], attempt: u8) -> (r: RetryOutcome)
    requires
        attempt < 3,
    ensures
        ({
            let ps = policy_step(spec_parse_thought(completion@), attempt as int);
            match r {
                RetryOutcome::Retry => ps == PolicyStep::Retry,
                RetryOutcome::Success(g) => ps == PolicyStep::Success(
                    g.content@,
                    g.relevance.value(),
                    g.factors.deep_view(),
                ) && g.relevance.wf(),
                RetryOutcome::Degraded(g) => ps == PolicyStep::Degraded(
                    g.content@,
                    g.relevance.value(),
                    g.factors.deep_view(),
                ) && g.relevance.wf(),
                RetryOutcome::Fatal(e) => ps == PolicyStep::Fatal(e),
            }
        }),
{
    match parse_thought_response(completion) {
        Err(e) => RetryOutcome::Fatal(e),
        Ok(g) => {
            if validate_thought_content(g.content.as_slice()) {
                RetryOutcome::Success(g)
            } else if attempt < 2 {
                RetryOutcome::Retry
            } else {
                let cleaned = clean_thought_content(g.content.as_slice());
                RetryOutcome::Degraded(
                    GeneratedThought {
                        content: cleaned,
                        relevance: g.relevance,
                        factors: g.factors,
                    },
                )
            }
        },
    }
}

/// Retry policy law: while attempts remain, parsed content failing
/// validation is retried; on the final attempt the call never fails:
/// content passing validation is returned unmodified, and failing
/// content is returned line-cleaned, keeping the attempt's relevance and
/// factors.
pub proof fn lemma_retry_policy(sp: ThoughtParse, c: Seq<u8>, rv: int, fs: Seq<Seq<u8>>, a: int)
    requires
        sp == ThoughtParse::Parsed(c, rv, fs),
        0 <= a < 3,
    ensures
        !content_ok(c) && a < 2 ==> policy_step(sp, a) == PolicyStep::Retry,
        content_ok(c) ==> policy_step(sp, a) == PolicyStep::Success(c, rv, fs),
        !content_ok(c) && a == 2 ==> policy_step(sp, a) == PolicyStep::Degraded(
            spec_clean(c),
            rv,
            fs,
        ),
        !(policy_step(sp, 2) is Fatal) && !(policy_step(sp, 2) is Retry),
{
}

} // verus!
