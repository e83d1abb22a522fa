//! The prompt builders: each operation's instruction template, rendered
//! deterministically from its typed inputs, with the literal section
//! format the parsers expect.

use vstd::prelude::*;
use vstd::string::StrSliceExecFns;
use vstd::string::StringSliceAdditionalSpecFns;

use crate::decimal::Decimal;
use crate::text::concat_bytes;
use crate::text::dec_digits;
use crate::text::fmt_u64;
use crate::text::join_bytes;
use crate::text::join_with;
use crate::types::CellContext;
use crate::types::DimensionalPosition;
use crate::types::RealTimeContext;
use crate::types::Thought;

verus! {

/// `d` rendered with two decimal places, rounding half away from zero.
pub open spec fn spec_fmt2(d: Decimal) -> Seq<u8> {
    let cents = (d.micros + 5000) / 10000;
    let sign: Seq<u8> = if d.negative {
        seq![45u8]
    } else {
        Seq::<u8>::empty()
    };
    sign + dec_digits((cents / 100) as nat) + seq![46u8, (48 + ((cents / 10) % 10)) as u8, (48 + (
    cents % 10)) as u8]
}

/// Render a decimal with two places after the point.
pub fn fmt2(d: Decimal) -> (r: Vec<u8>)
    requires
        d.wf(),
    ensures
        r@ == spec_fmt2(d),
{
    let cents = (d.micros + 5000) / 10000;
    let mut r: Vec<u8> = Vec::new();
    if d.negative {
        r.push(45);
    }
    let ghost sign = r@;
    proof {
        if d.negative {
            assert(sign =~= seq![45u8]);
        } else {
            assert(sign =~= Seq::<u8>::empty());
        }
    }
    let ip = fmt_u64(cents / 100);
    let mut k: usize = 0;
    while k < ip.len()
        invariant
            0 <= k <= ip@.len(),
            r@ =~= sign + ip@.take(k as int),
        decreases ip@.len() - k,
    {
        r.push(ip[k]);
        k += 1;
    }
    proof {
        assert(ip@.take(ip@.len() as int) =~= ip@);
    }
    r.push(46);
    r.push(48 + (((cents / 10) % 10) as u8));
    r.push(48 + ((cents % 10) as u8));
    proof {
        assert(r@ =~= spec_fmt2(d));
    }
    r
}

/// A newline as a separator.
pub open spec fn nl() -> Seq<u8> {
    seq![10u8]
}

/// A single newline, as a separator slice.
fn newline_sep() -> (r: Vec<u8>)
    ensures
        r@ == nl(),
{
    let mut r: Vec<u8> = Vec::new();
    r.push(10);
    proof {
        assert(r@ =~= nl());
    }
    r
}

/// The context-gathering prompt for the joined recent thoughts.
pub open spec fn context_prompt_spec(thoughts: Seq<Seq<u8>>) -> Seq<u8> {
    "Based on these recent thoughts, generate a real-time context analysis.\n            Thoughts:\n            ".spec_bytes()
        + join_with(thoughts, nl())
        + "\n\n            Respond in this exact format:\n            MARKET_TRENDS:\n            [trend1]\n            [trend2]\n            TECH_DEVELOPMENTS:\n            [dev1]\n            [dev2]\n            CURRENT_EVENTS:\n            [event1]\n            [event2]\n            USER_INTERACTIONS:\n            [interaction1]\n            [interaction2]".spec_bytes()
}

/// Render the context-gathering prompt.
pub fn build_context_prompt(recent_thoughts: &Vec<Vec<u8>>) -> (r: Vec<u8>)
    ensures
        r@ == context_prompt_spec(recent_thoughts.deep_view()),
{
    let sep = newline_sep();
    let joined = join_bytes(recent_thoughts, sep.as_slice());
    let head =
        "Based on these recent thoughts, generate a real-time context analysis.\n            Thoughts:\n            ".as_bytes_vec();
    let tail =
        "\n\n            Respond in this exact format:\n            MARKET_TRENDS:\n            [trend1]\n            [trend2]\n            TECH_DEVELOPMENTS:\n            [dev1]\n            [dev2]\n            CURRENT_EVENTS:\n            [event1]\n            [event2]\n            USER_INTERACTIONS:\n            [interaction1]\n            [interaction2]".as_bytes_vec();
    let a = concat_bytes(head.as_slice(), joined.as_slice());
    let r = concat_bytes(a.as_slice(), tail.as_slice());
    proof {
        assert(r@ =~= context_prompt_spec(recent_thoughts.deep_view()));
    }
    r
}

/// The dimensional-evaluation prompt for a position and recent activity.
pub open spec fn evaluation_prompt_spec(
    position: DimensionalPosition,
    thoughts: Seq<Seq<u8>>,
    plans: Seq<Seq<u8>>,
) -> Seq<u8> {
    "Evaluate this cell's dimensional state and suggest energy and dopamine adjustments.\n            Current dimensions:\n            - Emergence: ".spec_bytes()
        + spec_fmt2(position.emergence) + "\n            - Coherence: ".spec_bytes()
        + spec_fmt2(position.coherence) + "\n            - Resilience: ".spec_bytes()
        + spec_fmt2(position.resilience) + "\n            - Intelligence: ".spec_bytes()
        + spec_fmt2(position.intelligence) + "\n            - Efficiency: ".spec_bytes()
        + spec_fmt2(position.efficiency) + "\n            - Integration: ".spec_bytes()
        + spec_fmt2(position.integration) + "\n\n            Recent thoughts: ".spec_bytes()
        + join_with(thoughts, nl()) + "\n            Recent plans: ".spec_bytes()
        + join_with(plans, nl())
        + "\n\n            Respond ONLY with two numbers separated by a comma:\n            [energy_adjustment],\n            [dopamine_adjustment]\n            ".spec_bytes()
}

/// Render the dimensional-evaluation prompt.
pub fn build_evaluation_prompt(
    position: &DimensionalPosition,
    recent_thoughts: &Vec<Vec<u8>>,
    recent_plans: &Vec<Vec<u8>>,
) -> (r: Vec<u8>)
    requires
        position.wf(),
    ensures
        r@ == evaluation_prompt_spec(
            *position,
            recent_thoughts.deep_view(),
            recent_plans.deep_view(),
        ),
{
    let sep = newline_sep();
    let tj = join_bytes(recent_thoughts, sep.as_slice());
    let pj = join_bytes(recent_plans, sep.as_slice());
    let mut r =
        "Evaluate this cell's dimensional state and suggest energy and dopamine adjustments.\n            Current dimensions:\n            - Emergence: ".as_bytes_vec();
    r = concat_bytes(r.as_slice(), fmt2(position.emergence).as_slice());
    r = concat_bytes(r.as_slice(), "\n            - Coherence: ".as_bytes_vec().as_slice());
    r = concat_bytes(r.as_slice(), fmt2(position.coherence).as_slice());
    r = concat_bytes(r.as_slice(), "\n            - Resilience: ".as_bytes_vec().as_slice());
    r = concat_bytes(r.as_slice(), fmt2(position.resilience).as_slice());
    r = concat_bytes(r.as_slice(), "\n            - Intelligence: ".as_bytes_vec().as_slice());
    r = concat_bytes(r.as_slice(), fmt2(position.intelligence).as_slice());
    r = concat_bytes(r.as_slice(), "\n            - Efficiency: ".as_bytes_vec().as_slice());
    r = concat_bytes(r.as_slice(), fmt2(position.efficiency).as_slice());
    r = concat_bytes(r.as_slice(), "\n            - Integration: ".as_bytes_vec().as_slice());
    r = concat_bytes(r.as_slice(), fmt2(position.integration).as_slice());
    r = concat_bytes(r.as_slice(), "\n\n            Recent thoughts: ".as_bytes_vec().as_slice());
    r = concat_bytes(r.as_slice(), tj.as_slice());
    r = concat_bytes(r.as_slice(), "\n            Recent plans: ".as_bytes_vec().as_slice());
    r = concat_bytes(r.as_slice(), pj.as_slice());
    r = concat_bytes(
        r.as_slice(),
        "\n\n            Respond ONLY with two numbers separated by a comma:\n            [energy_adjustment],\n            [dopamine_adjustment]\n            ".as_bytes_vec().as_slice(),
    );
    proof {
        assert(r@ =~= evaluation_prompt_spec(
            *position,
            recent_thoughts.deep_view(),
            recent_plans.deep_view(),
        ));
    }
    r
}

/// A comma and a space as a separator.
pub open spec fn comma_sep() -> Seq<u8> {
    seq![44u8, 32u8]
}

/// The thought-generation prompt for a cell, its environment and the
/// mission.
pub open spec fn thought_prompt_spec(
    focus: Seq<u8>,
    stage: nat,
    energy: Decimal,
    position: DimensionalPosition,
    market: Seq<Seq<u8>>,
    tech: Seq<Seq<u8>>,
    events: Seq<Seq<u8>>,
    mission: Seq<u8>,
) -> Seq<u8> {
    "You are an AI system focused on developing innovative collaboration approaches.\n            Your task is to generate an insightful thought about AI collaboration systems.\n            \n            Context (for consideration but do not repeat in response):\n            - Mission: ".spec_bytes()
        + mission + "\n            - Focus Area: ".spec_bytes() + focus
        + "\n            - System Stage: Evolution Stage ".spec_bytes() + dec_digits(stage)
        + "\n            - Energy/Resources: ".spec_bytes() + spec_fmt2(energy)
        + "\n            - Dimensional Analysis: [E:".spec_bytes() + spec_fmt2(position.emergence)
        + " C:".spec_bytes() + spec_fmt2(position.coherence) + " R:".spec_bytes()
        + spec_fmt2(position.resilience) + " I:".spec_bytes() + spec_fmt2(position.intelligence)
        + " Ef:".spec_bytes() + spec_fmt2(position.efficiency) + " In:".spec_bytes()
        + spec_fmt2(position.integration)
        + "]\n            \n            Environmental Context:\n            - Market: ".spec_bytes()
        + join_with(market, comma_sep()) + "\n            - Technology: ".spec_bytes()
        + join_with(tech, comma_sep()) + "\n            - Events: ".spec_bytes()
        + join_with(events, comma_sep())
        + "\n            \n            Instructions:\n            1. Generate a focused thought about improving AI collaboration\n            2. Do not mention system state values (energy, stages, etc.)\n            3. Focus on insights, strategies, and observations\n            4. Stay concise and actionable\n            \n            Format your response exactly as follows:\n            THOUGHT:\n            [Your thought content without mentioning system state]\n            RELEVANCE:\n            [Score between 0-1]\n            FACTORS:\n            [Key factor 1]\n            [Key factor 2]\n            [Key factor 3]".spec_bytes()
}

/// Render the thought-generation prompt.
pub fn build_thought_prompt(
    context: &CellContext,
    real_time_context: &RealTimeContext,
    mission: &[u8],
) -> (r: Vec<u8>)
    requires
        context.energy_level.wf(),
        context.dimensional_position.wf(),
    ensures
        r@ == thought_prompt_spec(
            context.current_focus@,
            context.evolution_stage as nat,
            context.energy_level,
            context.dimensional_position,
            real_time_context.market_trends.deep_view(),
            real_time_context.technological_developments.deep_view(),
            real_time_context.current_events.deep_view(),
            mission@,
        ),
{
    let mut sep: Vec<u8> = Vec::new();
    sep.push(44);
    sep.push(32);
    proof {
        assert(sep@ =~= comma_sep());
    }
    let mj = join_bytes(&real_time_context.market_trends, sep.as_slice());
    let tj = join_bytes(&real_time_context.technological_developments, sep.as_slice());
    let ej = join_bytes(&real_time_context.current_events, sep.as_slice());
    let pos = &context.dimensional_position;
    let mut r =
        "You are an AI system focused on developing innovative collaboration approaches.\n            Your task is to generate an insightful thought about AI collaboration systems.\n            \n            Context (for consideration but do not repeat in response):\n            - Mission: ".as_bytes_vec();
    r = concat_bytes(r.as_slice(), mission);
    r = concat_bytes(r.as_slice(), "\n            - Focus Area: ".as_bytes_vec().as_slice());
    r = concat_bytes(r.as_slice(), context.current_focus.as_slice());
    r = concat_bytes(
        r.as_slice(),
        "\n            - System Stage: Evolution Stage ".as_bytes_vec().as_slice(),
    );
    r = concat_bytes(r.as_slice(), fmt_u64(context.evolution_stage).as_slice());
    r = concat_bytes(
        r.as_slice(),
        "\n            - Energy/Resources: ".as_bytes_vec().as_slice(),
    );
    r = concat_bytes(r.as_slice(), fmt2(context.energy_level).as_slice());
    r = concat_bytes(
        r.as_slice(),
        "\n            - Dimensional Analysis: [E:".as_bytes_vec().as_slice(),
    );
    r = concat_bytes(r.as_slice(), fmt2(pos.emergence).as_slice());
    r = concat_bytes(r.as_slice(), " C:".as_bytes_vec().as_slice());
    r = concat_bytes(r.as_slice(), fmt2(pos.coherence).as_slice());
    r = concat_bytes(r.as_slice(), " R:".as_bytes_vec().as_slice());
    r = concat_bytes(r.as_slice(), fmt2(pos.resilience).as_slice());
    r = concat_bytes(r.as_slice(), " I:".as_bytes_vec().as_slice());
    r = concat_bytes(r.as_slice(), fmt2(pos.intelligence).as_slice());
    r = concat_bytes(r.as_slice(), " Ef:".as_bytes_vec().as_slice());
    r = concat_bytes(r.as_slice(), fmt2(pos.efficiency).as_slice());
    r = concat_bytes(r.as_slice(), " In:".as_bytes_vec().as_slice());
    r = concat_bytes(r.as_slice(), fmt2(pos.integration).as_slice());
    r = concat_bytes(
        r.as_slice(),
        "]\n            \n            Environmental Context:\n            - Market: ".as_bytes_vec().as_slice(),
    );
    r = concat_bytes(r.as_slice(), mj.as_slice());
    r = concat_bytes(r.as_slice(), "\n            - Technology: ".as_bytes_vec().as_slice());
    r = concat_bytes(r.as_slice(), tj.as_slice());
    r = concat_bytes(r.as_slice(), "\n            - Events: ".as_bytes_vec().as_slice());
    r = concat_bytes(r.as_slice(), ej.as_slice());
    r = concat_bytes(
        r.as_slice(),
        "\n            \n            Instructions:\n            1. Generate a focused thought about improving AI collaboration\n            2. Do not mention system state values (energy, stages, etc.)\n            3. Focus on insights, strategies, and observations\n            4. Stay concise and actionable\n            \n            Format your response exactly as follows:\n            THOUGHT:\n            [Your thought content without mentioning system state]\n            RELEVANCE:\n            [Score between 0-1]\n            FACTORS:\n            [Key factor 1]\n            [Key factor 2]\n            [Key factor 3]".as_bytes_vec().as_slice(),
    );
    proof {
        assert(r@ =~= thought_prompt_spec(
            context.current_focus@,
            context.evolution_stage as nat,
            context.energy_level,
            context.dimensional_position,
            real_time_context.market_trends.deep_view(),
            real_time_context.technological_developments.deep_view(),
            real_time_context.current_events.deep_view(),
            mission@,
        ));
    }
    r
}

/// The memory-compression prompt for the joined memories.
pub open spec fn compression_prompt_spec(memories: Seq<Seq<u8>>) -> Seq<u8> {
    "Compress these memories into a single cohesive summary:\n            ".spec_bytes()
        + join_with(memories, nl())
        + "\n            \n            Respond with ONLY the compressed summary.".spec_bytes()
}

/// Render the memory-compression prompt.
pub fn build_compression_prompt(memories: &Vec<Vec<u8>>) -> (r: Vec<u8>)
    ensures
        r@ == compression_prompt_spec(memories.deep_view()),
{
    let sep = newline_sep();
    let joined = join_bytes(memories, sep.as_slice());
    let head =
        "Compress these memories into a single cohesive summary:\n            ".as_bytes_vec();
    let tail =
        "\n            \n            Respond with ONLY the compressed summary.".as_bytes_vec();
    let a = concat_bytes(head.as_slice(), joined.as_slice());
    let r = concat_bytes(a.as_slice(), tail.as_slice());
    proof {
        assert(r@ =~= compression_prompt_spec(memories.deep_view()));
    }
    r
}

/// The thought contents each prefixed with a dash and a space.
pub open spec fn dashed_contents(ts: Seq<Thought>) -> Seq<Seq<u8>> {
    ts.map_values(|t: Thought| "- ".spec_bytes() + t.content@)
}

/// The plan-creation prompt for the thoughts under consideration.
pub open spec fn plan_prompt_spec(ts: Seq<Thought>) -> Seq<u8> {
    "Based on these thoughts, create a detailed strategic plan.\n            \n            Thoughts for consideration:\n            ".spec_bytes()
        + join_with(dashed_contents(ts), nl())
        + "\n            \n            Instructions:\n            1. Create a clear plan summary\n            2. Generate at least 3 actionable plan nodes\n            3. Each node must have a title, description, and completion estimate (0-1)\n            4. Assign a relevance score to the overall plan\n            \n            Respond in exactly this format:\n            SUMMARY:\n            [Write a clear 1-2 sentence plan summary]\n            \n            NODES:\n            1. [Node Title] | [Detailed description of the node's objective and approach] | [Completion estimate between 0-1]\n            2. [Node Title] | [Detailed description of the node's objective and approach] | [Completion estimate between 0-1]\n            3. [Node Title] | [Detailed description of the node's objective and approach] | [Completion estimate between 0-1]\n            \n            SCORE:\n            [Overall plan score between 0-1]".spec_bytes()
}

/// Render the plan-creation prompt.
#[verifier::loop_isolation(false)]
pub fn build_plan_prompt(thoughts: &Vec<Thought>) -> (r: Vec<u8>)
    ensures
        r@ == plan_prompt_spec(thoughts@),
{
    let mut dashed: Vec<Vec<u8>> = Vec::new();
    let mut i: usize = 0;
    proof {
        assert(dashed.deep_view() =~= dashed_contents(thoughts@).take(0));
    }
    while i < thoughts.len()
        invariant
            0 <= i <= thoughts@.len(),
            dashed.deep_view() == dashed_contents(thoughts@).take(i as int),
        decreases thoughts@.len() - i,
    {
        let ghost prev = dashed.deep_view();
        let c = &thoughts[i].content;
        let line = concat_bytes("- ".as_bytes_vec().as_slice(), c.as_slice());
        dashed.push(line);
        proof {
            assert(dashed.deep_view() =~~= prev.push("- ".spec_bytes()
                + thoughts@[i as int].content@));
            assert(dashed_contents(thoughts@).take(i + 1) =~= dashed_contents(thoughts@).take(
                i as int,
            ).push("- ".spec_bytes() + thoughts@[i as int].content@));
        }
        i += 1;
    }
    proof {
        assert(dashed_contents(thoughts@).take(thoughts@.len() as int) =~= dashed_contents(
            thoughts@,
        ));
    }
    let sep = newline_sep();
    let joined = join_bytes(&dashed, sep.as_slice());
    let head =
        "Based on these thoughts, create a detailed strategic plan.\n            \n            Thoughts for consideration:\n            ".as_bytes_vec();
    let tail =
        "\n            \n            Instructions:\n            1. Create a clear plan summary\n            2. Generate at least 3 actionable plan nodes\n            3. Each node must have a title, description, and completion estimate (0-1)\n            4. Assign a relevance score to the overall plan\n            \n            Respond in exactly this format:\n            SUMMARY:\n            [Write a clear 1-2 sentence plan summary]\n            \n            NODES:\n            1. [Node Title] | [Detailed description of the node's objective and approach] | [Completion estimate between 0-1]\n            2. [Node Title] | [Detailed description of the node's objective and approach] | [Completion estimate between 0-1]\n            3. [Node Title] | [Detailed description of the node's objective and approach] | [Completion estimate between 0-1]\n            \n            SCORE:\n            [Overall plan score between 0-1]".as_bytes_vec();
    let a = concat_bytes(head.as_slice(), joined.as_slice());
    let r = concat_bytes(a.as_slice(), tail.as_slice());
    proof {
        assert(r@ =~= plan_prompt_spec(thoughts@));
    }
    r
}

} // verus!
