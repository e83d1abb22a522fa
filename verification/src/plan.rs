//! Plan-creation parsing: a section scan over the completion collects a
//! summary, pipe-delimited node lines and a score, every part falling
//! back to a default instead of failing; short node lists are padded to
//! at least three nodes.

use vstd::prelude::*;
use vstd::string::StrSliceExecFns;
use vstd::string::StringSliceAdditionalSpecFns;

use crate::decimal::Decimal;
use crate::decimal::clamp_unit;
use crate::decimal::clamp_unit_spec;
use crate::decimal::parse_decimal;
use crate::decimal::parse_decimal_spec;
use crate::decimal::token_value;
use crate::ids::fresh_id;
use crate::ids::now_unix_millis;
use crate::text::bytes_eq;
use crate::text::concat_bytes;
use crate::text::dec_digits;
use crate::text::fmt_u64;
use crate::text::lines;
use crate::text::spec_lines;
use crate::text::spec_trim;
use crate::text::split_at_byte;
use crate::text::split_bytes;
use crate::text::trim_bytes;
use crate::types::Plan;
use crate::types::PlanNode;
use crate::types::PlanNodeStatus;
use crate::types::PlanStatus;
use crate::types::Thought;

verus! {

/// Which section of the plan completion the scan is inside.
#[derive(Clone, Copy, Debug, PartialEq, Eq, Structural)]
pub enum PlanSection {
    Before,
    Summary,
    Nodes,
    Score,
}

/// A parsed node line: title, description and clamped completion
/// estimate in micro-units.
pub struct NodeSpec {
    pub title: Seq<u8>,
    pub description: Seq<u8>,
    pub completion: int,
}

/// The scan state: active section, last summary line, collected node
/// lines and last score.
pub struct PlanScan {
    pub section: PlanSection,
    pub summary: Seq<u8>,
    pub nodes: Seq<NodeSpec>,
    pub score: int,
}

/// The summary used when the completion offers none.
pub open spec fn default_summary() -> Seq<u8> {
    "Plan based on collected thoughts".spec_bytes()
}

/// The scan before any line: no section, default summary, no nodes,
/// score one half.
pub open spec fn init_scan() -> PlanScan {
    PlanScan {
        section: PlanSection::Before,
        summary: default_summary(),
        nodes: Seq::<NodeSpec>::empty(),
        score: 500_000,
    }
}

/// The node a trimmed line denotes: at least three pipe-delimited parts
/// with non-empty trimmed title and description; the completion estimate
/// falls back to zero when unparsable and is clamped to `[0, 1]`.
pub open spec fn node_of_line(t: Seq<u8>) -> Option<NodeSpec> {
    let parts = split_at_byte(t, 124);
    if parts.len() >= 3 {
        let title = spec_trim(parts[0]);
        let desc = spec_trim(parts[1]);
        let ctok = spec_trim(parts[2]);
        if title.len() > 0 && desc.len() > 0 {
            let c = if parse_decimal_spec(ctok) is Some {
                clamp_unit_spec(token_value(ctok))
            } else {
                0
            };
            Some(NodeSpec { title, description: desc, completion: c })
        } else {
            None
        }
    } else {
        None
    }
}

/// One scan step: a marker line switches the section, a blank line is
/// skipped, any other line feeds the active section.
pub open spec fn scan_step(st: PlanScan, line: Seq<u8>) -> PlanScan {
    let t = spec_trim(line);
    if t == "SUMMARY:".spec_bytes() {
        PlanScan { section: PlanSection::Summary, summary: st.summary, nodes: st.nodes, score: st.score }
    } else if t == "NODES:".spec_bytes() {
        PlanScan { section: PlanSection::Nodes, summary: st.summary, nodes: st.nodes, score: st.score }
    } else if t == "SCORE:".spec_bytes() {
        PlanScan { section: PlanSection::Score, summary: st.summary, nodes: st.nodes, score: st.score }
    } else if t.len() == 0 {
        st
    } else {
        match st.section {
            PlanSection::Before => st,
            PlanSection::Summary => PlanScan {
                section: st.section,
                summary: t,
                nodes: st.nodes,
                score: st.score,
            },
            PlanSection::Nodes => match node_of_line(t) {
                Some(nd) => PlanScan {
                    section: st.section,
                    summary: st.summary,
                    nodes: st.nodes.push(nd),
                    score: st.score,
                },
                None => st,
            },
            PlanSection::Score => if parse_decimal_spec(t) is Some {
                PlanScan {
                    section: st.section,
                    summary: st.summary,
                    nodes: st.nodes,
                    score: token_value(t),
                }
            } else {
                st
            },
        }
    }
}

/// The scan folded over a sequence of lines.
pub open spec fn scan_lines(ls: Seq<Seq<u8>>) -> PlanScan
    decreases ls.len(),
{
    if ls.len() == 0 {
        init_scan()
    } else {
        scan_step(scan_lines(ls.drop_last()), ls.last())
    }
}

/// The scan of a whole completion.
pub open spec fn plan_scan_of(s: Seq<u8>) -> PlanScan {
    scan_lines(spec_lines(s))
}

/// The three synthesized nodes used when no node line parsed.
pub open spec fn default_node_specs(summary: Seq<u8>) -> Seq<NodeSpec> {
    seq![
        NodeSpec {
            title: "Initial Analysis".spec_bytes(),
            description: "Analyze current state and requirements for: ".spec_bytes() + summary,
            completion: 0,
        },
        NodeSpec {
            title: "Implementation Strategy".spec_bytes(),
            description: "Develop detailed implementation approach based on initial analysis".spec_bytes(),
            completion: 0,
        },
        NodeSpec {
            title: "Validation and Review".spec_bytes(),
            description: "Review implementation results and validate against objectives".spec_bytes(),
            completion: 0,
        },
    ]
}

/// The synthesized node appended at position `index` (counted from one)
/// while fewer than three nodes exist.
pub open spec fn filler_node_spec(index: int) -> NodeSpec {
    NodeSpec {
        title: "Phase ".spec_bytes() + dec_digits(index as nat),
        description: "Execute phase ".spec_bytes() + dec_digits(index as nat)
            + " of the plan".spec_bytes(),
        completion: 0,
    }
}

/// `base` padded with filler nodes up to three.
pub open spec fn padded_node_specs(base: Seq<NodeSpec>) -> Seq<NodeSpec>
    decreases 3 - base.len(),
{
    if base.len() >= 3 {
        base
    } else {
        padded_node_specs(base.push(filler_node_spec((base.len() + 1) as int)))
    }
}

/// The node list a completion yields: the parsed nodes, or the defaults
/// when none parsed, padded to at least three.
pub open spec fn final_node_specs(s: Seq<u8>) -> Seq<NodeSpec> {
    let sc = plan_scan_of(s);
    if sc.nodes.len() == 0 {
        padded_node_specs(default_node_specs(sc.summary))
    } else {
        padded_node_specs(sc.nodes)
    }
}

/// An executable node realizes a parsed node line: same title,
/// description and clamped completion, pending status, no dependencies.
pub open spec fn node_matches(n: PlanNode, s: NodeSpec) -> bool {
    &&& n.title@ == s.title
    &&& n.description@ == s.description
    &&& n.estimated_completion.wf()
    &&& n.estimated_completion.value() == s.completion
    &&& n.status == PlanNodeStatus::Pending
    &&& n.dependencies@ == Seq::<u128>::empty()
}

/// Parse one trimmed node line.
///
/// Accepts the line exactly when it splits into at least three
/// pipe-delimited parts with non-empty trimmed title and description;
/// the completion estimate falls back to zero and is clamped to `[0, 1]`.
pub fn parse_plan_node(t: &[u8]) -> (r: Option<PlanNode>)
    ensures
        match r {
            Some(n) => node_of_line(t@) is Some && node_matches(n, node_of_line(t@).unwrap()),
            None => node_of_line(t@) is None,
        },
{
    let parts = split_bytes(t, 124);
    proof {
        assert(parts.deep_view() == split_at_byte(t@, 124));
    }
    if parts.len() < 3 {
        return None;
    }
    proof {
        assert(parts@[0]@ =~= split_at_byte(t@, 124)[0]);
        assert(parts@[1]@ =~= split_at_byte(t@, 124)[1]);
        assert(parts@[2]@ =~= split_at_byte(t@, 124)[2]);
    }
    let title = trim_bytes(parts[0].as_slice());
    let desc = trim_bytes(parts[1].as_slice());
    let ctok = trim_bytes(parts[2].as_slice());
    if title.len() == 0 || desc.len() == 0 {
        return None;
    }
    let completion = match parse_decimal(ctok.as_slice()) {
        Some(d) => clamp_unit(d),
        None => Decimal::zero(),
    };
    Some(
        PlanNode {
            id: fresh_id(),
            title,
            description: desc,
            status: PlanNodeStatus::Pending,
            estimated_completion: completion,
            dependencies: Vec::new(),
        },
    )
}

/// The three synthesized default nodes for a summary.
pub fn generate_default_nodes(summary: &[u8]) -> (r: Vec<PlanNode>)
    ensures
        r@.len() == 3,
        forall|i: int|
            0 <= i < 3 ==> node_matches(#[trigger] r@[i], default_node_specs(summary@)[i]),
{
    let mut r: Vec<PlanNode> = Vec::new();
    let d1 = concat_bytes(
        "Analyze current state and requirements for: ".as_bytes_vec().as_slice(),
        summary,
    );
    r.push(
        PlanNode {
            id: fresh_id(),
            title: "Initial Analysis".as_bytes_vec(),
            description: d1,
            status: PlanNodeStatus::Pending,
            estimated_completion: Decimal::zero(),
            dependencies: Vec::new(),
        },
    );
    r.push(
        PlanNode {
            id: fresh_id(),
            title: "Implementation Strategy".as_bytes_vec(),
            description: "Develop detailed implementation approach based on initial analysis".as_bytes_vec(),
            status: PlanNodeStatus::Pending,
            estimated_completion: Decimal::zero(),
            dependencies: Vec::new(),
        },
    );
    r.push(
        PlanNode {
            id: fresh_id(),
            title: "Validation and Review".as_bytes_vec(),
            description: "Review implementation results and validate against objectives".as_bytes_vec(),
            status: PlanNodeStatus::Pending,
            estimated_completion: Decimal::zero(),
            dependencies: Vec::new(),
        },
    );
    r
}

/// The synthesized filler node for position `index` (counted from one).
pub fn create_default_node(index: u64) -> (r: PlanNode)
    ensures
        node_matches(r, filler_node_spec(index as int)),
{
    let digits = fmt_u64(index);
    let title = concat_bytes("Phase ".as_bytes_vec().as_slice(), digits.as_slice());
    let head = concat_bytes("Execute phase ".as_bytes_vec().as_slice(), digits.as_slice());
    let description = concat_bytes(head.as_slice(), " of the plan".as_bytes_vec().as_slice());
    PlanNode {
        id: fresh_id(),
        title,
        description,
        status: PlanNodeStatus::Pending,
        estimated_completion: Decimal::zero(),
        dependencies: Vec::new(),
    }
}

/// Assemble a plan from a completion and its source thoughts.
///
/// The summary, nodes and score come from the section scan of the
/// completion, every part degrading to its default instead of failing;
/// the node list is padded to at least three entries, the status is
/// `Proposed`, and the thoughts are carried over unchanged.
#[verifier::loop_isolation(false)]
pub fn create_plan_from_response(response: &[u8], thoughts: Vec<Thought>) -> (r: Plan)
    ensures
        ({
            let sc = plan_scan_of(response@);
            let ns = final_node_specs(response@);
            &&& r.summary@ == sc.summary
            &&& r.score.wf() && r.score.value() == sc.score
            &&& r.status == PlanStatus::Proposed
            &&& r.thoughts == thoughts
            &&& r.participating_cells@ == Seq::<u128>::empty()
            &&& r.nodes@.len() == ns.len()
            &&& r.nodes@.len() >= 3
            &&& forall|i: int| 0 <= i < ns.len() ==> node_matches(#[trigger] r.nodes@[i], ns[i])
        }),
{
    let ls = lines(response);
    let ghost lv = spec_lines(response@);
    let n = ls.len();
    let mut section: PlanSection = PlanSection::Before;
    let mut summary: Vec<u8> = "Plan based on collected thoughts".as_bytes_vec();
    let mut nodes: Vec<PlanNode> = Vec::new();
    let mut score = Decimal::from_micros(500_000);
    let sum_marker = "SUMMARY:".as_bytes_vec();
    let nodes_marker = "NODES:".as_bytes_vec();
    let score_marker = "SCORE:".as_bytes_vec();
    let mut i: usize = 0;
    proof {
        assert(lv.take(0) =~= Seq::<Seq<u8>>::empty());
    }
    while i < n
        invariant
            0 <= i <= n,
            n == ls@.len(),
            ls.deep_view() == lv,
            sum_marker@ == "SUMMARY:".spec_bytes(),
            nodes_marker@ == "NODES:".spec_bytes(),
            score_marker@ == "SCORE:".spec_bytes(),
            section == scan_lines(lv.take(i as int)).section,
            summary@ == scan_lines(lv.take(i as int)).summary,
            score.wf(),
            score.value() == scan_lines(lv.take(i as int)).score,
            nodes@.len() == scan_lines(lv.take(i as int)).nodes.len(),
            forall|m: int|
                0 <= m < nodes@.len() ==> node_matches(
                    #[trigger] nodes@[m],
                    scan_lines(lv.take(i as int)).nodes[m],
                ),
        decreases n - i,
    {
        let ghost st = scan_lines(lv.take(i as int));
        proof {
            assert(ls@[i as int]@ =~= lv[i as int]);
            assert(lv.take(i + 1).drop_last() =~= lv.take(i as int));
            assert(lv.take(i + 1).last() == lv[i as int]);
        }
        let t = trim_bytes(ls[i].as_slice());
        if bytes_eq(t.as_slice(), sum_marker.as_slice()) {
            section = PlanSection::Summary;
        } else if bytes_eq(t.as_slice(), nodes_marker.as_slice()) {
            section = PlanSection::Nodes;
        } else if bytes_eq(t.as_slice(), score_marker.as_slice()) {
            section = PlanSection::Score;
        } else if t.len() == 0 {
        } else {
            match section {
                PlanSection::Before => {},
                PlanSection::Summary => {
                    summary = t;
                },
                PlanSection::Nodes => {
                    match parse_plan_node(t.as_slice()) {
                        Some(nd) => {
                            nodes.push(nd);
                        },
                        None => {},
                    }
                },
                PlanSection::Score => {
                    match parse_decimal(t.as_slice()) {
                        Some(d) => {
                            score = d;
                        },
                        None => {},
                    }
                },
            }
        }
        i += 1;
    }
    proof {
        assert(lv.take(n as int) =~= lv);
    }
    let ghost sc = plan_scan_of(response@);
    if nodes.len() == 0 {
        nodes = generate_default_nodes(summary.as_slice());
    }
    let ghost base = if sc.nodes.len() == 0 {
        default_node_specs(sc.summary)
    } else {
        sc.nodes
    };
    let ghost mut cur = base;
    while nodes.len() < 3
        invariant
            summary@ == sc.summary,
            nodes@.len() == cur.len(),
            forall|m: int| 0 <= m < cur.len() ==> node_matches(#[trigger] nodes@[m], cur[m]),
            padded_node_specs(cur) == padded_node_specs(base),
        decreases 3 - nodes@.len(),
    {
        let idx = nodes.len() + 1;
        let nd = create_default_node(idx as u64);
        nodes.push(nd);
        proof {
            cur = cur.push(filler_node_spec((cur.len() + 1) as int));
        }
    }
    proof {
        assert(padded_node_specs(cur) == cur);
        assert(final_node_specs(response@) == cur);
    }
    Plan {
        id: fresh_id(),
        summary,
        nodes,
        thoughts,
        score,
        participating_cells: Vec::new(),
        created_at_millis: now_unix_millis(),
        status: PlanStatus::Proposed,
    }
}

} // verus!
