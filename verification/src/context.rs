//! Context-gathering parsing: a section scan that collects four signal
//! lists and never fails; missing sections yield empty lists.

use vstd::prelude::*;
use vstd::string::StrSliceExecFns;
use vstd::string::StringSliceAdditionalSpecFns;

use crate::ids::now_unix_millis;
use crate::text::bytes_eq;
use crate::text::lines;
use crate::text::spec_lines;
use crate::text::spec_trim;
use crate::text::trim_bytes;
use crate::types::RealTimeContext;

verus! {

/// Which signal list the scan is filling.
#[derive(Clone, Copy, Debug, PartialEq, Eq, Structural)]
pub enum ContextSection {
    Before,
    Market,
    Tech,
    Events,
    Interactions,
}

/// The scan state: active section and the four collected lists.
pub struct ContextScan {
    pub section: ContextSection,
    pub market: Seq<Seq<u8>>,
    pub tech: Seq<Seq<u8>>,
    pub events: Seq<Seq<u8>>,
    pub interactions: Seq<Seq<u8>>,
}

/// The scan before any line: no section, all lists empty.
pub open spec fn init_context_scan() -> ContextScan {
    ContextScan {
        section: ContextSection::Before,
        market: Seq::<Seq<u8>>::empty(),
        tech: Seq::<Seq<u8>>::empty(),
        events: Seq::<Seq<u8>>::empty(),
        interactions: Seq::<Seq<u8>>::empty(),
    }
}

/// One scan step: a marker line switches the list, a blank line is
/// skipped, any other line joins the active list trimmed; lines before
/// any marker are dropped.
pub open spec fn context_step(st: ContextScan, line: Seq<u8>) -> ContextScan {
    let t = spec_trim(line);
    if t == "MARKET_TRENDS:".spec_bytes() {
        ContextScan { section: ContextSection::Market, ..st }
    } else if t == "TECH_DEVELOPMENTS:".spec_bytes() {
        ContextScan { section: ContextSection::Tech, ..st }
    } else if t == "CURRENT_EVENTS:".spec_bytes() {
        ContextScan { section: ContextSection::Events, ..st }
    } else if t == "USER_INTERACTIONS:".spec_bytes() {
        ContextScan { section: ContextSection::Interactions, ..st }
    } else if t.len() == 0 {
        st
    } else {
        match st.section {
            ContextSection::Before => st,
            ContextSection::Market => ContextScan { market: st.market.push(t), ..st },
            ContextSection::Tech => ContextScan { tech: st.tech.push(t), ..st },
            ContextSection::Events => ContextScan { events: st.events.push(t), ..st },
            ContextSection::Interactions => ContextScan {
                interactions: st.interactions.push(t),
                ..st
            },
        }
    }
}

/// The scan folded over a sequence of lines.
pub open spec fn context_scan_lines(ls: Seq<Seq<u8>>) -> ContextScan
    decreases ls.len(),
{
    if ls.len() == 0 {
        init_context_scan()
    } else {
        context_step(context_scan_lines(ls.drop_last()), ls.last())
    }
}

/// The scan of a whole completion.
pub open spec fn context_scan_of(s: Seq<u8>) -> ContextScan {
    context_scan_lines(spec_lines(s))
}

/// Parse a context-gathering completion into a [`RealTimeContext`].
///
/// Never fails: each signal list holds exactly the trimmed non-blank
/// lines of its section, in order, and a missing section yields an empty
/// list.  The environment mapping and mission-progress list are empty,
/// and the timestamp is the wall clock's.
#[verifier::loop_isolation(false)]
pub fn parse_real_time_context(response: &[u8]) -> (r: RealTimeContext)
    ensures
        ({
            let sc = context_scan_of(response@);
            &&& r.market_trends.deep_view() == sc.market
            &&& r.technological_developments.deep_view() == sc.tech
            &&& r.current_events.deep_view() == sc.events
            &&& r.user_interactions.deep_view() == sc.interactions
            &&& r.environmental_data@ == Seq::<(Vec<u8>, Vec<u8>)>::empty()
            &&& r.mission_progress@ == Seq::<Vec<u8>>::empty()
        }),
{
    let ls = lines(response);
    let ghost lv = spec_lines(response@);
    let n = ls.len();
    let mut section: ContextSection = ContextSection::Before;
    let mut market: Vec<Vec<u8>> = Vec::new();
    let mut tech: Vec<Vec<u8>> = Vec::new();
    let mut events: Vec<Vec<u8>> = Vec::new();
    let mut interactions: Vec<Vec<u8>> = Vec::new();
    let m_market = "MARKET_TRENDS:".as_bytes_vec();
    let m_tech = "TECH_DEVELOPMENTS:".as_bytes_vec();
    let m_events = "CURRENT_EVENTS:".as_bytes_vec();
    let m_inter = "USER_INTERACTIONS:".as_bytes_vec();
    let mut i: usize = 0;
    proof {
        assert(lv.take(0) =~= Seq::<Seq<u8>>::empty());
    }
    while i < n
        invariant
            0 <= i <= n,
            n == ls@.len(),
            ls.deep_view() == lv,
            m_market@ == "MARKET_TRENDS:".spec_bytes(),
            m_tech@ == "TECH_DEVELOPMENTS:".spec_bytes(),
            m_events@ == "CURRENT_EVENTS:".spec_bytes(),
            m_inter@ == "USER_INTERACTIONS:".spec_bytes(),
            section == context_scan_lines(lv.take(i as int)).section,
            market.deep_view() == context_scan_lines(lv.take(i as int)).market,
            tech.deep_view() == context_scan_lines(lv.take(i as int)).tech,
            events.deep_view() == context_scan_lines(lv.take(i as int)).events,
            interactions.deep_view() == context_scan_lines(lv.take(i as int)).interactions,
        decreases n - i,
    {
        proof {
            assert(ls@[i as int]@ =~= lv[i as int]);
            assert(lv.take(i + 1).drop_last() =~= lv.take(i as int));
            assert(lv.take(i + 1).last() == lv[i as int]);
        }
        let t = trim_bytes(ls[i].as_slice());
        if bytes_eq(t.as_slice(), m_market.as_slice()) {
            section = ContextSection::Market;
        } else if bytes_eq(t.as_slice(), m_tech.as_slice()) {
            section = ContextSection::Tech;
        } else if bytes_eq(t.as_slice(), m_events.as_slice()) {
            section = ContextSection::Events;
        } else if bytes_eq(t.as_slice(), m_inter.as_slice()) {
            section = ContextSection::Interactions;
        } else if t.len() == 0 {
        } else {
            match section {
                ContextSection::Before => {},
                ContextSection::Market => {
                    let ghost prev = market.deep_view();
                    market.push(t);
                    proof {
                        assert(market.deep_view() =~~= prev.push(spec_trim(lv[i as int])));
                    }
                },
                ContextSection::Tech => {
                    let ghost prev = tech.deep_view();
                    tech.push(t);
                    proof {
                        assert(tech.deep_view() =~~= prev.push(spec_trim(lv[i as int])));
                    }
                },
                ContextSection::Events => {
                    let ghost prev = events.deep_view();
                    events.push(t);
                    proof {
                        assert(events.deep_view() =~~= prev.push(spec_trim(lv[i as int])));
                    }
                },
                ContextSection::Interactions => {
                    let ghost prev = interactions.deep_view();
                    interactions.push(t);
                    proof {
                        assert(interactions.deep_view() =~~= prev.push(spec_trim(lv[i as int])));
                    }
                },
            }
        }
        i += 1;
    }
    proof {
        assert(lv.take(n as int) =~= lv);
    }
    RealTimeContext {
        timestamp_millis: now_unix_millis(),
        market_trends: market,
        current_events: events,
        technological_developments: tech,
        user_interactions: interactions,
        environmental_data: Vec::new(),
        mission_progress: Vec::new(),
    }
}

} // verus!
