//! The content policy filter: generated thought text must not leak
//! internal simulation state.
//!
//! A fixed list of banned terms is matched case-insensitively anywhere in
//! the text.  Validation rejects the whole text; cleaning removes exactly
//! the offending lines and rejoins the rest in order.

use vstd::prelude::*;
use vstd::string::StrSliceExecFns;
use vstd::string::StringSliceAdditionalSpecFns;

use crate::text::contains_seq;
use crate::text::join_with;
use crate::text::lines;
use crate::text::lower_seq;
use crate::text::spec_lines;
use crate::text::to_lower;
use crate::text::contains_sub;

verus! {

/// The banned internal-state terms, as byte strings.
pub open spec fn banned_terms() -> Seq<Seq<u8>> {
    seq![
        "energy level".spec_bytes(),
        "evolution stage".spec_bytes(),
        "dimensional position".spec_bytes(),
        "emergence:".spec_bytes(),
        "coherence:".spec_bytes(),
        "resilience:".spec_bytes(),
        "intelligence:".spec_bytes(),
        "efficiency:".spec_bytes(),
        "integration:".spec_bytes(),
    ]
}

/// `s` passes the policy filter: no banned term occurs in it,
/// case-insensitively.
pub open spec fn content_ok(s: Seq<u8>) -> bool {
    forall|k: int|
        0 <= k < banned_terms().len() ==> !contains_seq(
            lower_seq(s),
            lower_seq(#[trigger] banned_terms()[k]),
        )
}

/// The banned terms as runtime values.
fn banned_terms_exec() -> (r: Vec<Vec<u8>>)
    ensures
        r.deep_view() == banned_terms(),
{
    let mut r: Vec<Vec<u8>> = Vec::new();
    r.push("energy level".as_bytes_vec());
    r.push("evolution stage".as_bytes_vec());
    r.push("dimensional position".as_bytes_vec());
    r.push("emergence:".as_bytes_vec());
    r.push("coherence:".as_bytes_vec());
    r.push("resilience:".as_bytes_vec());
    r.push("intelligence:".as_bytes_vec());
    r.push("efficiency:".as_bytes_vec());
    r.push("integration:".as_bytes_vec());
    proof {
        assert(r.deep_view() =~~= banned_terms());
    }
    r
}

/// Decide whether thought text is free of banned internal-state terms.
///
/// Returns `true` exactly when no banned term occurs in the text,
/// comparing case-insensitively.
#[verifier::loop_isolation(false)]
pub fn validate_thought_content(thought: &[u8]) -> (r: bool)
    ensures
        r == content_ok(thought@),
{
    let lowered = to_lower(thought);
    let terms = banned_terms_exec();
    let nt = terms.len();
    let mut k: usize = 0;
    while k < nt
        invariant
            0 <= k <= nt,
            forall|m: int|
                0 <= m < k ==> !contains_seq(
                    lower_seq(thought@),
                    lower_seq(#[trigger] banned_terms()[m]),
                ),
        decreases nt - k,
    {
        proof {
            assert(terms@[k as int]@ =~= banned_terms()[k as int]);
        }
        let lt = to_lower(terms[k].as_slice());
        if contains_sub(lowered.as_slice(), lt.as_slice()) {
            return false;
        }
        k += 1;
    }
    true
}

/// The lines of `ls` that pass the policy filter, in order.
pub open spec fn keep_ok_lines(ls: Seq<Seq<u8>>) -> Seq<Seq<u8>>
    decreases ls.len(),
{
    if ls.len() == 0 {
        Seq::<Seq<u8>>::empty()
    } else if content_ok(ls[0]) {
        seq![ls[0]] + keep_ok_lines(ls.drop_first())
    } else {
        keep_ok_lines(ls.drop_first())
    }
}

/// Filtering one more line keeps it exactly when it passes.
pub proof fn lemma_keep_push(ls: Seq<Seq<u8>>, x: Seq<u8>)
    ensures
        keep_ok_lines(ls.push(x)) == if content_ok(x) {
            keep_ok_lines(ls).push(x)
        } else {
            keep_ok_lines(ls)
        },
    decreases ls.len(),
{
    if ls.len() == 0 {
        assert(ls.push(x)[0] == x);
        assert(ls.push(x).drop_first() =~= ls);
        if content_ok(x) {
            assert(keep_ok_lines(ls.push(x)) =~= keep_ok_lines(ls).push(x));
        }
    } else {
        lemma_keep_push(ls.drop_first(), x);
        assert(ls.push(x)[0] == ls[0]);
        assert(ls.push(x).drop_first() =~= ls.drop_first().push(x));
        if content_ok(ls[0]) {
            if content_ok(x) {
                assert(seq![ls[0]] + keep_ok_lines(ls.drop_first()).push(x) =~= (seq![ls[0]]
                    + keep_ok_lines(ls.drop_first())).push(x));
            }
        }
    }
}

/// Cleaning law: every line the filter keeps passes the policy, so the
/// cleaned text is built only from inoffensive lines, in their original
/// order (which lines are kept is settled line by line by
/// [`lemma_keep_push`]).
pub proof fn lemma_kept_lines_pass(ls: Seq<Seq<u8>>)
    ensures
        forall|i: int|
            0 <= i < keep_ok_lines(ls).len() ==> content_ok(#[trigger] keep_ok_lines(ls)[i]),
    decreases ls.len(),
{
    if ls.len() > 0 {
        lemma_kept_lines_pass(ls.drop_first());
        assert forall|i: int| 0 <= i < keep_ok_lines(ls).len() implies content_ok(
            #[trigger] keep_ok_lines(ls)[i],
        ) by {
            if content_ok(ls[0]) {
                if i == 0 {
                    assert(keep_ok_lines(ls)[0] == ls[0]);
                } else {
                    assert(keep_ok_lines(ls)[i] == keep_ok_lines(ls.drop_first())[i - 1]);
                }
            } else {
                assert(keep_ok_lines(ls)[i] == keep_ok_lines(ls.drop_first())[i]);
            }
        }
    }
}

/// The cleaned form of `s`: its policy-passing lines, rejoined with
/// newlines, in their original order.
pub open spec fn spec_clean(s: Seq<u8>) -> Seq<u8> {
    join_with(keep_ok_lines(spec_lines(s)), seq![10u8])
}

/// Remove exactly the lines holding a banned term and rejoin the rest
/// with newlines, preserving their order and content.
#[verifier::loop_isolation(false)]
pub fn clean_thought_content(thought: &[u8]) -> (r: Vec<u8>)
    ensures
        r@ == spec_clean(thought@),
{
    let ls = lines(thought);
    let n = ls.len();
    let mut kept: Vec<Vec<u8>> = Vec::new();
    let mut i: usize = 0;
    proof {
        assert(kept.deep_view() =~= keep_ok_lines(ls.deep_view().take(0)));
    }
    while i < n
        invariant
            0 <= i <= n,
            n == ls@.len(),
            kept.deep_view() == keep_ok_lines(ls.deep_view().take(i as int)),
        decreases n - i,
    {
        let ghost prev = kept.deep_view();
        let line = &ls[i];
        proof {
            assert(line@ =~= ls.deep_view()[i as int]);
        }
        if validate_thought_content(line.as_slice()) {
            let mut copy: Vec<u8> = Vec::new();
            let mut k: usize = 0;
            while k < line.len()
                invariant
                    0 <= k <= line@.len(),
                    copy@ =~= line@.take(k as int),
                decreases line@.len() - k,
            {
                copy.push(line[k]);
                k += 1;
            }
            proof {
                assert(copy@ =~= line@);
            }
            kept.push(copy);
            proof {
                assert(kept.deep_view() =~~= prev.push(line@));
            }
        }
        proof {
            lemma_keep_push(ls.deep_view().take(i as int), ls.deep_view()[i as int]);
            assert(ls.deep_view().take(i as int).push(ls.deep_view()[i as int]) =~= ls.deep_view()
                .take(i + 1));
        }
        i += 1;
    }
    proof {
        assert(ls.deep_view().take(n as int) =~= ls.deep_view());
    }
    let mut sep: Vec<u8> = Vec::new();
    sep.push(10);
    proof {
        assert(sep@ =~= seq![10u8]);
    }
    let r = crate::text::join_bytes(&kept, sep.as_slice());
    r
}

} // verus!
