//! The batch coordinator's collection step: pair each identity with the
//! thought generated for it, in a map from identity to a one-element
//! result list.

use vstd::prelude::*;
use std::collections::HashMap;

use crate::types::GeneratedThought;

verus! {

broadcast use vstd::std_specs::hash::group_hash_axioms;

/// Collect per-identity generation results into a mapping.
///
/// Over `n` distinct identities the mapping holds exactly those `n`
/// keys, each bound to a one-element list holding that identity's own
/// result, in the order the results were produced.
#[verifier::loop_isolation(false)]
pub fn collect_batch(ids: &Vec<u128>, results: Vec<GeneratedThought>) -> (r: HashMap<
    u128,
    Vec<GeneratedThought>,
>)
    requires
        ids@.len() == results@.len(),
        forall|i: int, j: int| 0 <= i < j < ids@.len() ==> ids@[i] != ids@[j],
    ensures
        forall|i: int|
            0 <= i < ids@.len() ==> r@.contains_key(#[trigger] ids@[i]) && r@[ids@[i]]@.len() == 1
                && r@[ids@[i]]@[0] == results@[i],
        forall|k: u128| r@.contains_key(k) ==> exists|i: int| 0 <= i < ids@.len() && ids@[i] == k,
{
    let ghost all = results@;
    let mut results = results;
    let mut r: HashMap<u128, Vec<GeneratedThought>> = HashMap::new();
    let n = ids.len();
    let mut i: usize = 0;
    while i < n
        invariant
            0 <= i <= n,
            n == ids@.len(),
            results@ == all.skip(i as int),
            all.len() == n,
            forall|j: int|
                0 <= j < i ==> r@.contains_key(#[trigger] ids@[j]) && r@[ids@[j]]@.len() == 1
                    && r@[ids@[j]]@[0] == all[j],
            forall|k: u128| r@.contains_key(k) ==> exists|j: int| 0 <= j < i && ids@[j] == k,
        decreases n - i,
    {
        let ghost before = results@;
        let item = results.remove(0);
        proof {
            assert(item == all[i as int]);
            assert(before.remove(0) =~= all.skip(i + 1));
        }
        let mut one: Vec<GeneratedThought> = Vec::new();
        one.push(item);
        let id = ids[i];
        r.insert(id, one);
        proof {
            assert forall|k: u128| r@.contains_key(k) implies exists|j: int|
                0 <= j < i + 1 && ids@[j] == k by {
                if k == id {
                    assert(ids@[i as int] == k);
                } else {
                    assert(exists|j: int| 0 <= j < i && ids@[j] == k);
                }
            }
        }
        i += 1;
    }
    proof {
        assert(all.skip(n as int).len() == 0);
    }
    r
}

} // verus!
