//! An in-memory index of askees by id, built once from the loaded
//! rows. Fetching the rows is the store's work and happens outside this
//! crate; the index itself is plain data.

use vstd::prelude::*;

use std::collections::HashMap;

use crate::models::Askee;

verus! {

broadcast use vstd::std_specs::hash::group_hash_axioms;

/// The id-keyed map a row sequence builds: rows are entered front to
/// back, so of two rows with one id the later wins.
pub open spec fn spec_filter_map(s: Seq<Askee>) -> Map<i32, Askee>
    decreases s.len(),
{
    if s.len() == 0 {
        Map::empty()
    } else {
        spec_filter_map(s.drop_last()).insert(s.last().id, s.last())
    }
}

pub struct AskeeFilter {
    filter: HashMap<i32, Askee>,
}

impl View for AskeeFilter {
    type V = Map<i32, Askee>;

    closed spec fn view(&self) -> Map<i32, Askee> {
        self.filter@
    }
}

impl AskeeFilter {
    /// Build the index from the askee rows.
    pub fn new(askees: Vec<Askee>) -> (r: AskeeFilter)
        ensures
            r@ == spec_filter_map(askees@),
    {
        let n = askees.len();
        let mut filter: HashMap<i32, Askee> = HashMap::new();
        let mut i: usize = 0;
        while i < n
            invariant
                i <= n,
                n == askees@.len(),
                filter@ == spec_filter_map(askees@.take(i as int)),
            decreases n - i,
        {
            let a = askees[i].clone();
            proof {
                assert(askees@.take(i + 1).drop_last() =~= askees@.take(i as int));
                assert(askees@.take(i + 1).last() == askees@[i as int]);
            }
            filter.insert(a.id, a);
            i += 1;
        }
        proof {
            assert(askees@.take(n as int) =~= askees@);
        }
        AskeeFilter { filter }
    }

    /// Whether an askee with this id was among the rows.
    pub fn contains(&self, id: i32) -> (r: bool)
        ensures
            r == self@.contains_key(id),
    {
        self.filter.contains_key(&id)
    }
}

} // verus!
