//! A model of the persistence store: the four operations the service
//! uses, with the behavior the real store is relied on for — assigned
//! ids, referential integrity of `Ask.askee`, uniqueness of `dedup`,
//! and a monotone store clock on `created_at`.

use vstd::prelude::*;
use vstd::string::StringExecFns;

use crate::error::StoreError;
use crate::models::Ask;
use crate::models::Askee;
use crate::timestamp::Timestamp;
use crate::timestamp::spec_le;
use crate::timestamp::spec_lt;

verus! {

/// The vendor code of a foreign-key violation: an `Ask` naming no
/// existing `Askee`.
pub open spec fn fk_violation_code() -> Seq<char> {
    "23503"@
}

/// First askee with the given id, scanning front to back.
pub open spec fn spec_find_askee(s: Seq<Askee>, id: i32) -> Option<Askee>
    decreases s.len(),
{
    if s.len() == 0 {
        None
    } else if s[0].id == id {
        Some(s[0])
    } else {
        spec_find_askee(s.drop_first(), id)
    }
}

/// First ask with the given id.
pub open spec fn spec_find_ask(s: Seq<Ask>, id: i32) -> Option<Ask>
    decreases s.len(),
{
    if s.len() == 0 {
        None
    } else if s[0].id == id {
        Some(s[0])
    } else {
        spec_find_ask(s.drop_first(), id)
    }
}

/// First ask carrying the given dedup token.
pub open spec fn spec_find_dedup(s: Seq<Ask>, dedup: Seq<char>) -> Option<Ask>
    decreases s.len(),
{
    if s.len() == 0 {
        None
    } else if s[0].dedup@ == dedup {
        Some(s[0])
    } else {
        spec_find_dedup(s.drop_first(), dedup)
    }
}

/// A point lookup misses exactly when no element matches.
pub proof fn lemma_find_askee_none(s: Seq<Askee>, id: i32)
    ensures
        spec_find_askee(s, id) is None <==> (forall|i: int| 0 <= i < s.len() ==> (#[trigger] s[i]).id != id),
    decreases s.len(),
{
    if s.len() > 0 {
        if s[0].id == id {
            assert(s[0].id == id);
        } else {
            lemma_find_askee_none(s.drop_first(), id);
            assert(forall|i: int|
                0 <= i < s.drop_first().len() ==> #[trigger] s.drop_first()[i] == s[i + 1]);
            assert(forall|i: int| 1 <= i < s.len() ==> #[trigger] s[i] == s.drop_first()[i - 1]);
        }
    }
}

pub proof fn lemma_find_ask_none(s: Seq<Ask>, id: i32)
    ensures
        spec_find_ask(s, id) is None <==> (forall|i: int| 0 <= i < s.len() ==> (#[trigger] s[i]).id != id),
    decreases s.len(),
{
    if s.len() > 0 {
        if s[0].id == id {
            assert(s[0].id == id);
        } else {
            lemma_find_ask_none(s.drop_first(), id);
            assert(forall|i: int|
                0 <= i < s.drop_first().len() ==> #[trigger] s.drop_first()[i] == s[i + 1]);
            assert(forall|i: int| 1 <= i < s.len() ==> #[trigger] s[i] == s.drop_first()[i - 1]);
        }
    }
}

pub proof fn lemma_find_dedup_none(s: Seq<Ask>, dedup: Seq<char>)
    ensures
        spec_find_dedup(s, dedup) is None <==> (forall|i: int|
            0 <= i < s.len() ==> (#[trigger] s[i]).dedup@ != dedup),
    decreases s.len(),
{
    if s.len() > 0 {
        if s[0].dedup@ == dedup {
            assert(s[0].dedup@ == dedup);
        } else {
            lemma_find_dedup_none(s.drop_first(), dedup);
            assert(forall|i: int|
                0 <= i < s.drop_first().len() ==> #[trigger] s.drop_first()[i] == s[i + 1]);
            assert(forall|i: int| 1 <= i < s.len() ==> #[trigger] s[i] == s.drop_first()[i - 1]);
        }
    }
}

/// Whether an ask falls in the listing for `askee` bounded by
/// `created_at < before` and `created_at > after`.
pub open spec fn in_range(a: Ask, askee: i32, before: Timestamp, after: Timestamp) -> bool {
    &&& a.askee == askee
    &&& a.created_at is Some
    &&& spec_lt(a.created_at->Some_0, before)
    &&& spec_lt(after, a.created_at->Some_0)
}

/// The asks of the listing, in store order.
pub open spec fn spec_asks_in_range(
    s: Seq<Ask>,
    askee: i32,
    before: Timestamp,
    after: Timestamp,
) -> Seq<Ask>
    decreases s.len(),
{
    if s.len() == 0 {
        Seq::empty()
    } else {
        let rest = spec_asks_in_range(s.drop_first(), askee, before, after);
        if in_range(s[0], askee, before, after) {
            seq![s[0]] + rest
        } else {
            rest
        }
    }
}

/// Every listed ask is one of the store's asks and falls in the window.
pub proof fn lemma_in_range_mem(s: Seq<Ask>, askee: i32, before: Timestamp, after: Timestamp)
    ensures
        forall|k: int|
            0 <= k < spec_asks_in_range(s, askee, before, after).len() ==> in_range(
                #[trigger] spec_asks_in_range(s, askee, before, after)[k],
                askee,
                before,
                after,
            ) && exists|i: int|
                0 <= i < s.len() && s[i] == spec_asks_in_range(s, askee, before, after)[k],
    decreases s.len(),
{
    if s.len() > 0 {
        lemma_in_range_mem(s.drop_first(), askee, before, after);
        let f = spec_asks_in_range(s, askee, before, after);
        let fr = spec_asks_in_range(s.drop_first(), askee, before, after);
        assert forall|k: int| 0 <= k < f.len() implies in_range(#[trigger] f[k], askee, before, after)
            && exists|i: int| 0 <= i < s.len() && s[i] == f[k] by {
            if in_range(s[0], askee, before, after) && k == 0 {
                assert(s[0] == f[0]);
            } else {
                let kr = if in_range(s[0], askee, before, after) {
                    k - 1
                } else {
                    k
                };
                assert(f[k] == fr[kr]);
                let i = choose|i: int| 0 <= i < s.drop_first().len() && s.drop_first()[i] == fr[kr];
                assert(s[i + 1] == s.drop_first()[i]);
            }
        }
    }
}

/// Under a monotone store clock, a listing comes out sorted by
/// creation time: filtering preserves store order, and store order is
/// `created_at` order.
pub proof fn lemma_in_range_sorted(s: Seq<Ask>, askee: i32, before: Timestamp, after: Timestamp)
    requires
        forall|i: int| 0 <= i < s.len() ==> (#[trigger] s[i]).created_at is Some,
        forall|i: int, j: int|
            0 <= i < j < s.len() ==> spec_le(
                (#[trigger] s[i]).created_at->Some_0,
                (#[trigger] s[j]).created_at->Some_0,
            ),
    ensures
        forall|i: int, j: int|
            0 <= i < j < spec_asks_in_range(s, askee, before, after).len() ==> spec_le(
                (#[trigger] spec_asks_in_range(s, askee, before, after)[i]).created_at->Some_0,
                (#[trigger] spec_asks_in_range(s, askee, before, after)[j]).created_at->Some_0,
            ),
    decreases s.len(),
{
    if s.len() > 0 {
        let rest = s.drop_first();
        assert(forall|i: int| 0 <= i < rest.len() ==> #[trigger] rest[i] == s[i + 1]);
        lemma_in_range_sorted(rest, askee, before, after);
        lemma_in_range_mem(rest, askee, before, after);
        let f = spec_asks_in_range(s, askee, before, after);
        let fr = spec_asks_in_range(rest, askee, before, after);
        if in_range(s[0], askee, before, after) {
            assert forall|i: int, j: int| 0 <= i < j < f.len() implies spec_le(
                (#[trigger] f[i]).created_at->Some_0,
                (#[trigger] f[j]).created_at->Some_0,
            ) by {
                assert(f[j] == fr[j - 1]);
                if i == 0 {
                    assert(f[0] == s[0]);
                    let k = choose|k: int| 0 <= k < rest.len() && rest[k] == fr[j - 1];
                    assert(s[k + 1] == fr[j - 1]);
                } else {
                    assert(f[i] == fr[i - 1]);
                }
            }
        }
    }
}

pub struct Store {
    pub askees: Vec<Askee>,
    pub asks: Vec<Ask>,
    pub next_askee_id: i32,
    pub next_ask_id: i32,
}

impl Store {
    /// The store's standing invariants: ids are assigned in increasing
    /// order below the next free id; dedup tokens are unique; every ask
    /// names an existing askee and carries a store-assigned timestamp;
    /// the store clock is monotone over insertion order.
    pub open spec fn wf(self) -> bool {
        &&& 1 <= self.next_askee_id
        &&& 1 <= self.next_ask_id
        &&& forall|i: int|
            0 <= i < self.askees@.len() ==> 1 <= (#[trigger] self.askees@[i]).id
                < self.next_askee_id
        &&& forall|i: int, j: int|
            0 <= i < j < self.askees@.len() ==> (#[trigger] self.askees@[i]).id
                < (#[trigger] self.askees@[j]).id
        &&& forall|i: int|
            0 <= i < self.asks@.len() ==> 1 <= (#[trigger] self.asks@[i]).id < self.next_ask_id
        &&& forall|i: int, j: int|
            0 <= i < j < self.asks@.len() ==> (#[trigger] self.asks@[i]).id
                < (#[trigger] self.asks@[j]).id
        &&& forall|i: int, j: int|
            0 <= i < j < self.asks@.len() ==> (#[trigger] self.asks@[i]).dedup@
                != (#[trigger] self.asks@[j]).dedup@
        &&& forall|i: int|
            0 <= i < self.asks@.len() ==> spec_find_askee(
                self.askees@,
                (#[trigger] self.asks@[i]).askee,
            ) is Some
        &&& forall|i: int| 0 <= i < self.asks@.len() ==> (#[trigger] self.asks@[i]).created_at is Some
        &&& forall|i: int, j: int|
            0 <= i < j < self.asks@.len() ==> spec_le(
                (#[trigger] self.asks@[i]).created_at->Some_0,
                (#[trigger] self.asks@[j]).created_at->Some_0,
            )
    }

    /// An empty store.
    pub fn new() -> (r: Store)
        ensures
            r.wf(),
            r.askees@ =~= Seq::<Askee>::empty(),
            r.asks@ =~= Seq::<Ask>::empty(),
            r.next_askee_id == 1,
            r.next_ask_id == 1,
    {
        Store { askees: Vec::new(), asks: Vec::new(), next_askee_id: 1, next_ask_id: 1 }
    }

    /// Insert a new askee; the store assigns the id and the creation
    /// time. Insertion cannot fail: the record has no constraints.
    pub fn create_askee(&mut self, display_name: String, now: Timestamp) -> (id: i32)
        requires
            old(self).wf(),
            old(self).next_askee_id < i32::MAX,
        ensures
            final(self).wf(),
            id == old(self).next_askee_id,
            final(self).askees@ == old(self).askees@.push(
                Askee { id, display_name, created_at: Some(now) },
            ),
            final(self).asks@ == old(self).asks@,
            final(self).next_askee_id == old(self).next_askee_id + 1,
            final(self).next_ask_id == old(self).next_ask_id,
    {
        let id = self.next_askee_id;
        self.next_askee_id = id + 1;
        self.askees.push(Askee { id, display_name, created_at: Some(now) });
        proof {
            assert forall|i: int| 0 <= i < self.asks@.len() implies spec_find_askee(
                self.askees@,
                (#[trigger] self.asks@[i]).askee,
            ) is Some by {
                lemma_find_askee_push(old(self).askees@, self.askees@.last(), self.asks@[i].askee);
            }
        }
        id
    }

    /// Load the askee with the given id; misses surface as the store's
    /// no-row failure.
    pub fn load_askee(&self, id: i32) -> (r: Result<Askee, StoreError>)
        ensures
            r == match spec_find_askee(self.askees@, id) {
                Some(a) => Ok::<Askee, StoreError>(a),
                None => Err::<Askee, StoreError>(StoreError::RowNotFound),
            },
    {
        let n = self.askees.len();
        proof {
            assert(self.askees@.skip(0) =~= self.askees@);
        }
        for i in 0..n
            invariant
                n == self.askees@.len(),
                spec_find_askee(self.askees@, id) == spec_find_askee(self.askees@.skip(i as int), id),
        {
            proof {
                assert(self.askees@.skip(i as int).drop_first() =~= self.askees@.skip(i + 1));
                assert(self.askees@.skip(i as int)[0] == self.askees@[i as int]);
            }
            if self.askees[i].id == id {
                return Ok(self.askees[i].clone());
            }
        }
        proof {
            assert(self.askees@.skip(n as int) =~= Seq::<Askee>::empty());
        }
        Err(StoreError::RowNotFound)
    }

    /// All askees, in id order (the order they were inserted).
    pub fn fetch_all_askees(&self) -> (r: Vec<Askee>)
        ensures
            r@ == self.askees@,
    {
        let n = self.askees.len();
        let mut out: Vec<Askee> = Vec::new();
        proof {
            assert(self.askees@.skip(0) =~= self.askees@);
        }
        for i in 0..n
            invariant
                n == self.askees@.len(),
                out@ =~= self.askees@.take(i as int),
        {
            out.push(self.askees[i].clone());
            proof {
                assert(out@ =~= self.askees@.take(i + 1));
            }
        }
        proof {
            assert(self.askees@.take(n as int) =~= self.askees@);
        }
        out
    }

    /// Whether some ask already carries this dedup token.
    fn has_dedup(&self, dedup: &String) -> (r: bool)
        ensures
            r == (spec_find_dedup(self.asks@, dedup@) is Some),
    {
        let n = self.asks.len();
        proof {
            assert(self.asks@.skip(0) =~= self.asks@);
        }
        for i in 0..n
            invariant
                n == self.asks@.len(),
                spec_find_dedup(self.asks@, dedup@) == spec_find_dedup(
                    self.asks@.skip(i as int),
                    dedup@,
                ),
        {
            proof {
                assert(self.asks@.skip(i as int).drop_first() =~= self.asks@.skip(i + 1));
                assert(self.asks@.skip(i as int)[0] == self.asks@[i as int]);
            }
            if self.asks[i].dedup == *dedup {
                return true;
            }
        }
        proof {
            assert(self.asks@.skip(n as int) =~= Seq::<Ask>::empty());
        }
        false
    }

    /// Whether an askee with this id exists.
    fn has_askee(&self, id: i32) -> (r: bool)
        ensures
            r == (spec_find_askee(self.askees@, id) is Some),
    {
        let n = self.askees.len();
        proof {
            assert(self.askees@.skip(0) =~= self.askees@);
        }
        for i in 0..n
            invariant
                n == self.askees@.len(),
                spec_find_askee(self.askees@, id) == spec_find_askee(self.askees@.skip(i as int), id),
        {
            proof {
                assert(self.askees@.skip(i as int).drop_first() =~= self.askees@.skip(i + 1));
                assert(self.askees@.skip(i as int)[0] == self.askees@[i as int]);
            }
            if self.askees[i].id == id {
                return true;
            }
        }
        proof {
            assert(self.askees@.skip(n as int) =~= Seq::<Askee>::empty());
        }
        false
    }

    /// Insert a new ask. A reused dedup token fails with the
    /// uniqueness-violation code, whatever the other fields hold; a
    /// missing askee fails with the foreign-key code; otherwise the
    /// store assigns the id and creation time and appends the record.
    pub fn create_ask(&mut self, askee: i32, content: String, dedup: String, now: Timestamp) -> (r:
        Result<i32, StoreError>)
        requires
            old(self).wf(),
            old(self).next_ask_id < i32::MAX,
            forall|i: int|
                0 <= i < old(self).asks@.len() ==> spec_le(
                    (#[trigger] old(self).asks@[i]).created_at->Some_0,
                    now,
                ),
        ensures
            final(self).wf(),
            spec_find_dedup(old(self).asks@, dedup@) is Some ==> (r matches Err(
                StoreError::Database { code: Some(c) },
            ) && c@ == crate::error::unique_violation_code()) && *final(self) == *old(self),
            spec_find_dedup(old(self).asks@, dedup@) is None && spec_find_askee(
                old(self).askees@,
                askee,
            ) is None ==> (r matches Err(StoreError::Database { code: Some(c) }) && c@
                == fk_violation_code()) && *final(self) == *old(self),
            spec_find_dedup(old(self).asks@, dedup@) is None && spec_find_askee(
                old(self).askees@,
                askee,
            ) is Some ==> r == Ok::<i32, StoreError>(old(self).next_ask_id) && final(self).asks@
                == old(self).asks@.push(
                Ask {
                    id: old(self).next_ask_id,
                    askee,
                    content,
                    created_at: Some(now),
                    dedup,
                },
            ) && final(self).askees@ == old(self).askees@ && final(self).next_ask_id == old(
                self,
            ).next_ask_id + 1 && final(self).next_askee_id == old(self).next_askee_id,
    {
        if self.has_dedup(&dedup) {
            return Err(StoreError::Database { code: Some(String::from_str("23505")) });
        }
        if !self.has_askee(askee) {
            return Err(StoreError::Database { code: Some(String::from_str("23503")) });
        }
        let id = self.next_ask_id;
        self.next_ask_id = id + 1;
        self.asks.push(Ask { id, askee, content, created_at: Some(now), dedup });
        proof {
            lemma_find_dedup_none(old(self).asks@, self.asks@.last().dedup@);
        }
        Ok(id)
    }

    /// Load the ask with the given id.
    pub fn load_ask(&self, id: i32) -> (r: Result<Ask, StoreError>)
        ensures
            r == match spec_find_ask(self.asks@, id) {
                Some(a) => Ok::<Ask, StoreError>(a),
                None => Err::<Ask, StoreError>(StoreError::RowNotFound),
            },
    {
        let n = self.asks.len();
        proof {
            assert(self.asks@.skip(0) =~= self.asks@);
        }
        for i in 0..n
            invariant
                n == self.asks@.len(),
                spec_find_ask(self.asks@, id) == spec_find_ask(self.asks@.skip(i as int), id),
        {
            proof {
                assert(self.asks@.skip(i as int).drop_first() =~= self.asks@.skip(i + 1));
                assert(self.asks@.skip(i as int)[0] == self.asks@[i as int]);
            }
            if self.asks[i].id == id {
                return Ok(self.asks[i].clone());
            }
        }
        proof {
            assert(self.asks@.skip(n as int) =~= Seq::<Ask>::empty());
        }
        Err(StoreError::RowNotFound)
    }

    /// The asks addressed to `askee` with `created_at` strictly inside
    /// the window, in store order — which, by the monotone store clock,
    /// is `created_at` order.
    pub fn fetch_asks_in_range(&self, askee: i32, before: Timestamp, after: Timestamp) -> (r: Vec<
        Ask,
    >)
        ensures
            r@ == spec_asks_in_range(self.asks@, askee, before, after),
            self.wf() ==> forall|i: int, j: int|
                0 <= i < j < r@.len() ==> spec_le(
                    (#[trigger] r@[i]).created_at->Some_0,
                    (#[trigger] r@[j]).created_at->Some_0,
                ),
    {
        proof {
            if self.wf() {
                lemma_in_range_sorted(self.asks@, askee, before, after);
            }
        }
        let n = self.asks.len();
        let mut out: Vec<Ask> = Vec::new();
        proof {
            assert(self.asks@.skip(0) =~= self.asks@);
        }
        for i in 0..n
            invariant
                n == self.asks@.len(),
                out@ + spec_asks_in_range(self.asks@.skip(i as int), askee, before, after)
                    =~= spec_asks_in_range(self.asks@, askee, before, after),
        {
            proof {
                assert(self.asks@.skip(i as int).drop_first() =~= self.asks@.skip(i + 1));
                assert(self.asks@.skip(i as int)[0] == self.asks@[i as int]);
            }
            let a = &self.asks[i];
            let keep = a.askee == askee && match &a.created_at {
                Some(c) => c.lt(&before) && after.lt(c),
                None => false,
            };
            if keep {
                out.push(self.asks[i].clone());
            }
        }
        proof {
            assert(self.asks@.skip(n as int) =~= Seq::<Ask>::empty());
            assert(out@ + Seq::<Ask>::empty() =~= out@);
        }
        out
    }
}

/// Appending an askee preserves every lookup that succeeded before.
pub proof fn lemma_find_askee_push(s: Seq<Askee>, a: Askee, id: i32)
    requires
        spec_find_askee(s, id) is Some,
    ensures
        spec_find_askee(s.push(a), id) == spec_find_askee(s, id),
    decreases s.len(),
{
    if s.len() > 0 {
        if s[0].id == id {
            assert(s.push(a)[0] == s[0]);
        } else {
            assert(s.push(a).drop_first() =~= s.drop_first().push(a));
            lemma_find_askee_push(s.drop_first(), a, id);
        }
    }
}

} // verus!
