//! The persisted records: askees (registered recipients) and asks
//! (submitted questions), plus the transient time-range query object.

use vstd::prelude::*;

use crate::timestamp::Timestamp;

verus! {

/// A registered recipient. Identity is the store-assigned id; the
/// record is immutable once created.
#[derive(Debug)]
pub struct Askee {
    pub id: i32,
    pub display_name: String,
    pub created_at: Option<Timestamp>,
}

/// One submitted question. `askee` must name an existing `Askee`;
/// `dedup` is the client-chosen idempotency token, unique across asks.
#[derive(Debug)]
pub struct Ask {
    pub id: i32,
    pub askee: i32,
    pub content: String,
    pub created_at: Option<Timestamp>,
    pub dedup: String,
}

/// The time window of an ask listing; either bound may be absent.
#[derive(Debug)]
pub struct TimeRange {
    pub before: Option<Timestamp>,
    pub after: Option<Timestamp>,
}

/// The id a record carries before the store assigns one; client-sent
/// ids are replaced by it and never reach the store.
pub fn default_id() -> (r: i32)
    ensures
        r == -1,
{
    -1
}

impl Clone for Askee {
    fn clone(&self) -> (r: Self)
        ensures
            r == *self,
    {
        Askee { id: self.id, display_name: self.display_name.clone(), created_at: self.created_at }
    }
}

impl Clone for Ask {
    fn clone(&self) -> (r: Self)
        ensures
            r == *self,
    {
        Ask {
            id: self.id,
            askee: self.askee,
            content: self.content.clone(),
            created_at: self.created_at,
            dedup: self.dedup.clone(),
        }
    }
}

impl Clone for TimeRange {
    fn clone(&self) -> (r: Self)
        ensures
            r == *self,
    {
        TimeRange { before: self.before, after: self.after }
    }
}

} // verus!
