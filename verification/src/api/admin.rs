//! The admin-scoped routes: reload, load one ask, list a recipient's
//! asks in a time window, and register a new askee. Each has a gated
//! form that runs the admin gate first; a denied request never reaches
//! the handler or the store, and is indistinguishable from a request
//! to a route that does not exist.

use vstd::prelude::*;

use crate::api::lemma_find_askee_push_new;
use crate::api::spec_get_ask;
use crate::error::ApiError;
use crate::gate::admitted;
use crate::gate::header_view;
use crate::gate::spec_admitted;
use crate::models::Ask;
use crate::models::Askee;
use crate::models::TimeRange;
use crate::store::Store;
use crate::store::spec_asks_in_range;
use crate::timestamp::Timestamp;
use crate::timestamp::spec_minus_one_day;
use crate::timestamp::wf;

verus! {

/// Acknowledge a reload signal; a no-op with no state transition.
pub fn reload() -> (r: Result<(), ApiError>)
    ensures
        r is Ok,
{
    Ok(())
}

/// Load one ask; a miss is `NotFound`.
pub fn get_ask(store: &Store, id: i32) -> (r: Result<Ask, ApiError>)
    ensures
        r == spec_get_ask(*store, id),
{
    match store.load_ask(id) {
        Ok(a) => Ok(a),
        Err(e) => Err(ApiError::from(e)),
    }
}

/// The lower bound a listing uses when the query names none: one day
/// before now.
pub open spec fn spec_after_bound(tr: TimeRange, now: Timestamp) -> Timestamp {
    if tr.after is Some {
        tr.after->Some_0
    } else {
        spec_minus_one_day(now)
    }
}

/// The upper bound a listing uses when the query names none: now.
pub open spec fn spec_before_bound(tr: TimeRange, now: Timestamp) -> Timestamp {
    if tr.before is Some {
        tr.before->Some_0
    } else {
        now
    }
}

/// List the asks addressed to one askee whose creation time lies
/// strictly inside the window, bounds defaulting to the last day.
pub fn get_all_asks(
    store: &Store,
    id: i32,
    time_range: &TimeRange,
    now: Timestamp,
) -> (r: Result<Vec<Ask>, ApiError>)
    requires
        wf(now),
        1 <= now.year,
    ensures
        r matches Ok(v) && v@ == spec_asks_in_range(
            store.asks@,
            id,
            spec_before_bound(*time_range, now),
            spec_after_bound(*time_range, now),
        ),
{
    let before = match &time_range.before {
        Some(b) => *b,
        None => now,
    };
    let after = match &time_range.after {
        Some(a) => *a,
        None => now.minus_one_day(),
    };
    Ok(store.fetch_asks_in_range(id, before, after))
}

/// Register a new askee; the store assigns id and creation time, and
/// the record is returned as loaded back from the store.
pub fn add_askee(store: &mut Store, req: Askee, now: Timestamp) -> (r: Result<Askee, ApiError>)
    requires
        old(store).wf(),
        old(store).next_askee_id < i32::MAX,
    ensures
        final(store).wf(),
        r matches Ok(a) && a.id == old(store).next_askee_id && a.display_name@
            == req.display_name@ && a.created_at == Some(now) && final(store).askees@ == old(store).askees@.push(a) && final(store).asks@ == old(store).asks@,
{
    let id = store.create_askee(req.display_name, now);
    proof {
        lemma_find_askee_push_new(old(store).askees@, store.askees@.last());
    }
    match store.load_askee(id) {
        Ok(a) => Ok(a),
        Err(e) => Err(ApiError::from(e)),
    }
}

/// The reload route behind the admin gate.
pub fn gated_reload(header: Option<&String>, token: &String) -> (r: Option<Result<(), ApiError>>)
    ensures
        r is Some <==> spec_admitted(header_view(header), token@),
        r matches Some(x) ==> x is Ok,
{
    if admitted(header, token) {
        Some(reload())
    } else {
        None
    }
}

/// The single-ask route behind the admin gate.
pub fn gated_get_ask(store: &Store, header: Option<&String>, token: &String, id: i32) -> (r:
    Option<Result<Ask, ApiError>>)
    ensures
        r is Some <==> spec_admitted(header_view(header), token@),
        r matches Some(x) ==> x == spec_get_ask(*store, id),
{
    if admitted(header, token) {
        Some(get_ask(store, id))
    } else {
        None
    }
}

/// The listing route behind the admin gate.
pub fn gated_get_all_asks(
    store: &Store,
    header: Option<&String>,
    token: &String,
    id: i32,
    time_range: &TimeRange,
    now: Timestamp,
) -> (r: Option<Result<Vec<Ask>, ApiError>>)
    requires
        wf(now),
        1 <= now.year,
    ensures
        r is Some <==> spec_admitted(header_view(header), token@),
        r matches Some(x) ==> x matches Ok(v) && v@ == spec_asks_in_range(
            store.asks@,
            id,
            spec_before_bound(*time_range, now),
            spec_after_bound(*time_range, now),
        ),
{
    if admitted(header, token) {
        Some(get_all_asks(store, id, time_range, now))
    } else {
        None
    }
}

/// The registration route behind the admin gate: a denied request
/// performs no store operation at all.
pub fn gated_add_askee(
    store: &mut Store,
    header: Option<&String>,
    token: &String,
    req: Askee,
    now: Timestamp,
) -> (r: Option<Result<Askee, ApiError>>)
    requires
        old(store).wf(),
        old(store).next_askee_id < i32::MAX,
    ensures
        final(store).wf(),
        r is Some <==> spec_admitted(header_view(header), token@),
        !spec_admitted(header_view(header), token@) ==> *final(store) == *old(store),
        r matches Some(x) ==> x matches Ok(a) && a.id == old(store).next_askee_id
            && a.display_name@ == req.display_name@ && a.created_at == Some(now) && final(store).askees@ == old(store).askees@.push(a) && final(store).asks@ == old(store).asks@,
{
    if admitted(header, token) {
        Some(add_askee(store, req, now))
    } else {
        None
    }
}

} // verus!
