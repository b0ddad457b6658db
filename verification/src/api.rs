//! The public routes: submit an ask (challenge-gated) and read askees.
//! Each handler runs its precondition fully before the store is
//! touched, then classifies any store failure exactly once.

use vstd::prelude::*;

use crate::error::ApiError;
use crate::hcaptcha::Hcaptcha;
use crate::hcaptcha::HcaptchaError;
use crate::models::Ask;
use crate::models::Askee;
use crate::store::Store;
use crate::store::spec_find_ask;
use crate::store::spec_find_askee;
use crate::store::spec_find_dedup;
use crate::timestamp::Timestamp;
use crate::timestamp::spec_le;

pub mod admin;

verus! {

/// What loading one ask returns: the record, or `NotFound`.
pub open spec fn spec_get_ask(store: Store, id: i32) -> Result<Ask, ApiError> {
    match spec_find_ask(store.asks@, id) {
        Some(a) => Ok(a),
        None => Err(ApiError::NotFound),
    }
}

/// What loading one askee returns: the record, or `NotFound`.
pub open spec fn spec_get_askee(store: Store, id: i32) -> Result<Askee, ApiError> {
    match spec_find_askee(store.askees@, id) {
        Some(a) => Ok(a),
        None => Err(ApiError::NotFound),
    }
}

/// Appending a record whose id no element carries makes the lookup of
/// that id find exactly the new record.
pub proof fn lemma_find_ask_push_new(s: Seq<Ask>, a: Ask)
    requires
        forall|i: int| 0 <= i < s.len() ==> (#[trigger] s[i]).id != a.id,
    ensures
        spec_find_ask(s.push(a), a.id) == Some(a),
    decreases s.len(),
{
    if s.len() == 0 {
        assert(s.push(a)[0] == a);
    } else {
        assert(s.push(a)[0] == s[0]);
        assert(s.push(a).drop_first() =~= s.drop_first().push(a));
        assert(forall|i: int|
            0 <= i < s.drop_first().len() ==> #[trigger] s.drop_first()[i] == s[i + 1]);
        lemma_find_ask_push_new(s.drop_first(), a);
    }
}

pub proof fn lemma_find_askee_push_new(s: Seq<Askee>, a: Askee)
    requires
        forall|i: int| 0 <= i < s.len() ==> (#[trigger] s[i]).id != a.id,
    ensures
        spec_find_askee(s.push(a), a.id) == Some(a),
    decreases s.len(),
{
    if s.len() == 0 {
        assert(s.push(a)[0] == a);
    } else {
        assert(s.push(a)[0] == s[0]);
        assert(s.push(a).drop_first() =~= s.drop_first().push(a));
        assert(forall|i: int|
            0 <= i < s.drop_first().len() ==> #[trigger] s.drop_first()[i] == s[i + 1]);
        lemma_find_askee_push_new(s.drop_first(), a);
    }
}

/// Submit an ask. The challenge result is the precondition: a failed
/// challenge is returned as `ChallengeFailure` and the store is never
/// touched. An admitted submission creates the record — unless the
/// dedup token is already used (`Duplicate`) or the addressed askee
/// does not exist (`InvalidRequest`) — and returns it as loaded back
/// from the store. Client-sent id and timestamp never reach the store.
pub fn post_ask(
    store: &mut Store,
    challenge: Result<Hcaptcha, HcaptchaError>,
    req: Ask,
    now: Timestamp,
) -> (r: Result<Ask, ApiError>)
    requires
        old(store).wf(),
        old(store).next_ask_id < i32::MAX,
        forall|i: int|
            0 <= i < old(store).asks@.len() ==> spec_le(
                (#[trigger] old(store).asks@[i]).created_at->Some_0,
                now,
            ),
    ensures
        final(store).wf(),
        challenge matches Err(e) ==> r == Err::<Ask, ApiError>(ApiError::ChallengeFailure(e))
            && *final(store) == *old(store),
        challenge is Ok ==> if spec_find_dedup(old(store).asks@, req.dedup@) is Some {
            r == Err::<Ask, ApiError>(ApiError::Duplicate) && *final(store) == *old(store)
        } else if spec_find_askee(old(store).askees@, req.askee) is None {
            r == Err::<Ask, ApiError>(ApiError::InvalidRequest) && *final(store) == *old(store)
        } else {
            r matches Ok(a) && a.id == old(store).next_ask_id && a.askee == req.askee && a.content@
                == req.content@ && a.dedup@ == req.dedup@ && a.created_at == Some(now) && final(store).asks@ == old(store).asks@.push(a) && final(store).askees@ == old(store).askees@
        },
{
    let _captcha = match challenge {
        Ok(c) => c,
        Err(e) => {
            return Err(ApiError::ChallengeFailure(e));
        },
    };
    proof {
        reveal_strlit("23505");
        reveal_strlit("23503");
        assert("23503"@[4] != "23505"@[4]);
    }
    let id = match store.create_ask(req.askee, req.content, req.dedup, now) {
        Ok(id) => id,
        Err(e) => {
            return Err(ApiError::from(e));
        },
    };
    proof {
        lemma_find_ask_push_new(old(store).asks@, store.asks@.last());
    }
    match store.load_ask(id) {
        Ok(a) => Ok(a),
        Err(e) => Err(ApiError::from(e)),
    }
}

/// List every askee, in id order.
pub fn get_all_askee(store: &Store) -> (r: Result<Vec<Askee>, ApiError>)
    ensures
        r matches Ok(v) && v@ == store.askees@,
{
    Ok(store.fetch_all_askees())
}

/// Load one askee; a miss is `NotFound`.
pub fn get_askee(store: &Store, id: i32) -> (r: Result<Askee, ApiError>)
    ensures
        r == spec_get_askee(*store, id),
{
    match store.load_askee(id) {
        Ok(a) => Ok(a),
        Err(e) => Err(ApiError::from(e)),
    }
}

/// Reads are idempotent: the contract of a load pins its result as a
/// function of the store state alone, so any two results of the same
/// load against the same state are the same representation.
pub proof fn lemma_get_idempotent(
    store: Store,
    id: i32,
    r1: Result<Ask, ApiError>,
    r2: Result<Ask, ApiError>,
)
    requires
        r1 == spec_get_ask(store, id),
        r2 == spec_get_ask(store, id),
    ensures
        r1 == r2,
{
}

} // verus!
