use askbox::api::admin::add_askee;
use askbox::api::admin::gated_add_askee;
use askbox::api::admin::gated_get_all_asks;
use askbox::api::admin::gated_get_ask;
use askbox::api::admin::gated_reload;
use askbox::api::admin::get_all_asks;
use askbox::api::admin::get_ask;
use askbox::api::admin::reload;
use askbox::api::get_all_askee;
use askbox::api::get_askee;
use askbox::api::post_ask;
use askbox::error::ApiError;
use askbox::hcaptcha::HcaptchaError;
use askbox::hcaptcha::Hcaptcha;
use askbox::models::Ask;
use askbox::models::Askee;
use askbox::models::TimeRange;
use askbox::models::default_id;
use askbox::store::Store;
use askbox::timestamp::Timestamp;

fn ts(day: u32, hour: u32) -> Timestamp {
    Timestamp { year: 2024, month: 3, day, hour, minute: 0, second: 0, micros: 0 }
}

fn passed_challenge() -> Result<Hcaptcha, HcaptchaError> {
    Hcaptcha::settle(Ok(()))
}

fn new_ask(askee: i32, content: &str, dedup: &str) -> Ask {
    Ask {
        id: default_id(),
        askee,
        content: content.to_string(),
        created_at: None,
        dedup: dedup.to_string(),
    }
}

fn store_with_askee_one() -> Store {
    let mut store = Store::new();
    let r = add_askee(
        &mut store,
        Askee { id: default_id(), display_name: "alice".to_string(), created_at: None },
        ts(1, 0),
    );
    assert!(matches!(r, Ok(ref a) if a.id == 1));
    store
}

#[test]
fn submit_then_load_returns_equal_record() {
    let mut store = store_with_askee_one();
    let r = post_ask(&mut store, passed_challenge(), new_ask(1, "hello", "tok-1"), ts(2, 0));
    let ask = r.expect("fresh dedup and existing askee must succeed");
    assert_eq!(ask.askee, 1);
    assert_eq!(ask.content, "hello");
    assert_eq!(ask.dedup, "tok-1");
    assert_eq!(ask.created_at, Some(ts(2, 0)));
    let loaded = get_ask(&store, ask.id).expect("created ask must load back");
    assert_eq!(loaded.id, ask.id);
    assert_eq!(loaded.askee, ask.askee);
    assert_eq!(loaded.content, ask.content);
    assert_eq!(loaded.dedup, ask.dedup);
    assert_eq!(loaded.created_at, ask.created_at);
}

#[test]
fn reused_dedup_fails_duplicate_whatever_the_other_fields() {
    let mut store = store_with_askee_one();
    post_ask(&mut store, passed_challenge(), new_ask(1, "hello", "tok-1"), ts(2, 0)).unwrap();
    let r = post_ask(&mut store, passed_challenge(), new_ask(1, "other text", "tok-1"), ts(3, 0));
    assert!(matches!(r, Err(ApiError::Duplicate)));
}

#[test]
fn missing_askee_fails_invalid_request() {
    let mut store = store_with_askee_one();
    let r = post_ask(&mut store, passed_challenge(), new_ask(999, "hello", "tok-2"), ts(2, 0));
    assert!(matches!(r, Err(ApiError::InvalidRequest)));
}

#[test]
fn loading_missing_records_fails_not_found() {
    let store = store_with_askee_one();
    assert!(matches!(get_ask(&store, 999999), Err(ApiError::NotFound)));
    assert!(matches!(get_askee(&store, 999999), Err(ApiError::NotFound)));
}

#[test]
fn failed_challenge_creates_no_row() {
    let mut store = store_with_askee_one();
    let r = post_ask(
        &mut store,
        Err(HcaptchaError::Missing),
        new_ask(1, "hello", "tok-1"),
        ts(2, 0),
    );
    assert!(matches!(r, Err(ApiError::ChallengeFailure(HcaptchaError::Missing))));
    assert!(get_all_asks(&store, 1, &TimeRange { before: None, after: None }, ts(2, 1))
        .unwrap()
        .is_empty());
    let r = post_ask(
        &mut store,
        Err(HcaptchaError::Invalid("service said no".to_string())),
        new_ask(1, "hello", "tok-1"),
        ts(2, 0),
    );
    assert!(matches!(r, Err(ApiError::ChallengeFailure(HcaptchaError::Invalid(_)))));
    let listed = get_all_asks(&store, 1, &TimeRange { before: None, after: None }, ts(2, 1));
    assert!(listed.unwrap().is_empty());
}

#[test]
fn repeated_get_returns_same_representation() {
    let mut store = store_with_askee_one();
    let ask =
        post_ask(&mut store, passed_challenge(), new_ask(1, "hello", "tok-1"), ts(2, 0)).unwrap();
    let r1 = get_ask(&store, ask.id).unwrap();
    let r2 = get_ask(&store, ask.id).unwrap();
    let r3 = get_ask(&store, ask.id).unwrap();
    for r in [&r1, &r2, &r3] {
        assert_eq!(r.id, ask.id);
        assert_eq!(r.askee, ask.askee);
        assert_eq!(r.content, ask.content);
        assert_eq!(r.dedup, ask.dedup);
        assert_eq!(r.created_at, ask.created_at);
    }
}

#[test]
fn submit_scenario_then_conflict_body() {
    let mut store = store_with_askee_one();
    let body = new_ask(1, "hi", "abc");
    let first = post_ask(&mut store, passed_challenge(), body, ts(2, 0)).unwrap();
    assert!(first.id >= 1);
    assert_eq!(first.askee, 1);
    assert_eq!(first.content, "hi");
    assert_eq!(first.dedup, "abc");
    assert!(first.created_at.is_some());
    let again = post_ask(&mut store, passed_challenge(), new_ask(1, "hi", "abc"), ts(2, 1));
    let err = again.unwrap_err();
    assert_eq!(err.status_code(), 409);
    assert_eq!(err.error_body(), "{\"err\":\"try to create already exists resource\"}");
}

#[test]
fn admin_get_missing_ask_scenario() {
    let store = store_with_askee_one();
    let token = "admin-token-a".to_string();
    let header = token.clone();
    let r = gated_get_ask(&store, Some(&header), &token, 999999);
    let err = r.expect("valid admin header must reach the handler").unwrap_err();
    assert_eq!(err.status_code(), 404);
    assert_eq!(err.error_body(), "{\"err\":\"request resource not found\"}");
}

#[test]
fn admin_gate_denies_wrong_header_like_no_header() {
    let mut store = store_with_askee_one();
    let token = "admin-token-a".to_string();
    let off_by_one_byte = "admin-token-b".to_string();
    let with_wrong = gated_get_ask(&store, Some(&off_by_one_byte), &token, 1);
    let with_none = gated_get_ask(&store, None, &token, 1);
    assert!(with_wrong.is_none());
    assert!(with_none.is_none());
    assert!(gated_reload(Some(&off_by_one_byte), &token).is_none());
    assert!(gated_reload(None, &token).is_none());
    let req = Askee { id: default_id(), display_name: "bob".to_string(), created_at: None };
    assert!(gated_add_askee(&mut store, Some(&off_by_one_byte), &token, req, ts(3, 0)).is_none());
    assert_eq!(get_all_askee(&store).unwrap().len(), 1);
    let tr = TimeRange { before: None, after: None };
    assert!(gated_get_all_asks(&store, Some(&off_by_one_byte), &token, 1, &tr, ts(3, 0))
        .is_none());
}

#[test]
fn admin_gate_admits_exact_token() {
    let mut store = store_with_askee_one();
    let token = "admin-token-a".to_string();
    let header = token.clone();
    assert!(matches!(gated_reload(Some(&header), &token), Some(Ok(()))));
    let req = Askee { id: default_id(), display_name: "bob".to_string(), created_at: None };
    let added = gated_add_askee(&mut store, Some(&header), &token, req, ts(3, 0))
        .expect("exact token must admit")
        .unwrap();
    assert_eq!(added.id, 2);
    assert_eq!(added.display_name, "bob");
    assert_eq!(added.created_at, Some(ts(3, 0)));
}

#[test]
fn reload_acknowledges_without_state() {
    assert!(matches!(reload(), Ok(())));
}

#[test]
fn add_askee_then_load_and_list() {
    let mut store = Store::new();
    let a = add_askee(
        &mut store,
        Askee { id: default_id(), display_name: "alice".to_string(), created_at: None },
        ts(1, 0),
    )
    .unwrap();
    let b = add_askee(
        &mut store,
        Askee { id: default_id(), display_name: "bob".to_string(), created_at: None },
        ts(1, 1),
    )
    .unwrap();
    assert_eq!(a.id, 1);
    assert_eq!(b.id, 2);
    let all = get_all_askee(&store).unwrap();
    assert_eq!(all.len(), 2);
    assert_eq!(all[0].display_name, "alice");
    assert_eq!(all[1].display_name, "bob");
    let one = get_askee(&store, 2).unwrap();
    assert_eq!(one.display_name, "bob");
}

#[test]
fn listing_respects_window_and_defaults() {
    let mut store = store_with_askee_one();
    for (i, (day, hour)) in [(2u32, 1u32), (2, 12), (3, 1), (4, 1)].iter().enumerate() {
        let dedup = format!("tok-{}", i);
        post_ask(
            &mut store,
            passed_challenge(),
            new_ask(1, "q", &dedup),
            ts(*day, *hour),
        )
        .unwrap();
    }
    // Explicit window: strictly after day 2 hour 1, strictly before day 4 hour 1.
    let tr = TimeRange { before: Some(ts(4, 1)), after: Some(ts(2, 1)) };
    let listed = get_all_asks(&store, 1, &tr, ts(5, 0)).unwrap();
    assert_eq!(listed.len(), 2);
    assert_eq!(listed[0].created_at, Some(ts(2, 12)));
    assert_eq!(listed[1].created_at, Some(ts(3, 1)));
    // Defaults: before = now, after = one day before now.
    let defaults = TimeRange { before: None, after: None };
    let listed = get_all_asks(&store, 1, &defaults, ts(3, 2)).unwrap();
    assert_eq!(listed.len(), 2);
    assert_eq!(listed[0].created_at, Some(ts(2, 12)));
    assert_eq!(listed[1].created_at, Some(ts(3, 1)));
    // A different askee has no asks listed.
    let listed = get_all_asks(&store, 2, &defaults, ts(3, 2)).unwrap();
    assert!(listed.is_empty());
}
