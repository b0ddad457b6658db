use askbox::config::HCaptcha;
use askbox::config::default_bind;
use askbox::config::default_port;
use askbox::defense::AskeeFilter;
use askbox::error::ApiError;
use askbox::hcaptcha::HcaptchaError;
use askbox::error::StoreError;
use askbox::gate::admitted;
use askbox::hcaptcha::Hcaptcha;
use askbox::ip::IpAddress;
use askbox::ip::parse_ipv4;
use askbox::ip::parse_socket_addr;
use askbox::ip::resolve_client_ip;
use askbox::models::Askee;
use askbox::models::default_id;
use askbox::timestamp::Timestamp;
use askbox::timestamp::now_timestamp;

fn config() -> HCaptcha {
    HCaptcha { site_key: "site-key-1".to_string(), secret: "captcha-secret".to_string() }
}

#[test]
fn ipv4_literals() {
    assert!(matches!(parse_ipv4(b"1.2.3.4"), Some(IpAddress::V4(1, 2, 3, 4))));
    assert!(matches!(parse_ipv4(b"0.0.0.0"), Some(IpAddress::V4(0, 0, 0, 0))));
    assert!(matches!(parse_ipv4(b"255.255.255.255"), Some(IpAddress::V4(255, 255, 255, 255))));
    assert!(parse_ipv4(b"256.1.1.1").is_none());
    assert!(parse_ipv4(b"01.2.3.4").is_none());
    assert!(parse_ipv4(b"1.2.3").is_none());
    assert!(parse_ipv4(b"1.2.3.4.5").is_none());
    assert!(parse_ipv4(b"1.2.3.").is_none());
    assert!(parse_ipv4(b"a.b.c.d").is_none());
    assert!(parse_ipv4(b"").is_none());
}

#[test]
fn socket_addresses() {
    assert!(matches!(
        parse_socket_addr(b"1.2.3.4:8080"),
        Some((IpAddress::V4(1, 2, 3, 4), 8080))
    ));
    assert!(matches!(
        parse_socket_addr(b"[::1]:80"),
        Some((IpAddress::V6(0, 0, 0, 0, 0, 0, 0, 1), 80))
    ));
    assert!(matches!(
        parse_socket_addr(b"[2001:db8::8a2e:370:7334]:443"),
        Some((IpAddress::V6(0x2001, 0xdb8, 0, 0, 0, 0x8a2e, 0x370, 0x7334), 443))
    ));
    assert!(matches!(
        parse_socket_addr(b"[1:2:3:4:5:6:7:8]:1"),
        Some((IpAddress::V6(1, 2, 3, 4, 5, 6, 7, 8), 1))
    ));
    assert!(matches!(
        parse_socket_addr(b"[::ffff:10.0.0.1]:1234"),
        Some((IpAddress::V6(0, 0, 0, 0, 0, 0xffff, 0x0a00, 0x0001), 1234))
    ));
    assert!(matches!(
        parse_socket_addr(b"[64:ff9b::192.0.2.33]:80"),
        Some((IpAddress::V6(0x64, 0xff9b, 0, 0, 0, 0, 0xc000, 0x0221), 80))
    ));
    assert!(matches!(
        parse_socket_addr(b"[1:2:3:4:5:6:7.8.9.10]:80"),
        Some((IpAddress::V6(1, 2, 3, 4, 5, 6, 0x0708, 0x090a), 80))
    ));
    // The quad may only stand at the end, and never on the left of `::`.
    assert!(parse_socket_addr(b"[1.2.3.4::1]:80").is_none());
    assert!(parse_socket_addr(b"[::1.2.3.4:1]:80").is_none());
    assert!(parse_socket_addr(b"1.2.3.4").is_none());
    assert!(parse_socket_addr(b"[::1]").is_none());
    assert!(parse_socket_addr(b"[::1]:").is_none());
    assert!(parse_socket_addr(b"[::1]:99999").is_none());
    assert!(parse_socket_addr(b"[1:2:3]:80").is_none());
    assert!(parse_socket_addr(b"[1::2::3]:80").is_none());
    assert!(parse_socket_addr(b"[1:2:3:4:5:6:7:8:9]:80").is_none());
}

#[test]
fn client_ip_resolution_prefers_family_by_colon() {
    assert!(matches!(resolve_client_ip(b"10.0.0.7"), Some(IpAddress::V4(10, 0, 0, 7))));
    assert!(matches!(
        resolve_client_ip(b"10.0.0.7:1234"),
        Some(IpAddress::V4(10, 0, 0, 7))
    ));
    assert!(matches!(
        resolve_client_ip(b"[::ffff:1]:1234"),
        Some(IpAddress::V6(0, 0, 0, 0, 0, 0, 0xffff, 1))
    ));
    // A colon forces the socket-address form, so a bare IPv6 literal fails.
    assert!(resolve_client_ip(b"::1").is_none());
    assert!(resolve_client_ip(b"abc").is_none());
    assert!(resolve_client_ip(b"").is_none());
}

#[test]
fn challenge_missing_header() {
    let r = Hcaptcha::create_request(None, Some("1.2.3.4"), &config());
    assert!(matches!(r, Err(HcaptchaError::Missing)));
}

#[test]
fn challenge_insufficient_information() {
    let r = Hcaptcha::create_request(Some("tok"), None, &config());
    assert!(matches!(r, Err(HcaptchaError::InsufficientInformation)));
    let r = Hcaptcha::create_request(Some("tok"), Some("not-an-address"), &config());
    assert!(matches!(r, Err(HcaptchaError::InsufficientInformation)));
    let r = Hcaptcha::create_request(Some("tok"), Some("999.1.1.1"), &config());
    assert!(matches!(r, Err(HcaptchaError::InsufficientInformation)));
}

#[test]
fn challenge_payload_carries_request_data() {
    let r = Hcaptcha::create_request(Some("tok-xyz"), Some("8.8.4.4:53"), &config()).unwrap();
    assert_eq!(r.challenge_token, "tok-xyz");
    assert_eq!(r.secret, "captcha-secret");
    assert_eq!(r.site_key, "site-key-1");
    assert!(matches!(r.client_ip, IpAddress::V4(8, 8, 4, 4)));
}

#[test]
fn challenge_settle_maps_service_verdict() {
    assert!(Hcaptcha::settle(Ok(())).is_ok());
    let r = Hcaptcha::settle(Err("transport failure".to_string()));
    match r {
        Err(HcaptchaError::Invalid(cause)) => assert_eq!(cause, "transport failure"),
        _ => panic!("a failed call must become Invalid"),
    }
}

#[test]
fn classifier_maps_store_failures() {
    let as_api = |e: StoreError| ApiError::from(e);
    assert!(matches!(as_api(StoreError::RowNotFound), ApiError::NotFound));
    assert!(matches!(
        as_api(StoreError::Database { code: Some("23505".to_string()) }),
        ApiError::Duplicate
    ));
    assert!(matches!(
        as_api(StoreError::Database { code: Some("42P01".to_string()) }),
        ApiError::InvalidRequest
    ));
    assert!(matches!(as_api(StoreError::Database { code: None }), ApiError::InvalidRequest));
    assert!(matches!(as_api(StoreError::Other), ApiError::InvalidRequest));
}

#[test]
fn error_statuses_and_bodies() {
    assert_eq!(ApiError::InvalidRequest.status_code(), 400);
    assert_eq!(ApiError::NotFound.status_code(), 404);
    assert_eq!(ApiError::Duplicate.status_code(), 409);
    assert_eq!(ApiError::PermissionDenied.status_code(), 403);
    assert_eq!(ApiError::ChallengeFailure(HcaptchaError::Missing).status_code(), 403);
    assert_eq!(ApiError::InvalidRequest.error_body(), "{\"err\":\"invalid request\"}");
    assert_eq!(
        ApiError::PermissionDenied.message(),
        "permission is not sufficient to execute request"
    );
    assert_eq!(
        ApiError::ChallengeFailure(HcaptchaError::Missing).error_body(),
        "{\"err\":\"captcha challenge failed, missing hCaptcha challenge response header\"}"
    );
    assert_eq!(
        ApiError::ChallengeFailure(HcaptchaError::InsufficientInformation).message(),
        "captcha challenge failed, insufficient information to verify hCaptcha challenge"
    );
    assert_eq!(
        ApiError::ChallengeFailure(HcaptchaError::Invalid("x".to_string())).message(),
        "captcha challenge failed, invalid hCaptcha challenge response header"
    );
}

#[test]
fn timestamp_format_is_the_wire_form() {
    let t = Timestamp { year: 2023, month: 1, day: 2, hour: 3, minute: 4, second: 5, micros: 60 };
    assert_eq!(t.format(), b"2023-01-02 03:04:05.000060".to_vec());
    let t = Timestamp {
        year: 999,
        month: 12,
        day: 31,
        hour: 23,
        minute: 59,
        second: 59,
        micros: 999_999,
    };
    assert_eq!(t.format(), b"0999-12-31 23:59:59.999999".to_vec());
}

#[test]
fn timestamp_parse_round_trips_and_rejects() {
    let t = Timestamp { year: 2023, month: 1, day: 2, hour: 3, minute: 4, second: 5, micros: 60 };
    assert_eq!(Timestamp::parse(&t.format()), Some(t));
    assert_eq!(
        Timestamp::parse(b"2024-02-29 00:00:00.000000"),
        Some(Timestamp { year: 2024, month: 2, day: 29, hour: 0, minute: 0, second: 0, micros: 0 })
    );
    assert!(Timestamp::parse(b"2023-02-29 00:00:00.000000").is_none());
    // Century rule: 2000 was a leap year, 1900 was not.
    assert!(Timestamp::parse(b"2000-02-29 00:00:00.000000").is_some());
    assert!(Timestamp::parse(b"1900-02-29 00:00:00.000000").is_none());
    assert!(Timestamp::parse(b"2023-13-01 00:00:00.000000").is_none());
    assert!(Timestamp::parse(b"2023-00-01 00:00:00.000000").is_none());
    assert!(Timestamp::parse(b"2023-01-32 00:00:00.000000").is_none());
    assert!(Timestamp::parse(b"2023-01-01 24:00:00.000000").is_none());
    assert!(Timestamp::parse(b"2023-01-01 00:60:00.000000").is_none());
    assert!(Timestamp::parse(b"2023-01-01T00:00:00.000000").is_none());
    assert!(Timestamp::parse(b"2023-01-01 00:00:00.0000").is_none());
    assert!(Timestamp::parse(b"").is_none());
}

#[test]
fn timestamp_order_is_chronological() {
    let a = Timestamp { year: 2023, month: 12, day: 31, hour: 23, minute: 59, second: 59, micros: 999_999 };
    let b = Timestamp { year: 2024, month: 1, day: 1, hour: 0, minute: 0, second: 0, micros: 0 };
    assert!(a.lt(&b));
    assert!(!b.lt(&a));
    assert!(!a.lt(&a));
    assert!(a.le(&a));
    assert!(a.le(&b));
    assert!(!b.le(&a));
}

#[test]
fn minus_one_day_borrows_across_month_and_year() {
    let t = Timestamp { year: 2024, month: 3, day: 1, hour: 5, minute: 6, second: 7, micros: 8 };
    let d = t.minus_one_day();
    assert_eq!((d.year, d.month, d.day), (2024, 2, 29));
    assert_eq!((d.hour, d.minute, d.second, d.micros), (5, 6, 7, 8));
    let t = Timestamp { year: 2023, month: 3, day: 1, hour: 0, minute: 0, second: 0, micros: 0 };
    assert_eq!((t.minus_one_day().month, t.minus_one_day().day), (2, 28));
    let t = Timestamp { year: 2021, month: 1, day: 1, hour: 0, minute: 0, second: 0, micros: 0 };
    let d = t.minus_one_day();
    assert_eq!((d.year, d.month, d.day), (2020, 12, 31));
    let t = Timestamp { year: 2021, month: 5, day: 2, hour: 0, minute: 0, second: 0, micros: 0 };
    assert_eq!((t.minus_one_day().month, t.minus_one_day().day), (5, 1));
}

#[test]
fn clock_reading_clamps_into_the_supported_range() {
    let now = now_timestamp();
    let c = now.clamped();
    assert!(c.micros <= 999_999);
    assert!((0..=9999).contains(&c.year));
    let leap = Timestamp {
        year: 2024,
        month: 6,
        day: 30,
        hour: 23,
        minute: 59,
        second: 59,
        micros: 1_500_000,
    };
    assert_eq!(leap.clamped().micros, 999_999);
    let far = Timestamp { year: 20000, month: 1, day: 1, hour: 0, minute: 0, second: 0, micros: 0 };
    assert_eq!(far.clamped().year, 9999);
}

#[test]
fn admin_gate_compares_exactly() {
    let token = "tok".to_string();
    let same = "tok".to_string();
    let longer = "tok ".to_string();
    let empty = "".to_string();
    assert!(admitted(Some(&same), &token));
    assert!(!admitted(Some(&longer), &token));
    assert!(!admitted(Some(&empty), &token));
    assert!(!admitted(None, &token));
}

#[test]
fn askee_filter_indexes_by_id() {
    let rows = vec![
        Askee { id: 1, display_name: "alice".to_string(), created_at: None },
        Askee { id: 7, display_name: "bob".to_string(), created_at: None },
    ];
    let filter = AskeeFilter::new(rows);
    assert!(filter.contains(1));
    assert!(filter.contains(7));
    assert!(!filter.contains(2));
}

#[test]
fn configuration_defaults() {
    assert_eq!(default_bind(), "127.0.0.1:8080");
    assert_eq!(default_port(), 5432);
    assert_eq!(default_id(), -1);
}
