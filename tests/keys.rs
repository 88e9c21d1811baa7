use ktv_casting::utils::{
    extract_bv_id, extract_error_code, is_success_code, retry_step, should_treat_as_upnp_success,
    RetryStep, RETRY_DELAY_MS,
};

#[test]
fn key_strips_scheme_and_query() {
    assert_eq!(extract_bv_id("bilibili://video/BV1xx411c7mD?page=2"), "BV1xx411c7mD-page2");
    assert_eq!(extract_bv_id("bilibili://video/BV1xx411c7mD"), "BV1xx411c7mD");
}

#[test]
fn key_without_scheme_is_sanitized_whole() {
    assert_eq!(extract_bv_id("BV1ab?p=3"), "BV1ab-p3");
    assert_eq!(extract_bv_id(""), "");
}

#[test]
fn key_scheme_after_other_text() {
    assert_eq!(extract_bv_id("x bilibili://video/BVz?page=10"), "BVz-page10");
}

#[test]
fn key_is_idempotent_on_example() {
    let k = extract_bv_id("bilibili://video/BV1Q4411y7Xz?page=7");
    assert_eq!(extract_bv_id(&k), k);
}

#[test]
fn keys_of_distinct_references_differ() {
    let a = extract_bv_id("bilibili://video/BVabc?page=1");
    let b = extract_bv_id("bilibili://video/BVabc");
    let c = extract_bv_id("bilibili://video/BVabc?page=11");
    assert_ne!(a, b);
    assert_ne!(a, c);
    assert_ne!(b, c);
}

#[test]
fn error_code_first_three_digit_run() {
    assert_eq!(extract_error_code("HTTP 404"), Some(404));
    assert_eq!(extract_error_code("code 2000 then 204 ok"), Some(204));
    assert_eq!(extract_error_code("12 and 1234"), None);
    assert_eq!(extract_error_code(""), None);
    assert_eq!(extract_error_code("500"), Some(500));
}

#[test]
fn success_codes_are_2xx() {
    assert!(is_success_code(200));
    assert!(is_success_code(299));
    assert!(!is_success_code(199));
    assert!(!is_success_code(300));
}

#[test]
fn upnp_success_from_message() {
    assert!(should_treat_as_upnp_success(
        "The control point responded with status code 204 No Content"
    ));
    assert!(!should_treat_as_upnp_success("status code 500 Internal Server Error"));
    assert!(!should_treat_as_upnp_success("connection refused"));
}

#[test]
fn retry_treats_2xx_as_success_at_first_attempt() {
    assert_eq!(
        retry_step(0, 3, "The control point responded with status code 200 OK"),
        RetryStep::Succeeded
    );
}

#[test]
fn retry_waits_then_gives_up() {
    assert_eq!(
        retry_step(0, 2, "timed out"),
        RetryStep::RetryAfter { failures: 1, delay_ms: RETRY_DELAY_MS }
    );
    assert_eq!(
        retry_step(1, 2, "timed out"),
        RetryStep::RetryAfter { failures: 2, delay_ms: 500 }
    );
    assert_eq!(retry_step(2, 2, "timed out"), RetryStep::GiveUp);
}

#[test]
fn retry_without_bound_never_gives_up() {
    assert_eq!(
        retry_step(1000, 0, "HTTP 503"),
        RetryStep::RetryAfter { failures: 1001, delay_ms: 500 }
    );
    assert_eq!(
        retry_step(usize::MAX, 0, "HTTP 503"),
        RetryStep::RetryAfter { failures: usize::MAX, delay_ms: 500 }
    );
}
