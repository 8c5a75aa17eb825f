use hub_tool::{classify_status, parse_retry_after, FetchError, TransportFailure};

#[test]
fn success_statuses_have_a_body() {
    assert_eq!(classify_status(200, None), None);
    assert_eq!(classify_status(201, Some(b"12".as_slice())), None);
}

#[test]
fn error_statuses_map_to_their_kind() {
    assert_eq!(classify_status(401, None), Some(FetchError::Unauthorized));
    assert_eq!(classify_status(404, None), Some(FetchError::NotFound));
    assert_eq!(
        classify_status(500, None),
        Some(FetchError::Transport(TransportFailure::Status(500)))
    );
    assert_eq!(
        classify_status(403, None),
        Some(FetchError::Transport(TransportFailure::Status(403)))
    );
}

#[test]
fn too_many_requests_carries_the_retry_time() {
    assert_eq!(
        classify_status(429, Some(b"1700000000".as_slice())),
        Some(FetchError::RateLimited(Some(1700000000)))
    );
    assert_eq!(classify_status(429, None), Some(FetchError::RateLimited(None)));
    assert_eq!(
        classify_status(429, Some(b"soon".as_slice())),
        Some(FetchError::RateLimited(None))
    );
}

#[test]
fn retry_after_reads_decimal_digits() {
    assert_eq!(parse_retry_after(b"1700000000"), Some(1700000000));
    assert_eq!(parse_retry_after(b"0"), Some(0));
    assert_eq!(parse_retry_after(b"007"), Some(7));
    assert_eq!(parse_retry_after(b"18446744073709551615"), Some(u64::MAX));
}

#[test]
fn retry_after_refuses_what_is_not_a_timestamp() {
    assert_eq!(parse_retry_after(b""), None);
    assert_eq!(parse_retry_after(b"+5"), None);
    assert_eq!(parse_retry_after(b"12a"), None);
    assert_eq!(parse_retry_after(b" 12"), None);
    assert_eq!(parse_retry_after(b"18446744073709551616"), None);
    assert_eq!(parse_retry_after(b"99999999999999999999999"), None);
}

#[test]
fn messages_name_what_went_wrong() {
    assert_eq!(FetchError::Unauthorized.message(), "provided client is not authorized");
    assert_eq!(FetchError::NotFound.message(), "the requested resource was not found");
    assert_eq!(
        FetchError::RateLimited(Some(1700000000)).message(),
        "available requests exhausted, please try again after 1700000000"
    );
    assert_eq!(FetchError::RateLimited(None).message(), "too many requests sent to the server");
    assert_eq!(
        FetchError::Transport(TransportFailure::Status(503)).message(),
        "request failed with status code 503"
    );
    assert_eq!(
        FetchError::Transport(TransportFailure::Network("connection refused".to_string())).message(),
        "failed with error connection refused"
    );
    assert_eq!(
        FetchError::Decode("missing field `count`".to_string()).message(),
        "parsing the response failed: missing field `count`"
    );
}

#[test]
fn decimal_rendering_of_edge_values() {
    assert_eq!(
        FetchError::RateLimited(Some(0)).message(),
        "available requests exhausted, please try again after 0"
    );
    assert_eq!(
        FetchError::RateLimited(Some(u64::MAX)).message(),
        "available requests exhausted, please try again after 18446744073709551615"
    );
    assert_eq!(
        FetchError::Transport(TransportFailure::Status(10)).message(),
        "request failed with status code 10"
    );
}
