use nws::fetch::{
    begin, call_nws_api, exit_status, Fetch, FetchError, Outcome, EXPIRES_HEADER, USER_AGENT,
    USER_AGENT_HEADER,
};

fn cached(body: &str) -> Outcome {
    Outcome::Cached { body: String::from(body) }
}

fn response(expires: Option<&str>, body: &str) -> Outcome {
    Outcome::Response { expires: expires.map(String::from), body: String::from(body) }
}

#[test]
fn fetch_begins_with_the_cache() {
    assert_eq!(begin(), Fetch::ReadCache);
}

#[test]
fn hit_is_returned_without_a_request() {
    assert_eq!(
        call_nws_api(begin(), cached("{\"a\":1}")),
        Fetch::Return { body: String::from("{\"a\":1}") }
    );
}

#[test]
fn miss_sends_the_request() {
    assert_eq!(call_nws_api(begin(), cached("")), Fetch::Request);
}

#[test]
fn response_goes_to_the_cache_under_its_expiry() {
    assert_eq!(
        call_nws_api(Fetch::Request, response(Some("Wed, 28 Oct 2026 12:00:00 GMT"), "body")),
        Fetch::WriteCache {
            expires: String::from("Wed, 28 Oct 2026 12:00:00 GMT"),
            body: String::from("body"),
        }
    );
}

#[test]
fn response_without_expiry_has_the_empty_expiry() {
    assert_eq!(
        call_nws_api(Fetch::Request, response(None, "body")),
        Fetch::WriteCache { expires: String::new(), body: String::from("body") }
    );
}

#[test]
fn body_is_returned_whether_or_not_it_was_stored() {
    for success in [true, false] {
        let write = Fetch::WriteCache { expires: String::from("e"), body: String::from("body") };
        assert_eq!(
            call_nws_api(write, Outcome::Stored { success }),
            Fetch::Return { body: String::from("body") }
        );
    }
}

#[test]
fn network_failure_ends_the_fetch() {
    assert_eq!(
        call_nws_api(Fetch::Request, Outcome::NetworkFailure),
        Fetch::Abort { error: FetchError::Network }
    );
}

#[test]
fn decode_failure_ends_the_fetch() {
    assert_eq!(
        call_nws_api(Fetch::Request, Outcome::DecodeFailure),
        Fetch::Abort { error: FetchError::Decode }
    );
}

#[test]
fn outcome_that_answers_nothing_changes_nothing() {
    assert_eq!(call_nws_api(Fetch::ReadCache, Outcome::NetworkFailure), Fetch::ReadCache);
    assert_eq!(call_nws_api(Fetch::ReadCache, response(None, "b")), Fetch::ReadCache);
    assert_eq!(call_nws_api(Fetch::Request, cached("b")), Fetch::Request);
    assert_eq!(call_nws_api(Fetch::Request, Outcome::Stored { success: true }), Fetch::Request);
    let write = Fetch::WriteCache { expires: String::from("e"), body: String::from("b") };
    assert_eq!(
        call_nws_api(write, Outcome::DecodeFailure),
        Fetch::WriteCache { expires: String::from("e"), body: String::from("b") }
    );
}

#[test]
fn ended_fetch_stays_ended() {
    assert_eq!(
        call_nws_api(Fetch::Return { body: String::from("b") }, cached("")),
        Fetch::Return { body: String::from("b") }
    );
    assert_eq!(
        call_nws_api(Fetch::Abort { error: FetchError::Decode }, response(Some("e"), "b")),
        Fetch::Abort { error: FetchError::Decode }
    );
}

#[test]
fn each_failure_has_its_own_exit_status() {
    assert_eq!(exit_status(FetchError::Network), 10);
    assert_eq!(exit_status(FetchError::Decode), 11);
    assert_eq!(exit_status(FetchError::Parse), 1);
}

#[test]
fn request_header_is_fixed() {
    assert_eq!(USER_AGENT_HEADER, "User-Agent");
    assert_eq!(USER_AGENT, "weathr-app");
    assert_eq!(EXPIRES_HEADER, "expires");
}
