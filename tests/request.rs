use skyblock_rs::request::{probe_envelope, request_url, BASE_URL};
use skyblock_rs::{ApiBody, ApiError};

#[test]
fn url_with_params() {
    let params = vec![("page", "3".to_string()), ("productId", "INK_SACK:3".to_string())];
    let url = request_url("auctions", "abc", &params);
    assert_eq!(
        url,
        "https://api.hypixel.net/skyblock/auctions?key=abc&page=3&productId=INK_SACK:3"
    );
    assert_eq!(request_url("bazaar", "k", &vec![]), format!("{}bazaar?key=k", BASE_URL));
}

#[test]
fn error_body() {
    let body = br#"{"success":false,"cause":"No \"key\" provided!"}"#;
    let res = probe_envelope(body).into_result();
    let err = res.err().unwrap();

    assert_eq!(err.cause(), "No \"key\" provided!");
    assert_eq!(err.to_string(), "api call failed: No \"key\" provided!");
}

#[test]
fn failure_cause_kept_verbatim() {
    let body = br#"{"cause": "No \"key\" provided!"}"#;
    match probe_envelope(body) {
        ApiBody::Error { cause } => assert_eq!(cause.cause(), "No \"key\" provided!"),
        ApiBody::Success(()) => panic!("failure envelope read as success"),
    }
}

#[test]
fn success_bodies_pass_through() {
    assert!(matches!(
        probe_envelope(br#"{"success":true,"page":0,"totalPages":1}"#),
        ApiBody::Success(())
    ));
    assert!(matches!(probe_envelope(br#"{"cause": 17}"#), ApiBody::Success(())));
    assert!(matches!(probe_envelope(b"not json"), ApiBody::Success(())));
}

#[test]
fn into_result_unwraps_envelope() {
    let ok: ApiBody<u32> = ApiBody::Success(7);
    assert_eq!(ok.into_result().unwrap(), 7);
    let failed: ApiBody<u32> = ApiBody::Error { cause: ApiError::new("bad".to_string()) };
    assert_eq!(failed.into_result().unwrap_err().cause(), "bad");
}
