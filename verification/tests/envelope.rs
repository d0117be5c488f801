use clientd::envelope::{classify, classify_decoded, Method, Reply, Request, Response, RpcResult};
use serde_json::Value;

fn member(object: &Value, key: &str) -> Option<String> {
    match object.get(key) {
        None | Some(Value::Null) => None,
        Some(value) => Some(value.to_string()),
    }
}

fn decode(body: &[u8]) -> Option<Response> {
    let value: Value = serde_json::from_slice(body).ok()?;
    if !value.is_object() {
        return None;
    }
    Some(Response {
        result: member(&value, "result"),
        error: member(&value, "error"),
        id: member(&value, "id"),
    })
}

fn read(body: &[u8]) -> Reply {
    classify(Some(body), decode(body))
}

#[test]
fn a_null_body_is_an_acknowledgment() {
    assert_eq!(read(b"null"), Reply::Empty);
}

#[test]
fn a_result_is_a_success_with_its_payload() {
    let reply = read(br#"{"result": {"txid": "ab"}, "id": 1}"#);
    assert_eq!(reply, Reply::Success(String::from(r#"{"txid":"ab"}"#)));
}

#[test]
fn an_error_is_a_failure_with_its_payload() {
    let reply = read(br#"{"error": {"code": -1, "message": "no funds"}, "id": 1}"#);
    match reply {
        Reply::Failure(payload) => {
            let value: Value = serde_json::from_str(&payload).unwrap();
            assert_eq!(value.get("code").and_then(Value::as_i64), Some(-1));
            assert_eq!(value.get("message").and_then(Value::as_str), Some("no funds"));
        }
        other => panic!("read as {:?}", other),
    }
}

#[test]
fn an_envelope_with_neither_field_breaks_the_protocol() {
    assert_eq!(read(br#"{"id": 1}"#), Reply::ProtocolViolation);
    assert_eq!(read(br#"{}"#), Reply::ProtocolViolation);
    assert_eq!(read(br#"{"result": null, "error": null, "id": 1}"#), Reply::ProtocolViolation);
}

#[test]
fn a_body_that_is_no_json_breaks_the_protocol() {
    assert_eq!(read(b""), Reply::ProtocolViolation);
    assert_eq!(read(b"nul"), Reply::ProtocolViolation);
    assert_eq!(read(b"nulll"), Reply::ProtocolViolation);
    assert_eq!(read(b"null null"), Reply::ProtocolViolation);
    assert_eq!(read(br#"{"result": "#), Reply::ProtocolViolation);
    assert_eq!(read(b"<html>"), Reply::ProtocolViolation);
}

#[test]
fn a_body_that_is_no_envelope_breaks_the_protocol() {
    assert_eq!(read(b"0"), Reply::ProtocolViolation);
    assert_eq!(read(b"false"), Reply::ProtocolViolation);
    assert_eq!(read(br#""null""#), Reply::ProtocolViolation);
    assert_eq!(read(b"[null]"), Reply::ProtocolViolation);
}

#[test]
fn a_null_body_may_stand_in_white_space() {
    assert_eq!(read(b" null"), Reply::Empty);
    assert_eq!(read(b"null\n"), Reply::Empty);
    assert_eq!(read(b"\t\r\n null \n"), Reply::Empty);
}

#[test]
fn a_null_body_is_an_acknowledgment_whatever_it_is_said_to_decode_to() {
    let envelope = Response {
        result: Some(String::from("1")),
        error: None,
        id: None,
    };
    assert_eq!(classify(Some(b"null"), Some(envelope.clone())), Reply::Empty);
    assert_eq!(
        classify(Some(b"true"), Some(envelope)),
        Reply::Success(String::from("1"))
    );
}

#[test]
fn no_body_is_no_response() {
    assert_eq!(classify(None, None), Reply::NoResponse);
    let envelope = Response {
        result: Some(String::from("1")),
        error: None,
        id: None,
    };
    assert_eq!(classify(None, Some(envelope)), Reply::NoResponse);
}

#[test]
fn a_result_counts_before_an_error() {
    let reply = read(br#"{"result": 7, "error": "late", "id": 3}"#);
    assert_eq!(reply, Reply::Success(String::from("7")));
}

#[test]
fn the_four_outcomes_of_a_decoded_body() {
    let with_result = Response {
        result: Some(String::from("{}")),
        error: None,
        id: Some(String::from("1")),
    };
    let with_error = Response {
        result: None,
        error: Some(String::from("\"boom\"")),
        id: Some(String::from("1")),
    };
    let bare = Response {
        result: None,
        error: None,
        id: Some(String::from("1")),
    };
    assert_eq!(classify_decoded(true, None), Reply::Empty);
    assert_eq!(classify_decoded(true, Some(bare.clone())), Reply::Empty);
    assert_eq!(
        classify_decoded(false, Some(with_result)),
        Reply::Success(String::from("{}"))
    );
    assert_eq!(
        classify_decoded(false, Some(with_error)),
        Reply::Failure(String::from("\"boom\""))
    );
    assert_eq!(classify_decoded(false, Some(bare)), Reply::ProtocolViolation);
    assert_eq!(classify_decoded(false, None), Reply::ProtocolViolation);
}

#[test]
fn a_handlers_outcome_reads_back_as_it_was() {
    let done = Response::from_result(
        RpcResult::Success(String::from("{\"coins\":[]}")),
        Some(String::from("9")),
    );
    assert_eq!(done.result, Some(String::from("{\"coins\":[]}")));
    assert_eq!(done.error, None);
    assert_eq!(done.id, Some(String::from("9")));
    assert_eq!(
        classify_decoded(false, Some(done)),
        Reply::Success(String::from("{\"coins\":[]}"))
    );

    let failed = Response::from_result(RpcResult::Failure(String::from("\"no funds\"")), None);
    assert_eq!(failed.result, None);
    assert_eq!(failed.error, Some(String::from("\"no funds\"")));
    assert_eq!(failed.id, None);
    assert_eq!(
        classify_decoded(false, Some(failed)),
        Reply::Failure(String::from("\"no funds\""))
    );
}

#[test]
fn each_operation_has_its_name() {
    assert_eq!(Method::Info.name(), "info");
    assert_eq!(Method::Pending.name(), "pending");
    assert_eq!(Method::Events.name(), "events");
    assert_eq!(Method::PeginAddress.name(), "pegin_address");
    assert_eq!(Method::PegIn.name(), "pegin");
    assert_eq!(Method::PegOut.name(), "pegout");
    assert_eq!(Method::Spend.name(), "spend");
    assert_eq!(Method::LnPay.name(), "lnpay");
    assert_eq!(Method::Reissue.name(), "reissue");
}

#[test]
fn a_request_without_parameters() {
    let request = Request::standard(Method::Info, Some(String::from("1")));
    assert_eq!(request.method, "info");
    assert_eq!(request.params, None);
    assert_eq!(request.id, Some(String::from("1")));
    let unnamed = Request::standard(Method::Pending, None);
    assert_eq!(unnamed.method, "pending");
    assert_eq!(unnamed.params, None);
    assert_eq!(unnamed.id, None);
}

#[test]
fn a_request_with_parameters() {
    let request = Request::standard_with_params(Method::Events, String::from("1500"), None);
    assert_eq!(request.method, "events");
    assert_eq!(request.params, Some(String::from("1500")));
    assert_eq!(request.id, None);
    let spend = Request::standard_with_params(
        Method::Spend,
        String::from("42000"),
        Some(String::from("\"a\"")),
    );
    assert_eq!(spend.method, "spend");
    assert_eq!(spend.params, Some(String::from("42000")));
    assert_eq!(spend.id, Some(String::from("\"a\"")));
}
