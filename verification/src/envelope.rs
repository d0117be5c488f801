//! The request and response envelopes of the RPC interface, and the rule by
//! which a caller reads a raw response.
//!
//! Payloads are opaque here: each is carried as the JSON text that stands
//! for it.

use vstd::prelude::*;

verus! {

/// The operations that the daemon offers.
#[derive(Clone, Copy, Debug, PartialEq, Eq, Structural)]
pub enum Method {
    Info,
    Pending,
    Events,
    PeginAddress,
    PegIn,
    PegOut,
    Spend,
    LnPay,
    Reissue,
}

impl Method {
    /// The name under which the operation is called.
    pub open spec fn spec_name(self) -> Seq<char> {
        match self {
            Method::Info => "info"@,
            Method::Pending => "pending"@,
            Method::Events => "events"@,
            Method::PeginAddress => "pegin_address"@,
            Method::PegIn => "pegin"@,
            Method::PegOut => "pegout"@,
            Method::Spend => "spend"@,
            Method::LnPay => "lnpay"@,
            Method::Reissue => "reissue"@,
        }
    }

    /// The name under which the operation is called.
    pub fn name(self) -> (name: &'static str)
        ensures
            name@ == self.spec_name(),
    {
        match self {
            Method::Info => "info",
            Method::Pending => "pending",
            Method::Events => "events",
            Method::PeginAddress => "pegin_address",
            Method::PegIn => "pegin",
            Method::PegOut => "pegout",
            Method::Spend => "spend",
            Method::LnPay => "lnpay",
            Method::Reissue => "reissue",
        }
    }
}

/// A call: the name of an operation, its parameters if it takes any, and the
/// caller's id, if the caller gave one.
#[derive(Clone, Debug, PartialEq, Eq)]
pub struct Request {
    pub method: String,
    pub params: Option<String>,
    pub id: Option<String>,
}

impl Request {
    /// A call of `method` without parameters.
    pub fn standard(method: Method, id: Option<String>) -> (request: Request)
        ensures
            request.method@ == method.spec_name(),
            request.params == None::<String>,
            request.id == id,
    {
        Request { method: String::from_str(method.name()), params: None, id }
    }

    /// A call of `method` with `params`.
    pub fn standard_with_params(method: Method, params: String, id: Option<String>) -> (request:
        Request)
        ensures
            request.method@ == method.spec_name(),
            request.params == Some(params),
            request.id == id,
    {
        Request { method: String::from_str(method.name()), params: Some(params), id }
    }
}

/// What a handler hands to the transport: the payload of an operation that
/// went well, or the payload that describes why it failed.
#[derive(Clone, Debug, PartialEq, Eq)]
pub enum RpcResult {
    Success(String),
    Failure(String),
}

/// The envelope of an answer. An answer to a call carries a result or an
/// error.
#[derive(Clone, Debug, PartialEq, Eq)]
pub struct Response {
    pub result: Option<String>,
    pub error: Option<String>,
    pub id: Option<String>,
}

impl Response {
    /// The envelope that answers the call `id` with `outcome`: a success
    /// fills `result`, a failure fills `error`, and the other stays absent.
    pub fn from_result(outcome: RpcResult, id: Option<String>) -> (response: Response)
        ensures
            response.id == id,
            outcome matches RpcResult::Success(payload) ==> response.result == Some(payload)
                && response.error == None::<String>,
            outcome matches RpcResult::Failure(payload) ==> response.error == Some(payload)
                && response.result == None::<String>,
    {
        match outcome {
            RpcResult::Success(payload) => Response { result: Some(payload), error: None, id },
            RpcResult::Failure(payload) => Response { result: None, error: Some(payload), id },
        }
    }
}

/// What a call came to, as its caller reads it.
#[derive(Clone, Debug, PartialEq, Eq)]
pub enum Reply {
    /// The responder acknowledged a notification: there is nothing to decode.
    Empty,
    /// The operation went well; this is its payload.
    Success(String),
    /// The operation failed; this is the payload that describes the failure.
    Failure(String),
    /// A body came back that is neither an acknowledgment nor an envelope
    /// with a result or an error. The responder is at fault.
    ProtocolViolation,
    /// No body came back: the request did not reach the responder, or its
    /// answer could not be read.
    NoResponse,
}

/// Whether `serde_json` reads `body` as the JSON value `null`.
pub uninterp spec fn json_null(body: Seq<u8>) -> bool;

/// `serde_json::from_slice`, asked for a `serde_json::Value`: whether the
/// bytes are one JSON document and that document is `null`. The answer is
/// that of the parser and is not spelled out here.
#[verifier::external_body]
fn is_json_null(body: &[u8]) -> (null: bool)
    ensures
        null == json_null(body@),
{
    matches!(serde_json::from_slice::<serde_json::Value>(body), Ok(serde_json::Value::Null))
}

/// How a body is read, given whether it is the JSON value `null` and the
/// envelope it decodes to, if it decodes to one. A `null` body is an
/// acknowledgment whatever else holds; then a result counts before an error;
/// anything else breaks the protocol.
pub open spec fn classified(null: bool, envelope: Option<Response>) -> Reply {
    if null {
        Reply::Empty
    } else {
        match envelope {
            Some(Response { result: Some(payload), .. }) => Reply::Success(payload),
            Some(Response { result: None, error: Some(payload), .. }) => Reply::Failure(payload),
            _ => Reply::ProtocolViolation,
        }
    }
}

/// How an exchange is read: no body is no response, and a body is read by
/// [`classified`].
pub open spec fn outcome_of(body: Option<Seq<u8>>, envelope: Option<Response>) -> Reply {
    match body {
        None => Reply::NoResponse,
        Some(bytes) => classified(json_null(bytes), envelope),
    }
}

/// Reads a body of which it is known whether it is the JSON value `null`,
/// and which envelope it decodes to, if any.
pub fn classify_decoded(null: bool, envelope: Option<Response>) -> (reply: Reply)
    ensures
        reply == classified(null, envelope),
{
    if null {
        return Reply::Empty;
    }
    match envelope {
        Some(response) => match response.result {
            Some(payload) => Reply::Success(payload),
            None => match response.error {
                Some(payload) => Reply::Failure(payload),
                None => Reply::ProtocolViolation,
            },
        },
        None => Reply::ProtocolViolation,
    }
}

/// Reads an exchange. `body` is what came back, or `None` where the transport
/// failed; `envelope` is the envelope that the body decodes to, or `None`
/// where it decodes to none.
pub fn classify(body: Option<&[u8]>, envelope: Option<Response>) -> (reply: Reply)
    ensures
        reply == outcome_of(
            match body {
                Some(bytes) => Some(bytes@),
                None => None,
            },
            envelope,
        ),
{
    match body {
        None => Reply::NoResponse,
        Some(bytes) => classify_decoded(is_json_null(bytes), envelope),
    }
}

/// An envelope made from a handler's outcome reads back as that outcome: a
/// success as a success with the same payload, a failure as a failure with
/// the same payload.
pub proof fn lemma_envelope_reads_back(response: Response, outcome: RpcResult)
    requires
        outcome matches RpcResult::Success(payload) ==> response.result == Some(payload)
            && response.error == None::<String>,
        outcome matches RpcResult::Failure(payload) ==> response.error == Some(payload)
            && response.result == None::<String>,
    ensures
        outcome matches RpcResult::Success(payload) ==> classified(false, Some(response))
            == Reply::Success(payload),
        outcome matches RpcResult::Failure(payload) ==> classified(false, Some(response))
            == Reply::Failure(payload),
{
}

/// An envelope that carries neither a result nor an error breaks the
/// protocol, and so does a body that decodes to no envelope, unless the body
/// is `null`.
pub proof fn lemma_bare_envelope_breaks_protocol(envelope: Option<Response>)
    requires
        envelope matches Some(response) ==> (response.result is None && response.error is None),
    ensures
        classified(false, envelope) == Reply::ProtocolViolation,
        classified(true, envelope) == Reply::Empty,
{
}

/// A body is read as an acknowledgment exactly where it is `null`, as a
/// success or a failure only where it decodes to an envelope that carries
/// that payload, and never as no response.
pub proof fn lemma_outcomes_are_told_apart(null: bool, envelope: Option<Response>)
    ensures
        classified(null, envelope) == Reply::Empty <==> null,
        classified(null, envelope) matches Reply::Success(payload) ==> (!null
            && envelope is Some && envelope->0.result == Some(payload)),
        classified(null, envelope) matches Reply::Failure(payload) ==> (!null
            && envelope is Some && envelope->0.result is None && envelope->0.error == Some(
            payload,
        )),
        classified(null, envelope) != Reply::NoResponse,
{
}

} // verus!
