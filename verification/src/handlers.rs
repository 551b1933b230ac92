//! The bodies of the sidecar's JSON responses.
//!
//! Each route's body is stated exactly, character for character, over
//! the escape function of [`crate::json`]. The attestation client calls
//! themselves happen outside the library; their results come in as the
//! plain values of [`QuoteOutcome`] and [`AttestOutcome`], and every
//! body below is a pure function of those values.

use crate::json::append_escaped;
use crate::json::spec_escape;
use vstd::prelude::*;
use vstd::string::StrSliceExecFns;
use vstd::string::StringExecFns;
use vstd::utf8::encode_utf8;

verus! {

/// The query parameters of the quote and attest routes.
pub struct QuoteParams {
    pub data: Option<String>,
}

/// The payload sent to the attestation client when the query carries no
/// `data` parameter: the UTF-8 bytes of `hello world`.
pub open spec fn spec_default_payload() -> Seq<u8> {
    encode_utf8("hello world"@)
}

/// The default payload is the eleven ASCII bytes of `hello world`.
pub proof fn lemma_default_payload_bytes()
    ensures
        spec_default_payload() =~= seq![
            104u8,
            101u8,
            108u8,
            108u8,
            111u8,
            32u8,
            119u8,
            111u8,
            114u8,
            108u8,
            100u8,
        ],
{
    reveal_strlit("hello world");
    let s = "hello world"@;
    assert(vstd::utf8::is_ascii_chars(s));
    vstd::utf8::is_ascii_chars_encode_utf8(s);
}

/// Returns the bytes handed to the attestation client for the given
/// query: the UTF-8 encoding of the `data` parameter when one is
/// present, and the default payload otherwise.
pub fn payload_bytes(params: &QuoteParams) -> (r: Vec<u8>)
    ensures
        match params.data {
            Some(d) => r@ == encode_utf8(d@),
            None => r@ == spec_default_payload(),
        },
{
    match &params.data {
        Some(d) => d.as_str().as_bytes_vec(),
        None => "hello world".as_bytes_vec(),
    }
}

/// What came of one quote request: the client call failed, the call
/// succeeded but the RTMRs of the returned quote could not be replayed,
/// or both steps succeeded and left their rendered forms.
pub enum QuoteOutcome {
    Failed { message: String },
    ReplayFailed { message: String },
    Replayed { quote: String, rtmrs: String },
}

/// What came of one attestation request: the client call failed, or it
/// returned an attestation already rendered as a JSON value.
pub enum AttestOutcome {
    Failed { message: String },
    Attested { attestation: String },
}

/// The constant liveness body.
pub open spec fn spec_health_body() -> Seq<char> {
    "{\"status\":\"ok\"}"@
}

/// The body reporting a failure: a JSON object holding exactly one
/// `error` field with the given message.
pub open spec fn spec_error_body(message: Seq<char>) -> Seq<char> {
    "{\"error\":\""@ + spec_escape(message) + "\"}"@
}

/// The service-information body: a JSON object holding the fixed
/// service name and the given timestamp.
pub open spec fn spec_root_body(timestamp: Seq<char>) -> Seq<char> {
    "{\"service\":\"dstack-quote-sidecar\",\"timestamp\":\""@ + spec_escape(timestamp) + "\"}"@
}

/// Whatever the timestamp, the service-information body carries the
/// fixed service name as the value of its leading `service` field.
pub proof fn lemma_root_body_names_service(timestamp: Seq<char>)
    ensures
        spec_root_body(timestamp).subrange(12, 32) == crate::spec_service_name(),
{
    reveal_strlit("{\"service\":\"dstack-quote-sidecar\",\"timestamp\":\"");
    reveal_strlit("dstack-quote-sidecar");
    assert(spec_root_body(timestamp).subrange(12, 32) =~= crate::spec_service_name());
}

/// The body of a successful quote request: a JSON object holding the
/// rendered quote and the rendered replayed RTMRs.
pub open spec fn spec_quote_ok_body(quote: Seq<char>, rtmrs: Seq<char>) -> Seq<char> {
    "{\"quote\":\""@ + spec_escape(quote) + "\",\"rtmrs\":\""@ + spec_escape(rtmrs) + "\"}"@
}

/// The body of a successful attestation request: a JSON object holding
/// the attestation, already rendered as a JSON value.
pub open spec fn spec_attest_ok_body(attestation: Seq<char>) -> Seq<char> {
    "{\"attestation\":"@ + attestation + "}"@
}

/// The body chosen for each quote outcome: failures of either step turn
/// into an error body with the step's prefix, success into the quote
/// body.
pub open spec fn spec_quote_body(outcome: QuoteOutcome) -> Seq<char> {
    match outcome {
        QuoteOutcome::Failed { message } => spec_error_body(
            "Failed to get quote: "@ + message@,
        ),
        QuoteOutcome::ReplayFailed { message } => spec_error_body(
            "Failed to replay RTMRs: "@ + message@,
        ),
        QuoteOutcome::Replayed { quote, rtmrs } => spec_quote_ok_body(quote@, rtmrs@),
    }
}

/// The body chosen for each attestation outcome.
pub open spec fn spec_attest_body(outcome: AttestOutcome) -> Seq<char> {
    match outcome {
        AttestOutcome::Failed { message } => spec_error_body("Failed to attest: "@ + message@),
        AttestOutcome::Attested { attestation } => spec_attest_ok_body(attestation@),
    }
}

/// Returns the liveness body: exactly `{"status":"ok"}`.
pub fn health_body() -> (r: String)
    ensures
        r@ == spec_health_body(),
{
    String::from_str("{\"status\":\"ok\"}")
}

/// Returns the error body for the given message.
pub fn error_body(message: &str) -> (r: String)
    ensures
        r@ == spec_error_body(message@),
{
    let mut out = String::from_str("{\"error\":\"");
    append_escaped(&mut out, message);
    out.append("\"}");
    out
}

/// Returns the service-information body for the given timestamp.
pub fn root_body(timestamp: &str) -> (r: String)
    ensures
        r@ == spec_root_body(timestamp@),
{
    let mut out = String::from_str("{\"service\":\"dstack-quote-sidecar\",\"timestamp\":\"");
    append_escaped(&mut out, timestamp);
    out.append("\"}");
    out
}

/// Relies on chrono's `Utc::now` for the current instant, rendered by
/// `DateTime::to_rfc3339`; the result depends on the clock, so nothing
/// is promised of it.
#[verifier::external_body]
fn now_rfc3339() -> String {
    chrono::Utc::now().to_rfc3339()
}

/// Returns the service-information body for the present moment: the
/// service-information body of some timestamp, whatever the clock read.
pub fn root_response() -> (r: String)
    ensures
        exists|timestamp: Seq<char>| r@ == spec_root_body(timestamp),
{
    let now = now_rfc3339();
    let r = root_body(now.as_str());
    proof {
        assert(r@ == spec_root_body(now@));
    }
    r
}

/// Returns the body answering a quote request that ended in the given
/// outcome: an object holding only an `error` field when either step
/// failed, and the quote and RTMRs fields when both succeeded.
pub fn quote_body(outcome: &QuoteOutcome) -> (r: String)
    ensures
        r@ == spec_quote_body(*outcome),
{
    match outcome {
        QuoteOutcome::Failed { message } => {
            let mut text = String::from_str("Failed to get quote: ");
            text.append(message.as_str());
            error_body(text.as_str())
        },
        QuoteOutcome::ReplayFailed { message } => {
            let mut text = String::from_str("Failed to replay RTMRs: ");
            text.append(message.as_str());
            error_body(text.as_str())
        },
        QuoteOutcome::Replayed { quote, rtmrs } => {
            let mut out = String::from_str("{\"quote\":\"");
            append_escaped(&mut out, quote.as_str());
            out.append("\",\"rtmrs\":\"");
            append_escaped(&mut out, rtmrs.as_str());
            out.append("\"}");
            out
        },
    }
}

/// Returns the body answering an attestation request that ended in the
/// given outcome: an object holding only an `error` field when the call
/// failed, and the attestation when it succeeded.
pub fn attest_body(outcome: &AttestOutcome) -> (r: String)
    ensures
        r@ == spec_attest_body(*outcome),
{
    match outcome {
        AttestOutcome::Failed { message } => {
            let mut text = String::from_str("Failed to attest: ");
            text.append(message.as_str());
            error_body(text.as_str())
        },
        AttestOutcome::Attested { attestation } => {
            let mut out = String::from_str("{\"attestation\":");
            out.append(attestation.as_str());
            out.append("}");
            out
        },
    }
}

} // verus!
