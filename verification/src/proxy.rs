//! The request-handling core of the relay.
//!
//! One incoming call is handled in two steps around the outbound I/O that
//! the caller of this library performs. `plan_request` decides, from the
//! extracted credentials, whether to answer at once (no or bad
//! credentials) or to forward a GET to the device; `upstream_reply` turns
//! the body the device answered with into the reply for the original
//! caller.

use crate::json::record_json;
use crate::json::record_to_json;
use crate::xml::parse_device_status;
use crate::xml::spec_parse_device_status;
use vstd::prelude::*;

verus! {

/// What the listener extracted from the `Authorization` header.
pub enum AuthStatus {
    /// The header is absent.
    Missing,
    /// The header is present but does not carry Basic credentials; the
    /// string describes the failure.
    Malformed(String),
    /// Valid Basic credentials.
    Credentials { username: String, password: String },
}

/// An HTTP response for the original caller.
pub struct HttpReply {
    /// The status code.
    pub status: u16,
    /// The `WWW-Authenticate` challenge, on the reply that asks for
    /// credentials.
    pub www_authenticate: Option<String>,
    /// The `Content-Type`, where the body fixes one.
    pub content_type: Option<String>,
    /// The response body.
    pub body: String,
}

/// The GET request to forward to the device.
pub struct OutboundRequest {
    /// The target URL.
    pub url: String,
    /// The Basic-auth username to send along.
    pub username: String,
    /// The Basic-auth password to send along.
    pub password: String,
}

/// What the handler does next: answer at once, or forward and wait.
pub enum ProxyStep {
    Respond(HttpReply),
    Forward(OutboundRequest),
}

/// The challenge sent with the reply that asks for credentials.
pub open spec fn challenge() -> Seq<char> {
    "Basic realm=\"loxone-rest-proxy\""@
}

/// The URL the relay forwards to: the scheme, the caller-supplied host
/// and the caller-supplied path, concatenated verbatim, with no escaping
/// and no normalization.
pub open spec fn forward_url(ip: Seq<char>, path: Seq<char>) -> Seq<char> {
    "http://"@ + ip + "/"@ + path
}

/// Decides what to do with one incoming call.
///
/// With the header absent the caller is asked for credentials: an empty
/// reply whose status demands authorization, carrying the challenge. With
/// a present but unusable header the reply is a bad-request whose body is
/// the extraction failure. With credentials the call is forwarded: a GET
/// to the device named by `ip`, under `path`, with the same credentials.
pub fn plan_request(auth: AuthStatus, ip: &str, path: &str) -> (step: ProxyStep)
    ensures
        match auth {
            AuthStatus::Missing => step matches ProxyStep::Respond(r) && r.status == 401 && (
            r.www_authenticate matches Some(h) && h@ == challenge()) && r.content_type is None
                && r.body@ == Seq::<char>::empty(),
            AuthStatus::Malformed(msg) => step matches ProxyStep::Respond(r) && r.status == 400
                && r.www_authenticate is None && r.content_type is None && r.body@ == msg@,
            AuthStatus::Credentials { username, password } => step matches ProxyStep::Forward(q)
                && q.url@ == forward_url(ip@, path@) && q.username@ == username@ && q.password@
                == password@,
        },
{
    match auth {
        AuthStatus::Missing => {
            let h = "Basic realm=\"loxone-rest-proxy\"".to_owned();
            ProxyStep::Respond(
                HttpReply {
                    status: 401,
                    www_authenticate: Some(h),
                    content_type: None,
                    body: String::new(),
                },
            )
        },
        AuthStatus::Malformed(msg) => ProxyStep::Respond(
            HttpReply { status: 400, www_authenticate: None, content_type: None, body: msg },
        ),
        AuthStatus::Credentials { username, password } => {
            let mut url = "http://".to_owned();
            url.append(ip);
            url.append("/");
            url.append(path);
            proof {
                assert(url@ =~= forward_url(ip@, path@));
            }
            ProxyStep::Forward(OutboundRequest { url, username, password })
        },
    }
}

/// Builds the reply for the body the device answered with: the parsed
/// record rendered as JSON, or, where the body is no status document of
/// the grammar, the fixed parse-failure reply.
pub fn upstream_reply(body: &str) -> (r: HttpReply)
    ensures
        r.www_authenticate is None,
        match spec_parse_device_status(body@) {
            Some(v) => r.status == 200 && r.body@ == record_json(v) && (
            r.content_type matches Some(t) && t@ == "application/json"@),
            None => r.status == 500 && r.content_type is None && r.body@
                == "Parsing XML error"@,
        },
{
    match parse_device_status(body) {
        Some(rec) => {
            let rendered = record_to_json(&rec);
            HttpReply {
                status: 200,
                www_authenticate: None,
                content_type: Some("application/json".to_owned()),
                body: rendered,
            }
        },
        None => HttpReply {
            status: 500,
            www_authenticate: None,
            content_type: None,
            body: "Parsing XML error".to_owned(),
        },
    }
}

/// Builds the reply for an outbound transport failure (connection
/// refused, timeout, unreadable body): a bad-gateway reply whose body
/// names the failure, so that no failure leaves the caller without a
/// response.
pub fn transport_failure_reply(detail: &str) -> (r: HttpReply)
    ensures
        r.status == 502,
        r.www_authenticate is None,
        r.content_type is None,
        r.body@ == "Upstream request failed: "@ + detail@,
{
    let mut body = "Upstream request failed: ".to_owned();
    body.append(detail);
    HttpReply { status: 502, www_authenticate: None, content_type: None, body }
}

} // verus!
