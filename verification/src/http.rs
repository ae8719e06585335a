//! The HTTP face of the gateway: protocol version negotiation, origin
//! validation, accept-header negotiation, session identifiers, and the
//! shaping of JSON and server-sent-event responses.

use vstd::prelude::*;
use vstd::string::StrSliceExecFns;
use vstd::string::StringExecFns;

use crate::json::JVal;
use crate::json::JsonValue;
use crate::json::json_text;
use crate::text::contains_seq;
use crate::text::has_prefix;
use crate::text::str_contains;
use crate::text::str_eq;
use crate::text::str_starts_with;

verus! {

/// The protocol versions the gateway speaks; the newest is the default.
pub open spec fn supported_version(v: Seq<char>) -> bool {
    v == "2025-06-18"@ || v == "2025-03-26"@ || v == "2024-11-05"@
}

/// The version the gateway answers with: the client's when supported,
/// else the newest supported version.
pub open spec fn negotiated_version(v: Seq<char>) -> Seq<char> {
    if supported_version(v) {
        v
    } else {
        "2025-06-18"@
    }
}

/// If the client requests a version the gateway supports, echo it;
/// otherwise fall back to the newest supported version.
pub fn negotiate_version(client_version: &str) -> (r: &'static str)
    ensures
        r@ == negotiated_version(client_version@),
        supported_version(client_version@) ==> r@ == client_version@,
        !supported_version(client_version@) ==> r@ == "2025-06-18"@,
{
    if str_eq(client_version, "2025-06-18") {
        "2025-06-18"
    } else if str_eq(client_version, "2025-03-26") {
        "2025-03-26"
    } else if str_eq(client_version, "2024-11-05") {
        "2024-11-05"
    } else {
        "2025-06-18"
    }
}

/// `o` is `base`, or `base` followed by a colon and the rest (a port).
pub open spec fn host_with_optional_port(o: Seq<char>, base: Seq<char>) -> bool {
    o == base || (has_prefix(o, base) && o.len() > base.len() && o[base.len() as int] == ':')
}

/// `o` is a localhost origin the CORS rules let through: plain localhost,
/// 127.0.0.1 or [::1], each with or without a port.
pub open spec fn localhost_origin(o: Seq<char>) -> bool {
    ||| host_with_optional_port(o, "http://localhost"@)
    ||| host_with_optional_port(o, "http://127.0.0.1"@)
    ||| host_with_optional_port(o, "http://[::1]"@)
}

/// Match one allowed base, alone or with a port suffix.
fn matches_host_with_port(origin: &str, base: &str) -> (r: bool)
    ensures
        r == host_with_optional_port(origin@, base@),
{
    if str_eq(origin, base) {
        return true;
    }
    if str_starts_with(origin, base) {
        let blen = base.unicode_len();
        let olen = origin.unicode_len();
        if olen > blen {
            let c = origin.get_char(blen);
            return c == ':';
        }
        proof {
            assert(origin@.subrange(0, blen as int) =~= origin@);
        }
        return false;
    }
    false
}

/// Decide whether `origin` is a localhost variant.
pub fn is_localhost_origin(origin: &str) -> (r: bool)
    ensures
        r == localhost_origin(origin@),
{
    matches_host_with_port(origin, "http://localhost") || matches_host_with_port(
        origin,
        "http://127.0.0.1",
    ) || matches_host_with_port(origin, "http://[::1]")
}

/// An origin value the gateway lets through: the empty value, a localhost
/// variant, or an application-webview origin.
pub open spec fn origin_allowed(o: Seq<char>) -> bool {
    ||| o.len() == 0
    ||| localhost_origin(o)
    ||| has_prefix(o, "tauri://"@)
    ||| has_prefix(o, "https://tauri."@)
}

/// Validate the origin header value. No header at all passes (a
/// non-browser caller); an allow-listed origin passes; anything else is
/// refused with status 403 and a message naming the origin.
pub fn validate_origin(origin: Option<&str>) -> (r: Result<(), (u16, String)>)
    ensures
        match origin {
            None => r is Ok,
            Some(o) => {
                &&& (r is Ok <==> origin_allowed(o@))
                &&& match r {
                    Ok(_) => true,
                    Err(e) => e.0 == 403 && e.1@ == "Origin not allowed: "@ + o@,
                }
            },
        },
{
    let o = match origin {
        None => {
            return Ok(());
        },
        Some(o) => o,
    };
    if o.unicode_len() == 0 {
        return Ok(());
    }
    if is_localhost_origin(o) {
        return Ok(());
    }
    if str_starts_with(o, "tauri://") || str_starts_with(o, "https://tauri.") {
        return Ok(());
    }
    let mut m = String::from_str("Origin not allowed: ");
    m.append(o);
    Err((403, m))
}

/// The caller's accept header admits a server-sent-event response.
pub fn client_accepts_sse(accept: Option<&str>) -> (r: bool)
    ensures
        r == match accept {
            Some(a) => contains_seq(a@, "text/event-stream"@),
            None => false,
        },
{
    match accept {
        Some(a) => str_contains(a, "text/event-stream"),
        None => false,
    }
}

/// One HTTP response of the gateway: status, headers in order, body text.
#[derive(Debug, PartialEq, Eq)]
pub struct HttpResponse {
    /// The HTTP status code.
    pub status: u16,
    /// The response headers, in the order they are set.
    pub headers: Vec<(String, String)>,
    /// The response body.
    pub body: String,
}

/// The trailing session header, present exactly when a session id is.
pub open spec fn session_header_after(
    headers: Seq<(String, String)>,
    at: int,
    sid: Option<Seq<char>>,
) -> bool {
    match sid {
        Some(s) => headers.len() == at + 1 && headers[at].0@ == "mcp-session-id"@
            && headers[at].1@ == s,
        None => headers.len() == at,
    }
}

/// The shape of a plain JSON response.
pub open spec fn is_json_response(r: HttpResponse, j: JVal, sid: Option<Seq<char>>) -> bool {
    &&& r.status == 200
    &&& r.body@ == json_text(j)
    &&& r.headers@.len() >= 1
    &&& r.headers@[0].0@ == "content-type"@
    &&& r.headers@[0].1@ == "application/json"@
    &&& session_header_after(r.headers@, 1, sid)
}

/// The shape of a response framed as one server-sent `message` event.
pub open spec fn is_sse_response(r: HttpResponse, j: JVal, sid: Option<Seq<char>>) -> bool {
    &&& r.status == 200
    &&& r.body@ == "event: message\ndata: "@ + json_text(j) + "\n\n"@
    &&& r.headers@.len() >= 2
    &&& r.headers@[0].0@ == "content-type"@
    &&& r.headers@[0].1@ == "text/event-stream"@
    &&& r.headers@[1].0@ == "cache-control"@
    &&& r.headers@[1].1@ == "no-cache"@
    &&& session_header_after(r.headers@, 2, sid)
}

/// The shape of the empty accepted response.
pub open spec fn is_accepted_response(r: HttpResponse, sid: Option<Seq<char>>) -> bool {
    &&& r.status == 202
    &&& r.body@.len() == 0
    &&& session_header_after(r.headers@, 0, sid)
}

/// The view of an optional session id.
pub open spec fn sid_view(sid: Option<&str>) -> Option<Seq<char>> {
    match sid {
        Some(s) => Some(s@),
        None => None,
    }
}

/// Append the session header when a session id is present.
fn attach_session_id(headers: &mut Vec<(String, String)>, session_id: Option<&str>)
    ensures
        session_header_after(final(headers)@, old(headers)@.len() as int, sid_view(session_id)),
        final(headers)@.len() >= old(headers)@.len(),
        forall|i: int|
            0 <= i < old(headers)@.len() ==> final(headers)@[i] == old(headers)@[i],
{
    match session_id {
        Some(id) => {
            headers.push((String::from_str("mcp-session-id"), String::from_str(id)));
        },
        None => {},
    }
}

/// Build a plain JSON response carrying the serialized document.
pub fn json_response(body: &JsonValue, session_id: Option<&str>) -> (r: HttpResponse)
    ensures
        is_json_response(r, body@, sid_view(session_id)),
{
    let mut headers: Vec<(String, String)> = Vec::new();
    headers.push((String::from_str("content-type"), String::from_str("application/json")));
    attach_session_id(&mut headers, session_id);
    HttpResponse { status: 200, headers, body: crate::json::to_json_string(body) }
}

/// Build a response framed as a single server-sent `message` event.
pub fn sse_response(body: &JsonValue, session_id: Option<&str>) -> (r: HttpResponse)
    ensures
        is_sse_response(r, body@, sid_view(session_id)),
{
    let mut headers: Vec<(String, String)> = Vec::new();
    headers.push((String::from_str("content-type"), String::from_str("text/event-stream")));
    headers.push((String::from_str("cache-control"), String::from_str("no-cache")));
    attach_session_id(&mut headers, session_id);
    let mut text = String::from_str("event: message\ndata: ");
    crate::json::append_json(body, &mut text);
    text.append("\n\n");
    HttpResponse { status: 200, headers, body: text }
}

/// Build a JSON or server-sent-event response, as the caller's accept
/// header asked.
pub fn mcp_response(body: &JsonValue, session_id: Option<&str>, use_sse: bool) -> (r: HttpResponse)
    ensures
        use_sse ==> is_sse_response(r, body@, sid_view(session_id)),
        !use_sse ==> is_json_response(r, body@, sid_view(session_id)),
{
    if use_sse {
        sse_response(body, session_id)
    } else {
        json_response(body, session_id)
    }
}

/// Build the empty accepted response for notification traffic.
pub fn accepted_response(session_id: Option<&str>) -> (r: HttpResponse)
    ensures
        is_accepted_response(r, sid_view(session_id)),
{
    let mut headers: Vec<(String, String)> = Vec::new();
    attach_session_id(&mut headers, session_id);
    HttpResponse { status: 202, headers, body: String::new() }
}

/// Build the refusal for a GET on the message endpoint: server-initiated
/// streaming is unsupported by design.
pub fn method_not_allowed_response() -> (r: HttpResponse)
    ensures
        r.status == 405,
        r.body@.len() == 0,
        r.headers@.len() == 0,
{
    HttpResponse { status: 405, headers: Vec::new(), body: String::new() }
}

/// Build the refusal for an origin outside the allow list.
pub fn forbidden_response(message: String) -> (r: HttpResponse)
    ensures
        r.status == 403,
        r.body@ == message@,
        r.headers@.len() == 0,
{
    HttpResponse { status: 403, headers: Vec::new(), body: message }
}

/// Relies on `uuid::Uuid::new_v4` and its hyphenated display form: a
/// version-4 identifier rendered as 36 characters. The value is random;
/// nothing else is assumed of it.
#[verifier::external_body]
pub fn new_session_id() -> (r: String)
    ensures
        r@.len() == 36,
{
    uuid::Uuid::new_v4().to_string()
}

} // verus!
