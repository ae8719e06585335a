//! JSON-RPC 2.0 envelopes.
//!
//! Wire messages are newline-delimited JSON-RPC 2.0 documents. A message
//! with an `id` and a `method` is a request; one with a `method` and no
//! `id` is a notification; one with an `id` and a `result` or `error` is a
//! response. The builders here construct exact envelopes; the spec
//! functions observe them.

use vstd::prelude::*;
use vstd::string::StringExecFns;

use crate::json::JVal;
use crate::json::JsonValue;
use crate::json::jfields_of;
use crate::json::lemma_jfields_of;
use crate::json::lemma_lookup_absent;
use crate::json::lemma_lookup_at;
use crate::json::obj_field;

verus! {

/// The error code for a method the gateway does not serve.
pub const CODE_METHOD_NOT_FOUND: i64 = -32601;

/// The error code for invalid parameters or an unknown target.
pub const CODE_INVALID_PARAMS: i64 = -32602;

/// The error code for an internal failure of a forwarded call.
pub const CODE_INTERNAL_ERROR: i64 = -32603;

/// The `id` member of a message.
pub open spec fn msg_id(j: JVal) -> Option<JVal> {
    obj_field(j, "id"@)
}

/// The `method` member of a message.
pub open spec fn msg_method(j: JVal) -> Option<JVal> {
    obj_field(j, "method"@)
}

/// The `params` member of a message.
pub open spec fn msg_params(j: JVal) -> Option<JVal> {
    obj_field(j, "params"@)
}

/// A message with no `id` is notification/response-only traffic.
pub open spec fn is_notification(j: JVal) -> bool {
    msg_id(j) is None
}

/// The `result` member of a response.
pub open spec fn response_result(j: JVal) -> Option<JVal> {
    obj_field(j, "result"@)
}

/// The `error` member of a response.
pub open spec fn response_error(j: JVal) -> Option<JVal> {
    obj_field(j, "error"@)
}

/// The numeric code inside the `error` member, if the response carries one.
pub open spec fn error_code(j: JVal) -> Option<int> {
    match response_error(j) {
        Some(e) => match obj_field(e, "code"@) {
            Some(JVal::Int(c)) => Some(c),
            _ => None,
        },
        None => None,
    }
}

/// The message text inside the `error` member, if the response carries one.
pub open spec fn error_message(j: JVal) -> Option<Seq<char>> {
    match response_error(j) {
        Some(e) => match obj_field(e, "message"@) {
            Some(JVal::Str(m)) => Some(m),
            _ => None,
        },
        None => None,
    }
}

/// The message declares JSON-RPC version 2.0.
pub open spec fn is_versioned(j: JVal) -> bool {
    obj_field(j, "jsonrpc"@) == Some(JVal::Str("2.0"@))
}

/// A success response envelope with the given `id` and `result`.
pub open spec fn is_result_response(j: JVal, id: JVal, result: JVal) -> bool {
    &&& is_versioned(j)
    &&& msg_id(j) == Some(id)
    &&& response_result(j) == Some(result)
    &&& response_error(j) is None
}

/// An error response envelope with the given `id`, `code` and message text.
pub open spec fn is_error_response(j: JVal, id: JVal, code: int, msg: Seq<char>) -> bool {
    &&& is_versioned(j)
    &&& msg_id(j) == Some(id)
    &&& response_result(j) is None
    &&& error_code(j) == Some(code)
    &&& error_message(j) == Some(msg)
}

/// A request envelope with the given `id`, `method` and `params`.
pub open spec fn is_request_wire(j: JVal, id: int, method: Seq<char>, params: Option<JVal>) -> bool {
    &&& is_versioned(j)
    &&& msg_id(j) == Some(JVal::Int(id))
    &&& msg_method(j) == Some(JVal::Str(method))
    &&& match params {
        Some(p) => msg_params(j) == Some(p),
        None => msg_params(j) is None,
    }
}

/// A notification envelope with the given `method` and `params`.
pub open spec fn is_notification_wire(j: JVal, method: Seq<char>, params: Option<JVal>) -> bool {
    &&& is_versioned(j)
    &&& msg_id(j) is None
    &&& msg_method(j) == Some(JVal::Str(method))
    &&& match params {
        Some(p) => msg_params(j) == Some(p),
        None => msg_params(j) is None,
    }
}

/// Build a JSON-RPC success response.
pub fn make_result_response(id: JsonValue, result: JsonValue) -> (r: JsonValue)
    ensures
        is_result_response(r@, id@, result@),
{
    let ghost idv = id@;
    let ghost resv = result@;
    let mut fields: Vec<(String, JsonValue)> = Vec::new();
    fields.push((String::from_str("jsonrpc"), JsonValue::Str(String::from_str("2.0"))));
    fields.push((String::from_str("id"), id));
    fields.push((String::from_str("result"), result));
    let r = JsonValue::Obj(fields);
    proof {
        reveal_strlit("jsonrpc");
        reveal_strlit("id");
        reveal_strlit("result");
        reveal_strlit("error");
        assert("jsonrpc"@.len() == 7 && "id"@.len() == 2 && "result"@.len() == 6
            && "error"@.len() == 5);
        let s = jfields_of(fields@);
        lemma_jfields_of(fields@);
        assert(s.len() == 3);
        assert(s[0].0 == "jsonrpc"@ && s[0].1 == JVal::Str("2.0"@));
        assert(s[1].0 == "id"@ && s[1].1 == idv);
        assert(s[2].0 == "result"@ && s[2].1 == resv);
        assert(s[0].0 != "id"@ && s[0].0 != "result"@ && s[0].0 != "error"@);
        assert(s[1].0 != "result"@ && s[1].0 != "error"@);
        assert(s[2].0 != "error"@);
        lemma_lookup_at(s, "jsonrpc"@, 0);
        lemma_lookup_at(s, "id"@, 1);
        lemma_lookup_at(s, "result"@, 2);
        lemma_lookup_absent(s, "error"@);
    }
    r
}

/// Build a JSON-RPC error response.
pub fn make_error_response(id: JsonValue, code: i64, message: &str) -> (r: JsonValue)
    ensures
        is_error_response(r@, id@, code as int, message@),
{
    let ghost idv = id@;
    let mut err_fields: Vec<(String, JsonValue)> = Vec::new();
    err_fields.push((String::from_str("code"), JsonValue::Int(code)));
    err_fields.push((String::from_str("message"), JsonValue::Str(String::from_str(message))));
    let err = JsonValue::Obj(err_fields);
    proof {
        reveal_strlit("code");
        reveal_strlit("message");
        let es = jfields_of(err_fields@);
        lemma_jfields_of(err_fields@);
        assert(es.len() == 2);
        assert(es[0].0 == "code"@ && es[0].1 == JVal::Int(code as int));
        assert(es[1].0 == "message"@ && es[1].1 == JVal::Str(message@));
        assert(es[0].0 != "message"@);
        lemma_lookup_at(es, "code"@, 0);
        lemma_lookup_at(es, "message"@, 1);
        assert(obj_field(err@, "code"@) == Some(JVal::Int(code as int)));
        assert(obj_field(err@, "message"@) == Some(JVal::Str(message@)));
    }
    let ghost errv = err@;
    let mut fields: Vec<(String, JsonValue)> = Vec::new();
    fields.push((String::from_str("jsonrpc"), JsonValue::Str(String::from_str("2.0"))));
    fields.push((String::from_str("id"), id));
    fields.push((String::from_str("error"), err));
    let r = JsonValue::Obj(fields);
    proof {
        reveal_strlit("jsonrpc");
        reveal_strlit("id");
        reveal_strlit("result");
        reveal_strlit("error");
        assert("jsonrpc"@.len() == 7 && "id"@.len() == 2 && "result"@.len() == 6
            && "error"@.len() == 5);
        let s = jfields_of(fields@);
        lemma_jfields_of(fields@);
        assert(s.len() == 3);
        assert(s[0].0 == "jsonrpc"@ && s[0].1 == JVal::Str("2.0"@));
        assert(s[1].0 == "id"@ && s[1].1 == idv);
        assert(s[2].0 == "error"@ && s[2].1 == errv);
        assert(s[0].0 != "id"@ && s[0].0 != "result"@ && s[0].0 != "error"@);
        assert(s[1].0 != "result"@ && s[1].0 != "error"@);
        assert(s[2].0 != "result"@);
        lemma_lookup_at(s, "jsonrpc"@, 0);
        lemma_lookup_at(s, "id"@, 1);
        lemma_lookup_at(s, "error"@, 2);
        lemma_lookup_absent(s, "result"@);
    }
    r
}

/// Build a JSON-RPC request envelope.
pub fn make_request(id: u64, method: &str, params: Option<JsonValue>) -> (r: JsonValue)
    requires
        id <= i64::MAX,
    ensures
        is_versioned(r@),
        msg_id(r@) == Some(JVal::Int(id as int)),
        msg_method(r@) == Some(JVal::Str(method@)),
        params is Some ==> msg_params(r@) == Some(params->0@),
        params is None ==> msg_params(r@) is None,
{
    let ghost pv = params;
    let mut fields: Vec<(String, JsonValue)> = Vec::new();
    fields.push((String::from_str("jsonrpc"), JsonValue::Str(String::from_str("2.0"))));
    fields.push((String::from_str("id"), JsonValue::Int(id as i64)));
    fields.push((String::from_str("method"), JsonValue::Str(String::from_str(method))));
    match params {
        Some(p) => {
            fields.push((String::from_str("params"), p));
        },
        None => {},
    }
    let r = JsonValue::Obj(fields);
    proof {
        reveal_strlit("jsonrpc");
        reveal_strlit("id");
        reveal_strlit("method");
        reveal_strlit("params");
        assert("jsonrpc"@.len() == 7 && "id"@.len() == 2 && "method"@.len() == 6
            && "params"@.len() == 6);
        assert("method"@[0] != "params"@[0]);
        let s = jfields_of(fields@);
        lemma_jfields_of(fields@);
        assert(s[0].0 == "jsonrpc"@ && s[0].1 == JVal::Str("2.0"@));
        assert(s[1].0 == "id"@ && s[1].1 == JVal::Int(id as int));
        assert(s[2].0 == "method"@ && s[2].1 == JVal::Str(method@));
        assert(s[0].0 != "id"@ && s[0].0 != "method"@ && s[0].0 != "params"@);
        assert(s[1].0 != "method"@ && s[1].0 != "params"@);
        assert(s[2].0 != "params"@);
        lemma_lookup_at(s, "jsonrpc"@, 0);
        lemma_lookup_at(s, "id"@, 1);
        lemma_lookup_at(s, "method"@, 2);
        if pv is Some {
            assert(s.len() == 4);
            assert(s[3].0 == "params"@ && s[3].1 == pv->0@);
            lemma_lookup_at(s, "params"@, 3);
        } else {
            assert(s.len() == 3);
            lemma_lookup_absent(s, "params"@);
        }
    }
    r
}

/// Build a JSON-RPC notification envelope.
pub fn make_notification(method: &str, params: Option<JsonValue>) -> (r: JsonValue)
    ensures
        is_versioned(r@),
        msg_id(r@) is None,
        msg_method(r@) == Some(JVal::Str(method@)),
        params is Some ==> msg_params(r@) == Some(params->0@),
        params is None ==> msg_params(r@) is None,
{
    let ghost pv = params;
    let mut fields: Vec<(String, JsonValue)> = Vec::new();
    fields.push((String::from_str("jsonrpc"), JsonValue::Str(String::from_str("2.0"))));
    fields.push((String::from_str("method"), JsonValue::Str(String::from_str(method))));
    match params {
        Some(p) => {
            fields.push((String::from_str("params"), p));
        },
        None => {},
    }
    let r = JsonValue::Obj(fields);
    proof {
        reveal_strlit("jsonrpc");
        reveal_strlit("id");
        reveal_strlit("method");
        reveal_strlit("params");
        assert("jsonrpc"@.len() == 7 && "id"@.len() == 2 && "method"@.len() == 6
            && "params"@.len() == 6);
        assert("method"@[0] != "params"@[0]);
        let s = jfields_of(fields@);
        lemma_jfields_of(fields@);
        assert(s[0].0 == "jsonrpc"@ && s[0].1 == JVal::Str("2.0"@));
        assert(s[1].0 == "method"@ && s[1].1 == JVal::Str(method@));
        assert(s[0].0 != "id"@ && s[0].0 != "method"@ && s[0].0 != "params"@);
        assert(s[1].0 != "id"@ && s[1].0 != "params"@);
        lemma_lookup_at(s, "jsonrpc"@, 0);
        lemma_lookup_at(s, "method"@, 1);
        if pv is Some {
            assert(s.len() == 3);
            assert(s[2].0 == "params"@ && s[2].1 == pv->0@);
            assert(s[2].0 != "id"@);
            lemma_lookup_absent(s, "id"@);
            lemma_lookup_at(s, "params"@, 2);
        } else {
            assert(s.len() == 2);
            lemma_lookup_absent(s, "id"@);
            lemma_lookup_absent(s, "params"@);
        }
    }
    r
}

} // verus!
