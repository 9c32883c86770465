//! The JSON-RPC server's decisions: which requests are admitted, how their
//! headers and bodies are read, and how each answer is framed.

use vstd::prelude::*;
use vstd::utf8::encode_utf8;
use crate::client::{basic_auth_token, basic_token};
use crate::client::texts;
use crate::codec::{
    decode_utf8_lossy, json_document, json_parse, json_string_literal, json_stringify, utf8_lossy,
};
use crate::document::{
    compact, dump, elements, get_member, member, text_of, text_or_compact, Json, JsonView,
};
use crate::config::opt_text;
use crate::http::{
    authorization_line, authorization_of_line, content_length_line, content_length_of_line,
    content_length_value, is_authorization_line, is_content_length_line,
};
use crate::number::{decimal_text, push_decimal};
use crate::text::{chars_of, push_str, str_eq, string_of_range, trim, trim_bounds};

verus! {

/// The `Authorization` value the server accepts: `Basic ` and the token of
/// its user and password.
pub open spec fn expected_authorization_text(user: Seq<char>, password: Seq<char>) -> Seq<char> {
    "Basic "@ + basic_token(user, password)
}

/// The `Authorization` value the server accepts for a user and password.
pub fn expected_authorization(user: &str, password: &str) -> (r: String)
    ensures
        r@ == expected_authorization_text(user@, password@),
{
    let token = basic_auth_token(user, password);
    let mut r = String::new();
    push_str(&mut r, "Basic ");
    push_str(&mut r, token.as_str());
    r
}

/// The headers of a request that the server reads.
pub struct RequestHeaders {
    /// The value of the last `Authorization` header.
    pub authorization: Option<String>,
    /// The value of the last `Content-Length` header; `0` if none or not a number.
    pub content_length: usize,
}

/// The headers read so far after one more line, or `None` at the blank line
/// that ends them.
pub open spec fn request_header_step(
    authorization: Option<Seq<char>>,
    length: nat,
    line: Seq<char>,
) -> Option<(Option<Seq<char>>, nat)> {
    let t = trim(line);
    if t.len() == 0 {
        None
    } else if is_authorization_line(t) {
        Some((Some(authorization_of_line(t)), length))
    } else if is_content_length_line(t) {
        Some((authorization, content_length_of_line(t)))
    } else {
        Some((authorization, length))
    }
}

impl RequestHeaders {
    /// No headers read yet.
    pub fn new() -> (r: Self)
        ensures
            r.authorization is None,
            r.content_length == 0,
    {
        RequestHeaders { authorization: None, content_length: 0 }
    }

    /// Reads one header line; returns `true` at the blank line that ends the
    /// headers, which leaves them unchanged.
    pub fn read_line(&mut self, line: &str) -> (done: bool)
        ensures
            done <==> request_header_step(
                opt_text(old(self).authorization),
                old(self).content_length as nat,
                line@,
            ) is None,
            done ==> *final(self) == *old(self),
            !done ==> request_header_step(
                opt_text(old(self).authorization),
                old(self).content_length as nat,
                line@,
            ) == Some((opt_text(final(self).authorization), final(self).content_length as nat)),
    {
        let cs = chars_of(line);
        let (a, b) = trim_bounds(&cs, 0, cs.len());
        assert(cs@.subrange(0, cs@.len() as int) =~= line@);
        if a == b {
            return true;
        }
        if authorization_line(&cs, a, b) {
            let n = "authorization: ".unicode_len();
            assert(cs@.subrange(a as int, b as int).skip(n as int) =~= cs@.subrange(
                a + n,
                b as int,
            ));
            self.authorization = Some(string_of_range(&cs, a + n, b));
        } else if content_length_line(&cs, a, b) {
            self.content_length = content_length_value(&cs, a, b);
        }
        false
    }
}

/// The answer to a request without the expected credentials.
pub open spec fn unauthorized_text() -> Seq<char> {
    "HTTP/1.1 401 Unauthorized\r\nWWW-Authenticate: Basic realm=\"zecwallet\"\r\nContent-Length: 0\r\n\r\n"@
}

/// The answer to a request whose body is not JSON.
pub open spec fn bad_request_text() -> Seq<char> {
    "HTTP/1.1 400 Bad Request\r\nContent-Length: 0\r\n\r\n"@
}

/// What the server does once the headers are read.
pub enum Admission {
    /// Answer with this text and close.
    Refuse(String),
    /// Read a body of this many bytes.
    ReadBody(usize),
}

/// Admits a request exactly when its `Authorization` header equals the
/// expected value; a refused request is answered `401 Unauthorized`.
pub fn admission(headers: &RequestHeaders, expected: &str) -> (r: Admission)
    ensures
        r matches Admission::Refuse(t) ==> t@ == unauthorized_text(),
        r is ReadBody <==> opt_text(headers.authorization) == Some(expected@),
        r matches Admission::ReadBody(n) ==> n == headers.content_length,
{
    let ok = match &headers.authorization {
        Some(h) => str_eq(h.as_str(), expected),
        None => false,
    };
    if ok {
        Admission::ReadBody(headers.content_length)
    } else {
        let mut t = String::new();
        push_str(
            &mut t,
            "HTTP/1.1 401 Unauthorized\r\nWWW-Authenticate: Basic realm=\"zecwallet\"\r\nContent-Length: 0\r\n\r\n",
        );
        Admission::Refuse(t)
    }
}

/// The answer to a request whose body is not JSON.
pub fn bad_request() -> (r: String)
    ensures
        r@ == bad_request_text(),
{
    let mut t = String::new();
    push_str(&mut t, "HTTP/1.1 400 Bad Request\r\nContent-Length: 0\r\n\r\n");
    t
}

/// A call read from a request body.
pub struct RpcCall {
    /// The compact JSON of the request's `id`.
    pub id: String,
    /// The method's name; empty when it is not a string.
    pub method: String,
    /// Each parameter: its text when it is a string, its compact JSON otherwise.
    pub params: Vec<String>,
}

/// The `id` of a call: the compact JSON of the `id` member.
pub open spec fn call_id(doc: JsonView) -> Seq<char> {
    compact(member(doc, "id"@))
}

/// The method of a call: the `method` member when it is a string, else empty.
pub open spec fn call_method(doc: JsonView) -> Seq<char> {
    match text_of(member(doc, "method"@)) {
        Some(t) => t,
        None => Seq::empty(),
    }
}

/// The parameters of a call: the elements of the `params` member, in order,
/// each as its text when it is a string and as compact JSON otherwise; none
/// when the member is not an array.
pub open spec fn call_params(doc: JsonView) -> Seq<Seq<char>> {
    elements(member(doc, "params"@)).map_values(|p: JsonView| text_or_compact(p))
}

/// How a parameter is passed on: a string's text as it is, any other value
/// as its compact JSON.
fn text_or_json(j: &Json) -> (r: String)
    ensures
        r@ == text_or_compact(j@),
{
    match j {
        Json::Text(t) => t.clone(),
        _ => dump(j),
    }
}

/// The call that a request's JSON document holds: the id, method and
/// parameters that [`call_id`], [`call_method`] and [`call_params`] give.
pub fn call_of(doc: &Json) -> (c: RpcCall)
    ensures
        c.id@ == call_id(doc@),
        c.method@ == call_method(doc@),
        texts(c.params@) == call_params(doc@),
{
    let id = match get_member(doc, "id") {
        Some(x) => dump(x),
        None => "null".to_owned(),
    };
    let method = match get_member(doc, "method") {
        Some(x) => match x {
            Json::Text(t) => t.clone(),
            _ => String::new(),
        },
        None => String::new(),
    };
    let mut params: Vec<String> = Vec::new();
    let ghost ps = elements(member(doc@, "params"@));
    match get_member(doc, "params") {
        Some(x) => match x {
            Json::Array(items) => {
                let mut i: usize = 0;
                while i < items.len()
                    invariant
                        *x == Json::Array(*items),
                        ps == x@->Array_0,
                        i <= items@.len(),
                        params@.len() == i,
                        forall|k: int|
                            0 <= k < i ==> (#[trigger] params@[k])@ == text_or_compact(ps[k]),
                    decreases items@.len() - i,
                {
                    params.push(text_or_json(&items[i]));
                    i += 1;
                }
            },
            _ => {},
        },
        None => {},
    }
    assert(texts(params@) =~= call_params(doc@));
    RpcCall { id, method, params }
}

/// Reads the call in a request body, decoded as UTF-8 with replacement:
/// `None` exactly when that text is not JSON, else what [`call_of`] gives
/// for its document.
pub fn read_call(body: &[u8]) -> (r: Option<RpcCall>)
    ensures
        match json_document(utf8_lossy(body@)) {
            None => r is None,
            Some(doc) => r matches Some(c) && c.id@ == call_id(doc) && c.method@ == call_method(doc)
                && texts(c.params@) == call_params(doc),
        },
{
    let text = decode_utf8_lossy(body);
    match json_parse(text.as_str()) {
        Err(_) => None,
        Ok(doc) => Some(call_of(&doc)),
    }
}

/// The JSON that stands for a command's result: the result written
/// compactly when it is JSON, else the result as a JSON string.
pub open spec fn result_json_text(result: Seq<char>) -> Seq<char> {
    match json_document(result) {
        Some(doc) => compact(doc),
        None => json_string_literal(result),
    }
}

/// The JSON that stands for a result given the document it holds, if any:
/// that document written compactly, else the result as a JSON string.
pub fn inline_result(doc: Option<&Json>, result: &str) -> (r: String)
    ensures
        r@ == match doc {
            Some(d) => compact(d@),
            None => json_string_literal(result@),
        },
{
    match doc {
        Some(d) => dump(d),
        None => json_stringify(result),
    }
}

/// The JSON that stands for a command's result, as [`result_json_text`] states.
pub fn result_as_json(result: &str) -> (r: String)
    ensures
        r@ == result_json_text(result@),
{
    match json_parse(result) {
        Ok(doc) => inline_result(Some(&doc), result),
        Err(_) => inline_result(None, result),
    }
}

/// The JSON-RPC 2.0 answer body for a result and a request id.
pub open spec fn response_body_text(result_json: Seq<char>, id: Seq<char>) -> Seq<char> {
    "{\"jsonrpc\":\"2.0\",\"result\":"@ + result_json + ",\"id\":"@ + id + "}"@
}

/// The JSON-RPC answer body for a result, given as JSON, and a request id.
pub fn response_body(result_json: &str, id: &str) -> (r: String)
    ensures
        r@ == response_body_text(result_json@, id@),
{
    let mut r = String::new();
    push_str(&mut r, "{\"jsonrpc\":\"2.0\",\"result\":");
    push_str(&mut r, result_json);
    push_str(&mut r, ",\"id\":");
    push_str(&mut r, id);
    push_str(&mut r, "}");
    assert(r@ =~= response_body_text(result_json@, id@));
    r
}

/// A `200 OK` answer carrying a JSON body, with its length in UTF-8 bytes.
pub open spec fn ok_response_text(body: Seq<char>) -> Seq<char> {
    "HTTP/1.1 200 OK\r\nContent-Type: application/json\r\nContent-Length: "@ + decimal_text(
        encode_utf8(body).len(),
    ) + "\r\n\r\n"@ + body
}

/// The `200 OK` answer carrying `body`.
pub fn ok_response(body: &str) -> (r: String)
    ensures
        r@ == ok_response_text(body@),
{
    let mut r = String::new();
    push_str(&mut r, "HTTP/1.1 200 OK\r\nContent-Type: application/json\r\nContent-Length: ");
    let n = body.as_bytes().len();
    push_decimal(&mut r, n as u64);
    push_str(&mut r, "\r\n\r\n");
    push_str(&mut r, body);
    assert(r@ =~= ok_response_text(body@));
    r
}

/// The whole answer to a call with id `id` whose command gave `result`.
pub fn rpc_response(result: &str, id: &str) -> (r: String)
    ensures
        r@ == ok_response_text(response_body_text(result_json_text(result@), id@)),
{
    let j = result_as_json(result);
    let body = response_body(j.as_str(), id);
    ok_response(body.as_str())
}

} // verus!
