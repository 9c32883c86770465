//! The JSON-RPC client: the request that asks a running wallet daemon to run a
//! command, and the reading of its answer, one step per line read.

use vstd::prelude::*;
use vstd::utf8::encode_utf8;
use crate::codec::{
    base64_encode, base64_encoded, decode_utf8_lossy, json_document, json_error_text, json_parse,
    json_error, json_string_literal, json_stringify, utf8_lossy,
};
use crate::document::{compact, dump, get_member, member, text_of, Json, JsonView};
use crate::http::{content_length_line, content_length_of_line, content_length_value, is_content_length_line};
use crate::number::{decimal_text, push_decimal};
use crate::text::{chars_of, contains, contains_text, push_char, push_range, push_str, trim, trim_bounds};

verus! {

/// The texts of a sequence of strings.
pub open spec fn texts(v: Seq<String>) -> Seq<Seq<char>> {
    v.map_values(|p: String| p@)
}

/// `host:port`, the address the client connects to.
pub open spec fn address_text(host: Seq<char>, port: u16) -> Seq<char> {
    host + seq![':'] + decimal_text(port as nat)
}

/// The address of the RPC server: the bind address, `:` and the port.
pub fn server_address(rpcbind: &str, rpcport: u16) -> (r: String)
    ensures
        r@ == address_text(rpcbind@, rpcport),
{
    let mut r = String::new();
    push_str(&mut r, rpcbind);
    push_char(&mut r, ':');
    push_decimal(&mut r, rpcport as u64);
    r
}

/// The parameters as JSON string literals joined by `,`.
pub open spec fn params_text(params: Seq<Seq<char>>) -> Seq<char>
    decreases params.len(),
{
    if params.len() == 0 {
        seq![]
    } else if params.len() == 1 {
        json_string_literal(params[0])
    } else {
        params_text(params.drop_last()) + seq![','] + json_string_literal(params.last())
    }
}

/// The texts of two runs of parameters, one after the other, are joined by
/// one `,`.
proof fn lemma_params_text_join(ps1: Seq<Seq<char>>, ps2: Seq<Seq<char>>)
    requires
        ps1.len() > 0,
        ps2.len() > 0,
    ensures
        params_text(ps1 + ps2) == params_text(ps1) + seq![','] + params_text(ps2),
    decreases ps2.len(),
{
    let both = ps1 + ps2;
    if ps2.len() == 1 {
        assert(both.drop_last() =~= ps1);
        assert(both.last() == ps2[0]);
    } else {
        assert(both.drop_last() =~= ps1 + ps2.drop_last());
        assert(both.last() == ps2.last());
        lemma_params_text_join(ps1, ps2.drop_last());
        assert(params_text(both) =~= params_text(ps1) + seq![','] + params_text(ps2));
    }
}

/// The params array of a request holds every parameter, in order, each as
/// a JSON string literal: no parameter gives nothing, one gives its literal,
/// and the parameters of two runs one after the other give the texts of the
/// two runs joined by one `,`.
pub proof fn law_params_text(p: Seq<char>, ps1: Seq<Seq<char>>, ps2: Seq<Seq<char>>)
    ensures
        params_text(Seq::empty()) == Seq::<char>::empty(),
        params_text(seq![p]) == json_string_literal(p),
        ps1.len() > 0 && ps2.len() > 0 ==> params_text(ps1 + ps2) == params_text(ps1) + seq![
            ',',
        ] + params_text(ps2),
{
    if ps1.len() > 0 && ps2.len() > 0 {
        lemma_params_text_join(ps1, ps2);
    }
}

/// The JSON-RPC 2.0 request for a command: the method is written as given,
/// each parameter as a JSON string, and the id is `1`.
pub open spec fn request_body_text(command: Seq<char>, params: Seq<Seq<char>>) -> Seq<char> {
    "{\"jsonrpc\":\"2.0\",\"method\":\""@ + command + "\",\"params\":["@ + params_text(params)
        + "],\"id\":1}"@
}

/// The JSON-RPC body that asks for `command` with `params`.
pub fn rpc_request_body(command: &str, params: &Vec<String>) -> (r: String)
    ensures
        r@ == request_body_text(command@, texts(params@)),
{
    let mut r = String::new();
    push_str(&mut r, "{\"jsonrpc\":\"2.0\",\"method\":\"");
    push_str(&mut r, command);
    push_str(&mut r, "\",\"params\":[");
    let ghost head = r@;
    let mut i: usize = 0;
    while i < params.len()
        invariant
            i <= params@.len(),
            r@ == head + params_text(texts(params@).take(i as int)),
        decreases params@.len() - i,
    {
        let ghost before = r@;
        if i > 0 {
            push_char(&mut r, ',');
        }
        let q = json_stringify(params[i].as_str());
        push_str(&mut r, q.as_str());
        proof {
            let t = texts(params@);
            assert(t.take(i + 1).drop_last() =~= t.take(i as int));
            assert(t.take(i + 1).last() == params@[i as int]@);
            if i == 0 {
                assert(t.take(1) =~= seq![params@[0]@]);
            }
            assert(r@ =~= head + params_text(t.take(i + 1)));
        }
        i += 1;
    }
    assert(texts(params@).take(params@.len() as int) =~= texts(params@));
    push_str(&mut r, "],\"id\":1}");
    assert(r@ =~= request_body_text(command@, texts(params@)));
    r
}

/// `user:password`.
pub open spec fn credentials_text(user: Seq<char>, password: Seq<char>) -> Seq<char> {
    user + seq![':'] + password
}

/// The token of HTTP basic authentication: `user:password` in UTF-8, in base64.
pub open spec fn basic_token(user: Seq<char>, password: Seq<char>) -> Seq<char> {
    base64_encoded(encode_utf8(credentials_text(user, password)))
}

/// The token of HTTP basic authentication for a user and password.
pub fn basic_auth_token(user: &str, password: &str) -> (r: String)
    ensures
        r@ == basic_token(user@, password@),
{
    let mut creds = String::new();
    push_str(&mut creds, user);
    push_char(&mut creds, ':');
    push_str(&mut creds, password);
    assert(creds@ =~= credentials_text(user@, password@));
    let bytes = creds.as_str().as_bytes();
    base64_encode(bytes)
}

/// The HTTP POST request that carries a JSON-RPC body to `addr`, with basic
/// authentication and the body's length in UTF-8 bytes.
pub open spec fn http_request_text(addr: Seq<char>, token: Seq<char>, body: Seq<char>) -> Seq<char> {
    "POST / HTTP/1.1\r\nHost: "@ + addr + "\r\nAuthorization: Basic "@ + token
        + "\r\nContent-Type: application/json\r\nContent-Length: "@ + decimal_text(
        encode_utf8(body).len(),
    ) + "\r\nConnection: close\r\n\r\n"@ + body
}

/// The HTTP request that carries `body` to `addr` with the basic token `token`.
pub fn http_request(addr: &str, token: &str, body: &str) -> (r: String)
    ensures
        r@ == http_request_text(addr@, token@, body@),
{
    let mut r = String::new();
    push_str(&mut r, "POST / HTTP/1.1\r\nHost: ");
    push_str(&mut r, addr);
    push_str(&mut r, "\r\nAuthorization: Basic ");
    push_str(&mut r, token);
    push_str(&mut r, "\r\nContent-Type: application/json\r\nContent-Length: ");
    let n = body.as_bytes().len();
    assert(n as nat == encode_utf8(body@).len());
    push_decimal(&mut r, n as u64);
    push_str(&mut r, "\r\nConnection: close\r\n\r\n");
    push_str(&mut r, body);
    assert(r@ =~= http_request_text(addr@, token@, body@));
    r
}

/// The whole request that asks the daemon at `addr` to run `command`.
pub open spec fn rpc_request_text(
    addr: Seq<char>,
    user: Seq<char>,
    password: Seq<char>,
    command: Seq<char>,
    params: Seq<Seq<char>>,
) -> Seq<char> {
    http_request_text(addr, basic_token(user, password), request_body_text(command, params))
}

/// The request that asks the daemon at `addr` to run `command` with `params`,
/// authenticated as `user`.
pub fn rpc_request(
    addr: &str,
    user: &str,
    password: &str,
    command: &str,
    params: &Vec<String>,
) -> (r: String)
    ensures
        r@ == rpc_request_text(addr@, user@, password@, command@, texts(params@)),
{
    let body = rpc_request_body(command, params);
    let token = basic_auth_token(user, password);
    http_request(addr, token.as_str(), body.as_str())
}

/// The error for a status line without `200`.
pub open spec fn status_error_text(line: Seq<char>) -> Seq<char> {
    "Server returned: "@ + trim(line)
}

/// Checks the status line of the answer: it must hold `200`.
pub fn check_status_line(line: &str) -> (r: Result<(), String>)
    ensures
        r is Ok <==> contains_text(line@, "200"@),
        r matches Err(m) ==> m@ == status_error_text(line@),
{
    if contains(line, "200") {
        Ok(())
    } else {
        let cs = chars_of(line);
        let (a, b) = trim_bounds(&cs, 0, cs.len());
        assert(cs@.subrange(0, cs@.len() as int) =~= line@);
        let mut m = String::new();
        push_str(&mut m, "Server returned: ");
        push_range(&mut m, &cs, a, b);
        Err(m)
    }
}

/// One header line of the answer read with the body length known so far:
/// `None` at the blank line that ends the headers, else the body length
/// after this line.
pub open spec fn answer_header_step(line: Seq<char>, length: nat) -> Option<nat> {
    let t = trim(line);
    if t.len() == 0 {
        None
    } else if is_content_length_line(t) {
        Some(content_length_of_line(t))
    } else {
        Some(length)
    }
}

/// Reads one header line of the answer, as [`answer_header_step`] states.
pub fn answer_header(line: &str, length: usize) -> (r: Option<usize>)
    ensures
        r matches Some(n) ==> answer_header_step(line@, length as nat) == Some(n as nat),
        r is None ==> answer_header_step(line@, length as nat) is None,
{
    let cs = chars_of(line);
    let (a, b) = trim_bounds(&cs, 0, cs.len());
    assert(cs@.subrange(0, cs@.len() as int) =~= line@);
    if a == b {
        None
    } else if content_length_line(&cs, a, b) {
        Some(content_length_value(&cs, a, b))
    } else {
        Some(length)
    }
}

/// What the answer's JSON gives: the error member when it is not null, else
/// the result member, as its text when it is a string and as compact JSON
/// otherwise.
pub open spec fn reply_outcome_of(
    error: Option<Seq<char>>,
    result_text: Option<Seq<char>>,
    result_json: Seq<char>,
) -> Result<Seq<char>, Seq<char>> {
    match error {
        Some(e) => Err("RPC error: "@ + e),
        None => match result_text {
            Some(t) => Ok(t),
            None => Ok(result_json),
        },
    }
}

/// Decides the outcome of a call from the members of the answer: `error`
/// is the compact JSON of a non-null error member, `result_text` the text
/// of a string result, `result_json` the compact JSON of the result.
pub fn reply_outcome(error: Option<String>, result_text: Option<String>, result_json: String) -> (r:
    Result<String, String>)
    ensures
        r matches Ok(t) ==> reply_outcome_of(
            crate::config::opt_text(error),
            crate::config::opt_text(result_text),
            result_json@,
        ) == Ok::<Seq<char>, Seq<char>>(t@),
        r matches Err(m) ==> reply_outcome_of(
            crate::config::opt_text(error),
            crate::config::opt_text(result_text),
            result_json@,
        ) == Err::<Seq<char>, Seq<char>>(m@),
{
    match error {
        Some(e) => {
            let mut m = String::new();
            push_str(&mut m, "RPC error: ");
            push_str(&mut m, e.as_str());
            Err(m)
        },
        None => match result_text {
            Some(t) => Ok(t),
            None => Ok(result_json),
        },
    }
}

/// The error member of an answer, as compact JSON, unless it is null.
pub open spec fn reply_error(doc: JsonView) -> Option<Seq<char>> {
    let e = member(doc, "error"@);
    if e == JsonView::Null {
        None
    } else {
        Some(compact(e))
    }
}

/// The outcome that an answer's JSON document gives.
pub open spec fn reply_of_document(doc: JsonView) -> Result<Seq<char>, Seq<char>> {
    reply_outcome_of(
        reply_error(doc),
        text_of(member(doc, "result"@)),
        compact(member(doc, "result"@)),
    )
}

/// The outcome that an answer's JSON document gives, as
/// [`reply_of_document`] states.
pub fn reply_of(doc: &Json) -> (r: Result<String, String>)
    ensures
        r matches Ok(t) ==> reply_of_document(doc@) == Ok::<Seq<char>, Seq<char>>(t@),
        r matches Err(m) ==> reply_of_document(doc@) == Err::<Seq<char>, Seq<char>>(m@),
{
    let error = match get_member(doc, "error") {
        Some(e) => match e {
            Json::Null => None,
            _ => Some(dump(e)),
        },
        None => None,
    };
    let (result_text, result_json) = match get_member(doc, "result") {
        Some(x) => match x {
            Json::Text(t) => (Some(t.clone()), dump(x)),
            _ => (None, dump(x)),
        },
        None => (None, "null".to_owned()),
    };
    reply_outcome(error, result_text, result_json)
}

/// The error for an answer that is not JSON.
pub open spec fn unreadable_reply_text(text: Seq<char>) -> Seq<char> {
    "Failed to parse response JSON: "@ + json_error_text(json_error(text))
}

/// Reads the body of the answer: decoded as UTF-8 with replacement, then
/// read as JSON. When the text is not JSON the error names the syntax error
/// that the `json` crate reports; otherwise the outcome is what
/// [`reply_of_document`] gives for the document.
pub fn read_reply(body: &[u8]) -> (r: Result<String, String>)
    ensures
        match json_document(utf8_lossy(body@)) {
            None => r matches Err(m) && m@ == unreadable_reply_text(utf8_lossy(body@)),
            Some(doc) => (r matches Ok(t) ==> reply_of_document(doc) == Ok::<Seq<char>, Seq<char>>(
                t@,
            )) && (r matches Err(m) ==> reply_of_document(doc) == Err::<Seq<char>, Seq<char>>(
                m@,
            )),
        },
{
    let text = decode_utf8_lossy(body);
    match json_parse(text.as_str()) {
        Err(e) => {
            let mut m = String::new();
            push_str(&mut m, "Failed to parse response JSON: ");
            let t = e.message();
            push_str(&mut m, t.as_str());
            Err(m)
        },
        Ok(doc) => reply_of(&doc),
    }
}

} // verus!
