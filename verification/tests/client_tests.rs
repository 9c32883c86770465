use zecwallet_cli::client::reply_of;
use zecwallet_cli::document::Json;
use zecwallet_cli::client::{
    answer_header, basic_auth_token, check_status_line, http_request, read_reply, reply_outcome,
    rpc_request, rpc_request_body, server_address,
};

#[test]
fn address_joins_host_and_port() {
    assert_eq!(server_address("127.0.0.1", 9068), "127.0.0.1:9068");
    assert_eq!(server_address("localhost", 0), "localhost:0");
}

#[test]
fn request_body_without_params() {
    assert_eq!(
        rpc_request_body("balance", &vec![]),
        r#"{"jsonrpc":"2.0","method":"balance","params":[],"id":1}"#
    );
}

#[test]
fn request_body_escapes_params_only() {
    let params = vec!["zs1abc".to_string(), "a\"b\\c\n\u{1}é".to_string()];
    assert_eq!(
        rpc_request_body("send", &params),
        "{\"jsonrpc\":\"2.0\",\"method\":\"send\",\"params\":[\"zs1abc\",\"a\\\"b\\\\c\\n\\u0001é\"],\"id\":1}"
    );
    assert_eq!(
        rpc_request_body("a\"b", &vec![]),
        "{\"jsonrpc\":\"2.0\",\"method\":\"a\"b\",\"params\":[],\"id\":1}"
    );
}

#[test]
fn basic_token_is_base64_of_user_colon_password() {
    assert_eq!(basic_auth_token("user", "pass"), "dXNlcjpwYXNz");
    assert_eq!(basic_auth_token("", ""), "Og==");
    assert_eq!(basic_auth_token("a", ""), "YTo=");
    assert_eq!(basic_auth_token("é", "x"), "w6k6eA==");
}

#[test]
fn http_request_counts_body_bytes() {
    let r = http_request("h:1", "TOK", "é{}");
    assert_eq!(
        r,
        "POST / HTTP/1.1\r\nHost: h:1\r\nAuthorization: Basic TOK\r\nContent-Type: application/json\r\nContent-Length: 4\r\nConnection: close\r\n\r\né{}"
    );
}

#[test]
fn whole_request() {
    let r = rpc_request("127.0.0.1:9068", "user", "pass", "info", &vec![]);
    let body = r#"{"jsonrpc":"2.0","method":"info","params":[],"id":1}"#;
    let expected = format!(
        "POST / HTTP/1.1\r\nHost: 127.0.0.1:9068\r\nAuthorization: Basic dXNlcjpwYXNz\r\nContent-Type: application/json\r\nContent-Length: {}\r\nConnection: close\r\n\r\n{}",
        body.len(),
        body
    );
    assert_eq!(r, expected);
}

#[test]
fn status_line_needs_200() {
    assert!(check_status_line("HTTP/1.1 200 OK\r\n").is_ok());
    assert!(check_status_line("x2000").is_ok());
    assert_eq!(
        check_status_line("HTTP/1.1 401 Unauthorized\r\n"),
        Err("Server returned: HTTP/1.1 401 Unauthorized".to_string())
    );
    assert_eq!(check_status_line(""), Err("Server returned: ".to_string()));
}

#[test]
fn answer_headers() {
    assert_eq!(answer_header("\r\n", 5), None);
    assert_eq!(answer_header("", 5), None);
    assert_eq!(answer_header("Content-Length: 42\r\n", 5), Some(42));
    assert_eq!(answer_header("CONTENT-LENGTH: 7", 0), Some(7));
    assert_eq!(answer_header("content-length: nope\r\n", 5), Some(0));
    assert_eq!(answer_header("Content-Type: application/json\r\n", 5), Some(5));
    assert_eq!(answer_header("Content-Length:42\r\n", 5), Some(5));
}

#[test]
fn reply_outcomes() {
    assert_eq!(reply_outcome(Some("{\"code\":1}".to_string()), None, "null".to_string()), Err("RPC error: {\"code\":1}".to_string()));
    assert_eq!(reply_outcome(None, Some("ok".to_string()), String::new()), Ok("ok".to_string()));
    assert_eq!(reply_outcome(None, None, "[1,2]".to_string()), Ok("[1,2]".to_string()));
}

#[test]
fn replies_read_from_json() {
    assert_eq!(read_reply(br#"{"result":"done","id":1}"#), Ok("done".to_string()));
    assert_eq!(read_reply(br#"{"result":{"a":1},"error":null}"#), Ok("{\"a\":1}".to_string()));
    assert_eq!(read_reply(br#"{"result":null}"#), Ok("null".to_string()));
    assert_eq!(
        read_reply(br#"{"result":1,"error":{"message":"bad"}}"#),
        Err("RPC error: {\"message\":\"bad\"}".to_string())
    );
    assert_eq!(read_reply(b""), Err("Failed to parse response JSON: Unexpected end of JSON".to_string()));
    assert_eq!(
        read_reply(b"{x"),
        Err("Failed to parse response JSON: Unexpected character: x at (1:2)".to_string())
    );
}

#[test]
fn reply_of_documents() {
    let ok = Json::Object(vec![("result".to_string(), Json::Text("done".to_string()))]);
    assert_eq!(reply_of(&ok), Ok("done".to_string()));
    let err = Json::Object(vec![
        ("result".to_string(), Json::Null),
        ("error".to_string(), Json::Object(vec![("code".to_string(), Json::Number("-1".to_string()))])),
    ]);
    assert_eq!(reply_of(&err), Err("RPC error: {\"code\":-1}".to_string()));
    assert_eq!(reply_of(&Json::Null), Ok("null".to_string()));
}

#[test]
fn unreadable_reply_names_the_error() {
    assert_eq!(read_reply(b"[1,"), Err("Failed to parse response JSON: Unexpected end of JSON".to_string()));
    assert_eq!(
        read_reply(b"nope"),
        Err(format!("Failed to parse response JSON: {}", json::parse("nope").unwrap_err()))
    );
}
