use zecwallet_cli::document::Json;
use zecwallet_cli::config::config_path_components;
use zecwallet_cli::server::{
    admission, bad_request, expected_authorization, ok_response, read_call, response_body,
    result_as_json, rpc_response, Admission, RequestHeaders,
};

#[test]
fn expected_authorization_value() {
    assert_eq!(expected_authorization("user", "pass"), "Basic dXNlcjpwYXNz");
}

#[test]
fn request_headers_are_read() {
    let mut h = RequestHeaders::new();
    assert!(!h.read_line("Host: x\r\n"));
    assert!(!h.read_line("authorization: Basic abc \r\n"));
    assert!(!h.read_line("Content-length: 12\r\n"));
    assert_eq!(h.authorization.as_deref(), Some("Basic abc"));
    assert_eq!(h.content_length, 12);
    assert!(!h.read_line("Content-Length: x\r\n"));
    assert_eq!(h.content_length, 0);
    assert!(h.read_line("\r\n"));
    assert_eq!(h.authorization.as_deref(), Some("Basic abc"));
}

#[test]
fn refused_without_matching_credentials() {
    let expected = expected_authorization("u", "p");
    let h = RequestHeaders::new();
    match admission(&h, &expected) {
        Admission::Refuse(t) => assert_eq!(
            t,
            "HTTP/1.1 401 Unauthorized\r\nWWW-Authenticate: Basic realm=\"zecwallet\"\r\nContent-Length: 0\r\n\r\n"
        ),
        Admission::ReadBody(_) => panic!("admitted without credentials"),
    }
    let h = RequestHeaders { authorization: Some("Basic wrong".to_string()), content_length: 3 };
    assert!(matches!(admission(&h, &expected), Admission::Refuse(_)));
}

#[test]
fn admitted_with_matching_credentials() {
    let expected = expected_authorization("u", "p");
    let h = RequestHeaders { authorization: Some(expected.clone()), content_length: 17 };
    assert!(matches!(admission(&h, &expected), Admission::ReadBody(17)));
}

#[test]
fn bad_request_answer() {
    assert_eq!(bad_request(), "HTTP/1.1 400 Bad Request\r\nContent-Length: 0\r\n\r\n");
}

#[test]
fn calls_are_read() {
    let c = read_call(br#"{"jsonrpc":"2.0","method":"send","params":["zs1",5,{"a":true}],"id":7}"#)
        .unwrap();
    assert_eq!(c.id, "7");
    assert_eq!(c.method, "send");
    assert_eq!(c.params, vec!["zs1".to_string(), "5".to_string(), "{\"a\":true}".to_string()]);
    let c = read_call(br#"{"method":3}"#).unwrap();
    assert_eq!(c.id, "null");
    assert_eq!(c.method, "");
    assert!(c.params.is_empty());
    assert!(read_call(b"not json").is_none());
}

#[test]
fn results_become_json() {
    assert_eq!(result_as_json("{ \"a\" : 1 }"), "{\"a\":1}");
    assert_eq!(result_as_json("plain text"), "\"plain text\"");
    assert_eq!(result_as_json("line\nbreak"), "\"line\\nbreak\"");
}

#[test]
fn answers_are_framed() {
    assert_eq!(response_body("\"x\"", "1"), "{\"jsonrpc\":\"2.0\",\"result\":\"x\",\"id\":1}");
    assert_eq!(
        ok_response("é"),
        "HTTP/1.1 200 OK\r\nContent-Type: application/json\r\nContent-Length: 2\r\n\r\né"
    );
    let body = "{\"jsonrpc\":\"2.0\",\"result\":\"ok\",\"id\":3}";
    assert_eq!(
        rpc_response("ok", "3"),
        format!("HTTP/1.1 200 OK\r\nContent-Type: application/json\r\nContent-Length: {}\r\n\r\n{}", body.len(), body)
    );
}

#[test]
fn compact_json_agrees_with_json_crate() {
    let samples = [
        "{ \"a\" : [1, 2.50, -3e5, true, false, null], \"b\": {\"c\": \"d\\u0001\\n\\\"\"} }",
        "[]",
        "{}",
        "  \"tab\\there\"  ",
        "12345678901234567890",
        "{\"k\":1,\"k\":2}",
        "[\"é\", {\"x\": []}]",
    ];
    for s in samples.iter() {
        let expected = json::parse(s).unwrap().dump();
        assert_eq!(result_as_json(s), expected);
    }
}

#[test]
fn config_path_components_fall_back_to_dot() {
    assert_eq!(config_path_components(None), vec![".".to_string(), ".zcash".to_string(), "zecwallet.conf".to_string()]);
    assert_eq!(config_path_components(Some("/home/a".to_string()))[0], "/home/a");
}

#[test]
fn call_of_a_document() {
    let doc = Json::Object(vec![
        ("id".to_string(), Json::Number("7".to_string())),
        ("method".to_string(), Json::Text("send".to_string())),
        (
            "params".to_string(),
            Json::Array(vec![
                Json::Text("abc".to_string()),
                Json::Number("5".to_string()),
                Json::Object(vec![("k".to_string(), Json::Null)]),
            ]),
        ),
    ]);
    let c = zecwallet_cli::server::call_of(&doc);
    assert_eq!(c.id, "7");
    assert_eq!(c.method, "send");
    assert_eq!(c.params, vec!["abc".to_string(), "5".to_string(), "{\"k\":null}".to_string()]);
    let c = zecwallet_cli::server::call_of(&Json::Array(vec![]));
    assert_eq!(c.id, "null");
    assert_eq!(c.method, "");
    assert!(c.params.is_empty());
}

#[test]
fn inline_results() {
    let doc = Json::Array(vec![Json::Boolean(true), Json::Text("q\"".to_string())]);
    assert_eq!(zecwallet_cli::server::inline_result(Some(&doc), "ignored"), "[true,\"q\\\"\"]");
    assert_eq!(zecwallet_cli::server::inline_result(None, "a\tb"), "\"a\\tb\"");
}
