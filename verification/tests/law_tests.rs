use zecwallet_cli::client::{answer_header, check_status_line, rpc_request};
use zecwallet_cli::config::parse_config;
use zecwallet_cli::server::{
    admission, bad_request, expected_authorization, ok_response, Admission, RequestHeaders,
};

/// Feeds the header lines of an HTTP message to the server's reader.
fn server_reads(request: &str) -> RequestHeaders {
    let mut h = RequestHeaders::new();
    for line in request.split_inclusive('\n').skip(1) {
        if h.read_line(line) {
            break;
        }
    }
    h
}

#[test]
fn client_request_is_admitted_by_server() {
    let params = vec!["é".to_string()];
    let req = rpc_request("127.0.0.1:9068", "alice", "pw", "send", &params);
    let h = server_reads(&req);
    let expected = expected_authorization("alice", "pw");
    let body_len = req.split("\r\n\r\n").nth(1).unwrap().len();
    assert!(matches!(admission(&h, &expected), Admission::ReadBody(n) if n == body_len));
    let other = expected_authorization("alice", "other");
    assert!(matches!(admission(&h, &other), Admission::Refuse(_)));
}

#[test]
fn server_answer_is_read_by_client() {
    let answer = ok_response("{\"result\":\"é\"}");
    let mut lines = answer.split_inclusive('\n');
    assert!(check_status_line(lines.next().unwrap()).is_ok());
    let mut len = 0;
    for line in lines {
        match answer_header(line, len) {
            Some(n) => len = n,
            None => break,
        }
    }
    assert_eq!(len, "{\"result\":\"é\"}".len());
}

#[test]
fn refusals_are_rejected_by_client() {
    assert!(check_status_line(bad_request().split_inclusive('\n').next().unwrap()).is_err());
}

#[test]
fn appended_line_decides_setting() {
    let base = "rpcport=1000\nrpcbind=a";
    assert_eq!(parse_config(&format!("{}\nrpcport=2000", base)).rpcport, 2000);
    assert_eq!(parse_config(&format!("{}\n# rpcport=3000", base)).rpcport, 1000);
    assert_eq!(parse_config(&format!("{}\n   ", base)).rpcbind, "a");
}

#[test]
fn other_credentials_are_refused_end_to_end() {
    let req = rpc_request("127.0.0.1:9068", "mallory", "pw", "send", &vec![]);
    let h = server_reads(&req);
    let expected = expected_authorization("alice", "pw");
    match admission(&h, &expected) {
        Admission::Refuse(answer) => {
            let status = answer.split_inclusive('\n').next().unwrap();
            assert_eq!(
                check_status_line(status),
                Err("Server returned: HTTP/1.1 401 Unauthorized".to_string())
            );
        }
        Admission::ReadBody(_) => panic!("admitted with other credentials"),
    }
}

#[test]
fn header_names_are_read_in_any_case() {
    let mut a = RequestHeaders::new();
    let mut b = RequestHeaders::new();
    assert!(!a.read_line("AUTHORIZATION: Basic x\r\n"));
    assert!(!b.read_line("authorization: Basic x\r\n"));
    assert!(!a.read_line("CoNtEnT-LeNgTh: 9\r\n"));
    assert!(!b.read_line("content-length: 9\r\n"));
    assert_eq!(a.authorization, b.authorization);
    assert_eq!(a.content_length, b.content_length);
    assert_eq!(answer_header("CONTENT-LENGTH: 3", 0), answer_header("content-length: 3", 0));
}

#[test]
fn neutral_lines_anywhere_change_nothing() {
    let plain = parse_config("rpcport=1\nrpcbind=b");
    let mixed = parse_config("# c\nrpcport=1\nunknown=5\nno equals sign\n\nrpcbind=b");
    assert_eq!(plain.rpcport, mixed.rpcport);
    assert_eq!(plain.rpcbind, mixed.rpcbind);
    assert_eq!(plain.server, mixed.server);
    assert_eq!(plain.sync_interval, mixed.sync_interval);
}

#[test]
fn client_call_read_by_server() {
    let params = vec!["zs1\"x".to_string(), "é\n".to_string()];
    let req = rpc_request("h:1", "u", "p", "send", &params);
    let body = req.split("\r\n\r\n").nth(1).unwrap();
    let call = zecwallet_cli::server::read_call(body.as_bytes()).unwrap();
    assert_eq!(call.method, "send");
    assert_eq!(call.params, params);
    assert_eq!(call.id, "1");
}

#[test]
fn header_names_in_any_case_with_line_endings() {
    let mut a = RequestHeaders::new();
    let mut b = RequestHeaders::new();
    assert!(!a.read_line("  AUTHORIZATION: Basic Zm9v \r\n"));
    assert!(!b.read_line("  Authorization: Basic Zm9v \r\n"));
    assert_eq!(a.authorization, b.authorization);
    assert_eq!(a.authorization.as_deref(), Some("Basic Zm9v"));
}

#[test]
fn setting_line_value_is_trimmed() {
    assert_eq!(parse_config("rpcbind=x\nrpcbind=  10.0.0.1 \t").rpcbind, "10.0.0.1");
}

#[test]
fn several_neutral_lines_at_the_end() {
    let a = parse_config("rpcport=7");
    let b = parse_config("rpcport=7\n# one\n\nfoo=1\nbar");
    assert_eq!(a.rpcport, b.rpcport);
    assert_eq!(a.rpcbind, b.rpcbind);
}
