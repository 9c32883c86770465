use zecwallet_cli::config::{parse_config, WalletConfig};
use zecwallet_cli::launch::{
    bad_birthday_message, missing_birthday_lines, plan_launch, Invocation, Launch,
};
use zecwallet_cli::number::IntErrorKind;

fn invocation() -> Invocation {
    Invocation {
        command: None,
        params: vec![],
        server: None,
        data_dir: None,
        seed: None,
        birthday: None,
        nosync: false,
        testnet: false,
    }
}

#[test]
fn seed_needs_birthday() {
    let mut inv = invocation();
    inv.seed = Some("words".to_string());
    assert!(matches!(plan_launch(inv, &WalletConfig::default()), Launch::MissingBirthday));
    assert_eq!(missing_birthday_lines()[0], "ERROR!");
}

#[test]
fn birthday_must_be_a_number() {
    let mut inv = invocation();
    inv.birthday = Some("12x".to_string());
    match plan_launch(inv, &WalletConfig::default()) {
        Launch::BadBirthday(k) => {
            assert_eq!(k, IntErrorKind::InvalidDigit);
            assert_eq!(
                bad_birthday_message(k),
                "Couldn't parse birthday. This should be a block number. Error=invalid digit found in string"
            );
        }
        _ => panic!("expected a birthday error"),
    }
    let mut inv = invocation();
    inv.birthday = Some(String::new());
    assert!(matches!(plan_launch(inv, &WalletConfig::default()), Launch::BadBirthday(IntErrorKind::Empty)));
}

#[test]
fn rpc_credentials_forward_the_command() {
    let cfg = parse_config("rpcuser=u\nrpcpassword=p");
    let mut inv = invocation();
    inv.command = Some("balance".to_string());
    inv.params = vec!["x".to_string()];
    match plan_launch(inv, &cfg) {
        Launch::Forward { command, params } => {
            assert_eq!(command, "balance");
            assert_eq!(params, vec!["x".to_string()]);
        }
        _ => panic!("expected forwarding"),
    }
    match plan_launch(invocation(), &cfg) {
        Launch::Forward { command, .. } => assert_eq!(command, "help"),
        _ => panic!("expected forwarding"),
    }
}

#[test]
fn serve_starts_the_wallet_even_with_credentials() {
    let cfg = parse_config("rpcuser=u\nrpcpassword=p\nserver=https://a:1\ntestnet=1");
    let mut inv = invocation();
    inv.command = Some("serve".to_string());
    inv.birthday = Some("600000".to_string());
    inv.nosync = true;
    match plan_launch(inv, &cfg) {
        Launch::Start(w) => {
            assert!(w.serve);
            assert!(!w.sync);
            assert!(w.testnet);
            assert_eq!(w.birthday, 600000);
            assert_eq!(w.server.as_deref(), Some("https://a:1"));
            assert_eq!(w.rpcuser, "u");
            assert_eq!(w.rpcpassword, "p");
        }
        _ => panic!("expected a start"),
    }
}

#[test]
fn command_line_wins_over_file() {
    let cfg = parse_config("server=https://file:1\ndatadir=/file");
    let mut inv = invocation();
    inv.server = Some("https://cli:2".to_string());
    inv.testnet = true;
    match plan_launch(inv, &cfg) {
        Launch::Start(w) => {
            assert_eq!(w.server.as_deref(), Some("https://cli:2"));
            assert_eq!(w.data_dir.as_deref(), Some("/file"));
            assert!(w.testnet);
            assert!(!w.serve);
            assert_eq!(w.birthday, 0);
            assert_eq!(w.rpcuser, "");
        }
        _ => panic!("expected a start"),
    }
}
