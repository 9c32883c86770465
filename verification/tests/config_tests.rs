use zecwallet_cli::config::{parse_config, WalletConfig};

#[test]
fn default_settings() {
    let c = WalletConfig::default();
    assert_eq!(c.server, None);
    assert!(!c.testnet);
    assert_eq!(c.data_dir, None);
    assert_eq!(c.rpcbind, "127.0.0.1");
    assert_eq!(c.rpcport, 9068);
    assert_eq!(c.rpcuser, None);
    assert_eq!(c.rpcpassword, None);
    assert_eq!(c.sync_interval, 60);
}

#[test]
fn empty_text_gives_defaults() {
    let c = parse_config("");
    assert_eq!(c.rpcbind, "127.0.0.1");
    assert_eq!(c.rpcport, 9068);
    assert_eq!(c.sync_interval, 60);
    assert!(!c.testnet);
}

#[test]
fn full_file_is_read() {
    let text = "# wallet settings\n\
                server = https://lwd.example.com:443\n\
                testnet=1\n\
                datadir = /var/zec\n\
                rpcbind=0.0.0.0\n\
                rpcport = 18232\n\
                rpcuser = alice\n\
                rpcpassword = s3cr=t\n\
                sync_interval = 120\n";
    let c = parse_config(text);
    assert_eq!(c.server.as_deref(), Some("https://lwd.example.com:443"));
    assert!(c.testnet);
    assert_eq!(c.data_dir.as_deref(), Some("/var/zec"));
    assert_eq!(c.rpcbind, "0.0.0.0");
    assert_eq!(c.rpcport, 18232);
    assert_eq!(c.rpcuser.as_deref(), Some("alice"));
    assert_eq!(c.rpcpassword.as_deref(), Some("s3cr=t"));
    assert_eq!(c.sync_interval, 120);
}

#[test]
fn testnet_accepts_one_and_true_in_any_case() {
    assert!(parse_config("testnet=1").testnet);
    assert!(parse_config("testnet=true").testnet);
    assert!(parse_config("testnet = TrUe ").testnet);
    assert!(!parse_config("testnet=yes").testnet);
    assert!(!parse_config("testnet=0").testnet);
    assert!(!parse_config("testnet=1\ntestnet=false").testnet);
}

#[test]
fn bad_numbers_keep_the_earlier_value() {
    let c = parse_config("rpcport=abc\nsync_interval=-5");
    assert_eq!(c.rpcport, 9068);
    assert_eq!(c.sync_interval, 60);
    assert_eq!(parse_config("rpcport=70000").rpcport, 9068);
    assert_eq!(parse_config("rpcport=65535").rpcport, 65535);
    assert_eq!(parse_config("rpcport=+8080").rpcport, 8080);
    assert_eq!(parse_config("rpcport=\nrpcport=+").rpcport, 9068);
    assert_eq!(parse_config("sync_interval=18446744073709551615").sync_interval, u64::MAX);
    assert_eq!(parse_config("sync_interval=18446744073709551616").sync_interval, 60);
}

#[test]
fn comments_blank_and_unknown_lines_are_ignored() {
    let c = parse_config("\n   \n# rpcport=1\n   #rpcbind=x\nnonsense\nfoo=bar\n=5\n");
    assert_eq!(c.rpcport, 9068);
    assert_eq!(c.rpcbind, "127.0.0.1");
}

#[test]
fn later_lines_override_earlier_ones() {
    let c = parse_config("rpcbind=a\r\nrpcbind = b \r\ndata_dir=x\ndatadir=y");
    assert_eq!(c.rpcbind, "b");
    assert_eq!(c.data_dir.as_deref(), Some("y"));
}

#[test]
fn keys_are_exact_and_values_may_be_empty() {
    let c = parse_config("RPCBIND=x\nserver=\nrpcuser = \u{3000}bob\u{a0}");
    assert_eq!(c.rpcbind, "127.0.0.1");
    assert_eq!(c.server.as_deref(), Some(""));
    assert_eq!(c.rpcuser.as_deref(), Some("bob"));
}

#[test]
fn unreadable_file_gives_defaults() {
    let c = zecwallet_cli::config::load_config(None);
    assert_eq!(c.rpcport, 9068);
    let c = zecwallet_cli::config::load_config(Some("rpcport=1"));
    assert_eq!(c.rpcport, 1);
}
