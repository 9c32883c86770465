//! What the command line asks for, decided from its arguments and the
//! configuration file; the arguments win over the file.

use vstd::prelude::*;
use crate::client::texts;
use crate::config::{opt_text, WalletConfig};
use crate::number::{int_error_message, parse_unsigned, parse_unsigned_range, IntErrorKind};
use crate::text::{chars_of, push_str, range_eq};

verus! {

/// The arguments of one invocation.
pub struct Invocation {
    /// The command to run, if any.
    pub command: Option<String>,
    /// The command's parameters.
    pub params: Vec<String>,
    /// The server, only when it was given on the command line.
    pub server: Option<String>,
    /// The data directory given on the command line.
    pub data_dir: Option<String>,
    /// The seed phrase to restore from.
    pub seed: Option<String>,
    /// The wallet's birthday height, as given.
    pub birthday: Option<String>,
    /// Whether syncing is turned off.
    pub nosync: bool,
    /// Whether testnet was asked for.
    pub testnet: bool,
}

/// How to start the wallet.
pub struct WalletStart {
    pub server: Option<String>,
    pub data_dir: Option<String>,
    pub seed: Option<String>,
    pub birthday: u64,
    pub testnet: bool,
    /// Whether to sync at start.
    pub sync: bool,
    /// Whether to serve JSON-RPC instead of running a command.
    pub serve: bool,
    pub command: Option<String>,
    pub params: Vec<String>,
    /// The RPC user when serving; empty if the file names none.
    pub rpcuser: String,
    /// The RPC password when serving; empty if the file names none.
    pub rpcpassword: String,
}

/// What an invocation asks for.
pub enum Launch {
    /// A seed was given without a birthday.
    MissingBirthday,
    /// The birthday is not a block height.
    BadBirthday(IntErrorKind),
    /// Hand the command to the wallet daemon over JSON-RPC.
    Forward { command: String, params: Vec<String> },
    /// Start the wallet.
    Start(WalletStart),
}

/// The birthday as given, `0` when none was.
pub open spec fn birthday_text(inv: Invocation) -> Seq<char> {
    match inv.birthday {
        Some(b) => b@,
        None => "0"@,
    }
}

/// Whether the command is `serve`.
pub open spec fn is_serve(inv: Invocation) -> bool {
    opt_text(inv.command) == Some("serve"@)
}

/// Whether the configuration names both RPC credentials.
pub open spec fn uses_rpc(cfg: WalletConfig) -> bool {
    cfg.rpcuser is Some && cfg.rpcpassword is Some
}

/// The text of an optional string, or empty.
pub open spec fn text_or_empty(o: Option<String>) -> Seq<char> {
    match o {
        Some(s) => s@,
        None => Seq::empty(),
    }
}

fn clone_opt(o: &Option<String>) -> (r: Option<String>)
    ensures
        opt_text(r) == opt_text(*o),
{
    match o {
        Some(s) => Some(s.clone()),
        None => None,
    }
}

fn clone_all(v: &Vec<String>) -> (r: Vec<String>)
    ensures
        texts(r@) == texts(v@),
{
    let mut r: Vec<String> = Vec::new();
    let mut i: usize = 0;
    while i < v.len()
        invariant
            i <= v@.len(),
            r@.len() == i,
            forall|k: int| 0 <= k < i ==> (#[trigger] r@[k])@ == v@[k]@,
        decreases v@.len() - i,
    {
        let c = v[i].clone();
        r.push(c);
        i += 1;
    }
    assert forall|k: int| 0 <= k < v@.len() implies #[trigger] texts(r@)[k] == texts(v@)[k] by {
        assert(r@[k]@ == v@[k]@);
    }
    assert(texts(r@) =~= texts(v@));
    r
}

/// Decides what an invocation asks for. A seed needs a birthday, and the
/// birthday must be a block height; then, unless the command is `serve`, a
/// configuration with RPC credentials hands the command (`help` when none)
/// to the daemon; otherwise the wallet starts, with the server and data
/// directory of the command line where given and those of the file
/// otherwise, on testnet when either asks for it.
pub fn plan_launch(inv: Invocation, cfg: &WalletConfig) -> (r: Launch)
    ensures
        (inv.seed is Some && inv.birthday is None) ==> r is MissingBirthday,
        !(inv.seed is Some && inv.birthday is None) ==> match parse_unsigned(
            birthday_text(inv),
            u64::MAX as nat,
        ) {
            Err(k) => r == Launch::BadBirthday(k),
            Ok(b) => if !is_serve(inv) && uses_rpc(*cfg) {
                r matches Launch::Forward { command, params } && command@ == (match inv.command {
                    Some(c) => c@,
                    None => "help"@,
                }) && texts(params@) == texts(inv.params@)
            } else {
                r matches Launch::Start(w) && {
                    &&& opt_text(w.server) == (if inv.server is Some {
                        opt_text(inv.server)
                    } else {
                        opt_text(cfg.server)
                    })
                    &&& opt_text(w.data_dir) == (if inv.data_dir is Some {
                        opt_text(inv.data_dir)
                    } else {
                        opt_text(cfg.data_dir)
                    })
                    &&& opt_text(w.seed) == opt_text(inv.seed)
                    &&& w.birthday == b
                    &&& w.testnet == (inv.testnet || cfg.testnet)
                    &&& w.sync == !inv.nosync
                    &&& w.serve == is_serve(inv)
                    &&& opt_text(w.command) == opt_text(inv.command)
                    &&& texts(w.params@) == texts(inv.params@)
                    &&& w.rpcuser@ == text_or_empty(cfg.rpcuser)
                    &&& w.rpcpassword@ == text_or_empty(cfg.rpcpassword)
                }
            },
        },
        r is Forward ==> cfg.rpcuser is Some && cfg.rpcpassword is Some && opt_text(inv.command)
            != Some("serve"@),
        r is Start ==> cfg.rpcuser is None || cfg.rpcpassword is None || opt_text(inv.command)
            == Some("serve"@),
{
    if inv.seed.is_some() && inv.birthday.is_none() {
        return Launch::MissingBirthday;
    }
    let btext: Vec<char> = match &inv.birthday {
        Some(b) => chars_of(b.as_str()),
        None => chars_of("0"),
    };
    assert(btext@.subrange(0, btext@.len() as int) =~= birthday_text(inv));
    let birthday = match parse_unsigned_range(&btext, 0, btext.len(), u64::MAX) {
        Ok(b) => b,
        Err(k) => {
            return Launch::BadBirthday(k);
        },
    };
    let serve = match &inv.command {
        Some(c) => {
            let cs = chars_of(c.as_str());
            assert(cs@.subrange(0, cs@.len() as int) =~= c@);
            range_eq(&cs, 0, cs.len(), "serve")
        },
        None => false,
    };
    if !serve && cfg.rpcuser.is_some() && cfg.rpcpassword.is_some() {
        let command = match &inv.command {
            Some(c) => c.clone(),
            None => "help".to_owned(),
        };
        return Launch::Forward { command, params: clone_all(&inv.params) };
    }
    let server = if inv.server.is_some() {
        clone_opt(&inv.server)
    } else {
        clone_opt(&cfg.server)
    };
    let data_dir = if inv.data_dir.is_some() {
        clone_opt(&inv.data_dir)
    } else {
        clone_opt(&cfg.data_dir)
    };
    let rpcuser = match &cfg.rpcuser {
        Some(u) => u.clone(),
        None => String::new(),
    };
    let rpcpassword = match &cfg.rpcpassword {
        Some(p) => p.clone(),
        None => String::new(),
    };
    Launch::Start(
        WalletStart {
            server,
            data_dir,
            seed: clone_opt(&inv.seed),
            birthday,
            testnet: inv.testnet || cfg.testnet,
            sync: !inv.nosync,
            serve,
            command: clone_opt(&inv.command),
            params: clone_all(&inv.params),
            rpcuser,
            rpcpassword,
        },
    )
}

/// The lines printed when a seed comes without a birthday.
pub fn missing_birthday_lines() -> (r: Vec<&'static str>)
    ensures
        r@.len() == 3,
        r@[0]@ == "ERROR!"@,
        r@[1]@ == "Please specify the wallet birthday (eg. '--birthday 600000') to restore from seed."@,
        r@[2]@ == "This should be the block height where the wallet was created. If you don't remember the block height, you can pass '--birthday 0' to scan from the start of the blockchain."@,
{
    let mut r: Vec<&'static str> = Vec::new();
    r.push("ERROR!");
    r.push("Please specify the wallet birthday (eg. '--birthday 600000') to restore from seed.");
    r.push(
        "This should be the block height where the wallet was created. If you don't remember the block height, you can pass '--birthday 0' to scan from the start of the blockchain.",
    );
    r
}

/// The message printed when the birthday is not a block height.
pub fn bad_birthday_message(kind: IntErrorKind) -> (r: String)
    ensures
        r@ == "Couldn't parse birthday. This should be a block number. Error="@ + int_error_message(kind),
{
    let mut r = String::new();
    push_str(&mut r, "Couldn't parse birthday. This should be a block number. Error=");
    push_str(&mut r, kind.message());
    r
}

} // verus!
