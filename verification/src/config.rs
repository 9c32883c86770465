//! The wallet's settings and the reading of its `key=value` configuration file.

use vstd::prelude::*;
use crate::number::{
    decimal_text, is_digit, lemma_decimal_text, lemma_parse_decimal_text, parse_unsigned,
    parse_unsigned_range,
};
use crate::text::{
    chars_of, eq_ignore_ascii_case, find_char, find_first, lemma_find_first,
    lemma_find_first_facts, lemma_trim_after_trim_end, lemma_trim_end_concat,
    lemma_trim_start_unchanged, lemma_trim_unchanged, trim_end, ascii_lower_code, is_white_space, range_eq, range_eq_ignore_ascii_case,
    string_of_range, trim, trim_bounds,
};

verus! {

/// Settings read from the configuration file.
pub struct WalletConfig {
    pub server: Option<String>,
    pub testnet: bool,
    pub data_dir: Option<String>,
    pub rpcbind: String,
    pub rpcport: u16,
    pub rpcuser: Option<String>,
    pub rpcpassword: Option<String>,
    pub sync_interval: u64,
}

/// The settings as mathematical values.
pub struct ConfigModel {
    pub server: Option<Seq<char>>,
    pub testnet: bool,
    pub data_dir: Option<Seq<char>>,
    pub rpcbind: Seq<char>,
    pub rpcport: u16,
    pub rpcuser: Option<Seq<char>>,
    pub rpcpassword: Option<Seq<char>>,
    pub sync_interval: u64,
}

/// The text of an optional string.
pub open spec fn opt_text(o: Option<String>) -> Option<Seq<char>> {
    match o {
        Some(s) => Some(s@),
        None => None,
    }
}

impl View for WalletConfig {
    type V = ConfigModel;

    open spec fn view(&self) -> ConfigModel {
        ConfigModel {
            server: opt_text(self.server),
            testnet: self.testnet,
            data_dir: opt_text(self.data_dir),
            rpcbind: self.rpcbind@,
            rpcport: self.rpcport,
            rpcuser: opt_text(self.rpcuser),
            rpcpassword: opt_text(self.rpcpassword),
            sync_interval: self.sync_interval,
        }
    }
}

/// The settings used where the file says nothing: no server, mainnet, no
/// data directory, RPC on `127.0.0.1:9068` without credentials, and a sync
/// every 60 seconds.
pub open spec fn default_model() -> ConfigModel {
    ConfigModel {
        server: None,
        testnet: false,
        data_dir: None,
        rpcbind: "127.0.0.1"@,
        rpcport: 9068,
        rpcuser: None,
        rpcpassword: None,
        sync_interval: 60,
    }
}

impl Default for WalletConfig {
    fn default() -> (r: Self)
        ensures
            r@ == default_model(),
    {
        WalletConfig {
            server: None,
            testnet: false,
            data_dir: None,
            rpcbind: "127.0.0.1".to_owned(),
            rpcport: 9068,
            rpcuser: None,
            rpcpassword: None,
            sync_interval: 60,
        }
    }
}

/// The effect of one setting `key = value`. `testnet` is on for `1` or for
/// `true` in any ASCII case; `rpcport` and `sync_interval` keep their value
/// when the text is not a number of their type; unknown keys change nothing.
pub open spec fn apply_setting(m: ConfigModel, key: Seq<char>, value: Seq<char>) -> ConfigModel {
    if key == "server"@ {
        ConfigModel { server: Some(value), ..m }
    } else if key == "testnet"@ {
        ConfigModel { testnet: value == "1"@ || eq_ignore_ascii_case(value, "true"@), ..m }
    } else if key == "data_dir"@ || key == "datadir"@ {
        ConfigModel { data_dir: Some(value), ..m }
    } else if key == "rpcbind"@ {
        ConfigModel { rpcbind: value, ..m }
    } else if key == "rpcport"@ {
        match parse_unsigned(value, u16::MAX as nat) {
            Ok(p) => ConfigModel { rpcport: p as u16, ..m },
            Err(_) => m,
        }
    } else if key == "rpcuser"@ {
        ConfigModel { rpcuser: Some(value), ..m }
    } else if key == "rpcpassword"@ {
        ConfigModel { rpcpassword: Some(value), ..m }
    } else if key == "sync_interval"@ {
        match parse_unsigned(value, u64::MAX as nat) {
            Ok(s) => ConfigModel { sync_interval: s as u64, ..m },
            Err(_) => m,
        }
    } else {
        m
    }
}

/// The effect of one line: blank lines, lines starting with `#` and lines
/// without `=` change nothing; otherwise the text before the first `=` is the
/// key and the text after it the value, both trimmed.
pub open spec fn apply_line(m: ConfigModel, line: Seq<char>) -> ConfigModel {
    let t = trim(line);
    if t.len() == 0 || t[0] == '#' {
        m
    } else {
        match find_first(t, '=') {
            Some(i) => apply_setting(m, trim(t.take(i as int)), trim(t.skip(i as int + 1))),
            None => m,
        }
    }
}

/// The settings after applying the lines of `text` to `m`, first to last.
pub open spec fn apply_text(m: ConfigModel, text: Seq<char>) -> ConfigModel
    decreases text.len(),
{
    match find_first(text, '\n') {
        Some(i) => {
            if i < text.len() {
                apply_text(apply_line(m, text.take(i as int)), text.skip(i as int + 1))
            } else {
                m
            }
        },
        None => apply_line(m, text),
    }
}

/// The settings that a configuration text gives.
pub open spec fn config_of_text(text: Seq<char>) -> ConfigModel {
    apply_text(default_model(), text)
}

fn apply_setting_exec(
    cfg: &mut WalletConfig,
    s: &Vec<char>,
    ka: usize,
    kb: usize,
    va: usize,
    vb: usize,
)
    requires
        ka <= kb <= s@.len(),
        va <= vb <= s@.len(),
    ensures
        final(cfg)@ == apply_setting(
            old(cfg)@,
            s@.subrange(ka as int, kb as int),
            s@.subrange(va as int, vb as int),
        ),
{
    if range_eq(s, ka, kb, "server") {
        cfg.server = Some(string_of_range(s, va, vb));
    } else if range_eq(s, ka, kb, "testnet") {
        cfg.testnet = range_eq(s, va, vb, "1") || range_eq_ignore_ascii_case(s, va, vb, "true");
    } else if range_eq(s, ka, kb, "data_dir") || range_eq(s, ka, kb, "datadir") {
        cfg.data_dir = Some(string_of_range(s, va, vb));
    } else if range_eq(s, ka, kb, "rpcbind") {
        cfg.rpcbind = string_of_range(s, va, vb);
    } else if range_eq(s, ka, kb, "rpcport") {
        if let Ok(p) = parse_unsigned_range(s, va, vb, 65535) {
            cfg.rpcport = p as u16;
        }
    } else if range_eq(s, ka, kb, "rpcuser") {
        cfg.rpcuser = Some(string_of_range(s, va, vb));
    } else if range_eq(s, ka, kb, "rpcpassword") {
        cfg.rpcpassword = Some(string_of_range(s, va, vb));
    } else if range_eq(s, ka, kb, "sync_interval") {
        if let Ok(v) = parse_unsigned_range(s, va, vb, u64::MAX) {
            cfg.sync_interval = v;
        }
    }
}

fn apply_line_exec(cfg: &mut WalletConfig, s: &Vec<char>, lo: usize, hi: usize)
    requires
        lo <= hi <= s@.len(),
    ensures
        final(cfg)@ == apply_line(old(cfg)@, s@.subrange(lo as int, hi as int)),
{
    let (a, b) = trim_bounds(s, lo, hi);
    let ghost t = s@.subrange(a as int, b as int);
    if a == b || s[a] == '#' {
        return;
    }
    match find_char(s, a, b, '=') {
        Some(k) => {
            let (ka, kb) = trim_bounds(s, a, k);
            let (va, vb) = trim_bounds(s, k + 1, b);
            assert(t.take(k - a) =~= s@.subrange(a as int, k as int));
            assert(t.skip(k - a + 1) =~= s@.subrange(k + 1, b as int));
            apply_setting_exec(cfg, s, ka, kb, va, vb);
        },
        None => {},
    }
}

/// Reads the settings from the text of a configuration file: each line is
/// applied in turn to the defaults, as [`config_of_text`] states.
pub fn parse_config(content: &str) -> (r: WalletConfig)
    ensures
        r@ == config_of_text(content@),
{
    let s = chars_of(content);
    let n = s.len();
    let mut cfg = WalletConfig::default();
    let mut start: usize = 0;
    assert(s@.subrange(0, n as int) =~= content@);
    loop
        invariant
            s@ == content@,
            n == s@.len(),
            start <= n,
            config_of_text(content@) == apply_text(cfg@, s@.subrange(start as int, n as int)),
        decreases n - start,
    {
        let ghost rest = s@.subrange(start as int, n as int);
        match find_char(&s, start, n, '\n') {
            Some(k) => {
                apply_line_exec(&mut cfg, &s, start, k);
                assert(rest.take(k - start) =~= s@.subrange(start as int, k as int));
                assert(rest.skip(k - start + 1) =~= s@.subrange(k + 1, n as int));
                start = k + 1;
            },
            None => {
                apply_line_exec(&mut cfg, &s, start, n);
                return cfg;
            },
        }
    }
}

/// Where the configuration file lies: `.zcash/zecwallet.conf` under the home
/// directory, or under `.` when there is none; the components in order.
pub fn config_path_components(home: Option<String>) -> (r: Vec<String>)
    ensures
        r@.len() == 3,
        r@[0]@ == (match home {
            Some(h) => h@,
            None => "."@,
        }),
        r@[1]@ == ".zcash"@,
        r@[2]@ == "zecwallet.conf"@,
{
    let mut r: Vec<String> = Vec::new();
    match home {
        Some(h) => r.push(h),
        None => r.push(".".to_owned()),
    }
    r.push(".zcash".to_owned());
    r.push("zecwallet.conf".to_owned());
    r
}

/// The settings of a configuration file given its text, or the defaults
/// when the file could not be read.
pub fn load_config(content: Option<&str>) -> (r: WalletConfig)
    ensures
        r@ == match content {
            Some(t) => config_of_text(t@),
            None => default_model(),
        },
{
    match content {
        Some(t) => parse_config(t),
        None => WalletConfig::default(),
    }
}

/// Lines are applied one after the other: the settings after more text
/// continue from the settings of the text before it.
pub proof fn lemma_apply_text_append(m: ConfigModel, a: Seq<char>, b: Seq<char>)
    ensures
        apply_text(m, a + seq!['\n'] + b) == apply_text(apply_text(m, a), b),
    decreases a.len(),
{
    let x = a + seq!['\n'] + b;
    lemma_find_first_facts(a, '\n');
    match find_first(a, '\n') {
        Some(i) => {
            lemma_find_first(x, '\n', i as int);
            assert(x.take(i as int) =~= a.take(i as int));
            assert(x.skip(i as int + 1) =~= a.skip(i as int + 1) + seq!['\n'] + b);
            lemma_apply_text_append(apply_line(m, a.take(i as int)), a.skip(i as int + 1), b);
        },
        None => {
            lemma_find_first(x, '\n', a.len() as int);
            assert(x.take(a.len() as int) =~= a);
            assert(x.skip(a.len() as int + 1) =~= b);
        },
    }
}

/// The settings of a text followed by more text are those of the first text
/// with the lines of the second applied in order.
pub proof fn law_config_text_continues(a: Seq<char>, b: Seq<char>)
    ensures
        config_of_text(a + seq!['\n'] + b) == apply_text(config_of_text(a), b),
{
    lemma_apply_text_append(default_model(), a, b);
}

/// A line added at the end decides the setting it names: the result is the
/// earlier settings with that one line applied, so a later line overrides an
/// earlier one for the same key.
pub proof fn law_last_line_applies(a: Seq<char>, line: Seq<char>)
    requires
        forall|i: int| 0 <= i < line.len() ==> line[i] != '\n',
    ensures
        config_of_text(a + seq!['\n'] + line) == apply_line(config_of_text(a), line),
{
    lemma_apply_text_append(default_model(), a, line);
    lemma_find_first(line, '\n', line.len() as int);
}

/// Blank lines and lines starting with `#` change nothing.
pub proof fn law_comments_change_nothing(a: Seq<char>, line: Seq<char>)
    requires
        forall|i: int| 0 <= i < line.len() ==> line[i] != '\n',
        trim(line).len() == 0 || trim(line)[0] == '#',
    ensures
        config_of_text(a + seq!['\n'] + line) == config_of_text(a),
{
    law_last_line_applies(a, line);
}

/// The keys that the configuration file knows.
pub open spec fn is_known_key(key: Seq<char>) -> bool {
    ||| key == "server"@
    ||| key == "testnet"@
    ||| key == "data_dir"@
    ||| key == "datadir"@
    ||| key == "rpcbind"@
    ||| key == "rpcport"@
    ||| key == "rpcuser"@
    ||| key == "rpcpassword"@
    ||| key == "sync_interval"@
}

/// A line that sets nothing: blank, a comment, without `=`, or with a key
/// the file does not know.
pub open spec fn is_neutral_line(line: Seq<char>) -> bool {
    let t = trim(line);
    ||| t.len() == 0
    ||| t[0] == '#'
    ||| match find_first(t, '=') {
        Some(i) => !is_known_key(trim(t.take(i as int))),
        None => true,
    }
}

/// A text holding no line break.
pub open spec fn is_one_line(s: Seq<char>) -> bool {
    forall|i: int| 0 <= i < s.len() ==> s[i] != '\n'
}

/// A text all of whose lines are neutral.
pub open spec fn is_neutral_text(b: Seq<char>) -> bool
    decreases b.len(),
{
    match find_first(b, '\n') {
        Some(i) => if i < b.len() {
            is_neutral_line(b.take(i as int)) && is_neutral_text(b.skip(i as int + 1))
        } else {
            true
        },
        None => is_neutral_line(b),
    }
}

/// Neutral lines leave any settings as they are.
proof fn lemma_neutral_text(m: ConfigModel, b: Seq<char>)
    requires
        is_neutral_text(b),
    ensures
        apply_text(m, b) == m,
    decreases b.len(),
{
    match find_first(b, '\n') {
        Some(i) => if i < b.len() {
            assert(apply_line(m, b.take(i as int)) == m);
            lemma_neutral_text(m, b.skip(i as int + 1));
        },
        None => {
            assert(apply_line(m, b) == m);
        },
    }
}

/// Neutral lines (blank, comments, lines without `=`, unknown keys) change
/// no setting, however many and wherever they stand: between other lines,
/// at the start, or at the end.
pub proof fn law_neutral_lines_change_nothing(a: Seq<char>, b: Seq<char>, c: Seq<char>)
    requires
        is_neutral_text(b),
    ensures
        config_of_text(a + seq!['\n'] + b + seq!['\n'] + c) == config_of_text(a + seq!['\n'] + c),
        config_of_text(b + seq!['\n'] + c) == config_of_text(c),
        config_of_text(a + seq!['\n'] + b) == config_of_text(a),
{
    let m = config_of_text(a);
    lemma_neutral_text(m, b);
    lemma_neutral_text(default_model(), b);
    assert(a + seq!['\n'] + b + seq!['\n'] + c =~= a + seq!['\n'] + (b + seq!['\n'] + c));
    lemma_apply_text_append(default_model(), a, b + seq!['\n'] + c);
    lemma_apply_text_append(m, b, c);
    lemma_apply_text_append(default_model(), a, c);
    lemma_apply_text_append(default_model(), b, c);
    lemma_apply_text_append(default_model(), a, b);
}

/// A text without white space at either end is its own trim.
proof fn lemma_trim_tidy(s: Seq<char>)
    requires
        s.len() == 0 || (!is_white_space(s[0]) && !is_white_space(s.last())),
    ensures
        trim(s) == s,
{
    if s.len() > 0 {
        lemma_trim_unchanged(s);
    }
}

/// A line `key=value` added at the end sets what `key` names from `value`,
/// whatever came before: the result is the earlier settings with
/// [`apply_setting`] for that key and the trimmed value.
pub proof fn law_setting_line_decides(a: Seq<char>, key: Seq<char>, value: Seq<char>)
    requires
        key.len() > 0,
        !is_white_space(key[0]),
        !is_white_space(key.last()),
        key[0] != '#',
        forall|i: int| 0 <= i < key.len() ==> key[i] != '=' && key[i] != '\n',
        is_one_line(value),
    ensures
        config_of_text(a + seq!['\n'] + (key + seq!['='] + value)) == apply_setting(
            config_of_text(a),
            key,
            trim(value),
        ),
{
    let p = key + seq!['='];
    let line = p + value;
    assert(key + seq!['='] + value == line);
    assert forall|i: int| 0 <= i < line.len() implies line[i] != '\n' by {
        if i < key.len() {
            assert(line[i] == key[i]);
        } else if i > key.len() {
            assert(line[i] == value[i - key.len() - 1]);
        }
    }
    law_last_line_applies(a, line);
    assert(line[0] == key[0]);
    lemma_trim_start_unchanged(line);
    lemma_trim_end_concat(p, value);
    let t = p + trim_end(value);
    assert(trim(line) == t);
    assert forall|i: int| 0 <= i < key.len() implies t[i] != '=' by {
        assert(t[i] == key[i]);
    }
    assert(t[key.len() as int] == '=');
    lemma_find_first(t, '=', key.len() as int);
    assert(t.take(key.len() as int) =~= key);
    assert(t.skip(key.len() as int + 1) =~= trim_end(value));
    lemma_trim_tidy(key);
    lemma_trim_after_trim_end(value);
}

/// A key made of lower-case ASCII letters and `_` meets what a setting line's
/// key must be.
proof fn lemma_plain_key(a: Seq<char>, key: Seq<char>, value: Seq<char>)
    requires
        key.len() > 0,
        forall|i: int|
            0 <= i < key.len() ==> (97 <= (#[trigger] key[i]) as u32 <= 122 || key[i] == '_'),
        is_one_line(value),
    ensures
        config_of_text(a + seq!['\n'] + (key + seq!['='] + value)) == apply_setting(
            config_of_text(a),
            key,
            trim(value),
        ),
{
    assert(97 <= key[0] as u32 <= 122 || key[0] == '_');
    assert(97 <= key.last() as u32 <= 122 || key.last() == '_');
    law_setting_line_decides(a, key, value);
}

/// Texts of different lengths, or that differ at some place, are different.
proof fn lemma_texts_differ(a: Seq<char>, b: Seq<char>, i: int)
    requires
        a.len() != b.len() || (0 <= i < a.len() && i < b.len() && a[i] != b[i]),
    ensures
        a != b,
{
}

/// The known keys are distinct texts.
proof fn lemma_known_keys_distinct()
    ensures
        "testnet"@ != "server"@,
        "data_dir"@ != "server"@,
        "data_dir"@ != "testnet"@,
        "datadir"@ != "server"@,
        "datadir"@ != "testnet"@,
        "datadir"@ != "data_dir"@,
        "rpcbind"@ != "server"@,
        "rpcbind"@ != "testnet"@,
        "rpcbind"@ != "data_dir"@,
        "rpcbind"@ != "datadir"@,
        "rpcport"@ != "server"@,
        "rpcport"@ != "testnet"@,
        "rpcport"@ != "data_dir"@,
        "rpcport"@ != "datadir"@,
        "rpcport"@ != "rpcbind"@,
        "rpcuser"@ != "server"@,
        "rpcuser"@ != "testnet"@,
        "rpcuser"@ != "data_dir"@,
        "rpcuser"@ != "datadir"@,
        "rpcuser"@ != "rpcbind"@,
        "rpcuser"@ != "rpcport"@,
        "rpcpassword"@.len() == 11,
        "sync_interval"@.len() == 13,
        "server"@.len() == 6,
        "testnet"@.len() == 7,
        "data_dir"@.len() == 8,
        "datadir"@.len() == 7,
        "rpcbind"@.len() == 7,
        "rpcport"@.len() == 7,
        "rpcuser"@.len() == 7,
{
    reveal_strlit("server");
    reveal_strlit("testnet");
    reveal_strlit("data_dir");
    reveal_strlit("datadir");
    reveal_strlit("rpcbind");
    reveal_strlit("rpcport");
    reveal_strlit("rpcuser");
    reveal_strlit("rpcpassword");
    reveal_strlit("sync_interval");
    lemma_texts_differ("testnet"@, "server"@, 0);
    lemma_texts_differ("data_dir"@, "server"@, 0);
    lemma_texts_differ("data_dir"@, "testnet"@, 0);
    lemma_texts_differ("datadir"@, "server"@, 0);
    lemma_texts_differ("datadir"@, "testnet"@, 0);
    lemma_texts_differ("datadir"@, "data_dir"@, 0);
    lemma_texts_differ("rpcbind"@, "server"@, 0);
    lemma_texts_differ("rpcbind"@, "testnet"@, 0);
    lemma_texts_differ("rpcbind"@, "data_dir"@, 0);
    lemma_texts_differ("rpcbind"@, "datadir"@, 0);
    lemma_texts_differ("rpcport"@, "server"@, 0);
    lemma_texts_differ("rpcport"@, "testnet"@, 0);
    lemma_texts_differ("rpcport"@, "data_dir"@, 0);
    lemma_texts_differ("rpcport"@, "datadir"@, 0);
    lemma_texts_differ("rpcport"@, "rpcbind"@, 3);
    lemma_texts_differ("rpcuser"@, "server"@, 0);
    lemma_texts_differ("rpcuser"@, "testnet"@, 0);
    lemma_texts_differ("rpcuser"@, "data_dir"@, 0);
    lemma_texts_differ("rpcuser"@, "datadir"@, 0);
    lemma_texts_differ("rpcuser"@, "rpcbind"@, 3);
    lemma_texts_differ("rpcuser"@, "rpcport"@, 3);
}

/// A line for one of the known keys, added at the end, applies that key's
/// setting to what the earlier text gave.
proof fn lemma_known_key_line(a: Seq<char>, key: Seq<char>, v: Seq<char>)
    requires
        is_one_line(v),
        key == "server"@ || key == "testnet"@ || key == "data_dir"@ || key == "datadir"@
            || key == "rpcbind"@ || key == "rpcport"@ || key == "rpcuser"@ || key
            == "rpcpassword"@ || key == "sync_interval"@,
    ensures
        config_of_text(a + seq!['\n'] + (key + seq!['='] + v)) == apply_setting(
            config_of_text(a),
            key,
            trim(v),
        ),
{
    if key == "server"@ {
        reveal_strlit("server");
    } else if key == "testnet"@ {
        reveal_strlit("testnet");
    } else if key == "data_dir"@ {
        reveal_strlit("data_dir");
    } else if key == "datadir"@ {
        reveal_strlit("datadir");
    } else if key == "rpcbind"@ {
        reveal_strlit("rpcbind");
    } else if key == "rpcport"@ {
        reveal_strlit("rpcport");
    } else if key == "rpcuser"@ {
        reveal_strlit("rpcuser");
    } else if key == "rpcpassword"@ {
        reveal_strlit("rpcpassword");
    } else {
        reveal_strlit("sync_interval");
    }
    lemma_plain_key(a, key, v);
}

/// Each key sets its own setting from the trimmed value of a line added at
/// the end, and leaves every other setting as the earlier text had it:
/// `server`, `rpcbind`, `rpcuser` and `rpcpassword` take the text, and both
/// `data_dir` and `datadir` set the data directory.
pub proof fn law_text_keys_set_their_settings(a: Seq<char>, v: Seq<char>)
    requires
        is_one_line(v),
    ensures
        ({
            let m = config_of_text(a);
            let t = trim(v);
            &&& config_of_text(a + seq!['\n'] + ("server"@ + seq!['='] + v)) == ConfigModel {
                server: Some(t),
                ..m
            }
            &&& config_of_text(a + seq!['\n'] + ("data_dir"@ + seq!['='] + v)) == ConfigModel {
                data_dir: Some(t),
                ..m
            }
            &&& config_of_text(a + seq!['\n'] + ("datadir"@ + seq!['='] + v)) == ConfigModel {
                data_dir: Some(t),
                ..m
            }
            &&& config_of_text(a + seq!['\n'] + ("rpcbind"@ + seq!['='] + v)) == ConfigModel {
                rpcbind: t,
                ..m
            }
            &&& config_of_text(a + seq!['\n'] + ("rpcuser"@ + seq!['='] + v)) == ConfigModel {
                rpcuser: Some(t),
                ..m
            }
            &&& config_of_text(a + seq!['\n'] + ("rpcpassword"@ + seq!['='] + v)) == ConfigModel {
                rpcpassword: Some(t),
                ..m
            }
        }),
{
    lemma_known_keys_distinct();
    lemma_known_key_line(a, "server"@, v);
    lemma_known_key_line(a, "data_dir"@, v);
    lemma_known_key_line(a, "datadir"@, v);
    lemma_known_key_line(a, "rpcbind"@, v);
    lemma_known_key_line(a, "rpcuser"@, v);
    lemma_known_key_line(a, "rpcpassword"@, v);
}

/// A `testnet` line added at the end turns the test network on exactly when
/// its trimmed value is `1` or `true` in any ASCII case, and off otherwise,
/// leaving every other setting as the earlier text had it.
pub proof fn law_testnet_line(a: Seq<char>, v: Seq<char>)
    requires
        is_one_line(v),
    ensures
        ({
            let t = trim(v);
            config_of_text(a + seq!['\n'] + ("testnet"@ + seq!['='] + v)) == (ConfigModel {
                testnet: t == seq!['1'] || (t.len() == 4 && forall|i: int|
                    0 <= i < 4 ==> ascii_lower_code(#[trigger] t[i]) == ascii_lower_code(
                        seq!['t', 'r', 'u', 'e'][i],
                    )),
                ..config_of_text(a)
            })
        }),
{
    lemma_known_keys_distinct();
    lemma_known_key_line(a, "testnet"@, v);
    reveal_strlit("1");
    reveal_strlit("true");
    assert("1"@ =~= seq!['1']);
    assert("true"@ =~= seq!['t', 'r', 'u', 'e']);
}

/// A port line sets the RPC port to the number written, and a sync line
/// sets the interval to the number written, leaving every other setting as
/// it was; a port or interval line whose value is not such a number
/// changes nothing.
pub proof fn law_number_settings(a: Seq<char>, port: u16, interval: u64, v: Seq<char>)
    requires
        is_one_line(v),
    ensures
        ({
            let m = config_of_text(a);
            &&& config_of_text(a + seq!['\n'] + ("rpcport"@ + seq!['='] + decimal_text(port as nat)))
                == (ConfigModel { rpcport: port, ..m })
            &&& config_of_text(
                a + seq!['\n'] + ("sync_interval"@ + seq!['='] + decimal_text(interval as nat)),
            ) == (ConfigModel { sync_interval: interval, ..m })
            &&& parse_unsigned(trim(v), u16::MAX as nat) is Err ==> config_of_text(
                a + seq!['\n'] + ("rpcport"@ + seq!['='] + v),
            ) == m
            &&& parse_unsigned(trim(v), u64::MAX as nat) is Err ==> config_of_text(
                a + seq!['\n'] + ("sync_interval"@ + seq!['='] + v),
            ) == m
        }),
{
    lemma_known_keys_distinct();
    let p = decimal_text(port as nat);
    let q = decimal_text(interval as nat);
    lemma_decimal_text(port as nat);
    lemma_decimal_text(interval as nat);
    assert forall|i: int| 0 <= i < p.len() implies p[i] != '\n' by {
        assert(is_digit(p[i]));
    }
    assert forall|i: int| 0 <= i < q.len() implies q[i] != '\n' by {
        assert(is_digit(q[i]));
    }
    assert(is_digit(p[0]) && is_digit(p.last()));
    assert(is_digit(q[0]) && is_digit(q.last()));
    lemma_trim_unchanged(p);
    lemma_trim_unchanged(q);
    lemma_parse_decimal_text(port as nat, u16::MAX as nat);
    lemma_parse_decimal_text(interval as nat, u64::MAX as nat);
    lemma_known_key_line(a, "rpcport"@, p);
    lemma_known_key_line(a, "sync_interval"@, q);
    lemma_known_key_line(a, "rpcport"@, v);
    lemma_known_key_line(a, "sync_interval"@, v);
}

} // verus!
