use vstd::prelude::*;

use crate::text::{decimal_from, decimal_within, digits_value, same_text};

verus! {

broadcast use vstd::string::group_string_axioms;

/// The port used when `--port` is not given.
pub const DEFAULT_PORT: u16 = 4902;

/// Command-line settings of the server.
pub struct Cli {
    /// Serve HTTPS with an in-memory self-signed certificate (`--ssl`).
    pub ssl: bool,
    /// Required HTTP Basic credentials in `user:pass` form (`--auth-token`).
    pub auth_token: String,
    /// Listen port (`--port`, 4902 when absent).
    pub port: u16,
    /// Directory that uploads are written to (`--upload-dir`).
    pub upload_dir: String,
}

/// Why an invocation does not yield settings.
#[derive(Clone, Copy, Debug, PartialEq, Eq, Structural)]
pub enum CliError {
    /// `--help` or `-h` was given: the usage text is to be shown.
    DisplayHelp,
    /// `--version` or `-V` was given: the version is to be shown.
    DisplayVersion,
    /// The arguments do not form a valid invocation.
    Invalid,
}

/// The options that take a value.
#[derive(Clone, Copy, Debug, PartialEq, Eq, Structural)]
pub enum OptArg {
    AuthToken,
    Port,
    UploadDir,
}

/// What a long argument name (the text after `--`, before any `=`) denotes.
#[derive(Clone, Copy, Debug, PartialEq, Eq, Structural)]
pub enum LongArg {
    Opt(OptArg),
    Ssl,
    Help,
    Version,
    Unknown,
}

/// The settings of an invocation, as mathematical values.
pub struct CliView {
    pub ssl: bool,
    pub auth_token: Seq<char>,
    pub port: u16,
    pub upload_dir: Seq<char>,
}

impl Cli {
    pub open spec fn view(&self) -> CliView {
        CliView {
            ssl: self.ssl,
            auth_token: self.auth_token@,
            port: self.port,
            upload_dir: self.upload_dir@,
        }
    }
}

/// What has been read of the arguments so far: the settings seen and an
/// option whose value is still to come or still to be checked.
pub struct ArgsView {
    pub ssl: bool,
    pub auth_token: Option<Seq<char>>,
    pub port: Option<u16>,
    pub upload_dir: Option<Seq<char>>,
    pub pending: Option<(OptArg, Option<Seq<char>>)>,
}

pub open spec fn initial_args() -> ArgsView {
    ArgsView { ssl: false, auth_token: None, port: None, upload_dir: None, pending: None }
}

/// How a `--port` value is read: an optional sign and one or more decimal
/// digits, whose value must lie in 0..=65535.
pub open spec fn spec_parse_port(v: Seq<char>) -> Option<u16> {
    let negative = v.len() > 0 && v[0] == '-';
    let signed = negative || (v.len() > 0 && v[0] == '+');
    let d = if signed { v.skip(1) } else { v };
    if decimal_within(d, 65535) && !(negative && digits_value(d) != 0) {
        Some(digits_value(d) as u16)
    } else {
        None
    }
}

/// Records value `v` of option `k`; an option may be given only once.
pub open spec fn spec_set_opt(st: ArgsView, k: OptArg, v: Seq<char>) -> Result<ArgsView, CliError> {
    match k {
        OptArg::AuthToken => if st.auth_token is Some {
            Err(CliError::Invalid)
        } else {
            Ok(ArgsView { auth_token: Some(v), ..st })
        },
        OptArg::Port => if st.port is Some {
            Err(CliError::Invalid)
        } else {
            match spec_parse_port(v) {
                Some(p) => Ok(ArgsView { port: Some(p), ..st }),
                None => Err(CliError::Invalid),
            }
        },
        OptArg::UploadDir => if st.upload_dir is Some || v.len() == 0 {
            Err(CliError::Invalid)
        } else {
            Ok(ArgsView { upload_dir: Some(v), ..st })
        },
    }
}

/// Settles the option still pending: it must have received its value.
pub open spec fn spec_resolve(st: ArgsView) -> Result<ArgsView, CliError> {
    match st.pending {
        None => Ok(st),
        Some((k, None)) => Err(CliError::Invalid),
        Some((k, Some(v))) => spec_set_opt(ArgsView { pending: None, ..st }, k, v),
    }
}

/// The argument `--`.
pub open spec fn is_escape(t: Seq<char>) -> bool {
    t.len() == 2 && t[0] == '-' && t[1] == '-'
}

/// `i` is the position of the first `=` in `s`.
pub open spec fn first_eq_at(s: Seq<char>, i: int) -> bool {
    0 <= i < s.len() && s[i] == '=' && forall|j: int| 0 <= j < i ==> s[j] != '='
}

/// The name part of a long argument body (before the first `=`).
pub open spec fn long_name(body: Seq<char>) -> Seq<char> {
    if exists|i: int| first_eq_at(body, i) {
        body.take(choose|i: int| first_eq_at(body, i))
    } else {
        body
    }
}

/// The attached value of a long argument body (after the first `=`), if any.
pub open spec fn long_value(body: Seq<char>) -> Option<Seq<char>> {
    if exists|i: int| first_eq_at(body, i) {
        Some(body.skip((choose|i: int| first_eq_at(body, i)) + 1))
    } else {
        None
    }
}

pub open spec fn spec_long_arg(name: Seq<char>) -> LongArg {
    if name == "auth-token"@ {
        LongArg::Opt(OptArg::AuthToken)
    } else if name == "port"@ {
        LongArg::Opt(OptArg::Port)
    } else if name == "upload-dir"@ {
        LongArg::Opt(OptArg::UploadDir)
    } else if name == "ssl"@ {
        LongArg::Ssl
    } else if name == "help"@ {
        LongArg::Help
    } else if name == "version"@ {
        LongArg::Version
    } else {
        LongArg::Unknown
    }
}

/// Reading one argument `t` (other than `--`).
pub open spec fn spec_step(st: ArgsView, t: Seq<char>) -> Result<ArgsView, CliError> {
    if t.len() >= 2 && t[0] == '-' && t[1] == '-' {
        let body = t.skip(2);
        let value = long_value(body);
        match spec_long_arg(long_name(body)) {
            LongArg::Opt(k) => match spec_resolve(st) {
                Err(e) => Err(e),
                Ok(s1) => match value {
                    Some(v) => spec_set_opt(s1, k, v),
                    None => Ok(ArgsView { pending: Some((k, None)), ..s1 }),
                },
            },
            LongArg::Unknown => Err(CliError::Invalid),
            flag => if value is Some {
                Err(CliError::Invalid)
            } else {
                match spec_resolve(st) {
                    Err(e) => Err(e),
                    Ok(s1) => match flag {
                        LongArg::Ssl => if s1.ssl {
                            Err(CliError::Invalid)
                        } else {
                            Ok(ArgsView { ssl: true, ..s1 })
                        },
                        LongArg::Help => Err(CliError::DisplayHelp),
                        _ => Err(CliError::DisplayVersion),
                    },
                }
            },
        }
    } else if t.len() >= 2 && t[0] == '-' {
        if t[1] == 'h' || t[1] == 'V' {
            match spec_resolve(st) {
                Err(e) => Err(e),
                Ok(_) => if t[1] == 'h' {
                    Err(CliError::DisplayHelp)
                } else {
                    Err(CliError::DisplayVersion)
                },
            }
        } else {
            Err(CliError::Invalid)
        }
    } else {
        match st.pending {
            Some((k, None)) => Ok(ArgsView { pending: Some((k, Some(t))), ..st }),
            _ => Err(CliError::Invalid),
        }
    }
}

/// Reading the arguments `toks` one after the other; after `--` nothing may follow.
pub open spec fn spec_run(st: ArgsView, toks: Seq<Seq<char>>) -> Result<ArgsView, CliError>
    decreases toks.len(),
{
    if toks.len() == 0 {
        spec_resolve(st)
    } else if is_escape(toks[0]) {
        if toks.len() > 1 {
            Err(CliError::Invalid)
        } else {
            spec_resolve(st)
        }
    } else {
        match spec_step(st, toks[0]) {
            Err(e) => Err(e),
            Ok(s1) => spec_run(s1, toks.skip(1)),
        }
    }
}

/// The settings that the command line `args` (program name first) gives,
/// with `default_dir` as the upload directory when none is named.
pub open spec fn spec_parse_cli(args: Seq<Seq<char>>, default_dir: Seq<char>) -> Result<CliView, CliError> {
    let toks = if args.len() > 0 { args.skip(1) } else { args };
    match spec_run(initial_args(), toks) {
        Err(e) => Err(e),
        Ok(st) => match st.auth_token {
            None => Err(CliError::Invalid),
            Some(a) => Ok(CliView {
                ssl: st.ssl,
                auth_token: a,
                port: match st.port { Some(p) => p, None => DEFAULT_PORT },
                upload_dir: match st.upload_dir { Some(d) => d, None => default_dir },
            }),
        },
    }
}

pub open spec fn strings_view(v: Seq<String>) -> Seq<Seq<char>> {
    v.map_values(|s: String| s@)
}

/// Argument `t` is the long argument `--<name>`, alone or with `=value`.
pub open spec fn names_long(t: Seq<char>, name: Seq<char>) -> bool {
    t.len() > 2 && t[0] == '-' && t[1] == '-' && long_name(t.skip(2)) == name
}

/// Some argument of `toks` is the long argument `--<name>`.
pub open spec fn some_names(toks: Seq<Seq<char>>, name: Seq<char>) -> bool {
    exists|i: int| 0 <= i < toks.len() && names_long(#[trigger] toks[i], name)
}

/// The long name of the option `k`.
pub open spec fn opt_name(k: OptArg) -> Seq<char> {
    match k {
        OptArg::AuthToken => "auth-token"@,
        OptArg::Port => "port"@,
        OptArg::UploadDir => "upload-dir"@,
    }
}

/// Option `k` has a value in `st`, or is waiting for one.
pub open spec fn opt_seen(st: ArgsView, k: OptArg) -> bool {
    (match k {
        OptArg::AuthToken => st.auth_token is Some,
        OptArg::Port => st.port is Some,
        OptArg::UploadDir => st.upload_dir is Some,
    }) || (st.pending matches Some((p, _)) && p == k)
}

proof fn lemma_long_arg_names(name: Seq<char>)
    ensures
        spec_long_arg(name) matches LongArg::Opt(k) ==> name == opt_name(k),
        spec_long_arg(name) == LongArg::Ssl ==> name == "ssl"@,
{
}

proof fn lemma_resolve_keeps_seen(st: ArgsView, k: OptArg)
    ensures
        spec_resolve(st) matches Ok(s1) ==> (opt_seen(s1, k) ==> opt_seen(st, k)) && s1.ssl == st.ssl,
{
}

proof fn lemma_set_opt_seen(st: ArgsView, k2: OptArg, v: Seq<char>, k: OptArg)
    ensures
        spec_set_opt(st, k2, v) matches Ok(s1) ==> (opt_seen(s1, k) ==> opt_seen(st, k) || k == k2)
            && s1.ssl == st.ssl,
{
}

proof fn lemma_step_seen(st: ArgsView, t: Seq<char>, k: OptArg)
    ensures
        spec_step(st, t) matches Ok(s1) ==> {
            &&& opt_seen(s1, k) ==> opt_seen(st, k) || names_long(t, opt_name(k))
            &&& s1.ssl ==> st.ssl || names_long(t, "ssl"@)
        },
{
    lemma_resolve_keeps_seen(st, k);
    if t.len() >= 2 && t[0] == '-' && t[1] == '-' {
        let body = t.skip(2);
        lemma_long_arg_names(long_name(body));
        if t.len() == 2 {
            assert(long_name(body).len() == 0);
            reveal_strlit("auth-token");
            reveal_strlit("port");
            reveal_strlit("upload-dir");
            reveal_strlit("ssl");
            reveal_strlit("help");
            reveal_strlit("version");
            assert(spec_long_arg(long_name(body)) == LongArg::Unknown);
        }
        if let Ok(s1) = spec_resolve(st) {
            if let LongArg::Opt(k2) = spec_long_arg(long_name(body)) {
                if let Some(v) = long_value(body) {
                    lemma_set_opt_seen(s1, k2, v, k);
                }
            }
        }
    }
}

proof fn lemma_run_seen(st: ArgsView, toks: Seq<Seq<char>>, k: OptArg)
    ensures
        spec_run(st, toks) matches Ok(s2) ==> {
            &&& opt_seen(s2, k) ==> opt_seen(st, k) || some_names(toks, opt_name(k))
            &&& s2.ssl ==> st.ssl || some_names(toks, "ssl"@)
        },
    decreases toks.len(),
{
    lemma_resolve_keeps_seen(st, k);
    if toks.len() > 0 && !is_escape(toks[0]) {
        lemma_step_seen(st, toks[0], k);
        if let Ok(s1) = spec_step(st, toks[0]) {
            lemma_run_seen(s1, toks.skip(1), k);
            if spec_run(s1, toks.skip(1)) is Ok {
                if some_names(toks.skip(1), opt_name(k)) {
                    let i = choose|i: int| 0 <= i < toks.skip(1).len() && names_long(#[trigger] toks.skip(1)[i], opt_name(k));
                    assert(toks[i + 1] == toks.skip(1)[i]);
                }
                if some_names(toks.skip(1), "ssl"@) {
                    let i = choose|i: int| 0 <= i < toks.skip(1).len() && names_long(#[trigger] toks.skip(1)[i], "ssl"@);
                    assert(toks[i + 1] == toks.skip(1)[i]);
                }
                assert(names_long(toks[0], opt_name(k)) ==> some_names(toks, opt_name(k)));
                assert(names_long(toks[0], "ssl"@) ==> some_names(toks, "ssl"@));
            }
        }
    }
}

/// The arguments after the program name.
pub open spec fn cli_tokens(args: Seq<Seq<char>>) -> Seq<Seq<char>> {
    if args.len() > 0 { args.skip(1) } else { args }
}

/// Settings come only from a command line that names `--auth-token`; an
/// option that is not named takes its default: no TLS, port 4902 and the
/// default upload directory.
pub proof fn law_cli_required_and_defaults(args: Seq<Seq<char>>, default_dir: Seq<char>)
    ensures
        spec_parse_cli(args, default_dir) is Ok ==> some_names(cli_tokens(args), "auth-token"@),
        spec_parse_cli(args, default_dir) matches Ok(v) ==> {
            &&& !some_names(cli_tokens(args), "ssl"@) ==> !v.ssl
            &&& !some_names(cli_tokens(args), "port"@) ==> v.port == DEFAULT_PORT
            &&& !some_names(cli_tokens(args), "upload-dir"@) ==> v.upload_dir == default_dir
        },
{
    let toks = cli_tokens(args);
    lemma_run_seen(initial_args(), toks, OptArg::AuthToken);
    lemma_run_seen(initial_args(), toks, OptArg::Port);
    lemma_run_seen(initial_args(), toks, OptArg::UploadDir);
}

/// A reading that holds a token keeps it to the end.
proof fn lemma_run_keeps_token(st: ArgsView, toks: Seq<Seq<char>>, a: Seq<char>)
    requires
        st.auth_token == Some(a),
    ensures
        spec_run(st, toks) matches Ok(fin) ==> fin.auth_token == Some(a),
    decreases toks.len(),
{
    if toks.len() > 0 && !is_escape(toks[0]) {
        if let Ok(s1) = spec_step(st, toks[0]) {
            assert(s1.auth_token == Some(a));
            lemma_run_keeps_token(s1, toks.skip(1), a);
        }
    }
}

/// A token waiting only to be checked becomes the reading's token.
proof fn lemma_run_settles_token(st: ArgsView, toks: Seq<Seq<char>>, t: Seq<char>)
    requires
        st.pending == Some((OptArg::AuthToken, Some(t))),
    ensures
        spec_run(st, toks) matches Ok(fin) ==> fin.auth_token == Some(t),
    decreases toks.len(),
{
    if toks.len() > 0 && !is_escape(toks[0]) {
        if let Ok(s1) = spec_step(st, toks[0]) {
            assert(s1.auth_token == Some(t));
            lemma_run_keeps_token(s1, toks.skip(1), t);
        }
    }
}

/// Reading the first `j` arguments leaves some state from which the rest is read.
proof fn lemma_run_prefix(st: ArgsView, toks: Seq<Seq<char>>, j: int) -> (st2: ArgsView)
    requires
        0 <= j < toks.len(),
        spec_run(st, toks) is Ok,
    ensures
        spec_run(st, toks) == spec_run(st2, toks.skip(j)),
    decreases j,
{
    if j == 0 {
        assert(toks.skip(0) =~= toks);
        st
    } else {
        assert(!is_escape(toks[0]));
        let s1 = spec_step(st, toks[0])->Ok_0;
        assert(toks.skip(1).skip(j - 1) =~= toks.skip(j));
        lemma_run_prefix(s1, toks.skip(1), j - 1)
    }
}

/// The body `auth-token=<t>` names the option `auth-token` with value `t`.
proof fn lemma_auth_token_body(t: Seq<char>)
    ensures
        long_name("auth-token"@ + seq!['='] + t) == "auth-token"@,
        long_value("auth-token"@ + seq!['='] + t) == Some(t),
        long_name("auth-token"@) == "auth-token"@,
        long_value("auth-token"@) is None,
{
    reveal_strlit("auth-token");
    let body = "auth-token"@ + seq!['='] + t;
    assert(first_eq_at(body, 10));
    assert forall|i: int| first_eq_at(body, i) implies i == 10 by {
        if i < 10 {
            assert(body[i] == "auth-token"@[i]);
        }
    }
    assert(body.take(10) =~= "auth-token"@);
    assert(body.skip(11) =~= t);
    assert forall|i: int| !first_eq_at("auth-token"@, i) by {
        if 0 <= i < 10 {
            assert("auth-token"@[i] != '=');
        }
    }
}

/// The token is the `--auth-token` value as given: when a command line
/// parses and holds the argument `--auth-token` followed by `t`, or the
/// argument `--auth-token=t`, the settings' token is `t`, character for
/// character, whatever its length.
pub proof fn law_auth_token_as_given(args: Seq<Seq<char>>, default_dir: Seq<char>, i: int, t: Seq<char>)
    requires
        1 <= i < args.len(),
        (args[i] == "--auth-token"@ && i + 1 < args.len() && args[i + 1] == t) || args[i] == "--auth-token="@
            + t,
        spec_parse_cli(args, default_dir) is Ok,
    ensures
        spec_parse_cli(args, default_dir)->Ok_0.auth_token == t,
{
    reveal_strlit("--auth-token");
    reveal_strlit("--auth-token=");
    reveal_strlit("auth-token");
    lemma_auth_token_body(t);
    let toks = args.skip(1);
    assert(spec_run(initial_args(), toks) is Ok);
    let st2 = lemma_run_prefix(initial_args(), toks, i - 1);
    let toks2 = toks.skip(i - 1);
    assert(toks2[0] == args[i]);
    assert(!is_escape(toks2[0]));
    let s1 = spec_step(st2, toks2[0])->Ok_0;
    if args[i] == "--auth-token"@ && i + 1 < args.len() && args[i + 1] == t {
        assert(toks2[0].skip(2) =~= "auth-token"@);
        let rest = toks2.skip(1);
        assert(rest[0] == t);
        assert(s1.pending == Some((OptArg::AuthToken, None::<Seq<char>>)));
        assert(spec_run(st2, toks2) == spec_run(s1, rest));
        assert(spec_run(s1, rest) is Ok);
        assert(spec_resolve(s1) is Err);
        if is_escape(t) {
            assert(spec_run(s1, rest) is Err);
        } else {
            assert(spec_step(s1, t) is Ok);
            let s3 = spec_step(s1, t)->Ok_0;
            assert(spec_run(s1, rest) == spec_run(s3, rest.skip(1)));
            assert(s3.pending == Some((OptArg::AuthToken, Some(t))));
            lemma_run_settles_token(s3, rest.skip(1), t);
        }
    } else {
        assert(toks2[0].skip(2) =~= "auth-token"@ + seq!['='] + t);
        assert(s1.auth_token == Some(t));
        lemma_run_keeps_token(s1, toks2.skip(1), t);
    }
}

pub open spec fn opt_view(o: Option<String>) -> Option<Seq<char>> {
    match o {
        Some(s) => Some(s@),
        None => None,
    }
}

/// An option waiting for (or holding) its value.
struct Pending {
    opt: OptArg,
    value: Option<String>,
}

/// The executable counterpart of [`ArgsView`].
struct ArgState {
    ssl: bool,
    auth_token: Option<String>,
    port: Option<u16>,
    upload_dir: Option<String>,
    pending: Option<Pending>,
}

impl ArgState {
    spec fn view(&self) -> ArgsView {
        ArgsView {
            ssl: self.ssl,
            auth_token: opt_view(self.auth_token),
            port: self.port,
            upload_dir: opt_view(self.upload_dir),
            pending: match self.pending {
                Some(p) => Some((p.opt, opt_view(p.value))),
                None => None,
            },
        }
    }
}

spec fn result_view(r: Result<ArgState, CliError>) -> Result<ArgsView, CliError> {
    match r {
        Ok(s) => Ok(s.view()),
        Err(e) => Err(e),
    }
}

/// Reads a `--port` value.
fn parse_port(v: &str) -> (r: Option<u16>)
    ensures
        r == spec_parse_port(v@),
{
    let n = v.unicode_len();
    let first = if n > 0 { v.get_char(0) } else { ' ' };
    let negative = n > 0 && first == '-';
    let start: usize = if negative || (n > 0 && first == '+') { 1 } else { 0 };
    assert(v@.skip(0) =~= v@);
    match decimal_from(v, start, 65535) {
        Some(value) => if negative && value != 0 {
            None
        } else {
            Some(value as u16)
        },
        None => None,
    }
}

fn set_opt(st: ArgState, k: OptArg, v: String) -> (r: Result<ArgState, CliError>)
    ensures
        result_view(r) == spec_set_opt(st.view(), k, v@),
{
    let mut st = st;
    match k {
        OptArg::AuthToken => {
            if st.auth_token.is_some() {
                return Err(CliError::Invalid);
            }
            st.auth_token = Some(v);
        },
        OptArg::Port => {
            if st.port.is_some() {
                return Err(CliError::Invalid);
            }
            match parse_port(v.as_str()) {
                Some(p) => st.port = Some(p),
                None => return Err(CliError::Invalid),
            }
        },
        OptArg::UploadDir => {
            if st.upload_dir.is_some() || v.unicode_len() == 0 {
                return Err(CliError::Invalid);
            }
            st.upload_dir = Some(v);
        },
    }
    Ok(st)
}

fn resolve(st: ArgState) -> (r: Result<ArgState, CliError>)
    ensures
        result_view(r) == spec_resolve(st.view()),
{
    let mut st = st;
    match st.pending.take() {
        None => Ok(st),
        Some(p) => match p.value {
            None => Err(CliError::Invalid),
            Some(v) => set_opt(st, p.opt, v),
        },
    }
}

/// The first `=` of two distinct candidate positions is one and the same.
proof fn lemma_first_eq_unique(s: Seq<char>, i: int, j: int)
    requires
        first_eq_at(s, i),
        first_eq_at(s, j),
    ensures
        i == j,
{
    if i < j {
        assert(s[i] != '=');
    } else if j < i {
        assert(s[j] != '=');
    }
}

/// Splits the body of a long argument at its first `=`.
fn split_long<'a>(body: &'a str) -> (r: (&'a str, Option<&'a str>))
    ensures
        r.0@ == long_name(body@),
        match r.1 {
            Some(v) => long_value(body@) == Some(v@),
            None => long_value(body@) is None,
        },
{
    let n = body.unicode_len();
    let mut i: usize = 0;
    while i < n
        invariant
            n == body@.len(),
            i <= n,
            forall|j: int| 0 <= j < i ==> body@[j] != '=',
        decreases n - i,
    {
        if body.get_char(i) == '=' {
            proof {
                assert(first_eq_at(body@, i as int));
                let k = choose|k: int| first_eq_at(body@, k);
                lemma_first_eq_unique(body@, i as int, k);
            }
            return (body.substring_char(0, i), Some(body.substring_char(i + 1, n)));
        }
        i = i + 1;
    }
    assert(!exists|k: int| first_eq_at(body@, k));
    assert(body@.subrange(0, n as int) =~= body@);
    (body.substring_char(0, n), None)
}

fn long_arg(name: &str) -> (r: LongArg)
    ensures
        r == spec_long_arg(name@),
{
    if same_text(name, "auth-token") {
        LongArg::Opt(OptArg::AuthToken)
    } else if same_text(name, "port") {
        LongArg::Opt(OptArg::Port)
    } else if same_text(name, "upload-dir") {
        LongArg::Opt(OptArg::UploadDir)
    } else if same_text(name, "ssl") {
        LongArg::Ssl
    } else if same_text(name, "help") {
        LongArg::Help
    } else if same_text(name, "version") {
        LongArg::Version
    } else {
        LongArg::Unknown
    }
}

fn step(st: ArgState, t: &str) -> (r: Result<ArgState, CliError>)
    ensures
        result_view(r) == spec_step(st.view(), t@),
{
    let n = t.unicode_len();
    if n >= 2 && t.get_char(0) == '-' && t.get_char(1) == '-' {
        let body = t.substring_char(2, n);
        assert(body@ =~= t@.skip(2));
        let (name, value) = split_long(body);
        match long_arg(name) {
            LongArg::Opt(k) => {
                let mut s1 = match resolve(st) {
                    Ok(s1) => s1,
                    Err(e) => return Err(e),
                };
                match value {
                    Some(v) => set_opt(s1, k, v.to_owned()),
                    None => {
                        s1.pending = Some(Pending { opt: k, value: None });
                        Ok(s1)
                    },
                }
            },
            LongArg::Unknown => Err(CliError::Invalid),
            flag => {
                if value.is_some() {
                    return Err(CliError::Invalid);
                }
                let mut s1 = match resolve(st) {
                    Ok(s1) => s1,
                    Err(e) => return Err(e),
                };
                match flag {
                    LongArg::Ssl => {
                        if s1.ssl {
                            return Err(CliError::Invalid);
                        }
                        s1.ssl = true;
                        Ok(s1)
                    },
                    LongArg::Help => Err(CliError::DisplayHelp),
                    _ => Err(CliError::DisplayVersion),
                }
            },
        }
    } else if n >= 2 && t.get_char(0) == '-' {
        let c = t.get_char(1);
        if c == 'h' || c == 'V' {
            match resolve(st) {
                Err(e) => Err(e),
                Ok(_) => if c == 'h' {
                    Err(CliError::DisplayHelp)
                } else {
                    Err(CliError::DisplayVersion)
                },
            }
        } else {
            Err(CliError::Invalid)
        }
    } else {
        let mut st = st;
        match st.pending {
            Some(Pending { opt, value: None }) => {
                st.pending = Some(Pending { opt, value: Some(t.to_owned()) });
                Ok(st)
            },
            _ => Err(CliError::Invalid),
        }
    }
}

impl Cli {
    /// Reads the command line `args` (program name first) the way the
    /// server's argument grammar defines it: `--ssl`, `--auth-token <v>`
    /// (required), `--port <u16>` (default 4902), `--upload-dir <path>`
    /// (default `default_upload_dir`), values given as the next argument or
    /// after `=`, each option at most once, plus `--help`/`-h` and
    /// `--version`/`-V`.
    pub fn try_parse_from(args: &Vec<String>, default_upload_dir: &str) -> (r: Result<Cli, CliError>)
        ensures
            match spec_parse_cli(strings_view(args@), default_upload_dir@) {
                Ok(v) => r matches Ok(c) && c.view() == v,
                Err(e) => r == Err::<Cli, CliError>(e),
            },
    {
        let ghost sv = strings_view(args@);
        let ghost toks = if sv.len() > 0 { sv.skip(1) } else { sv };
        let len = args.len();
        let mut st = ArgState { ssl: false, auth_token: None, port: None, upload_dir: None, pending: None };
        let mut i: usize = if len > 0 { 1 } else { 0 };
        assert(sv.skip(i as int) =~= toks);
        while i < len
            invariant
                len == args@.len(),
                sv == strings_view(args@),
                toks == (if sv.len() > 0 { sv.skip(1) } else { sv }),
                i <= len,
                spec_run(initial_args(), toks) == (if i < len {
                    spec_run(st.view(), sv.skip(i as int))
                } else {
                    spec_resolve(st.view())
                }),
            decreases len - i,
        {
            let t = args[i].as_str();
            let ghost rest = sv.skip(i as int);
            assert(rest[0] == t@);
            assert(rest.skip(1) =~= sv.skip(i + 1));
            let n = t.unicode_len();
            if n == 2 && t.get_char(0) == '-' && t.get_char(1) == '-' {
                if i + 1 < len {
                    return Err(CliError::Invalid);
                }
                i = len;
            } else {
                st = match step(st, t) {
                    Ok(s1) => s1,
                    Err(e) => return Err(e),
                };
                i = i + 1;
                assert(i == len ==> sv.skip(i as int).len() == 0);
            }
        }
        let st = match resolve(st) {
            Ok(s1) => s1,
            Err(e) => return Err(e),
        };
        match st.auth_token {
            None => Err(CliError::Invalid),
            Some(a) => Ok(
                Cli {
                    ssl: st.ssl,
                    auth_token: a,
                    port: match st.port {
                        Some(p) => p,
                        None => DEFAULT_PORT,
                    },
                    upload_dir: match st.upload_dir {
                        Some(d) => d,
                        None => default_upload_dir.to_owned(),
                    },
                },
            ),
        }
    }
}

} // verus!
