//! The library's command-line grammar against clap itself: the server's
//! arguments declared with clap's builder (as its derive declares them) must
//! accept, refuse and fill in exactly what `Cli::try_parse_from` does.

use std::path::PathBuf;

use clap::builder::{PathBufValueParser, RangedI64ValueParser, StringValueParser};
use clap::error::ErrorKind;
use clap::{Arg, ArgAction, Command};

use flowcase_upload_server::cli::{Cli, CliError};

const DEFAULT_DIR: &str = "/home/user/Uploads";

fn clap_command() -> Command {
    Command::new("flowcase_upload_server")
        .version("0.1.0")
        .arg(
            Arg::new("ssl")
                .long("ssl")
                .action(ArgAction::SetTrue)
                .default_value("false"),
        )
        .arg(
            Arg::new("auth_token")
                .long("auth-token")
                .required(true)
                .action(ArgAction::Set)
                .value_parser(StringValueParser::new()),
        )
        .arg(
            Arg::new("port")
                .long("port")
                .action(ArgAction::Set)
                .default_value("4902")
                .value_parser(RangedI64ValueParser::<u16>::new().range(0..=65535)),
        )
        .arg(
            Arg::new("upload_dir")
                .long("upload-dir")
                .action(ArgAction::Set)
                .default_value(DEFAULT_DIR)
                .value_parser(PathBufValueParser::new()),
        )
}

/// What clap makes of `tokens`, in the library's terms.
fn clap_reading(tokens: &[&str]) -> Result<(bool, String, u16, String), CliError> {
    let mut argv = vec!["flowcase_upload_server"];
    argv.extend_from_slice(tokens);
    match clap_command().try_get_matches_from(argv) {
        Ok(m) => Ok((
            m.get_flag("ssl"),
            m.get_one::<String>("auth_token").unwrap().clone(),
            *m.get_one::<u16>("port").unwrap(),
            m.get_one::<PathBuf>("upload_dir").unwrap().to_str().unwrap().to_string(),
        )),
        Err(e) => Err(match e.kind() {
            ErrorKind::DisplayHelp => CliError::DisplayHelp,
            ErrorKind::DisplayVersion => CliError::DisplayVersion,
            _ => CliError::Invalid,
        }),
    }
}

/// What the library makes of `tokens`.
fn library_reading(tokens: &[&str]) -> Result<(bool, String, u16, String), CliError> {
    let mut argv = vec!["flowcase_upload_server".to_string()];
    argv.extend(tokens.iter().map(|t| t.to_string()));
    Cli::try_parse_from(&argv, DEFAULT_DIR).map(|c| (c.ssl, c.auth_token, c.port, c.upload_dir))
}

fn assert_agree(tokens: &[&str]) {
    assert_eq!(
        library_reading(tokens),
        clap_reading(tokens),
        "the library and clap disagree on {:?}",
        tokens
    );
}

const WORDS: &[&str] = &[
    "--ssl",
    "--ssl=true",
    "--auth-token",
    "--auth-token=a:b",
    "--auth-token=",
    "a:b",
    "--port",
    "--port=8080",
    "--port=-0",
    "--port=",
    "8080",
    "70000",
    "+7",
    "-1",
    "--upload-dir",
    "--upload-dir=",
    "/srv/up",
    "",
    "-",
    "--",
    "-h",
    "--help",
    "--help=x",
    "-V",
    "--version",
    "--bogus",
    "-x",
];

const CORE: &[&str] = &[
    "--ssl",
    "--auth-token",
    "a:b",
    "--port",
    "8080",
    "--upload-dir",
    "/srv/up",
    "--",
    "-h",
    "",
];

#[test]
fn agrees_with_clap_on_short_command_lines() {
    assert_agree(&[]);
    for a in WORDS {
        assert_agree(&[a]);
        for b in WORDS {
            assert_agree(&[a, b]);
            for c in WORDS {
                assert_agree(&[a, b, c]);
            }
        }
    }
}

#[test]
fn agrees_with_clap_on_longer_command_lines() {
    for a in CORE {
        for b in CORE {
            for c in CORE {
                for d in CORE {
                    assert_agree(&[a, b, c, d]);
                }
            }
        }
    }
}

#[test]
fn agrees_with_clap_on_full_invocations() {
    assert_agree(&["--ssl", "--auth-token", "u:p", "--port", "443", "--upload-dir", "/data"]);
    assert_agree(&["--upload-dir=/data", "--port=0", "--auth-token=u:p=q", "--ssl"]);
    assert_agree(&["--auth-token", "u:p", "--port", "65535"]);
    assert_agree(&["--auth-token", "u:p", "--port", "65536"]);
    assert_agree(&["--auth-token", "u:p", "--port", "0004902"]);
    assert_agree(&["--auth-token", "u:p", "--auth-token", "v:q"]);
    assert_agree(&["--auth-token", "u:p", "--ssl", "--ssl"]);
    assert_agree(&["--auth-token", "u:p", "--", "extra"]);
    assert_agree(&["--auth-token", "u:p", "--port"]);
    assert_agree(&["--auth-token", "u:p", "stray"]);
}
