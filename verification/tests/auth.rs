use base64::engine::general_purpose::STANDARD as B64;
use base64::Engine;

use flowcase_upload_server::auth::{authorize_decoded, basic_credentials_of, require_basic_auth, AuthOutcome};
use flowcase_upload_server::Reply;

const TOKEN: &str = "user:pass";

fn verdict(header: Option<&str>) -> AuthOutcome {
    require_basic_auth(header.map(|h| h.as_bytes()), TOKEN)
}

#[test]
fn no_auth_header_is_403() {
    let outcome = require_basic_auth(None, TOKEN);
    let reply = outcome.rejection().expect("refused");
    assert_eq!(reply.status, 403);
    assert_eq!(reply.body, "Access Denied!");
}

#[test]
fn wrong_token_is_403() {
    let bad = B64.encode(b"user:WRONG");
    let reply = verdict(Some(&format!("Basic {bad}"))).rejection().expect("refused");
    assert_eq!(reply.status, 403);
    assert_eq!(reply.body, "Access Denied!");
}

#[test]
fn correct_token_passes_through() {
    let good = B64.encode(b"user:pass");
    let outcome = verdict(Some(&format!("Basic {good}")));
    assert_eq!(outcome, AuthOutcome::Authorized);
    assert_eq!(outcome.rejection(), None);
}

#[test]
fn malformed_base64_returns_decode_failure() {
    let reply = verdict(Some("Basic !!!not-base64!!!")).rejection().expect("refused");
    assert_eq!(reply.status, 403);
    assert_eq!(reply.body, "Failed to decode auth 1");
}

#[test]
fn non_basic_scheme_is_403() {
    let reply = verdict(Some("Bearer something")).rejection().expect("refused");
    assert_eq!(reply, Reply { status: 403, body: "Access Denied!" });
}

#[test]
fn credentials_are_trimmed() {
    let good = B64.encode(b"user:pass");
    assert_eq!(verdict(Some(&format!("Basic  \t{good} \t"))), AuthOutcome::Authorized);
    assert_eq!(basic_credentials_of(b"Basic  ab \t").unwrap(), b"ab".to_vec());
}

#[test]
fn scheme_is_case_sensitive_and_needs_its_space() {
    let good = B64.encode(b"user:pass");
    assert_eq!(verdict(Some(&format!("basic {good}"))), AuthOutcome::AccessDenied);
    assert_eq!(verdict(Some(&format!("Basic{good}"))), AuthOutcome::AccessDenied);
    assert_eq!(verdict(Some("Basic")), AuthOutcome::AccessDenied);
}

#[test]
fn non_text_header_is_denied() {
    let good = B64.encode(b"user:pass");
    let mut bytes = format!("Basic {good}").into_bytes();
    bytes.push(0x80);
    assert_eq!(require_basic_auth(Some(&bytes), TOKEN), AuthOutcome::AccessDenied);
    assert_eq!(require_basic_auth(Some(b"Basic \x7f"), TOKEN), AuthOutcome::AccessDenied);
}

#[test]
fn empty_credentials_decode_to_empty_token() {
    assert_eq!(require_basic_auth(Some(b"Basic "), ""), AuthOutcome::Authorized);
    assert_eq!(require_basic_auth(Some(b"Basic "), TOKEN), AuthOutcome::AccessDenied);
}

#[test]
fn decoded_bytes_are_read_as_latin1() {
    // 0xE9 is 'é' in ISO-8859-1.
    let creds = B64.encode([b'u', b':', 0xE9]);
    assert_eq!(require_basic_auth(Some(format!("Basic {creds}").as_bytes()), "u:é"), AuthOutcome::Authorized);
    assert_eq!(authorize_decoded(Some(&[0xE9]), "é"), AuthOutcome::Authorized);
    assert_eq!(authorize_decoded(Some("é".as_bytes()), "é"), AuthOutcome::AccessDenied);
    assert_eq!(authorize_decoded(None, "é"), AuthOutcome::DecodeFailed);
}

#[test]
fn padding_must_be_canonical() {
    // "user:pass" encodes to 12 characters with padding; dropping it is refused.
    let good = B64.encode(b"user:pas");
    assert!(good.ends_with('='));
    let unpadded = good.trim_end_matches('=');
    assert_eq!(verdict(Some(&format!("Basic {unpadded}"))), AuthOutcome::DecodeFailed);
}
