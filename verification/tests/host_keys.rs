//! Host keys: what is shown of them, and which are accepted.

use zed_ios::digest::{digest_text, sha256_hex};
use zed_ios::host_key::{
    host_key_prompt, HostKeyChallenge, HostKeyDecision, KeyStep, KnownHostsCheck, RusshHandler,
};

fn challenge() -> HostKeyChallenge {
    HostKeyChallenge {
        host: "example.com".into(),
        port: 2222,
        algorithm: "ssh-ed25519".into(),
        fingerprint_sha256: "SHA256:x".into(),
    }
}

#[test]
fn digests_are_written_in_hexadecimal() {
    assert_eq!(
        sha256_hex(b"abc"),
        "ba7816bf8f01cfea414140de5dae2223b00361a396177a9cb410ff61f20015ad"
    );
    assert_eq!(
        sha256_hex(b""),
        "e3b0c44298fc1c149afbf4c8996fb92427ae41e4649b934ca495991b7852b855"
    );
}

#[test]
fn challenge_tells_the_digest_of_the_key() {
    let handler = RusshHandler::new("example.com".into(), 22);
    let told = handler.challenge_for_key("ssh-ed25519", b"abc");
    assert_eq!(told.host, "example.com");
    assert_eq!(told.port, 22);
    assert_eq!(told.algorithm, "ssh-ed25519");
    assert!(told.fingerprint_sha256.contains("ba7816bf8f01cfea"));
    assert_eq!(
        handler.challenge_with_fingerprint("ssh-ed25519", told.fingerprint_sha256.clone()),
        told
    );
}

#[test]
fn changed_keys_are_refused() {
    let handler = RusshHandler::new("example.com".into(), 22);
    assert_eq!(handler.start(true, true, challenge()), KeyStep::LookUp);
    assert_eq!(
        handler.looked_up(KnownHostsCheck::KeyChanged(3), challenge()),
        KeyStep::FailKeyChanged(3)
    );
    assert_eq!(
        handler.looked_up(KnownHostsCheck::Failed, challenge()),
        KeyStep::FailKnownHosts
    );
    assert_eq!(
        handler.looked_up(KnownHostsCheck::Matches, challenge()),
        KeyStep::Accept
    );
}

#[test]
fn unknown_keys_are_asked_about() {
    let handler = RusshHandler::new("example.com".into(), 22);
    assert_eq!(
        handler.start(true, false, challenge()),
        KeyStep::Ask { challenge: challenge(), create_directory: true }
    );
    assert_eq!(
        handler.looked_up(KnownHostsCheck::Unknown, challenge()),
        KeyStep::Ask { challenge: challenge(), create_directory: false }
    );
    assert_eq!(
        handler.decided(Some(HostKeyDecision::TrustAndSave), true),
        KeyStep::SaveAndAccept { create_directory: true }
    );
    assert_eq!(
        handler.decided(Some(HostKeyDecision::Cancel), false),
        KeyStep::Reject
    );
    assert_eq!(handler.decided(None, false), KeyStep::FailDisconnected);
}

#[test]
fn prompt_names_server_and_key() {
    let prompt = host_key_prompt(&challenge());
    assert_eq!(
        prompt.server,
        "The server example.com:2222 presented an unknown SSH host key."
    );
    assert_eq!(prompt.algorithm, "Algorithm: ssh-ed25519");
    assert_eq!(prompt.fingerprint, "SHA-256: SHA256:x");
}

#[test]
fn digests_are_written_in_small_letters() {
    assert_eq!(digest_text(&[0x00, 0x0f, 0xa0, 0xff]), "000fa0ff");
    assert_eq!(digest_text(&[]), "");
}
