//! Finding, checking and keeping the server program of a release.

use zed_ios::remote_connection::SshKeyAuth;
use zed_ios::remote_delegate::{
    can_trust_unsigned_remote_server_asset, check_cache, check_download, download_status_error,
    error_body, is_success_status, normalize_sha256, release_asset_url, release_version_string,
    remote_server_release_channel, required_checksum, temporary_file_name,
    temporary_file_name_with, CachePlace, CacheStep, DownloadProgress,
    HostKeyPromptError, IosRemoteClientDelegate, LookupStep, PasswordAnswer, ReleaseAsset,
    ReleaseLookup, ReleaseReply, MAX_REMOTE_SERVER_BINARY_BYTES,
};
use zed_ios::remote_platform::{ReleaseChannel, RemoteArch, RemoteOs, RemotePlatform, Version};

/// What a server answers: a status, its name, and a body.
struct Response {
    code: u16,
    status: &'static str,
    body: &'static str,
}

const NOT_FOUND: &str = "404 Not Found";
const INTERNAL_SERVER_ERROR: &str = "500 Internal Server Error";
const OK: &str = "200 OK";

fn text_member(value: &serde_json::Value, name: &str) -> Option<String> {
    value.get(name).and_then(|member| member.as_str()).map(|member| member.to_string())
}

fn reply(response: Response) -> ReleaseReply {
    if !is_success_status(response.code) {
        return ReleaseReply::Http {
            code: response.code,
            status: response.status.to_string(),
            body: error_body(response.body.as_bytes()),
        };
    }
    let value: serde_json::Value = serde_json::from_str(response.body).unwrap();
    match text_member(&value, "url") {
        Some(url) => ReleaseReply::Found(ReleaseAsset {
            url,
            version: text_member(&value, "version").unwrap_or_default(),
            sha256: text_member(&value, "sha256"),
        }),
        None => ReleaseReply::Other("missing field `url`".to_string()),
    }
}

/// Asks until there is an asset or an error, and records the addresses that were asked.
fn fetch_release_asset(
    handler: impl Fn(&str) -> Response,
    channel: &str,
    version: Option<Version>,
    os: &str,
    arch: &str,
) -> (Result<ReleaseAsset, String>, Vec<String>) {
    let mut lookup = ReleaseLookup::new(channel, version, os, arch);
    let mut requests = Vec::new();
    loop {
        let url = lookup.url();
        let response = handler(&url);
        requests.push(url);
        match lookup.answered(reply(response)) {
            LookupStep::Found(asset) => return (Ok(asset), requests),
            LookupStep::AskLatest => {}
            LookupStep::Failed(message) => return (Err(message), requests),
        }
    }
}

#[test]
fn preview_versioned_lookup_retries_latest_on_404() {
    let requested_version = Version::parse("0.229.0-preview.3+abcdef").expect("valid version");
    let (asset, requests) = fetch_release_asset(
        |uri| {
            if uri.contains("/preview/0.229.0/asset?") {
                Response { code: 404, status: NOT_FOUND, body: "missing" }
            } else if uri.contains("/preview/latest/asset?") {
                Response {
                    code: 200,
                    status: OK,
                    body: r#"{"version":"0.228.0","url":"https://example.com/zed-remote-server.gz"}"#,
                }
            } else {
                Response { code: 500, status: INTERNAL_SERVER_ERROR, body: "unexpected request" }
            }
        },
        "preview",
        Some(requested_version),
        "macos",
        "aarch64",
    );
    let asset = asset.expect("preview fallback should succeed");

    assert_eq!(asset.version, "0.228.0");
    assert_eq!(asset.url, "https://example.com/zed-remote-server.gz");
    assert_eq!(
        requests.as_slice(),
        [
            "https://cloud.zed.dev/releases/preview/0.229.0/asset?os=macos&arch=aarch64&asset=zed-remote-server",
            "https://cloud.zed.dev/releases/preview/latest/asset?os=macos&arch=aarch64&asset=zed-remote-server",
        ]
    );
}

#[test]
fn preview_versioned_lookup_does_not_retry_on_non_404_failure() {
    let requested_version = Version::parse("0.229.0").expect("valid version");
    let (asset, requests) = fetch_release_asset(
        |uri| {
            if uri.contains("/preview/0.229.0/asset?") {
                Response { code: 500, status: INTERNAL_SERVER_ERROR, body: "server error" }
            } else {
                Response { code: 200, status: OK, body: "{}" }
            }
        },
        "preview",
        Some(requested_version),
        "macos",
        "aarch64",
    );
    let error = asset.expect_err("preview 500 should not retry");

    assert!(error.contains("HTTP 500 Internal Server Error"));
    assert_eq!(requests.len(), 1);
}

#[test]
fn stable_lookup_does_not_retry_on_404() {
    let requested_version = Version::parse("0.229.0").expect("valid version");
    let (asset, requests) = fetch_release_asset(
        |uri| {
            if uri.contains("/stable/0.229.0/asset?") {
                Response { code: 404, status: NOT_FOUND, body: "missing" }
            } else {
                Response { code: 200, status: OK, body: "{}" }
            }
        },
        "stable",
        Some(requested_version),
        "macos",
        "aarch64",
    );
    let error = asset.expect_err("stable 404 should not retry");

    assert!(error.contains("HTTP 404 Not Found"));
    assert_eq!(requests.len(), 1);
}

#[test]
fn preview_fallback_surfaces_both_errors_when_latest_also_fails() {
    let requested_version = Version::parse("0.229.0").expect("valid version");
    let (asset, requests) = fetch_release_asset(
        |uri| {
            if uri.contains("/preview/0.229.0/asset?") {
                Response { code: 404, status: NOT_FOUND, body: "missing versioned asset" }
            } else if uri.contains("/preview/latest/asset?") {
                Response {
                    code: 500,
                    status: INTERNAL_SERVER_ERROR,
                    body: "latest lookup failed",
                }
            } else {
                Response { code: 200, status: OK, body: "{}" }
            }
        },
        "preview",
        Some(requested_version),
        "macos",
        "aarch64",
    );
    let message = asset.expect_err("preview fallback failure should bubble up");

    assert!(message.contains("fallback to latest also failed"));
    assert!(message.contains("HTTP 404 Not Found"));
    assert!(message.contains("HTTP 500 Internal Server Error"));
    assert_eq!(requests.len(), 2);
}

fn asset(version: &str, sha256: Option<&str>) -> ReleaseAsset {
    ReleaseAsset {
        url: "https://example.com/a.gz".into(),
        version: version.into(),
        sha256: sha256.map(|checksum| checksum.to_string()),
    }
}

#[test]
fn addresses_name_channel_and_version() {
    let version = Version::parse("1.2.3-pre").unwrap();
    assert_eq!(release_version_string(Some(&version)), "1.2.3");
    assert_eq!(release_version_string(None), "latest");
    assert_eq!(
        release_asset_url("stable", "1.2.3", "linux", "x86_64"),
        "https://cloud.zed.dev/releases/stable/1.2.3/asset?os=linux&arch=x86_64&asset=zed-remote-server"
    );
    assert_eq!(remote_server_release_channel(ReleaseChannel::Stable), "stable");
    let platform = RemotePlatform { os: RemoteOs::Linux, arch: RemoteArch::X86_64 };
    let lookup = ReleaseLookup::for_platform(platform, ReleaseChannel::Stable, Some(version));
    assert!(lookup.url().ends_with("os=linux&arch=x86_64&asset=zed-remote-server"));
}

#[test]
fn bodies_of_errors_are_read_as_text() {
    assert_eq!(error_body(b"  gone \n"), "gone");
    assert_eq!(error_body(&[b'a', 0xff]), "a\u{fffd}");
    assert!(is_success_status(204));
    assert!(!is_success_status(304));
    assert!(download_status_error("404 Not Found").contains("404 Not Found"));
}

#[test]
fn checksums_are_read_in_any_case() {
    let upper = "BA7816BF8F01CFEA414140DE5DAE2223B00361A396177A9CB410FF61F20015AD";
    assert_eq!(normalize_sha256(upper), Some(upper.to_lowercase()));
    assert_eq!(
        normalize_sha256(&format!(" {upper}\n")),
        Some(upper.to_lowercase())
    );
    assert_eq!(normalize_sha256(&format!("sha256:{upper}")), None);
    assert_eq!(normalize_sha256("xyz"), None);
    assert!(required_checksum(&asset("1.0", Some(upper)), false).unwrap().is_some());
    assert!(required_checksum(&asset("1.0", None), false).is_err());
}

#[test]
fn only_the_listed_program_is_used() {
    let digest = Some(
        "ba7816bf8f01cfea414140de5dae2223b00361a396177a9cb410ff61f20015ad".to_string(),
    );
    assert_eq!(check_cache(None, &digest), CacheStep::Download);
    assert_eq!(check_cache(Some(b"abc"), &digest), CacheStep::Use);
    assert_eq!(check_cache(Some(b"abd"), &digest), CacheStep::Replace);
    assert_eq!(check_download(b"abc", &digest), Ok(()));
    assert!(check_download(b"abd", &digest).is_err());
    assert!(check_download(b"", &digest).is_err());
}

#[test]
fn downloads_have_a_limit() {
    let mut progress = DownloadProgress::new();
    assert_eq!(progress.received(10), Ok(()));
    assert_eq!(progress.total_bytes, 10);
    assert!(progress
        .received(MAX_REMOTE_SERVER_BINARY_BYTES as usize)
        .is_err());
}

#[test]
fn programs_are_kept_by_release_and_platform() {
    let lookup = ReleaseLookup::new("stable", None, "linux", "x86_64");
    let place = CachePlace::new(&lookup, &asset("1.2.3", None));
    assert_eq!(place.channel_directory, "stable");
    assert!(place.platform_directory.contains("linux"));
    assert!(place.file_name.contains("1.2.3"));
    assert_eq!(temporary_file_name_with("x"), ".x.tmp");
    assert_ne!(temporary_file_name(), temporary_file_name());
    assert!(!can_trust_unsigned_remote_server_asset(&ReleaseAsset {
        url: "http://example.com/a.gz".into(),
        version: "1".into(),
        sha256: None,
    }));
}

#[test]
fn delegate_answers_with_what_it_knows() {
    let knows = IosRemoteClientDelegate::new(Some("secret".into()), None);
    assert_eq!(
        knows.ask_password("Password?".into()),
        PasswordAnswer::Known("secret".into())
    );
    let key = SshKeyAuth { private_key: "k".into(), passphrase: None, display_name: None };
    let asks = IosRemoteClientDelegate::new(None, Some(key.clone()));
    assert_eq!(
        asks.ask_password("Password?".into()),
        PasswordAnswer::Prompt("Password?".into())
    );
    assert_eq!(asks.ssh_key_auth(), &Some(key));
    assert_ne!(
        HostKeyPromptError::NotShown.message(),
        HostKeyPromptError::Dismissed.message()
    );
}
