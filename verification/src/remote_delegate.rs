//! What the connection asks of the app: a password, the trust in a host key, and the
//! server program from the release list.

use crate::digest;
use crate::host_key::HostKeyChallenge;
use crate::ios_app;
use crate::remote_connection::SshKeyAuth;
use crate::remote_platform;
use crate::remote_platform::{ReleaseChannel, RemotePlatform, Version, VersionView};
use crate::text;
use vstd::prelude::*;

verus! {

/// What the release list tells of a server program.
#[derive(Clone, Debug, PartialEq, Eq)]
pub struct ReleaseAsset {
    pub url: String,
    pub version: String,
    pub sha256: Option<String>,
}

/// What the release list tells of a server program.
pub struct AssetView {
    pub url: Seq<char>,
    pub version: Seq<char>,
    pub sha256: Option<Seq<char>>,
}

impl View for ReleaseAsset {
    type V = AssetView;

    open spec fn view(&self) -> AssetView {
        AssetView {
            url: self.url@,
            version: self.version@,
            sha256: text::optional(self.sha256),
        }
    }
}

/// What came of asking the release list.
#[derive(Clone, Debug, PartialEq, Eq)]
pub enum ReleaseReply {
    Found(ReleaseAsset),
    /// The list answered with an error: its code, the code with its reason, and what it
    /// sent along.
    Http { code: u16, status: String, body: String },
    /// There was no answer that could be read.
    Other(String),
}

/// What came of asking the release list.
pub enum ReplyView {
    Found(AssetView),
    Http { code: u16, status: Seq<char>, body: Seq<char> },
    Other(Seq<char>),
}

impl View for ReleaseReply {
    type V = ReplyView;

    open spec fn view(&self) -> ReplyView {
        match self {
            ReleaseReply::Found(asset) => ReplyView::Found(asset@),
            ReleaseReply::Http { code, status, body } => ReplyView::Http {
                code: *code,
                status: status@,
                body: body@,
            },
            ReleaseReply::Other(message) => ReplyView::Other(message@),
        }
    }
}

/// Whether a status code tells success.
pub open spec fn is_success(code: u16) -> bool {
    200 <= code < 300
}

/// Whether a status code tells success.
pub fn is_success_status(code: u16) -> (yes: bool)
    ensures
        yes == is_success(code),
{
    200 <= code && code < 300
}

/// What the list sent along with an error.
pub fn error_body(bytes: &[u8]) -> (body: String)
    ensures
        body@ == text::trimmed(text::lossy_text(bytes@)),
{
    text::trim(text::text_from_utf8_lossy(bytes).as_str())
}

/// What is told of an answer that is no success, for the address that was asked.
pub open spec fn reply_error(reply: ReplyView, url: Seq<char>) -> Seq<char> {
    match reply {
        ReplyView::Http { code, status, body } => {
            let told = "Failed to fetch release info from "@ + url + ": HTTP "@ + status;
            if body.len() == 0 {
                told
            } else {
                told + ": "@ + body
            }
        },
        ReplyView::Other(message) => message,
        ReplyView::Found(_) => Seq::empty(),
    }
}

fn reply_error_text(reply: &ReleaseReply, url: &str) -> (message: String)
    ensures
        message@ == reply_error(reply@, url@),
{
    match reply {
        ReleaseReply::Http { code: _, status, body } => {
            let mut message = "Failed to fetch release info from ".to_owned();
            message.append(url);
            message.append(": HTTP ");
            message.append(status.as_str());
            if !body.as_str().is_empty() {
                message.append(": ");
                message.append(body.as_str());
            }
            message
        },
        ReleaseReply::Other(message) => message.clone(),
        ReleaseReply::Found(_) => String::new(),
    }
}

/// The version that the release list is asked for: its numbers, or the newest one.
pub open spec fn asked_version(version: Option<VersionView>) -> Seq<char> {
    match version {
        Some(version) => remote_platform::numbers_text(version),
        None => "latest"@,
    }
}

/// The contents of a version, if there is one.
pub open spec fn version_view(version: Option<Version>) -> Option<VersionView> {
    match version {
        Some(version) => Some(version@),
        None => None,
    }
}

/// The version that the release list is asked for: its numbers, or the newest one.
pub fn release_version_string(version: Option<&Version>) -> (result: String)
    ensures
        result@ == asked_version(
            match version {
                Some(version) => Some(version@),
                None => None,
            },
        ),
{
    match version {
        Some(version) => version.numbers(),
        None => "latest".to_owned(),
    }
}

/// The address at which the release list tells of a server program.
pub open spec fn asset_url(
    channel: Seq<char>,
    version: Seq<char>,
    os: Seq<char>,
    arch: Seq<char>,
) -> Seq<char> {
    "https://cloud.zed.dev/releases/"@ + channel + "/"@ + version + "/asset?os="@ + os + "&arch="@
        + arch + "&asset=zed-remote-server"@
}

/// The address at which the release list tells of a server program.
pub fn release_asset_url(channel: &str, version: &str, os: &str, arch: &str) -> (url: String)
    ensures
        url@ == asset_url(channel@, version@, os@, arch@),
{
    let mut url = "https://cloud.zed.dev/releases/".to_owned();
    url.append(channel);
    url.append("/");
    url.append(version);
    url.append("/asset?os=");
    url.append(os);
    url.append("&arch=");
    url.append(arch);
    url.append("&asset=zed-remote-server");
    url
}

/// The channel of the release list that a channel of the app uses: there are no releases of
/// builds of one's own, so they use those of the preview.
pub open spec fn listed_channel(channel: ReleaseChannel) -> ReleaseChannel {
    match channel {
        ReleaseChannel::Dev => ReleaseChannel::Preview,
        _ => channel,
    }
}

/// The name of the channel of the release list that a channel of the app uses.
pub fn remote_server_release_channel(channel: ReleaseChannel) -> (name: &'static str)
    ensures
        name@ == remote_platform::channel_name(listed_channel(channel)),
{
    match channel {
        ReleaseChannel::Dev => ReleaseChannel::Preview.dev_name(),
        _ => channel.dev_name(),
    }
}

/// A question to the release list.
#[derive(Clone, Debug, PartialEq, Eq)]
pub struct ReleaseLookup {
    pub channel: String,
    pub version: Option<Version>,
    pub os: String,
    pub arch: String,
    /// What was told of the answer for the version itself, once the newest one is asked
    /// for instead.
    pub first_error: Option<String>,
}

/// A question to the release list.
pub struct LookupView {
    pub channel: Seq<char>,
    pub version: Option<VersionView>,
    pub os: Seq<char>,
    pub arch: Seq<char>,
    pub first_error: Option<Seq<char>>,
}

impl View for ReleaseLookup {
    type V = LookupView;

    open spec fn view(&self) -> LookupView {
        LookupView {
            channel: self.channel@,
            version: version_view(self.version),
            os: self.os@,
            arch: self.arch@,
            first_error: text::optional(self.first_error),
        }
    }
}

/// The address that a question asks.
pub open spec fn lookup_url(lookup: LookupView) -> Seq<char> {
    asset_url(
        lookup.channel,
        if lookup.first_error is Some {
            "latest"@
        } else {
            asked_version(lookup.version)
        },
        lookup.os,
        lookup.arch,
    )
}

/// What follows an answer of the release list.
#[derive(Clone, Debug, PartialEq, Eq)]
pub enum LookupStep {
    Found(ReleaseAsset),
    /// Ask again, at the question's new address.
    AskLatest,
    Failed(String),
}

/// What follows an answer of the release list.
pub enum LookupStepView {
    Found(AssetView),
    AskLatest,
    Failed(Seq<char>),
}

impl View for LookupStep {
    type V = LookupStepView;

    open spec fn view(&self) -> LookupStepView {
        match self {
            LookupStep::Found(asset) => LookupStepView::Found(asset@),
            LookupStep::AskLatest => LookupStepView::AskLatest,
            LookupStep::Failed(message) => LookupStepView::Failed(message@),
        }
    }
}

/// Whether the newest release is asked for instead: only in the preview, only if a certain
/// version was asked for, and only if the list does not have it.
pub open spec fn falls_back(lookup: LookupView, reply: ReplyView) -> bool {
    &&& lookup.first_error is None
    &&& lookup.channel == "preview"@
    &&& lookup.version is Some
    &&& reply matches ReplyView::Http { code, .. } && code == 404
}

/// What follows an answer.
pub open spec fn lookup_step(lookup: LookupView, reply: ReplyView) -> LookupStepView {
    if reply is Found {
        LookupStepView::Found(reply->Found_0)
    } else if falls_back(lookup, reply) {
        LookupStepView::AskLatest
    } else {
        let told = reply_error(reply, lookup_url(lookup));
        match lookup.first_error {
            Some(first) => LookupStepView::Failed(
                "Preview remote server release lookup failed for version "@ + asked_version(
                    lookup.version,
                ) + " and fallback to latest also failed. Versioned error: "@ + first
                    + ". Latest error: "@ + told,
            ),
            None => LookupStepView::Failed(told),
        }
    }
}

/// The question after an answer.
pub open spec fn lookup_after(lookup: LookupView, reply: ReplyView) -> LookupView {
    if falls_back(lookup, reply) {
        LookupView { first_error: Some(reply_error(reply, lookup_url(lookup))), ..lookup }
    } else {
        lookup
    }
}

/// The question for the server program of a platform.
pub open spec fn lookup_for(
    platform: RemotePlatform,
    channel: ReleaseChannel,
    version: Option<VersionView>,
) -> LookupView {
    LookupView {
        channel: remote_platform::channel_name(listed_channel(channel)),
        version,
        os: remote_platform::os_name(platform.os),
        arch: remote_platform::arch_name(platform.arch),
        first_error: None,
    }
}

impl ReleaseLookup {
    /// A question for a server program.
    pub fn new(channel: &str, version: Option<Version>, os: &str, arch: &str) -> (lookup: Self)
        ensures
            lookup@ == (LookupView {
                channel: channel@,
                version: version_view(version),
                os: os@,
                arch: arch@,
                first_error: None,
            }),
    {
        ReleaseLookup {
            channel: channel.to_owned(),
            version,
            os: os.to_owned(),
            arch: arch.to_owned(),
            first_error: None,
        }
    }

    /// A question for the server program of a platform.
    pub fn for_platform(platform: RemotePlatform, channel: ReleaseChannel, version: Option<Version>) -> (lookup:
        Self)
        ensures
            lookup@ == lookup_for(platform, channel, version_view(version)),
    {
        ReleaseLookup::new(
            remote_server_release_channel(channel),
            version,
            platform.os.as_str(),
            platform.arch.as_str(),
        )
    }

    /// The address to ask.
    pub fn url(&self) -> (url: String)
        ensures
            url@ == lookup_url(self@),
    {
        let version = if self.first_error.is_some() {
            "latest".to_owned()
        } else {
            release_version_string(self.version.as_ref())
        };
        release_asset_url(
            self.channel.as_str(),
            version.as_str(),
            self.os.as_str(),
            self.arch.as_str(),
        )
    }

    /// Takes the answer for the address.
    pub fn answered(&mut self, reply: ReleaseReply) -> (step: LookupStep)
        ensures
            step@ == lookup_step(old(self)@, reply@),
            final(self)@ == lookup_after(old(self)@, reply@),
    {
        let url = self.url();
        let told = reply_error_text(&reply, url.as_str());
        let missing = match reply {
            ReleaseReply::Found(asset) => {
                return LookupStep::Found(asset);
            },
            ReleaseReply::Http { code, status: _, body: _ } => code == 404,
            ReleaseReply::Other(_) => false,
        };
        match &self.first_error {
            Some(first) => {
                let mut message =
                    "Preview remote server release lookup failed for version ".to_owned();
                message.append(release_version_string(self.version.as_ref()).as_str());
                message.append(" and fallback to latest also failed. Versioned error: ");
                message.append(first.as_str());
                message.append(". Latest error: ");
                message.append(told.as_str());
                return LookupStep::Failed(message);
            },
            None => {},
        }
        if missing && self.version.is_some() && text::same_text(self.channel.as_str(), "preview") {
            self.first_error = Some(told);
            LookupStep::AskLatest
        } else {
            LookupStep::Failed(told)
        }
    }
}

/// The release list is asked twice at the most: the answer to a question for the newest
/// release is the last one.
pub proof fn law_release_list_is_asked_twice_at_most(
    lookup: LookupView,
    first: ReplyView,
    second: ReplyView,
)
    ensures
        !(lookup_step(lookup_after(lookup, first), second) is AskLatest && lookup_step(
            lookup,
            first,
        ) is AskLatest),
{
}

/// What the release list has is used, and nothing is found that it did not tell.
pub proof fn law_found_release_was_told(lookup: LookupView, reply: ReplyView)
    ensures
        lookup_step(lookup, reply) is Found <==> reply is Found,
        reply matches ReplyView::Found(asset) ==> lookup_step(lookup, reply)
            == LookupStepView::Found(asset),
{
}

// The server program on this side.

/// How many bytes a server program may have.
pub const MAX_REMOTE_SERVER_BINARY_BYTES: u64 = 209715200;

/// Whether a server program may be used though the list tells no checksum: if it comes from
/// the project's own releases.
pub open spec fn is_trusted_source(url: Seq<char>) -> bool {
    "https://github.com/zed-industries/zed/releases/download/"@.is_prefix_of(url)
}

/// Whether a server program may be used though the list tells no checksum.
pub fn can_trust_unsigned_remote_server_asset(asset: &ReleaseAsset) -> (yes: bool)
    ensures
        yes == is_trusted_source(asset@.url),
{
    text::starts_with(
        asset.url.as_str(),
        "https://github.com/zed-industries/zed/releases/download/",
    )
}

/// Whether a character is a hexadecimal digit.
pub open spec fn is_hex_digit(c: char) -> bool {
    text::is_digit(c) || 'a' <= c <= 'f' || 'A' <= c <= 'F'
}

/// The checksum that a text tells, in lower case: 64 hexadecimal digits.
pub open spec fn checksum_in(raw: Seq<char>) -> Option<Seq<char>> {
    let normalized = text::ascii_lowered(text::trimmed(raw));
    if normalized.len() == 64 && forall|i: int|
        0 <= i < normalized.len() ==> is_hex_digit(#[trigger] normalized[i]) {
        Some(normalized)
    } else {
        None
    }
}

/// The checksum that a text tells, in lower case: 64 hexadecimal digits.
pub fn normalize_sha256(raw: &str) -> (checksum: Option<String>)
    ensures
        text::optional(checksum) == checksum_in(raw@),
{
    let normalized = text::to_ascii_lower(text::trim(raw).as_str());
    let chars = text::chars_of(normalized.as_str());
    if chars.len() != 64 {
        return None;
    }
    let mut i: usize = 0;
    while i < chars.len()
        invariant
            chars@ == normalized@,
            normalized@ == text::ascii_lowered(text::trimmed(raw@)),
            i <= chars@.len(),
            forall|j: int| 0 <= j < i ==> is_hex_digit(#[trigger] normalized@[j]),
        decreases chars@.len() - i,
    {
        let c = chars[i];
        if !('0' <= c && c <= '9' || 'a' <= c && c <= 'f' || 'A' <= c && c <= 'F') {
            assert(!is_hex_digit(normalized@[i as int]));
            return None;
        }
        i = i + 1;
    }
    Some(normalized)
}

/// The checksum that an asset must have, if the list tells a valid one.
pub open spec fn expected_checksum(asset: AssetView) -> Option<Seq<char>> {
    match asset.sha256 {
        Some(raw) => checksum_in(raw),
        None => None,
    }
}

/// What is told if there is no checksum and no other ground to trust the asset.
pub open spec fn unsigned_refusal() -> Seq<char> {
    "Remote server metadata is missing a valid SHA-256 checksum; refusing unsigned download. Set ZED_IOS_ALLOW_UNSIGNED_REMOTE_SERVER=1 to override for local development."@
}

/// The checksum that an asset must have: none only if it needs none, because that was
/// allowed or because it comes from the project's own releases.
pub open spec fn checksum_needed(asset: AssetView, unsigned_allowed: bool) -> Result<
    Option<Seq<char>>,
    Seq<char>,
> {
    match expected_checksum(asset) {
        Some(expected) => Ok(Some(expected)),
        None => if unsigned_allowed || is_trusted_source(asset.url) {
            Ok(None)
        } else {
            Err(unsigned_refusal())
        },
    }
}

/// The checksum that an asset must have: none only if it needs none, because that was
/// allowed or because it comes from the project's own releases.
pub fn required_checksum(asset: &ReleaseAsset, unsigned_allowed: bool) -> (result: Result<
    Option<String>,
    String,
>)
    ensures
        match (result, checksum_needed(asset@, unsigned_allowed)) {
            (Ok(checksum), Ok(needed)) => text::optional(checksum) == needed,
            (Err(message), Err(refusal)) => message@ == refusal,
            _ => false,
        },
{
    let expected = match &asset.sha256 {
        Some(raw) => normalize_sha256(raw.as_str()),
        None => None,
    };
    if expected.is_none() && !unsigned_allowed && !can_trust_unsigned_remote_server_asset(asset) {
        return Err(
            "Remote server metadata is missing a valid SHA-256 checksum; refusing unsigned download. Set ZED_IOS_ALLOW_UNSIGNED_REMOTE_SERVER=1 to override for local development.".to_owned(),
        );
    }
    Ok(expected)
}

/// Where a server program is kept on this side, below the directory for them.
#[derive(Clone, Debug, PartialEq, Eq)]
pub struct CachePlace {
    pub channel_directory: String,
    pub platform_directory: String,
    pub file_name: String,
}

/// Where a server program is kept: in a directory for its channel, in one for its platform, under
/// its version.
pub open spec fn kept_at(lookup: LookupView, asset: AssetView) -> (Seq<char>, Seq<char>, Seq<char>) {
    (lookup.channel, lookup.os + "-"@ + lookup.arch, asset.version + ".gz"@)
}

impl CachePlace {
    /// The place of an asset.
    pub fn new(lookup: &ReleaseLookup, asset: &ReleaseAsset) -> (place: Self)
        ensures
            (place.channel_directory@, place.platform_directory@, place.file_name@) == kept_at(
                lookup@,
                asset@,
            ),
    {
        let mut platform_directory = lookup.os.clone();
        platform_directory.append("-");
        platform_directory.append(lookup.arch.as_str());
        CachePlace {
            channel_directory: lookup.channel.clone(),
            platform_directory,
            file_name: text::concat(asset.version.as_str(), ".gz"),
        }
    }
}

/// The name of the file that a download is written to at first.
pub open spec fn temporary_name(id: Seq<char>) -> Seq<char> {
    "."@ + id + ".tmp"@
}

/// The name of the file that a download is written to at first, with a fresh identifier.
pub fn temporary_file_name_with(id: &str) -> (name: String)
    ensures
        name@ == temporary_name(id@),
{
    let mut name = ".".to_owned();
    name.append(id);
    name.append(".tmp");
    name
}

/// The name of the file that a download is written to at first.
pub fn temporary_file_name() -> (name: String)
    ensures
        exists|id: Seq<char>| name@ == #[trigger] temporary_name(id) && ios_app::is_random_uuid(id),
{
    let id = ios_app::random_uuid();
    temporary_file_name_with(id.as_str())
}

/// What to do with the file that is already kept, if there is one.
#[derive(Clone, Copy, Debug, PartialEq, Eq, Structural)]
pub enum CacheStep {
    Use,
    /// Remove it, and download the program.
    Replace,
    Download,
}

/// What to do with the file that is already kept: it is used if it has the checksum that it
/// must have, or if it needs none and is not empty.
pub open spec fn cache_step_for(
    kept: Option<Seq<u8>>,
    digest: Seq<char>,
    expected: Option<Seq<char>>,
) -> CacheStep {
    match kept {
        None => CacheStep::Download,
        Some(data) => if data.len() == 0 {
            CacheStep::Replace
        } else {
            match expected {
                Some(expected) => if digest == expected {
                    CacheStep::Use
                } else {
                    CacheStep::Replace
                },
                None => CacheStep::Use,
            }
        },
    }
}

/// What to do with the file that is already kept, given its digest.
pub fn cache_decision(kept: Option<&[u8]>, digest: &str, expected: &Option<String>) -> (step:
    CacheStep)
    ensures
        step == cache_step_for(
            match kept {
                Some(data) => Some(data@),
                None => None,
            },
            digest@,
            text::optional(*expected),
        ),
{
    match kept {
        None => CacheStep::Download,
        Some(data) => if data.len() == 0 {
            CacheStep::Replace
        } else {
            match expected {
                Some(expected) => if text::same_text(digest, expected.as_str()) {
                    CacheStep::Use
                } else {
                    CacheStep::Replace
                },
                None => CacheStep::Use,
            }
        },
    }
}

/// What to do with the file that is already kept.
pub open spec fn step_for_kept(kept: Option<Seq<u8>>, expected: Option<Seq<char>>) -> CacheStep {
    match kept {
        Some(data) => cache_step_for(Some(data), digest::hex(digest::sha256(data)), expected),
        None => CacheStep::Download,
    }
}

/// What to do with the file that is already kept.
pub fn check_cache(kept: Option<&[u8]>, expected: &Option<String>) -> (step: CacheStep)
    ensures
        step == step_for_kept(
            match kept {
                Some(data) => Some(data@),
                None => None,
            },
            text::optional(*expected),
        ),
{
    match kept {
        Some(data) => {
            let digest_of_file = digest::sha256_hex(data);
            cache_decision(Some(data), digest_of_file.as_str(), expected)
        },
        None => CacheStep::Download,
    }
}

/// What is told if the download fails with a status.
pub fn download_status_error(status: &str) -> (message: String)
    ensures
        message@ == "Failed to download remote server: HTTP "@ + status@,
{
    text::concat("Failed to download remote server: HTTP ", status)
}

/// How much of a server program was downloaded.
#[derive(Clone, Copy, Debug, PartialEq, Eq, Structural)]
pub struct DownloadProgress {
    pub total_bytes: u64,
}

/// How many bytes were downloaded once more came, if there are not more than there may be.
pub open spec fn total_after(total: int, read: int) -> Option<int> {
    if total + read <= MAX_REMOTE_SERVER_BINARY_BYTES {
        Some(total + read)
    } else {
        None
    }
}

impl DownloadProgress {
    /// Nothing yet.
    pub fn new() -> (progress: Self)
        ensures
            progress.total_bytes == 0,
    {
        DownloadProgress { total_bytes: 0 }
    }

    /// Notes that bytes came; an error once there are more than there may be.
    pub fn received(&mut self, read: usize) -> (result: Result<(), String>)
        requires
            old(self).total_bytes <= MAX_REMOTE_SERVER_BINARY_BYTES,
        ensures
            match total_after(old(self).total_bytes as int, read as int) {
                Some(total) => result is Ok && final(self).total_bytes == total,
                None => {
                    &&& result is Err
                    &&& result->Err_0@
                        == "Remote server binary exceeded size limit (209715200 bytes)."@
                    &&& *final(self) == *old(self)
                },
            },
    {
        if read as u64 > MAX_REMOTE_SERVER_BINARY_BYTES - self.total_bytes {
            return Err(
                "Remote server binary exceeded size limit (209715200 bytes).".to_owned(),
            );
        }
        self.total_bytes = self.total_bytes + read as u64;
        Ok(())
    }
}

/// What is wrong with a server program that was downloaded, if anything is.
pub open spec fn download_fault(
    length: nat,
    digest: Seq<char>,
    expected: Option<Seq<char>>,
) -> Option<Seq<char>> {
    if length == 0 {
        Some("Downloaded remote server binary is empty"@)
    } else {
        match expected {
            Some(expected) => if digest == expected {
                None
            } else {
                Some(
                    "Remote server checksum mismatch (expected "@ + expected + ", got "@ + digest
                        + ")"@,
                )
            },
            None => None,
        }
    }
}

/// Checks a server program that was downloaded, given its digest.
pub fn check_digest(length: usize, digest: &str, expected: &Option<String>) -> (result: Result<
    (),
    String,
>)
    ensures
        match (result, download_fault(length as nat, digest@, text::optional(*expected))) {
            (Ok(()), None) => true,
            (Err(message), Some(fault)) => message@ == fault,
            _ => false,
        },
{
    if length == 0 {
        return Err("Downloaded remote server binary is empty".to_owned());
    }
    match expected {
        Some(expected) => if text::same_text(digest, expected.as_str()) {
            Ok(())
        } else {
            let mut message = "Remote server checksum mismatch (expected ".to_owned();
            message.append(expected.as_str());
            message.append(", got ");
            message.append(digest);
            message.append(")");
            Err(message)
        },
        None => Ok(()),
    }
}

/// Checks a server program that was downloaded.
pub fn check_download(data: &[u8], expected: &Option<String>) -> (result: Result<(), String>)
    ensures
        match (
            result,
            download_fault(
                data@.len(),
                digest::hex(digest::sha256(data@)),
                text::optional(*expected),
            ),
        ) {
            (Ok(()), None) => true,
            (Err(message), Some(fault)) => message@ == fault,
            _ => false,
        },
{
    check_digest(data.len(), digest::sha256_hex(data).as_str(), expected)
}

/// A server program is installed or used only if it has the checksum that the release list
/// told, wherever it told a valid one.
pub proof fn law_only_the_listed_program_is_used(
    asset: AssetView,
    data: Seq<u8>,
    digest: Seq<char>,
)
    requires
        expected_checksum(asset) is Some,
    ensures
        download_fault(data.len(), digest, expected_checksum(asset)) is None ==> digest
            == expected_checksum(asset)->0,
        cache_step_for(Some(data), digest, expected_checksum(asset)) is Use ==> digest
            == expected_checksum(asset)->0,
{
}

// The questions of the connection.

/// A question whether a host key is trusted.
#[derive(Clone, Debug, PartialEq, Eq)]
pub struct HostKeyPromptRequest {
    pub challenge: HostKeyChallenge,
}

/// What is done when the connection asks for a password.
#[derive(Clone, Debug, PartialEq, Eq)]
pub enum PasswordAnswer {
    /// A password is known already.
    Known(String),
    /// The user is asked with this text.
    Prompt(String),
}

/// What is done when the connection asks for a password.
pub enum AnswerView {
    Known(Seq<char>),
    Prompt(Seq<char>),
}

/// What is done when the connection asks for a password: a known one is given, else the user is
/// asked.
pub open spec fn answer_to(known_password: Option<Seq<char>>, prompt: Seq<char>) -> AnswerView {
    match known_password {
        Some(password) => AnswerView::Known(password),
        None => AnswerView::Prompt(prompt),
    }
}

/// What the app knows when it connects.
#[derive(Clone, Debug, PartialEq, Eq)]
pub struct IosRemoteClientDelegate {
    pub known_password: Option<String>,
    pub known_ssh_key: Option<SshKeyAuth>,
}

impl IosRemoteClientDelegate {
    /// What the app knows when it connects.
    pub fn new(known_password: Option<String>, known_ssh_key: Option<SshKeyAuth>) -> (delegate:
        Self)
        ensures
            delegate.known_password == known_password,
            delegate.known_ssh_key == known_ssh_key,
    {
        IosRemoteClientDelegate { known_password, known_ssh_key }
    }

    /// What is done when the connection asks for a password.
    pub fn ask_password(&self, prompt: String) -> (answer: PasswordAnswer)
        ensures
            answer_to(text::optional(self.known_password), prompt@) == match answer {
                PasswordAnswer::Known(password) => AnswerView::Known(password@),
                PasswordAnswer::Prompt(prompt) => AnswerView::Prompt(prompt@),
            },
    {
        match &self.known_password {
            Some(password) => PasswordAnswer::Known(password.clone()),
            None => PasswordAnswer::Prompt(prompt),
        }
    }

    /// The private key that is known.
    pub fn ssh_key_auth(&self) -> (key: &Option<SshKeyAuth>)
        ensures
            *key == self.known_ssh_key,
    {
        &self.known_ssh_key
    }
}

/// Why there is no decision on a host key.
#[derive(Clone, Copy, Debug, PartialEq, Eq, Structural)]
pub enum HostKeyPromptError {
    /// The question could not be shown.
    NotShown,
    /// The question went away without an answer.
    Dismissed,
}

/// What is told if there is no decision on a host key.
pub open spec fn host_key_error_text(error: HostKeyPromptError) -> Seq<char> {
    match error {
        HostKeyPromptError::NotShown => "Failed to surface host key verification prompt"@,
        HostKeyPromptError::Dismissed => "Host key verification prompt was dismissed"@,
    }
}

impl HostKeyPromptError {
    /// What is told of it.
    pub fn message(self) -> (message: &'static str)
        ensures
            message@ == host_key_error_text(self),
    {
        match self {
            HostKeyPromptError::NotShown => "Failed to surface host key verification prompt",
            HostKeyPromptError::Dismissed => "Host key verification prompt was dismissed",
        }
    }
}

// What the release list is asked, and what is used of it.

/// A status tells success exactly if it is one of the two hundreds.
pub proof fn law_success_is_the_two_hundreds(code: u16)
    ensures
        is_success(code) <==> code / 100 == 2,
{
}

/// The newest release is asked for instead exactly if a certain version of the preview is not in
/// the list, and then of the same channel and platform; the question is left as it was otherwise.
pub proof fn law_missing_preview_falls_back(lookup: LookupView, reply: ReplyView)
    requires
        lookup.first_error is None,
    ensures
        lookup_step(lookup, reply) is AskLatest <==> lookup.channel == "preview"@
            && lookup.version is Some && (reply matches ReplyView::Http { code, .. } && code == 404),
        lookup_step(lookup, reply) is AskLatest ==> lookup_url(lookup_after(lookup, reply))
            == lookup_url(LookupView { version: None, ..lookup }),
        !(lookup_step(lookup, reply) is AskLatest) ==> lookup_after(lookup, reply) == lookup,
        lookup_after(lookup, reply).channel == lookup.channel,
        lookup_after(lookup, reply).os == lookup.os,
        lookup_after(lookup, reply).arch == lookup.arch,
{
}

/// A failure is told with what the list answered; if the newest release was asked for instead,
/// with both answers.
pub proof fn law_lookup_failures_are_told(lookup: LookupView, first: ReplyView, second: ReplyView)
    requires
        lookup.first_error is None,
        !(first is Found),
        !(second is Found),
    ensures
        lookup_step(lookup, first) matches LookupStepView::Failed(message) ==> message
            == reply_error(first, lookup_url(lookup)),
        lookup_step(lookup, first) is AskLatest ==> {
            let again = lookup_after(lookup, first);
            let step = lookup_step(again, second);
            &&& step is Failed
            &&& reply_error(second, lookup_url(again)).is_suffix_of(step->Failed_0)
            &&& text::has_part(step->Failed_0, reply_error(first, lookup_url(lookup)))
        },
{
    if lookup_step(lookup, first) is AskLatest {
        let again = lookup_after(lookup, first);
        let message = lookup_step(again, second)->Failed_0;
        let told = reply_error(second, lookup_url(again));
        let before = reply_error(first, lookup_url(lookup));
        assert(message.subrange(message.len() - told.len(), message.len() as int) =~= told);
        let at = ("Preview remote server release lookup failed for version "@ + asked_version(
            lookup.version,
        ) + " and fallback to latest also failed. Versioned error: "@).len() as int;
        assert(message.subrange(at, at + before.len()) =~= before);
        assert(text::stands_at(message, before, at));
    }
}

/// An error of the list is told with the address that was asked and the status; anything else as
/// it was told.
pub proof fn law_errors_name_the_address(
    code: u16,
    status: Seq<char>,
    body: Seq<char>,
    url: Seq<char>,
    message: Seq<char>,
)
    ensures
        text::has_part(reply_error(ReplyView::Http { code, status, body }, url), url),
        text::has_part(reply_error(ReplyView::Http { code, status, body }, url), status),
        body.is_suffix_of(reply_error(ReplyView::Http { code, status, body }, url)),
        reply_error(ReplyView::Other(message), url) == message,
{
    let told = reply_error(ReplyView::Http { code, status, body }, url);
    let start = "Failed to fetch release info from "@;
    let at = start.len() as int;
    assert(told.subrange(at, at + url.len()) =~= url);
    assert(text::stands_at(told, url, at));
    let behind = (start + url + ": HTTP "@).len() as int;
    assert(told.subrange(behind, behind + status.len()) =~= status);
    assert(text::stands_at(told, status, behind));
    assert(told.subrange(told.len() - body.len(), told.len() as int) =~= body);
}

/// The address that is asked names the channel, the version and the platform, each in its place.
pub proof fn law_address_names_what_is_asked(
    channel: Seq<char>,
    version: Seq<char>,
    os: Seq<char>,
    arch: Seq<char>,
)
    requires
        text::is_free_of(channel, '/'),
        text::is_free_of(version, '/'),
        text::is_free_of(os, '/') && text::is_free_of(os, '&'),
        text::is_free_of(arch, '/') && text::is_free_of(arch, '&'),
    ensures
        ({
            let parts = text::split(asset_url(channel, version, os, arch), '/');
            let asked = text::split(parts[6], '&');
            &&& parts.len() == 7
            &&& parts[2] == "cloud.zed.dev"@
            &&& parts[4] == channel
            &&& parts[5] == version
            &&& asked.len() == 3
            &&& asked[0] == "asset?os="@ + os
            &&& asked[1] == "arch="@ + arch
        }),
{
    reveal_strlit("https://cloud.zed.dev/releases/");
    reveal_strlit("/");
    reveal_strlit("/asset?os=");
    reveal_strlit("&arch=");
    reveal_strlit("&asset=zed-remote-server");
    reveal_strlit("cloud.zed.dev");
    reveal_strlit("asset?os=");
    reveal_strlit("arch=");
    reveal_strlit("https:");
    reveal_strlit("releases");
    reveal_strlit("asset=zed-remote-server");
    let none = Seq::<char>::empty();
    let first = "asset?os="@ + os;
    let second = "arch="@ + arch;
    let third = "asset=zed-remote-server"@;
    let rest = second + seq!['&'] + third;
    let query = first + seq!['&'] + rest;
    assert(text::is_free_of(first, '/') && text::is_free_of(first, '&'));
    assert(text::is_free_of(second, '/') && text::is_free_of(second, '&'));
    assert(text::is_free_of(query, '/'));
    let at_version = version + seq!['/'] + query;
    let at_channel = channel + seq!['/'] + at_version;
    let at_releases = "releases"@ + seq!['/'] + at_channel;
    let at_host = "cloud.zed.dev"@ + seq!['/'] + at_releases;
    let at_nothing = none + seq!['/'] + at_host;
    let url = asset_url(channel, version, os, arch);
    assert(url =~= "https:"@ + seq!['/'] + at_nothing);
    text::lemma_split_concat("https:"@, '/', at_nothing);
    text::lemma_split_concat(none, '/', at_host);
    text::lemma_split_concat("cloud.zed.dev"@, '/', at_releases);
    text::lemma_split_concat("releases"@, '/', at_channel);
    text::lemma_split_concat(channel, '/', at_version);
    text::lemma_split_concat(version, '/', query);
    text::lemma_split_single("https:"@, '/');
    text::lemma_split_single(none, '/');
    text::lemma_split_single("cloud.zed.dev"@, '/');
    text::lemma_split_single("releases"@, '/');
    text::lemma_split_single(channel, '/');
    text::lemma_split_single(version, '/');
    text::lemma_split_single(query, '/');
    assert(text::split(url, '/') =~= seq![
        "https:"@,
        none,
        "cloud.zed.dev"@,
        "releases"@,
        channel,
        version,
        query,
    ]);
    text::lemma_split_concat(first, '&', rest);
    text::lemma_split_concat(second, '&', third);
    text::lemma_split_single(first, '&');
    text::lemma_split_single(second, '&');
    text::lemma_split_single(third, '&');
    assert(text::split(query, '&') =~= seq![first, second, third]);
}

/// The question for a platform asks for that platform and version, in the channel of the app;
/// builds of one's own use the preview, and no other channel is replaced.
pub proof fn law_platform_is_asked_for(
    platform: RemotePlatform,
    other: RemotePlatform,
    channel: ReleaseChannel,
    version: Option<VersionView>,
)
    ensures
        ({
            let lookup = lookup_for(platform, channel, version);
            &&& lookup.version == version
            &&& lookup.first_error is None
            &&& lookup_for(other, channel, version).os == lookup.os <==> platform.os == other.os
            &&& lookup_for(other, channel, version).arch == lookup.arch <==> platform.arch
                == other.arch
            &&& lookup.channel == remote_platform::channel_name(channel) <==> !(channel is Dev)
            &&& lookup.channel == "preview"@ <==> channel is Dev || channel is Preview
        }),
        version is None ==> asked_version(version) == "latest"@,
        version matches Some(version) ==> asked_version(Some(version))
            == remote_platform::numbers_text(version),
{
    reveal_strlit("preview");
    remote_platform::law_platforms_have_their_own_names(
        platform.os,
        other.os,
        platform.arch,
        other.arch,
        channel,
        ReleaseChannel::Preview,
        remote_platform::PathStyle::Posix,
        remote_platform::PathStyle::Posix,
    );
    remote_platform::law_platforms_have_their_own_names(
        platform.os,
        other.os,
        platform.arch,
        other.arch,
        listed_channel(channel),
        channel,
        remote_platform::PathStyle::Posix,
        remote_platform::PathStyle::Posix,
    );
}

/// A checksum is read in any letters and with white space around it, as 64 digits in lower case;
/// reading it again changes nothing, and the digest of any data is one.
pub proof fn law_checksums_are_read_in_any_letters(raw: Seq<char>, digest: Seq<u8>)
    requires
        digest.len() == 32,
    ensures
        checksum_in(text::trimmed(raw)) == checksum_in(raw),
        checksum_in(raw) matches Some(checksum) ==> {
            &&& checksum.len() == 64
            &&& checksum == text::ascii_lowered(text::trimmed(raw))
            &&& forall|i: int|
                0 <= i < 64 ==> text::is_digit(#[trigger] checksum[i]) || 'a' <= checksum[i] <= 'f'
        },
        checksum_in(digest::hex(digest)) == Some(digest::hex(digest)),
{
    text::lemma_trimmed_twice(raw);
    if let Some(checksum) = checksum_in(raw) {
        assert forall|i: int| 0 <= i < 64 implies text::is_digit(#[trigger] checksum[i]) || 'a'
            <= checksum[i] <= 'f' by {
            assert(is_hex_digit(checksum[i]));
            assert(checksum[i] == text::ascii_lower(text::trimmed(raw)[i]));
        }
    }
    digest::law_hexadecimal_tells_bytes_apart(digest, digest);
    let written = digest::hex(digest);
    assert(!text::is_white_space(written[0]));
    assert(!text::is_white_space(written[63]));
    text::lemma_trimmed_with_space(written);
    assert(text::ascii_lowered(written) =~= written);
    assert forall|i: int| 0 <= i < written.len() implies is_hex_digit(#[trigger] written[i]) by {}
}

/// A checksum that the list tells is needed, whatever is allowed; without one, a program is refused
/// unless that is allowed or it comes from the project's own releases.
pub proof fn law_unsigned_programs_are_refused(asset: AssetView, unsigned_allowed: bool)
    ensures
        expected_checksum(asset) is Some ==> checksum_needed(asset, unsigned_allowed) == Ok::<
            Option<Seq<char>>,
            Seq<char>,
        >(expected_checksum(asset)),
        checksum_needed(asset, unsigned_allowed) is Err <==> expected_checksum(asset) is None
            && !unsigned_allowed && !is_trusted_source(asset.url),
        asset.sha256 is None ==> expected_checksum(asset) is None,
        is_trusted_source(asset.url) ==> "https://github.com/zed-industries/zed/"@.is_prefix_of(
            asset.url,
        ),
{
    reveal_strlit("https://github.com/zed-industries/zed/");
    reveal_strlit("https://github.com/zed-industries/zed/releases/download/");
    let long = "https://github.com/zed-industries/zed/releases/download/"@;
    let short = "https://github.com/zed-industries/zed/"@;
    assert(long.subrange(0, 38) =~= short);
    if is_trusted_source(asset.url) {
        assert(asset.url.subrange(0, 38) =~= asset.url.subrange(0, long.len() as int).subrange(
            0,
            38,
        ));
    }
}

/// A kept file is used exactly if it is not empty and has the checksum that it must have, if it
/// must have one; another one is replaced, and without one the program is downloaded. The same
/// holds of what was downloaded.
pub proof fn law_right_files_are_used(
    kept: Option<Seq<u8>>,
    digest: Seq<char>,
    expected: Option<Seq<char>>,
)
    ensures
        cache_step_for(kept, digest, expected) is Use <==> kept is Some && kept->0.len() > 0 && (
        expected is None || expected->0 == digest),
        cache_step_for(kept, digest, expected) is Download <==> kept is None,
        kept matches Some(data) ==> (download_fault(data.len(), digest, expected) is None
            <==> cache_step_for(kept, digest, expected) is Use),
        download_fault(1, digest, expected) matches Some(fault) ==> text::has_part(
            fault,
            digest,
        ) && text::has_part(fault, expected->0),
{
    if let Some(fault) = download_fault(1, digest, expected) {
        let start = "Remote server checksum mismatch (expected "@;
        let at = start.len() as int;
        assert(fault.subrange(at, at + expected->0.len()) =~= expected->0);
        assert(text::stands_at(fault, expected->0, at));
        let behind = (start + expected->0 + ", got "@).len() as int;
        assert(fault.subrange(behind, behind + digest.len()) =~= digest);
        assert(text::stands_at(fault, digest, behind));
    }
}

/// A program may have 200 MiB and no byte more, in whatever pieces it comes.
pub proof fn law_programs_may_have_200_mib(total: int, first: int, second: int)
    requires
        0 <= total,
        0 <= first,
        0 <= second,
    ensures
        total_after(total, first) is Some <==> total + first <= 200 * 1024 * 1024,
        total_after(total, first + second) is Some ==> total_after(total, first) is Some
            && total_after(total + first, second) == total_after(total, first + second),
        total_after(total, first) matches Some(sum) ==> sum == total + first,
{
}

/// Programs of different channels, platforms or versions are kept apart.
pub proof fn law_kept_programs_stand_apart(
    platform: RemotePlatform,
    other_platform: RemotePlatform,
    channel: ReleaseChannel,
    asset: AssetView,
    other: AssetView,
)
    ensures
        ({
            let (in_channel, in_platform, file) = kept_at(
                lookup_for(platform, channel, None),
                asset,
            );
            let (other_channel, other_directory, other_file) = kept_at(
                lookup_for(other_platform, channel, None),
                other,
            );
            &&& in_channel == other_channel
            &&& in_platform == other_directory <==> platform == other_platform
            &&& file == other_file <==> asset.version == other.version
            &&& asset.version.is_prefix_of(file)
        }),
{
    reveal_strlit("linux");
    reveal_strlit("macos");
    reveal_strlit("windows");
    reveal_strlit("x86_64");
    reveal_strlit("aarch64");
    reveal_strlit("-");
    reveal_strlit(".gz");
    let (_, mine, file) = kept_at(lookup_for(platform, channel, None), asset);
    let (_, theirs, other_file) = kept_at(lookup_for(other_platform, channel, None), other);
    assert(file.subrange(0, file.len() - 3) =~= asset.version);
    assert(other_file.subrange(0, other_file.len() - 3) =~= other.version);
    assert(mine[0] == remote_platform::os_name(platform.os)[0]);
    assert(theirs[0] == remote_platform::os_name(other_platform.os)[0]);
    let os = remote_platform::os_name(platform.os);
    assert(mine[os.len() + 1int] == remote_platform::arch_name(platform.arch)[0]);
    if platform.os == other_platform.os {
        assert(theirs[os.len() + 1int] == remote_platform::arch_name(other_platform.arch)[0]);
    }
}

/// Downloads are written to hidden files at first, a different one for each identifier.
pub proof fn law_downloads_do_not_meet(id: Seq<char>, other: Seq<char>)
    ensures
        temporary_name(id) == temporary_name(other) <==> id == other,
        temporary_name(id)[0] == '.',
        ".tmp"@.is_suffix_of(temporary_name(id)),
{
    reveal_strlit(".");
    reveal_strlit(".tmp");
    let (mine, theirs) = (temporary_name(id), temporary_name(other));
    assert(mine.subrange(1, mine.len() - 4) =~= id);
    assert(theirs.subrange(1, theirs.len() - 4) =~= other);
    assert(mine.subrange(mine.len() - 4, mine.len() as int) =~= ".tmp"@);
}

/// A known password answers the question, whatever it is; without one the user is asked just that
/// question.
pub proof fn law_known_password_answers(
    known: Option<Seq<char>>,
    prompt: Seq<char>,
    error: HostKeyPromptError,
    other: HostKeyPromptError,
)
    ensures
        answer_to(known, prompt) is Known <==> known is Some,
        known is Some ==> answer_to(known, prompt) == AnswerView::Known(known->0),
        known is None ==> answer_to(known, prompt) == AnswerView::Prompt(prompt),
        host_key_error_text(error) == host_key_error_text(other) ==> error == other,
{
    reveal_strlit("Failed to surface host key verification prompt");
    reveal_strlit("Host key verification prompt was dismissed");
    assert("Failed to surface host key verification prompt"@[0] == 'F');
    assert("Host key verification prompt was dismissed"@[0] == 'H');
}

/// A file that is kept is used as it is if it has the digest that is expected, or if none is; an empty
/// one or one with another digest is replaced, and one that is missing is downloaded.
pub proof fn law_kept_files_are_used_if_they_are_right(data: Seq<u8>, expected: Option<Seq<char>>)
    ensures
        step_for_kept(None, expected) is Download,
        data.len() == 0 ==> step_for_kept(Some(data), expected) is Replace,
        data.len() > 0 ==> (step_for_kept(Some(data), expected) is Use <==> expected is None
            || expected == Some(digest::hex(digest::sha256(data)))),
        data.len() > 0 ==> !(step_for_kept(Some(data), expected) is Download),
{
}

} // verus!
