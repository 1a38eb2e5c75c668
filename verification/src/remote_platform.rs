//! The server's platform and the releases of the remote server.

use crate::text;
use vstd::prelude::*;

verus! {

/// The operating system of a server.
#[derive(Clone, Copy, Debug, PartialEq, Eq, Structural)]
pub enum RemoteOs {
    Linux,
    MacOs,
    Windows,
}

/// The processor of a server.
#[derive(Clone, Copy, Debug, PartialEq, Eq, Structural)]
pub enum RemoteArch {
    X86_64,
    Aarch64,
}

/// The platform of a server.
#[derive(Clone, Copy, Debug, PartialEq, Eq, Structural)]
pub struct RemotePlatform {
    pub os: RemoteOs,
    pub arch: RemoteArch,
}

/// How paths are written on a server.
#[derive(Clone, Copy, Debug, PartialEq, Eq, Structural)]
pub enum PathStyle {
    Posix,
    Windows,
}

/// The name of an operating system in the release list.
pub open spec fn os_name(os: RemoteOs) -> Seq<char> {
    match os {
        RemoteOs::Linux => "linux"@,
        RemoteOs::MacOs => "macos"@,
        RemoteOs::Windows => "windows"@,
    }
}

/// The name of a processor in the release list.
pub open spec fn arch_name(arch: RemoteArch) -> Seq<char> {
    match arch {
        RemoteArch::X86_64 => "x86_64"@,
        RemoteArch::Aarch64 => "aarch64"@,
    }
}

impl RemoteOs {
    /// The name of the operating system in the release list.
    pub fn as_str(self) -> (name: &'static str)
        ensures
            name@ == os_name(self),
    {
        match self {
            RemoteOs::Linux => "linux",
            RemoteOs::MacOs => "macos",
            RemoteOs::Windows => "windows",
        }
    }

    /// Whether this is Windows.
    pub fn is_windows(self) -> (yes: bool)
        ensures
            yes == (self == RemoteOs::Windows),
    {
        self == RemoteOs::Windows
    }
}

impl RemoteArch {
    /// The name of the processor in the release list.
    pub fn as_str(self) -> (name: &'static str)
        ensures
            name@ == arch_name(self),
    {
        match self {
            RemoteArch::X86_64 => "x86_64",
            RemoteArch::Aarch64 => "aarch64",
        }
    }
}

/// What stands between the parts of a path.
pub open spec fn separator_of(style: PathStyle) -> Seq<char> {
    match style {
        PathStyle::Posix => "/"@,
        PathStyle::Windows => "\\"@,
    }
}

impl PathStyle {
    /// What stands between the parts of a path.
    pub fn separator(self) -> (separator: &'static str)
        ensures
            separator@ == separator_of(self),
    {
        match self {
            PathStyle::Posix => "/",
            PathStyle::Windows => "\\",
        }
    }
}

/// The channel that a version of the app belongs to.
#[derive(Clone, Copy, Debug, PartialEq, Eq, Structural)]
pub enum ReleaseChannel {
    Dev,
    Nightly,
    Preview,
    Stable,
}

/// The short name of a channel.
pub open spec fn channel_name(channel: ReleaseChannel) -> Seq<char> {
    match channel {
        ReleaseChannel::Dev => "dev"@,
        ReleaseChannel::Nightly => "nightly"@,
        ReleaseChannel::Preview => "preview"@,
        ReleaseChannel::Stable => "stable"@,
    }
}

impl ReleaseChannel {
    /// The short name of the channel.
    pub fn dev_name(self) -> (name: &'static str)
        ensures
            name@ == channel_name(self),
    {
        match self {
            ReleaseChannel::Dev => "dev",
            ReleaseChannel::Nightly => "nightly",
            ReleaseChannel::Preview => "preview",
            ReleaseChannel::Stable => "stable",
        }
    }
}

/// A version of the app.
#[derive(Clone, Debug, PartialEq, Eq)]
pub struct Version {
    pub major: u64,
    pub minor: u64,
    pub patch: u64,
    /// What stands behind `-`.
    pub pre: String,
    /// What stands behind `+`.
    pub build: String,
}

/// The contents of a version.
pub struct VersionView {
    pub major: u64,
    pub minor: u64,
    pub patch: u64,
    pub pre: Seq<char>,
    pub build: Seq<char>,
}

impl View for Version {
    type V = VersionView;

    open spec fn view(&self) -> VersionView {
        VersionView {
            major: self.major,
            minor: self.minor,
            patch: self.patch,
            pre: self.pre@,
            build: self.build@,
        }
    }
}

/// The three numbers of a version.
pub open spec fn numbers_text(version: VersionView) -> Seq<char> {
    text::decimal(version.major as nat) + "."@ + text::decimal(version.minor as nat) + "."@
        + text::decimal(version.patch as nat)
}

/// A version as text.
pub open spec fn version_text(version: VersionView) -> Seq<char> {
    let with_pre = if version.pre.len() == 0 {
        numbers_text(version)
    } else {
        numbers_text(version) + "-"@ + version.pre
    };
    if version.build.len() == 0 {
        with_pre
    } else {
        with_pre + "+"@ + version.build
    }
}

/// What `semver` reads a version as: its three numbers, and what stands behind `-` and `+`.
pub uninterp spec fn parsed_version(version: Seq<char>) -> Option<
    (u64, u64, u64, Seq<char>, Seq<char>),
>;

/// The parts of a version.
pub open spec fn version_parts(version: VersionView) -> (u64, u64, u64, Seq<char>, Seq<char>) {
    (version.major, version.minor, version.patch, version.pre, version.build)
}

/// `semver::Version::parse` reads a version; it takes a text for one only if it is written
/// in the one way in which a version is written.
#[verifier::external_body]
pub(crate) fn semver_version(version: &str) -> (result: Option<Version>)
    ensures
        match result {
            Some(read) => parsed_version(version@) == Some(version_parts(read@))
                && version_text(read@) == version@,
            None => parsed_version(version@) is None,
        },
{
    let read = semver::Version::parse(version).ok()?;
    Some(
        Version {
            major: read.major,
            minor: read.minor,
            patch: read.patch,
            pre: read.pre.as_str().to_owned(),
            build: read.build.as_str().to_owned(),
        },
    )
}

impl Version {
    /// Reads a version.
    pub fn parse(version: &str) -> (result: Option<Self>)
        ensures
            match result {
                Some(read) => parsed_version(version@) == Some(version_parts(read@))
                    && version_text(read@) == version@,
                None => parsed_version(version@) is None,
            },
    {
        semver_version(version)
    }

    /// The three numbers of the version.
    pub fn numbers(&self) -> (result: String)
        ensures
            result@ == numbers_text(self@),
    {
        let mut result = text::format_decimal(self.major);
        result.append(".");
        result.append(text::format_decimal(self.minor).as_str());
        result.append(".");
        result.append(text::format_decimal(self.patch).as_str());
        result
    }

    /// The version as text.
    pub fn to_text(&self) -> (result: String)
        ensures
            result@ == version_text(self@),
    {
        let mut result = self.numbers();
        if !self.pre.as_str().is_empty() {
            result.append("-");
            result.append(self.pre.as_str());
        }
        if !self.build.as_str().is_empty() {
            result.append("+");
            result.append(self.build.as_str());
        }
        result
    }
}

/// Operating systems, processors, channels and ways to write paths have names of their own.
pub proof fn law_platforms_have_their_own_names(
    os: RemoteOs,
    other_os: RemoteOs,
    arch: RemoteArch,
    other_arch: RemoteArch,
    channel: ReleaseChannel,
    other_channel: ReleaseChannel,
    style: PathStyle,
    other_style: PathStyle,
)
    ensures
        os_name(os) == os_name(other_os) <==> os == other_os,
        arch_name(arch) == arch_name(other_arch) <==> arch == other_arch,
        channel_name(channel) == channel_name(other_channel) <==> channel == other_channel,
        separator_of(style) == separator_of(other_style) <==> style == other_style,
        os_name(os)[0] == 'w' <==> os is Windows,
        os_name(os)[0] == 'l' <==> os is Linux,
        arch_name(arch)[0] == 'x' <==> arch is X86_64,
        channel_name(channel)[0] == 'p' <==> channel is Preview,
        channel_name(channel)[0] == 's' <==> channel is Stable,
        channel_name(channel)[0] == 'n' <==> channel is Nightly,
        separator_of(style)[0] == '/' <==> style is Posix,
{
    reveal_strlit("linux");
    reveal_strlit("macos");
    reveal_strlit("windows");
    reveal_strlit("x86_64");
    reveal_strlit("aarch64");
    reveal_strlit("dev");
    reveal_strlit("nightly");
    reveal_strlit("preview");
    reveal_strlit("stable");
    reveal_strlit("/");
    reveal_strlit("\\");
    assert("linux"@[0] == 'l' && "macos"@[0] == 'm' && "windows"@[0] == 'w');
    assert("dev"@[0] == 'd' && "nightly"@[0] == 'n' && "preview"@[0] == 'p' && "stable"@[0] == 's');
    assert("x86_64"@[0] == 'x' && "aarch64"@[0] == 'a');
    assert("/"@[0] == '/' && "\\"@[0] == '\\');
}

/// The numbers of a version stand in its text in their order, with dots between them, and are read
/// back from it; what follows the numbers does not change them.
pub proof fn law_version_numbers_read_back(version: VersionView)
    ensures
        ({
            let parts = text::split(numbers_text(version), '.');
            &&& parts.len() == 3
            &&& text::parsed_number(parts[0], u64::MAX as nat) == Some(version.major as nat)
            &&& text::parsed_number(parts[1], u64::MAX as nat) == Some(version.minor as nat)
            &&& text::parsed_number(parts[2], u64::MAX as nat) == Some(version.patch as nat)
        }),
        numbers_text(version).is_prefix_of(version_text(version)),
        version.pre.len() == 0 && version.build.len() == 0 ==> version_text(version)
            == numbers_text(version),
        version.build.len() > 0 ==> version.build.is_suffix_of(version_text(version)),
        version.build.len() == 0 && version.pre.len() > 0 ==> version.pre.is_suffix_of(
            version_text(version),
        ),
{
    reveal_strlit(".");
    reveal_strlit("-");
    reveal_strlit("+");
    let (a, b, c) = (
        text::decimal(version.major as nat),
        text::decimal(version.minor as nat),
        text::decimal(version.patch as nat),
    );
    text::lemma_decimal_parses_back(version.major as nat);
    text::lemma_decimal_parses_back(version.minor as nat);
    text::lemma_decimal_parses_back(version.patch as nat);
    lemma_digits_hold_no_dot(a);
    lemma_digits_hold_no_dot(b);
    lemma_digits_hold_no_dot(c);
    let numbers = numbers_text(version);
    assert(numbers =~= a + seq!['.'] + (b + seq!['.'] + c));
    text::lemma_split_concat(a, '.', b + seq!['.'] + c);
    text::lemma_split_concat(b, '.', c);
    text::lemma_split_single(a, '.');
    text::lemma_split_single(b, '.');
    text::lemma_split_single(c, '.');
    assert(text::split(numbers, '.') =~= seq![a, b, c]);
    let whole = version_text(version);
    assert(whole.subrange(0, numbers.len() as int) =~= numbers);
    let end = whole.len() as int;
    if version.build.len() > 0 {
        assert(whole.subrange(end - version.build.len(), end) =~= version.build);
    } else if version.pre.len() > 0 {
        assert(whole.subrange(end - version.pre.len(), end) =~= version.pre);
    }
}

proof fn lemma_digits_hold_no_dot(digits: Seq<char>)
    requires
        text::all_digits(digits),
    ensures
        text::is_free_of(digits, '.'),
{
    assert forall|i: int| 0 <= i < digits.len() implies #[trigger] digits[i] != '.' by {
        assert(text::is_digit(digits[i]));
    }
}

} // verus!
