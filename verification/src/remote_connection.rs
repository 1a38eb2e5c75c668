//! The SSH connection to a server: how a login goes on, what is found out about the
//! server, and the commands that are run there.

use crate::remote_platform;
use crate::remote_platform::{
    PathStyle, ReleaseChannel, RemoteArch, RemoteOs, RemotePlatform, Version, VersionView,
};
use crate::russh_helper;
use crate::russh_helper::{CommandTemplate, Interactive};
use crate::ssh_options::{OptionsView, RemoteConnectionOptions, SshConnectionOptions};
use crate::text;
use vstd::prelude::*;

verus! {

// Logging in.

/// A private key that a login can use.
#[derive(Clone, Debug, PartialEq, Eq)]
pub struct SshKeyAuth {
    pub private_key: String,
    pub passphrase: Option<String>,
    pub display_name: Option<String>,
}

/// How a private key is called in messages.
pub open spec fn key_label_of(display_name: Option<Seq<char>>) -> Seq<char> {
    match display_name {
        Some(name) => name,
        None => "SSH private key"@,
    }
}

/// A decoded private key of the crate `russh`.
#[verifier::external_type_specification]
#[verifier::external_body]
pub struct ExPrivateKey(russh::keys::PrivateKey);

/// What `decode_secret_key` of the crate `russh` makes of a private key and its passphrase: the
/// decoded key, or what is wrong, with all that caused it.
pub uninterp spec fn decoded_key(private_key: Seq<char>, passphrase: Option<Seq<char>>) -> Result<
    russh::keys::PrivateKey,
    Seq<char>,
>;

/// `decode_secret_key` of the crate `russh` decodes a private key, or tells why it cannot; both
/// depend on the key and the passphrase alone. The error is taken as a text, with what caused it
/// behind it. Nothing is said of what a decoded key holds: it is only handed on.
#[verifier::external_body]
fn decode_secret_key(private_key: &str, passphrase: Option<&str>) -> (result: Result<
    russh::keys::PrivateKey,
    String,
>)
    ensures
        match result {
            Ok(key) => decoded_key(private_key@, str_view(passphrase)) == Ok::<
                russh::keys::PrivateKey,
                Seq<char>,
            >(key),
            Err(cause) => decoded_key(private_key@, str_view(passphrase)) == Err::<
                russh::keys::PrivateKey,
                Seq<char>,
            >(cause@),
        },
{
    russh::keys::decode_secret_key(private_key, passphrase)
        .map_err(|error| format!("{:#}", anyhow::Error::new(error)))
}

/// The contents of a text, if there is one.
pub open spec fn str_view(content: Option<&str>) -> Option<Seq<char>> {
    match content {
        Some(content) => Some(content@),
        None => None,
    }
}

/// What is told if a key cannot be decoded.
pub open spec fn decode_failure(name: Option<Seq<char>>, cause: Seq<char>) -> Seq<char> {
    "Failed to decode "@ + key_label_of(name) + ": "@ + cause
}

impl SshKeyAuth {
    /// What is told if the key cannot be decoded.
    pub fn decode_error(&self, cause: &str) -> (message: String)
        ensures
            message@ == decode_failure(text::optional(self.display_name), cause@),
    {
        let mut message = "Failed to decode ".to_owned();
        match &self.display_name {
            Some(name) => {
                message.append(name.as_str());
            },
            None => {
                message.append("SSH private key");
            },
        }
        message.append(": ");
        message.append(cause);
        message
    }

    /// The decoded key, or why it cannot be decoded.
    pub fn decode(&self) -> (result: Result<russh::keys::PrivateKey, String>)
        ensures
            match decoded_key(self.private_key@, text::optional(self.passphrase)) {
                Ok(key) => result is Ok && result->Ok_0 == key,
                Err(cause) => result is Err && result->Err_0@ == decode_failure(
                    text::optional(self.display_name),
                    cause,
                ),
            },
    {
        let passphrase = match &self.passphrase {
            Some(passphrase) => Some(passphrase.as_str()),
            None => None,
        };
        match decode_secret_key(self.private_key.as_str(), passphrase) {
            Ok(key) => Ok(key),
            Err(cause) => Err(self.decode_error(cause.as_str())),
        }
    }
}

/// The port of a server that none is told for.
pub const DEFAULT_SSH_PORT: u16 = 22;

/// Where a login goes, and as whom.
#[derive(Clone, Debug, PartialEq, Eq)]
pub struct Login {
    pub host: String,
    pub port: u16,
    pub address: String,
    pub username: String,
}

/// The port that a connection goes to.
pub open spec fn port_of(options: OptionsView) -> u16 {
    match options.port {
        Some(port) => port,
        None => 22,
    }
}

/// The host, the port, the address and the user of a login; there is none without a user name.
pub open spec fn login_with(options: OptionsView) -> Option<
    (Seq<char>, u16, Seq<char>, Seq<char>),
> {
    match options.username {
        Some(username) => Some(
            (
                options.host,
                port_of(options),
                options.host + ":"@ + text::decimal(port_of(options) as nat),
                username,
            ),
        ),
        None => None,
    }
}

/// What the user is asked for.
pub open spec fn password_question(username: Seq<char>, host: Seq<char>) -> Seq<char> {
    "Password for "@ + username + "@"@ + host + ":"@
}

impl Login {
    /// Where a login with the options goes; there is none without a user name.
    pub fn new(options: &SshConnectionOptions) -> (result: Result<Self, String>)
        ensures
            match result {
                Ok(login) => login_with(options@) == Some(
                    (login.host@, login.port, login.address@, login.username@),
                ),
                Err(message) => login_with(options@) is None && message@
                    == "SSH username is required but was not provided"@,
            },
    {
        let port: u16 = match options.port {
            Some(port) => port,
            None => DEFAULT_SSH_PORT,
        };
        let mut address = options.host.clone();
        address.append(":");
        address.append(text::format_decimal(port as u64).as_str());
        match &options.username {
            Some(username) => Ok(
                Login { host: options.host.clone(), port, address, username: username.clone() },
            ),
            None => Err("SSH username is required but was not provided".to_owned()),
        }
    }

    /// What the user is asked for.
    pub fn password_prompt(&self) -> (prompt: String)
        ensures
            prompt@ == password_question(self.username@, self.host@),
    {
        let mut prompt = "Password for ".to_owned();
        prompt.append(self.username.as_str());
        prompt.append("@");
        prompt.append(self.host.as_str());
        prompt.append(":");
        prompt
    }
}

/// A way to log in.
#[derive(Clone, Copy, Debug, PartialEq, Eq, Structural)]
pub enum LoginTry {
    /// With the password that came with the options.
    GivenPassword,
    /// With nothing but the user name.
    NoCredentials,
    /// With the private key.
    Key,
    /// With the password that the user was asked for.
    AskedPassword,
}

/// What the server made of it.
#[derive(Clone, Debug, PartialEq, Eq)]
pub enum LoginReply {
    Accepted,
    Refused,
    Error(String),
}

/// What happens next in a login.
#[derive(Clone, Debug, PartialEq, Eq)]
pub enum LoginStep {
    Try(LoginTry),
    AskPassword,
    LoggedIn,
    Fail(String),
}

/// What happens next in a login.
pub enum LoginStepView {
    Try(LoginTry),
    AskPassword,
    LoggedIn,
    Fail(Seq<char>),
}

impl View for LoginStep {
    type V = LoginStepView;

    open spec fn view(&self) -> LoginStepView {
        match self {
            LoginStep::Try(way) => LoginStepView::Try(*way),
            LoginStep::AskPassword => LoginStepView::AskPassword,
            LoginStep::LoggedIn => LoginStepView::LoggedIn,
            LoginStep::Fail(message) => LoginStepView::Fail(message@),
        }
    }
}

/// The first way that is tried.
pub open spec fn first_try(has_password: bool) -> LoginTry {
    if has_password {
        LoginTry::GivenPassword
    } else {
        LoginTry::NoCredentials
    }
}

/// What follows a way that the server refused.
pub open spec fn after_refusal(way: LoginTry, has_key: bool) -> LoginStepView {
    match way {
        LoginTry::GivenPassword => LoginStepView::AskPassword,
        LoginTry::NoCredentials => if has_key {
            LoginStepView::Try(LoginTry::Key)
        } else {
            LoginStepView::AskPassword
        },
        LoginTry::Key => LoginStepView::AskPassword,
        LoginTry::AskedPassword => LoginStepView::Fail("Authentication failed"@),
    }
}

/// What follows what the server made of a way.
pub open spec fn after_reply(way: LoginTry, reply: LoginReply, has_key: bool) -> LoginStepView {
    match reply {
        LoginReply::Accepted => LoginStepView::LoggedIn,
        LoginReply::Refused => after_refusal(way, has_key),
        LoginReply::Error(cause) => match way {
            LoginTry::NoCredentials => after_refusal(way, has_key),
            LoginTry::Key => LoginStepView::Fail(cause@),
            _ => LoginStepView::Fail("Password authentication failed: "@ + cause@),
        },
    }
}

/// The first way that is tried.
pub fn first_login_try(options: &SshConnectionOptions) -> (way: LoginTry)
    ensures
        way == first_try(options@.password is Some),
{
    if options.password.is_some() {
        LoginTry::GivenPassword
    } else {
        LoginTry::NoCredentials
    }
}

/// What follows what the server made of a way.
pub fn next_login_step(way: LoginTry, reply: LoginReply, has_key: bool) -> (step: LoginStep)
    ensures
        step@ == after_reply(way, reply, has_key),
{
    match reply {
        LoginReply::Accepted => {
            return LoginStep::LoggedIn;
        },
        LoginReply::Refused => {},
        LoginReply::Error(cause) => match way {
            LoginTry::NoCredentials => {},
            LoginTry::Key => {
                return LoginStep::Fail(cause);
            },
            _ => {
                return LoginStep::Fail(
                    text::concat("Password authentication failed: ", cause.as_str()),
                );
            },
        },
    }
    match way {
        LoginTry::GivenPassword => LoginStep::AskPassword,
        LoginTry::NoCredentials => if has_key {
            LoginStep::Try(LoginTry::Key)
        } else {
            LoginStep::AskPassword
        },
        LoginTry::Key => LoginStep::AskPassword,
        LoginTry::AskedPassword => LoginStep::Fail("Authentication failed".to_owned()),
    }
}

/// What came of asking for a password.
#[derive(Clone, Debug, PartialEq, Eq)]
pub enum PromptReply {
    Given,
    Cancelled,
    /// There is one, but it cannot be decrypted, for this cause.
    Unreadable(String),
}

/// What follows the question for a password.
pub open spec fn after_prompt(reply: PromptReply) -> LoginStepView {
    match reply {
        PromptReply::Given => LoginStepView::Try(LoginTry::AskedPassword),
        PromptReply::Cancelled => LoginStepView::Fail("Password prompt was cancelled"@),
        PromptReply::Unreadable(cause) => LoginStepView::Fail(
            "Failed to decrypt password: "@ + cause@,
        ),
    }
}

/// What follows the question for a password.
pub fn step_after_prompt(reply: PromptReply) -> (step: LoginStep)
    ensures
        step@ == after_prompt(reply),
{
    match reply {
        PromptReply::Given => LoginStep::Try(LoginTry::AskedPassword),
        PromptReply::Cancelled => LoginStep::Fail("Password prompt was cancelled".to_owned()),
        PromptReply::Unreadable(cause) => LoginStep::Fail(
            text::concat("Failed to decrypt password: ", cause.as_str()),
        ),
    }
}

/// Nobody is logged in unless the server accepted the way that was tried.
pub proof fn law_only_the_server_lets_in(way: LoginTry, reply: LoginReply, has_key: bool)
    ensures
        after_reply(way, reply, has_key) is LoggedIn <==> reply is Accepted,
{
}

/// How many tries a way has behind it at the most.
pub open spec fn rank(way: LoginTry) -> nat {
    match way {
        LoginTry::GivenPassword => 0,
        LoginTry::NoCredentials => 0,
        LoginTry::Key => 1,
        LoginTry::AskedPassword => 2,
    }
}

/// A login comes to an end: each way is tried once at the most, and the user is asked for a
/// password once at the most.
pub proof fn law_login_ends(way: LoginTry, reply: LoginReply, has_key: bool, prompt: PromptReply)
    ensures
        after_reply(way, reply, has_key) matches LoginStepView::Try(next) ==> rank(next) > rank(
            way,
        ),
        after_reply(way, reply, has_key) is AskPassword ==> rank(way) < rank(
            LoginTry::AskedPassword,
        ),
        after_prompt(prompt) matches LoginStepView::Try(next) ==> next == LoginTry::AskedPassword,
{
}

// What is found out about the server.

/// The command that tells whether the server runs Windows.
pub fn windows_probe_command() -> (command: &'static str)
    ensures
        command@ == "cmd /c ver"@,
{
    "cmd /c ver"
}

/// Whether the server runs Windows, from what that command printed if it could be run.
pub open spec fn is_windows_answer(output: Option<Seq<char>>) -> bool {
    match output {
        Some(output) => text::has_part(text::trimmed(output), "indows"@),
        None => false,
    }
}

/// Whether the server runs Windows, from what that command printed if it could be run.
pub fn answers_as_windows(output: Option<&str>) -> (yes: bool)
    ensures
        yes == is_windows_answer(str_view(output)),
{
    match output {
        Some(output) => text::contains(text::trim(output).as_str(), "indows"),
        None => false,
    }
}

/// The command that tells the user's shell.
pub fn shell_probe_command() -> (command: &'static str)
    ensures
        command@ == "sh -c 'echo $SHELL'"@,
{
    "sh -c 'echo $SHELL'"
}

/// The shell of the server: PowerShell on Windows, else the one that the user's settings
/// name, else the plain one.
pub open spec fn server_shell(is_windows: bool, named: Option<Seq<char>>) -> Seq<char> {
    if is_windows {
        "powershell.exe"@
    } else {
        match named {
            Some(shell) => shell,
            None => "sh"@,
        }
    }
}

/// The shell of the server: PowerShell on Windows, else the one that the user's settings
/// name, else the plain one.
pub fn shell_of_server(is_windows: bool, named: Option<String>) -> (shell: String)
    ensures
        shell@ == server_shell(is_windows, text::optional(named)),
{
    if is_windows {
        return "powershell.exe".to_owned();
    }
    match named {
        Some(shell) => shell,
        None => "sh".to_owned(),
    }
}

/// The command that tells the platform.
pub open spec fn probe_command_of(is_windows: bool) -> Seq<char> {
    if is_windows {
        "cmd /c echo %PROCESSOR_ARCHITECTURE%"@
    } else {
        "uname -sm"@
    }
}

/// What is told if the command that tells the platform cannot be run.
pub open spec fn probe_error_of(is_windows: bool, cause: Seq<char>) -> Seq<char> {
    (if is_windows {
        "Failed to detect Windows architecture"@
    } else {
        "Failed to run 'uname -sm' to determine platform"@
    }) + ": "@ + cause
}

/// The command that tells the platform.
pub fn platform_probe_command(is_windows: bool) -> (command: &'static str)
    ensures
        command@ == probe_command_of(is_windows),
{
    if is_windows {
        "cmd /c echo %PROCESSOR_ARCHITECTURE%"
    } else {
        "uname -sm"
    }
}

/// What is told if that command cannot be run.
pub fn platform_probe_error(is_windows: bool, cause: &str) -> (message: String)
    ensures
        message@ == probe_error_of(is_windows, cause@),
{
    let mut message = if is_windows {
        "Failed to detect Windows architecture".to_owned()
    } else {
        "Failed to run 'uname -sm' to determine platform".to_owned()
    };
    message.append(": ");
    message.append(cause);
    message
}

/// The platform of a Windows server.
pub open spec fn windows_platform_of(output: Seq<char>) -> Result<RemotePlatform, Seq<char>> {
    let arch = text::trimmed(output);
    if arch == "AMD64"@ {
        Ok(RemotePlatform { os: RemoteOs::Windows, arch: RemoteArch::X86_64 })
    } else if arch == "ARM64"@ {
        Ok(RemotePlatform { os: RemoteOs::Windows, arch: RemoteArch::Aarch64 })
    } else {
        Err("Prebuilt remote servers are not yet available for windows-"@ + arch)
    }
}

/// The platform of a Windows server, from the name of its processor.
pub fn windows_platform(output: &str) -> (result: Result<RemotePlatform, String>)
    ensures
        match (result, windows_platform_of(output@)) {
            (Ok(platform), Ok(expected)) => platform == expected,
            (Err(message), Err(expected)) => message@ == expected,
            _ => false,
        },
{
    let arch = text::trim(output);
    if text::same_text(arch.as_str(), "AMD64") {
        Ok(RemotePlatform { os: RemoteOs::Windows, arch: RemoteArch::X86_64 })
    } else if text::same_text(arch.as_str(), "ARM64") {
        Ok(RemotePlatform { os: RemoteOs::Windows, arch: RemoteArch::Aarch64 })
    } else {
        Err(
            text::concat(
                "Prebuilt remote servers are not yet available for windows-",
                arch.as_str(),
            ),
        )
    }
}

// The command line of a program on the server.

/// Whether a text can name an environment variable.
pub open spec fn is_env_name(name: Seq<char>) -> bool {
    &&& name.len() > 0
    &&& is_ascii_letter(name[0]) || name[0] == '_'
    &&& forall|i: int|
        0 <= i < name.len() ==> is_ascii_letter(#[trigger] name[i]) || text::is_digit(name[i])
            || name[i] == '_'
}

/// Whether a character is one of the letters of ASCII.
pub open spec fn is_ascii_letter(c: char) -> bool {
    'a' <= c <= 'z' || 'A' <= c <= 'Z'
}

/// Whether a text can name an environment variable.
pub fn is_valid_env_name(name: &str) -> (yes: bool)
    ensures
        yes == is_env_name(name@),
{
    let chars = text::chars_of(name);
    if chars.len() == 0 {
        return false;
    }
    let first = chars[0];
    if !('a' <= first && first <= 'z' || 'A' <= first && first <= 'Z' || first == '_') {
        return false;
    }
    let mut i: usize = 0;
    while i < chars.len()
        invariant
            chars@ == name@,
            i <= chars@.len(),
            forall|j: int|
                0 <= j < i ==> is_ascii_letter(#[trigger] name@[j]) || text::is_digit(name@[j])
                    || name@[j] == '_',
        decreases chars@.len() - i,
    {
        let c = chars[i];
        if !('a' <= c && c <= 'z' || 'A' <= c && c <= 'Z' || '0' <= c && c <= '9' || c == '_') {
            assert(!(is_ascii_letter(name@[i as int]) || text::is_digit(name@[i as int])
                || name@[i as int] == '_'));
            return false;
        }
        i = i + 1;
    }
    true
}

/// An environment variable, with its value quoted for the server's shell if that can be
/// done.
#[derive(Clone, Debug, PartialEq, Eq)]
pub struct QuotedVariable {
    pub name: String,
    pub value: Option<String>,
}

/// A program and its arguments, each quoted for the server's shell if that can be done.
#[derive(Clone, Debug, PartialEq, Eq)]
pub struct QuotedProgram {
    pub program: Option<String>,
    pub args: Vec<Option<String>>,
}

/// Why no command line can be made.
#[derive(Clone, Debug, PartialEq, Eq)]
pub enum ExecCommandError {
    /// The text does not name an environment variable.
    InvalidEnvironmentName(String),
    /// A value cannot be quoted for the server's shell.
    ShellQuoting,
}

/// Why no command line can be made.
pub enum ExecErrorView {
    InvalidEnvironmentName(Seq<char>),
    ShellQuoting,
}

impl View for ExecCommandError {
    type V = ExecErrorView;

    open spec fn view(&self) -> ExecErrorView {
        match self {
            ExecCommandError::InvalidEnvironmentName(name) => ExecErrorView::InvalidEnvironmentName(
                name@,
            ),
            ExecCommandError::ShellQuoting => ExecErrorView::ShellQuoting,
        }
    }
}

/// A text without the leading ones of a character.
pub open spec fn without_leading(content: Seq<char>, c: char) -> Seq<char>
    decreases content.len(),
{
    if content.len() > 0 && content[0] == c {
        without_leading(content.skip(1), c)
    } else {
        content
    }
}

fn strip_leading(content: &str, c: char) -> (result: String)
    ensures
        result@ == without_leading(content@, c),
{
    let chars = text::chars_of(content);
    let mut from: usize = 0;
    assert(chars@.skip(0) =~= chars@);
    while from < chars.len() && chars[from] == c
        invariant
            from <= chars@.len(),
            chars@ == content@,
            without_leading(content@, c) == without_leading(content@.skip(from as int), c),
        decreases chars@.len() - from,
    {
        assert(content@.skip(from as int).skip(1) =~= content@.skip(from + 1));
        from = from + 1;
    }
    assert(content@.skip(from as int) =~= content@.subrange(from as int, content@.len() as int));
    text::text_of(chars.as_slice(), from, chars.len())
}

/// The part of a command line that goes to a directory.
pub open spec fn change_directory(directory: Seq<char>, separator: Seq<char>) -> Seq<char> {
    if "~/"@.is_prefix_of(directory) {
        "cd \"$HOME/"@ + without_leading(without_leading(directory, '~'), '/') + "\" "@ + separator
            + " "@
    } else {
        "cd \""@ + directory + "\" "@ + separator + " "@
    }
}

/// The part of a command line that sets environment variables.
pub open spec fn variables_text(variables: Seq<QuotedVariable>) -> Result<
    Seq<char>,
    ExecErrorView,
>
    decreases variables.len(),
{
    if variables.len() == 0 {
        Ok(Seq::empty())
    } else {
        match variables_text(variables.drop_last()) {
            Err(error) => Err(error),
            Ok(before) => {
                let variable = variables.last();
                if !is_env_name(variable.name@) {
                    Err(ExecErrorView::InvalidEnvironmentName(variable.name@))
                } else {
                    match variable.value {
                        Some(value) => Ok(before + variable.name@ + "="@ + value@ + " "@),
                        None => Err(ExecErrorView::ShellQuoting),
                    }
                }
            },
        }
    }
}

/// The part of a command line that gives arguments.
pub open spec fn arguments_text(args: Seq<Option<String>>) -> Result<Seq<char>, ExecErrorView>
    decreases args.len(),
{
    if args.len() == 0 {
        Ok(Seq::empty())
    } else {
        match arguments_text(args.drop_last()) {
            Err(error) => Err(error),
            Ok(before) => match args.last() {
                Some(arg) => Ok(before + " "@ + arg@),
                None => Err(ExecErrorView::ShellQuoting),
            },
        }
    }
}

/// The part of a command line that starts the program; without one, a login shell.
pub open spec fn program_text(program: Option<QuotedProgram>, shell: Seq<char>) -> Result<
    Seq<char>,
    ExecErrorView,
> {
    match program {
        None => Ok(shell + " -l"@),
        Some(program) => match (program.program, arguments_text(program.args@)) {
            (None, _) => Err(ExecErrorView::ShellQuoting),
            (Some(_), Err(error)) => Err(error),
            (Some(name), Ok(args)) => Ok(name@ + args),
        },
    }
}

/// The command line that runs a program in a directory, with environment variables.
pub open spec fn exec_command(
    directory: Option<Seq<char>>,
    separator: Seq<char>,
    variables: Seq<QuotedVariable>,
    program: Option<QuotedProgram>,
    shell: Seq<char>,
) -> Result<Seq<char>, ExecErrorView> {
    let start = (match directory {
        Some(directory) => change_directory(directory, separator),
        None => Seq::empty(),
    }) + "exec env "@;
    match variables_text(variables) {
        Err(error) => Err(error),
        Ok(variables) => match program_text(program, shell) {
            Err(error) => Err(error),
            Ok(program) => Ok(start + variables + program),
        },
    }
}

fn append_directory(exec: &mut String, directory: &str, separator: &str)
    ensures
        final(exec)@ == old(exec)@ + change_directory(directory@, separator@),
{
    if text::starts_with(directory, "~/") {
        let relative = strip_leading(strip_leading(directory, '~').as_str(), '/');
        let mut part = "cd \"$HOME/".to_owned();
        part.append(relative.as_str());
        part.append("\" ");
        part.append(separator);
        part.append(" ");
        exec.append(part.as_str());
    } else {
        let mut part = "cd \"".to_owned();
        part.append(directory);
        part.append("\" ");
        part.append(separator);
        part.append(" ");
        exec.append(part.as_str());
    }
}

fn quoted_variables(variables: &[QuotedVariable]) -> (result: Result<String, ExecCommandError>)
    ensures
        match (result, variables_text(variables@)) {
            (Ok(written), Ok(expected)) => written@ == expected,
            (Err(error), Err(expected)) => error@ == expected,
            _ => false,
        },
{
    let mut written = String::new();
    let mut i: usize = 0;
    while i < variables.len()
        invariant
            i <= variables@.len(),
            variables_text(variables@.take(i as int)) == Ok::<Seq<char>, ExecErrorView>(written@),
        decreases variables@.len() - i,
    {
        let variable = &variables[i];
        proof {
            let taken = variables@.take(i + 1);
            assert(taken.drop_last() =~= variables@.take(i as int));
            assert(taken.last() == variables@[i as int]);
            lemma_first_error_stays(variables@, i + 1);
        }
        if !is_valid_env_name(variable.name.as_str()) {
            return Err(ExecCommandError::InvalidEnvironmentName(variable.name.clone()));
        }
        match &variable.value {
            Some(value) => {
                written.append(variable.name.as_str());
                written.append("=");
                written.append(value.as_str());
                written.append(" ");
            },
            None => {
                return Err(ExecCommandError::ShellQuoting);
            },
        }
        i = i + 1;
    }
    assert(variables@.take(variables@.len() as int) =~= variables@);
    Ok(written)
}

proof fn lemma_first_error_stays(variables: Seq<QuotedVariable>, count: int)
    requires
        0 <= count <= variables.len(),
    ensures
        variables_text(variables.take(count)) is Err ==> variables_text(variables)
            == variables_text(variables.take(count)),
    decreases variables.len() - count,
{
    if count == variables.len() {
        assert(variables.take(count) =~= variables);
    } else {
        let longer = variables.take(count + 1);
        assert(longer.drop_last() =~= variables.take(count));
        lemma_first_error_stays(variables, count + 1);
    }
}

fn quoted_arguments(args: &[Option<String>]) -> (result: Result<String, ExecCommandError>)
    ensures
        match (result, arguments_text(args@)) {
            (Ok(written), Ok(expected)) => written@ == expected,
            (Err(error), Err(expected)) => error@ == expected,
            _ => false,
        },
{
    let mut written = String::new();
    let mut i: usize = 0;
    while i < args.len()
        invariant
            i <= args@.len(),
            arguments_text(args@.take(i as int)) == Ok::<Seq<char>, ExecErrorView>(written@),
        decreases args@.len() - i,
    {
        proof {
            let taken = args@.take(i + 1);
            assert(taken.drop_last() =~= args@.take(i as int));
            assert(taken.last() == args@[i as int]);
            lemma_missing_argument_stays(args@, i + 1);
        }
        match &args[i] {
            Some(arg) => {
                written.append(" ");
                written.append(arg.as_str());
            },
            None => {
                return Err(ExecCommandError::ShellQuoting);
            },
        }
        i = i + 1;
    }
    assert(args@.take(args@.len() as int) =~= args@);
    Ok(written)
}

proof fn lemma_missing_argument_stays(args: Seq<Option<String>>, count: int)
    requires
        0 <= count <= args.len(),
    ensures
        arguments_text(args.take(count)) is Err ==> arguments_text(args) == arguments_text(
            args.take(count),
        ),
    decreases args.len() - count,
{
    if count == args.len() {
        assert(args.take(count) =~= args);
    } else {
        let longer = args.take(count + 1);
        assert(longer.drop_last() =~= args.take(count));
        lemma_missing_argument_stays(args, count + 1);
    }
}

fn quoted_program(program: &Option<QuotedProgram>, shell: &str) -> (result: Result<
    String,
    ExecCommandError,
>)
    ensures
        match (result, program_text(*program, shell@)) {
            (Ok(written), Ok(expected)) => written@ == expected,
            (Err(error), Err(expected)) => error@ == expected,
            _ => false,
        },
{
    match program {
        None => Ok(text::concat(shell, " -l")),
        Some(program) => match &program.program {
            None => Err(ExecCommandError::ShellQuoting),
            Some(name) => match quoted_arguments(program.args.as_slice()) {
                Err(error) => Err(error),
                Ok(args) => Ok(text::concat(name.as_str(), args.as_str())),
            },
        },
    }
}

/// The command line that runs a program in a directory, with environment variables. What
/// joins two commands in the server's shell is told by `separator`.
pub fn build_exec_command(
    directory: Option<&str>,
    separator: &str,
    variables: &[QuotedVariable],
    program: &Option<QuotedProgram>,
    shell: &str,
) -> (result: Result<String, ExecCommandError>)
    ensures
        match (
            result,
            exec_command(
                match directory {
                    Some(directory) => Some(directory@),
                    None => None,
                },
                separator@,
                variables@,
                *program,
                shell@,
            ),
        ) {
            (Ok(command), Ok(expected)) => command@ == expected,
            (Err(error), Err(expected)) => error@ == expected,
            _ => false,
        },
{
    let mut exec = String::new();
    match directory {
        Some(directory) => {
            append_directory(&mut exec, directory, separator);
            assert(exec@ =~= change_directory(directory@, separator@));
        },
        None => {},
    }
    exec.append("exec env ");
    match quoted_variables(variables) {
        Ok(written) => {
            exec.append(written.as_str());
        },
        Err(error) => {
            return Err(error);
        },
    }
    match quoted_program(program, shell) {
        Ok(written) => {
            exec.append(written.as_str());
            Ok(exec)
        },
        Err(error) => Err(error),
    }
}

// The program that runs on the server.

/// What stands for the version in the name of the server program: its own builds and the
/// newest ones are not told apart by version.
pub open spec fn version_label(channel: ReleaseChannel, version: VersionView) -> Seq<char> {
    match channel {
        ReleaseChannel::Dev => "build"@,
        ReleaseChannel::Nightly => "latest"@,
        _ => remote_platform::version_text(version),
    }
}

/// The name of the server program.
pub open spec fn binary_name_of(
    channel: ReleaseChannel,
    version: VersionView,
    os: RemoteOs,
) -> Seq<char> {
    "zed-remote-server-"@ + remote_platform::channel_name(channel) + "-"@ + version_label(
        channel,
        version,
    ) + (if os == RemoteOs::Windows {
        ".exe"@
    } else {
        ""@
    })
}

/// The name of the server program.
pub fn server_binary_name(channel: ReleaseChannel, version: &Version, os: RemoteOs) -> (name:
    String)
    ensures
        name@ == binary_name_of(channel, version@, os),
{
    let label = match channel {
        ReleaseChannel::Dev => "build".to_owned(),
        ReleaseChannel::Nightly => "latest".to_owned(),
        _ => version.to_text(),
    };
    let mut name = "zed-remote-server-".to_owned();
    name.append(channel.dev_name());
    name.append("-");
    name.append(label.as_str());
    name.append(
        if os.is_windows() {
            ".exe"
        } else {
            ""
        },
    );
    name
}

/// Whether a certain version of the server program is wanted, or the newest one.
pub fn wants_own_version(channel: ReleaseChannel) -> (yes: bool)
    ensures
        yes == (channel != ReleaseChannel::Nightly && channel != ReleaseChannel::Dev),
{
    match channel {
        ReleaseChannel::Nightly => false,
        ReleaseChannel::Dev => false,
        _ => true,
    }
}

/// Where the server program stands on the server.
#[derive(Clone, Debug, PartialEq, Eq)]
pub struct ServerPaths {
    pub directory: String,
    pub binary: String,
    /// The packed program, while it is brought there.
    pub archive: String,
}

/// The path of a file in a directory.
pub open spec fn file_in(directory: Seq<char>, style: PathStyle, name: Seq<char>) -> Seq<char> {
    directory + remote_platform::separator_of(style) + name
}

/// The name of the packed program, while a process brings it.
pub open spec fn archive_name_of(binary_name: Seq<char>, process_id: u32) -> Seq<char> {
    binary_name + "-download-"@ + text::decimal(process_id as nat) + ".gz"@
}

/// The command that brings a file with `curl`.
pub open spec fn curl_command_of(url: Seq<char>, archive: Seq<char>, timeout: Option<u16>) -> Seq<
    char,
> {
    "curl -f -L --connect-timeout "@ + text::decimal(download_timeout(timeout) as nat) + " '"@ + url
        + "' -o '"@ + archive + "'"@
}

/// The command that brings a file with `wget`.
pub open spec fn wget_command_of(url: Seq<char>, archive: Seq<char>, timeout: Option<u16>) -> Seq<
    char,
> {
    "wget --connect-timeout "@ + text::decimal(download_timeout(timeout) as nat) + " --tries 1 '"@
        + url + "' -O '"@ + archive + "'"@
}

impl ServerPaths {
    /// The places for a program in a directory, for the process with a number.
    pub fn new(directory: &str, style: PathStyle, binary_name: &str, process_id: u32) -> (paths:
        Self)
        ensures
            paths.directory@ == directory@,
            paths.binary@ == file_in(directory@, style, binary_name@),
            paths.archive@ == file_in(
                directory@,
                style,
                archive_name_of(binary_name@, process_id),
            ),
    {
        let mut archive_name = binary_name.to_owned();
        archive_name.append("-download-");
        archive_name.append(text::format_decimal(process_id as u64).as_str());
        archive_name.append(".gz");
        let mut root = directory.to_owned();
        root.append(style.separator());
        ServerPaths {
            directory: directory.to_owned(),
            binary: text::concat(root.as_str(), binary_name),
            archive: text::concat(root.as_str(), archive_name.as_str()),
        }
    }

    /// The command that tells whether the program is there.
    pub fn check_command(&self) -> (command: String)
        ensures
            command@ == self.binary@ + " version"@,
    {
        text::concat(self.binary.as_str(), " version")
    }

    /// The command that makes the directory.
    pub fn make_directory_command(&self) -> (command: String)
        ensures
            command@ == "mkdir -p "@ + self.directory@,
    {
        text::concat("mkdir -p ", self.directory.as_str())
    }

    /// The command that brings the packed program with `curl`.
    pub fn curl_command(&self, url: &str, timeout: Option<u16>) -> (command: String)
        ensures
            command@ == curl_command_of(url@, self.archive@, timeout),
    {
        let mut command = "curl -f -L --connect-timeout ".to_owned();
        command.append(timeout_text(timeout).as_str());
        command.append(" '");
        command.append(url);
        command.append("' -o '");
        command.append(self.archive.as_str());
        command.append("'");
        command
    }

    /// The command that brings the packed program with `wget`.
    pub fn wget_command(&self, url: &str, timeout: Option<u16>) -> (command: String)
        ensures
            command@ == wget_command_of(url@, self.archive@, timeout),
    {
        let mut command = "wget --connect-timeout ".to_owned();
        command.append(timeout_text(timeout).as_str());
        command.append(" --tries 1 '");
        command.append(url);
        command.append("' -O '");
        command.append(self.archive.as_str());
        command.append("'");
        command
    }

    /// The script that unpacks the program and puts it in its place.
    pub fn extract_command(&self) -> (script: String)
        ensures
            script@ == extract_script_of(self.archive@, self.binary@),
    {
        extract_script(self.archive.as_str(), self.binary.as_str())
    }

    /// The command that tells whether the unpacked program runs.
    pub fn verify_command(&self) -> (command: String)
        ensures
            command@ == escaped(self.binary@) + " version"@,
    {
        text::concat(shell_escape(self.binary.as_str()).as_str(), " version")
    }
}

/// How many seconds a download on the server may wait for a connection.
pub open spec fn download_timeout(timeout: Option<u16>) -> u16 {
    match timeout {
        Some(seconds) => seconds,
        None => 10,
    }
}

fn timeout_text(timeout: Option<u16>) -> (result: String)
    ensures
        result@ == text::decimal(download_timeout(timeout) as nat),
{
    let seconds: u16 = match timeout {
        Some(seconds) => seconds,
        None => 10,
    };
    text::format_decimal(seconds as u64)
}

/// A text with each single quote written as `'\''`.
pub open spec fn quotes_escaped(content: Seq<char>) -> Seq<char>
    decreases content.len(),
{
    if content.len() == 0 {
        Seq::empty()
    } else {
        quotes_escaped(content.drop_last()) + (if content.last() == '\'' {
            "'\\''"@
        } else {
            seq![content.last()]
        })
    }
}

/// A text as one word of a shell.
pub open spec fn escaped(content: Seq<char>) -> Seq<char> {
    "'"@ + quotes_escaped(content) + "'"@
}

/// A text as one word of a shell.
pub fn shell_escape(content: &str) -> (word: String)
    ensures
        word@ == escaped(content@),
{
    let chars = text::chars_of(content);
    let mut inner = String::new();
    let mut i: usize = 0;
    while i < chars.len()
        invariant
            chars@ == content@,
            i <= chars@.len(),
            inner@ == quotes_escaped(content@.take(i as int)),
        decreases chars@.len() - i,
    {
        proof {
            let taken = content@.take(i + 1);
            assert(taken.drop_last() =~= content@.take(i as int));
            assert(taken.last() == content@[i as int]);
        }
        let c = chars[i];
        if c == '\'' {
            inner.append("'\\''");
        } else {
            inner.push(c);
            assert(inner@ =~= quotes_escaped(content@.take(i as int)) + seq![c]);
        }
        i = i + 1;
    }
    assert(content@.take(content@.len() as int) =~= content@);
    let mut word = "'".to_owned();
    word.append(inner.as_str());
    word.append("'");
    word
}

/// How a shell reads a word of single quotes and backslashes: what stands between single
/// quotes is taken as it is, and a character behind a backslash outside of them too.
pub open spec fn shell_reads(word: Seq<char>, quoted: bool) -> Option<Seq<char>>
    decreases word.len(),
{
    if word.len() == 0 {
        if quoted {
            None
        } else {
            Some(Seq::empty())
        }
    } else if word[0] == '\'' {
        shell_reads(word.skip(1), !quoted)
    } else if quoted {
        match shell_reads(word.skip(1), true) {
            Some(rest) => Some(seq![word[0]] + rest),
            None => None,
        }
    } else if word[0] == '\\' && word.len() > 1 {
        match shell_reads(word.skip(2), false) {
            Some(rest) => Some(seq![word[1]] + rest),
            None => None,
        }
    } else {
        None
    }
}

proof fn lemma_escaped_inside(content: Seq<char>, tail: Seq<char>)
    requires
        shell_reads(tail, true) is Some,
    ensures
        shell_reads(quotes_escaped(content) + tail, true) == Some(
            content + shell_reads(tail, true)->0,
        ),
    decreases content.len(),
{
    if content.len() == 0 {
        assert(quotes_escaped(content) + tail =~= tail);
        assert(content + shell_reads(tail, true)->0 =~= shell_reads(tail, true)->0);
    } else {
        let c = content.last();
        let part = if c == '\'' {
            "'\\''"@
        } else {
            seq![c]
        };
        let longer = part + tail;
        if c == '\'' {
            reveal_strlit("'\\''");
            assert(part =~= seq!['\'', '\\', '\'', '\'']);
            assert(longer.skip(1) =~= seq!['\\', '\'', '\''] + tail);
            assert(longer.skip(1).skip(2) =~= seq!['\''] + tail);
            assert((seq!['\''] + tail).skip(1) =~= tail);
            assert(shell_reads(seq!['\''] + tail, false) == shell_reads(tail, true));
            assert(shell_reads(longer.skip(1), false) == Some(
                seq!['\''] + shell_reads(tail, true)->0,
            ));
        } else {
            assert(longer.skip(1) =~= tail);
        }
        assert(shell_reads(longer, true) == Some(seq![c] + shell_reads(tail, true)->0));
        lemma_escaped_inside(content.drop_last(), longer);
        assert(quotes_escaped(content) + tail =~= quotes_escaped(content.drop_last()) + longer);
        assert(content.drop_last() + (seq![c] + shell_reads(tail, true)->0) =~= content
            + shell_reads(tail, true)->0);
    }
}

/// A shell reads an escaped text as that text, whatever it holds.
pub proof fn law_shell_reads_escaped_text_back(content: Seq<char>)
    ensures
        shell_reads(escaped(content), false) == Some(content),
{
    reveal_strlit("'");
    let tail = "'"@;
    assert(tail =~= seq!['\'']);
    assert(tail.skip(1) =~= Seq::<char>::empty());
    assert(shell_reads(tail, true) == shell_reads(Seq::<char>::empty(), false));
    assert(shell_reads(tail, true) == Some(Seq::<char>::empty()));
    lemma_escaped_inside(content, tail);
    assert(content + Seq::<char>::empty() =~= content);
    let word = escaped(content);
    assert(word.skip(1) =~= quotes_escaped(content) + tail);
}

/// The script that puts the program in its place, unpacking it if it is packed.
pub open spec fn extract_script_of(archive: Seq<char>, binary: Seq<char>) -> Seq<char> {
    if ".gz"@.is_suffix_of(archive) {
        let unpacked = escaped(archive.take(archive.len() - 3));
        "gunzip -f "@ + escaped(archive) + " && chmod 755 "@ + unpacked + " && mv "@ + unpacked
            + " "@ + escaped(binary)
    } else {
        "chmod 755 "@ + escaped(archive) + " && mv "@ + escaped(archive) + " "@ + escaped(binary)
    }
}

/// The script that puts the program in its place, unpacking it if it is packed.
pub fn extract_script(archive: &str, binary: &str) -> (script: String)
    ensures
        script@ == extract_script_of(archive@, binary@),
{
    let chars = text::chars_of(archive);
    let suffix = text::chars_of(".gz");
    proof {
        reveal_strlit(".gz");
    }
    let packed = chars.len() >= 3 && text::matches_at(
        chars.as_slice(),
        suffix.as_slice(),
        chars.len() - 3,
    );
    assert(packed == ".gz"@.is_suffix_of(archive@)) by {
        if archive@.len() >= 3 {
            assert(archive@.subrange(archive@.len() - 3, archive@.len() as int) =~= ".gz"@
                <==> packed);
        }
    }
    let whole = shell_escape(archive);
    let target = shell_escape(binary);
    if packed {
        let stem = text::text_of(chars.as_slice(), 0, chars.len() - 3);
        assert(stem@ =~= archive@.take(archive@.len() - 3));
        let unpacked = shell_escape(stem.as_str());
        let mut script = "gunzip -f ".to_owned();
        script.append(whole.as_str());
        script.append(" && chmod 755 ");
        script.append(unpacked.as_str());
        script.append(" && mv ");
        script.append(unpacked.as_str());
        script.append(" ");
        script.append(target.as_str());
        script
    } else {
        let mut script = "chmod 755 ".to_owned();
        script.append(whole.as_str());
        script.append(" && mv ");
        script.append(whole.as_str());
        script.append(" ");
        script.append(target.as_str());
        script
    }
}

/// What came of a step in bringing the server program to the server.
#[derive(Debug, PartialEq, Eq)]
pub enum BinaryEvent {
    /// What the check printed, if it could be run.
    Checked(Option<String>),
    /// Where the program can be had, if the release list tells.
    UrlFound(Result<Option<String>, String>),
    /// Whether the server could download the program itself.
    DownloadedOnServer(bool),
    /// Where the program was downloaded to on this side.
    DownloadedLocally(Result<String, String>),
    Uploaded(Result<(), String>),
    Extracted(Result<(), String>),
}

/// What to do next to bring the server program to the server.
#[derive(Clone, Debug, PartialEq, Eq)]
pub enum BinaryStep {
    /// Ask the release list where the program can be had.
    FindUrl,
    DownloadOnServer(String),
    DownloadLocally,
    /// Upload the file at this path.
    Upload(String),
    Extract,
    /// The program is in its place.
    Ready,
    Fail(String),
}

/// What to do next to bring the server program to the server.
pub enum BinaryStepView {
    FindUrl,
    DownloadOnServer(Seq<char>),
    DownloadLocally,
    Upload(Seq<char>),
    Extract,
    Ready,
    Fail(Seq<char>),
}

impl View for BinaryStep {
    type V = BinaryStepView;

    open spec fn view(&self) -> BinaryStepView {
        match self {
            BinaryStep::FindUrl => BinaryStepView::FindUrl,
            BinaryStep::DownloadOnServer(url) => BinaryStepView::DownloadOnServer(url@),
            BinaryStep::DownloadLocally => BinaryStepView::DownloadLocally,
            BinaryStep::Upload(path) => BinaryStepView::Upload(path@),
            BinaryStep::Extract => BinaryStepView::Extract,
            BinaryStep::Ready => BinaryStepView::Ready,
            BinaryStep::Fail(message) => BinaryStepView::Fail(message@),
        }
    }
}

/// What follows what came of a step; a program that is already there is used as it is, and
/// the server downloads it itself unless it is to be uploaded.
pub open spec fn after_binary_event(event: BinaryEvent, upload_over_ssh: bool) -> BinaryStepView {
    match event {
        BinaryEvent::Checked(output) => if output is Some && !text::is_blank(output->0@) {
            BinaryStepView::Ready
        } else if upload_over_ssh {
            BinaryStepView::DownloadLocally
        } else {
            BinaryStepView::FindUrl
        },
        BinaryEvent::UrlFound(found) => match found {
            Ok(Some(url)) => BinaryStepView::DownloadOnServer(url@),
            Ok(None) => BinaryStepView::DownloadLocally,
            Err(cause) => BinaryStepView::Fail(cause@),
        },
        BinaryEvent::DownloadedOnServer(done) => if done {
            BinaryStepView::Extract
        } else {
            BinaryStepView::DownloadLocally
        },
        BinaryEvent::DownloadedLocally(result) => match result {
            Ok(path) => BinaryStepView::Upload(path@),
            Err(cause) => BinaryStepView::Fail(
                "downloading server binary locally: "@ + cause@,
            ),
        },
        BinaryEvent::Uploaded(result) => match result {
            Ok(()) => BinaryStepView::Extract,
            Err(cause) => BinaryStepView::Fail("uploading server binary: "@ + cause@),
        },
        BinaryEvent::Extracted(result) => match result {
            Ok(()) => BinaryStepView::Ready,
            Err(cause) => BinaryStepView::Fail("extracting server binary: "@ + cause@),
        },
    }
}

/// What follows what came of a step in bringing the server program to the server.
pub fn next_binary_step(event: BinaryEvent, upload_over_ssh: bool) -> (step: BinaryStep)
    ensures
        step@ == after_binary_event(event, upload_over_ssh),
{
    match event {
        BinaryEvent::Checked(output) => {
            let there = match &output {
                Some(output) => !text::trim(output.as_str()).as_str().is_empty(),
                None => false,
            };
            if there {
                BinaryStep::Ready
            } else if upload_over_ssh {
                BinaryStep::DownloadLocally
            } else {
                BinaryStep::FindUrl
            }
        },
        BinaryEvent::UrlFound(found) => match found {
            Ok(Some(url)) => BinaryStep::DownloadOnServer(url),
            Ok(None) => BinaryStep::DownloadLocally,
            Err(cause) => BinaryStep::Fail(cause),
        },
        BinaryEvent::DownloadedOnServer(done) => if done {
            BinaryStep::Extract
        } else {
            BinaryStep::DownloadLocally
        },
        BinaryEvent::DownloadedLocally(result) => match result {
            Ok(path) => BinaryStep::Upload(path),
            Err(cause) => BinaryStep::Fail(
                text::concat("downloading server binary locally: ", cause.as_str()),
            ),
        },
        BinaryEvent::Uploaded(result) => match result {
            Ok(()) => BinaryStep::Extract,
            Err(cause) => BinaryStep::Fail(
                text::concat("uploading server binary: ", cause.as_str()),
            ),
        },
        BinaryEvent::Extracted(result) => match result {
            Ok(()) => BinaryStep::Ready,
            Err(cause) => BinaryStep::Fail(
                text::concat("extracting server binary: ", cause.as_str()),
            ),
        },
    }
}

/// How far a step has come in bringing the server program to the server.
pub open spec fn progress(event: BinaryEvent) -> nat {
    match event {
        BinaryEvent::Checked(_) => 0,
        BinaryEvent::UrlFound(_) => 1,
        BinaryEvent::DownloadedOnServer(_) => 2,
        BinaryEvent::DownloadedLocally(_) => 3,
        BinaryEvent::Uploaded(_) => 4,
        BinaryEvent::Extracted(_) => 5,
    }
}

/// Whether an event is what comes of a step.
pub open spec fn answers(event: BinaryEvent, step: BinaryStepView) -> bool {
    match step {
        BinaryStepView::FindUrl => event is UrlFound,
        BinaryStepView::DownloadOnServer(_) => event is DownloadedOnServer,
        BinaryStepView::DownloadLocally => event is DownloadedLocally,
        BinaryStepView::Upload(_) => event is Uploaded,
        BinaryStepView::Extract => event is Extracted,
        _ => false,
    }
}

/// Bringing the server program to the server comes to an end: no step is done twice.
pub proof fn law_bringing_the_binary_ends(event: BinaryEvent, next: BinaryEvent, upload_over_ssh: bool)
    requires
        answers(next, after_binary_event(event, upload_over_ssh)),
    ensures
        progress(next) > progress(event),
{
}

/// The server is only said to be ready if its program answered or was put in its place.
pub proof fn law_ready_binary_is_in_its_place(event: BinaryEvent, upload_over_ssh: bool)
    requires
        after_binary_event(event, upload_over_ssh) is Ready,
    ensures
        event matches BinaryEvent::Checked(output) ==> output is Some && !text::is_blank(
            output->0@,
        ),
        event is Checked || (event matches BinaryEvent::Extracted(result) && result is Ok),
{
}

/// What the server downloads the program with.
#[derive(Clone, Copy, Debug, PartialEq, Eq, Structural)]
pub enum DownloadTool {
    Curl,
    Wget,
}

/// What follows an attempt of the server to download the program.
#[derive(Clone, Debug, PartialEq, Eq)]
pub enum ServerDownloadStep {
    Try(DownloadTool),
    Done,
    Failed(String),
}

/// What follows an attempt of the server to download the program.
pub enum ServerDownloadView {
    Try(DownloadTool),
    Done,
    Failed(Seq<char>),
}

impl View for ServerDownloadStep {
    type V = ServerDownloadView;

    open spec fn view(&self) -> ServerDownloadView {
        match self {
            ServerDownloadStep::Try(tool) => ServerDownloadView::Try(*tool),
            ServerDownloadStep::Done => ServerDownloadView::Done,
            ServerDownloadStep::Failed(message) => ServerDownloadView::Failed(message@),
        }
    }
}

/// What follows an attempt of the server to download the program.
pub open spec fn after_server_download(
    tool: DownloadTool,
    result: Result<(), String>,
) -> ServerDownloadView {
    match (result, tool) {
        (Ok(()), _) => ServerDownloadView::Done,
        (Err(_), DownloadTool::Curl) => ServerDownloadView::Try(DownloadTool::Wget),
        (Err(cause), DownloadTool::Wget) => ServerDownloadView::Failed(
            "Neither curl nor wget succeeded: "@ + cause@,
        ),
    }
}

/// What follows an attempt of the server to download the program: `wget` is tried exactly if
/// `curl` failed.
pub fn next_server_download_step(tool: DownloadTool, result: Result<(), String>) -> (step:
    ServerDownloadStep)
    ensures
        step@ == after_server_download(tool, result),
{
    match result {
        Ok(()) => ServerDownloadStep::Done,
        Err(cause) => match tool {
            DownloadTool::Curl => ServerDownloadStep::Try(DownloadTool::Wget),
            DownloadTool::Wget => ServerDownloadStep::Failed(
                server_download_error(cause.as_str()),
            ),
        },
    }
}

/// What is told if the server could download the program neither way.
pub fn server_download_error(cause: &str) -> (message: String)
    ensures
        message@ == "Neither curl nor wget succeeded: "@ + cause@,
{
    text::concat("Neither curl nor wget succeeded: ", cause)
}

/// How many bytes are written to the server at a time.
pub const CHUNK_SIZE: usize = 32768;

/// The contents of pieces one behind the other.
pub open spec fn put_together(chunks: Seq<Vec<u8>>) -> Seq<u8>
    decreases chunks.len(),
{
    if chunks.len() == 0 {
        Seq::empty()
    } else {
        put_together(chunks.drop_last()) + chunks.last()@
    }
}

/// The pieces in which data is written to the server: all of it in its order, no piece
/// empty, and every piece but the last one as large as may be.
pub fn upload_chunks(data: &[u8]) -> (chunks: Vec<Vec<u8>>)
    ensures
        put_together(chunks@) == data@,
        forall|i: int|
            0 <= i < chunks@.len() ==> 1 <= (#[trigger] chunks@[i])@.len() <= CHUNK_SIZE,
        forall|i: int| 0 <= i < chunks@.len() - 1 ==> (#[trigger] chunks@[i])@.len() == CHUNK_SIZE,
{
    let mut chunks: Vec<Vec<u8>> = Vec::new();
    let mut at: usize = 0;
    assert(data@.take(0) =~= put_together(chunks@));
    while at < data.len()
        invariant
            at <= data@.len(),
            put_together(chunks@) == data@.take(at as int),
            forall|i: int|
                0 <= i < chunks@.len() ==> 1 <= (#[trigger] chunks@[i])@.len() <= CHUNK_SIZE,
            at < data@.len() ==> forall|i: int|
                0 <= i < chunks@.len() ==> (#[trigger] chunks@[i])@.len() == CHUNK_SIZE,
            forall|i: int|
                0 <= i < chunks@.len() - 1 ==> (#[trigger] chunks@[i])@.len() == CHUNK_SIZE,
        decreases data@.len() - at,
    {
        let end: usize = if data.len() - at <= CHUNK_SIZE {
            data.len()
        } else {
            at + CHUNK_SIZE
        };
        let chunk = vstd::slice::slice_to_vec(vstd::slice::slice_subrange(data, at, end));
        let ghost before = chunks@;
        chunks.push(chunk);
        proof {
            assert(chunks@.drop_last() =~= before);
            assert(data@.take(at as int) + data@.subrange(at as int, end as int) =~= data@.take(
                end as int,
            ));
        }
        at = end;
    }
    assert(data@.take(data@.len() as int) =~= data@);
    chunks
}

/// Where a file of a directory goes on the server.
pub fn upload_path(directory: &str, file_name: &str) -> (path: String)
    ensures
        path@ == directory@ + "/"@ + file_name@,
{
    let mut path = directory.to_owned();
    path.append("/");
    path.append(file_name);
    path
}

// Forwarded ports.

/// What is told if a local port cannot be listened on.
pub fn bind_error(local_host: &str, local_port: u16, cause: &str) -> (message: String)
    ensures
        message@ == "Failed to bind local port "@ + local_host@ + ":"@ + text::decimal(
            local_port as nat,
        ) + ": "@ + cause@,
{
    let mut message = "Failed to bind local port ".to_owned();
    message.append(local_host);
    message.append(":");
    message.append(text::format_decimal(local_port as u64).as_str());
    message.append(": ");
    message.append(cause);
    message
}

/// What to do next to start forwarding ports.
#[derive(Clone, Copy, Debug, PartialEq, Eq, Structural)]
pub enum ForwardingStep {
    /// Listen on the port of the forward at this place.
    Bind(usize),
    /// All ports are listened on.
    Started,
    /// Stop listening on all ports, and fail.
    Abort,
}

/// What follows once the ports before a place are listened on, and whether the one at that
/// place is.
pub open spec fn forwarding_step_after(count: usize, tried: Option<(usize, bool)>) -> ForwardingStep {
    match tried {
        Some((at, bound)) => if !bound {
            ForwardingStep::Abort
        } else if at + 1 < count {
            ForwardingStep::Bind((at + 1) as usize)
        } else {
            ForwardingStep::Started
        },
        None => if count > 0 {
            ForwardingStep::Bind(0)
        } else {
            ForwardingStep::Started
        },
    }
}

/// What follows once the ports before a place are listened on, and whether the one at that
/// place is.
pub fn forwarding_step(count: usize, tried: Option<(usize, bool)>) -> (step: ForwardingStep)
    requires
        tried matches Some((at, _)) ==> at < count,
    ensures
        step == forwarding_step_after(count, tried),
{
    let next: usize = match tried {
        Some((at, bound)) => {
            if !bound {
                return ForwardingStep::Abort;
            }
            at + 1
        },
        None => 0,
    };
    if next < count {
        ForwardingStep::Bind(next)
    } else {
        ForwardingStep::Started
    }
}

// The connection.

/// A connection to a server.
#[derive(Clone, Debug, PartialEq, Eq)]
pub struct RusshRemoteConnection {
    pub connection_options: SshConnectionOptions,
    pub remote_binary_path: Option<String>,
    pub ssh_platform: RemotePlatform,
    pub ssh_path_style: PathStyle,
    pub ssh_shell: String,
    pub ssh_default_system_shell: String,
    pub killed: bool,
    pub helper_socket_path: String,
}

/// The state of a connection.
pub struct ConnectionView {
    pub options: OptionsView,
    pub binary_path: Option<Seq<char>>,
    pub platform: RemotePlatform,
    pub path_style: PathStyle,
    pub shell: Seq<char>,
    pub default_system_shell: Seq<char>,
    pub killed: bool,
    pub helper_socket_path: Seq<char>,
}

impl View for RusshRemoteConnection {
    type V = ConnectionView;

    open spec fn view(&self) -> ConnectionView {
        ConnectionView {
            options: self.connection_options@,
            binary_path: text::optional(self.remote_binary_path),
            platform: self.ssh_platform,
            path_style: self.ssh_path_style,
            shell: self.ssh_shell@,
            default_system_shell: self.ssh_default_system_shell@,
            killed: self.killed,
            helper_socket_path: self.helper_socket_path@,
        }
    }
}

/// How paths are written on a platform.
pub open spec fn style_of(os: RemoteOs) -> PathStyle {
    match os {
        RemoteOs::Windows => PathStyle::Windows,
        _ => PathStyle::Posix,
    }
}

/// The command that starts the proxy on the server.
pub open spec fn proxy_command_of(path: Seq<char>, identifier: Seq<char>, reconnect: bool) -> Seq<
    char,
> {
    path + " proxy --identifier "@ + identifier + (if reconnect {
        " --reconnect"@
    } else {
        ""@
    })
}

/// The connection once the login succeeded and the platform and the shell are known.
pub open spec fn connected_to(
    options: OptionsView,
    platform: RemotePlatform,
    shell: Seq<char>,
) -> ConnectionView {
    ConnectionView {
        options,
        binary_path: None,
        platform,
        path_style: style_of(platform.os),
        shell,
        default_system_shell: if platform.os == RemoteOs::Windows {
            shell
        } else {
            "/bin/sh"@
        },
        killed: false,
        helper_socket_path: Seq::empty(),
    }
}

impl RusshRemoteConnection {
    /// The connection once the login succeeded and the platform and the shell are known.
    pub fn new(
        connection_options: SshConnectionOptions,
        ssh_platform: RemotePlatform,
        ssh_shell: String,
    ) -> (connection: Self)
        ensures
            connection@ == connected_to(connection_options@, ssh_platform, ssh_shell@),
    {
        let (ssh_path_style, ssh_default_system_shell) = match ssh_platform.os {
            RemoteOs::Windows => (PathStyle::Windows, ssh_shell.clone()),
            _ => (PathStyle::Posix, "/bin/sh".to_owned()),
        };
        RusshRemoteConnection {
            connection_options,
            remote_binary_path: None,
            ssh_platform,
            ssh_path_style,
            ssh_shell,
            ssh_default_system_shell,
            killed: false,
            helper_socket_path: String::new(),
        }
    }

    /// Notes where the server program stands.
    pub fn set_remote_binary_path(&mut self, path: String)
        ensures
            final(self)@ == (ConnectionView { binary_path: Some(path@), ..old(self)@ }),
    {
        self.remote_binary_path = Some(path);
    }

    /// Notes where the helper process reaches this one.
    pub fn set_helper_socket_path(&mut self, path: String)
        ensures
            final(self)@ == (ConnectionView { helper_socket_path: path@, ..old(self)@ }),
    {
        self.helper_socket_path = path;
    }

    /// Notes that the connection is ended.
    pub fn kill(&mut self)
        ensures
            final(self)@ == (ConnectionView { killed: true, ..old(self)@ }),
    {
        self.killed = true;
    }

    /// Whether the connection was ended.
    pub fn has_been_killed(&self) -> (yes: bool)
        ensures
            yes == self@.killed,
    {
        self.killed
    }

    /// How the server is reached.
    pub fn connection_options(&self) -> (options: RemoteConnectionOptions)
        ensures
            options is Ssh,
            options->Ssh_0@ == self@.options,
    {
        RemoteConnectionOptions::Ssh(self.connection_options.duplicate())
    }

    /// The shell of the user on the server.
    pub fn shell(&self) -> (shell: String)
        ensures
            shell@ == self@.shell,
    {
        self.ssh_shell.clone()
    }

    /// The shell that every such server has.
    pub fn default_system_shell(&self) -> (shell: String)
        ensures
            shell@ == self@.default_system_shell,
    {
        self.ssh_default_system_shell.clone()
    }

    /// How paths are written on the server.
    pub fn path_style(&self) -> (style: PathStyle)
        ensures
            style == self@.path_style,
    {
        self.ssh_path_style
    }

    /// Whether programs of the host of a virtual machine can be reached; never so here.
    pub fn has_wsl_interop(&self) -> (yes: bool)
        ensures
            !yes,
    {
        false
    }

    /// The command that runs a program on the server, through the helper process.
    pub fn build_command(
        &self,
        executable_path: &str,
        program: &Option<QuotedProgram>,
        variables: &[QuotedVariable],
        working_dir: Option<&str>,
        separator: &str,
        interactive: Interactive,
    ) -> (result: Result<CommandTemplate, ExecCommandError>)
        ensures
            match (
                result,
                exec_command(
                    match working_dir {
                        Some(directory) => Some(directory@),
                        None => None,
                    },
                    separator@,
                    variables@,
                    *program,
                    self@.shell,
                ),
            ) {
                (Ok(template), Ok(command)) => {
                    &&& template.program@ == executable_path@
                    &&& text::texts(template.args@) == russh_helper::helper_args(
                        self@.helper_socket_path,
                        command,
                        interactive == Interactive::Yes,
                    )
                    &&& template.env@.len() == 0
                },
                (Err(error), Err(expected)) => error@ == expected,
                _ => false,
            },
    {
        match build_exec_command(
            working_dir,
            separator,
            variables,
            program,
            self.ssh_shell.as_str(),
        ) {
            Ok(command) => Ok(
                russh_helper::build_russh_helper_command_template(
                    executable_path,
                    self.helper_socket_path.as_str(),
                    command,
                    interactive,
                ),
            ),
            Err(error) => Err(error),
        }
    }

    /// Ports are forwarded inside of this process: the name that stands for a command.
    pub fn build_forward_ports_command(&self) -> (template: CommandTemplate)
        ensures
            template.program@ == "russh-internal-forward"@,
            template.args@.len() == 0,
            template.env@.len() == 0,
    {
        CommandTemplate {
            program: "russh-internal-forward".to_owned(),
            args: Vec::new(),
            env: Vec::new(),
        }
    }

    /// The command that starts the proxy on the server.
    pub fn proxy_command(&self, unique_identifier: &str, reconnect: bool) -> (result: Result<
        String,
        String,
    >)
        ensures
            match self@.binary_path {
                Some(path) => result is Ok && result->Ok_0@ == proxy_command_of(
                    path,
                    unique_identifier@,
                    reconnect,
                ),
                None => result is Err && result->Err_0@ == "Remote binary path not set"@,
            },
    {
        match &self.remote_binary_path {
            Some(path) => {
                let mut command = path.clone();
                command.append(" proxy --identifier ");
                command.append(unique_identifier);
                command.append(
                    if reconnect {
                        " --reconnect"
                    } else {
                        ""
                    },
                );
                Ok(command)
            },
            None => Err("Remote binary path not set".to_owned()),
        }
    }
}

// What a login comes to.

/// A refusal never ends a login before the user was asked for a password: another way follows
/// that was not tried yet, or the question. If there is a key, it is tried before the question,
/// unless a password came with the options.
pub proof fn law_refusal_leads_on(way: LoginTry, has_key: bool)
    requires
        way != LoginTry::AskedPassword,
    ensures
        ({
            let next = after_reply(way, LoginReply::Refused, has_key);
            &&& next !is Fail
            &&& next is AskPassword || (next matches LoginStepView::Try(other) && rank(other) > rank(
                way,
            ) && other != LoginTry::AskedPassword)
            &&& next matches LoginStepView::Try(other) ==> has_key
            &&& way is NoCredentials && has_key ==> next !is AskPassword
        }),
{
}

/// A login that the server refuses in every way ends with the failure of the password that the
/// user was asked for, and only that.
pub proof fn law_only_the_last_refusal_fails(way: LoginTry, has_key: bool)
    ensures
        after_reply(way, LoginReply::Refused, has_key) is Fail <==> way is AskedPassword,
{
}

/// An error of the server ends the login and is told, with its cause, unless nothing was at stake
/// yet: without credentials it counts as a refusal.
pub proof fn law_login_errors_are_told(way: LoginTry, cause: String, has_key: bool)
    ensures
        ({
            let next = after_reply(way, LoginReply::Error(cause), has_key);
            if way is NoCredentials {
                next == after_reply(way, LoginReply::Refused, has_key)
            } else {
                next is Fail && cause@.is_suffix_of(next->Fail_0)
            }
        }),
{
    let next = after_reply(way, LoginReply::Error(cause), has_key);
    if !(way is NoCredentials) {
        let message = next->Fail_0;
        assert(message.subrange(message.len() - cause@.len(), message.len() as int) =~= cause@);
    }
}

/// A password that the user gives is tried; without one the login ends, and if it cannot be read,
/// the cause is told.
pub proof fn law_given_password_is_tried(reply: PromptReply)
    ensures
        after_prompt(reply) == LoginStepView::Try(LoginTry::AskedPassword) <==> reply is Given,
        !(reply is Given) ==> after_prompt(reply) is Fail,
        reply matches PromptReply::Unreadable(cause) ==> cause@.is_suffix_of(
            after_prompt(reply)->Fail_0,
        ),
{
    if let PromptReply::Unreadable(cause) = reply {
        let message = after_prompt(reply)->Fail_0;
        assert(message.subrange(message.len() - cause@.len(), message.len() as int) =~= cause@);
    }
}

/// What a login comes to, step by step, with a server that accepts some ways and refuses all
/// others, and a user who gives a password or does not.
pub open spec fn login_result(
    step: LoginStepView,
    accepted: Set<LoginTry>,
    has_key: bool,
    gives_password: bool,
    steps: nat,
) -> LoginStepView
    decreases steps,
{
    if steps == 0 {
        step
    } else {
        let left = (steps - 1) as nat;
        match step {
            LoginStepView::Try(way) => {
                let reply = if accepted.contains(way) {
                    LoginReply::Accepted
                } else {
                    LoginReply::Refused
                };
                login_result(
                    after_reply(way, reply, has_key),
                    accepted,
                    has_key,
                    gives_password,
                    left,
                )
            },
            LoginStepView::AskPassword => {
                let reply = if gives_password {
                    PromptReply::Given
                } else {
                    PromptReply::Cancelled
                };
                login_result(after_prompt(reply), accepted, has_key, gives_password, left)
            },
            _ => step,
        }
    }
}

/// A login succeeds exactly if the server accepts a way that the user has: the password of the
/// options, or else nothing or the key, or the password that the user gives when asked.
pub proof fn law_login_succeeds_if_it_can(
    accepted: Set<LoginTry>,
    has_password: bool,
    has_key: bool,
    gives_password: bool,
)
    ensures
        ({
            let first = LoginStepView::Try(first_try(has_password));
            let result = login_result(first, accepted, has_key, gives_password, 8);
            let can = {
                ||| has_password && accepted.contains(LoginTry::GivenPassword)
                ||| !has_password && accepted.contains(LoginTry::NoCredentials)
                ||| !has_password && has_key && accepted.contains(LoginTry::Key)
                ||| gives_password && accepted.contains(LoginTry::AskedPassword)
            };
            if can {
                result is LoggedIn
            } else {
                result is Fail
            }
        }),
{
    reveal_with_fuel(login_result, 9);
}

// What bringing the server program comes to.

/// Whether something that was tried for the server program is reported to have failed.
pub open spec fn reports_failure(event: BinaryEvent) -> bool {
    match event {
        BinaryEvent::Checked(_) => false,
        BinaryEvent::UrlFound(result) => result is Err,
        BinaryEvent::DownloadedOnServer(_) => false,
        BinaryEvent::DownloadedLocally(result) => result is Err,
        BinaryEvent::Uploaded(result) => result is Err,
        BinaryEvent::Extracted(result) => result is Err,
    }
}

/// The cause of a reported failure.
pub open spec fn cause_of(event: BinaryEvent) -> Seq<char> {
    match event {
        BinaryEvent::UrlFound(Err(cause)) => cause@,
        BinaryEvent::DownloadedLocally(Err(cause)) => cause@,
        BinaryEvent::Uploaded(Err(cause)) => cause@,
        BinaryEvent::Extracted(Err(cause)) => cause@,
        _ => Seq::empty(),
    }
}

/// Bringing the server program fails exactly if something is reported to have failed, and the
/// cause is told. That the server cannot download the program itself is no failure.
pub proof fn law_only_reported_failures_fail(event: BinaryEvent, upload_over_ssh: bool)
    ensures
        after_binary_event(event, upload_over_ssh) is Fail <==> reports_failure(event),
        reports_failure(event) ==> cause_of(event).is_suffix_of(
            after_binary_event(event, upload_over_ssh)->Fail_0,
        ),
{
    if reports_failure(event) {
        let message = after_binary_event(event, upload_over_ssh)->Fail_0;
        let cause = cause_of(event);
        assert(message.subrange(message.len() - cause.len(), message.len() as int) =~= cause);
    }
}

/// The archive is unpacked exactly once it has arrived on the server; what is uploaded is the file
/// that was downloaded; the server downloads from the address that was found, and from nowhere
/// else; and it is not asked to if the program is to be uploaded.
pub proof fn law_binary_steps_follow_what_came(event: BinaryEvent, upload_over_ssh: bool)
    ensures
        ({
            let step = after_binary_event(event, upload_over_ssh);
            &&& step is Extract <==> (event matches BinaryEvent::DownloadedOnServer(done) && done)
                || (event matches BinaryEvent::Uploaded(result) && result is Ok)
            &&& event matches BinaryEvent::DownloadedLocally(Ok(path)) ==> step
                == BinaryStepView::Upload(path@)
            &&& step is Upload ==> event is DownloadedLocally
            &&& event matches BinaryEvent::UrlFound(Ok(Some(url))) ==> step
                == BinaryStepView::DownloadOnServer(url@)
            &&& step is DownloadOnServer ==> event is UrlFound
            &&& step is FindUrl ==> event is Checked && !upload_over_ssh
            &&& event is Checked && upload_over_ssh && !(step is Ready) ==> step is DownloadLocally
        }),
{
}

/// What bringing the server program comes to, step by step, with what comes of each step.
pub open spec fn binary_result(
    event: BinaryEvent,
    reply: spec_fn(BinaryStepView) -> BinaryEvent,
    upload_over_ssh: bool,
    steps: nat,
) -> BinaryStepView
    decreases steps,
{
    let step = after_binary_event(event, upload_over_ssh);
    if steps == 0 || step is Ready || step is Fail {
        step
    } else {
        binary_result(reply(step), reply, upload_over_ssh, (steps - 1) as nat)
    }
}

/// If nothing that is tried is reported to have failed, the server program gets to its place,
/// whether the server can download it or not.
pub proof fn law_binary_gets_to_its_place(
    output: Option<String>,
    reply: spec_fn(BinaryStepView) -> BinaryEvent,
    upload_over_ssh: bool,
)
    requires
        forall|step: BinaryStepView|
            !(step is Ready || step is Fail) ==> answers(#[trigger] reply(step), step)
                && !reports_failure(reply(step)),
    ensures
        binary_result(BinaryEvent::Checked(output), reply, upload_over_ssh, 6) is Ready,
{
    reveal_with_fuel(binary_result, 7);
}

// How command lines are read.

/// What a shell reads inside of double quotes, up to the closing one: the home directory stands
/// for `$HOME`, and all other characters for themselves. With a backslash, a backquote or another
/// variable nothing is said.
pub open spec fn reads_in_double_quotes(rest: Seq<char>, home: Seq<char>) -> Option<Seq<char>>
    decreases rest.len(),
{
    if rest.len() == 0 || rest[0] == '\\' || rest[0] == '`' {
        None
    } else if rest[0] == '"' {
        Some(Seq::empty())
    } else if rest[0] == '$' {
        if rest.len() > 5 && rest.take(5) =~= seq!['$', 'H', 'O', 'M', 'E'] && (rest[5] == '/'
            || rest[5] == '"') {
            match reads_in_double_quotes(rest.skip(5), home) {
                Some(read) => Some(home + read),
                None => None,
            }
        } else {
            None
        }
    } else {
        match reads_in_double_quotes(rest.skip(1), home) {
            Some(read) => Some(seq![rest[0]] + read),
            None => None,
        }
    }
}

/// The directory that a command line goes to first, for a user with a home directory.
pub open spec fn goes_to(command: Seq<char>, home: Seq<char>) -> Option<Seq<char>> {
    if command.len() > 4 && command.take(4) =~= seq!['c', 'd', ' ', '"'] {
        reads_in_double_quotes(command.skip(4), home)
    } else {
        None
    }
}

/// Whether every character of a text stands for itself inside of double quotes.
pub open spec fn is_plain(content: Seq<char>) -> bool {
    forall|i: int|
        0 <= i < content.len() ==> (#[trigger] content[i]) != '"' && content[i] != '\\' && content[i]
            != '`' && content[i] != '$'
}

proof fn lemma_plain_reads(content: Seq<char>, tail: Seq<char>, home: Seq<char>)
    requires
        is_plain(content),
        tail.len() > 0,
        tail[0] == '"',
    ensures
        reads_in_double_quotes(content + tail, home) == Some(content),
    decreases content.len(),
{
    let whole = content + tail;
    if content.len() == 0 {
        assert(whole[0] == tail[0]);
    } else {
        assert(whole[0] == content[0]);
        let rest = content.skip(1);
        assert forall|i: int| 0 <= i < rest.len() implies (#[trigger] rest[i]) != '"' && rest[i]
            != '\\' && rest[i] != '`' && rest[i] != '$' by {
            assert(rest[i] == content[i + 1]);
        }
        lemma_plain_reads(rest, tail, home);
        assert(whole.skip(1) =~= rest + tail);
        assert(seq![content[0]] + rest =~= content);
    }
}

proof fn lemma_leading_slashes(slashes: nat, rest: Seq<char>)
    requires
        rest.len() > 0 ==> rest[0] != '/',
    ensures
        without_leading(Seq::new(slashes, |i: int| '/') + rest, '/') == rest,
    decreases slashes,
{
    let whole = Seq::new(slashes, |i: int| '/') + rest;
    if slashes == 0 {
        assert(whole =~= rest);
    } else {
        lemma_leading_slashes((slashes - 1) as nat, rest);
        assert(whole.skip(1) =~= Seq::new((slashes - 1) as nat, |i: int| '/') + rest);
    }
}

/// Read as a shell does, a command line goes to the directory that was asked for: to exactly that
/// one, unless it begins with `~/`. What is behind this, in the home directory, is meant then,
/// with any further slashes left out.
pub proof fn law_command_goes_to_its_directory(
    directory: Seq<char>,
    separator: Seq<char>,
    home: Seq<char>,
    slashes: nat,
    below: Seq<char>,
)
    ensures
        is_plain(directory) && !"~/"@.is_prefix_of(directory) ==> goes_to(
            change_directory(directory, separator),
            home,
        ) == Some(directory),
        is_plain(below) && (below.len() > 0 ==> below[0] != '/') ==> goes_to(
            change_directory("~/"@ + Seq::new(slashes, |i: int| '/') + below, separator),
            home,
        ) == Some(home + "/"@ + below),
{
    reveal_strlit("~/");
    reveal_strlit("cd \"");
    reveal_strlit("cd \"$HOME/");
    reveal_strlit("\" ");
    reveal_strlit("/");
    if is_plain(directory) && !"~/"@.is_prefix_of(directory) {
        let command = change_directory(directory, separator);
        let tail = "\" "@ + separator + " "@;
        lemma_plain_reads(directory, tail, home);
        assert(command.take(4) =~= seq!['c', 'd', ' ', '"']);
        assert(command.skip(4) =~= directory + tail);
    }
    if is_plain(below) && (below.len() > 0 ==> below[0] != '/') {
        let many = Seq::new(slashes, |i: int| '/');
        let whole = "~/"@ + many + below;
        assert(whole.subrange(0, 2) =~= "~/"@);
        assert("~/"@.is_prefix_of(whole));
        let untilded = Seq::new(slashes + 1, |i: int| '/') + below;
        assert(whole.skip(1) =~= untilded);
        assert(without_leading(untilded, '~') == untilded);
        assert(without_leading(whole, '~') == untilded);
        lemma_leading_slashes(slashes + 1, below);
        let command = change_directory(whole, separator);
        let tail = "\" "@ + separator + " "@;
        lemma_plain_reads(below, tail, home);
        let read = command.skip(4);
        assert(command.take(4) =~= seq!['c', 'd', ' ', '"']);
        assert(read.take(5) =~= seq!['$', 'H', 'O', 'M', 'E']);
        assert(read[5] == '/');
        let slashed = read.skip(5);
        assert(slashed.skip(1) =~= below + tail);
        assert(slashed[0] == '/');
        assert(reads_in_double_quotes(slashed, home) == Some(seq!['/'] + below));
        assert(seq!['/'] + below =~= "/"@ + below);
        assert(reads_in_double_quotes(read, home) == Some(home + (seq!['/'] + below)));
        assert(home + ("/"@ + below) =~= home + "/"@ + below);
    }
}

/// A directory changes where a program runs and nothing else: without it, the same command line
/// follows, or the same error.
pub proof fn law_directory_changes_the_place_alone(
    directory: Seq<char>,
    separator: Seq<char>,
    variables: Seq<QuotedVariable>,
    program: Option<QuotedProgram>,
    shell: Seq<char>,
)
    ensures
        exec_command(Some(directory), separator, variables, program, shell) == match exec_command(
            None,
            separator,
            variables,
            program,
            shell,
        ) {
            Ok(command) => Ok(change_directory(directory, separator) + command),
            Err(error) => Err(error),
        },
{
    match (variables_text(variables), program_text(program, shell)) {
        (Ok(set), Ok(run)) => {
            let place = change_directory(directory, separator);
            assert(place + "exec env "@ + set + run =~= place + (Seq::<char>::empty()
                + "exec env "@ + set + run));
        },
        _ => {},
    }
}

/// The words that set variables.
pub open spec fn assignments(variables: Seq<QuotedVariable>) -> Seq<Seq<char>> {
    variables.map_values(
        |variable: QuotedVariable| variable.name@ + seq!['='] + variable.value->0@,
    )
}

/// Whether the parts of a command line hold no spaces, so that its words can be told apart by
/// them.
pub open spec fn has_no_spaces(
    variables: Seq<QuotedVariable>,
    program: Option<QuotedProgram>,
    shell: Seq<char>,
) -> bool {
    &&& forall|i: int|
        0 <= i < variables.len() ==> text::is_free_of((#[trigger] variables[i]).name@, ' ')
            && text::is_free_of(variables[i].value->0@, ' ')
    &&& match program {
        Some(program) => {
            &&& text::is_free_of(program.program->0@, ' ')
            &&& forall|i: int|
                0 <= i < program.args@.len() ==> text::is_free_of(
                    (#[trigger] program.args@[i])->0@,
                    ' ',
                )
        },
        None => text::is_free_of(shell, ' '),
    }
}

/// The words of the program and its arguments; without a program, those of a login shell.
pub open spec fn program_words(program: Option<QuotedProgram>, shell: Seq<char>) -> Seq<Seq<char>> {
    match program {
        Some(program) => seq![program.program->0@] + program.args@.map_values(
            |arg: Option<String>| arg->0@,
        ),
        None => seq![shell, seq!['-', 'l']],
    }
}

proof fn lemma_assignment_words(start: Seq<char>, variables: Seq<QuotedVariable>, tail: Seq<char>)
    requires
        variables_text(variables) is Ok,
        forall|i: int|
            0 <= i < variables.len() ==> text::is_free_of((#[trigger] variables[i]).name@, ' ')
                && text::is_free_of(variables[i].value->0@, ' '),
    ensures
        text::split(start + seq![' '] + variables_text(variables)->Ok_0 + tail, ' ') == text::split(
            start,
            ' ',
        ) + assignments(variables) + text::split(tail, ' '),
    decreases variables.len(),
{
    let whole = start + seq![' '] + variables_text(variables)->Ok_0 + tail;
    if variables.len() == 0 {
        assert(whole =~= start + seq![' '] + tail);
        text::lemma_split_concat(start, ' ', tail);
        assert(text::split(start, ' ') + assignments(variables) =~= text::split(start, ' '));
    } else {
        reveal_strlit("=");
        reveal_strlit(" ");
        let earlier = variables.drop_last();
        let last = variables.last();
        let word = last.name@ + seq!['='] + last.value->0@;
        let rest = word + seq![' '] + tail;
        assert(text::is_free_of(variables[variables.len() - 1].name@, ' '));
        assert(text::is_free_of(word, ' '));
        assert forall|i: int| 0 <= i < earlier.len() implies text::is_free_of(
            (#[trigger] earlier[i]).name@,
            ' ',
        ) && text::is_free_of(earlier[i].value->0@, ' ') by {
            assert(earlier[i] == variables[i]);
        }
        lemma_assignment_words(start, earlier, rest);
        assert(whole =~= start + seq![' '] + variables_text(earlier)->Ok_0 + rest);
        text::lemma_split_concat(word, ' ', tail);
        text::lemma_split_single(word, ' ');
        assert(assignments(variables) =~= assignments(earlier).push(word));
        assert(text::split(start, ' ') + assignments(earlier) + (seq![word] + text::split(tail, ' '))
            =~= text::split(start, ' ') + assignments(variables) + text::split(tail, ' '));
    }
}

proof fn lemma_argument_words(start: Seq<char>, args: Seq<Option<String>>)
    requires
        arguments_text(args) is Ok,
        forall|i: int| 0 <= i < args.len() ==> text::is_free_of((#[trigger] args[i])->0@, ' '),
    ensures
        text::split(start + arguments_text(args)->Ok_0, ' ') == text::split(start, ' ')
            + args.map_values(|arg: Option<String>| arg->0@),
    decreases args.len(),
{
    let words = args.map_values(|arg: Option<String>| arg->0@);
    if args.len() == 0 {
        assert(start + arguments_text(args)->Ok_0 =~= start);
        assert(text::split(start, ' ') + words =~= text::split(start, ' '));
    } else {
        reveal_strlit(" ");
        let earlier = args.drop_last();
        let last = args.last()->0@;
        assert forall|i: int| 0 <= i < earlier.len() implies text::is_free_of(
            (#[trigger] earlier[i])->0@,
            ' ',
        ) by {
            assert(earlier[i] == args[i]);
        }
        lemma_argument_words(start, earlier);
        let before = start + arguments_text(earlier)->Ok_0;
        assert(start + arguments_text(args)->Ok_0 =~= before + seq![' '] + last);
        text::lemma_split_concat(before, ' ', last);
        assert(text::is_free_of(args[args.len() - 1]->0@, ' '));
        text::lemma_split_single(last, ' ');
        let earlier_words = earlier.map_values(|arg: Option<String>| arg->0@);
        assert(words =~= earlier_words.push(last));
        assert(text::split(start, ' ') + earlier_words + seq![last] =~= text::split(start, ' ')
            + words);
    }
}

/// A command line holds every variable with its value, then the program with its arguments, each
/// as a word of its own and in order; without a program it holds the user's shell, as a login
/// shell.
pub proof fn law_command_holds_every_word(
    separator: Seq<char>,
    variables: Seq<QuotedVariable>,
    program: Option<QuotedProgram>,
    shell: Seq<char>,
)
    requires
        exec_command(None, separator, variables, program, shell) is Ok,
        has_no_spaces(variables, program, shell),
    ensures
        text::split(exec_command(None, separator, variables, program, shell)->Ok_0, ' ') == seq![
            seq!['e', 'x', 'e', 'c'],
            seq!['e', 'n', 'v'],
        ] + assignments(variables) + program_words(program, shell),
{
    reveal_strlit("exec env ");
    reveal_strlit(" -l");
    let command = exec_command(None, separator, variables, program, shell)->Ok_0;
    let tail = program_text(program, shell)->Ok_0;
    let (first, second) = (seq!['e', 'x', 'e', 'c'], seq!['e', 'n', 'v']);
    let start = first + seq![' '] + second;
    assert(start + seq![' '] =~= "exec env "@);
    assert(command =~= start + seq![' '] + variables_text(variables)->Ok_0 + tail);
    lemma_assignment_words(start, variables, tail);
    text::lemma_split_concat(first, ' ', second);
    text::lemma_split_single(first, ' ');
    text::lemma_split_single(second, ' ');
    assert(text::split(start, ' ') =~= seq![first, second]);
    match program {
        Some(program) => {
            let name = program.program->0@;
            text::lemma_split_single(name, ' ');
            lemma_argument_words(name, program.args@);
            assert(text::split(tail, ' ') =~= program_words(Some(program), shell));
        },
        None => {
            let flag = seq!['-', 'l'];
            assert(tail =~= shell + seq![' '] + flag);
            text::lemma_split_concat(shell, ' ', flag);
            text::lemma_split_single(shell, ' ');
            text::lemma_split_single(flag, ' ');
            assert(text::split(tail, ' ') =~= program_words(program, shell));
        },
    }
}

proof fn lemma_variables_refused(variables: Seq<QuotedVariable>)
    ensures
        variables_text(variables) is Ok <==> forall|i: int|
            0 <= i < variables.len() ==> is_env_name((#[trigger] variables[i]).name@)
                && variables[i].value is Some,
    decreases variables.len(),
{
    if variables.len() > 0 {
        let earlier = variables.drop_last();
        let end = variables.len() - 1;
        lemma_variables_refused(earlier);
        assert(variables[end] == variables.last());
        assert forall|i: int| 0 <= i < earlier.len() implies #[trigger] earlier[i]
            == variables[i] by {}
        if variables_text(variables) is Ok {
            assert forall|i: int| 0 <= i < variables.len() implies is_env_name(
                (#[trigger] variables[i]).name@,
            ) && variables[i].value is Some by {
                if i < end {
                    assert(earlier[i] == variables[i]);
                }
            }
        }
    }
}

proof fn lemma_arguments_refused(args: Seq<Option<String>>)
    ensures
        arguments_text(args) is Ok <==> forall|i: int|
            0 <= i < args.len() ==> (#[trigger] args[i]) is Some,
    decreases args.len(),
{
    if args.len() > 0 {
        let earlier = args.drop_last();
        let end = args.len() - 1;
        lemma_arguments_refused(earlier);
        assert(args[end] == args.last());
        assert forall|i: int| 0 <= i < earlier.len() implies #[trigger] earlier[i] == args[i] by {}
        if arguments_text(args) is Ok {
            assert forall|i: int| 0 <= i < args.len() implies (#[trigger] args[i]) is Some by {
                if i < end {
                    assert(earlier[i] == args[i]);
                }
            }
        }
    }
}

/// A command line can be made exactly if every variable has a proper name and every part can be
/// quoted, wherever it runs.
pub proof fn law_command_is_refused_for_a_reason(
    directory: Option<Seq<char>>,
    separator: Seq<char>,
    variables: Seq<QuotedVariable>,
    program: Option<QuotedProgram>,
    shell: Seq<char>,
)
    ensures
        exec_command(directory, separator, variables, program, shell) is Ok <==> {
            &&& forall|i: int|
                0 <= i < variables.len() ==> is_env_name((#[trigger] variables[i]).name@)
                    && variables[i].value is Some
            &&& program matches Some(program) ==> program.program is Some && forall|i: int|
                0 <= i < program.args@.len() ==> (#[trigger] program.args@[i]) is Some
        },
{
    lemma_variables_refused(variables);
    if program is Some {
        lemma_arguments_refused(program->0.args@);
    }
}

/// A proper name of a variable is neither empty nor begins with a digit, and can be followed by
/// any letter, digit or underscore, but by nothing else: no text with a sign that a shell would
/// read is one.
pub proof fn law_proper_names_hold_no_signs(name: Seq<char>, c: char)
    ensures
        is_env_name(name) ==> name.len() > 0 && !text::is_digit(name[0]),
        is_env_name(seq![c]) <==> 'a' <= c <= 'z' || 'A' <= c <= 'Z' || c == '_',
        is_env_name(name) ==> (is_env_name(name.push(c)) <==> is_env_name(seq![c])
            || text::is_digit(c)),
        is_env_name(name) ==> text::is_free_of(name, '=') && text::is_free_of(name, ' ')
            && text::is_free_of(name, '$') && text::is_free_of(name, ';'),
{
    if is_env_name(name) {
        let longer = name.push(c);
        assert(longer[longer.len() - 1] == c);
        assert(longer[0] == name[0]);
        if is_env_name(seq![c]) || text::is_digit(c) {
            assert forall|i: int| 0 <= i < longer.len() implies is_ascii_letter(#[trigger] longer[i])
                || text::is_digit(longer[i]) || longer[i] == '_' by {
                if i < name.len() {
                    assert(longer[i] == name[i]);
                } else {
                    assert(seq![c][0] == c);
                }
            }
        }
    }
    assert(seq![c][0] == c);
}

// The server program and the connection.

/// The server program and its archive stand side by side in the directory, under different names,
/// and the archives of two processes do too.
pub proof fn law_program_and_archive_stand_apart(
    directory: Seq<char>,
    style: PathStyle,
    name: Seq<char>,
    process_id: u32,
    other_process_id: u32,
)
    ensures
        ({
            let binary = file_in(directory, style, name);
            let archive = file_in(directory, style, archive_name_of(name, process_id));
            let other = file_in(directory, style, archive_name_of(name, other_process_id));
            &&& directory.is_prefix_of(binary) && name.is_suffix_of(binary)
            &&& binary.len() == directory.len() + 1 + name.len()
            &&& binary.is_prefix_of(archive) && binary.len() < archive.len()
            &&& ".gz"@.is_suffix_of(archive)
            &&& archive == other <==> process_id == other_process_id
        }),
{
    reveal_strlit("/");
    reveal_strlit("\\");
    reveal_strlit(".gz");
    reveal_strlit("-download-");
    let binary = file_in(directory, style, name);
    let archive = file_in(directory, style, archive_name_of(name, process_id));
    let other = file_in(directory, style, archive_name_of(name, other_process_id));
    let end = archive.len() as int;
    assert(binary.subrange(0, directory.len() as int) =~= directory);
    assert(binary.subrange(binary.len() - name.len(), binary.len() as int) =~= name);
    assert(archive.subrange(0, binary.len() as int) =~= binary);
    assert(archive.subrange(end - 3, end) =~= ".gz"@);
    let from = binary.len() as int + 10;
    let number = text::decimal(process_id as nat);
    let other_number = text::decimal(other_process_id as nat);
    assert(archive.subrange(from, end - 3) =~= number);
    assert(other.subrange(from, other.len() - 3) =~= other_number);
    text::lemma_decimal_parses_back(process_id as nat);
    text::lemma_decimal_parses_back(other_process_id as nat);
    if archive == other {
        assert(number == other_number);
    }
}

/// An archive is unpacked, and what comes out of it is put where an unpacked program is put: made
/// executable, and moved to the place of the program, read as a shell does.
pub proof fn law_archive_is_unpacked_first(unpacked: Seq<char>, binary: Seq<char>)
    requires
        !".gz"@.is_suffix_of(unpacked),
    ensures
        ({
            let plain = extract_script_of(unpacked, binary);
            &&& extract_script_of(unpacked + ".gz"@, binary) == "gunzip -f "@ + escaped(
                unpacked + ".gz"@,
            ) + " && "@ + plain
            &&& (escaped(unpacked) + " "@ + escaped(binary)).is_suffix_of(plain)
            &&& ("chmod 755 "@ + escaped(unpacked)).is_prefix_of(plain)
            &&& shell_reads(escaped(unpacked), false) == Some(unpacked)
            &&& shell_reads(escaped(binary), false) == Some(binary)
        }),
{
    reveal_strlit(".gz");
    reveal_strlit(" && ");
    reveal_strlit(" && chmod 755 ");
    reveal_strlit("chmod 755 ");
    reveal_strlit(" && mv ");
    law_shell_reads_escaped_text_back(unpacked);
    law_shell_reads_escaped_text_back(binary);
    let packed = unpacked + ".gz"@;
    assert(packed.subrange(packed.len() - 3, packed.len() as int) =~= ".gz"@);
    assert(".gz"@.is_suffix_of(packed));
    assert(packed.take(packed.len() - 3) =~= unpacked);
    assert(" && chmod 755 "@ =~= " && "@ + "chmod 755 "@);
    let plain = extract_script_of(unpacked, binary);
    assert(extract_script_of(packed, binary) =~= "gunzip -f "@ + escaped(packed) + " && "@ + plain);
    let start = "chmod 755 "@ + escaped(unpacked);
    let end = escaped(unpacked) + " "@ + escaped(binary);
    assert(plain.subrange(0, start.len() as int) =~= start);
    assert(plain.subrange(plain.len() - end.len(), plain.len() as int) =~= end);
}

/// Both commands by which the server downloads name the address and then the file that it is
/// written to, each as one word in single quotes, and nothing else depends on them.
pub proof fn law_downloads_name_their_source_and_target(
    url: Seq<char>,
    archive: Seq<char>,
    other_url: Seq<char>,
    other_archive: Seq<char>,
    timeout: Option<u16>,
)
    ensures
        exists|start: Seq<char>, between: Seq<char>|
            #![trigger start + between]
            {
                &&& curl_command_of(url, archive, timeout) == start + ("'"@ + url + "'"@) + between
                    + ("'"@ + archive + "'"@)
                &&& curl_command_of(other_url, other_archive, timeout) == start + ("'"@ + other_url
                    + "'"@) + between + ("'"@ + other_archive + "'"@)
            },
        exists|start: Seq<char>, between: Seq<char>|
            #![trigger start + between]
            {
                &&& wget_command_of(url, archive, timeout) == start + ("'"@ + url + "'"@) + between
                    + ("'"@ + archive + "'"@)
                &&& wget_command_of(other_url, other_archive, timeout) == start + ("'"@ + other_url
                    + "'"@) + between + ("'"@ + other_archive + "'"@)
            },
        download_timeout(timeout) == match timeout {
            Some(told) => told,
            None => 10,
        },
{
    reveal_strlit("'");
    reveal_strlit(" '");
    reveal_strlit("' -o '");
    reveal_strlit("' -O '");
    reveal_strlit(" --tries 1 '");
    reveal_strlit(" -o ");
    reveal_strlit(" -O ");
    reveal_strlit(" --tries 1 ");
    reveal_strlit(" ");
    let number = text::decimal(download_timeout(timeout) as nat);
    let start = "curl -f -L --connect-timeout "@ + number + " "@;
    let between = " -o "@;
    assert(curl_command_of(url, archive, timeout) =~= start + ("'"@ + url + "'"@) + between + ("'"@
        + archive + "'"@));
    assert(curl_command_of(other_url, other_archive, timeout) =~= start + ("'"@ + other_url + "'"@)
        + between + ("'"@ + other_archive + "'"@));
    assert((start + between).len() >= 0);
    let begin = "wget --connect-timeout "@ + number + " --tries 1 "@;
    let middle = " -O "@;
    assert(wget_command_of(url, archive, timeout) =~= begin + ("'"@ + url + "'"@) + middle + ("'"@
        + archive + "'"@));
    assert(wget_command_of(other_url, other_archive, timeout) =~= begin + ("'"@ + other_url + "'"@)
        + middle + ("'"@ + other_archive + "'"@));
    assert((begin + middle).len() >= 0);
}

/// A download on the server is over as soon as one tool succeeds; it has failed exactly if both
/// did, and the cause is told.
pub proof fn law_both_tools_are_tried(tool: DownloadTool, result: Result<(), String>)
    ensures
        ({
            let next = after_server_download(tool, result);
            &&& next is Done <==> result is Ok
            &&& result is Err && tool is Curl <==> next == ServerDownloadView::Try(
                DownloadTool::Wget,
            )
            &&& next matches ServerDownloadView::Failed(message) ==> tool is Wget && result is Err
                && result->Err_0@.is_suffix_of(message)
            &&& next !is Try || tool is Curl
        }),
{
    if let ServerDownloadView::Failed(message) = after_server_download(tool, result) {
        let cause = result->Err_0@;
        assert(message.subrange(message.len() - cause.len(), message.len() as int) =~= cause);
    }
}

/// A proxy is told who it is for, whether it is to take up a session again or not, and is the
/// server program that was brought.
pub proof fn law_proxy_is_told_who_it_is_for(
    path: Seq<char>,
    identifier: Seq<char>,
    other: Seq<char>,
    reconnect: bool,
)
    ensures
        path.is_prefix_of(proxy_command_of(path, identifier, reconnect)),
        identifier.is_suffix_of(proxy_command_of(path, identifier, false)),
        proxy_command_of(path, identifier, true) == proxy_command_of(path, identifier, false)
            + " --reconnect"@,
        proxy_command_of(path, identifier, reconnect) == proxy_command_of(path, other, reconnect)
            <==> identifier == other,
{
    reveal_strlit("");
    reveal_strlit(" --reconnect");
    reveal_strlit(" proxy --identifier ");
    let plain = proxy_command_of(path, identifier, false);
    assert(plain.subrange(plain.len() - identifier.len(), plain.len() as int) =~= identifier);
    let command = proxy_command_of(path, identifier, reconnect);
    let other_command = proxy_command_of(path, other, reconnect);
    assert(command.subrange(0, path.len() as int) =~= path);
    assert(proxy_command_of(path, identifier, true) =~= plain + " --reconnect"@);
    let from = path.len() as int + 20;
    assert(command.subrange(from, from + identifier.len()) =~= identifier);
    assert(other_command.subrange(from, from + other.len()) =~= other);
    if command == other_command {
        assert(identifier.len() == other.len());
    }
}

/// What starting to forward ports comes to, port by port, where some of them cannot be listened
/// on: the port at which it stopped, or none.
pub open spec fn forwarding_result(count: usize, at: usize, bound: Set<int>) -> Option<int>
    decreases count - at,
{
    if at >= count {
        None
    } else {
        match forwarding_step_after(count, Some((at, bound.contains(at as int)))) {
            ForwardingStep::Bind(next) => if next > at {
                forwarding_result(count, next, bound)
            } else {
                Some(at as int)
            },
            ForwardingStep::Started => None,
            ForwardingStep::Abort => Some(at as int),
        }
    }
}

/// Forwarding starts at the first port and tries each, one after the other; it is aborted at the
/// first that cannot be listened on, and has started exactly if there is none.
pub proof fn law_every_port_is_tried(count: usize, at: usize, bound: Set<int>)
    requires
        at < count,
    ensures
        forwarding_step_after(count, None) == ForwardingStep::Bind(0),
        match forwarding_result(count, at, bound) {
            Some(stop) => at <= stop < count && !bound.contains(stop) && forall|i: int|
                at <= i < stop ==> bound.contains(i),
            None => forall|i: int| at <= i < count ==> bound.contains(i),
        },
        forwarding_step_after(0, None) is Started,
    decreases count - at,
{
    if bound.contains(at as int) && at + 1 < count {
        law_every_port_is_tried(count, (at + 1) as usize, bound);
    }
}

/// Paths are written in the manner of the server: with backslashes exactly on Windows. There its
/// own shell is the plain one too; elsewhere it is the one that every server has, whatever shell
/// the user has.
pub proof fn law_windows_is_told_apart(
    options: OptionsView,
    platform: RemotePlatform,
    shell: Seq<char>,
    other_shell: Seq<char>,
)
    ensures
        ({
            let connection = connected_to(options, platform, shell);
            let other = connected_to(options, platform, other_shell);
            &&& connection.path_style is Windows <==> platform.os is Windows
            &&& remote_platform::separator_of(connection.path_style) == "\\"@
                <==> platform.os is Windows
            &&& connection.shell == shell && connection.options == options
            &&& platform.os is Windows ==> connection.default_system_shell == shell
            &&& !(platform.os is Windows) ==> connection.default_system_shell
                == other.default_system_shell
            &&& connection.binary_path is None && !connection.killed
        }),
{
    reveal_strlit("/");
    reveal_strlit("\\");
    assert("/"@[0] == '/');
    assert("\\"@[0] == '\\');
}

/// The shell of the user is the one that is named, if the server does not run Windows; on Windows
/// nobody is asked.
pub proof fn law_named_shell_is_used(named: Option<Seq<char>>, other: Option<Seq<char>>)
    ensures
        named is Some ==> server_shell(false, named) == named->0,
        server_shell(true, named) == server_shell(true, other),
        !is_windows_answer(None),
{
}

/// The processor that a Windows server tells decides its platform, whatever white space stands
/// around it; only the two that programs are built for are taken, and any other one is told.
pub proof fn law_windows_processors_are_told_apart(output: Seq<char>)
    ensures
        windows_platform_of(text::trimmed(output)) == windows_platform_of(output),
        windows_platform_of(output) is Ok <==> text::trimmed(output) == "AMD64"@ || text::trimmed(
            output,
        ) == "ARM64"@,
        windows_platform_of(output) matches Ok(platform) ==> platform.os is Windows
            && (platform.arch is Aarch64 <==> text::trimmed(output) == "ARM64"@),
        windows_platform_of(output) matches Err(message) ==> text::trimmed(output).is_suffix_of(
            message,
        ),
{
    text::lemma_trimmed_twice(output);
    reveal_strlit("AMD64");
    reveal_strlit("ARM64");
    assert("AMD64"@[1] == 'M' && "ARM64"@[1] == 'R');
    if let Err(message) = windows_platform_of(output) {
        let arch = text::trimmed(output);
        assert(message.subrange(message.len() - arch.len(), message.len() as int) =~= arch);
    }
}

/// Server programs of different channels have different names, and so have those of different
/// versions where a version is wanted; only Windows has an ending for programs.
pub proof fn law_programs_are_named_after_their_version(
    channel: ReleaseChannel,
    version: VersionView,
    other: VersionView,
    os: RemoteOs,
)
    ensures
        ".exe"@.is_suffix_of(binary_name_of(channel, version, RemoteOs::Windows)),
        binary_name_of(channel, version, RemoteOs::Windows) == binary_name_of(
            channel,
            version,
            RemoteOs::Linux,
        ) + ".exe"@,
        binary_name_of(channel, version, RemoteOs::MacOs) == binary_name_of(
            channel,
            version,
            RemoteOs::Linux,
        ),
        channel is Nightly || channel is Dev ==> binary_name_of(channel, version, os)
            == binary_name_of(channel, other, os),
        !(channel is Nightly || channel is Dev) ==> (binary_name_of(channel, version, os)
            == binary_name_of(channel, other, os) <==> remote_platform::version_text(version)
            == remote_platform::version_text(other)),
{
    reveal_strlit(".exe");
    reveal_strlit("");
    let name = binary_name_of(channel, version, RemoteOs::Windows);
    assert(name.subrange(name.len() - 4, name.len() as int) =~= ".exe"@);
    assert(binary_name_of(channel, version, RemoteOs::Linux) + ".exe"@ =~= name);
    let (mine, theirs) = (
        binary_name_of(channel, version, os),
        binary_name_of(channel, other, os),
    );
    let start = "zed-remote-server-"@.len() + remote_platform::channel_name(channel).len()
        + "-"@.len();
    let ending: int = if os == RemoteOs::Windows {
        4
    } else {
        0
    };
    assert(mine.subrange(start as int, mine.len() - ending) =~= version_label(channel, version));
    assert(theirs.subrange(start as int, theirs.len() - ending) =~= version_label(channel, other));
}

/// A login goes to the host and as the user of the options, to the port that they tell, or else to
/// port 22; there is one exactly if they tell the user.
pub proof fn law_login_goes_where_it_is_told(options: OptionsView)
    ensures
        login_with(options) is Some <==> options.username is Some,
        login_with(options) is Some ==> {
            let (host, port, address, username) = login_with(options)->0;
            &&& host == options.host
            &&& Some(username) == options.username
            &&& options.port is Some ==> Some(port) == options.port
            &&& options.port is None ==> port == 22
            &&& address == host + ":"@ + text::decimal(port as nat)
        },
{
}

/// The question for a password names the user and the host.
pub proof fn law_question_names_user_and_host(username: Seq<char>, host: Seq<char>)
    ensures
        text::has_part(password_question(username, host), username + "@"@ + host),
        "Password for "@.is_prefix_of(password_question(username, host)),
        ":"@.is_suffix_of(password_question(username, host)),
{
    let question = password_question(username, host);
    let who = username + "@"@ + host;
    let at = "Password for "@.len() as int;
    assert(question.subrange(at, at + who.len()) =~= who);
    assert(text::stands_at(question, who, at));
    assert(question.subrange(0, at) =~= "Password for "@);
    assert(question.subrange(question.len() - ":"@.len(), question.len() as int) =~= ":"@);
}

/// A server is asked for its platform in the words of its own system, and what went wrong with that is
/// told with its cause.
pub proof fn law_platforms_are_asked_for_in_their_words(is_windows: bool, cause: Seq<char>)
    ensures
        probe_command_of(true) != probe_command_of(false),
        probe_command_of(false) == "uname -sm"@,
        text::has_part(probe_command_of(true), "PROCESSOR_ARCHITECTURE"@),
        cause.is_suffix_of(probe_error_of(is_windows, cause)),
        probe_error_of(true, cause) != probe_error_of(false, cause),
{
    reveal_strlit("cmd /c echo %PROCESSOR_ARCHITECTURE%");
    reveal_strlit("uname -sm");
    reveal_strlit("PROCESSOR_ARCHITECTURE");
    reveal_strlit("Failed to detect Windows architecture");
    reveal_strlit("Failed to run 'uname -sm' to determine platform");
    let command = probe_command_of(true);
    assert(command.len() == 36 && "uname -sm"@.len() == 9);
    assert(command.subrange(13, 35) =~= "PROCESSOR_ARCHITECTURE"@);
    assert(text::stands_at(command, "PROCESSOR_ARCHITECTURE"@, 13));
    let message = probe_error_of(is_windows, cause);
    assert(message.subrange(message.len() - cause.len(), message.len() as int) =~= cause);
    assert(probe_error_of(true, cause)[10] == 'd' && probe_error_of(false, cause)[10] == 'r');
}

/// What is told of a key that cannot be decoded names the key, as far as it has a name, and the cause.
pub proof fn law_bad_keys_are_named(name: Seq<char>, cause: Seq<char>)
    ensures
        ("Failed to decode "@ + name).is_prefix_of(decode_failure(Some(name), cause)),
        "Failed to decode SSH private key"@.is_prefix_of(decode_failure(None, cause)),
        cause.is_suffix_of(decode_failure(Some(name), cause)),
        cause.is_suffix_of(decode_failure(None, cause)),
{
    reveal_strlit("Failed to decode ");
    reveal_strlit("SSH private key");
    reveal_strlit("Failed to decode SSH private key");
    let named = decode_failure(Some(name), cause);
    let unnamed = decode_failure(None, cause);
    let start = "Failed to decode "@ + name;
    let other = "Failed to decode SSH private key"@;
    assert(other =~= "Failed to decode "@ + "SSH private key"@);
    assert(named.subrange(0, start.len() as int) =~= start);
    assert(unnamed.subrange(0, other.len() as int) =~= other);
    assert(named.subrange(named.len() - cause.len(), named.len() as int) =~= cause);
    assert(unnamed.subrange(unnamed.len() - cause.len(), unnamed.len() as int) =~= cause);
}

} // verus!
