//! The connection to a server: logging in, finding out about it, and bringing the server
//! program there.

use zed_ios::remote_connection::{
    answers_as_windows, bind_error, build_exec_command, extract_script, first_login_try,
    forwarding_step, is_valid_env_name, next_binary_step, next_login_step, platform_probe_command,
    platform_probe_error, server_binary_name, server_download_error, next_server_download_step, shell_escape, DownloadTool, ServerDownloadStep,
    shell_of_server, shell_probe_command, step_after_prompt, upload_chunks, upload_path,
    wants_own_version, windows_platform, windows_probe_command, BinaryEvent, BinaryStep,
    ExecCommandError, ForwardingStep, Login, LoginReply, LoginStep, LoginTry, PromptReply,
    QuotedProgram, QuotedVariable, RusshRemoteConnection, ServerPaths, SshKeyAuth, CHUNK_SIZE,
};
use zed_ios::remote_platform::{
    PathStyle, ReleaseChannel, RemoteArch, RemoteOs, RemotePlatform, Version,
};
use zed_ios::russh_helper::Interactive;
use zed_ios::ssh_options::{RemoteConnectionOptions, SshConnectionOptions};

fn options() -> SshConnectionOptions {
    SshConnectionOptions {
        host: "example.com".into(),
        username: Some("me".into()),
        port: None,
        password: None,
        args: None,
        port_forwards: None,
        connection_timeout: None,
        nickname: None,
        upload_binary_over_ssh: false,
    }
}

#[test]
fn versions_are_read_by_their_parts() {
    let version = Version::parse("0.229.0-preview.3+abcdef").unwrap();
    assert_eq!((version.major, version.minor, version.patch), (0, 229, 0));
    assert_eq!(version.pre, "preview.3");
    assert_eq!(version.build, "abcdef");
    assert_eq!(version.numbers(), "0.229.0");
    assert_eq!(version.to_text(), "0.229.0-preview.3+abcdef");
    assert_eq!(Version::parse("1.2"), None);
}

#[test]
fn login_needs_a_user_name() {
    let login = Login::new(&options()).unwrap();
    assert_eq!(login.address, "example.com:22");
    assert_eq!(login.password_prompt(), "Password for me@example.com:");
    let nobody = SshConnectionOptions { username: None, ..options() };
    assert_eq!(
        Login::new(&nobody),
        Err("SSH username is required but was not provided".to_string())
    );
}

#[test]
fn login_tries_one_way_after_the_other() {
    assert_eq!(first_login_try(&options()), LoginTry::NoCredentials);
    let given = SshConnectionOptions { password: Some("x".into()), ..options() };
    assert_eq!(first_login_try(&given), LoginTry::GivenPassword);
    assert_eq!(
        next_login_step(LoginTry::NoCredentials, LoginReply::Accepted, false),
        LoginStep::LoggedIn
    );
    assert_eq!(
        next_login_step(LoginTry::NoCredentials, LoginReply::Refused, true),
        LoginStep::Try(LoginTry::Key)
    );
    assert_eq!(
        next_login_step(LoginTry::NoCredentials, LoginReply::Refused, false),
        LoginStep::AskPassword
    );
    assert!(matches!(
        next_login_step(LoginTry::AskedPassword, LoginReply::Refused, false),
        LoginStep::Fail(_)
    ));
    assert_eq!(
        step_after_prompt(PromptReply::Given),
        LoginStep::Try(LoginTry::AskedPassword)
    );
    assert!(matches!(step_after_prompt(PromptReply::Cancelled), LoginStep::Fail(_)));
    assert_eq!(
        step_after_prompt(PromptReply::Unreadable("bad key".into())),
        LoginStep::Fail("Failed to decrypt password: bad key".into())
    );
}

#[test]
fn private_keys_are_decoded() {
    let keypair = russh::keys::ssh_key::private::Ed25519Keypair::from_seed(&[7; 32]);
    let created = russh::keys::PrivateKey::from(keypair);
    let written = created
        .to_openssh(russh::keys::ssh_key::LineEnding::LF)
        .unwrap()
        .to_string();
    let key = SshKeyAuth { private_key: written, passphrase: None, display_name: None };
    let decoded = key.decode().unwrap();
    assert_eq!(decoded.public_key(), created.public_key());

    let broken = SshKeyAuth {
        private_key: "nonsense".into(),
        passphrase: None,
        display_name: Some("my key".into()),
    };
    let error = broken.decode().unwrap_err();
    assert!(error.starts_with("Failed to decode my key: "));
    assert!(error.len() > "Failed to decode my key: ".len());
    assert_eq!(
        SshKeyAuth { display_name: None, ..broken }.decode_error("why"),
        "Failed to decode SSH private key: why"
    );
}

#[test]
fn server_tells_its_platform_and_shell() {
    assert!(answers_as_windows(Some("Windows_NT")));
    assert!(!answers_as_windows(Some("%OS%")));
    assert!(!answers_as_windows(None));
    assert!(!windows_probe_command().is_empty());
    assert!(!shell_probe_command().is_empty());
    assert_ne!(platform_probe_command(true), platform_probe_command(false));
    assert!(platform_probe_error(false, "gone").ends_with("gone"));
    assert_eq!(
        windows_platform("AMD64\r\n"),
        Ok(RemotePlatform { os: RemoteOs::Windows, arch: RemoteArch::X86_64 })
    );
    assert_eq!(
        windows_platform("IA64"),
        Err("Prebuilt remote servers are not yet available for windows-IA64".to_string())
    );
    assert_eq!(shell_of_server(false, Some("/bin/zsh".into())), "/bin/zsh");
    assert_eq!(RemoteOs::MacOs.as_str(), "macos");
    assert_eq!(RemoteArch::Aarch64.as_str(), "aarch64");
    assert_eq!(PathStyle::Windows.separator(), "\\");
    assert_eq!(ReleaseChannel::Preview.dev_name(), "preview");
}

#[test]
fn commands_are_put_together() {
    let variables = [QuotedVariable { name: "FOO".into(), value: Some("bar".into()) }];
    let program = Some(QuotedProgram {
        program: Some("ls".into()),
        args: vec![Some("-l".into()), Some("'a b'".into())],
    });
    assert_eq!(
        build_exec_command(Some("~/project"), "&&", &variables, &program, "/bin/sh"),
        Ok("cd \"$HOME/project\" && exec env FOO=bar ls -l 'a b'".to_string())
    );
    assert_eq!(
        build_exec_command(None, "&&", &[], &None, "/bin/zsh"),
        Ok("exec env /bin/zsh -l".to_string())
    );
    let bad_name = [QuotedVariable { name: "1X".into(), value: Some("y".into()) }];
    assert_eq!(
        build_exec_command(None, "&&", &bad_name, &None, "sh"),
        Err(ExecCommandError::InvalidEnvironmentName("1X".into()))
    );
    let unquoted = Some(QuotedProgram { program: None, args: vec![] });
    assert_eq!(
        build_exec_command(None, "&&", &[], &unquoted, "sh"),
        Err(ExecCommandError::ShellQuoting)
    );
    assert!(is_valid_env_name("_A1"));
    assert!(!is_valid_env_name(""));
    assert!(!is_valid_env_name("a-b"));
}

#[test]
fn server_program_is_put_in_its_place() {
    let version = Version::parse("1.2.3").unwrap();
    let name = server_binary_name(ReleaseChannel::Stable, &version, RemoteOs::Linux);
    assert_eq!(name, "zed-remote-server-stable-1.2.3");
    assert_eq!(
        server_binary_name(ReleaseChannel::Nightly, &version, RemoteOs::Windows),
        "zed-remote-server-nightly-latest.exe"
    );
    assert!(wants_own_version(ReleaseChannel::Stable));
    assert!(!wants_own_version(ReleaseChannel::Nightly));
    let paths = ServerPaths::new(".zed_server", PathStyle::Posix, &name, 7);
    assert_eq!(paths.binary, ".zed_server/zed-remote-server-stable-1.2.3");
    assert!(paths.check_command().contains(&paths.binary));
    assert!(paths.make_directory_command().contains(".zed_server"));
    assert!(paths.curl_command("https://x/y.gz", Some(5)).contains("https://x/y.gz"));
    assert!(paths.wget_command("https://x/y.gz", None).contains("10"));
    assert!(paths.verify_command().contains(&paths.binary));
    assert!(paths.extract_command().contains(&paths.archive));
    assert_eq!(
        extract_script("a.gz", "b"),
        "gunzip -f 'a.gz' && chmod 755 'a' && mv 'a' 'b'"
    );
    assert_eq!(extract_script("a", "b"), "chmod 755 'a' && mv 'a' 'b'");
    assert_eq!(shell_escape("it's"), "'it'\\''s'");
}

#[test]
fn server_program_is_brought_step_by_step() {
    assert_eq!(
        next_binary_step(BinaryEvent::Checked(Some("1.0".into())), false),
        BinaryStep::Ready
    );
    assert_eq!(
        next_binary_step(BinaryEvent::Checked(Some("  ".into())), false),
        BinaryStep::FindUrl
    );
    assert_eq!(
        next_binary_step(BinaryEvent::Checked(None), true),
        BinaryStep::DownloadLocally
    );
    assert_eq!(
        next_binary_step(BinaryEvent::UrlFound(Ok(Some("u".into()))), false),
        BinaryStep::DownloadOnServer("u".into())
    );
    assert_eq!(
        next_binary_step(BinaryEvent::DownloadedOnServer(false), false),
        BinaryStep::DownloadLocally
    );
    assert_eq!(
        next_binary_step(BinaryEvent::DownloadedLocally(Ok("p".into())), false),
        BinaryStep::Upload("p".into())
    );
    assert_eq!(
        next_binary_step(BinaryEvent::Uploaded(Ok(())), false),
        BinaryStep::Extract
    );
    assert_eq!(
        next_binary_step(BinaryEvent::Extracted(Ok(())), false),
        BinaryStep::Ready
    );
    assert!(matches!(
        next_binary_step(BinaryEvent::Extracted(Err("no".into())), false),
        BinaryStep::Fail(_)
    ));
    assert!(server_download_error("no").contains("no"));
    assert_eq!(
        next_server_download_step(DownloadTool::Curl, Err("no".into())),
        ServerDownloadStep::Try(DownloadTool::Wget)
    );
    assert_eq!(
        next_server_download_step(DownloadTool::Wget, Err("no".into())),
        ServerDownloadStep::Failed("Neither curl nor wget succeeded: no".into())
    );
    assert_eq!(
        next_server_download_step(DownloadTool::Curl, Ok(())),
        ServerDownloadStep::Done
    );
}

#[test]
fn files_are_uploaded_in_chunks() {
    let data = vec![9u8; CHUNK_SIZE + 1];
    let chunks = upload_chunks(&data);
    assert_eq!(chunks.len(), 2);
    assert_eq!(chunks[1], vec![9]);
    assert!(upload_chunks(&[]).is_empty());
    assert_eq!(upload_path("dir", "f"), "dir/f");
}

#[test]
fn forwarding_stops_at_the_first_port_that_fails() {
    assert_eq!(forwarding_step(2, None), ForwardingStep::Bind(0));
    assert_eq!(forwarding_step(2, Some((0, true))), ForwardingStep::Bind(1));
    assert_eq!(forwarding_step(2, Some((1, true))), ForwardingStep::Started);
    assert_eq!(forwarding_step(2, Some((0, false))), ForwardingStep::Abort);
    assert_eq!(forwarding_step(0, None), ForwardingStep::Started);
    assert!(bind_error("h", 80, "taken").contains("taken"));
}

#[test]
fn connection_hands_commands_to_the_helper() {
    let platform = RemotePlatform { os: RemoteOs::Linux, arch: RemoteArch::X86_64 };
    let mut connection = RusshRemoteConnection::new(options(), platform, "/bin/bash".into());
    assert_eq!(connection.shell(), "/bin/bash");
    assert_eq!(connection.path_style(), PathStyle::Posix);
    assert!(!connection.has_wsl_interop());
    assert!(connection.proxy_command("id", false).is_err());
    connection.set_remote_binary_path("/srv/zed".into());
    connection.set_helper_socket_path("/tmp/h.sock".into());
    let proxy = connection.proxy_command("id", true).unwrap();
    assert!(proxy.contains("/srv/zed") && proxy.contains("id") && proxy.contains("--reconnect"));
    let template = connection
        .build_command("zed", &None, &[], None, "&&", Interactive::Yes)
        .unwrap();
    assert_eq!(template.program, "zed");
    assert_eq!(template.args[3], "/tmp/h.sock");
    assert_eq!(template.args[7], "exec env /bin/bash -l");
    assert!(!connection.build_forward_ports_command().program.is_empty());
    assert!(!connection.default_system_shell().is_empty());
    assert_eq!(connection.connection_options(), RemoteConnectionOptions::Ssh(options()));
    assert!(!connection.has_been_killed());
    connection.kill();
    assert!(connection.has_been_killed());
}
