//! Whether the key that a server presents is trusted.

use crate::digest;
use crate::text;
use vstd::prelude::*;

verus! {

/// A key that nobody has decided on yet.
#[derive(Clone, Debug, PartialEq, Eq)]
pub struct HostKeyChallenge {
    pub host: String,
    pub port: u16,
    pub algorithm: String,
    pub fingerprint_sha256: String,
}

/// What was decided on a key.
#[derive(Clone, Copy, Debug, PartialEq, Eq, Structural)]
pub enum HostKeyDecision {
    TrustAndSave,
    Cancel,
}

/// The contents of a challenge.
pub struct ChallengeView {
    pub host: Seq<char>,
    pub port: u16,
    pub algorithm: Seq<char>,
    pub fingerprint_sha256: Seq<char>,
}

impl View for HostKeyChallenge {
    type V = ChallengeView;

    open spec fn view(&self) -> ChallengeView {
        ChallengeView {
            host: self.host@,
            port: self.port,
            algorithm: self.algorithm@,
            fingerprint_sha256: self.fingerprint_sha256@,
        }
    }
}

/// The challenge for a key that was not seen before: it is shown by its SHA-256 digest.
pub open spec fn challenge_for(
    host: Seq<char>,
    port: u16,
    algorithm: Seq<char>,
    digest: Seq<u8>,
) -> ChallengeView {
    ChallengeView { host, port, algorithm, fingerprint_sha256: digest::hex(digest) }
}

/// What the file of known hosts says of a key.
#[derive(Clone, Copy, Debug, PartialEq, Eq, Structural)]
pub enum KnownHostsCheck {
    /// The key is the one on record.
    Matches,
    /// No key is on record.
    Unknown,
    /// Another key is on record, in this line.
    KeyChanged(usize),
    /// The file could not be read or understood.
    Failed,
}

/// What to do with the key of a server.
#[derive(Clone, Debug, PartialEq, Eq)]
pub enum KeyStep {
    /// Look the key up in the file of known hosts.
    LookUp,
    /// Ask for a decision. `create_directory` tells whether the directory of the file
    /// has to be made before the key can be saved.
    Ask { challenge: HostKeyChallenge, create_directory: bool },
    /// Save the key, then accept the connection even if that fails.
    SaveAndAccept { create_directory: bool },
    /// Accept the connection.
    Accept,
    /// Turn the connection down.
    Reject,
    /// Fail because another key is on record, in this line.
    FailKeyChanged(usize),
    /// Fail because the file of known hosts is not usable.
    FailKnownHosts,
    /// Fail because no decision was made.
    FailDisconnected,
}

/// What to do with the key of a server.
pub enum StepView {
    LookUp,
    Ask { challenge: ChallengeView, create_directory: bool },
    SaveAndAccept { create_directory: bool },
    Accept,
    Reject,
    FailKeyChanged(usize),
    FailKnownHosts,
    FailDisconnected,
}

impl View for KeyStep {
    type V = StepView;

    open spec fn view(&self) -> StepView {
        match self {
            KeyStep::LookUp => StepView::LookUp,
            KeyStep::Ask { challenge, create_directory } => StepView::Ask {
                challenge: challenge@,
                create_directory: *create_directory,
            },
            KeyStep::SaveAndAccept { create_directory } => StepView::SaveAndAccept {
                create_directory: *create_directory,
            },
            KeyStep::Accept => StepView::Accept,
            KeyStep::Reject => StepView::Reject,
            KeyStep::FailKeyChanged(line) => StepView::FailKeyChanged(*line),
            KeyStep::FailKnownHosts => StepView::FailKnownHosts,
            KeyStep::FailDisconnected => StepView::FailDisconnected,
        }
    }
}

/// The first step: without a home directory there is no file of known hosts, and the key
/// is accepted; without the file the key is asked for; else it is looked up.
pub open spec fn first_step(
    has_home: bool,
    known_hosts_exists: bool,
    challenge: ChallengeView,
) -> StepView {
    if !has_home {
        StepView::Accept
    } else if known_hosts_exists {
        StepView::LookUp
    } else {
        StepView::Ask { challenge, create_directory: true }
    }
}

/// What to do once the key was looked up: a key on record is accepted, an unknown one is
/// asked for, and anything else fails.
pub open spec fn step_after_look_up(check: KnownHostsCheck, challenge: ChallengeView) -> StepView {
    match check {
        KnownHostsCheck::Matches => StepView::Accept,
        KnownHostsCheck::Unknown => StepView::Ask { challenge, create_directory: false },
        KnownHostsCheck::KeyChanged(line) => StepView::FailKeyChanged(line),
        KnownHostsCheck::Failed => StepView::FailKnownHosts,
    }
}

/// What to do once a decision on a key was made, or could not be had.
pub open spec fn step_after_decision(
    decision: Option<HostKeyDecision>,
    create_directory: bool,
) -> StepView {
    match decision {
        Some(HostKeyDecision::TrustAndSave) => StepView::SaveAndAccept { create_directory },
        Some(HostKeyDecision::Cancel) => StepView::Reject,
        None => StepView::FailDisconnected,
    }
}

/// The last step, if each step is followed by the next: what the file of known hosts
/// says and what is decided count only where they are asked for.
pub open spec fn last_step(
    has_home: bool,
    known_hosts_exists: bool,
    check: KnownHostsCheck,
    decision: Option<HostKeyDecision>,
    challenge: ChallengeView,
) -> StepView {
    let second = match first_step(has_home, known_hosts_exists, challenge) {
        StepView::LookUp => step_after_look_up(check, challenge),
        step => step,
    };
    match second {
        StepView::Ask { create_directory, .. } => step_after_decision(decision, create_directory),
        step => step,
    }
}

/// The server whose key is checked.
#[derive(Clone, Debug, PartialEq, Eq)]
pub struct RusshHandler {
    pub host: String,
    pub port: u16,
}

impl RusshHandler {
    /// The check of the key of a server.
    pub fn new(host: String, port: u16) -> (handler: Self)
        ensures
            handler.host == host,
            handler.port == port,
    {
        RusshHandler { host, port }
    }

    /// The challenge for a key whose digest is known.
    pub fn challenge_with_fingerprint(&self, algorithm: &str, fingerprint: String) -> (challenge:
        HostKeyChallenge)
        ensures
            challenge@ == (ChallengeView {
                host: self.host@,
                port: self.port,
                algorithm: algorithm@,
                fingerprint_sha256: fingerprint@,
            }),
    {
        HostKeyChallenge {
            host: self.host.clone(),
            port: self.port,
            algorithm: algorithm.to_owned(),
            fingerprint_sha256: fingerprint,
        }
    }

    /// The challenge for the server's key.
    pub fn challenge_for_key(&self, algorithm: &str, public_key: &[u8]) -> (challenge:
        HostKeyChallenge)
        ensures
            challenge@ == challenge_for(
                self.host@,
                self.port,
                algorithm@,
                digest::sha256(public_key@),
            ),
    {
        self.challenge_with_fingerprint(algorithm, digest::sha256_hex(public_key))
    }

    /// The first step of checking the server's key.
    pub fn start(
        &self,
        has_home: bool,
        known_hosts_exists: bool,
        challenge: HostKeyChallenge,
    ) -> (step: KeyStep)
        ensures
            step@ == first_step(has_home, known_hosts_exists, challenge@),
    {
        if !has_home {
            KeyStep::Accept
        } else if known_hosts_exists {
            KeyStep::LookUp
        } else {
            KeyStep::Ask { challenge, create_directory: true }
        }
    }

    /// What to do once the key was looked up.
    pub fn looked_up(&self, check: KnownHostsCheck, challenge: HostKeyChallenge) -> (step: KeyStep)
        ensures
            step@ == step_after_look_up(check, challenge@),
    {
        match check {
            KnownHostsCheck::Matches => KeyStep::Accept,
            KnownHostsCheck::Unknown => KeyStep::Ask { challenge, create_directory: false },
            KnownHostsCheck::KeyChanged(line) => KeyStep::FailKeyChanged(line),
            KnownHostsCheck::Failed => KeyStep::FailKnownHosts,
        }
    }

    /// What to do once a decision on a key was made, or could not be had.
    pub fn decided(&self, decision: Option<HostKeyDecision>, create_directory: bool) -> (step:
        KeyStep)
        ensures
            step@ == step_after_decision(decision, create_directory),
    {
        match decision {
            Some(HostKeyDecision::TrustAndSave) => KeyStep::SaveAndAccept { create_directory },
            Some(HostKeyDecision::Cancel) => KeyStep::Reject,
            None => KeyStep::FailDisconnected,
        }
    }
}

/// A key that differs from the one on record is never accepted, whatever is decided.
pub proof fn law_changed_key_is_refused(
    line: usize,
    decision: Option<HostKeyDecision>,
    challenge: ChallengeView,
)
    ensures
        last_step(true, true, KnownHostsCheck::KeyChanged(line), decision, challenge)
            == StepView::FailKeyChanged(line),
{
}

/// Where there is a home directory, a connection is accepted only if the key is on record
/// or was trusted by a decision, and a key is saved only by such a decision.
pub proof fn law_only_known_or_trusted_keys_are_accepted(
    known_hosts_exists: bool,
    check: KnownHostsCheck,
    decision: Option<HostKeyDecision>,
    challenge: ChallengeView,
)
    ensures
        ({
            let step = last_step(true, known_hosts_exists, check, decision, challenge);
            &&& step is Accept ==> known_hosts_exists && check == KnownHostsCheck::Matches
            &&& step is SaveAndAccept ==> decision == Some(HostKeyDecision::TrustAndSave) && (
            !known_hosts_exists || check == KnownHostsCheck::Unknown)
            &&& !(step is LookUp) && !(step is Ask)
        }),
{
}

/// What is shown of a key that has to be decided on.
#[derive(Clone, Debug, PartialEq, Eq)]
pub struct HostKeyPrompt {
    pub server: String,
    pub algorithm: String,
    pub fingerprint: String,
}

/// Whether that is what is shown of a key.
pub open spec fn is_prompt_for(prompt: HostKeyPrompt, challenge: ChallengeView) -> bool {
    &&& prompt.server@ == "The server "@ + challenge.host + ":"@ + text::decimal(
        challenge.port as nat,
    ) + " presented an unknown SSH host key."@
    &&& prompt.algorithm@ == "Algorithm: "@ + challenge.algorithm
    &&& prompt.fingerprint@ == "SHA-256: "@ + challenge.fingerprint_sha256
}

/// What is shown of a key that has to be decided on.
pub fn host_key_prompt(challenge: &HostKeyChallenge) -> (prompt: HostKeyPrompt)
    ensures
        is_prompt_for(prompt, challenge@),
{
    let mut server = text::concat("The server ", challenge.host.as_str());
    server.append(":");
    server.append(text::format_decimal(challenge.port as u64).as_str());
    server.append(" presented an unknown SSH host key.");
    HostKeyPrompt {
        server,
        algorithm: text::concat("Algorithm: ", challenge.algorithm.as_str()),
        fingerprint: text::concat("SHA-256: ", challenge.fingerprint_sha256.as_str()),
    }
}

/// Where there is a home directory, the key on record is accepted without a question; an unknown
/// one is trusted, turned down or left open as it is decided; a file that cannot be used fails. The
/// directory is made exactly if there is no file yet. Without a home directory there is nothing to
/// look a key up in.
pub proof fn law_every_key_comes_to_its_end(
    known_hosts_exists: bool,
    check: KnownHostsCheck,
    decision: Option<HostKeyDecision>,
    challenge: ChallengeView,
)
    ensures
        ({
            let step = last_step(true, known_hosts_exists, check, decision, challenge);
            let asked = !known_hosts_exists || check is Unknown;
            &&& step is Accept <==> known_hosts_exists && check is Matches
            &&& step is SaveAndAccept <==> asked && decision == Some(HostKeyDecision::TrustAndSave)
            &&& step is Reject <==> asked && decision == Some(HostKeyDecision::Cancel)
            &&& step is FailDisconnected <==> asked && decision is None
            &&& step is FailKnownHosts <==> known_hosts_exists && check is Failed
            &&& step is FailKeyChanged <==> known_hosts_exists && check is KeyChanged
            &&& step matches StepView::SaveAndAccept { create_directory } ==> (create_directory
                <==> !known_hosts_exists)
        }),
        last_step(false, known_hosts_exists, check, decision, challenge) is Accept,
{
}

/// The question is about the key that the server presented, and no other.
pub proof fn law_question_is_about_the_key(
    has_home: bool,
    known_hosts_exists: bool,
    check: KnownHostsCheck,
    challenge: ChallengeView,
)
    ensures
        first_step(has_home, known_hosts_exists, challenge) is Ask ==> first_step(
            has_home,
            known_hosts_exists,
            challenge,
        )->challenge == challenge,
        step_after_look_up(check, challenge) is Ask <==> check is Unknown,
        step_after_look_up(check, challenge) is Ask ==> step_after_look_up(
            check,
            challenge,
        )->challenge == challenge,
{
}

/// Two keys of a server are shown alike exactly if their digests are the same.
pub proof fn law_fingerprints_tell_keys_apart(
    host: Seq<char>,
    port: u16,
    algorithm: Seq<char>,
    digest: Seq<u8>,
    other: Seq<u8>,
)
    ensures
        challenge_for(host, port, algorithm, digest).host == host,
        challenge_for(host, port, algorithm, digest).port == port,
        challenge_for(host, port, algorithm, digest).algorithm == algorithm,
        challenge_for(host, port, algorithm, digest) == challenge_for(host, port, algorithm, other)
            <==> digest == other,
{
    digest::law_hexadecimal_tells_bytes_apart(digest, other);
}

/// What is shown of a key tells its server, its sort and its whole digest.
pub proof fn law_prompt_shows_the_key(
    prompt: HostKeyPrompt,
    other_prompt: HostKeyPrompt,
    challenge: ChallengeView,
    other: ChallengeView,
)
    requires
        is_prompt_for(prompt, challenge),
        is_prompt_for(other_prompt, other),
    ensures
        challenge.fingerprint_sha256.is_suffix_of(prompt.fingerprint@),
        challenge.algorithm.is_suffix_of(prompt.algorithm@),
        text::stands_at(prompt.server@, challenge.host, 11),
        prompt.fingerprint@ == other_prompt.fingerprint@ <==> challenge.fingerprint_sha256
            == other.fingerprint_sha256,
{
    reveal_strlit("SHA-256: ");
    reveal_strlit("Algorithm: ");
    reveal_strlit("The server ");
    let shown = prompt.fingerprint@;
    let other_shown = other_prompt.fingerprint@;
    assert(shown.subrange(9, shown.len() as int) =~= challenge.fingerprint_sha256);
    assert(other_shown.subrange(9, other_shown.len() as int) =~= other.fingerprint_sha256);
    assert(prompt.algorithm@.subrange(11, prompt.algorithm@.len() as int) =~= challenge.algorithm);
    assert(prompt.server@.subrange(11int, 11int + challenge.host.len()) =~= challenge.host);
}

} // verus!
