//! How a remote host is reached.

use crate::ssh_port_forward;
use crate::ssh_port_forward::{ForwardView, SshPortForwardOption};
use crate::text;
use vstd::prelude::*;

verus! {

/// How a host is reached over SSH.
#[derive(Clone, Debug, PartialEq, Eq)]
pub struct SshConnectionOptions {
    pub host: String,
    pub username: Option<String>,
    pub port: Option<u16>,
    pub password: Option<String>,
    pub args: Option<Vec<String>>,
    pub port_forwards: Option<Vec<SshPortForwardOption>>,
    pub connection_timeout: Option<u16>,
    pub nickname: Option<String>,
    pub upload_binary_over_ssh: bool,
}

/// How a host is reached over SSH.
pub struct OptionsView {
    pub host: Seq<char>,
    pub username: Option<Seq<char>>,
    pub port: Option<u16>,
    pub password: Option<Seq<char>>,
    pub args: Option<Seq<Seq<char>>>,
    pub port_forwards: Option<Seq<ForwardView>>,
    pub connection_timeout: Option<u16>,
    pub nickname: Option<Seq<char>>,
    pub upload_binary_over_ssh: bool,
}

impl View for SshConnectionOptions {
    type V = OptionsView;

    open spec fn view(&self) -> OptionsView {
        OptionsView {
            host: self.host@,
            username: text::optional(self.username),
            port: self.port,
            password: text::optional(self.password),
            args: match self.args {
                Some(args) => Some(text::texts(args@)),
                None => None,
            },
            port_forwards: match self.port_forwards {
                Some(forwards) => Some(ssh_port_forward::forwards(forwards@)),
                None => None,
            },
            connection_timeout: self.connection_timeout,
            nickname: text::optional(self.nickname),
            upload_binary_over_ssh: self.upload_binary_over_ssh,
        }
    }
}

impl SshConnectionOptions {
    /// A copy of the options.
    pub fn duplicate(&self) -> (copy: Self)
        ensures
            copy@ == self@,
    {
        SshConnectionOptions {
            host: self.host.clone(),
            username: text::copy_optional(&self.username),
            port: self.port,
            password: text::copy_optional(&self.password),
            args: match &self.args {
                Some(args) => Some(text::copy_texts(args.as_slice())),
                None => None,
            },
            port_forwards: match &self.port_forwards {
                Some(forwards) => Some(ssh_port_forward::copy_forwards(forwards.as_slice())),
                None => None,
            },
            connection_timeout: self.connection_timeout,
            nickname: text::copy_optional(&self.nickname),
            upload_binary_over_ssh: self.upload_binary_over_ssh,
        }
    }
}

/// How a remote host is reached.
#[derive(Clone, Debug, PartialEq, Eq)]
pub enum RemoteConnectionOptions {
    Ssh(SshConnectionOptions),
    /// Any way that this app has no details of.
    Other,
}

} // verus!
