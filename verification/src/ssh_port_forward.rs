//! A forwarded port, as it is configured for a connection.

use crate::text;
use vstd::prelude::*;

verus! {

/// A local port whose connections are carried to a port on the other side.
#[derive(Clone, Debug, PartialEq, Eq)]
pub struct SshPortForwardOption {
    pub local_host: Option<String>,
    pub local_port: u16,
    pub remote_host: Option<String>,
    pub remote_port: u16,
}

/// The contents of a forwarded port.
pub struct ForwardView {
    pub local_host: Option<Seq<char>>,
    pub local_port: u16,
    pub remote_host: Option<Seq<char>>,
    pub remote_port: u16,
}

impl View for SshPortForwardOption {
    type V = ForwardView;

    open spec fn view(&self) -> ForwardView {
        ForwardView {
            local_host: text::optional(self.local_host),
            local_port: self.local_port,
            remote_host: text::optional(self.remote_host),
            remote_port: self.remote_port,
        }
    }
}

/// The contents of a list of forwarded ports.
pub open spec fn forwards(list: Seq<SshPortForwardOption>) -> Seq<ForwardView> {
    list.map_values(|forward: SshPortForwardOption| forward@)
}

/// A copy of a forwarded port.
pub fn copy_forward(forward: &SshPortForwardOption) -> (copy: SshPortForwardOption)
    ensures
        copy@ == forward@,
{
    SshPortForwardOption {
        local_host: text::copy_optional(&forward.local_host),
        local_port: forward.local_port,
        remote_host: text::copy_optional(&forward.remote_host),
        remote_port: forward.remote_port,
    }
}

/// A copy of a list of forwarded ports.
pub fn copy_forwards(list: &[SshPortForwardOption]) -> (copy: Vec<SshPortForwardOption>)
    ensures
        forwards(copy@) == forwards(list@),
{
    let mut copy: Vec<SshPortForwardOption> = Vec::new();
    let mut i: usize = 0;
    while i < list.len()
        invariant
            i <= list@.len(),
            forwards(copy@) == forwards(list@.take(i as int)),
        decreases list@.len() - i,
    {
        let ghost before = copy@;
        copy.push(copy_forward(&list[i]));
        assert(forwards(copy@) =~= forwards(before).push(list@[i as int]@));
        assert(forwards(list@.take(i + 1)) =~= forwards(list@.take(i as int)).push(
            list@[i as int]@,
        ));
        i = i + 1;
    }
    assert(list@.take(list@.len() as int) =~= list@);
    copy
}

} // verus!
