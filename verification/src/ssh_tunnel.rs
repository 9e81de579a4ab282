use vstd::prelude::*;

use crate::model::{DriverError, SshTunnelConfig};

verus! {

/// A local port forwarded through SSH to a database server.
pub struct SshTunnel {
    local_port: u16,
}

impl View for SshTunnel {
    /// The local port the tunnel listens on.
    type V = u16;

    closed spec fn view(&self) -> u16 {
        self.local_port
    }
}

/// Why no tunnel is opened.
pub open spec fn ssh_disabled_message() -> Seq<char> {
    "SSH tunneling is disabled in the native rewrite until strict host-key verification is implemented"@
}

impl SshTunnel {
    /// Opening a tunnel is refused for every configuration until the host
    /// key of the SSH server can be verified.
    pub fn start(_ssh: &SshTunnelConfig, _remote_host: &str, _remote_port: u16) -> (res: Result<Self, DriverError>)
        ensures
            res matches Err(DriverError::SshTunnelError(text)) && text@ == ssh_disabled_message(),
    {
        Err(DriverError::SshTunnelError(
            "SSH tunneling is disabled in the native rewrite until strict host-key verification is implemented".to_owned(),
        ))
    }

    pub fn local_port(&self) -> (port: u16)
        ensures
            port == self@,
    {
        self.local_port
    }
}

} // verus!
