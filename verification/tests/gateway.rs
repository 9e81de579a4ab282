use datazen::gateway::{settle_reply, BackendGatewayError};
use datazen::model::{DriverError, SshTunnelConfig};
use datazen::ssh_tunnel::SshTunnel;

#[test]
fn replies_settle_into_results() {
    assert_eq!(settle_reply(Some(Ok::<u32, String>(7))).unwrap(), 7);
    match settle_reply::<u32>(Some(Err("boom".to_string()))) {
        Err(BackendGatewayError::Message(text)) => assert_eq!(text, "boom"),
        _ => panic!("expected the backend's message"),
    }
    assert!(matches!(settle_reply::<u32>(None), Err(BackendGatewayError::ChannelClosed)));
}

#[test]
fn gateway_errors_display_their_message() {
    assert_eq!(BackendGatewayError::Message("x".to_string()).message(), "x");
    assert_eq!(BackendGatewayError::ChannelClosed.message(), "backend request channel is closed");
}

#[test]
fn ssh_tunnels_are_refused() {
    let ssh = SshTunnelConfig { host: "bastion".to_string(), port: 22, username: "ops".to_string() };
    match SshTunnel::start(&ssh, "db", 5432) {
        Err(DriverError::SshTunnelError(text)) => assert_eq!(
            text,
            "SSH tunneling is disabled in the native rewrite until strict host-key verification is implemented"
        ),
        Ok(tunnel) => panic!("tunnel opened on port {}", tunnel.local_port()),
    }
}
