use retana::autoconnect::{AutoConnect, AutoConnectAction, AutoConnectEvent};
use retana::ssh::{
    start_reverse_tunnel, AuthMethod, ConnectOutcome, ConnectStage, ConnectionStatus, SshConfig,
    SshManager,
};

fn config(key: Option<&str>, password: Option<&str>) -> SshConfig {
    SshConfig {
        host: "example.org".to_string(),
        port: 2222,
        username: "me".to_string(),
        key_path: key.map(|s| s.to_string()),
        password: password.map(|s| s.to_string()),
        reverse_tunnel: None,
    }
}

fn is(s: &ConnectionStatus, want: &str) -> bool {
    matches!(
        (s, want),
        (ConnectionStatus::Disconnected, "disconnected")
            | (ConnectionStatus::Connecting, "connecting")
            | (ConnectionStatus::Connected, "connected")
    )
}

#[test]
fn plan_prefers_key_then_password() {
    let mut m: SshManager<u32> = SshManager::new(config(Some("/k"), Some("pw")));
    assert!(is(&m.status(), "disconnected"));
    let p = m.connect();
    assert_eq!(p.addr, "example.org:2222");
    assert_eq!(p.username, "me");
    assert!(matches!(p.auth, AuthMethod::PublicKey(ref k) if k == "/k"));
    assert!(is(&m.status(), "connecting"));
    let p = m.connect_with_config(&config(None, Some("pw")));
    assert!(matches!(p.auth, AuthMethod::Password(ref w) if w == "pw"));
    let p = m.connect_with_config(&config(None, None));
    assert!(matches!(p.auth, AuthMethod::Missing));
}

#[test]
fn failures_are_reported_and_keep_connecting() {
    let mut m: SshManager<u32> = SshManager::new(config(Some("/k"), None));
    m.connect();
    assert_eq!(m.finish_connect(ConnectOutcome::Failed(ConnectStage::Tcp)), Err("Failed to connect to example.org:2222".to_string()));
    assert_eq!(m.finish_connect(ConnectOutcome::Failed(ConnectStage::Session)), Err("Failed to create SSH session".to_string()));
    assert_eq!(m.finish_connect(ConnectOutcome::Failed(ConnectStage::Handshake)), Err("SSH handshake failed".to_string()));
    assert_eq!(m.finish_connect(ConnectOutcome::Failed(ConnectStage::Auth)), Err("Public key authentication failed".to_string()));
    assert_eq!(
        m.finish_connect(ConnectOutcome::Failed(ConnectStage::Stream("io".to_string()))),
        Err("io".to_string())
    );
    assert_eq!(m.finish_connect(ConnectOutcome::Established(7, false)), Err("SSH authentication failed".to_string()));
    assert!(is(&m.status(), "connecting"));
    assert!(!m.is_connected());
    assert_eq!(m.exec(), Err("Not connected".to_string()));
    m.connect_with_config(&config(None, Some("pw")));
    assert_eq!(m.finish_connect(ConnectOutcome::Failed(ConnectStage::Auth)), Err("Password authentication failed".to_string()));
    m.connect_with_config(&config(None, None));
    assert_eq!(
        m.finish_connect(ConnectOutcome::Failed(ConnectStage::Auth)),
        Err("No authentication method provided (key_path or password)".to_string())
    );
}

#[test]
fn connect_then_disconnect() {
    let mut m: SshManager<u32> = SshManager::new(config(None, Some("pw")));
    m.connect();
    assert_eq!(m.finish_connect(ConnectOutcome::Established(42, true)), Ok(()));
    assert!(m.is_connected());
    assert_eq!(m.exec(), Ok(&42));
    assert_eq!(m.session_arc(), Some(&42));
    assert_eq!(start_reverse_tunnel(&m, 9000, 9000), Ok(()));
    assert_eq!(m.disconnect(), Ok(()));
    assert!(!m.is_connected());
    assert!(is(&m.status(), "disconnected"));
    assert_eq!(m.session_arc(), None);
    assert_eq!(m.exec(), Err("Not connected".to_string()));
}

#[test]
fn retry_loop_waits_longer_each_time_and_gives_up() {
    let mut ac = AutoConnect::new();
    assert!(matches!(ac.next(AutoConnectEvent::Ready { shutdown: false }), AutoConnectAction::Sleep { secs: 2 }));
    let mut waits = Vec::new();
    let mut attempts = Vec::new();
    loop {
        match ac.next(AutoConnectEvent::Ready { shutdown: false }) {
            AutoConnectAction::Connect { attempt } => attempts.push(attempt),
            AutoConnectAction::GiveUp => break,
            _ => panic!("unexpected action"),
        }
        match ac.next(AutoConnectEvent::Failed) {
            AutoConnectAction::Sleep { secs } => waits.push(secs),
            AutoConnectAction::GiveUp => break,
            _ => panic!("unexpected action"),
        }
    }
    assert_eq!(attempts, (1..=10).collect::<Vec<u64>>());
    assert_eq!(waits, vec![5, 10, 15, 20, 25, 30, 35, 40, 45]);
    assert_eq!(waits.iter().sum::<u64>(), 225);
    assert!(matches!(ac.next(AutoConnectEvent::Ready { shutdown: false }), AutoConnectAction::Stop));
}

#[test]
fn retry_loop_stops_on_success_or_shutdown() {
    let mut ac = AutoConnect::new();
    assert!(matches!(ac.next(AutoConnectEvent::Ready { shutdown: true }), AutoConnectAction::Sleep { secs: 2 }));
    assert!(matches!(ac.next(AutoConnectEvent::Ready { shutdown: false }), AutoConnectAction::Connect { attempt: 1 }));
    assert!(matches!(ac.next(AutoConnectEvent::Failed), AutoConnectAction::Sleep { secs: 5 }));
    assert!(matches!(ac.next(AutoConnectEvent::Ready { shutdown: false }), AutoConnectAction::Connect { attempt: 2 }));
    assert!(matches!(ac.next(AutoConnectEvent::Connected), AutoConnectAction::StartTunnel));
    let mut ac = AutoConnect::new();
    ac.next(AutoConnectEvent::Ready { shutdown: false });
    assert!(matches!(ac.next(AutoConnectEvent::Ready { shutdown: true }), AutoConnectAction::Stop));
}
