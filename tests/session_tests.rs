use circle9::error::Circle9Error;
use circle9::ssh_client::{AuthMethod, ConnectPlan, KeepaliveAction, SSHClient, SSHConfig};
use circle9::types::ConnectionId;

fn config(key: Option<&str>, password: Option<&str>) -> SSHConfig {
    SSHConfig {
        host: "files.example.com".to_string(),
        port: 22,
        username: "alice".to_string(),
        key_path: key.map(|k| k.to_string()),
        password: password.map(|p| p.to_string()),
    }
}

#[test]
fn connect_without_credentials_fails_and_registers_nothing() {
    let client: SSHClient<u32> = SSHClient::new();
    let r = client.connect(&config(None, None));
    assert!(matches!(r, Err(Circle9Error::AuthenticationError(_))));
    assert!(client.list_connections().is_empty());
    assert!(!client.is_connected("alice@files.example.com:22"));
}

#[test]
fn connecting_twice_reuses_the_live_session() {
    let mut client: SSHClient<u32> = SSHClient::new();
    let cfg = config(None, Some("pw"));
    match client.connect(&cfg).unwrap() {
        ConnectPlan::Open(id, AuthMethod::Password(p)) => {
            assert_eq!(id.as_str(), "alice@files.example.com:22");
            assert_eq!(p, "pw");
        }
        other => panic!("unexpected plan {:?}", other),
    }
    let (id, added) = client.finish_connect(cfg.clone(), 7, 100);
    assert!(added);
    assert_eq!(id.as_str(), "alice@files.example.com:22");
    match client.connect(&cfg).unwrap() {
        ConnectPlan::Existing(again) => assert_eq!(again.as_str(), id.as_str()),
        other => panic!("unexpected plan {:?}", other),
    }
    let (_, added_again) = client.finish_connect(cfg, 8, 200);
    assert!(!added_again);
    assert_eq!(client.list_connections(), vec!["alice@files.example.com:22".to_string()]);
    assert_eq!(client.get_connection("alice@files.example.com:22", 300), Some(&7));
}

#[test]
fn a_key_is_preferred_to_a_password() {
    let client: SSHClient<u32> = SSHClient::new();
    match client.connect(&config(Some("/home/alice/.ssh/id_ed25519"), Some("pw"))).unwrap() {
        ConnectPlan::Open(_, AuthMethod::Key(k)) => assert_eq!(k, "/home/alice/.ssh/id_ed25519"),
        other => panic!("unexpected plan {:?}", other),
    }
}

#[test]
fn idle_sessions_are_evicted_by_keepalive() {
    let mut client: SSHClient<u32> = SSHClient::new();
    assert_eq!(client.keepalive_interval_secs(), 60);
    let (id, _) = client.finish_connect(config(None, Some("pw")), 1, 1_000);
    assert_eq!(client.keepalive_tick(id.as_str(), 1_300), KeepaliveAction::Continue);
    assert_eq!(client.keepalive_tick(id.as_str(), 1_601), KeepaliveAction::Stop);
    assert!(!client.is_connected(id.as_str()));
    assert_eq!(client.keepalive_tick(id.as_str(), 1_700), KeepaliveAction::Stop);
}

#[test]
fn use_defers_eviction() {
    let mut client: SSHClient<u32> = SSHClient::new();
    let (id, _) = client.finish_connect(config(None, Some("pw")), 1, 0);
    assert_eq!(client.get_connection(id.as_str(), 250), Some(&1));
    assert_eq!(client.keepalive_tick(id.as_str(), 500), KeepaliveAction::Continue);
    assert!(client.is_connected(id.as_str()));
    assert_eq!(client.get_connection("bob@elsewhere:22", 500), None);
}

#[test]
fn disconnect_is_idempotent() {
    let mut client: SSHClient<u32> = SSHClient::new();
    let (id, _) = client.finish_connect(config(None, Some("pw")), 1, 0);
    let mut other = config(None, Some("pw"));
    other.port = 2222;
    client.finish_connect(other, 2, 0);
    client.disconnect(id.as_str());
    client.disconnect(id.as_str());
    assert_eq!(client.list_connections(), vec!["alice@files.example.com:2222".to_string()]);
}

#[test]
fn connection_ids_read_user_at_host_colon_port() {
    assert_eq!(ConnectionId::new("bob", "10.0.0.5", 2222).as_str(), "bob@10.0.0.5:2222");
    assert_eq!(ConnectionId::new("", "h", 0).as_str(), "@h:0");
    assert_eq!(ConnectionId::new("u", "h", 65535).as_str(), "u@h:65535");
    let from: ConnectionId = ConnectionId::from("x@y:1".to_string());
    assert_eq!(from.as_str(), "x@y:1");
}
