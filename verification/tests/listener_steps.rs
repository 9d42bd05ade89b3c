use praxis::listener::{
    CertificatePair, Listener, ListenerEvent, ListenerPhase, ListenerStep, ListenerTls, ProxyError,
    next_listener_step,
};

fn listener(tls: Option<ListenerTls>) -> Listener {
    Listener { name: "default".to_owned(), address: "127.0.0.1:8443".to_owned(), tls }
}

fn pair() -> CertificatePair {
    CertificatePair { cert_path: "/c.pem".to_owned(), key_path: "/k.pem".to_owned() }
}

fn message(step: ListenerStep) -> String {
    match step {
        ListenerStep::Fail(ProxyError::Config(m)) => m,
        _ => panic!("expected a failure"),
    }
}

#[test]
fn plain_listener_is_tcp() {
    let l = listener(None);
    let (phase, step) = next_listener_step(&l, ListenerPhase::Start, ListenerEvent::Begin);
    assert!(phase == ListenerPhase::Done);
    assert!(matches!(step, ListenerStep::AddTcp(a) if a == "127.0.0.1:8443"));
}

#[test]
fn static_tls_listener_walkthrough() {
    let l = listener(Some(ListenerTls { certificates: vec![pair()], hot_reload: false }));
    let (phase, step) = next_listener_step(&l, ListenerPhase::Start, ListenerEvent::Begin);
    assert!(phase == ListenerPhase::AwaitingStaticConfig && matches!(step, ListenerStep::BuildStaticConfig));
    let (phase, step) = next_listener_step(&l, phase, ListenerEvent::ConfigBuilt);
    assert!(phase == ListenerPhase::AwaitingSettings && matches!(step, ListenerStep::MakeTlsSettings));
    let (phase, step) = next_listener_step(&l, phase, ListenerEvent::SettingsBuilt);
    assert!(phase == ListenerPhase::Done);
    assert!(matches!(step, ListenerStep::AddTls(a) if a == "127.0.0.1:8443"));
}

#[test]
fn static_tls_errors_name_the_address() {
    let l = listener(Some(ListenerTls { certificates: vec![pair()], hot_reload: false }));
    let (_, step) = next_listener_step(
        &l,
        ListenerPhase::AwaitingStaticConfig,
        ListenerEvent::ConfigFailed("bad key".to_owned()),
    );
    assert_eq!(message(step), "TLS for 127.0.0.1:8443: bad key");
    let (_, step) = next_listener_step(
        &l,
        ListenerPhase::AwaitingSettings,
        ListenerEvent::SettingsFailed("no alpn".to_owned()),
    );
    assert_eq!(message(step), "TLS for 127.0.0.1:8443: no alpn");
}

#[test]
fn hot_reload_listener_walkthrough() {
    let l = listener(Some(ListenerTls { certificates: vec![pair()], hot_reload: true }));
    let (phase, step) = next_listener_step(&l, ListenerPhase::Start, ListenerEvent::Begin);
    assert!(phase == ListenerPhase::AwaitingReloadableConfig);
    assert!(matches!(step, ListenerStep::BuildReloadableConfig));
    let (phase, step) = next_listener_step(&l, phase, ListenerEvent::ConfigBuilt);
    assert!(phase == ListenerPhase::AwaitingWatcher);
    assert!(matches!(step, ListenerStep::SpawnWatcher(p) if p.cert_path == "/c.pem" && p.key_path == "/k.pem"));
    let (phase, step) = next_listener_step(&l, phase, ListenerEvent::WatcherSpawned);
    assert!(phase == ListenerPhase::AwaitingSettings && matches!(step, ListenerStep::MakeTlsSettings));
}

#[test]
fn hot_reload_errors() {
    let l = listener(Some(ListenerTls { certificates: vec![], hot_reload: true }));
    let (phase, step) = next_listener_step(&l, ListenerPhase::AwaitingReloadableConfig, ListenerEvent::ConfigBuilt);
    assert!(phase == ListenerPhase::Done);
    assert_eq!(message(step), "TLS hot-reload for 127.0.0.1:8443: no certificate configured");
    let (_, step) = next_listener_step(
        &l,
        ListenerPhase::AwaitingReloadableConfig,
        ListenerEvent::ConfigFailed("unreadable".to_owned()),
    );
    assert_eq!(message(step), "TLS hot-reload for 127.0.0.1:8443: unreadable");
}
