//! The decisions taken when an HTTP listener is registered with the proxy
//! service: plain TCP or TLS, static or hot-reloaded certificates, and the
//! errors reported along the way. The listener service and the TLS
//! machinery are driven by the caller, step by step.

use vstd::prelude::*;

use crate::text::concat;

verus! {

/// A certificate and its private key, by file path.
pub struct CertificatePair {
    /// Path to the PEM certificate chain.
    pub cert_path: String,
    /// Path to the PEM private key.
    pub key_path: String,
}

/// TLS settings of a listener.
pub struct ListenerTls {
    /// The certificates served; the first one is watched for changes when
    /// hot reload is enabled.
    pub certificates: Vec<CertificatePair>,
    /// Reload certificates when their files change.
    pub hot_reload: bool,
}

/// A listener of the proxy.
pub struct Listener {
    /// The listener's name.
    pub name: String,
    /// The socket address to bind.
    pub address: String,
    /// TLS settings; `None` means plain TCP.
    pub tls: Option<ListenerTls>,
}

/// An error raised while setting up the proxy.
pub enum ProxyError {
    /// An invalid or unusable configuration, with a description.
    Config(String),
}

/// Where the registration of a listener stands.
#[derive(Clone, Copy, PartialEq, Eq, Structural)]
pub enum ListenerPhase {
    /// Nothing done yet.
    Start,
    /// Waiting for the hot-reloadable server configuration.
    AwaitingReloadableConfig,
    /// Waiting for the static server configuration.
    AwaitingStaticConfig,
    /// Waiting for the certificate watcher to start.
    AwaitingWatcher,
    /// Waiting for the TLS settings.
    AwaitingSettings,
    /// Registration finished or failed.
    Done,
}

/// What the caller reports after performing the last step.
pub enum ListenerEvent {
    /// Registration begins.
    Begin,
    /// The server configuration was built.
    ConfigBuilt,
    /// Building the server configuration failed, with the cause.
    ConfigFailed(String),
    /// The certificate watcher runs.
    WatcherSpawned,
    /// The TLS settings were built.
    SettingsBuilt,
    /// Building the TLS settings failed, with the cause.
    SettingsFailed(String),
}

/// What the caller is to do next.
pub enum ListenerStep {
    /// Register a plain TCP listener at the address; registration is done.
    AddTcp(String),
    /// Build a server configuration whose certificates can be swapped.
    BuildReloadableConfig,
    /// Build a static server configuration.
    BuildStaticConfig,
    /// Start watching this certificate for changes.
    SpawnWatcher(CertificatePair),
    /// Turn the server configuration into TLS settings.
    MakeTlsSettings,
    /// Register a TLS listener at the address with the settings; done.
    AddTls(String),
    /// Registration fails with this error.
    Fail(ProxyError),
}

/// Whether `event` is what the caller can report in `phase`.
pub open spec fn event_fits(phase: ListenerPhase, event: ListenerEvent) -> bool {
    match phase {
        ListenerPhase::Start => event is Begin,
        ListenerPhase::AwaitingReloadableConfig | ListenerPhase::AwaitingStaticConfig => event is ConfigBuilt
            || event is ConfigFailed,
        ListenerPhase::AwaitingWatcher => event is WatcherSpawned,
        ListenerPhase::AwaitingSettings => event is SettingsBuilt || event is SettingsFailed,
        ListenerPhase::Done => false,
    }
}

/// The message of an error about hot-reloaded TLS at `address`.
pub open spec fn hot_reload_error(address: Seq<char>, cause: Seq<char>) -> Seq<char> {
    "TLS hot-reload for "@ + address + ": "@ + cause
}

/// The message of an error about TLS at `address`.
pub open spec fn tls_error(address: Seq<char>, cause: Seq<char>) -> Seq<char> {
    "TLS for "@ + address + ": "@ + cause
}

/// `step` fails with a configuration error whose message is `message`.
pub open spec fn fails_with(step: ListenerStep, message: Seq<char>) -> bool {
    step matches ListenerStep::Fail(ProxyError::Config(m)) && m@ == message
}

/// The next phase and step of registering `listener` after `event`.
pub open spec fn is_next_step(
    listener: Listener,
    phase: ListenerPhase,
    event: ListenerEvent,
    next: ListenerPhase,
    step: ListenerStep,
) -> bool {
    let address = listener.address@;
    match phase {
        ListenerPhase::Start => match listener.tls {
            None => next == ListenerPhase::Done && (step matches ListenerStep::AddTcp(a) && a@ == address),
            Some(tls) => if tls.hot_reload {
                next == ListenerPhase::AwaitingReloadableConfig && step is BuildReloadableConfig
            } else {
                next == ListenerPhase::AwaitingStaticConfig && step is BuildStaticConfig
            },
        },
        ListenerPhase::AwaitingReloadableConfig => match event {
            ListenerEvent::ConfigFailed(cause) => next == ListenerPhase::Done && fails_with(
                step,
                hot_reload_error(address, cause@),
            ),
            _ => {
                let certs = listener.tls->0.certificates@;
                if certs.len() > 0 {
                    next == ListenerPhase::AwaitingWatcher && (step matches ListenerStep::SpawnWatcher(p)
                        && p == certs[0])
                } else {
                    next == ListenerPhase::Done && fails_with(
                        step,
                        hot_reload_error(address, "no certificate configured"@),
                    )
                }
            },
        },
        ListenerPhase::AwaitingStaticConfig => match event {
            ListenerEvent::ConfigFailed(cause) => next == ListenerPhase::Done && fails_with(
                step,
                tls_error(address, cause@),
            ),
            _ => next == ListenerPhase::AwaitingSettings && step is MakeTlsSettings,
        },
        ListenerPhase::AwaitingWatcher => next == ListenerPhase::AwaitingSettings && step is MakeTlsSettings,
        ListenerPhase::AwaitingSettings => match event {
            ListenerEvent::SettingsFailed(cause) => next == ListenerPhase::Done && fails_with(
                step,
                tls_error(address, cause@),
            ),
            _ => next == ListenerPhase::Done && (step matches ListenerStep::AddTls(a) && a@ == address),
        },
        ListenerPhase::Done => false,
    }
}

fn hot_reload_message(address: &str, cause: &str) -> (m: String)
    ensures
        m@ == hot_reload_error(address@, cause@),
{
    let head = concat("TLS hot-reload for ", address);
    let head = concat(head.as_str(), ": ");
    concat(head.as_str(), cause)
}

fn tls_message(address: &str, cause: &str) -> (m: String)
    ensures
        m@ == tls_error(address@, cause@),
{
    let head = concat("TLS for ", address);
    let head = concat(head.as_str(), ": ");
    concat(head.as_str(), cause)
}

fn clone_pair(p: &CertificatePair) -> (r: CertificatePair)
    ensures
        r == *p,
{
    CertificatePair { cert_path: p.cert_path.clone(), key_path: p.key_path.clone() }
}

/// Decide the next step of registering `listener`, given the phase it is
/// in and what the caller reports of the last step.
///
/// A listener without TLS is registered over plain TCP. With TLS, a static
/// server configuration is built, or, with hot reload, a reloadable one
/// whose first certificate is then watched; the configuration is turned
/// into TLS settings and the listener registered with them. Any failure
/// ends registration with a configuration error naming the address.
pub fn next_listener_step(listener: &Listener, phase: ListenerPhase, event: ListenerEvent) -> (r: (
    ListenerPhase,
    ListenerStep,
))
    requires
        event_fits(phase, event),
        phase != ListenerPhase::Start && phase != ListenerPhase::Done ==> listener.tls is Some,
        phase == ListenerPhase::AwaitingReloadableConfig || phase == ListenerPhase::AwaitingWatcher
            ==> listener.tls->0.hot_reload,
    ensures
        is_next_step(*listener, phase, event, r.0, r.1),
{
    let address = listener.address.as_str();
    match phase {
        ListenerPhase::Start => match &listener.tls {
            None => (ListenerPhase::Done, ListenerStep::AddTcp(address.to_owned())),
            Some(tls) => if tls.hot_reload {
                (ListenerPhase::AwaitingReloadableConfig, ListenerStep::BuildReloadableConfig)
            } else {
                (ListenerPhase::AwaitingStaticConfig, ListenerStep::BuildStaticConfig)
            },
        },
        ListenerPhase::AwaitingReloadableConfig => match event {
            ListenerEvent::ConfigFailed(cause) => (
                ListenerPhase::Done,
                ListenerStep::Fail(ProxyError::Config(hot_reload_message(address, cause.as_str()))),
            ),
            _ => {
                let tls = listener.tls.as_ref().unwrap();
                if tls.certificates.len() > 0 {
                    (ListenerPhase::AwaitingWatcher, ListenerStep::SpawnWatcher(clone_pair(&tls.certificates[0])))
                } else {
                    (
                        ListenerPhase::Done,
                        ListenerStep::Fail(
                            ProxyError::Config(hot_reload_message(address, "no certificate configured")),
                        ),
                    )
                }
            },
        },
        ListenerPhase::AwaitingStaticConfig => match event {
            ListenerEvent::ConfigFailed(cause) => (
                ListenerPhase::Done,
                ListenerStep::Fail(ProxyError::Config(tls_message(address, cause.as_str()))),
            ),
            _ => (ListenerPhase::AwaitingSettings, ListenerStep::MakeTlsSettings),
        },
        ListenerPhase::AwaitingWatcher => (ListenerPhase::AwaitingSettings, ListenerStep::MakeTlsSettings),
        ListenerPhase::AwaitingSettings => match event {
            ListenerEvent::SettingsFailed(cause) => (
                ListenerPhase::Done,
                ListenerStep::Fail(ProxyError::Config(tls_message(address, cause.as_str()))),
            ),
            _ => (ListenerPhase::Done, ListenerStep::AddTls(address.to_owned())),
        },
        ListenerPhase::Done => {
            // No event fits a finished registration.
            proof {
                assert(false);
            }
            (ListenerPhase::Done, ListenerStep::BuildStaticConfig)
        },
    }
}

/// How many steps at most remain before registration is done.
pub open spec fn steps_left(phase: ListenerPhase) -> nat {
    match phase {
        ListenerPhase::Start => 4,
        ListenerPhase::AwaitingReloadableConfig => 3,
        ListenerPhase::AwaitingWatcher => 2,
        ListenerPhase::AwaitingStaticConfig => 2,
        ListenerPhase::AwaitingSettings => 1,
        ListenerPhase::Done => 0,
    }
}

/// Registration always progresses and ends: every step brings it closer
/// to done, a listener is registered over plain TCP exactly when it has no
/// TLS settings, and it is only ever registered once registration is done.
pub proof fn listener_registration_progresses(
    listener: Listener,
    phase: ListenerPhase,
    event: ListenerEvent,
    next: ListenerPhase,
    step: ListenerStep,
)
    requires
        event_fits(phase, event),
        phase != ListenerPhase::Start && phase != ListenerPhase::Done ==> listener.tls is Some,
        is_next_step(listener, phase, event, next, step),
    ensures
        steps_left(next) < steps_left(phase),
        step is AddTcp ==> listener.tls is None && next == ListenerPhase::Done,
        phase == ListenerPhase::Start && listener.tls is None ==> step is AddTcp,
        step is AddTls ==> listener.tls is Some && next == ListenerPhase::Done,
        step is Fail ==> next == ListenerPhase::Done,
{
}

/// With hot reload, once the reloadable configuration is built, the
/// watcher is started for the first configured certificate pair: its
/// certificate and key paths are those of `certificates[0]`, whatever other
/// pairs follow. Without any certificate, registration fails instead.
pub proof fn hot_reload_watches_first_certificate(
    listener: Listener,
    next: ListenerPhase,
    step: ListenerStep,
)
    requires
        listener.tls is Some,
        listener.tls->0.hot_reload,
        is_next_step(listener, ListenerPhase::AwaitingReloadableConfig, ListenerEvent::ConfigBuilt, next, step),
    ensures
        listener.tls->0.certificates@.len() > 0 ==> next == ListenerPhase::AwaitingWatcher && (
        step matches ListenerStep::SpawnWatcher(p) && p.cert_path@
            == listener.tls->0.certificates@[0].cert_path@ && p.key_path@
            == listener.tls->0.certificates@[0].key_path@),
        listener.tls->0.certificates@.len() == 0 ==> next == ListenerPhase::Done && step is Fail,
{
}

} // verus!
