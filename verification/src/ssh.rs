//! The SSH connection to the Hermes server, as a state machine.
//!
//! The network work (opening the TCP stream, the SSH handshake, the
//! authentication and running commands) is done by the caller, which keeps
//! the resulting session of type `S` here.  This module decides which
//! authentication to attempt, what a failure is reported as, and how the
//! connection status moves.
use vstd::prelude::*;
use crate::text::{copy_str, decimal, push_decimal, push_str};

verus! {

/// Reverse tunnel: `remote_port` on the Hermes server to `local_port` here.
pub struct ReverseTunnelConfig {
    pub remote_port: u16,
    pub local_port: u16,
}

/// SSH connection configuration.
pub struct SshConfig {
    pub host: String,
    pub port: u16,
    pub username: String,
    /// Path to private key file, or None for password auth
    pub key_path: Option<String>,
    pub password: Option<String>,
    /// Reverse tunnel: remote_port (on Hermes server) -> local_port (on retana)
    pub reverse_tunnel: Option<ReverseTunnelConfig>,
}

/// The view of an optional string.
pub open spec fn opt_view(o: Option<String>) -> Option<Seq<char>> {
    match o {
        Some(s) => Some(s@),
        None => None,
    }
}

/// What an SSH configuration is, as contracts speak of it.
pub struct SshConfigView {
    pub host: Seq<char>,
    pub port: u16,
    pub username: Seq<char>,
    pub key_path: Option<Seq<char>>,
    pub password: Option<Seq<char>>,
    pub reverse_tunnel: Option<(u16, u16)>,
}

impl View for SshConfig {
    type V = SshConfigView;

    open spec fn view(&self) -> SshConfigView {
        SshConfigView {
            host: self.host@,
            port: self.port,
            username: self.username@,
            key_path: opt_view(self.key_path),
            password: opt_view(self.password),
            reverse_tunnel: match self.reverse_tunnel {
                Some(t) => Some((t.remote_port, t.local_port)),
                None => None,
            },
        }
    }
}

/// A copy of an optional string.
fn copy_opt(o: &Option<String>) -> (r: Option<String>)
    ensures
        opt_view(r) == opt_view(*o),
{
    match o {
        Some(s) => Some(s.clone()),
        None => None,
    }
}

impl SshConfig {
    /// A copy of the configuration.
    pub fn duplicate(&self) -> (r: SshConfig)
        ensures
            r@ == self@,
    {
        SshConfig {
            host: self.host.clone(),
            port: self.port,
            username: self.username.clone(),
            key_path: copy_opt(&self.key_path),
            password: copy_opt(&self.password),
            reverse_tunnel: match &self.reverse_tunnel {
                Some(t) => Some(
                    ReverseTunnelConfig { remote_port: t.remote_port, local_port: t.local_port },
                ),
                None => None,
            },
        }
    }
}

/// Connection status.
pub enum ConnectionStatus {
    Disconnected,
    Connecting,
    Connected,
    Error(String),
}

/// What a connection status is, as contracts speak of it.
pub enum StatusView {
    Disconnected,
    Connecting,
    Connected,
    Error(Seq<char>),
}

impl View for ConnectionStatus {
    type V = StatusView;

    open spec fn view(&self) -> StatusView {
        match self {
            ConnectionStatus::Disconnected => StatusView::Disconnected,
            ConnectionStatus::Connecting => StatusView::Connecting,
            ConnectionStatus::Connected => StatusView::Connected,
            ConnectionStatus::Error(e) => StatusView::Error(e@),
        }
    }
}

impl ConnectionStatus {
    /// A copy of the status.
    pub fn duplicate(&self) -> (r: ConnectionStatus)
        ensures
            r@ == self@,
    {
        match self {
            ConnectionStatus::Disconnected => ConnectionStatus::Disconnected,
            ConnectionStatus::Connecting => ConnectionStatus::Connecting,
            ConnectionStatus::Connected => ConnectionStatus::Connected,
            ConnectionStatus::Error(e) => ConnectionStatus::Error(e.clone()),
        }
    }
}

/// How to authenticate.
pub enum AuthMethod {
    /// With the private key file at this path.
    PublicKey(String),
    /// With this password.
    Password(String),
    /// No way to authenticate was configured.
    Missing,
}

/// What a connection attempt must do: reach `addr`, then authenticate as
/// `username` by `auth`.
pub struct ConnectPlan {
    pub addr: String,
    pub username: String,
    pub auth: AuthMethod,
}

/// The address of the server, `host:port`.
pub open spec fn addr_of(c: SshConfigView) -> Seq<char> {
    c.host + ":"@ + decimal(c.port as nat)
}

/// Whether `plan` is the plan for `c`: its address and user, a key when one
/// is configured, else a password when one is, else nothing.
pub open spec fn plans(plan: ConnectPlan, c: SshConfigView) -> bool {
    &&& plan.addr@ == addr_of(c)
    &&& plan.username@ == c.username
    &&& match c.key_path {
        Some(k) => plan.auth matches AuthMethod::PublicKey(p) && p@ == k,
        None => match c.password {
            Some(w) => plan.auth matches AuthMethod::Password(p) && p@ == w,
            None => plan.auth is Missing,
        },
    }
}

/// The step at which a connection attempt stopped.
pub enum ConnectStage {
    /// The TCP connection could not be opened.
    Tcp,
    /// The TCP stream could not be handed to the session; the error's text.
    Stream(String),
    /// No SSH session could be created.
    Session,
    /// The SSH handshake failed.
    Handshake,
    /// Authentication failed, or no method was configured.
    Auth,
}

/// How a connection attempt ended.
pub enum ConnectOutcome<S> {
    /// It stopped at this step.
    Failed(ConnectStage),
    /// The session is established; whether the server reports it
    /// authenticated.
    Established(S, bool),
}

/// The error reported when an attempt for `c` stopped at `stage`.
pub open spec fn failure_message(stage: ConnectStage, c: SshConfigView) -> Seq<char> {
    match stage {
        ConnectStage::Tcp => "Failed to connect to "@ + addr_of(c),
        ConnectStage::Stream(e) => e@,
        ConnectStage::Session => "Failed to create SSH session"@,
        ConnectStage::Handshake => "SSH handshake failed"@,
        ConnectStage::Auth => match c.key_path {
            Some(_) => "Public key authentication failed"@,
            None => match c.password {
                Some(_) => "Password authentication failed"@,
                None => "No authentication method provided (key_path or password)"@,
            },
        },
    }
}

/// The managed SSH connection: its settings, its session while connected,
/// and its status.
pub struct SshManager<S> {
    config: SshConfig,
    session: Option<S>,
    status: ConnectionStatus,
}

impl<S> SshManager<S> {
    /// The settings in use.
    pub closed spec fn config_view(&self) -> SshConfigView {
        self.config@
    }

    /// The status.
    pub closed spec fn status_view(&self) -> StatusView {
        self.status@
    }

    /// The session, if one is held.
    pub closed spec fn session_view(&self) -> Option<S> {
        self.session
    }

    /// A manager for `config`, disconnected.
    pub fn new(config: SshConfig) -> (r: SshManager<S>)
        ensures
            r.config_view() == config@,
            r.status_view() == StatusView::Disconnected,
            r.session_view() is None,
    {
        SshManager { config, session: None, status: ConnectionStatus::Disconnected }
    }

    /// The plan of an attempt with the stored settings.
    fn plan(&self) -> (r: ConnectPlan)
        ensures
            plans(r, self.config_view()),
    {
        let mut addr = copy_str(self.config.host.as_str());
        push_str(&mut addr, ":");
        push_decimal(&mut addr, self.config.port as u64);
        let auth = match &self.config.key_path {
            Some(k) => AuthMethod::PublicKey(k.clone()),
            None => match &self.config.password {
                Some(w) => AuthMethod::Password(w.clone()),
                None => AuthMethod::Missing,
            },
        };
        ConnectPlan { addr, username: self.config.username.clone(), auth }
    }

    /// Starts connecting with new settings (`connect_with_config`): stores
    /// them, marks the manager as connecting and says what to attempt.
    pub fn connect_with_config(&mut self, config: &SshConfig) -> (r: ConnectPlan)
        ensures
            final(self).config_view() == config@,
            final(self).status_view() == StatusView::Connecting,
            final(self).session_view() == old(self).session_view(),
            plans(r, config@),
    {
        self.config = config.duplicate();
        self.connect()
    }

    /// Starts connecting with the stored settings (`connect`): marks the
    /// manager as connecting and says what to attempt.
    pub fn connect(&mut self) -> (r: ConnectPlan)
        ensures
            final(self).config_view() == old(self).config_view(),
            final(self).status_view() == StatusView::Connecting,
            final(self).session_view() == old(self).session_view(),
            plans(r, old(self).config_view()),
    {
        self.status = ConnectionStatus::Connecting;
        self.plan()
    }

    /// Ends a connection attempt: an authenticated session is kept and the
    /// manager is connected; otherwise the error is reported and the status
    /// and session stay as they were.
    pub fn finish_connect(&mut self, outcome: ConnectOutcome<S>) -> (r: Result<(), String>)
        ensures
            final(self).config_view() == old(self).config_view(),
            match outcome {
                ConnectOutcome::Established(s, true) => r is Ok && final(self).status_view()
                    == StatusView::Connected && final(self).session_view() == Some(s),
                ConnectOutcome::Established(_, false) => r matches Err(e) && e@
                    == "SSH authentication failed"@ && final(self).status_view()
                    == old(self).status_view() && final(self).session_view()
                    == old(self).session_view(),
                ConnectOutcome::Failed(stage) => r matches Err(e) && e@ == failure_message(
                    stage,
                    old(self).config_view(),
                ) && final(self).status_view() == old(self).status_view()
                    && final(self).session_view() == old(self).session_view(),
            },
    {
        match outcome {
            ConnectOutcome::Established(s, authenticated) => {
                if authenticated {
                    self.session = Some(s);
                    self.status = ConnectionStatus::Connected;
                    Ok(())
                } else {
                    Err(copy_str("SSH authentication failed"))
                }
            },
            ConnectOutcome::Failed(stage) => {
                let msg = match stage {
                    ConnectStage::Tcp => {
                        let mut m = copy_str("Failed to connect to ");
                        push_str(&mut m, self.config.host.as_str());
                        push_str(&mut m, ":");
                        push_decimal(&mut m, self.config.port as u64);
                        m
                    },
                    ConnectStage::Stream(e) => e,
                    ConnectStage::Session => copy_str("Failed to create SSH session"),
                    ConnectStage::Handshake => copy_str("SSH handshake failed"),
                    ConnectStage::Auth => match &self.config.key_path {
                        Some(_) => copy_str("Public key authentication failed"),
                        None => match &self.config.password {
                            Some(_) => copy_str("Password authentication failed"),
                            None => copy_str(
                                "No authentication method provided (key_path or password)",
                            ),
                        },
                    },
                };
                Err(msg)
            },
        }
    }

    /// The session, for the reverse tunnel (`session_arc`).
    pub fn session_arc(&self) -> (r: Option<&S>)
        ensures
            match r {
                Some(s) => self.session_view() == Some(*s),
                None => self.session_view() is None,
            },
    {
        match &self.session {
            Some(s) => Some(s),
            None => None,
        }
    }

    /// The session to run a remote command on (`exec`), or the error
    /// `Not connected` when there is none.
    pub fn exec(&self) -> (r: Result<&S, String>)
        ensures
            match r {
                Ok(s) => self.session_view() == Some(*s),
                Err(e) => self.session_view() is None && e@ == "Not connected"@,
            },
    {
        match &self.session {
            Some(s) => Ok(s),
            None => Err(copy_str("Not connected")),
        }
    }

    /// The current status.
    pub fn status(&self) -> (r: ConnectionStatus)
        ensures
            r@ == self.status_view(),
    {
        self.status.duplicate()
    }

    /// Drops the session and marks the manager as disconnected.
    pub fn disconnect(&mut self) -> (r: Result<(), String>)
        ensures
            r is Ok,
            final(self).config_view() == old(self).config_view(),
            final(self).status_view() == StatusView::Disconnected,
            final(self).session_view() is None,
    {
        self.session = None;
        self.status = ConnectionStatus::Disconnected;
        Ok(())
    }

    /// Whether the manager is connected.
    pub fn is_connected(&self) -> (r: bool)
        ensures
            r == (self.status_view() == StatusView::Connected),
    {
        match self.status {
            ConnectionStatus::Connected => true,
            _ => false,
        }
    }
}

/// Registers the reverse tunnel `remote_port` on the server to `local_port`
/// here.  Forwarding itself is not implemented: the registration always
/// succeeds.
pub fn start_reverse_tunnel<S>(_ssh_manager: &SshManager<S>, remote_port: u16, local_port: u16) -> (r: Result<(), String>)
    ensures
        r is Ok,
{
    Ok(())
}

} // verus!
