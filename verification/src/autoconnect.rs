//! Connecting to the Hermes server on startup, with retries.
//!
//! The caller runs the loop: it asks what to do next, does it (connect,
//! sleep, start the tunnel) and reports back.
use vstd::prelude::*;
use crate::config::RetanaConfig;
use crate::ssh::{ReverseTunnelConfig, SshConfig, SshConfigView};
use crate::ssh::opt_view;

verus! {

/// Number of connection attempts before giving up.
pub const MAX_RETRIES: u64 = 10;

/// The SSH settings for connecting on startup with `config`: its server,
/// user and key, no password, and its reverse tunnel.
pub open spec fn startup_ssh_config(config: RetanaConfig) -> SshConfigView {
    SshConfigView {
        host: config.hermes_host@,
        port: config.hermes_port,
        username: config.hermes_user@,
        key_path: opt_view(config.hermes_key),
        password: None,
        reverse_tunnel: Some((config.tunnel_remote_port, config.tunnel_local_port)),
    }
}

/// The SSH settings for connecting on startup, or `None` when the settings
/// turn connecting on startup off.
pub fn auto_connect_config(config: &RetanaConfig) -> (r: Option<SshConfig>)
    ensures
        config.auto_connect ==> (r matches Some(c) && c@ == startup_ssh_config(*config)),
        !config.auto_connect ==> r is None,
{
    if !config.auto_connect {
        return None;
    }
    Some(
        SshConfig {
            host: config.hermes_host.clone(),
            port: config.hermes_port,
            username: config.hermes_user.clone(),
            key_path: match &config.hermes_key {
                Some(k) => Some(k.clone()),
                None => None,
            },
            password: None,
            reverse_tunnel: Some(
                ReverseTunnelConfig {
                    remote_port: config.tunnel_remote_port,
                    local_port: config.tunnel_local_port,
                },
            ),
        },
    )
}

/// What the caller reports to the retry loop.
pub enum AutoConnectEvent {
    /// Ready for the next attempt; whether the app is shutting down.
    Ready { shutdown: bool },
    /// The last attempt connected.
    Connected,
    /// The last attempt failed.
    Failed,
}

/// What the retry loop asks the caller to do.
pub enum AutoConnectAction {
    /// Make connection attempt number `attempt` (counted from 1).
    Connect { attempt: u64 },
    /// Wait this many seconds, then report `Ready`.
    Sleep { secs: u64 },
    /// Connected: start the reverse tunnel; the loop is over.
    StartTunnel,
    /// The app is shutting down; the loop is over.
    Stop,
    /// Every attempt failed; the loop is over.
    GiveUp,
}

/// Seconds to wait before the first attempt, so that the local server is
/// up before the tunnel forwards to it.
pub const STARTUP_DELAY_SECS: u64 = 2;

/// The state of the retry loop: the number of the next attempt (0 before
/// the startup wait), and whether the loop is over.
pub struct AutoConnect {
    attempt: u64,
    done: bool,
}

/// The next state and action of the retry loop in state `(attempt, done)`
/// on event `e`.  The first step, whatever is reported, is the startup wait
/// (after which the caller loads the settings).  Attempt `k` that fails is
/// followed by a wait of `5 * k` seconds, except the last, after which the
/// loop gives up.
pub open spec fn auto_step(attempt: u64, done: bool, e: AutoConnectEvent) -> (u64, bool, AutoConnectAction) {
    if done {
        (attempt, true, AutoConnectAction::Stop)
    } else if attempt == 0 {
        (1, false, AutoConnectAction::Sleep { secs: STARTUP_DELAY_SECS })
    } else {
        match e {
            AutoConnectEvent::Ready { shutdown } => if shutdown {
                (attempt, true, AutoConnectAction::Stop)
            } else if attempt > MAX_RETRIES {
                (attempt, true, AutoConnectAction::GiveUp)
            } else {
                (attempt, false, AutoConnectAction::Connect { attempt })
            },
            AutoConnectEvent::Connected => (attempt, true, AutoConnectAction::StartTunnel),
            AutoConnectEvent::Failed => if attempt < MAX_RETRIES {
                ((attempt + 1) as u64, false, AutoConnectAction::Sleep { secs: (5 * attempt) as u64 })
            } else {
                (attempt, true, AutoConnectAction::GiveUp)
            },
        }
    }
}

impl AutoConnect {
    #[verifier::type_invariant]
    spec fn wf(self) -> bool {
        self.attempt <= MAX_RETRIES + 1
    }

    /// The number of the next attempt (0 before the startup wait).
    pub closed spec fn attempt_view(self) -> u64 {
        self.attempt
    }

    /// Whether the loop is over.
    pub closed spec fn done_view(self) -> bool {
        self.done
    }

    /// The loop before its startup wait.
    pub fn new() -> (r: AutoConnect)
        ensures
            r.attempt_view() == 0,
            !r.done_view(),
    {
        AutoConnect { attempt: 0, done: false }
    }

    /// Advances the loop on event `e` and says what to do next.
    pub fn next(&mut self, e: AutoConnectEvent) -> (r: AutoConnectAction)
        ensures
            (final(self).attempt_view(), final(self).done_view(), r) == auto_step(
                old(self).attempt_view(),
                old(self).done_view(),
                e,
            ),
            final(self).attempt_view() <= MAX_RETRIES + 1,
    {
        proof {
            use_type_invariant(&*self);
        }
        if self.done {
            return AutoConnectAction::Stop;
        }
        if self.attempt == 0 {
            self.attempt = 1;
            return AutoConnectAction::Sleep { secs: STARTUP_DELAY_SECS };
        }
        match e {
            AutoConnectEvent::Ready { shutdown } => {
                if shutdown {
                    self.done = true;
                    AutoConnectAction::Stop
                } else if self.attempt > MAX_RETRIES {
                    self.done = true;
                    AutoConnectAction::GiveUp
                } else {
                    AutoConnectAction::Connect { attempt: self.attempt }
                }
            },
            AutoConnectEvent::Connected => {
                self.done = true;
                AutoConnectAction::StartTunnel
            },
            AutoConnectEvent::Failed => {
                if self.attempt < MAX_RETRIES {
                    let secs = 5 * self.attempt;
                    self.attempt = self.attempt + 1;
                    AutoConnectAction::Sleep { secs }
                } else {
                    self.done = true;
                    AutoConnectAction::GiveUp
                }
            },
        }
    }
}

} // verus!
