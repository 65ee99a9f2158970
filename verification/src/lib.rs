//! Verified core of the retana desktop companion: the local proxy's text
//! protocol and encryption, the scheduler, the memory file, the SSH
//! connection state machine, the startup retry loop and the frontend
//! commands.
use vstd::prelude::*;

pub mod autoconnect;
pub mod bridge;
pub mod clock;
pub mod commands;
pub mod config;
pub mod cron;
pub mod json;
pub mod laws;
pub mod memory;
pub mod server;
pub mod ssh;
pub mod text;

verus! {
} // verus!
