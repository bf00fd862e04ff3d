//! Core logic of a local-first, peer-to-peer task manager: sync orchestration,
//! scheduling, pairing decisions, transfer checkpoints, compaction watermarks,
//! backups, and the read-view helpers shared by every platform shell.

pub mod ids;
pub mod ranges;
pub mod devmap;
pub mod checkpoint;
pub mod sync;
pub mod orchestrator;
pub mod backoff;
pub mod network_runtime;
pub mod sync_runtime;
pub mod scheduler;
pub mod triggers;
pub mod compaction;
pub mod recovery;
pub mod runtime;
pub mod event;
pub mod subscription;
pub mod member_commands;
pub mod peer_runtime;
pub mod pairing_flow;
pub mod text;
pub mod query;
pub mod error;
pub mod backup;
pub mod discovery;
pub mod background_sync;
pub mod dto;
pub mod ports;
pub mod command;
pub mod dispatch;
pub mod apply;
pub mod rebuild;

use vstd::prelude::*;

verus! {

/// Version of the core API contract every platform shell reports.
pub const API_VERSION: u32 = 1;

/// Version triple reported at every platform boundary.
#[derive(Debug, Clone, Copy, PartialEq, Eq, Structural)]
pub struct BuildInfo {
    pub core_api: u32,
    pub schema: u32,
    pub protocol_major: u32,
    pub protocol_minor: u32,
}

impl BuildInfo {
    pub fn current() -> (b: Self)
        ensures
            b == (BuildInfo { core_api: API_VERSION, schema: 1, protocol_major: 1, protocol_minor: 0 }),
    {
        BuildInfo { core_api: API_VERSION, schema: 1, protocol_major: 1, protocol_minor: 0 }
    }
}

} // verus!
