//! BMW ENET Layer-2 Ethernet-over-UDP tunnel: wire protocol, link logic and
//! status rules, with their contracts proved by Verus.

pub mod wire;
pub mod magic;
pub mod error;
pub mod crypto;
pub mod frame;
pub mod stats;
pub mod text;
pub mod semver;
pub mod relay;
pub mod state;
pub mod config;
pub mod addr;
pub mod installer;
pub mod tunnel;
pub mod discovery;
pub mod status;
pub mod safety;
pub mod npcap;
pub mod updater;
pub mod resolve;
pub mod archive;
pub mod simframes;
pub mod setup;
pub mod activity;
