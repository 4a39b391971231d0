//! Decision logic of the Tono Windows service: the WFP rule model, protected-DNS snapshot
//! reasoning, the kill-switch intent state machine and the small bookkeeping types around them.

pub mod channel;
pub mod cleanup;
pub mod client;
pub mod dns;
pub mod dns_call;
pub mod dns_live;
pub mod dns_readback;
pub mod dns_restore;
pub mod dns_watchdog;
pub mod ip;
pub mod ip_ranges;
pub mod kill_switch;
pub mod lifecycle;
pub mod netmon;
pub mod operation;
pub mod process;
pub mod structure;
pub mod text;
pub mod wfp_keys;
pub mod wfp_model;
pub mod wfp_permits;
