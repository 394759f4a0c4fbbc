//! Policy-governed execution of verified tools: the decision logic of the
//! runtime (policy evaluation, capability ceilings, provenance checks,
//! receipt hashing and signing, the hash-chained audit log, the local
//! control-plane contract and the operator console state machine).

pub mod text;
pub mod crypto;
pub mod sort;
pub mod model;
pub mod policy;
pub mod audit;
pub mod control_plane;
pub mod api;
pub mod runtime;
pub mod provenance;
pub mod secrets;
pub mod signing;
pub mod listing;
pub mod host;
pub mod trust;
pub mod decision;
pub mod tui;
pub mod cli;
