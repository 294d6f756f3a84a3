//! Instrumented transaction execution harness.
//!
//! The crate runs single units of programmable-ledger execution against an
//! in-memory ledger while routing every instruction-step event through a
//! pluggable observation hook.  The concrete execution engine is an external
//! collaborator reached through the [`engine::Engine`] interface; everything
//! around it — the ledger, the configuration threading, the commit step and
//! the hook protocol — is specified and verified here.

pub mod inspector;
pub mod tracing;
pub mod outcome;
pub mod config;
pub mod state;
pub mod engine;
pub mod exec;
pub mod harness;
