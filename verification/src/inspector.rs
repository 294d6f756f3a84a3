//! The observation hook protocol.
//!
//! A hook is attached to one execution run and receives one synchronous,
//! read-only callback per executed instruction, in exact program order.
//! Hooks are observers, never mutators, of execution: every callback takes
//! plain data and returns nothing, so attaching a hook cannot change the
//! run's outcome.

use vstd::prelude::*;
use crate::outcome::LogEntry;

verus! {

/// A read-only view of one executed instruction, handed to a hook once per
/// instruction step, before the instruction's effect is applied.
#[derive(Clone, Copy, Debug, PartialEq, Eq, Structural)]
pub struct StepEvent {
    /// Program counter at which the instruction stands.
    pub pc: u64,
    /// The instruction's opcode byte.
    pub opcode: u8,
}

/// The capability a hook type must offer to be attachable to a run.
///
/// `observed` is the abstract number of step events the hook has been shown
/// so far; `step` is obliged to register exactly one more event, so a run
/// that routes its events through a hook can account for every one of them:
/// none missed, none duplicated.
pub trait Inspector: Sized {
    /// How many step events this hook has observed so far.
    spec fn observed(&self) -> nat;

    /// Called once per executed instruction, in program order.
    ///
    /// A hook must absorb any internal failure (saturate a counter rather
    /// than abort): instrumentation must never change the execution outcome,
    /// so this callback returns nothing and must not panic.
    fn step(&mut self, ev: &StepEvent)
        ensures
            final(self).observed() == old(self).observed() + 1,
    ;

    /// Called when a run begins, before its first instruction.
    ///
    /// Optional, a no-op by default; whatever a hook does here, its step
    /// accounting is undisturbed.
    fn run_start(&mut self)
        ensures
            final(self).observed() == old(self).observed(),
    {
    }

    /// Called when a run has ended, after its last instruction.
    fn run_end(&mut self)
        ensures
            final(self).observed() == old(self).observed(),
    {
    }

    /// Called when execution enters a nested sub-call, at the given depth.
    fn call_enter(&mut self, depth: u64)
        ensures
            final(self).observed() == old(self).observed(),
    {
    }

    /// Called when execution leaves a nested sub-call, back to the given
    /// depth.
    fn call_exit(&mut self, depth: u64)
        ensures
            final(self).observed() == old(self).observed(),
    {
    }

    /// Called when the executed code emits a log record.
    fn log_emitted(&mut self, log: &LogEntry)
        ensures
            final(self).observed() == old(self).observed(),
    {
    }
}

} // verus!
