//! The boundary to the execution engine.
//!
//! The concrete engine — interpreter, gas accounting, opcode semantics —
//! is an external collaborator.  The harness consumes it through this
//! narrow build-attach-run-extract interface and is generic over it, so a
//! new engine or ledger backend can be substituted without touching the
//! harness logic.  An implementation is obliged to behave as a pure
//! function of the ledger content, the configuration and the rule-set
//! identifier: Verus holds every harness proof to that contract, and an
//! implementation outside this crate is answerable for meeting it.

use vstd::prelude::*;
use crate::config::{Config, ConfigView, RuleSetId};
use crate::inspector::StepEvent;
use crate::outcome::{EngineError, Outcome, OutcomeView};
use crate::state::{Ledger, LedgerSnapshot};

verus! {

/// Everything a finished run hands back: the outcome with its delta set,
/// the engine's final configuration, and the instruction steps the engine
/// observed, in exact execution order.
pub struct RunReply {
    /// How the run ended, and the account changes it produced.
    pub outcome: Outcome,
    /// The engine's final configuration — the possibly mutated successor
    /// of the one the run was given, and the new canonical value.
    pub config: Config,
    /// One record per executed instruction, in program order.
    pub steps: Vec<StepEvent>,
}

/// Mathematical view of a reply.
pub ghost struct RunReplyView {
    pub outcome: OutcomeView,
    pub config: ConfigView,
    pub steps: Seq<StepEvent>,
}

impl View for RunReply {
    type V = RunReplyView;

    open spec fn view(&self) -> RunReplyView {
        RunReplyView { outcome: self.outcome@, config: self.config@, steps: self.steps@ }
    }
}

/// An execution engine as the harness consumes it.
///
/// `compute` is the run the engine performs, as a mathematical function:
/// an engine must be deterministic in the ledger content, the
/// configuration and the rule set, with no hidden mutable state.  `run`
/// constructs a fresh engine instance over those inputs, executes exactly
/// one transaction to completion — success, revert or halt, never partial
/// — and extracts the outcome, the final configuration and the step trace.
/// It commits nothing: the delta set comes back unapplied so that callers
/// may dry-run.
pub trait Engine: Sized {
    /// The run this engine performs on the given inputs.
    spec fn compute(
        &self,
        ledger: LedgerSnapshot,
        config: ConfigView,
        rules: RuleSetId,
    ) -> Result<RunReplyView, EngineError>;

    /// Runs exactly one transaction and reports what `compute` says of the
    /// inputs: a reply, or a terminal `EngineError` with nothing produced.
    fn run(&self, ledger: &Ledger, config: &Config, rules: RuleSetId) -> (r: Result<
        RunReply,
        EngineError,
    >)
        requires
            ledger.wf(),
        ensures
            match self.compute(LedgerSnapshot { accounts: ledger@ }, config@, rules) {
                Ok(rv) => r matches Ok(rep) && rep@ == rv,
                Err(e) => r matches Err(e2) && e2 == e,
            },
    ;
}

} // verus!
