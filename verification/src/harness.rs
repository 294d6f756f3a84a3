//! The harness: owns the ledger, the current configuration and the active
//! rule-set identifier across a sequence of runs, and commits each run's
//! effects before returning.

use vstd::prelude::*;
use crate::config::{aimed_at_account, aimed_at_create, CallTarget, Config, RuleSetId};
use crate::engine::{Engine, RunReplyView};
use crate::exec::run_once;
use crate::inspector::Inspector;
use crate::outcome::{EngineError, HarnessError, Outcome, OutcomeKind, OutcomeKindView};
use crate::state::{apply_deltas, Ledger, LedgerSnapshot};

verus! {

/// The owner of one execution sequence: ledger, configuration and rule
/// set, mutated only at the end of a run, when the run's delta set is
/// committed and the engine-returned configuration replaces the stored
/// one.
///
/// Every operation is a complete run-commit cycle: no suspended state is
/// ever observable between calls, and on an `EngineError` the harness —
/// ledger included — is left exactly as it was.
pub struct Harness<E> {
    /// The engine runs are delegated to.
    pub engine: E,
    /// The persistent ledger, changed only by committing run deltas.
    pub ledger: Ledger,
    /// The canonical configuration: always exactly what the engine
    /// returned from the latest committed run.
    pub config: Config,
    /// Selects the instruction semantics of the next run.
    pub rules: RuleSetId,
}

impl<E: Engine> Harness<E> {
    /// The harness's validity: its ledger is well formed.
    pub open spec fn wf(&self) -> bool {
        self.ledger.wf()
    }

    /// What a dry run from the harness's current state computes.
    pub open spec fn run_view(&self) -> Result<RunReplyView, EngineError> {
        self.engine.compute(LedgerSnapshot { accounts: self.ledger@ }, self.config@, self.rules)
    }

    /// A harness over the given engine and initial state.
    pub fn new(engine: E, ledger: Ledger, config: Config, rules: RuleSetId) -> (r: Self)
        requires
            ledger.wf(),
        ensures
            r.wf(),
            r == (Harness { engine, ledger, config, rules }),
    {
        Harness { engine, ledger, config, rules }
    }

    /// One dry run from the harness's current state: delegates to the
    /// single-run executor and mutates nothing — the outcome's delta set
    /// comes back uncommitted, and the stored configuration stays put.
    pub fn inspect<H: Inspector>(&self, hook: &mut H) -> (r: Result<(Outcome, Config), EngineError>)
        requires
            self.wf(),
        ensures
            match self.run_view() {
                Ok(rv) => {
                    &&& r matches Ok(p) && p.0@ == rv.outcome && p.1@ == rv.config
                    &&& final(hook).observed() == old(hook).observed() + rv.steps.len()
                },
                Err(e) => {
                    &&& r matches Err(e2) && e2 == e
                    &&& final(hook).observed() == old(hook).observed()
                },
            },
    {
        run_once(&self.engine, &self.ledger, &self.config, self.rules, hook)
    }

    /// Aims the stored configuration's transaction at `target` with call
    /// data `payload`, runs once, and — whenever the engine itself did not
    /// fail — commits the returned delta set into the owned ledger and
    /// replaces the owned configuration with the engine-returned one.  A
    /// revert or halt still carries a valid delta set, and it is
    /// committed; an `EngineError` leaves the harness untouched.
    pub fn call<H: Inspector>(&mut self, target: Vec<u8>, payload: Vec<u8>, hook: &mut H) -> (r:
        Result<Outcome, EngineError>)
        requires
            old(self).wf(),
        ensures
            final(self).wf(),
            match old(self).engine.compute(
                LedgerSnapshot { accounts: old(self).ledger@ },
                aimed_at_account(old(self).config@, target@, payload@),
                old(self).rules,
            ) {
                Ok(rv) => {
                    &&& r matches Ok(out) && out@ == rv.outcome
                    &&& final(self).ledger@ == apply_deltas(old(self).ledger@, rv.outcome.deltas)
                    &&& final(self).config@ == rv.config
                    &&& final(self).engine == old(self).engine
                    &&& final(self).rules == old(self).rules
                    &&& final(hook).observed() == old(hook).observed() + rv.steps.len()
                },
                Err(e) => {
                    &&& r matches Err(e2) && e2 == e
                    &&& *final(self) == *old(self)
                    &&& final(hook).observed() == old(hook).observed()
                },
            },
    {
        let ghost tv = target@;
        let ghost pv = payload@;
        let mut prev_target = CallTarget::Account(target);
        core::mem::swap(&mut self.config.tx.target, &mut prev_target);
        let mut prev_data = payload;
        core::mem::swap(&mut self.config.tx.data, &mut prev_data);
        proof {
            assert(self.config@ == aimed_at_account(old(self).config@, tv, pv));
        }
        match run_once(&self.engine, &self.ledger, &self.config, self.rules, hook) {
            Ok((out, returned)) => {
                self.config = returned;
                self.ledger.commit(&out.deltas);
                Ok(out)
            },
            Err(e) => {
                core::mem::swap(&mut self.config.tx.target, &mut prev_target);
                core::mem::swap(&mut self.config.tx.data, &mut prev_data);
                proof {
                    assert(*self == *old(self));
                }
                Err(e)
            },
        }
    }

    /// Like [`Harness::call`], but aims the transaction at the
    /// create-new-account marker and, on a successful outcome, returns the
    /// created account's identifier.  The run's delta set is committed and
    /// the returned configuration stored whenever the engine did not fail,
    /// even when the outcome reverted or halted; the deployment itself is
    /// then reported failed, with `NoCreatedAddress`, as it is when a
    /// success carries no created account.
    pub fn deploy<H: Inspector>(&mut self, payload: Vec<u8>, hook: &mut H) -> (r: Result<
        Vec<u8>,
        HarnessError,
    >)
        requires
            old(self).wf(),
        ensures
            final(self).wf(),
            match old(self).engine.compute(
                LedgerSnapshot { accounts: old(self).ledger@ },
                aimed_at_create(old(self).config@, payload@),
                old(self).rules,
            ) {
                Ok(rv) => {
                    &&& final(self).ledger@ == apply_deltas(old(self).ledger@, rv.outcome.deltas)
                    &&& final(self).config@ == rv.config
                    &&& final(self).engine == old(self).engine
                    &&& final(self).rules == old(self).rules
                    &&& final(hook).observed() == old(hook).observed() + rv.steps.len()
                    &&& match rv.outcome.kind {
                        OutcomeKindView::Success { created, .. } => match created {
                            Some(a) => r matches Ok(id) && id@ == a,
                            None => r matches Err(e2) && e2 == HarnessError::NoCreatedAddress,
                        },
                        _ => r matches Err(e2) && e2 == HarnessError::NoCreatedAddress,
                    }
                },
                Err(e) => {
                    &&& r matches Err(e2) && e2 == HarnessError::Engine(e)
                    &&& *final(self) == *old(self)
                    &&& final(hook).observed() == old(hook).observed()
                },
            },
    {
        let ghost pv = payload@;
        let mut prev_target = CallTarget::Create;
        core::mem::swap(&mut self.config.tx.target, &mut prev_target);
        let mut prev_data = payload;
        core::mem::swap(&mut self.config.tx.data, &mut prev_data);
        proof {
            assert(self.config@ == aimed_at_create(old(self).config@, pv));
        }
        match run_once(&self.engine, &self.ledger, &self.config, self.rules, hook) {
            Ok((out, returned)) => {
                self.config = returned;
                self.ledger.commit(&out.deltas);
                match out.kind {
                    OutcomeKind::Success { created, .. } => match created {
                        Some(id) => Ok(id),
                        None => Err(HarnessError::NoCreatedAddress),
                    },
                    _ => Err(HarnessError::NoCreatedAddress),
                }
            },
            Err(e) => {
                core::mem::swap(&mut self.config.tx.target, &mut prev_target);
                core::mem::swap(&mut self.config.tx.data, &mut prev_data);
                proof {
                    assert(*self == *old(self));
                }
                Err(HarnessError::Engine(e))
            },
        }
    }
}

/// Dry runs are idempotent: two harnesses that agree on the engine, the
/// ledger content, the configuration and the rule set compute the same
/// run, so repeating `inspect` from an unchanged state yields the same
/// outcome, configuration and step trace — no hidden mutable state biases
/// a repeated dry run.
pub proof fn lemma_inspect_deterministic<E: Engine>(a: &Harness<E>, b: &Harness<E>)
    requires
        a.engine == b.engine,
        a.ledger@ == b.ledger@,
        a.config@ == b.config@,
        a.rules == b.rules,
    ensures
        a.run_view() == b.run_view(),
{
}

} // verus!
