//! The single-run executor: one engine run with a hook attached.

use vstd::prelude::*;
use crate::config::{Config, RuleSetId};
use crate::engine::Engine;
use crate::inspector::{Inspector, StepEvent};
use crate::outcome::{EngineError, Outcome};
use crate::state::{Ledger, LedgerSnapshot};

verus! {

/// Routes a run's step events through a hook, one callback per event, in
/// order: every event is delivered exactly once, none missed, none
/// duplicated.
pub fn route_steps<H: Inspector>(hook: &mut H, steps: &Vec<StepEvent>)
    ensures
        final(hook).observed() == old(hook).observed() + steps@.len(),
{
    let mut i: usize = 0;
    while i < steps.len()
        invariant
            i <= steps@.len(),
            hook.observed() == old(hook).observed() + i,
        decreases steps@.len() - i,
    {
        hook.step(&steps[i]);
        i = i + 1;
    }
}

/// Runs exactly one transaction: constructs an engine run over the given
/// ledger, configuration and rule set, routes every step event through
/// `hook`, and returns the outcome — its delta set *not* applied to the
/// ledger — together with the engine's final configuration.
///
/// Committing is the caller's responsibility, which keeps this executor
/// usable for dry runs.  On an `EngineError` nothing was produced: no
/// outcome, no configuration, and the hook has observed nothing new.
pub fn run_once<E: Engine, H: Inspector>(
    engine: &E,
    ledger: &Ledger,
    config: &Config,
    rules: RuleSetId,
    hook: &mut H,
) -> (r: Result<(Outcome, Config), EngineError>)
    requires
        ledger.wf(),
    ensures
        match engine.compute(LedgerSnapshot { accounts: ledger@ }, config@, rules) {
            Ok(rv) => {
                &&& r matches Ok(p) && p.0@ == rv.outcome && p.1@ == rv.config
                &&& final(hook).observed() == old(hook).observed() + rv.steps.len()
            },
            Err(e) => {
                &&& r matches Err(e2) && e2 == e
                &&& final(hook).observed() == old(hook).observed()
            },
        },
{
    match engine.run(ledger, config, rules) {
        Ok(rep) => {
            route_steps(hook, &rep.steps);
            Ok((rep.outcome, rep.config))
        },
        Err(e) => Err(e),
    }
}

} // verus!
