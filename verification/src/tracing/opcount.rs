//! Opcount tracing inspector that simply counts all opcodes.

use vstd::prelude::*;
use crate::inspector::{Inspector, StepEvent};

verus! {

/// An inspector that counts all opcodes.
///
/// It increments its counter on every step callback, unconditionally and
/// without branching on opcode identity; the counter saturates at
/// `usize::MAX` instead of overflowing, since a hook must never abort the
/// run it observes.
#[derive(Clone, Copy)]
pub struct OpcodeCountInspector {
    /// opcode counter
    count: usize,
    /// the exact number of observed steps, free of saturation
    observed_steps: Ghost<nat>,
}

impl OpcodeCountInspector {
    /// The counter's value, as a mathematical number.
    pub closed spec fn counted(&self) -> nat {
        self.count as nat
    }

    #[verifier::type_invariant]
    spec fn wf(&self) -> bool {
        if self.observed_steps@ <= usize::MAX as nat {
            self.count as nat == self.observed_steps@
        } else {
            self.count == usize::MAX
        }
    }

    /// A fresh inspector with its counter at zero.
    pub fn new() -> (r: Self)
        ensures
            r.observed() == 0,
            r.counted() == 0,
    {
        OpcodeCountInspector { count: 0, observed_steps: Ghost(0) }
    }

    /// Returns the opcode counter.
    ///
    /// A pure accessor: the result equals the number of steps the inspector
    /// has observed, saturated at `usize::MAX`.
    pub fn count(&self) -> (r: usize)
        ensures
            r as nat == self.counted(),
            self.observed() <= usize::MAX as nat ==> r as nat == self.observed(),
            self.observed() > usize::MAX as nat ==> r == usize::MAX,
    {
        proof {
            use_type_invariant(self);
        }
        self.count
    }

}

impl Inspector for OpcodeCountInspector {
    closed spec fn observed(&self) -> nat {
        self.observed_steps@
    }

    fn step(&mut self, ev: &StepEvent) {
        proof {
            use_type_invariant(&*self);
        }
        let c: usize = if self.count < usize::MAX {
            self.count + 1
        } else {
            self.count
        };
        let ghost t: nat = self.observed_steps@ + 1;
        *self = OpcodeCountInspector { count: c, observed_steps: Ghost(t) };
    }
}

impl Default for OpcodeCountInspector {
    /// Default-constructed with the counter at zero.
    fn default() -> (r: Self)
        ensures
            r.observed() == 0,
            r.counted() == 0,
    {
        OpcodeCountInspector::new()
    }
}

} // verus!
