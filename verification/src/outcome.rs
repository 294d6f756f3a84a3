//! Execution outcomes, ledger deltas and the error taxonomy.

use vstd::prelude::*;

verus! {

/// One log record emitted by a run.
#[derive(Clone, Debug, PartialEq, Eq)]
pub struct LogEntry {
    /// Account that emitted the log.
    pub emitter: Vec<u8>,
    /// Indexed topics, each an opaque word.
    pub topics: Vec<Vec<u8>>,
    /// Unindexed payload bytes.
    pub data: Vec<u8>,
}

/// Mathematical view of a log record.
pub ghost struct LogEntryView {
    pub emitter: Seq<u8>,
    pub topics: Seq<Seq<u8>>,
    pub data: Seq<u8>,
}

impl View for LogEntry {
    type V = LogEntryView;

    open spec fn view(&self) -> LogEntryView {
        LogEntryView {
            emitter: self.emitter@,
            topics: self.topics.deep_view(),
            data: self.data@,
        }
    }
}

/// The change a run made to one account.
///
/// `Updated` carries the account's new balance, nonce and code outright,
/// and the storage slots the run wrote; slots the run did not touch keep
/// their prior value.  `Destroyed` removes the account altogether.
#[derive(Clone, Debug, PartialEq, Eq)]
pub enum DeltaChange {
    Updated {
        balance: u128,
        nonce: u64,
        code: Vec<u8>,
        slots: Vec<(u128, u128)>,
    },
    Destroyed,
}

/// One entry of a run's delta set: the account it touches and the change.
#[derive(Clone, Debug, PartialEq, Eq)]
pub struct AccountDelta {
    /// Identifier of the touched account.
    pub id: Vec<u8>,
    /// What happened to it.
    pub change: DeltaChange,
}

/// Mathematical view of a change.
pub ghost enum DeltaChangeView {
    Updated {
        balance: u128,
        nonce: u64,
        code: Seq<u8>,
        slots: Seq<(u128, u128)>,
    },
    Destroyed,
}

/// Mathematical view of a delta entry.
pub ghost struct AccountDeltaView {
    pub id: Seq<u8>,
    pub change: DeltaChangeView,
}

impl View for DeltaChange {
    type V = DeltaChangeView;

    open spec fn view(&self) -> DeltaChangeView {
        match self {
            DeltaChange::Updated { balance, nonce, code, slots } => DeltaChangeView::Updated {
                balance: *balance,
                nonce: *nonce,
                code: code@,
                slots: slots@,
            },
            DeltaChange::Destroyed => DeltaChangeView::Destroyed,
        }
    }
}

impl View for AccountDelta {
    type V = AccountDeltaView;

    open spec fn view(&self) -> AccountDeltaView {
        AccountDeltaView { id: self.id@, change: self.change@ }
    }
}

/// The views of a delta list, in order.
pub open spec fn deltas_view(s: Seq<AccountDelta>) -> Seq<AccountDeltaView> {
    s.map_values(|d: AccountDelta| d@)
}

/// How one run ended.
#[derive(Clone, Debug, PartialEq, Eq)]
pub enum OutcomeKind {
    /// The transaction ran to completion.
    Success {
        /// Returned bytes (for a creation: the runtime code installed).
        output: Vec<u8>,
        /// Address of the account a creation made, if the run created one.
        created: Option<Vec<u8>>,
        /// Logs emitted, in emission order.
        logs: Vec<LogEntry>,
        /// Gas the run consumed.
        gas_used: u64,
    },
    /// The called code reverted; its logical effect is undone, though the
    /// run still produced a valid delta set (gas accounting and the like).
    Revert {
        output: Vec<u8>,
        gas_used: u64,
    },
    /// The run halted exceptionally; `reason` is an engine-defined code.
    Halt {
        reason: u64,
    },
}

/// Mathematical view of an outcome kind.
pub ghost enum OutcomeKindView {
    Success {
        output: Seq<u8>,
        created: Option<Seq<u8>>,
        logs: Seq<LogEntryView>,
        gas_used: u64,
    },
    Revert {
        output: Seq<u8>,
        gas_used: u64,
    },
    Halt {
        reason: u64,
    },
}

impl View for OutcomeKind {
    type V = OutcomeKindView;

    open spec fn view(&self) -> OutcomeKindView {
        match self {
            OutcomeKind::Success { output, created, logs, gas_used } => OutcomeKindView::Success {
                output: output@,
                created: match created {
                    Some(a) => Some(a@),
                    None => None,
                },
                logs: logs@.map_values(|l: LogEntry| l@),
                gas_used: *gas_used,
            },
            OutcomeKind::Revert { output, gas_used } => OutcomeKindView::Revert {
                output: output@,
                gas_used: *gas_used,
            },
            OutcomeKind::Halt { reason } => OutcomeKindView::Halt { reason: *reason },
        }
    }
}

/// The tagged result of one run, together with the delta set it produced.
///
/// The deltas are not yet applied to any ledger: committing them is the
/// caller's decision, which keeps dry runs possible.
#[derive(Clone, Debug, PartialEq, Eq)]
pub struct Outcome {
    /// How the run ended.
    pub kind: OutcomeKind,
    /// Account changes the run produced, in the engine's commit order.
    pub deltas: Vec<AccountDelta>,
}

/// Mathematical view of an outcome.
pub ghost struct OutcomeView {
    pub kind: OutcomeKindView,
    pub deltas: Seq<AccountDeltaView>,
}

impl View for Outcome {
    type V = OutcomeView;

    open spec fn view(&self) -> OutcomeView {
        OutcomeView { kind: self.kind@, deltas: deltas_view(self.deltas@) }
    }
}

/// Terminal failures of the engine itself.  No outcome and no delta set
/// exist when one of these is reported, and nothing is committed.
#[derive(Clone, Copy, Debug, PartialEq, Eq, Structural)]
pub enum EngineError {
    /// The supplied configuration is structurally invalid for the chosen
    /// rule set; the caller must fix its input.
    Validation,
    /// The ledger backend reported a read failure.
    Database,
}

/// Terminal failures of the harness's own operations.
#[derive(Clone, Copy, Debug, PartialEq, Eq, Structural)]
pub enum HarnessError {
    /// The engine failed; the inner error is surfaced verbatim.
    Engine(EngineError),
    /// A deployment's outcome was not a success carrying a created
    /// address: the caller/engine contract was not met.
    NoCreatedAddress,
}

} // verus!
