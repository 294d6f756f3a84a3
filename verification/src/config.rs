//! Run configuration: chain settings, block context and transaction
//! parameters, owned by the harness between runs and threaded through the
//! engine on every run.

use vstd::prelude::*;

verus! {

/// Selector for which instruction and validation semantics apply to a run.
///
/// Opaque to the harness: it is handed to the engine unchanged, immutable
/// for the lifetime of one run, and mutable between runs.
#[derive(Clone, Copy, Debug, PartialEq, Eq, Structural)]
pub struct RuleSetId(pub u8);

/// Whom a transaction addresses: an existing account, or the "create a new
/// account" marker used by deployments.
#[derive(Clone, Debug, PartialEq, Eq)]
pub enum CallTarget {
    /// Run the code of the account with this identifier.
    Account(Vec<u8>),
    /// Create a new account from the transaction's payload.
    Create,
}

/// Mathematical view of a call target.
pub ghost enum CallTargetView {
    Account(Seq<u8>),
    Create,
}

impl View for CallTarget {
    type V = CallTargetView;

    open spec fn view(&self) -> CallTargetView {
        match self {
            CallTarget::Account(id) => CallTargetView::Account(id@),
            CallTarget::Create => CallTargetView::Create,
        }
    }
}

/// Parameters of the one transaction a run executes.
#[derive(Clone, Debug, PartialEq, Eq)]
pub struct TxParams {
    /// Identifier of the sending account.
    pub caller: Vec<u8>,
    /// Recipient, or the create-new-account marker.
    pub target: CallTarget,
    /// Call data, or the constructor payload of a deployment.
    pub data: Vec<u8>,
    /// Value transferred with the transaction.
    pub value: u128,
    /// Gas limit of the transaction.
    pub gas_limit: u64,
    /// Price paid per unit of gas.
    pub gas_price: u128,
    /// The sender's transaction ordinal.
    pub nonce: u64,
}

/// Mathematical view of the transaction parameters.
pub ghost struct TxParamsView {
    pub caller: Seq<u8>,
    pub target: CallTargetView,
    pub data: Seq<u8>,
    pub value: u128,
    pub gas_limit: u64,
    pub gas_price: u128,
    pub nonce: u64,
}

impl View for TxParams {
    type V = TxParamsView;

    open spec fn view(&self) -> TxParamsView {
        TxParamsView {
            caller: self.caller@,
            target: self.target@,
            data: self.data@,
            value: self.value,
            gas_limit: self.gas_limit,
            gas_price: self.gas_price,
            nonce: self.nonce,
        }
    }
}

/// The composite configuration of one run: chain-level settings, block
/// context and transaction parameters.
///
/// The harness owns exactly one of these between runs; each run receives it
/// and the engine's (possibly mutated) returned copy becomes the new
/// canonical value.
#[derive(Clone, Debug, PartialEq, Eq)]
pub struct Config {
    /// Chain identifier the transaction must match.
    pub chain_id: u64,
    /// Gas limit of the enclosing block.
    pub block_gas_limit: u64,
    /// Number of the enclosing block.
    pub block_number: u64,
    /// Timestamp of the enclosing block.
    pub block_timestamp: u64,
    /// Base fee of the enclosing block.
    pub block_basefee: u64,
    /// The transaction to execute.
    pub tx: TxParams,
}

/// Mathematical view of a configuration.
pub ghost struct ConfigView {
    pub chain_id: u64,
    pub block_gas_limit: u64,
    pub block_number: u64,
    pub block_timestamp: u64,
    pub block_basefee: u64,
    pub tx: TxParamsView,
}

impl View for Config {
    type V = ConfigView;

    open spec fn view(&self) -> ConfigView {
        ConfigView {
            chain_id: self.chain_id,
            block_gas_limit: self.block_gas_limit,
            block_number: self.block_number,
            block_timestamp: self.block_timestamp,
            block_basefee: self.block_basefee,
            tx: self.tx@,
        }
    }
}

/// `cfg` with its transaction aimed at the account `target` carrying
/// `data`: exactly what `Harness::call` hands to the executor.
pub open spec fn aimed_at_account(cfg: ConfigView, target: Seq<u8>, data: Seq<u8>) -> ConfigView {
    ConfigView {
        tx: TxParamsView { target: CallTargetView::Account(target), data: data, ..cfg.tx },
        ..cfg
    }
}

/// `cfg` with its transaction aimed at account creation carrying `data`:
/// exactly what `Harness::deploy` hands to the executor.
pub open spec fn aimed_at_create(cfg: ConfigView, data: Seq<u8>) -> ConfigView {
    ConfigView {
        tx: TxParamsView { target: CallTargetView::Create, data: data, ..cfg.tx },
        ..cfg
    }
}

} // verus!
