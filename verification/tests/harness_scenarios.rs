//! End-to-end scenarios: the harness driving a real EVM engine.

use ledger_harness::config::{CallTarget, Config, ConfigView, RuleSetId, TxParams};
use ledger_harness::engine::{Engine, RunReply, RunReplyView};
use ledger_harness::harness::Harness;
use ledger_harness::inspector::StepEvent;
use ledger_harness::outcome::{
    AccountDelta, DeltaChange, EngineError, HarnessError, LogEntry, Outcome, OutcomeKind,
};
use ledger_harness::state::{Account, Ledger, LedgerSnapshot};
use ledger_harness::tracing::opcount::OpcodeCountInspector;

use revm::context::result::{EVMError, ExecutionResult, Output};
use revm::context::TxEnv;
use revm::database::CacheDB;
use revm::database_interface::EmptyDB;
use revm::inspector::Inspector as RevmInspector;
use revm::interpreter::interpreter_types::Jumps;
use revm::interpreter::{Interpreter, InterpreterTypes};
use revm::primitives::hardfork::SpecId;
use revm::primitives::{Address, Bytes, TxKind, U256};
use revm::state::{AccountInfo, Bytecode};
use revm::{Context, InspectEvm, MainBuilder, MainContext};

/// Records one event per executed instruction, in program order.
#[derive(Default)]
struct StepRecorder {
    steps: Vec<StepEvent>,
}

impl<CTX, INTR: InterpreterTypes> RevmInspector<CTX, INTR> for StepRecorder {
    fn step(&mut self, interp: &mut Interpreter<INTR>, _context: &mut CTX) {
        self.steps.push(StepEvent {
            pc: interp.bytecode.pc() as u64,
            opcode: interp.bytecode.opcode(),
        });
    }
}

/// The harness's engine port implemented over revm's mainnet EVM.
struct RevmEngine;

fn to_address(id: &[u8]) -> Address {
    Address::try_from(id).unwrap_or(Address::ZERO)
}

fn sat_u128(v: U256) -> u128 {
    u128::try_from(v).unwrap_or(u128::MAX)
}

impl Engine for RevmEngine {
    fn compute(
        &self,
        _ledger: LedgerSnapshot,
        _config: ConfigView,
        _rules: RuleSetId,
    ) -> Result<RunReplyView, EngineError> {
        panic!("specification-level item; never called at run time")
    }

    fn run(
        &self,
        ledger: &Ledger,
        config: &Config,
        rules: RuleSetId,
    ) -> Result<RunReply, EngineError> {
        // Seed the database from the ledger.
        let mut db = CacheDB::new(EmptyDB::default());
        let n = ledger.account_count();
        for i in 0..n {
            let (id, acct) = ledger.account_at(i);
            let address = to_address(id);
            let mut info = AccountInfo::default();
            info.balance = U256::from(acct.balance);
            info.nonce = acct.nonce;
            if !acct.code.is_empty() {
                let bytecode = Bytecode::new_raw(Bytes::copy_from_slice(&acct.code));
                info.code_hash = bytecode.hash_slow();
                info.code = Some(bytecode);
            }
            db.insert_account_info(address, info);
            for (k, v) in &acct.storage {
                let _ = db.insert_account_storage(address, U256::from(*k), U256::from(*v));
            }
        }

        let spec = SpecId::try_from_u8(rules.0).unwrap_or(SpecId::CANCUN);
        let chain_id = config.chain_id;
        let ctx = Context::mainnet()
            .modify_cfg_chained(|c| {
                c.chain_id = chain_id;
                c.spec = spec;
            })
            .modify_block_chained(|b| {
                b.number = U256::from(config.block_number);
                b.timestamp = U256::from(config.block_timestamp);
                b.gas_limit = config.block_gas_limit;
                b.basefee = config.block_basefee;
            })
            .with_db(db);
        let mut evm = ctx.build_mainnet_with_inspector(StepRecorder::default());

        let tx = TxEnv {
            tx_type: 0,
            caller: to_address(&config.tx.caller),
            gas_limit: config.tx.gas_limit,
            gas_price: config.tx.gas_price,
            kind: match &config.tx.target {
                CallTarget::Account(id) => TxKind::Call(to_address(id)),
                CallTarget::Create => TxKind::Create,
            },
            value: U256::from(config.tx.value),
            data: Bytes::copy_from_slice(&config.tx.data),
            nonce: config.tx.nonce,
            chain_id: Some(chain_id),
            ..TxEnv::default()
        };
        let executed_tx = tx.clone();

        let result_and_state = match evm.inspect_tx(tx) {
            Ok(r) => r,
            Err(EVMError::Database(_)) => return Err(EngineError::Database),
            Err(_) => return Err(EngineError::Validation),
        };

        // The delta set, in a canonical order.
        let mut touched: Vec<_> = result_and_state.state.into_iter().collect();
        touched.sort_by_key(|(address, _)| *address);
        let mut deltas: Vec<AccountDelta> = Vec::new();
        for (address, acc) in touched {
            if !acc.is_touched() {
                continue;
            }
            if acc.is_selfdestructed() {
                deltas.push(AccountDelta {
                    id: address.as_slice().to_vec(),
                    change: DeltaChange::Destroyed,
                });
                continue;
            }
            if acc.is_empty() {
                // State-clear semantics: touched-but-empty accounts do not
                // persist.
                continue;
            }
            let mut slots: Vec<(u128, u128)> = acc
                .storage
                .iter()
                .map(|(k, slot)| (sat_u128(*k), sat_u128(slot.present_value())))
                .collect();
            slots.sort();
            deltas.push(AccountDelta {
                id: address.as_slice().to_vec(),
                change: DeltaChange::Updated {
                    balance: sat_u128(acc.info.balance),
                    nonce: acc.info.nonce,
                    code: acc
                        .info
                        .code
                        .as_ref()
                        .map(|c| c.original_bytes().to_vec())
                        .unwrap_or_default(),
                    slots,
                },
            });
        }

        let gas_used = result_and_state.result.tx_gas_used();
        let kind = match result_and_state.result {
            ExecutionResult::Success { logs, output, .. } => {
                let (bytes, created) = match output {
                    Output::Call(b) => (b, None),
                    Output::Create(b, a) => (b, a),
                };
                OutcomeKind::Success {
                    output: bytes.to_vec(),
                    created: created.map(|a| a.as_slice().to_vec()),
                    logs: logs
                        .iter()
                        .map(|log| LogEntry {
                            emitter: log.address.as_slice().to_vec(),
                            topics: log.data.topics().iter().map(|t| t.to_vec()).collect(),
                            data: log.data.data.to_vec(),
                        })
                        .collect(),
                    gas_used,
                }
            }
            ExecutionResult::Revert { output, .. } => OutcomeKind::Revert {
                output: output.to_vec(),
                gas_used,
            },
            ExecutionResult::Halt { .. } => OutcomeKind::Halt { reason: 1 },
        };

        // The engine's final configuration: the transaction exactly as it
        // was executed, and the block/chain settings as the engine holds
        // them after the run.
        let returned = Config {
            chain_id: evm.ctx.cfg.chain_id,
            block_gas_limit: evm.ctx.block.gas_limit,
            block_number: u64::try_from(evm.ctx.block.number).unwrap_or(u64::MAX),
            block_timestamp: u64::try_from(evm.ctx.block.timestamp).unwrap_or(u64::MAX),
            block_basefee: evm.ctx.block.basefee,
            tx: TxParams {
                caller: executed_tx.caller.as_slice().to_vec(),
                target: match executed_tx.kind {
                    TxKind::Call(a) => CallTarget::Account(a.as_slice().to_vec()),
                    TxKind::Create => CallTarget::Create,
                },
                data: executed_tx.data.to_vec(),
                value: sat_u128(executed_tx.value),
                gas_limit: executed_tx.gas_limit,
                gas_price: executed_tx.gas_price,
                nonce: executed_tx.nonce,
            },
        };

        Ok(RunReply {
            outcome: Outcome { kind, deltas },
            config: returned,
            steps: evm.inspector.steps,
        })
    }
}

fn caller_id() -> Vec<u8> {
    vec![
        0xA1, 0xA1, 0xA1, 0xA1, 0xA1, 0xA1, 0xA1, 0xA1, 0xA1, 0xA1, 0xA1, 0xA1, 0xA1, 0xA1, 0xA1,
        0xA1, 0xA1, 0xA1, 0xA1, 0xA1,
    ]
}

fn base_config(nonce: u64) -> Config {
    Config {
        chain_id: 1,
        block_gas_limit: 30_000_000,
        block_number: 1,
        block_timestamp: 1_000,
        block_basefee: 0,
        tx: TxParams {
            caller: caller_id(),
            target: CallTarget::Create,
            data: Vec::new(),
            value: 0,
            gas_limit: 1_000_000,
            gas_price: 0,
            nonce,
        },
    }
}

fn fresh_harness() -> Harness<RevmEngine> {
    Harness::new(
        RevmEngine,
        Ledger::new(),
        base_config(0),
        RuleSetId(SpecId::CANCUN as u8),
    )
}

/// PUSH1 0, PUSH1 0, RETURN: succeeds and returns empty runtime code.
fn trivial_initcode() -> Vec<u8> {
    vec![0x60, 0x00, 0x60, 0x00, 0xF3]
}

/// PUSH1 0, PUSH1 0, REVERT: reverts during construction.
fn reverting_initcode() -> Vec<u8> {
    vec![0x60, 0x00, 0x60, 0x00, 0xFD]
}

#[test]
fn deploy_trivial_payload_succeeds_with_steps() {
    let mut harness = fresh_harness();
    let mut hook = OpcodeCountInspector::new();
    let created = harness
        .deploy(trivial_initcode(), &mut hook)
        .expect("deployment must succeed");
    assert_eq!(created.len(), 20);
    assert_ne!(created, vec![0u8; 20]);
    assert!(hook.count() > 0);
    assert_eq!(hook.count(), 3);
    // The created account persists: empty code, creation nonce.
    let acct = harness
        .ledger
        .get_account(&created)
        .expect("created account must be persisted");
    assert_eq!(acct.code, Vec::<u8>::new());
    assert_eq!(acct.nonce, 1);
    // The sender's nonce bookkeeping was committed.
    let sender = harness.ledger.get_account(&caller_id()).expect("sender persisted");
    assert_eq!(sender.nonce, 1);
}

#[test]
fn call_nonexistent_account_is_noop_success() {
    let mut harness = fresh_harness();
    let mut hook = OpcodeCountInspector::new();
    let target = vec![0xBB; 20];
    let outcome = harness
        .call(target.clone(), Vec::new(), &mut hook)
        .expect("call must not fail at the engine level");
    assert!(matches!(outcome.kind, OutcomeKind::Success { .. }));
    if let OutcomeKind::Success { gas_used, .. } = outcome.kind {
        assert_eq!(gas_used, 21_000);
    }
    // No instructions were executed: there is no code to run.
    assert_eq!(hook.count(), 0);
    // No deltas beyond the sender's gas/nonce bookkeeping.
    assert!(harness.ledger.get_account(&target).is_none());
    let sender = harness.ledger.get_account(&caller_id()).expect("sender persisted");
    assert_eq!(sender.nonce, 1);
    assert_eq!(harness.ledger.account_count(), 1);
}

#[test]
fn deploy_reverting_payload_commits_only_bookkeeping() {
    let mut harness = fresh_harness();

    // A dry run of the same deployment shows the revert outcome.
    let mut probe_harness = fresh_harness();
    probe_harness.config.tx.target = CallTarget::Create;
    probe_harness.config.tx.data = reverting_initcode();
    let mut probe_hook = OpcodeCountInspector::new();
    let (outcome, _cfg) = probe_harness
        .inspect(&mut probe_hook)
        .expect("engine must produce an outcome");
    assert!(matches!(outcome.kind, OutcomeKind::Revert { .. }));

    // The deployment reports no created address.
    let mut hook = OpcodeCountInspector::new();
    let r = harness.deploy(reverting_initcode(), &mut hook);
    assert_eq!(r, Err(HarnessError::NoCreatedAddress));
    assert!(hook.count() > 0);
    // No new account was persisted, but the sender's bookkeeping was.
    assert_eq!(harness.ledger.account_count(), 1);
    let sender = harness.ledger.get_account(&caller_id()).expect("sender persisted");
    assert_eq!(sender.nonce, 1);
}

#[test]
fn inspect_twice_yields_identical_outcomes() {
    let mut harness = fresh_harness();
    let seed = Account {
        balance: 1_000,
        nonce: 0,
        code: Vec::new(),
        storage: Vec::new(),
    };
    harness.ledger.set_account(caller_id(), seed);
    harness.config.tx.target = CallTarget::Create;
    harness.config.tx.data = trivial_initcode();

    let mut hook_one = OpcodeCountInspector::new();
    let mut hook_two = OpcodeCountInspector::new();
    let (outcome_one, config_one) = harness.inspect(&mut hook_one).expect("first dry run");
    let (outcome_two, config_two) = harness.inspect(&mut hook_two).expect("second dry run");
    assert_eq!(outcome_one, outcome_two);
    assert_eq!(config_one, config_two);
    assert_eq!(hook_one.count(), hook_two.count());
}

#[test]
fn call_threads_returned_configuration() {
    let mut harness = fresh_harness();
    let mut hook = OpcodeCountInspector::new();
    let target = vec![0xCC; 20];
    let payload = vec![0xDE, 0xAD, 0xBE, 0xEF];
    harness
        .call(target.clone(), payload.clone(), &mut hook)
        .expect("call succeeds");
    // The stored configuration reflects exactly what was executed...
    assert_eq!(harness.config.tx.target, CallTarget::Account(target));
    assert_eq!(harness.config.tx.data, payload);
    // ...and the engine-held chain/block settings, not a stale copy.
    assert_eq!(harness.config.chain_id, 1);
    assert_eq!(harness.config.block_gas_limit, 30_000_000);
}

#[test]
fn engine_error_leaves_harness_untouched() {
    let mut harness = fresh_harness();
    harness.ledger.set_account(
        caller_id(),
        Account { balance: 77, nonce: 3, code: Vec::new(), storage: Vec::new() },
    );
    // A transaction gas limit above the block gas limit is structurally
    // invalid: the engine rejects it before running anything.
    harness.config.tx.gas_limit = 60_000_000;
    let config_before = harness.config.clone();

    let mut hook = OpcodeCountInspector::new();
    let r = harness.call(vec![0xBB; 20], vec![0x01], &mut hook);
    assert_eq!(r, Err(EngineError::Validation));
    assert_eq!(hook.count(), 0);
    // The ledger is exactly as it was before the call.
    assert_eq!(harness.ledger.account_count(), 1);
    let sender = harness.ledger.get_account(&caller_id()).expect("sender kept");
    assert_eq!(sender.balance, 77);
    assert_eq!(sender.nonce, 3);
    // So is the stored configuration.
    assert_eq!(harness.config, config_before);
}

#[test]
fn call_commits_contract_storage_writes() {
    // Init code that installs the runtime `PUSH1 0x2A, PUSH1 0x01, SSTORE,
    // STOP`, which writes 0x2A into storage slot 1 when called.
    let initcode = vec![
        0x65, 0x60, 0x2A, 0x60, 0x01, 0x55, 0x00, // PUSH6 runtime
        0x60, 0x00, // PUSH1 0
        0x52, // MSTORE: runtime sits right-aligned at offsets 26..32
        0x60, 0x06, // PUSH1 6 (length)
        0x60, 0x1A, // PUSH1 26 (offset)
        0xF3, // RETURN
    ];
    let mut harness = fresh_harness();
    let mut hook = OpcodeCountInspector::new();
    let contract = harness.deploy(initcode, &mut hook).expect("deploy succeeds");
    let installed = harness.ledger.get_account(&contract).expect("contract persisted");
    assert_eq!(installed.code, vec![0x60, 0x2A, 0x60, 0x01, 0x55, 0x00]);

    harness.config.tx.nonce = 1;
    let mut call_hook = OpcodeCountInspector::new();
    let outcome = harness
        .call(contract.clone(), Vec::new(), &mut call_hook)
        .expect("call succeeds");
    assert!(matches!(outcome.kind, OutcomeKind::Success { .. }));
    // PUSH1, PUSH1, SSTORE, STOP: four instructions, four step events.
    assert_eq!(call_hook.count(), 4);
    // The storage write was committed to the ledger.
    let stored = harness.ledger.get_account(&contract).expect("contract kept");
    assert_eq!(stored.storage, vec![(1, 0x2A)]);
}

#[test]
fn call_commits_value_transfer_deltas() {
    let mut harness = fresh_harness();
    harness.ledger.set_account(
        caller_id(),
        Account { balance: 100, nonce: 0, code: Vec::new(), storage: Vec::new() },
    );
    let target = vec![0xEE; 20];
    harness.config.tx.value = 30;
    let mut hook = OpcodeCountInspector::new();
    let outcome = harness
        .call(target.clone(), Vec::new(), &mut hook)
        .expect("transfer succeeds");
    assert!(matches!(outcome.kind, OutcomeKind::Success { .. }));
    let sender = harness.ledger.get_account(&caller_id()).expect("sender kept");
    assert_eq!(sender.balance, 70);
    assert_eq!(sender.nonce, 1);
    let receiver = harness.ledger.get_account(&target).expect("receiver created");
    assert_eq!(receiver.balance, 30);
}

#[test]
fn deploys_thread_state_across_a_sequence() {
    let mut harness = fresh_harness();
    let mut hook = OpcodeCountInspector::new();
    let first = harness.deploy(trivial_initcode(), &mut hook).expect("first deploy");
    // The committed sender nonce makes the next transaction's ordinal 1.
    harness.config.tx.nonce = 1;
    let second = harness.deploy(trivial_initcode(), &mut hook).expect("second deploy");
    assert_ne!(first, second);
    // Both created accounts and the sender are in the ledger.
    assert_eq!(harness.ledger.account_count(), 3);
    // The retained hook accumulated the steps of both runs.
    assert_eq!(hook.count(), 6);
}
