//! Bundles on a real ledger.
use litesvm::LiteSVM;
use sha2::{Digest, Sha256};
use solana_keypair::Keypair;
use solana_message::{v0::Message as V0Message, VersionedMessage};
use solana_pubkey::Pubkey;
use solana_signer::Signer;
use solana_system_interface::instruction as system_instruction;
use solana_transaction::versioned::VersionedTransaction;

use surfpool_jito::error::{Error, ErrorData};
use surfpool_jito::ledger::{FailedTransactionMetadata, LedgerStep, TransactionMetadata};
use surfpool_jito::rpc::{SendBundleConfig, SimulateBundleConfig, SurfpoolJitoRpc};
use surfpool_jito::simulation::RpcSimulateBundleResult;
use surfpool_jito::submission::BundleSubmission;
use surfpool_jito::transaction::DecodedTransaction;

const LAMPORTS_PER_SOL: u64 = 1_000_000_000;

struct TestSetup {
    rpc: SurfpoolJitoRpc,
    context: LiteSVM,
}

impl TestSetup {
    fn new(rpc: SurfpoolJitoRpc) -> Self {
        TestSetup { rpc, context: LiteSVM::new() }
    }
}

fn execute(
    svm: &mut LiteSVM,
    transaction: &DecodedTransaction,
) -> Result<TransactionMetadata, FailedTransactionMetadata> {
    let tx: VersionedTransaction = bincode::deserialize(&transaction.wire).unwrap();
    match svm.send_transaction(tx) {
        Ok(meta) => Ok(TransactionMetadata {
            logs: meta.logs,
            compute_units_consumed: meta.compute_units_consumed,
        }),
        Err(failure) => Err(FailedTransactionMetadata {
            err: failure.err.to_string(),
            meta: TransactionMetadata {
                logs: failure.meta.logs,
                compute_units_consumed: failure.meta.compute_units_consumed,
            },
        }),
    }
}

fn send_bundle(
    rpc: &SurfpoolJitoRpc,
    context: Option<&mut LiteSVM>,
    transactions: Vec<String>,
    config: Option<SendBundleConfig>,
) -> Result<String, Error> {
    let submission = rpc.checked_send_bundle(&context, transactions, config).unwrap()?;
    let svm = context.unwrap();
    commit(try_out(submission, svm), svm)
}

/// Takes the steps of a submission that go to a copy.
fn try_out(mut submission: BundleSubmission, svm: &LiteSVM) -> BundleSubmission {
    let mut copy = svm.clone();
    while let Some(LedgerStep::DryRun(i)) = submission.next_step() {
        let outcome = execute(&mut copy, &submission.transactions()[i]);
        submission = submission.record(outcome);
    }
    submission
}

/// Takes the steps of a submission that go to the ledger.
fn commit(mut submission: BundleSubmission, svm: &mut LiteSVM) -> Result<String, Error> {
    let mut saved = None;
    while let Some(step) = submission.next_step() {
        submission = match step {
            LedgerStep::DryRun(_) => panic!("the trial is over"),
            LedgerStep::Save => {
                saved = Some(svm.clone());
                submission.done()
            }
            LedgerStep::Commit(i) => {
                let outcome = execute(svm, &submission.transactions()[i]);
                submission.record(outcome)
            }
            LedgerStep::Restore => {
                *svm = restored(saved.take().unwrap());
                submission.done()
            }
        };
    }
    submission.into_reply().unwrap()
}

fn simulate_bundle(
    rpc: &SurfpoolJitoRpc,
    context: Option<&LiteSVM>,
    transactions: Vec<String>,
    config: Option<SimulateBundleConfig>,
) -> Result<RpcSimulateBundleResult, Error> {
    let mut simulation = rpc.checked_simulate_bundle(&context, transactions, config).unwrap()?;
    let mut copy = context.unwrap().clone().with_sigverify(!simulation.skip_sig_verify());
    while let Some(step) = simulation.next_step() {
        let outcome = match step {
            LedgerStep::DryRun(i) => execute(&mut copy, &simulation.transactions()[i]),
            _ => panic!("a simulation keeps to the copy"),
        };
        simulation = simulation.record(outcome);
    }
    Ok(simulation.into_reply().unwrap())
}

/// The ledger that `saved` is a copy of, with the room in its history that a copy made while the
/// history was empty does not have.
fn restored(saved: LiteSVM) -> LiteSVM {
    if forgets(&saved) {
        saved.with_transaction_history(32)
    } else {
        saved
    }
}

fn forgets(copy: &LiteSVM) -> bool {
    let mut probe = copy.clone();
    let account = probe.airdrop_pubkey();
    match probe.airdrop(&account, 1) {
        Ok(meta) => probe.get_transaction(&meta.signature).is_none(),
        Err(_) => false,
    }
}

fn build_transfer_tx(
    payer: &Keypair,
    recipient: &Pubkey,
    lamports: u64,
    recent_blockhash: &solana_hash::Hash,
) -> VersionedTransaction {
    let msg = VersionedMessage::V0(
        V0Message::try_compile(
            &payer.pubkey(),
            &[system_instruction::transfer(&payer.pubkey(), recipient, lamports)],
            &[],
            *recent_blockhash,
        )
        .unwrap(),
    );
    VersionedTransaction::try_new(msg, &[payer]).unwrap()
}

fn encode_tx(tx: &VersionedTransaction) -> String {
    bs58::encode(bincode::serialize(tx).unwrap()).into_string()
}

fn setup_with_funded_payer(lamports: u64) -> (TestSetup, Keypair, solana_hash::Hash) {
    let mut setup = TestSetup::new(SurfpoolJitoRpc);
    let payer = Keypair::new();
    let recent_blockhash = setup.context.latest_blockhash();
    let _ = setup.context.airdrop(&payer.pubkey(), lamports);
    (setup, payer, recent_blockhash)
}

fn get_balance(setup: &TestSetup, pubkey: &Pubkey) -> u64 {
    setup.context.get_account(pubkey).map_or(0, |a| a.lamports)
}

#[test]
fn test_send_bundle_empty_bundle_rejected() {
    let mut setup = TestSetup::new(SurfpoolJitoRpc);
    let result = send_bundle(&setup.rpc, Some(&mut setup.context), vec![], None);
    assert!(result.is_err());
    assert!(result.unwrap_err().message.contains("cannot be empty"));
}

#[test]
fn test_send_bundle_no_context_returns_unhealthy() {
    let setup = TestSetup::new(SurfpoolJitoRpc);
    let result = send_bundle(&setup.rpc, None, vec!["tx".into()], None);
    assert!(result.is_err());
}

#[test]
fn test_send_bundle_exceeds_max_transactions() {
    let (mut setup, payer, blockhash) = setup_with_funded_payer(100 * LAMPORTS_PER_SOL);

    let txs: Vec<String> = (0..6)
        .map(|_| {
            let tx = build_transfer_tx(&payer, &Pubkey::new_unique(), 1000, &blockhash);
            encode_tx(&tx)
        })
        .collect();

    let result = send_bundle(&setup.rpc, Some(&mut setup.context), txs, None);
    assert!(result.is_err());
    let err = result.unwrap_err();
    assert!(
        err.message.contains("cannot exceed 5"),
        "Expected max transaction error, got: {}",
        err.message
    );
}

#[test]
fn test_send_bundle_duplicate_transactions() {
    let (mut setup, payer, blockhash) = setup_with_funded_payer(10 * LAMPORTS_PER_SOL);

    let tx = build_transfer_tx(&payer, &Pubkey::new_unique(), 1000, &blockhash);
    let encoded = encode_tx(&tx);

    let result =
        send_bundle(&setup.rpc, Some(&mut setup.context), vec![encoded.clone(), encoded], None);
    assert!(result.is_err());
    let err = result.unwrap_err();
    assert!(
        err.message.contains("duplicate"),
        "Expected duplicate error, got: {}",
        err.message
    );
}

/// 2 good transfers + 1 bad (no funds): entire bundle reverted, no state change
#[test]
fn test_send_bundle_atomic_rollback_on_failure() {
    let (mut setup, payer, blockhash) = setup_with_funded_payer(10 * LAMPORTS_PER_SOL);

    let recipient1 = Pubkey::new_unique();
    let recipient2 = Pubkey::new_unique();
    let unfunded_signer = Keypair::new();

    let tx1 = build_transfer_tx(&payer, &recipient1, LAMPORTS_PER_SOL, &blockhash);
    let tx2 = build_transfer_tx(&payer, &recipient2, LAMPORTS_PER_SOL, &blockhash);
    let tx3 = build_transfer_tx(&unfunded_signer, &recipient1, LAMPORTS_PER_SOL, &blockhash);

    let payer_balance_before = get_balance(&setup, &payer.pubkey());

    let result = send_bundle(
        &setup.rpc,
        Some(&mut setup.context),
        vec![encode_tx(&tx1), encode_tx(&tx2), encode_tx(&tx3)],
        None,
    );

    assert!(result.is_err(), "Bundle with bad tx should fail");

    let payer_balance_after = get_balance(&setup, &payer.pubkey());
    assert_eq!(
        payer_balance_before, payer_balance_after,
        "Payer balance should be unchanged after failed bundle (atomic rollback)"
    );

    let r1_balance = get_balance(&setup, &recipient1);
    let r2_balance = get_balance(&setup, &recipient2);
    assert_eq!(r1_balance, 0, "Recipient1 should have 0 after rollback");
    assert_eq!(r2_balance, 0, "Recipient2 should have 0 after rollback");
}

/// Chain state propagation: payer seeds kp1, kp1 sends to kp2, kp2 sends on
#[test]
fn test_send_bundle_chain_state_propagation() {
    let (mut setup, payer, blockhash) = setup_with_funded_payer(10 * LAMPORTS_PER_SOL);

    let kp1 = Keypair::new();
    let kp2 = Keypair::new();
    let recipient = Pubkey::new_unique();

    let tx1 = build_transfer_tx(&payer, &kp1.pubkey(), 3 * LAMPORTS_PER_SOL, &blockhash);
    let tx2 = build_transfer_tx(&kp1, &kp2.pubkey(), 2 * LAMPORTS_PER_SOL, &blockhash);
    let tx3 = build_transfer_tx(&kp2, &recipient, LAMPORTS_PER_SOL, &blockhash);

    let result = send_bundle(
        &setup.rpc,
        Some(&mut setup.context),
        vec![encode_tx(&tx1), encode_tx(&tx2), encode_tx(&tx3)],
        None,
    );

    assert!(result.is_ok(), "Chain-state bundle should succeed: {:?}", result);

    let recipient_balance = get_balance(&setup, &recipient);
    assert_eq!(
        recipient_balance, LAMPORTS_PER_SOL,
        "Recipient should have received 1 SOL through chain propagation"
    );
}

/// Single valid transaction bundle
#[test]
fn test_send_bundle_single_transaction() {
    let (mut setup, payer, blockhash) = setup_with_funded_payer(5 * LAMPORTS_PER_SOL);
    let recipient = Pubkey::new_unique();

    let tx = build_transfer_tx(&payer, &recipient, LAMPORTS_PER_SOL, &blockhash);
    let expected_sig = tx.signatures[0];

    let result = send_bundle(&setup.rpc, Some(&mut setup.context), vec![encode_tx(&tx)], None);

    assert!(result.is_ok(), "Single tx bundle should succeed: {:?}", result);

    // Verify bundle ID matches expected SHA-256
    let bundle_id = result.unwrap();
    let mut hasher = Sha256::new();
    hasher.update(expected_sig.to_string().as_bytes());
    let expected_id = hex::encode(hasher.finalize());
    assert_eq!(bundle_id, expected_id);

    // Verify state changed
    let balance = get_balance(&setup, &recipient);
    assert_eq!(balance, LAMPORTS_PER_SOL);
}

/// Simulate a valid 2-tx bundle: should succeed with no state changes
#[test]
fn test_simulate_bundle_success_no_state_change() {
    let (setup, payer, blockhash) = setup_with_funded_payer(10 * LAMPORTS_PER_SOL);
    let recipient1 = Pubkey::new_unique();
    let recipient2 = Pubkey::new_unique();

    let tx1 = build_transfer_tx(&payer, &recipient1, LAMPORTS_PER_SOL, &blockhash);
    let tx2 = build_transfer_tx(&payer, &recipient2, LAMPORTS_PER_SOL, &blockhash);

    let payer_balance_before = get_balance(&setup, &payer.pubkey());

    let result = simulate_bundle(
        &setup.rpc,
        Some(&setup.context),
        vec![encode_tx(&tx1), encode_tx(&tx2)],
        None,
    );

    assert!(result.is_ok());
    let sim_result = result.unwrap();
    assert_eq!(sim_result.summary, "succeeded");
    assert_eq!(sim_result.transaction_results.len(), 2);
    assert!(sim_result.transaction_results[0].err.is_none());
    assert!(sim_result.transaction_results[1].err.is_none());

    // Verify NO state change on real SVM
    let payer_balance_after = get_balance(&setup, &payer.pubkey());
    assert_eq!(
        payer_balance_before, payer_balance_after,
        "Simulate should NOT change real SVM state"
    );
    let r1_balance = get_balance(&setup, &recipient1);
    assert_eq!(r1_balance, 0, "Recipient1 should have 0 after simulate");
    let r2_balance = get_balance(&setup, &recipient2);
    assert_eq!(r2_balance, 0, "Recipient2 should have 0 after simulate");
}

/// Simulate good txs + 1 bad: returns partial results, stops at failure
#[test]
fn test_simulate_bundle_failure_mid_bundle() {
    let (setup, payer, blockhash) = setup_with_funded_payer(10 * LAMPORTS_PER_SOL);
    let unfunded = Keypair::new();

    let tx1 = build_transfer_tx(&payer, &Pubkey::new_unique(), 1000, &blockhash);
    let tx2 = build_transfer_tx(&payer, &Pubkey::new_unique(), 1000, &blockhash);
    let tx3 = build_transfer_tx(&unfunded, &Pubkey::new_unique(), 1000, &blockhash);

    let result = simulate_bundle(
        &setup.rpc,
        Some(&setup.context),
        vec![encode_tx(&tx1), encode_tx(&tx2), encode_tx(&tx3)],
        None,
    );

    assert!(result.is_ok());
    let sim_result = result.unwrap();
    assert!(sim_result.summary.starts_with("failed"));
    assert_eq!(
        sim_result.transaction_results.len(),
        3,
        "Should have results for 2 good + 1 failed"
    );
    assert!(sim_result.transaction_results[0].err.is_none(), "tx1 should succeed");
    assert!(sim_result.transaction_results[1].err.is_none(), "tx2 should succeed");
    assert!(sim_result.transaction_results[2].err.is_some(), "tx3 should fail");
}

/// Simulate chain-state propagation in bundle
#[test]
fn test_simulate_bundle_chain_state_propagation() {
    let (setup, payer, blockhash) = setup_with_funded_payer(10 * LAMPORTS_PER_SOL);

    let kp1 = Keypair::new();
    let recipient = Pubkey::new_unique();

    let tx1 = build_transfer_tx(&payer, &kp1.pubkey(), 3 * LAMPORTS_PER_SOL, &blockhash);
    let tx2 = build_transfer_tx(&kp1, &recipient, LAMPORTS_PER_SOL, &blockhash);

    let result = simulate_bundle(
        &setup.rpc,
        Some(&setup.context),
        vec![encode_tx(&tx1), encode_tx(&tx2)],
        None,
    );

    assert!(result.is_ok());
    let sim_result = result.unwrap();
    assert_eq!(sim_result.summary, "succeeded");
    assert_eq!(sim_result.transaction_results.len(), 2);
    assert!(sim_result.transaction_results[0].err.is_none());
    assert!(sim_result.transaction_results[1].err.is_none());

    // State unchanged on real SVM
    let kp1_balance = get_balance(&setup, &kp1.pubkey());
    assert_eq!(kp1_balance, 0, "kp1 should have 0 on real SVM after simulate");
}

/// simulateBundle validation: empty bundle
#[test]
fn test_simulate_bundle_empty_rejected() {
    let setup = TestSetup::new(SurfpoolJitoRpc);
    let result = simulate_bundle(&setup.rpc, Some(&setup.context), vec![], None);
    assert!(result.is_err());
}

/// simulateBundle validation: >5 txs
#[test]
fn test_simulate_bundle_exceeds_max_rejected() {
    let (setup, payer, blockhash) = setup_with_funded_payer(100 * LAMPORTS_PER_SOL);
    let txs: Vec<String> = (0..6)
        .map(|_| encode_tx(&build_transfer_tx(&payer, &Pubkey::new_unique(), 1000, &blockhash)))
        .collect();

    let result = simulate_bundle(&setup.rpc, Some(&setup.context), txs, None);
    assert!(result.is_err());
    assert!(result.unwrap_err().message.contains("cannot exceed 5"));
}

#[test]
fn simulation_without_context_is_unhealthy() {
    let setup = TestSetup::new(SurfpoolJitoRpc);
    let error = simulate_bundle(&setup.rpc, None, vec!["tx".into()], None).unwrap_err();
    assert_eq!(error.message, "Node is unhealthy");
}

#[test]
fn rejected_bundle_names_the_transaction() {
    let (mut setup, payer, blockhash) = setup_with_funded_payer(10 * LAMPORTS_PER_SOL);
    let tx1 = build_transfer_tx(&payer, &Pubkey::new_unique(), LAMPORTS_PER_SOL, &blockhash);
    let tx2 = build_transfer_tx(
        &Keypair::new(),
        &Pubkey::new_unique(),
        LAMPORTS_PER_SOL,
        &blockhash,
    );
    let error = send_bundle(
        &setup.rpc,
        Some(&mut setup.context),
        vec![encode_tx(&tx1), encode_tx(&tx2)],
        None,
    )
    .unwrap_err();
    assert_eq!(
        error.message,
        "Bundle rejected: transaction 1 failed: Attempt to debit an account but found no record \
         of a prior credit."
    );
}

#[test]
fn simulation_foretells_submission() {
    let (mut setup, payer, blockhash) = setup_with_funded_payer(10 * LAMPORTS_PER_SOL);
    let recipient = Pubkey::new_unique();
    let good = vec![encode_tx(&build_transfer_tx(&payer, &recipient, LAMPORTS_PER_SOL, &blockhash))];
    let config = Some(SimulateBundleConfig { skip_sig_verify: false });
    let simulated =
        simulate_bundle(&setup.rpc, Some(&setup.context), good.clone(), config.clone()).unwrap();
    assert_eq!(simulated.summary, "succeeded");
    assert!(send_bundle(&setup.rpc, Some(&mut setup.context), good, None).is_ok());

    let mut bad = Vec::new();
    bad.push(encode_tx(&build_transfer_tx(&payer, &recipient, 7, &blockhash)));
    bad.push(encode_tx(&build_transfer_tx(&Keypair::new(), &recipient, 8, &blockhash)));
    let simulated =
        simulate_bundle(&setup.rpc, Some(&setup.context), bad.clone(), config).unwrap();
    assert_eq!(simulated.summary, "failed: transaction 1 failed");
    assert!(send_bundle(&setup.rpc, Some(&mut setup.context), bad, None).is_err());
}

#[test]
fn simulation_takes_signatures_on_trust_by_default() {
    let (setup, payer, blockhash) = setup_with_funded_payer(10 * LAMPORTS_PER_SOL);
    let mut tx = build_transfer_tx(&payer, &Pubkey::new_unique(), LAMPORTS_PER_SOL, &blockhash);
    tx.signatures[0] = solana_signature::Signature::from([7u8; 64]);
    let trusting =
        simulate_bundle(&setup.rpc, Some(&setup.context), vec![encode_tx(&tx)], None).unwrap();
    assert_eq!(trusting.summary, "succeeded");
    let config = Some(SimulateBundleConfig { skip_sig_verify: false });
    let checking =
        simulate_bundle(&setup.rpc, Some(&setup.context), vec![encode_tx(&tx)], config).unwrap();
    assert_eq!(checking.summary, "failed: transaction 0 failed");
}

/// Between the trial and the commit the payer loses what the second transfer needs: the first
/// transfer is undone.
#[test]
fn broken_commit_is_undone() {
    let (mut setup, payer, blockhash) = setup_with_funded_payer(10 * LAMPORTS_PER_SOL);
    let recipient1 = Pubkey::new_unique();
    let recipient2 = Pubkey::new_unique();
    let texts = vec![
        encode_tx(&build_transfer_tx(&payer, &recipient1, 3 * LAMPORTS_PER_SOL, &blockhash)),
        encode_tx(&build_transfer_tx(&payer, &recipient2, 4 * LAMPORTS_PER_SOL, &blockhash)),
    ];
    let submission = setup.rpc.send_bundle(&Some(()), texts.clone(), None).ok().unwrap();
    let submission = try_out(submission, &setup.context);
    assert_eq!(submission.next_step(), Some(LedgerStep::Save));

    let other = build_transfer_tx(&payer, &Pubkey::new_unique(), 5 * LAMPORTS_PER_SOL, &blockhash);
    assert!(setup.context.send_transaction(other).is_ok());
    let balance_before = get_balance(&setup, &payer.pubkey());

    let error = commit(submission, &mut setup.context).unwrap_err();
    assert!(error.message.starts_with("Bundle commit failed unexpectedly at transaction 1: "));
    assert_eq!(get_balance(&setup, &payer.pubkey()), balance_before);
    assert_eq!(get_balance(&setup, &recipient1), 0);
    assert_eq!(get_balance(&setup, &recipient2), 0);

    // The first transfer does not count as processed either.
    let again = send_bundle(&setup.rpc, Some(&mut setup.context), texts[..1].to_vec(), None);
    assert!(again.is_ok());
    assert_eq!(get_balance(&setup, &recipient1), 3 * LAMPORTS_PER_SOL);
}

#[test]
fn simulation_can_be_repeated() {
    let (mut setup, payer, blockhash) = setup_with_funded_payer(10 * LAMPORTS_PER_SOL);
    let recipient = Pubkey::new_unique();
    let texts =
        vec![encode_tx(&build_transfer_tx(&payer, &recipient, 6 * LAMPORTS_PER_SOL, &blockhash))];
    let first = simulate_bundle(&setup.rpc, Some(&setup.context), texts.clone(), None).unwrap();
    let second = simulate_bundle(&setup.rpc, Some(&setup.context), texts.clone(), None).unwrap();
    assert_eq!(first.summary, "succeeded");
    assert_eq!(second.summary, first.summary);
    assert_eq!(second.transaction_results[0].logs, first.transaction_results[0].logs);
    assert_eq!(get_balance(&setup, &recipient), 0);
    assert!(send_bundle(&setup.rpc, Some(&mut setup.context), texts, None).is_ok());
}

#[test]
fn submission_is_read_in_its_encoding() {
    let (mut setup, payer, blockhash) = setup_with_funded_payer(10 * LAMPORTS_PER_SOL);
    let recipient = Pubkey::new_unique();
    let tx = build_transfer_tx(&payer, &recipient, LAMPORTS_PER_SOL, &blockhash);
    let text = base64::Engine::encode(
        &base64::engine::general_purpose::STANDARD,
        bincode::serialize(&tx).unwrap(),
    );
    let refused = send_bundle(&setup.rpc, Some(&mut setup.context), vec![text.clone()], None);
    assert!(refused.unwrap_err().message.starts_with("Failed to decode transaction 0: "));
    assert_eq!(get_balance(&setup, &recipient), 0);
    let config = Some(SendBundleConfig { encoding: Some("base64".to_string()) });
    assert!(send_bundle(&setup.rpc, Some(&mut setup.context), vec![text], config).is_ok());
    assert_eq!(get_balance(&setup, &recipient), LAMPORTS_PER_SOL);
}

/// A ledger that is put back recognises repeated transactions, with or without transactions in
/// its history when it was saved.
#[test]
fn restored_ledger_recognises_repeats() {
    let fresh = LiteSVM::new();
    assert!(forgets(&fresh.clone()));
    let mut svm = restored(fresh.clone());
    let account = Pubkey::new_unique();
    assert!(svm.airdrop(&account, LAMPORTS_PER_SOL).is_ok());
    assert!(svm.airdrop(&account, LAMPORTS_PER_SOL).is_err());

    assert!(!forgets(&svm.clone()));
    let mut svm = restored(svm.clone());
    assert!(svm.airdrop(&account, LAMPORTS_PER_SOL).is_err());
    assert!(svm.airdrop(&account, 2 * LAMPORTS_PER_SOL).is_ok());
    assert!(svm.airdrop(&account, 2 * LAMPORTS_PER_SOL).is_err());
}

/// The ordinary pair of requests: a simulation that takes signatures on trust, then a submission.
#[test]
fn default_simulation_foretells_submission() {
    let (mut setup, payer, blockhash) = setup_with_funded_payer(10 * LAMPORTS_PER_SOL);
    let texts = vec![
        encode_tx(&build_transfer_tx(&payer, &Pubkey::new_unique(), LAMPORTS_PER_SOL, &blockhash)),
        encode_tx(&build_transfer_tx(
            &Keypair::new(),
            &Pubkey::new_unique(),
            LAMPORTS_PER_SOL,
            &blockhash,
        )),
    ];
    let forecast = simulate_bundle(&setup.rpc, Some(&setup.context), texts.clone(), None).unwrap();
    assert_eq!(forecast.summary, "failed: transaction 1 failed");
    let rejection =
        send_bundle(&setup.rpc, Some(&mut setup.context), texts, None).unwrap_err();
    match rejection.data {
        Some(ErrorData::TransactionFailure { transaction_index, error, logs }) => {
            assert_eq!(transaction_index, 1);
            assert_eq!(Some(error), forecast.transaction_results[1].err);
            assert_eq!(Some(logs), forecast.transaction_results[1].logs);
        }
        _ => panic!("no data"),
    }
}
