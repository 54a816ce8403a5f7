//! The library on values of its own.
use surfpool_jito::bundle::{
    calculate_bundle_id, check_bundle_size, checked_decode_and_validate_bundle, decode_all,
    decode_and_validate_bundle, decode_and_validate_bundle_in, digest_to_id, first_signatures,
    has_unsigned_transaction, join_with_commas, validate_decoded, write_signatures, MAX_TRANSACTIONS_PER_BUNDLE,
};
use surfpool_jito::decimal::append_decimal;
use surfpool_jito::error::{Error, ErrorCode, ErrorData};
use surfpool_jito::ledger::{FailedTransactionMetadata, LedgerStep, TransactionMetadata};
use surfpool_jito::rpc::{
    default_true, requested_encoding, SendBundleConfig, SimulateBundleConfig, SurfpoolJitoRpc,
};
use surfpool_jito::signature::Signature;
use surfpool_jito::simulation::{transaction_result, BundleSimulation};
use surfpool_jito::submission::{commit_failure, rejection, BundleSubmission};
use surfpool_jito::transaction::{
    decode_and_deserialize, decode_text, decode_transaction, invalid_encoding, transaction_from,
    DecodedTransaction, TextFormat, TransactionBinaryEncoding,
};

/// A serialized transaction with two signatures and no instructions.
fn signed_wire(first: u8) -> Vec<u8> {
    let mut wire = vec![2];
    wire.extend([first; 64]);
    wire.extend([8; 64]);
    wire.extend([1, 0, 0, 1]);
    wire.extend([5; 32]);
    wire.extend([6; 32]);
    wire.push(0);
    wire
}

/// A serialized transaction without signatures.
fn unsigned_wire() -> Vec<u8> {
    let mut wire = vec![0, 0, 0, 0, 0];
    wire.extend([0; 32]);
    wire.push(0);
    wire
}

fn base58(wire: &[u8]) -> String {
    bs58::encode(wire).into_string()
}

fn decoded(first: u8) -> DecodedTransaction {
    decode_transaction(&base58(&signed_wire(first))).unwrap()
}

fn success(units: u64) -> Result<TransactionMetadata, FailedTransactionMetadata> {
    Ok(TransactionMetadata {
        logs: vec!["did it".to_string()],
        compute_units_consumed: units,
    })
}

fn failure(err: &str) -> FailedTransactionMetadata {
    FailedTransactionMetadata {
        err: err.to_string(),
        meta: TransactionMetadata {
            logs: vec!["tried".to_string(), "gave up".to_string()],
            compute_units_consumed: 9,
        },
    }
}

const SIGNED_BASE58: &str = "3Ltp61YXAnwzYTLNarpLZmMXmKGknvmWRKSSAVmbd3fC7nJT27P6d4D22DR1imKJh3XtoZoWF6cPXkGwX6KXqbmyQrFtHVfCtBjP5TUBhELBZApQiXTf5boDsNMWf3CfvqoZDiPRVau3dkj7d7pcfWaBWGVskC2oD7Z4B8EuLpaY69CSsXhZg9CnRtWZjqmYkmGjZz9sPtpwiWEaaQYWRNoEaZxvBUbn4NrafWkZjL3aAgoKGo53eLgwoWqe3SDeED16xH8eNHavxF";

const SIGNED_BASE64: &str = "AgkJCQkJCQkJCQkJCQkJCQkJCQkJCQkJCQkJCQkJCQkJCQkJCQkJCQkJCQkJCQkJCQkJCQkJCQkJCQkJCQkJCQkICAgICAgICAgICAgICAgICAgICAgICAgICAgICAgICAgICAgICAgICAgICAgICAgICAgICAgICAgICAgICAgIAQAAAQUFBQUFBQUFBQUFBQUFBQUFBQUFBQUFBQUFBQUFBQUFBgYGBgYGBgYGBgYGBgYGBgYGBgYGBgYGBgYGBgYGBgYA";

#[test]
fn numbers_are_written_in_base_ten() {
    for n in [0usize, 9, 10, 100, 1234567890, usize::MAX] {
        let mut text = "n = ".to_string();
        append_decimal(&mut text, n);
        assert_eq!(text, format!("n = {}", n));
    }
}

#[test]
fn base58_text_is_read() {
    let transaction = decode_transaction(SIGNED_BASE58).unwrap();
    assert_eq!(transaction.wire, signed_wire(9));
    assert_eq!(transaction.signatures.len(), 2);
    assert_eq!(transaction.signatures[0].bytes, [9; 64]);
    assert_eq!(transaction.signatures[1].bytes, [8; 64]);
}

#[test]
fn base64_text_is_read() {
    let transaction = decode_transaction(SIGNED_BASE64).unwrap();
    assert_eq!(transaction.wire, signed_wire(9));
    assert_eq!(transaction.signatures[0].bytes, [9; 64]);
}

#[test]
fn each_encoding_reads_its_own_text() {
    let base58 = TransactionBinaryEncoding::Base58;
    let base64 = TransactionBinaryEncoding::Base64;
    assert!(decode_and_deserialize(SIGNED_BASE58, base58).is_ok());
    assert!(decode_and_deserialize(SIGNED_BASE64, base64).is_ok());
    assert_eq!(
        decode_and_deserialize(SIGNED_BASE64, base58).unwrap_err().message,
        "invalid base58 encoding: InvalidCharacter { character: 'I', index: 87 }"
    );
    assert_eq!(
        decode_and_deserialize("AAA", base64).unwrap_err().message,
        "invalid base64 encoding: InvalidPadding"
    );
    assert_eq!(
        decode_and_deserialize("AB==", base64).unwrap_err().message,
        "invalid base64 encoding: InvalidLastSymbol(1, 66)"
    );
}

#[test]
fn leading_zeros_survive() {
    let transaction = decode_transaction(&base58(&unsigned_wire())).unwrap();
    assert_eq!(base58(&unsigned_wire()), "11111111111111111111111111111111111111");
    assert_eq!(transaction.wire, unsigned_wire());
    assert!(transaction.signatures.is_empty());
}

#[test]
fn bytes_that_hold_no_transaction() {
    let error =
        decode_and_deserialize(&base58(&[0, 0, 0]), TransactionBinaryEncoding::Base58).unwrap_err();
    assert_eq!(error.code, ErrorCode::InvalidParams);
    assert_eq!(
        error.message,
        "failed to deserialize solana_transaction::versioned::VersionedTransaction: io error: \
         unexpected end of file"
    );
}

#[test]
fn transaction_from_what_was_read() {
    let read = transaction_from(vec![1, 2], Ok(vec![Signature { bytes: [7; 64] }])).unwrap();
    assert_eq!(read.wire, vec![1, 2]);
    assert_eq!(read.signatures.len(), 1);
    assert_eq!(read.signatures[0].bytes, [7; 64]);
    let error = transaction_from(vec![1, 2], Err("no".to_string())).unwrap_err();
    assert_eq!(
        error.message,
        "failed to deserialize solana_transaction::versioned::VersionedTransaction: no"
    );
}

#[test]
fn encodings_are_named_in_replies() {
    let error = invalid_encoding(TransactionBinaryEncoding::Base58, "bad");
    assert_eq!(error.message, "invalid base58 encoding: bad");
    let error = invalid_encoding(TransactionBinaryEncoding::Base64, "bad");
    assert_eq!(error.message, "invalid base64 encoding: bad");
    assert_eq!(error.code, ErrorCode::InvalidParams);
}

#[test]
fn bundle_sizes() {
    assert!(check_bundle_size(1).is_ok());
    assert!(check_bundle_size(5).is_ok());
    assert_eq!(check_bundle_size(0).unwrap_err().message, "Bundle cannot be empty");
    assert_eq!(
        check_bundle_size(17).unwrap_err().message,
        "Bundle cannot exceed 5 transactions, got 17"
    );
}

#[test]
fn first_fault_decides() {
    let broken = || Err(Error::invalid_params("broken".to_string()));
    let accepted = validate_decoded(vec![Ok(decoded(1)), Ok(decoded(2))]).unwrap();
    assert_eq!(accepted[1].wire, signed_wire(2));
    let error = validate_decoded(vec![Ok(decoded(1)), broken(), Ok(decoded(1))]).unwrap_err();
    assert_eq!(error.message, "Failed to decode transaction 1: Invalid params: broken");
    let error = validate_decoded(vec![Ok(decoded(1)), Ok(decoded(1)), broken()]).unwrap_err();
    assert_eq!(error.message, "Bundle contains duplicate transaction at index 1");
}

#[test]
fn every_text_is_read() {
    let texts = vec![base58(&signed_wire(1)), "0".to_string(), SIGNED_BASE64.to_string()];
    let decodings = decode_all(&texts, TextFormat::Base58OrBase64);
    assert_eq!(decodings.len(), 3);
    assert_eq!(decodings[0].as_ref().unwrap().wire, signed_wire(1));
    assert!(decodings[1].is_err());
    assert_eq!(decodings[2].as_ref().unwrap().wire, signed_wire(9));
}

#[test]
fn pieces_of_a_bundle_id() {
    let texts = write_signatures(&[Signature { bytes: [0; 64] }]);
    assert_eq!(texts, vec!["1".repeat(64)]);
    assert_eq!(join_with_commas(&[]), "");
    assert_eq!(join_with_commas(&["a".to_string()]), "a");
    assert_eq!(
        join_with_commas(&["a".to_string(), "bc".to_string(), "d".to_string()]),
        "a,bc,d"
    );
    assert_eq!(digest_to_id(&[0, 15, 171, 255]), "000fabff");
}

#[test]
fn accepted_bundle_keeps_the_order() {
    let texts = vec![SIGNED_BASE64.to_string(), base58(&signed_wire(1)), base58(&signed_wire(3))];
    let transactions = decode_and_validate_bundle(&texts).unwrap();
    let first: Vec<u8> = transactions.iter().map(|t| t.signatures[0].bytes[0]).collect();
    assert_eq!(first, vec![9, 1, 3]);
    let signatures = first_signatures(&transactions);
    assert_eq!(signatures.len(), 3);
    assert_eq!(signatures[1].bytes, [1; 64]);
}

#[test]
fn five_transactions_fit_and_six_do_not() {
    let mut texts: Vec<String> = (1u8..6).map(|i| base58(&signed_wire(i))).collect();
    assert_eq!(texts.len(), MAX_TRANSACTIONS_PER_BUNDLE);
    assert_eq!(decode_and_validate_bundle(&texts).unwrap().len(), 5);
    texts.push("not even a transaction".to_string());
    let error = decode_and_validate_bundle(&texts).unwrap_err();
    assert_eq!(error.code, ErrorCode::InvalidParams);
    assert_eq!(error.message, "Bundle cannot exceed 5 transactions, got 6");
    assert!(error.data.is_none());
}

#[test]
fn empty_bundle_is_refused() {
    let error = decode_and_validate_bundle(&[]).unwrap_err();
    assert_eq!(error.code, ErrorCode::InvalidParams);
    assert_eq!(error.message, "Bundle cannot be empty");
}

#[test]
fn undecodable_transaction_is_named() {
    let texts = vec![SIGNED_BASE58.to_string(), "!!!".to_string(), SIGNED_BASE58.to_string()];
    let error = decode_and_validate_bundle(&texts).unwrap_err();
    assert_eq!(error.code, ErrorCode::InvalidParams);
    assert_eq!(
        error.message,
        "Failed to decode transaction 1: Invalid params: invalid base64 encoding: \
         InvalidByte(0, 33)"
    );
}

#[test]
fn repeated_transaction_is_refused_in_any_encoding() {
    let texts =
        vec![SIGNED_BASE58.to_string(), base58(&signed_wire(1)), SIGNED_BASE64.to_string()];
    let error = decode_and_validate_bundle(&texts).unwrap_err();
    assert_eq!(error.code, ErrorCode::InvalidParams);
    assert_eq!(error.message, "Bundle contains duplicate transaction at index 2");
}

#[test]
fn unsigned_transaction_is_noticed() {
    let unsigned = base58(&unsigned_wire());
    let texts = vec![SIGNED_BASE58.to_string(), unsigned.clone()];
    assert!(has_unsigned_transaction(&texts, TextFormat::Base58OrBase64));
    assert!(checked_decode_and_validate_bundle(&texts).is_none());
    let rpc = SurfpoolJitoRpc;
    assert!(rpc.checked_send_bundle(&Some(()), texts.clone(), None).is_none());
    assert!(rpc.checked_simulate_bundle(&Some(()), texts.clone(), None).is_none());
    assert!(rpc.checked_send_bundle(&None::<()>, texts, None).unwrap().is_err());

    // What comes first counts.
    let texts = vec![SIGNED_BASE58.to_string(), SIGNED_BASE58.to_string(), unsigned];
    assert!(!has_unsigned_transaction(&texts, TextFormat::Base58OrBase64));
    let error = checked_decode_and_validate_bundle(&texts).unwrap().unwrap_err();
    assert_eq!(error.message, "Bundle contains duplicate transaction at index 1");
}

#[test]
fn bundle_ids() {
    let zero = Signature { bytes: [0; 64] };
    let one = Signature { bytes: [1; 64] };
    let mut count = Signature { bytes: [0; 64] };
    for i in 0..64 {
        count.bytes[i] = i as u8;
    }
    assert_eq!(
        calculate_bundle_id(&[zero]),
        "3138bb9bc78df27c473ecfd1410f7bd45ebac1f59cf3ff9cfe4db77aab7aedd3"
    );
    assert_eq!(
        calculate_bundle_id(&[one, count]),
        "7832c84641fe452b9460981e576b1c8d3e811c1652d8cae8c538e7c1e2ad84cd"
    );
    assert_eq!(
        calculate_bundle_id(&[count, one]),
        "17064e4a27b6c97d8ade078479884eaafa337565570ea43fce5eb45adf1fc490"
    );
    assert_eq!(
        calculate_bundle_id(&[]),
        "e3b0c44298fc1c149afbf4c8996fb92427ae41e4649b934ca495991b7852b855"
    );
}

#[test]
fn signatures_are_compared_byte_by_byte() {
    let a = Signature { bytes: [3; 64] };
    let mut b = a;
    assert!(a.same_as(&b));
    b.bytes[63] = 4;
    assert!(!a.same_as(&b));
}

#[test]
fn node_without_context_is_unhealthy() {
    let rpc = SurfpoolJitoRpc;
    let texts = vec!["tx".to_string()];
    let error = match rpc.checked_send_bundle(&None::<()>, texts.clone(), None).unwrap() {
        Ok(_) => panic!("taken on"),
        Err(error) => error,
    };
    assert_eq!(error.code, ErrorCode::ServerError(-32005));
    assert_eq!(error.message, "Node is unhealthy");
    assert!(matches!(error.data, Some(ErrorData::NodeUnhealthy { num_slots_behind: None })));
    assert_eq!(error.line(), "Server error: Node is unhealthy");
    assert!(rpc.checked_simulate_bundle(&None::<()>, texts, None).unwrap().is_err());
}

#[test]
fn submission_tries_everything_before_it_commits() {
    let mut submission = BundleSubmission::new(vec![decoded(1), decoded(2)]);
    let mut steps = Vec::new();
    while let Some(step) = submission.next_step() {
        steps.push(step);
        submission = match step {
            LedgerStep::Save => submission.record(success(1)).done(),
            _ => submission.done().record(success(1)),
        };
    }
    assert_eq!(
        steps,
        vec![
            LedgerStep::DryRun(0),
            LedgerStep::DryRun(1),
            LedgerStep::Save,
            LedgerStep::Commit(0),
            LedgerStep::Commit(1)
        ]
    );
    let expected =
        calculate_bundle_id(&[Signature { bytes: [1; 64] }, Signature { bytes: [2; 64] }]);
    assert_eq!(submission.into_reply().unwrap().unwrap(), expected);
}

#[test]
fn submission_with_failed_trial_commits_nothing() {
    let submission = BundleSubmission::new(vec![decoded(1), decoded(2), decoded(3)]);
    let submission = submission.record(success(1)).record(Err(failure("no funds")));
    assert_eq!(submission.next_step(), None);
    let error = submission.into_reply().unwrap().unwrap_err();
    assert_eq!(error.code, ErrorCode::ServerError(-32000));
    assert_eq!(error.message, "Bundle rejected: transaction 1 failed: no funds");
    match error.data {
        Some(ErrorData::TransactionFailure { transaction_index, error, logs }) => {
            assert_eq!(transaction_index, 1);
            assert_eq!(error, "no funds");
            assert_eq!(logs, vec!["tried".to_string(), "gave up".to_string()]);
        }
        _ => panic!("no data"),
    }
}

#[test]
fn submission_that_breaks_off() {
    let submission = BundleSubmission::new(vec![decoded(1), decoded(2)]);
    let submission = submission.record(success(1)).record(success(1)).done().record(success(1));
    assert_eq!(submission.next_step(), Some(LedgerStep::Commit(1)));
    let submission = submission.record(Err(failure("changed")));
    assert_eq!(submission.next_step(), Some(LedgerStep::Restore));
    let submission = submission.record(success(1)).done();
    assert_eq!(submission.next_step(), None);
    let error = submission.record(success(1)).done().into_reply().unwrap().unwrap_err();
    assert_eq!(error.code, ErrorCode::ServerError(-32001));
    assert_eq!(error.message, "Bundle commit failed unexpectedly at transaction 1: changed");
    assert!(error.data.is_none());
}

#[test]
fn submission_under_way_has_no_reply() {
    let submission = BundleSubmission::new(vec![decoded(1)]);
    assert_eq!(submission.transactions().len(), 1);
    assert!(submission.record(success(1)).into_reply().is_none());
}

#[test]
fn replies_to_failures() {
    assert_eq!(rejection(12, failure("x")).message, "Bundle rejected: transaction 12 failed: x");
    assert_eq!(
        commit_failure(10, failure("y")).message,
        "Bundle commit failed unexpectedly at transaction 10: y"
    );
}

#[test]
fn simulation_reports_each_transaction() {
    let simulation = BundleSimulation::new(vec![decoded(1), decoded(2)], true);
    assert!(simulation.skip_sig_verify());
    assert_eq!(simulation.next_step(), Some(LedgerStep::DryRun(0)));
    let simulation = simulation.record(success(150));
    assert_eq!(simulation.next_step(), Some(LedgerStep::DryRun(1)));
    let simulation = simulation.record(success(250));
    assert_eq!(simulation.next_step(), None);
    let reply = simulation.into_reply().unwrap();
    assert_eq!(reply.summary, "succeeded");
    assert_eq!(reply.transaction_results.len(), 2);
    assert_eq!(reply.transaction_results[1].err, None);
    assert_eq!(reply.transaction_results[1].logs, Some(vec!["did it".to_string()]));
    assert_eq!(reply.transaction_results[1].units_consumed, Some(250));
}

#[test]
fn simulation_stops_at_failure() {
    let simulation = BundleSimulation::new(vec![decoded(1), decoded(2), decoded(3)], false);
    assert_eq!(simulation.transactions().len(), 3);
    let simulation = simulation.record(success(1)).record(Err(failure("no funds")));
    assert_eq!(simulation.next_step(), None);
    let reply = simulation.record(success(1)).into_reply().unwrap();
    assert_eq!(reply.summary, "failed: transaction 1 failed");
    assert_eq!(reply.transaction_results.len(), 2);
    assert_eq!(reply.transaction_results[0].err, None);
    assert_eq!(reply.transaction_results[1].err, Some("no funds".to_string()));
    assert_eq!(reply.transaction_results[1].units_consumed, Some(9));
}

#[test]
fn simulation_under_way_has_no_reply() {
    assert!(BundleSimulation::new(vec![decoded(1)], true).into_reply().is_none());
}

#[test]
fn failed_transaction_is_reported() {
    let result = transaction_result(Err(failure("z")));
    assert_eq!(result.err, Some("z".to_string()));
    assert_eq!(result.logs, Some(vec!["tried".to_string(), "gave up".to_string()]));
    assert_eq!(result.units_consumed, Some(9));
}

#[test]
fn options_by_default() {
    assert!(default_true());
    assert!(SimulateBundleConfig::default().skip_sig_verify);
    assert_eq!(SendBundleConfig::default().encoding, None);
    let rpc = SurfpoolJitoRpc;
    let texts = vec![SIGNED_BASE58.to_string()];
    let simulation = rpc.simulate_bundle(&Some(()), texts.clone(), None);
    assert!(simulation.ok().unwrap().skip_sig_verify());
    let config = SimulateBundleConfig { skip_sig_verify: false };
    let simulation = rpc.simulate_bundle(&Some(()), texts.clone(), Some(config));
    assert!(!simulation.ok().unwrap().skip_sig_verify());
    let submission = rpc.send_bundle(&Some(()), texts, None).ok().unwrap();
    assert_eq!(submission.next_step(), Some(LedgerStep::DryRun(0)));
}

fn encoding(name: &str) -> Option<SendBundleConfig> {
    Some(SendBundleConfig { encoding: Some(name.to_string()) })
}

#[test]
fn encodings_by_name() {
    let base58 = TransactionBinaryEncoding::Base58;
    assert_eq!(requested_encoding(&None).unwrap(), base58);
    assert_eq!(requested_encoding(&Some(SendBundleConfig::default())).unwrap(), base58);
    assert_eq!(requested_encoding(&encoding("base58")).unwrap(), base58);
    let base64 = TransactionBinaryEncoding::Base64;
    assert_eq!(requested_encoding(&encoding("base64")).unwrap(), base64);
    for name in ["", "Base58", "json"] {
        let error = requested_encoding(&encoding(name)).unwrap_err();
        assert_eq!(error.code, ErrorCode::InvalidParams);
        assert_eq!(
            error.message,
            format!("unsupported encoding: {}. Supported encodings: base58, base64", name)
        );
    }
}

#[test]
fn submission_keeps_to_its_encoding() {
    let rpc = SurfpoolJitoRpc;
    let send = |text: &str, config| {
        rpc.checked_send_bundle(&Some(()), vec![text.to_string()], config).unwrap()
    };
    for config in [None, Some(SendBundleConfig::default()), encoding("base58")] {
        assert!(send(SIGNED_BASE58, config.clone()).is_ok());
        let error = send(SIGNED_BASE64, config).err().unwrap();
        assert!(error.message.starts_with(
            "Failed to decode transaction 0: Invalid params: "
        ));
    }
    assert!(send(SIGNED_BASE64, encoding("base64")).is_ok());
    assert!(send(SIGNED_BASE58, encoding("base64")).is_err());

    // Without a context, and at a wrong size, the encoding does not matter.
    let texts = vec![SIGNED_BASE58.to_string()];
    let error = rpc.checked_send_bundle(&None::<()>, texts, encoding("json")).unwrap().err();
    assert_eq!(error.unwrap().message, "Node is unhealthy");
    let error = rpc.checked_send_bundle(&Some(()), vec![], encoding("json")).unwrap().err();
    assert_eq!(error.unwrap().message, "Bundle cannot be empty");
    let error = send("not even a transaction", encoding("json")).err().unwrap();
    assert!(error.message.starts_with("unsupported encoding: json"));

    // A simulation reads both.
    for text in [SIGNED_BASE58, SIGNED_BASE64] {
        let texts = vec![text.to_string()];
        assert!(rpc.checked_simulate_bundle(&Some(()), texts, None).unwrap().is_ok());
    }
}

#[test]
fn texts_in_a_format() {
    let only = |encoding| TextFormat::Only(encoding);
    let base58 = only(TransactionBinaryEncoding::Base58);
    let base64 = only(TransactionBinaryEncoding::Base64);
    assert!(decode_text(SIGNED_BASE64, base58).is_err());
    assert_eq!(decode_text(SIGNED_BASE64, base64).unwrap().wire, signed_wire(9));
    assert_eq!(
        decode_text(SIGNED_BASE64, TextFormat::Base58OrBase64).unwrap().wire,
        signed_wire(9)
    );
    let texts = vec![base58_text_of(1), SIGNED_BASE64.to_string()];
    let error = decode_and_validate_bundle_in(&texts, base58).unwrap_err();
    assert!(error.message.starts_with("Failed to decode transaction 1: "));
    assert!(decode_and_validate_bundle_in(&texts[..1], base58).is_ok());
}

fn base58_text_of(first: u8) -> String {
    base58(&signed_wire(first))
}

#[test]
fn errors_in_one_line() {
    let error = Error::invalid_params("no such thing".to_string());
    assert_eq!(error.line(), "Invalid params: no such thing");
    assert_eq!(ErrorCode::ServerError(1).description(), "Server error");
}
