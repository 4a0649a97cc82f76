use inference_logs::digest::hash_log;
use inference_logs::ledger::{
    has_sufficient_balance, padded_gas_limit, plan_chunks, ChunkReceipt, Event, SendOutcome, Stage,
    Submission, SubmissionError, MIN_BALANCE_WEI,
};
use inference_logs::models::InferenceLog;

fn log(wallet: &str, id: &str) -> InferenceLog {
    InferenceLog { wallet_address: wallet.to_string(), log_id: id.to_string(), processed: None, timestamp: None }
}

fn records(n: usize) -> Vec<InferenceLog> {
    (0..n).map(|i| log(&format!("0x{:040x}", i + 1), &format!("id-{}", i))).collect()
}

fn hex(bytes: &[u8]) -> String {
    bytes.iter().map(|b| format!("{:02x}", b)).collect()
}

const RICH: u128 = 1_000_000_000_000_000_000;

fn confirmed() -> Event {
    Event::Sent { outcome: SendOutcome::Confirmed { receipt: ChunkReceipt { gas_used: 50_000, effective_gas_price: 1_000 } } }
}

#[test]
fn hash_is_keccak256_of_wallet_then_id() {
    let h = hash_log(&log("a", "bc"));
    assert_eq!(hex(&h), "4e03657aea45a94fc7d47ba826c8d667c0d1e6e33a64a036ec44f58fa12d6c45");
    let empty = hash_log(&log("", ""));
    assert_eq!(hex(&empty), "c5d2460186f7233c927e7db2dcc703c0e500b653ca82273b7bfad8045d85a470");
}

#[test]
fn hash_is_deterministic_and_field_sensitive() {
    let w = "0x300bb1Aa41fF42aC005797c21300AcfE09d925a6";
    assert_eq!(hash_log(&log(w, "x1")), hash_log(&log(w, "x1")));
    assert_ne!(hash_log(&log(w, "x1")), hash_log(&log(w, "x2")));
    assert_ne!(hash_log(&log(w, "x1")), hash_log(&log("0x300bb1Aa41fF42aC005797c21300AcfE09d925a7", "x1")));
    // the concatenation has no separator
    assert_eq!(hash_log(&log("ab", "c")), hash_log(&log("a", "bc")));
}

#[test]
fn address_text_is_decoded_big_endian() {
    let logs = vec![log("0x300bb1Aa41fF42aC005797c21300AcfE09d925a6", "1"), log("300bb1aa41ff42ac005797c21300acfe09d925a6", "2")];
    let calls = plan_chunks(&logs, 10).ok().expect("both addresses parse");
    assert_eq!(hex(&calls[0].wallets[0]), "300bb1aa41ff42ac005797c21300acfe09d925a6");
    assert_eq!(calls[0].wallets[0], calls[0].wallets[1]);
    assert_eq!(calls[0].hashes[0], hash_log(&logs[0]));
}

#[test]
fn batch_of_250_makes_chunks_of_100_100_50() {
    let logs = records(250);
    let calls = plan_chunks(&logs, 100).ok().expect("valid batch");
    let sizes: Vec<usize> = calls.iter().map(|c| c.wallets.len()).collect();
    assert_eq!(sizes, vec![100, 100, 50]);
    assert_eq!(calls[1].hashes[0], hash_log(&logs[100]));
    assert_eq!(calls[2].hashes[49], hash_log(&logs[249]));

    let mut sub = Submission::new(logs, 100);
    sub.step(Event::Balance { wei: RICH });
    let mut order = Vec::new();
    loop {
        match sub.stage() {
            Stage::AwaitingEstimate { chunk } => {
                order.push(chunk);
                sub.step(Event::Estimated { gas: Some(100_000) });
            }
            Stage::AwaitingReceipt { .. } => {
                sub.step(confirmed());
            }
            Stage::Finished { error } => {
                assert_eq!(error, None);
                break;
            }
            Stage::AwaitingBalance => unreachable!(),
        }
    }
    assert_eq!(order, vec![0, 1, 2]);
}

#[test]
fn invalid_address_fails_whole_batch_with_first_index() {
    let mut logs = records(5);
    logs[2].wallet_address = "0x1234".to_string();
    logs[4].wallet_address = "not an address".to_string();
    match plan_chunks(&logs, 2) {
        Err(SubmissionError::InvalidAddress { index }) => assert_eq!(index, 2),
        _ => panic!("expected an invalid address"),
    }
    let mut sub = Submission::new(logs, 2);
    let st = sub.step(Event::Balance { wei: RICH });
    assert_eq!(st, Stage::Finished { error: Some(SubmissionError::InvalidAddress { index: 2 }) });
}

#[test]
fn low_balance_fails_before_any_estimate() {
    let mut sub = Submission::new(records(3), 10);
    let st = sub.step(Event::Balance { wei: MIN_BALANCE_WEI - 1 });
    assert_eq!(st, Stage::Finished { error: Some(SubmissionError::InsufficientResources { balance_wei: MIN_BALANCE_WEI - 1 }) });
    assert_eq!(sub.chunk_count(), 0);
    // later answers change nothing
    assert_eq!(sub.step(Event::Estimated { gas: Some(1) }), st);
}

#[test]
fn balance_threshold_is_inclusive() {
    assert!(has_sufficient_balance(MIN_BALANCE_WEI));
    assert!(!has_sufficient_balance(MIN_BALANCE_WEI - 1));
    assert_eq!(MIN_BALANCE_WEI, 500_000_000_000_000);
}

#[test]
fn failing_second_chunk_aborts_the_third() {
    let mut sub = Submission::new(records(6), 2);
    assert_eq!(sub.step(Event::Balance { wei: RICH }), Stage::AwaitingEstimate { chunk: 0 });
    assert_eq!(sub.step(Event::Estimated { gas: Some(1000) }), Stage::AwaitingReceipt { chunk: 0, gas_limit: 1200 });
    assert_eq!(sub.step(confirmed()), Stage::AwaitingEstimate { chunk: 1 });
    assert_eq!(sub.step(Event::Estimated { gas: Some(1000) }), Stage::AwaitingReceipt { chunk: 1, gas_limit: 1200 });
    let st = sub.step(Event::Sent { outcome: SendOutcome::Rejected });
    assert_eq!(st, Stage::Finished { error: Some(SubmissionError::SubmissionFailure { chunk: 1 }) });
    assert_eq!(sub.step(confirmed()), st);
    assert_eq!(sub.step(Event::Estimated { gas: Some(5) }), st);
}

#[test]
fn estimation_failure_and_missing_receipt() {
    let mut a = Submission::new(records(1), 5);
    a.step(Event::Balance { wei: RICH });
    assert_eq!(a.step(Event::Estimated { gas: None }), Stage::Finished { error: Some(SubmissionError::EstimationFailure { chunk: 0 }) });
    let mut b = Submission::new(records(1), 5);
    b.step(Event::Balance { wei: RICH });
    b.step(Event::Estimated { gas: Some(10) });
    assert_eq!(b.step(Event::Sent { outcome: SendOutcome::Unconfirmed }), Stage::Finished { error: Some(SubmissionError::ConfirmationTimeout { chunk: 0 }) });
}

#[test]
fn mismatched_event_is_ignored() {
    let mut sub = Submission::new(records(1), 5);
    assert_eq!(sub.step(confirmed()), Stage::AwaitingBalance);
}

#[test]
fn empty_batch_finishes_without_ledger_calls() {
    let sub = Submission::new(Vec::new(), 5);
    assert_eq!(sub.stage(), Stage::Finished { error: None });
}

#[test]
fn single_record_submission() {
    let mut sub = Submission::single(log("0x300bb1Aa41fF42aC005797c21300AcfE09d925a6", "only"));
    assert!(sub.is_single());
    assert_eq!(sub.step(Event::Balance { wei: RICH }), Stage::AwaitingEstimate { chunk: 0 });
    assert_eq!(sub.chunk_count(), 1);
    assert!(sub.chunk(1).is_none());
}

#[test]
fn gas_limit_adds_twenty_percent_rounding_down() {
    assert_eq!(padded_gas_limit(100), 120);
    assert_eq!(padded_gas_limit(21_001), 25_201);
    assert_eq!(padded_gas_limit(u64::MAX), (u64::MAX as u128) * 120 / 100);
}

#[test]
fn fee_is_gas_times_price() {
    assert_eq!(ChunkReceipt { gas_used: 50_000, effective_gas_price: 3 }.fee_wei(), Some(150_000));
    assert_eq!(ChunkReceipt { gas_used: u128::MAX, effective_gas_price: 2 }.fee_wei(), None);
}

#[test]
fn address_reader_skips_blanks_and_needs_lowercase_prefix() {
    let plain = "0x300bb1Aa41fF42aC005797c21300AcfE09d925a6";
    let spaced = "0x300bb1Aa41fF42aC 005797c21300AcfE09d925a6\n";
    let logs = vec![log(plain, "1"), log(spaced, "2")];
    let calls = plan_chunks(&logs, 2).ok().expect("blanks are skipped");
    assert_eq!(calls[0].wallets[0], calls[0].wallets[1]);

    let upper = vec![log("0X300bb1Aa41fF42aC005797c21300AcfE09d925a6", "3")];
    assert!(matches!(plan_chunks(&upper, 2), Err(SubmissionError::InvalidAddress { index: 0 })));
    let long = vec![log("0x300bb1Aa41fF42aC005797c21300AcfE09d925a600", "4")];
    assert!(matches!(plan_chunks(&long, 2), Err(SubmissionError::InvalidAddress { index: 0 })));
}
