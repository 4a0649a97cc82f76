use vstd::prelude::*;

use crate::address::{address_bytes, is_address_text, parse_address};
use crate::chunks::{chunked, lemma_chunked_map, split_into_chunks};
use crate::digest::{hash_log, log_digest};
use crate::models::InferenceLog;

verus! {

/// The least balance, in wei (0.0005 ETH), with which a submission is tried.
pub const MIN_BALANCE_WEI: u128 = 500_000_000_000_000;

/// Why a batch was not (fully) committed. Every error ends the batch.
#[derive(Debug, Clone, Copy, PartialEq, Eq)]
pub enum SubmissionError {
    /// The preflight balance was below `MIN_BALANCE_WEI`.
    InsufficientResources { balance_wei: u128 },
    /// The record at `index` has a wallet address that does not parse.
    InvalidAddress { index: usize },
    /// Cost estimation failed for the chunk at `chunk`.
    EstimationFailure { chunk: usize },
    /// The transaction for the chunk at `chunk` was not accepted.
    SubmissionFailure { chunk: usize },
    /// The transaction for the chunk at `chunk` never yielded a receipt.
    ConfirmationTimeout { chunk: usize },
}

/// What the chunk's confirmed transaction reported.
#[derive(Debug, Clone, Copy, PartialEq, Eq)]
pub struct ChunkReceipt {
    pub gas_used: u128,
    pub effective_gas_price: u128,
}

impl ChunkReceipt {
    /// The fee paid, gas used times effective price, or `None` if it does
    /// not fit in 128 bits.
    pub fn fee_wei(&self) -> (fee: Option<u128>)
        ensures
            self.gas_used * self.effective_gas_price <= u128::MAX ==> fee == Some(
                (self.gas_used * self.effective_gas_price) as u128,
            ),
            self.gas_used * self.effective_gas_price > u128::MAX ==> fee is None,
    {
        self.gas_used.checked_mul(self.effective_gas_price)
    }
}

/// The gas limit sent with a transaction: the estimate plus 20 percent,
/// rounded down.
pub open spec fn padded_gas(estimate: u64) -> int {
    estimate as int * 120 / 100
}

pub fn padded_gas_limit(estimate: u64) -> (limit: u128)
    ensures
        limit == padded_gas(estimate),
{
    (estimate as u128) * 120 / 100
}

/// Whether a balance allows a submission to be tried.
pub fn has_sufficient_balance(balance_wei: u128) -> (ok: bool)
    ensures
        ok == (balance_wei >= MIN_BALANCE_WEI),
{
    balance_wei >= MIN_BALANCE_WEI
}

pub open spec fn wallet_bytes(logs: Seq<InferenceLog>) -> Seq<Seq<u8>> {
    logs.map_values(|l: InferenceLog| address_bytes(l.wallet_address@))
}

pub open spec fn log_digests(logs: Seq<InferenceLog>) -> Seq<Seq<u8>> {
    logs.map_values(|l: InferenceLog| log_digest(l.wallet_address@, l.log_id@))
}

pub open spec fn all_addresses_valid(logs: Seq<InferenceLog>) -> bool {
    forall|i: int| 0 <= i < logs.len() ==> is_address_text(#[trigger] logs[i].wallet_address@)
}

/// `index` is the position of the first record whose address does not parse.
pub open spec fn is_first_invalid(logs: Seq<InferenceLog>, index: int) -> bool {
    &&& 0 <= index < logs.len()
    &&& !is_address_text(logs[index].wallet_address@)
    &&& forall|j: int| 0 <= j < index ==> is_address_text(#[trigger] logs[j].wallet_address@)
}

/// The arguments of one chunk's transaction: the wallet of each record and
/// its content hash, in record order.
pub struct ChunkCall {
    pub wallets: Vec<[u8; 20]>,
    pub hashes: Vec<[u8; 32]>,
}

pub open spec fn wallets_view(v: Seq<[u8; 20]>) -> Seq<Seq<u8>> {
    v.map_values(|a: [u8; 20]| a@)
}

pub open spec fn hashes_view(v: Seq<[u8; 32]>) -> Seq<Seq<u8>> {
    v.map_values(|h: [u8; 32]| h@)
}

/// `calls` are the transactions for `logs` cut into chunks of `size`, in order.
pub open spec fn is_plan(calls: Seq<ChunkCall>, logs: Seq<InferenceLog>, size: nat) -> bool {
    &&& calls.len() == chunked(logs, size).len()
    &&& forall|i: int|
        0 <= i < calls.len() ==> {
            &&& wallets_view(#[trigger] calls[i].wallets@) == chunked(wallet_bytes(logs), size)[i]
            &&& hashes_view(calls[i].hashes@) == chunked(log_digests(logs), size)[i]
        }
}

/// Resolves every record's wallet address and content hash, then cuts the
/// batch into chunks of at most `size` records, in order. Fails with the
/// first record whose address does not parse.
pub fn plan_chunks(logs: &Vec<InferenceLog>, size: usize) -> (r: Result<Vec<ChunkCall>, SubmissionError>)
    requires
        size > 0,
    ensures
        r is Ok <==> all_addresses_valid(logs@),
        r matches Ok(calls) ==> is_plan(calls@, logs@, size as nat),
        r matches Err(e) ==> e matches SubmissionError::InvalidAddress { index } && is_first_invalid(
            logs@,
            index as int,
        ),
{
    let mut wallets: Vec<[u8; 20]> = Vec::new();
    let mut hashes: Vec<[u8; 32]> = Vec::new();
    let mut i: usize = 0;
    while i < logs.len()
        invariant
            i <= logs@.len(),
            wallets@.len() == i,
            hashes@.len() == i,
            forall|j: int| 0 <= j < i ==> is_address_text(#[trigger] logs@[j].wallet_address@),
            forall|j: int| 0 <= j < i ==> #[trigger] wallets@[j]@ == address_bytes(logs@[j].wallet_address@),
            forall|j: int| 0 <= j < i ==> #[trigger] hashes@[j]@ == log_digest(logs@[j].wallet_address@, logs@[j].log_id@),
        decreases logs@.len() - i,
    {
        let log = &logs[i];
        match parse_address(log.wallet_address.as_str()) {
            Some(a) => {
                wallets.push(a);
                hashes.push(hash_log(log));
            },
            None => {
                return Err(SubmissionError::InvalidAddress { index: i });
            },
        }
        i = i + 1;
    }
    let ghost fw = |a: [u8; 20]| a@;
    let ghost fh = |h: [u8; 32]| h@;
    assert(wallets@.map_values(fw) =~= wallet_bytes(logs@));
    assert(hashes@.map_values(fh) =~= log_digests(logs@));
    let mut wpieces = split_into_chunks(&wallets, size);
    let mut hpieces = split_into_chunks(&hashes, size);
    proof {
        lemma_chunked_map(wallets@, size as nat, fw);
        lemma_chunked_map(hashes@, size as nat, fh);
        lemma_chunked_map(logs@, size as nat, |l: InferenceLog| address_bytes(l.wallet_address@));
        lemma_chunked_map(logs@, size as nat, |l: InferenceLog| log_digest(l.wallet_address@, l.log_id@));
        assert(wallet_bytes(logs@) == logs@.map_values(|l: InferenceLog| address_bytes(l.wallet_address@)));
        assert(chunked(wallet_bytes(logs@), size as nat).len() == chunked(logs@, size as nat).len());
        assert(chunked(log_digests(logs@), size as nat).len() == chunked(logs@, size as nat).len());
        assert(chunked(wallets@, size as nat).len() == chunked(logs@, size as nat).len());
        assert(chunked(hashes@, size as nat).len() == chunked(logs@, size as nat).len());
    }
    let ghost wp0 = wpieces@;
    let ghost hp0 = hpieces@;
    let ghost n = wp0.len();
    assert(wp0.map_values(|p: Vec<[u8; 20]>| p@).len() == n);
    assert(hp0.len() == n);
    let total = wpieces.len();
    let mut calls: Vec<ChunkCall> = Vec::new();
    let mut c: usize = 0;
    while wpieces.len() > 0
        invariant
            c <= n,
            n == total,
            n == chunked(logs@, size as nat).len(),
            wp0.len() == n,
            hp0.len() == n,
            wpieces@ == wp0.skip(c as int),
            hpieces@ == hp0.skip(c as int),
            calls@.len() == c,
            wp0.map_values(|p: Vec<[u8; 20]>| p@) == chunked(wallets@, size as nat),
            hp0.map_values(|p: Vec<[u8; 32]>| p@) == chunked(hashes@, size as nat),
            chunked(wallets@.map_values(fw), size as nat) == chunked(wallets@, size as nat).map_values(
                |p: Seq<[u8; 20]>| p.map_values(fw),
            ),
            chunked(hashes@.map_values(fh), size as nat) == chunked(hashes@, size as nat).map_values(
                |p: Seq<[u8; 32]>| p.map_values(fh),
            ),
            forall|a: [u8; 20]| #[trigger] fw(a) == a@,
            forall|h: [u8; 32]| #[trigger] fh(h) == h@,
            wallets@.map_values(fw) == wallet_bytes(logs@),
            hashes@.map_values(fh) == log_digests(logs@),
            forall|k: int|
                0 <= k < c ==> {
                    &&& wallets_view(#[trigger] calls@[k].wallets@) == chunked(wallet_bytes(logs@), size as nat)[k]
                    &&& hashes_view(calls@[k].hashes@) == chunked(log_digests(logs@), size as nat)[k]
                },
        decreases wpieces@.len(),
    {
        let w = wpieces.remove(0);
        let h = hpieces.remove(0);
        proof {
            assert(w == wp0[c as int]);
            assert(h == hp0[c as int]);
            assert(wp0.map_values(|p: Vec<[u8; 20]>| p@)[c as int] == w@);
            assert(hp0.map_values(|p: Vec<[u8; 32]>| p@)[c as int] == h@);
            assert(wallets_view(w@) =~= w@.map_values(fw));
            assert(hashes_view(h@) =~= h@.map_values(fh));
            assert(wpieces@ =~= wp0.skip(c + 1));
            assert(hpieces@ =~= hp0.skip(c + 1));
        }
        calls.push(ChunkCall { wallets: w, hashes: h });
        c = c + 1;
    }
    proof {
        assert(wp0.map_values(|p: Vec<[u8; 20]>| p@).len() == chunked(wallets@, size as nat).len());
    }
    Ok(calls)
}

/// Where a submission stands, and so what the caller does next: query the
/// balance, estimate a chunk's cost, send a chunk with a gas limit, or stop.
#[derive(Debug, Clone, Copy, PartialEq, Eq)]
pub enum Stage {
    AwaitingBalance,
    AwaitingEstimate { chunk: usize },
    AwaitingReceipt { chunk: usize, gas_limit: u128 },
    Finished { error: Option<SubmissionError> },
}

/// How sending a chunk's transaction ended.
#[derive(Debug, Clone, Copy, PartialEq, Eq)]
pub enum SendOutcome {
    /// The transaction was not accepted.
    Rejected,
    /// The transaction was accepted but no receipt came back.
    Unconfirmed,
    /// The transaction was confirmed.
    Confirmed { receipt: ChunkReceipt },
}

/// What the ledger answered to the last request.
#[derive(Debug, Clone, Copy, PartialEq, Eq)]
pub enum Event {
    /// The signer's balance, in wei.
    Balance { wei: u128 },
    /// The cost estimate of the current chunk; `None` if estimation failed.
    Estimated { gas: Option<u64> },
    /// The end of the current chunk's transaction.
    Sent { outcome: SendOutcome },
}

/// The stage after `event` in every stage but the balance check. An event
/// that does not answer the pending request leaves the stage as it is, and a
/// finished submission stays finished.
pub open spec fn next_stage(stage: Stage, chunk_count: nat, event: Event) -> Stage {
    match stage {
        Stage::AwaitingEstimate { chunk } => match event {
            Event::Estimated { gas: None } => Stage::Finished {
                error: Some(SubmissionError::EstimationFailure { chunk }),
            },
            Event::Estimated { gas: Some(g) } => Stage::AwaitingReceipt {
                chunk,
                gas_limit: padded_gas(g) as u128,
            },
            _ => stage,
        },
        Stage::AwaitingReceipt { chunk, gas_limit } => match event {
            Event::Sent { outcome: SendOutcome::Rejected } => Stage::Finished {
                error: Some(SubmissionError::SubmissionFailure { chunk }),
            },
            Event::Sent { outcome: SendOutcome::Unconfirmed } => Stage::Finished {
                error: Some(SubmissionError::ConfirmationTimeout { chunk }),
            },
            Event::Sent { outcome: SendOutcome::Confirmed { .. } } => if chunk + 1 < chunk_count {
                Stage::AwaitingEstimate { chunk: (chunk + 1) as usize }
            } else {
                Stage::Finished { error: None }
            },
            _ => stage,
        },
        _ => stage,
    }
}

/// The stage reached from `stage` after each of `events` in turn, once the
/// balance check is past.
pub open spec fn run(stage: Stage, chunk_count: nat, events: Seq<Event>) -> Stage
    decreases events.len(),
{
    if events.len() == 0 {
        stage
    } else {
        run(next_stage(stage, chunk_count, events[0]), chunk_count, events.drop_first())
    }
}

/// One batch's way to the ledger: a preflight balance check, then each chunk
/// in order estimated, sent with a padded gas limit, and confirmed. The first
/// failure ends the batch; the chunks after it are never tried.
pub struct Submission {
    logs: Vec<InferenceLog>,
    chunk_size: usize,
    single: bool,
    calls: Vec<ChunkCall>,
    stage: Stage,
}

impl Submission {
    pub closed spec fn logs(&self) -> Seq<InferenceLog> {
        self.logs@
    }

    pub closed spec fn chunk_size_spec(&self) -> nat {
        self.chunk_size as nat
    }

    pub closed spec fn is_single_spec(&self) -> bool {
        self.single
    }

    pub closed spec fn calls(&self) -> Seq<ChunkCall> {
        self.calls@
    }

    pub closed spec fn stage_spec(&self) -> Stage {
        self.stage
    }

    pub closed spec fn wf(&self) -> bool {
        &&& self.chunk_size > 0
        &&& match self.stage {
            Stage::AwaitingBalance => self.logs@.len() > 0 && self.calls@.len() == 0,
            Stage::AwaitingEstimate { chunk } => is_plan(self.calls@, self.logs@, self.chunk_size as nat)
                && chunk < self.calls@.len(),
            Stage::AwaitingReceipt { chunk, .. } => is_plan(self.calls@, self.logs@, self.chunk_size as nat)
                && chunk < self.calls@.len(),
            Stage::Finished { .. } => true,
        }
    }

    /// A submission of `logs` in chunks of `chunk_size` records. An empty
    /// batch is finished at once and successfully, without any ledger call.
    pub fn new(logs: Vec<InferenceLog>, chunk_size: usize) -> (s: Submission)
        requires
            chunk_size > 0,
        ensures
            s.wf(),
            s.logs() == logs@,
            s.chunk_size_spec() == chunk_size,
            !s.is_single_spec(),
            logs@.len() == 0 ==> s.stage_spec() == (Stage::Finished { error: None }),
            logs@.len() > 0 ==> s.stage_spec() == Stage::AwaitingBalance,
    {
        let stage = if logs.len() == 0 {
            Stage::Finished { error: None }
        } else {
            Stage::AwaitingBalance
        };
        Submission { logs, chunk_size, single: false, calls: Vec::new(), stage }
    }

    /// A submission of one record through the single-record contract call.
    pub fn single(log: InferenceLog) -> (s: Submission)
        ensures
            s.wf(),
            s.logs() == seq![log],
            s.chunk_size_spec() == 1,
            s.is_single_spec(),
            s.stage_spec() == Stage::AwaitingBalance,
    {
        let mut logs: Vec<InferenceLog> = Vec::new();
        logs.push(log);
        assert(logs@ =~= seq![log]);
        Submission { logs, chunk_size: 1, single: true, calls: Vec::new(), stage: Stage::AwaitingBalance }
    }

    pub fn stage(&self) -> (st: Stage)
        ensures
            st == self.stage_spec(),
    {
        self.stage
    }

    /// Whether the chunks go through the single-record contract call.
    pub fn is_single(&self) -> (b: bool)
        ensures
            b == self.is_single_spec(),
    {
        self.single
    }

    /// Number of chunks planned (zero before the balance check has passed).
    pub fn chunk_count(&self) -> (n: usize)
        ensures
            n == self.calls().len(),
    {
        self.calls.len()
    }

    /// The transaction arguments of the chunk at `index`.
    pub fn chunk(&self, index: usize) -> (c: Option<&ChunkCall>)
        ensures
            index < self.calls().len() ==> c == Some(&self.calls()[index as int]),
            index >= self.calls().len() ==> c is None,
    {
        if index < self.calls.len() {
            Some(&self.calls[index])
        } else {
            None
        }
    }

    /// Takes the ledger's answer to the pending request and moves on.
    ///
    /// At the balance check, a balance below `MIN_BALANCE_WEI` finishes with
    /// `InsufficientResources` and nothing else is asked of the ledger; then
    /// a record whose address does not parse finishes with `InvalidAddress`;
    /// otherwise the batch is planned in chunks and the first chunk is to be
    /// estimated. Past the balance check the stage follows `next_stage`.
    pub fn step(&mut self, event: Event) -> (st: Stage)
        requires
            old(self).wf(),
        ensures
            final(self).wf(),
            st == final(self).stage_spec(),
            final(self).logs() == old(self).logs(),
            final(self).chunk_size_spec() == old(self).chunk_size_spec(),
            final(self).is_single_spec() == old(self).is_single_spec(),
            old(self).stage_spec() != Stage::AwaitingBalance ==> {
                &&& final(self).calls() == old(self).calls()
                &&& st == next_stage(old(self).stage_spec(), old(self).calls().len(), event)
            },
            old(self).stage_spec() == Stage::AwaitingBalance ==> match event {
                Event::Balance { wei } => if wei < MIN_BALANCE_WEI {
                    &&& st == (Stage::Finished {
                        error: Some(SubmissionError::InsufficientResources { balance_wei: wei }),
                    })
                    &&& final(self).calls().len() == 0
                } else if all_addresses_valid(old(self).logs()) {
                    &&& st == (Stage::AwaitingEstimate { chunk: 0 })
                    &&& is_plan(final(self).calls(), old(self).logs(), old(self).chunk_size_spec())
                } else {
                    &&& st matches Stage::Finished {
                        error: Some(SubmissionError::InvalidAddress { index }),
                    } && is_first_invalid(old(self).logs(), index as int)
                    &&& final(self).calls().len() == 0
                },
                _ => *final(self) == *old(self),
            },
    {
        match self.stage {
            Stage::AwaitingBalance => {
                if let Event::Balance { wei } = event {
                    if !has_sufficient_balance(wei) {
                        self.stage = Stage::Finished {
                            error: Some(SubmissionError::InsufficientResources { balance_wei: wei }),
                        };
                    } else {
                        match plan_chunks(&self.logs, self.chunk_size) {
                            Ok(calls) => {
                                proof {
                                    lemma_chunked_nonempty(self.logs@, self.chunk_size as nat);
                                }
                                self.calls = calls;
                                self.stage = Stage::AwaitingEstimate { chunk: 0 };
                            },
                            Err(e) => {
                                self.stage = Stage::Finished { error: Some(e) };
                            },
                        }
                    }
                }
            },
            Stage::AwaitingEstimate { chunk } => {
                if let Event::Estimated { gas } = event {
                    match gas {
                        None => {
                            self.stage = Stage::Finished {
                                error: Some(SubmissionError::EstimationFailure { chunk }),
                            };
                        },
                        Some(g) => {
                            let gas_limit = padded_gas_limit(g);
                            self.stage = Stage::AwaitingReceipt { chunk, gas_limit };
                        },
                    }
                }
            },
            Stage::AwaitingReceipt { chunk, .. } => {
                if let Event::Sent { outcome } = event {
                    match outcome {
                        SendOutcome::Rejected => {
                            self.stage = Stage::Finished {
                                error: Some(SubmissionError::SubmissionFailure { chunk }),
                            };
                        },
                        SendOutcome::Unconfirmed => {
                            self.stage = Stage::Finished {
                                error: Some(SubmissionError::ConfirmationTimeout { chunk }),
                            };
                        },
                        SendOutcome::Confirmed { .. } => {
                            if chunk < self.calls.len() - 1 {
                                self.stage = Stage::AwaitingEstimate { chunk: chunk + 1 };
                            } else {
                                self.stage = Stage::Finished { error: None };
                            }
                        },
                    }
                }
            },
            Stage::Finished { .. } => {},
        }
        self.stage
    }
}

/// A non-empty sequence has at least one chunk.
proof fn lemma_chunked_nonempty<T>(s: Seq<T>, size: nat)
    requires
        s.len() > 0,
    ensures
        chunked(s, size).len() > 0,
{
}

/// Once a submission has finished, with success or with an error, no further
/// answer from the ledger changes it: after a failed chunk no later chunk is
/// estimated or sent.
pub proof fn lemma_finished_is_final(error: Option<SubmissionError>, chunk_count: nat, events: Seq<Event>)
    ensures
        run(Stage::Finished { error }, chunk_count, events) == (Stage::Finished { error }),
    decreases events.len(),
{
    if events.len() > 0 {
        lemma_finished_is_final(error, chunk_count, events.drop_first());
    }
}

/// A chunk whose transaction fails ends the batch with that chunk's error,
/// whatever the ledger answers afterwards; no chunk after it is attempted.
pub proof fn lemma_failed_chunk_aborts_rest(
    chunk: usize,
    gas_limit: u128,
    chunk_count: nat,
    outcome: SendOutcome,
    later: Seq<Event>,
)
    requires
        !(outcome is Confirmed),
    ensures
        ({
            let error = if outcome is Rejected {
                SubmissionError::SubmissionFailure { chunk }
            } else {
                SubmissionError::ConfirmationTimeout { chunk }
            };
            run(
                Stage::AwaitingReceipt { chunk, gas_limit },
                chunk_count,
                seq![Event::Sent { outcome }] + later,
            ) == (Stage::Finished { error: Some(error) })
        }),
{
    let error = if outcome is Rejected {
        SubmissionError::SubmissionFailure { chunk }
    } else {
        SubmissionError::ConfirmationTimeout { chunk }
    };
    let evs = seq![Event::Sent { outcome }] + later;
    assert(evs.drop_first() =~= later);
    lemma_finished_is_final(Some(error), chunk_count, later);
}

/// A batch stopped by a low balance stays stopped: whatever the ledger
/// answers afterwards, no chunk is estimated or sent.
pub proof fn lemma_low_balance_is_final(wei: u128, chunk_count: nat, later: Seq<Event>)
    requires
        wei < MIN_BALANCE_WEI,
    ensures
        run(
            Stage::Finished { error: Some(SubmissionError::InsufficientResources { balance_wei: wei }) },
            chunk_count,
            later,
        ) == (Stage::Finished { error: Some(SubmissionError::InsufficientResources { balance_wei: wei }) }),
{
    lemma_finished_is_final(Some(SubmissionError::InsufficientResources { balance_wei: wei }), chunk_count, later);
}

} // verus!
