use inference_logs::ledger::{Event, Stage, Submission};
use inference_logs::models::InferenceLog;
use inference_logs::queue::BoundedQueue;
use inference_logs::scheduler::FlushScheduler;

fn record(n: usize) -> InferenceLog {
    InferenceLog {
        wallet_address: format!("0x{:040x}", n),
        log_id: format!("log-{}", n),
        processed: None,
        timestamp: None,
    }
}

fn ids(logs: &[InferenceLog]) -> Vec<String> {
    logs.iter().map(|l| l.log_id.clone()).collect()
}

#[test]
fn queue_never_exceeds_capacity() {
    let mut q = BoundedQueue::new(3);
    for n in 0..10 {
        q.enqueue(record(n));
        assert!(q.len() <= 3);
    }
    assert_eq!(q.len(), 3);
}

#[test]
fn full_queue_evicts_oldest_and_appends_newest() {
    let mut q = BoundedQueue::new(2);
    assert!(q.enqueue(record(1)).is_none());
    assert!(q.enqueue(record(2)).is_none());
    let dropped = q.enqueue(record(3)).expect("oldest record is dropped");
    assert_eq!(dropped.log_id, "log-1");
    let batch = q.drain_all();
    assert_eq!(ids(&batch), vec!["log-2", "log-3"]);
    assert!(q.is_empty());
}

#[test]
fn zero_capacity_queue_drops_every_record() {
    let mut q = BoundedQueue::new(0);
    let dropped = q.enqueue(record(7)).expect("the record itself is dropped");
    assert_eq!(dropped.log_id, "log-7");
    assert_eq!(q.len(), 0);
}

#[test]
fn drain_empties_queue_in_arrival_order() {
    let mut q = BoundedQueue::new(10);
    for n in 0..4 {
        q.enqueue(record(n));
    }
    let batch = q.drain_all();
    assert_eq!(ids(&batch), vec!["log-0", "log-1", "log-2", "log-3"]);
    assert!(q.drain_all().is_empty());
}

#[test]
fn size_trigger_flushes_within_the_same_enqueue() {
    let mut s = FlushScheduler::new(100, 3, 600, 0);
    assert!(s.enqueue(record(1), 1).batch.is_none());
    assert!(s.enqueue(record(2), 2).batch.is_none());
    let out = s.enqueue(record(3), 3);
    let batch = out.batch.expect("third record reaches the batch size");
    assert_eq!(ids(&batch), vec!["log-1", "log-2", "log-3"]);
    assert_eq!(s.len(), 0);
    assert_eq!(s.last_flush_time(), 3);
}

#[test]
fn timer_flush_waits_for_timeout() {
    let mut s = FlushScheduler::new(100, 500, 600, 0);
    s.enqueue(record(1), 10);
    assert!(s.flush(false, 599).is_none());
    assert_eq!(s.len(), 1);
    let batch = s.flush(false, 600).expect("timeout has passed");
    assert_eq!(batch.len(), 1);
    assert_eq!(s.last_flush_time(), 600);
}

#[test]
fn flush_of_empty_queue_is_a_no_op() {
    let mut s = FlushScheduler::new(100, 500, 600, 0);
    assert!(s.flush(true, 1000).is_none());
    assert_eq!(s.last_flush_time(), 0);
}

#[test]
fn forced_flush_ignores_timeout() {
    let mut s = FlushScheduler::new(100, 500, 600, 0);
    s.enqueue(record(1), 1);
    let batch = s.flush(true, 2).expect("forced");
    assert_eq!(batch.len(), 1);
}

#[test]
fn clock_running_backwards_counts_as_no_time_elapsed() {
    let mut s = FlushScheduler::new(100, 500, 600, 1000);
    s.enqueue(record(1), 1000);
    assert!(s.flush(false, 5).is_none());
    let mut z = FlushScheduler::new(100, 500, 0, 1000);
    z.enqueue(record(1), 1000);
    assert!(z.flush(false, 5).is_some());
}

#[test]
fn drains_partition_the_ingestion_sequence() {
    let mut s = FlushScheduler::new(3, 4, 600, 0);
    let mut drained: Vec<InferenceLog> = Vec::new();
    let mut dropped: Vec<InferenceLog> = Vec::new();
    for n in 0..10 {
        let out = s.enqueue(record(n), n as u64);
        if let Some(d) = out.dropped {
            dropped.push(d);
        }
        if let Some(b) = out.batch {
            drained.extend(b);
        }
        if n == 4 {
            drained.extend(s.flush(true, 4).unwrap());
        }
    }
    let pending = s.flush(true, 100).unwrap_or_default();
    let mut seen: Vec<String> = ids(&drained);
    seen.extend(ids(&dropped));
    seen.extend(ids(&pending));
    seen.sort();
    let mut all: Vec<String> = (0..10).map(|n| format!("log-{}", n)).collect();
    all.sort();
    assert_eq!(seen, all);
    // drained records keep their arrival order
    let positions: Vec<usize> = drained.iter().map(|l| l.log_id[4..].parse().unwrap()).collect();
    assert!(positions.windows(2).all(|w| w[0] < w[1]));
}

#[test]
fn timer_flush_submits_three_records_as_one_chunk() {
    let mut s = FlushScheduler::new(10000, 500, 600, 0);
    for n in 0..3 {
        assert!(s.enqueue(record(n), 1).batch.is_none());
    }
    assert!(s.flush(false, 300).is_none());
    let batch = s.flush(false, 601).expect("timer flush drains");
    assert_eq!(batch.len(), 3);
    let mut sub = Submission::new(batch, 500);
    assert_eq!(sub.stage(), Stage::AwaitingBalance);
    let st = sub.step(Event::Balance { wei: 1_000_000_000_000_000 });
    assert_eq!(st, Stage::AwaitingEstimate { chunk: 0 });
    assert_eq!(sub.chunk_count(), 1);
    assert_eq!(sub.chunk(0).unwrap().wallets.len(), 3);
}
