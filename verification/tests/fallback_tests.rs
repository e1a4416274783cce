use qltp_transport::fallback_manager::{exhausted_error, FallbackSequence, FallbackStep};
use qltp_transport::transport_type::TransportType;
use std::time::Duration;

fn run(seq: &mut FallbackSequence, mut outcome: impl FnMut(TransportType, usize) -> bool) -> FallbackStep {
    loop {
        match seq.next_step() {
            FallbackStep::Attempt { transport_type, attempt } => {
                let ok = outcome(transport_type, attempt);
                let err = if ok { None } else { Some("Simulated failure".to_string()) };
                seq.record_attempt(ok, err, Duration::from_millis(1));
            }
            FallbackStep::Backoff { .. } => seq.backoff_done(),
            done => return done,
        }
    }
}

#[test]
fn success_on_first_attempt() {
    let mut seq = FallbackSequence::new(vec![TransportType::IoUring, TransportType::Tcp], 3);
    let end = run(&mut seq, |_, _| true);
    assert_eq!(end, FallbackStep::Succeeded(TransportType::IoUring));
    assert_eq!(seq.attempts().len(), 1);
    assert!(seq.attempts()[0].success);
}

#[test]
fn success_after_retry() {
    let mut seq = FallbackSequence::new(vec![TransportType::IoUring, TransportType::Tcp], 3);
    let mut calls = 0;
    let mut backoffs = Vec::new();
    loop {
        match seq.next_step() {
            FallbackStep::Attempt { .. } => {
                calls += 1;
                let ok = calls > 2;
                seq.record_attempt(ok, if ok { None } else { Some("Simulated failure".to_string()) }, Duration::ZERO);
            }
            FallbackStep::Backoff { attempt } => {
                backoffs.push(attempt);
                seq.backoff_done();
            }
            _ => break,
        }
    }
    assert_eq!(seq.next_step(), FallbackStep::Succeeded(TransportType::IoUring));
    let attempts = seq.attempts();
    assert_eq!(attempts.len(), 3);
    assert!(!attempts[0].success);
    assert!(!attempts[1].success);
    assert!(attempts[2].success);
    assert_eq!(backoffs, vec![1, 2]);
    assert_eq!(attempts[1].error.as_deref(), Some("Simulated failure"));
}

#[test]
fn all_backends_fail() {
    let mut seq = FallbackSequence::new(vec![TransportType::Quic, TransportType::Tcp], 2);
    let end = run(&mut seq, |_, _| false);
    assert_eq!(end, FallbackStep::Exhausted);
    let tried: Vec<(TransportType, usize)> = seq.attempts().iter().map(|a| (a.transport_type, a.attempt)).collect();
    assert_eq!(
        tried,
        vec![(TransportType::Quic, 1), (TransportType::Quic, 2), (TransportType::Tcp, 1), (TransportType::Tcp, 2)]
    );
    assert_eq!(
        exhausted_error(2, seq.attempts().len()),
        "All transport backends failed. Tried 2 backends with 4 total attempts"
    );
}

#[test]
fn falls_through_to_second_backend() {
    let mut seq = FallbackSequence::new(vec![TransportType::IoUring, TransportType::Tcp], 2);
    let end = run(&mut seq, |t, _| t == TransportType::Tcp);
    assert_eq!(end, FallbackStep::Succeeded(TransportType::Tcp));
    assert_eq!(seq.attempts().len(), 3);
}

#[test]
fn zero_retries_tries_nothing() {
    let seq = FallbackSequence::new(vec![TransportType::Tcp], 0);
    assert_eq!(seq.next_step(), FallbackStep::Exhausted);
    let empty = FallbackSequence::new(vec![], 3);
    assert_eq!(empty.next_step(), FallbackStep::Exhausted);
    assert!(empty.attempts().is_empty());
}
