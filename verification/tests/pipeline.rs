use std::io::Write;

use trek::codec::compress;
use trek::fetch::{FetchOutcome, FetchScheduler, Progress};
use trek::sync::{process_outcomes, step, SyncAction, SyncEvent, SyncState};

fn gzip_index(text: &str) -> Vec<u8> {
    let mut encoder =
        flate2::write::GzEncoder::new(Vec::new(), flate2::Compression::default());
    encoder.write_all(text.as_bytes()).unwrap();
    encoder.finish().unwrap()
}

fn urls(n: usize) -> Vec<String> {
    (0..n).map(|i| format!("http://mirror.example/{i}/Packages.gz")).collect()
}

#[test]
fn scheduler_caps_in_flight_transfers() {
    let mut scheduler = FetchScheduler::new(urls(5), 2);
    assert!(scheduler.start_next().is_some());
    assert!(scheduler.start_next().is_some());
    // The cap is reached: nothing more may start until a slot frees.
    assert!(scheduler.start_next().is_none());
    scheduler.complete(FetchOutcome::Success(vec![1, 2, 3]));
    assert!(scheduler.start_next().is_some());
    assert!(scheduler.start_next().is_none());
}

#[test]
fn scheduler_hands_out_sources_in_order() {
    let mut scheduler = FetchScheduler::new(urls(3), 3);
    assert_eq!(scheduler.start_next().as_deref(), Some("http://mirror.example/0/Packages.gz"));
    assert_eq!(scheduler.start_next().as_deref(), Some("http://mirror.example/1/Packages.gz"));
    assert_eq!(scheduler.start_next().as_deref(), Some("http://mirror.example/2/Packages.gz"));
    assert!(scheduler.start_next().is_none());
}

#[test]
fn one_outcome_per_source_with_failures() {
    let k = 4;
    let mut scheduler = FetchScheduler::new(urls(k), 2);
    let mut completed = 0usize;
    while !scheduler.is_finished() {
        let mut batch = Vec::new();
        while let Some(url) = scheduler.start_next() {
            batch.push(url);
        }
        for url in batch {
            // Odd sources fail, even sources succeed; a failure still
            // fills its result slot.
            if completed % 2 == 1 {
                scheduler.complete(FetchOutcome::Failure(url, String::from("unreachable host")));
            } else {
                scheduler.complete(FetchOutcome::Success(vec![0u8; 4]));
            }
            completed += 1;
        }
    }
    let results = scheduler.into_results();
    assert_eq!(results.len(), k);
    let failures = results
        .iter()
        .filter(|r| matches!(r, FetchOutcome::Failure(_, _)))
        .count();
    assert_eq!(failures, 2);
}

#[test]
fn five_sources_under_cap_two_drain_in_three_rounds() {
    let mut scheduler = FetchScheduler::new(urls(5), 2);
    let mut rounds = 0usize;
    while !scheduler.is_finished() {
        rounds += 1;
        let mut batch = Vec::new();
        while let Some(url) = scheduler.start_next() {
            batch.push(url);
        }
        assert!(batch.len() <= 2);
        for url in batch {
            scheduler.complete(FetchOutcome::Failure(url, String::from("timed out")));
        }
    }
    // ⌈5 / 2⌉ rounds, not 5.
    assert_eq!(rounds, 3);
}

#[test]
fn progress_counts_monotonically() {
    let mut progress = Progress::new(0);
    assert_eq!(progress.received, 0);
    progress.record_chunk(10);
    progress.record_chunk(32);
    assert_eq!(progress.received, 42);
    assert_eq!(progress.total, 0);
    let mut near_top = Progress::new(100);
    near_top.record_chunk(u64::MAX - 1);
    near_top.record_chunk(500);
    assert_eq!(near_top.received, u64::MAX);
}

#[test]
fn process_outcomes_isolates_per_source_failures() {
    let good = gzip_index("Package: curl\nVersion: 8.1.0\n");
    let also_good = compress("Package: bash\nVersion: 5.2\nPackage: tar\n");
    let outcomes = vec![
        FetchOutcome::Success(good),
        FetchOutcome::Failure(String::from("http://down.example"), String::from("refused")),
        FetchOutcome::Success(vec![0xde, 0xad, 0xbe, 0xef]),
        FetchOutcome::Success(also_good),
    ];
    let (records, contributed, dropped) = process_outcomes(&outcomes);
    assert_eq!(contributed, 2);
    assert_eq!(dropped, 2);
    // Source order first, parse order within a source.
    assert_eq!(records.len(), 3);
    assert_eq!(records[0].package, "curl");
    assert_eq!(records[1].package, "bash");
    assert_eq!(records[2].package, "tar");
}

#[test]
fn process_outcomes_with_nothing_reachable_yields_no_records() {
    let outcomes = vec![
        FetchOutcome::Failure(String::from("a"), String::from("unreachable")),
        FetchOutcome::Failure(String::from("b"), String::from("unreachable")),
    ];
    let (records, contributed, dropped) = process_outcomes(&outcomes);
    assert!(records.is_empty());
    assert_eq!(contributed, 0);
    assert_eq!(dropped, 2);
}

#[test]
fn happy_path_walks_idle_to_done() {
    let (s1, a1) = step(SyncState::Idle, SyncEvent::Begin { source_count: 2 });
    assert_eq!((s1, a1), (SyncState::Fetching, SyncAction::StartFetch));
    let (s2, a2) = step(s1, SyncEvent::FetchFinished);
    assert_eq!((s2, a2), (SyncState::Parsing, SyncAction::ParseIndexes));
    let (s3, a3) = step(s2, SyncEvent::ParseFinished);
    assert_eq!((s3, a3), (SyncState::Storing, SyncAction::InitializeSchema));
    let (s4, a4) = step(s3, SyncEvent::SchemaReady);
    assert_eq!((s4, a4), (SyncState::Storing, SyncAction::StoreRecords));
    let (s5, a5) = step(s4, SyncEvent::StoreSucceeded);
    assert_eq!((s5, a5), (SyncState::Done, SyncAction::ReportSuccess));
}

#[test]
fn schema_failure_is_fatal_and_orders_no_store() {
    let (state, action) = step(SyncState::Storing, SyncEvent::SchemaFailed);
    assert_eq!(state, SyncState::Failed);
    assert_ne!(action, SyncAction::StoreRecords);
    assert_eq!(action, SyncAction::Discard);
}

#[test]
fn store_failure_is_fatal() {
    let (state, action) = step(SyncState::Storing, SyncEvent::StoreFailed);
    assert_eq!(state, SyncState::Failed);
    assert_eq!(action, SyncAction::Discard);
}

#[test]
fn empty_configuration_fails_before_fetching() {
    let (state, action) = step(SyncState::Idle, SyncEvent::Begin { source_count: 0 });
    assert_eq!(state, SyncState::Failed);
    assert_eq!(action, SyncAction::ReportConfigError);
}
