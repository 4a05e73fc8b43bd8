use watch_enrich::error::AppError;
use watch_enrich::metadata::models::{MediaIds, MediaType, MetadataResult};
use watch_enrich::models::{MediaType as HistMediaType, WatchHistoryItem, WatchStatus};
use watch_enrich::processor::gate::ConcurrencyGate;
use watch_enrich::processor::history_processor::{BatchState, BatchStep, HistoryProcessor};

fn watch_item(title: &str, episode: Option<&str>, date: &str, kind: HistMediaType) -> WatchHistoryItem {
    WatchHistoryItem {
        simkl_id: None,
        tvdb_id: None,
        tmdb_id: None,
        imdb_id: None,
        mal_id: None,
        media_type: kind,
        title: title.to_string(),
        year: None,
        episode: episode.map(|e| e.to_string()),
        watch_status: WatchStatus::Completed,
        date: date.to_string(),
        rating: None,
        memo: None,
    }
}

fn mock_result(title: &str) -> MetadataResult {
    MetadataResult {
        ids: MediaIds {
            simkl: Some(format!("simkl_{}", title)),
            tvdb: Some(format!("tvdb_{}", title)),
            tmdb: Some(format!("tmdb_{}", title)),
            imdb: Some(format!("imdb_{}", title)),
            mal: Some(format!("mal_{}", title)),
        },
        title: title.to_string(),
        year: Some("2020".to_string()),
        media_type: MediaType::Movie,
    }
}

/// Drive a batch with a lookup stub that always succeeds, counting the
/// lookups made; mirrors a run against an always-answering service.
fn run_batch_all_succeed(mut st: BatchState) -> (Result<Vec<watch_enrich::processor::history_processor::ProcessedItem>, AppError>, usize) {
    let mut calls = 0usize;
    loop {
        match st.next_step() {
            BatchStep::Lookup { title, .. } => {
                calls += 1;
                st.lookup_succeeded(mock_result(&title));
            }
            BatchStep::Finished | BatchStep::Failed => break,
        }
    }
    (st.into_result(), calls)
}

#[test]
fn test_deduplicates_tv_episodes() {
    let items = vec![
        watch_item("Show A", Some("S1E1"), "2023-01-01", HistMediaType::Tv),
        watch_item("Show A", Some("S1E2"), "2023-01-02", HistMediaType::Tv),
    ];
    let processor = HistoryProcessor::default();
    let st = processor.begin(items);
    let (result, _) = run_batch_all_succeed(st);
    let processed = result.unwrap();
    assert_eq!(processed.len(), 1);
    assert_eq!(processed[0].date, "2023-01-02");
}

#[test]
fn test_concurrent_processing() {
    let items: Vec<WatchHistoryItem> = (0..10)
        .map(|i| watch_item(&format!("Movie {}", i), None, "2023-01-01", HistMediaType::Movie))
        .collect();
    let processor = HistoryProcessor::default();
    let st = processor.begin(items);
    let (result, calls) = run_batch_all_succeed(st);
    let processed = result.unwrap();
    assert_eq!(processed.len(), 10);
    assert_eq!(calls, 10);
}

#[test]
fn test_retry_logic() {
    let items = vec![watch_item("Movie", None, "2023-01-01", HistMediaType::Movie)];
    let processor = HistoryProcessor::default();
    let mut st = processor.begin(items);
    loop {
        match st.next_step() {
            BatchStep::Lookup { .. } => {
                st.lookup_failed(AppError::Transport("Mock failure".to_string()));
            }
            BatchStep::Finished | BatchStep::Failed => break,
        }
    }
    let result = st.into_result();
    assert!(result.is_err());
}

#[test]
fn retries_exactly_three_times_then_fails() {
    let items = vec![watch_item("Stubborn", None, "2023-01-01", HistMediaType::Movie)];
    let mut st = HistoryProcessor::default().begin(items);

    // first failure: retry after one second
    assert!(matches!(st.next_step(), BatchStep::Lookup { attempt: 0, .. }));
    let b1 = st.lookup_failed(AppError::NoResults);
    assert_eq!(b1, Some(1));

    // second failure: retry after two seconds
    assert!(matches!(st.next_step(), BatchStep::Lookup { attempt: 1, .. }));
    let b2 = st.lookup_failed(AppError::NoResults);
    assert_eq!(b2, Some(2));

    // third failure: the batch fails terminally, naming the title
    assert!(matches!(st.next_step(), BatchStep::Lookup { attempt: 2, .. }));
    let b3 = st.lookup_failed(AppError::NoResults);
    assert_eq!(b3, None);
    assert!(matches!(st.next_step(), BatchStep::Failed));
    match st.into_result() {
        Err(AppError::RetryExhausted { title, cause }) => {
            assert_eq!(title, "Stubborn");
            assert!(matches!(*cause, AppError::NoResults));
        }
        other => panic!("expected RetryExhausted, got {:?}", other.is_ok()),
    }
}

#[test]
fn batch_failure_returns_no_partial_records() {
    // one resolvable movie, then one that always fails: the whole batch
    // fails and no record set is produced
    let items = vec![
        watch_item("Good", None, "2023-01-01", HistMediaType::Movie),
        watch_item("Bad", None, "2023-01-02", HistMediaType::Movie),
    ];
    let mut st = HistoryProcessor::default().begin(items);
    let mut failures = 0;
    loop {
        match st.next_step() {
            BatchStep::Lookup { title, .. } => {
                if title == "Good" {
                    st.lookup_succeeded(mock_result(&title));
                } else {
                    failures += 1;
                    st.lookup_failed(AppError::Transport("down".to_string()));
                }
            }
            BatchStep::Finished | BatchStep::Failed => break,
        }
    }
    assert_eq!(failures, 3);
    assert!(st.into_result().is_err());
}

#[test]
fn tv_kind_without_episode_labels_still_deduplicates() {
    // deduplication keys on the media kind, not on episode labels
    let items = vec![
        watch_item("Bare Show", None, "2023-03-01", HistMediaType::Tv),
        watch_item("Bare Show", None, "2023-03-02", HistMediaType::Tv),
    ];
    let (result, calls) = run_batch_all_succeed(HistoryProcessor::default().begin(items));
    let processed = result.unwrap();
    assert_eq!(processed.len(), 1);
    assert_eq!(calls, 1);
    assert_eq!(processed[0].date, "2023-03-02");
    assert!(matches!(processed[0].media_type, MediaType::Tv));
}

#[test]
fn movie_kind_with_episode_labels_is_never_merged() {
    // a movie-kind event stays a movie, episode label or not
    let items = vec![
        watch_item("Anthology", Some("Part 1"), "2023-04-01", HistMediaType::Movie),
        watch_item("Anthology", Some("Part 2"), "2023-04-02", HistMediaType::Movie),
    ];
    let mut st = HistoryProcessor::default().begin(items);
    let mut kinds = Vec::new();
    loop {
        match st.next_step() {
            BatchStep::Lookup { title, media_type, .. } => {
                kinds.push(media_type);
                st.lookup_succeeded(mock_result(&title));
            }
            BatchStep::Finished | BatchStep::Failed => break,
        }
    }
    assert_eq!(kinds.len(), 2);
    assert!(kinds.iter().all(|k| matches!(k, MediaType::Movie)));
    let processed = st.into_result().unwrap();
    assert_eq!(processed.len(), 2);
    assert!(processed.iter().all(|r| matches!(r.media_type, MediaType::Movie)));
}

#[test]
fn movies_with_equal_titles_are_not_merged() {
    let items = vec![
        watch_item("Twice", None, "2023-01-01", HistMediaType::Movie),
        watch_item("Twice", None, "2023-01-02", HistMediaType::Movie),
        watch_item("Other", None, "2023-01-03", HistMediaType::Movie),
    ];
    let (result, calls) = run_batch_all_succeed(HistoryProcessor::default().begin(items));
    let processed = result.unwrap();
    assert_eq!(processed.len(), 3);
    assert_eq!(calls, 3);
}

#[test]
fn tv_tie_on_date_keeps_last_seen() {
    let items = vec![
        watch_item("Show B", Some("S1E1"), "2023-05-05", HistMediaType::Tv),
        watch_item("Show B", Some("S1E2"), "2023-05-05", HistMediaType::Tv),
    ];
    let (result, _) = run_batch_all_succeed(HistoryProcessor::default().begin(items));
    let processed = result.unwrap();
    assert_eq!(processed.len(), 1);
    assert_eq!(processed[0].episode.as_deref(), Some("S1E2"));
}

#[test]
fn empty_batch_yields_empty_record_set() {
    let (result, calls) = run_batch_all_succeed(HistoryProcessor::default().begin(Vec::new()));
    assert_eq!(result.unwrap().len(), 0);
    assert_eq!(calls, 0);
}

#[test]
fn gate_never_exceeds_capacity() {
    // twenty items asking at once, capacity five: exactly five admissions out
    let mut gate = ConcurrencyGate::new(5);
    let mut granted = 0;
    let mut max_out = 0;
    for _ in 0..20 {
        if gate.try_acquire() {
            granted += 1;
        }
        if gate.current() > max_out {
            max_out = gate.current();
        }
    }
    assert_eq!(granted, 5);
    assert!(max_out <= 5);
    gate.release();
    assert!(gate.try_acquire());
    assert_eq!(gate.current(), 5);
}

#[test]
fn end_to_end_tv_dedup_single_record() {
    // two episodes of one show, one always-succeeding provider stub
    let items = vec![
        watch_item("Show A", Some("S1E1"), "2023-01-01", HistMediaType::Tv),
        watch_item("Show A", Some("S1E2"), "2023-01-02", HistMediaType::Tv),
    ];
    let mut st = HistoryProcessor::default().begin(items);
    let mut looked_up = Vec::new();
    loop {
        match st.next_step() {
            BatchStep::Lookup { title, media_type, .. } => {
                looked_up.push(title.clone());
                assert!(matches!(media_type, MediaType::Tv));
                st.lookup_succeeded(MetadataResult {
                    ids: MediaIds {
                        simkl: Some("X".to_string()),
                        tvdb: None,
                        tmdb: None,
                        imdb: None,
                        mal: None,
                    },
                    title: "Show A".to_string(),
                    year: Some("2020".to_string()),
                    media_type: MediaType::Tv,
                });
            }
            BatchStep::Finished | BatchStep::Failed => break,
        }
    }
    assert_eq!(looked_up, vec!["Show A".to_string()]);
    let processed = st.into_result().unwrap();
    assert_eq!(processed.len(), 1);
    assert_eq!(processed[0].date, "2023-01-02");
    assert_eq!(processed[0].metadata.ids.simkl.as_deref(), Some("X"));
    assert_eq!(processed[0].metadata.year.as_deref(), Some("2020"));
}
