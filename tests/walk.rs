use nix_archiver::walker::{CommitStep, MarkOrder, WalkState, FLUSH_INTERVAL};
use nix_archiver::stats::IndexStats;
use nix_archiver::formatting::{attr_namespace, filter_is_specific, format_duration, format_number, format_size};

fn run(history: &[&str], processed: &[String], max: Option<usize>) -> Vec<String> {
    let mut state = WalkState::new(max, 2);
    let mut out = Vec::new();
    for h in history {
        let step = state.on_commit(h.to_string(), processed.iter().any(|p| p == h));
        match step {
            CommitStep::Stop => break,
            CommitStep::Skip | CommitStep::Queue => {}
            CommitStep::Dispatch => {
                let (batch, _) = state.dispatch();
                out.extend(batch);
            }
        }
    }
    out.extend(state.finish());
    out
}

#[test]
fn capped_then_resumed_walk_matches_single_walk() {
    let history = ["c1", "c2", "c3", "c4", "c5"];
    let done = vec!["c2".to_string()];
    let single = run(&history, &done, None);
    let first = run(&history, &done, Some(3));
    let mut marked = done.clone();
    marked.extend(first.iter().cloned());
    let second = run(&history, &marked, None);
    let mut both = first.clone();
    both.extend(second);
    assert_eq!(first, vec!["c1", "c3"]);
    assert_eq!(both, single);
    assert_eq!(single, vec!["c1", "c3", "c4", "c5"]);
}

#[test]
fn skipped_commits_count_toward_the_bound() {
    let mut state = WalkState::new(Some(2), 10);
    assert_eq!(state.on_commit("a".to_string(), true), CommitStep::Skip);
    assert_eq!(state.on_commit("b".to_string(), false), CommitStep::Queue);
    assert_eq!(state.on_commit("c".to_string(), false), CommitStep::Stop);
    assert_eq!(state.skipped, 1);
    assert_eq!(state.finish(), vec!["b".to_string()]);
}

#[test]
fn every_fifth_batch_flushes_before_marking() {
    let mut state = WalkState::new(None, 1);
    let mut orders = Vec::new();
    for i in 0..(2 * FLUSH_INTERVAL) {
        assert_eq!(state.on_commit(format!("c{}", i), false), CommitStep::Dispatch);
        orders.push(state.dispatch().1);
    }
    assert_eq!(orders[3], MarkOrder::MarkNow);
    assert_eq!(orders[4], MarkOrder::FlushThenMark);
    assert_eq!(orders[9], MarkOrder::FlushThenMark);
    assert_eq!(orders.iter().filter(|o| **o == MarkOrder::FlushThenMark).count(), 2);
}

#[test]
fn numbers_get_thousands_separators() {
    assert_eq!(format_number(0), "0");
    assert_eq!(format_number(999), "999");
    assert_eq!(format_number(1000), "1,000");
    assert_eq!(format_number(1234567), "1,234,567");
}

#[test]
fn durations_read_naturally() {
    assert_eq!(format_duration(12_340), "12.3s");
    assert_eq!(format_duration(245_000), "4m 5s");
    assert_eq!(format_duration(3_723_000), "1h 2m 3s");
}

#[test]
fn sizes_pick_a_binary_unit() {
    assert_eq!(format_size(512), "512 B");
    assert_eq!(format_size(2048), "2.0 KiB");
    assert_eq!(format_size(3 * 1024 * 1024 + 262144), "3.25 MiB");
    assert_eq!(format_size(1024 * 1024 * 1024 + 1024 * 1024 * 10), "1.01 GiB");
}

#[test]
fn namespaces_and_filters() {
    assert_eq!(attr_namespace("vscode-extensions.biomejs.biome"), "vscode-extensions");
    assert_eq!(attr_namespace("nodejs"), "(top-level)");
    assert!(!filter_is_specific(None, &None, &None));
    assert!(filter_is_specific(Some(3), &None, &None));
    assert!(filter_is_specific(None, &None, &Some("2024-01-01".to_string())));
}

#[test]
fn stats_summary() {
    let mut s = IndexStats::new();
    s.record_commit(1200, 1000);
    s.record_skip();
    s.record_error();
    s.elapsed_millis = 61_000;
    assert_eq!(
        s.summary(),
        "Commits: 1 processed, 1 skipped, 1 errors | Packages: 1,200 found, 1,000 inserted | Time: 1m 1s"
    );
}
