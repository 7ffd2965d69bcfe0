use icode_cli::frecency::{score_at_least, FrecencyEntry, FrecencyStore, DAY_MS};

fn temp_path() -> std::path::PathBuf {
    std::path::PathBuf::from("icode-frecency-test-unused.json")
}

#[test]
fn test_record_new_entry() {
    let mut store = FrecencyStore::new(temp_path());
    store.record("hello world");
    assert_eq!(store.len(), 1);
    let entry = store.usage_entry("hello world");
    assert_eq!(entry.frequency, 1);
    assert!(entry.last_used > 0);
}

#[test]
fn test_record_duplicates_merge() {
    let mut store = FrecencyStore::new(temp_path());
    store.record("hello world");
    store.record("hello world");
    store.record("hello world");
    assert_eq!(store.len(), 1);
    assert_eq!(store.usage_entry("hello world").frequency, 3);
}

#[test]
fn test_record_empty_text_ignored() {
    let mut store = FrecencyStore::new(temp_path());
    store.record("");
    store.record("   ");
    store.record("\t\n");
    assert!(store.is_empty());
}

#[test]
fn test_suggestions_with_prefix() {
    let mut store = FrecencyStore::new(temp_path());
    store.record("cargo build");
    store.record("cargo test");
    store.record("cargo clippy");
    store.record("git status");
    store.record("git log");
    let results = store.suggestions("cargo", 10);
    assert_eq!(results.len(), 3);
    assert!(results.iter().all(|s| s.to_lowercase().starts_with("cargo")));
    let results = store.suggestions("git", 10);
    assert_eq!(results.len(), 2);
    assert!(results.iter().all(|s| s.to_lowercase().starts_with("git")));
    assert!(store.suggestions("nonexistent", 10).is_empty());
}

#[test]
fn test_suggestions_sorted_by_score() {
    let mut store = FrecencyStore::new(temp_path());
    for _ in 0..5 {
        store.record("cargo test");
    }
    store.record("cargo build");
    store.record("cargo clippy");
    let results = store.suggestions("cargo", 10);
    assert_eq!(results[0], "cargo test");
    assert_eq!(results.len(), 3);
}

#[test]
fn test_top_entries() {
    let mut store = FrecencyStore::new(temp_path());
    for _ in 0..5 {
        store.record("frequent command");
    }
    store.record("rare command");
    let results = store.top_entries(10);
    assert_eq!(results[0], "frequent command");
    assert_eq!(results[1], "rare command");
}

#[test]
fn test_top_entries_respects_limit() {
    let mut store = FrecencyStore::new(temp_path());
    for i in 0..10 {
        store.record(&format!("command {i}"));
    }
    assert_eq!(store.top_entries(3).len(), 3);
}

#[test]
fn test_suggestions_empty_prefix_returns_top() {
    let mut store = FrecencyStore::new(temp_path());
    store.record("alpha");
    for _ in 0..5 {
        store.record("beta");
    }
    store.record("gamma");
    assert_eq!(store.suggestions("", 10)[0], "beta");
}

#[test]
fn test_case_insensitive_prefix_matching() {
    let mut store = FrecencyStore::new(temp_path());
    store.record("Cargo Build");
    store.record("CARGO TEST");
    assert_eq!(store.suggestions("cargo", 10).len(), 2);
    assert_eq!(store.suggestions("CARGO", 10).len(), 2);
    assert_eq!(store.suggestions("CaRgO", 10).len(), 2);
}

#[test]
fn frecency_test_dirty_flag() {
    let mut store = FrecencyStore::new(temp_path());
    assert!(!store.is_dirty());
    store.record("test");
    assert!(store.is_dirty());
    store.mark_saved();
    assert!(!store.is_dirty());
}

#[test]
fn scores_follow_frequency_and_age() {
    let now: u128 = 100 * DAY_MS;
    let e = |f: u32, days_ago: u128| FrecencyEntry { text: String::new(), frequency: f, last_used: now - days_ago * DAY_MS };
    // Today and yesterday weigh the same; three days ago weighs a third.
    assert!(score_at_least(&e(1, 0), &e(1, 1), now) && score_at_least(&e(1, 1), &e(1, 0), now));
    assert!(score_at_least(&e(3, 3), &e(1, 0), now) && score_at_least(&e(1, 0), &e(3, 3), now));
    assert!(!score_at_least(&e(2, 3), &e(1, 0), now));
    // Past a month the weight stops falling.
    assert!(score_at_least(&e(1, 30), &e(1, 90), now) && score_at_least(&e(1, 90), &e(1, 30), now));
    assert!(score_at_least(&e(5, 0), &e(4, 0), now));
}

#[test]
fn timed_records_and_rankings() {
    let mut store = FrecencyStore::new(temp_path());
    store.record_at("  old  ", 0);
    store.record_at("old", 0);
    store.record_at("new", 40 * DAY_MS);
    assert_eq!(store.usage_entry("old").frequency, 2);
    assert_eq!(store.usage_entry("missing").frequency, 0);
    assert_eq!(store.top_entries_at(10, 40 * DAY_MS), vec!["new".to_string(), "old".to_string()]);
    assert_eq!(store.suggestions_at("n", 10, 40 * DAY_MS), vec!["new".to_string()]);
}

#[test]
fn saved_entries_load_back_unchanged() {
    let now: u128 = 100 * DAY_MS;
    let mut store = FrecencyStore::new(temp_path());
    store.record_at("alpha", now - 3 * DAY_MS);
    store.record_at("beta", now);
    store.record_at("beta", now);
    store.record_at("gamma", now - 40 * DAY_MS);
    let listed = store.top_entries_at(store.len(), now);
    assert_eq!(listed, vec!["beta", "alpha", "gamma"]);
    let saved: Vec<FrecencyEntry> = listed.iter().map(|t| store.usage_entry(t)).collect();
    let loaded = FrecencyStore::from_entries(temp_path(), saved);
    assert_eq!(loaded.len(), 3);
    assert!(!loaded.is_dirty());
    for t in ["alpha", "beta", "gamma"] {
        let a = store.usage_entry(t);
        let b = loaded.usage_entry(t);
        assert_eq!((a.text, a.frequency, a.last_used), (b.text, b.frequency, b.last_used));
    }
    assert_eq!(loaded.top_entries_at(3, now), vec!["beta", "alpha", "gamma"]);
}

#[test]
fn store_keeps_its_file() {
    let path = std::path::PathBuf::from("some/dir/frecency.json");
    let mut store = FrecencyStore::new(path.clone());
    assert_eq!(store.path(), &path);
    store.record_at("x", 5);
    store.mark_saved();
    assert_eq!(store.path(), &path);
    let loaded = FrecencyStore::from_entries(path.clone(), Vec::new());
    assert_eq!(loaded.path(), &path);
}
