use findex::index::{AppState, CachedPath, EntryKind, VolumeCache};
use findex::score::score_filename;
use findex::search::{passed_extension, search_directory, SearchResult};

fn file(path: &str) -> CachedPath {
    CachedPath { file_path: path.to_string(), entry_kind: EntryKind::File }
}

fn directory(path: &str) -> CachedPath {
    CachedPath { file_path: path.to_string(), entry_kind: EntryKind::Directory }
}

fn sample_state() -> AppState {
    let mut cache = VolumeCache::new();
    cache.add("report.pdf".to_string(), vec![file("C:/x/report.pdf")]);
    cache.add("report_final.pdf".to_string(), vec![file("C:/y/report_final.pdf")]);
    cache.add("Reports".to_string(), vec![directory("C:/Reports")]);
    let mut state = AppState::new();
    state.add_volume("C".to_string(), cache);
    state
}

fn run(
    state: &AppState,
    query: &str,
    path: &str,
    extension: &str,
    accept_files: bool,
    accept_directories: bool,
) -> Vec<(bool, String, String)> {
    search_directory(
        state,
        query.to_string(),
        path.to_string(),
        extension.to_string(),
        accept_files,
        accept_directories,
    )
    .into_iter()
    .map(|r| match r {
        SearchResult::File { name, path } => (true, name, path),
        SearchResult::Directory { name, path } => (false, name, path),
    })
    .collect()
}

#[test]
fn exact_stem_match_ranks_first() {
    let state = sample_state();
    let out = run(&state, "report", "C:/anywhere", "", true, true);
    assert_eq!(out.len(), 3);
    assert_eq!(out[0], (true, "report.pdf".to_string(), "C:/x/report.pdf".to_string()));
    let rest: Vec<&str> = out[1..].iter().map(|r| r.1.as_str()).collect();
    assert!(rest.contains(&"Reports"));
    assert!(rest.contains(&"report_final.pdf"));
}

#[test]
fn repeated_query_gives_identical_order() {
    let state = sample_state();
    let first = run(&state, "report", "C", "", true, true);
    let second = run(&state, "report", "C", "", true, true);
    assert_eq!(first, second);
}

#[test]
fn extension_filter_drops_directories_when_not_accepted() {
    let state = sample_state();
    let out = run(&state, "report", "C", ".pdf", true, false);
    assert_eq!(out.len(), 2);
    assert!(out.iter().all(|r| r.0));
    assert!(out.iter().all(|r| r.1.ends_with(".pdf")));
    assert!(out.iter().all(|r| r.1 != "Reports"));
    assert_eq!(out[0].1, "report.pdf");
}

#[test]
fn extension_filter_is_a_literal_suffix() {
    let state = sample_state();
    let with_tail = run(&state, "report", "C", "df", true, false);
    assert_eq!(with_tail.len(), 2);
    let with_bad = run(&state, "report", "C", "pdf.", true, false);
    assert!(with_bad.is_empty());
}

#[test]
fn extension_filter_leaves_directories_untouched() {
    let state = sample_state();
    let out = run(&state, "report", "C", ".pdf", true, true);
    assert!(out.iter().any(|r| !r.0 && r.1 == "Reports"));
}

#[test]
fn files_never_appear_when_not_accepted() {
    let state = sample_state();
    let out = run(&state, "report", "C", "", false, true);
    assert_eq!(out.len(), 1);
    assert_eq!(out[0], (false, "Reports".to_string(), "C:/Reports".to_string()));
}

#[test]
fn both_flags_false_yield_nothing() {
    let state = sample_state();
    let out = run(&state, "report", "C", "", false, false);
    assert!(out.is_empty());
}

#[test]
fn unknown_volume_yields_empty_list() {
    let state = sample_state();
    let out = run(&state, "report", "Z:/somewhere", "", true, true);
    assert!(out.is_empty());
}

#[test]
fn query_is_lowercased_before_matching() {
    let state = sample_state();
    let out = run(&state, "REPORT", "C", "", true, true);
    assert!(!out.is_empty());
    assert_eq!(out[0], (true, "report.pdf".to_string(), "C:/x/report.pdf".to_string()));
}

#[test]
fn empty_query_matches_weakly_and_is_filtered_out() {
    let state = sample_state();
    let out = run(&state, "", "C", "", true, true);
    assert!(out.is_empty());
}

#[test]
fn weak_queries_fall_under_the_threshold() {
    let state = sample_state();
    let out = run(&state, "zzz", "C", "", true, true);
    assert!(out.is_empty());
}

#[test]
fn fuzzy_prefix_still_matches() {
    let state = sample_state();
    let out = run(&state, "repo", "C", "", true, true);
    assert!(out.iter().any(|r| r.0 && r.1 == "report.pdf"));
}

#[test]
fn equal_scores_keep_scan_order() {
    let mut cache = VolumeCache::new();
    cache.add(
        "dup.txt".to_string(),
        vec![file("C:/a/dup.txt"), file("C:/b/dup.txt")],
    );
    let mut state = AppState::new();
    state.add_volume("C".to_string(), cache);
    let out = run(&state, "dup", "C", "", true, true);
    assert_eq!(out.len(), 2);
    assert_eq!(out[0].2, "C:/a/dup.txt");
    assert_eq!(out[1].2, "C:/b/dup.txt");
}

#[test]
fn stem_ignores_only_the_last_suffix() {
    let mut cache = VolumeCache::new();
    cache.add("archive.tar.gz".to_string(), vec![file("C:/archive.tar.gz")]);
    cache.add(".hidden".to_string(), vec![file("C:/.hidden")]);
    let mut state = AppState::new();
    state.add_volume("C".to_string(), cache);
    let tar = run(&state, "archive.tar", "C", "", true, true);
    assert_eq!(tar[0].1, "archive.tar.gz");
    let hidden = run(&state, ".hidden", "C", "", true, true);
    assert_eq!(hidden[0].1, ".hidden");
}

#[test]
fn lookup_volume_finds_known_and_misses_unknown() {
    let state = sample_state();
    assert!(state.lookup_volume("C").is_some());
    assert!(state.lookup_volume("D").is_none());
}

#[test]
fn passed_extension_checks_suffix_or_empty_filter() {
    assert!(passed_extension("a.pdf", ""));
    assert!(passed_extension("a.pdf", ".pdf"));
    assert!(!passed_extension("a.pdf", ".doc"));
    assert!(!passed_extension("f", ".long"));
}

#[test]
fn score_filename_rates_exact_matches_highest() {
    assert_eq!(score_filename("report", "report"), 1000);
    assert_eq!(score_filename("", ""), 1000);
    assert!(score_filename("zzz", "report") < 20);
    assert!(score_filename("report", "repo") >= 20);
}
