use toolbench::catalog::ExtensionOption;
use toolbench::fields::{ExcludeScope, GroupByMode, MatchMode};
use toolbench::history::RecentSearch;
use toolbench::preview::highlighted_line;
use toolbench::results::{
    keep_hits, large_report_warning, FileResultView, LineHit, SearchRunSummary, LARGE_REPORT_WARNING_BYTES,
};
use toolbench::state::{AppState, DropEvent, SettingsSnapshot};
use toolbench::stats::extension_breakdown;
use toolbench::watch::{ensure_index_folder_excluded, needs_rewatch, INDEX_FOLDER_NAME};
use toolbench::wizard::{cli_search, wizard_result, CliOptions, WizardAnswers};

fn opt(ext: &str, category: &str, selected: bool) -> ExtensionOption {
    ExtensionOption { extension: ext.to_string(), category: category.to_string(), is_selected: selected }
}

fn defaults() -> CliOptions {
    CliOptions {
        search_path: None,
        filters: vec![],
        interactive: true,
        output_folder: Some("/out".to_string()),
        output_name: Some("report".to_string()),
        exclude_filters: vec!["draft".to_string()],
        exclude_scope: ExcludeScope::Line,
        mode: None,
        proximity_lines: 4,
        regex: false,
        whole_word: false,
        ocr_scanned_pdfs: true,
        extensions: Some(vec![".pdf".to_string()]),
        exclude_folders: vec!["node_modules".to_string()],
        include_hidden: false,
        group_by: GroupByMode::Created,
        no_parallel: false,
        throttle_limit: Some(8),
        heavy_throttle_limit: None,
        dry_run: false,
        csv: false,
        json: true,
        jsonl: false,
        index: false,
        failure_log: Some("fail.log".to_string()),
        cache_file: None,
    }
}

fn answers() -> WizardAnswers {
    WizardAnswers {
        search_path: "/typed".to_string(),
        filters: vec!["bolt".to_string(), " nut ".to_string(), "  ".to_string(), "ignored".to_string()],
        mode_index: 2,
        proximity_lines: 9,
        regex: false,
        whole_word: true,
        advanced: false,
        exclude_text: "tmp, old".to_string(),
        exclude_scope_index: 1,
        extensions_text: "txt, md".to_string(),
        exclude_folders_text: ".git".to_string(),
        include_hidden: true,
        group_index: 2,
        use_parallel: false,
        dry_run: true,
        export_picks: vec![0, 2],
        index: true,
    }
}

fn empty_state() -> AppState {
    AppState::new(vec![opt(".pdf", "Documents", false)], 4)
}

#[test]
fn wizard_asks_what_the_command_line_left_out() {
    let r = wizard_result(&defaults(), &answers());
    assert!(!r.interactive);
    assert_eq!(r.search_path.as_deref(), Some("/typed"));
    assert_eq!(r.filters, vec!["bolt", " nut "]);
    assert_eq!(r.mode, Some(MatchMode::Proximity));
    assert_eq!(r.proximity_lines, 9);
    assert!(r.whole_word);
    assert!(!r.regex);
    // Declining the advanced step keeps every advanced setting.
    assert_eq!(r.exclude_filters, vec!["draft"]);
    assert_eq!(r.exclude_scope, ExcludeScope::Line);
    assert_eq!(r.extensions, Some(vec![".pdf".to_string()]));
    assert_eq!(r.exclude_folders, vec!["node_modules"]);
    assert!(!r.include_hidden);
    assert_eq!(r.group_by, GroupByMode::Created);
    assert!(!r.dry_run);
    assert!(r.json && !r.csv && !r.jsonl && !r.index);
    assert_eq!(r.output_folder.as_deref(), Some("/out"));
    assert_eq!(r.output_name.as_deref(), Some("report"));
    assert_eq!(r.throttle_limit, Some(8));
    assert_eq!(r.failure_log.as_deref(), Some("fail.log"));
    assert!(r.ocr_scanned_pdfs);
}

#[test]
fn wizard_keeps_what_the_command_line_gave() {
    let mut d = defaults();
    d.search_path = Some("/given".to_string());
    d.filters = vec!["gear".to_string()];
    d.mode = Some(MatchMode::AllInFile);
    let mut a = answers();
    a.regex = true;
    let r = wizard_result(&d, &a);
    assert_eq!(r.search_path.as_deref(), Some("/given"));
    assert_eq!(r.filters, vec!["gear"]);
    assert_eq!(r.mode, Some(MatchMode::AllInFile));
    assert_eq!(r.proximity_lines, 4);
    assert!(r.regex);
    assert!(!r.whole_word);
}

#[test]
fn wizard_advanced_step_takes_the_answers() {
    let mut a = answers();
    a.advanced = true;
    let r = wizard_result(&defaults(), &a);
    assert_eq!(r.exclude_filters, vec!["tmp", "old"]);
    assert_eq!(r.exclude_scope, ExcludeScope::File);
    assert_eq!(r.extensions, Some(vec!["txt".to_string(), "md".to_string()]));
    assert_eq!(r.exclude_folders, vec![".git"]);
    assert!(r.include_hidden);
    assert_eq!(r.group_by, GroupByMode::Ungrouped);
    assert!(r.no_parallel);
    assert!(r.dry_run);
    assert!(r.csv && !r.json && r.jsonl);
    assert!(r.index);
    assert_eq!(r.excluded_folders(), vec![".git", INDEX_FOLDER_NAME]);
    // No exclusions: the scope is not asked; a blank extension answer
    // means the default catalog.
    a.exclude_text = " , ".to_string();
    a.extensions_text = "   ".to_string();
    let r = wizard_result(&defaults(), &a);
    assert!(r.exclude_filters.is_empty());
    assert_eq!(r.exclude_scope, ExcludeScope::Line);
    assert_eq!(r.extensions, None);
}

#[test]
fn index_folder_is_excluded_once() {
    let mut folders = vec!["a".to_string()];
    ensure_index_folder_excluded(&mut folders);
    assert_eq!(folders, vec!["a", ".native-search-index"]);
    ensure_index_folder_excluded(&mut folders);
    assert_eq!(folders, vec!["a", ".native-search-index"]);
    let mut empty: Vec<String> = vec![];
    ensure_index_folder_excluded(&mut empty);
    assert_eq!(empty, vec![".native-search-index"]);
    let d = defaults();
    assert_eq!(d.excluded_folders(), vec!["node_modules"]);
}

#[test]
fn drops_set_the_search_folder() {
    let mut s = empty_state();
    s.search_path = "/start".to_string();
    assert!(s.handle_drop(DropEvent::Hovering, false, None));
    assert_eq!(s.search_path, "/start");
    assert!(!s.handle_drop(DropEvent::HoverCancelled, false, None));
    assert!(!s.handle_drop(DropEvent::Dropped("/data/folder".to_string()), true, Some("/data".to_string())));
    assert_eq!(s.search_path, "/data/folder");
    assert!(!s.handle_drop(DropEvent::Dropped("/data/file.txt".to_string()), false, Some("/data".to_string())));
    assert_eq!(s.search_path, "/data");
    assert!(!s.handle_drop(DropEvent::Dropped("file.txt".to_string()), false, None));
    assert_eq!(s.search_path, "/data");
}

#[test]
fn folder_names_of_slash_paths() {
    let label = |p: &str| RecentSearch { search_path: p.to_string(), filters_text: "f".to_string() }.label();
    assert_eq!(label("/x/y/project/"), "project - f");
    assert_eq!(label("/x/./y/."), "y - f");
    assert_eq!(label("/x/.."), "/x/.. - f");
    assert_eq!(label("/"), "/ - f");
    assert_eq!(label("plain"), "plain - f");
    let view = |p: &str| FileResultView::new(p.to_string(), vec![], false).file_name;
    assert_eq!(view("/d/sub/report.pdf"), "report.pdf");
    assert_eq!(view("/d/sub/"), "sub");
    assert_eq!(view("/d/.."), "/d/..");
}

#[test]
fn extensions_follow_the_last_dot() {
    let results: Vec<FileResultView> = ["/d/x.", "/d/.cfg", "/d/a.b.TXT", "/d/..", "/d/noext"]
        .iter()
        .map(|p| FileResultView::new(p.to_string(), vec![], false))
        .collect();
    let r = extension_breakdown(&results);
    let expected: Vec<(String, usize)> = vec![
        ("(no extension)".to_string(), 3),
        (".".to_string(), 1),
        (".txt".to_string(), 1),
    ];
    assert_eq!(r, expected);
}

#[test]
fn restoring_settings_selects_every_saved_extension_and_keeps_the_rest() {
    let mut s = empty_state();
    s.extension_catalog = vec![opt(".PDF", "Documents", false), opt(".txt", "Text", true), opt(".md", "Text", false)];
    let snap = SettingsSnapshot {
        search_path: String::new(),
        search_paths_extra: vec![],
        output_folder: String::new(),
        output_name: String::new(),
        filters_text: String::new(),
        exclude_filters_text: String::new(),
        exclude_folders_text: String::new(),
        cache_file_path: String::new(),
        selected_extensions: vec![".pdf".to_string(), ".xyz".to_string()],
        options: s.snapshot_settings().options,
    };
    s.apply_settings(&snap);
    let got: Vec<(String, String, bool)> =
        s.extension_catalog.iter().map(|e| (e.extension.clone(), e.category.clone(), e.is_selected)).collect();
    let expected: Vec<(String, String, bool)> = vec![
        (".PDF".to_string(), "Documents".to_string(), true),
        (".txt".to_string(), "Text".to_string(), true),
        (".md".to_string(), "Text".to_string(), false),
        (".xyz".to_string(), "Custom".to_string(), true),
    ];
    assert_eq!(got, expected);
}

#[test]
fn highlighting_an_ascii_line_keeps_its_text() {
    let pieces = highlighted_line("Bolt and NUT, bolt", &["bolt".to_string(), "nut".to_string()]);
    let joined: String = pieces.iter().map(|p| p.text.as_str()).collect();
    assert_eq!(joined, "Bolt and NUT, bolt");
    let marked: Vec<&str> = pieces.iter().filter(|p| p.marked).map(|p| p.text.as_str()).collect();
    assert_eq!(marked, vec!["Bolt", "NUT", "bolt"]);
}

#[test]
fn the_watcher_stays_on_the_same_folder_however_it_is_written() {
    let on = |p: &str| Some(p.to_string());
    assert!(needs_rewatch(&None, "/data"));
    assert!(!needs_rewatch(&on("/data/"), "/data"));
    assert!(!needs_rewatch(&on("/data/./x"), "/data/x"));
    assert!(!needs_rewatch(&on("a//b"), "a/b"));
    assert!(needs_rewatch(&on("./a"), "a"));
    assert!(needs_rewatch(&on("/a"), "a"));
    assert!(needs_rewatch(&on("/a/../b"), "/b"));
}

#[test]
fn large_reports_get_a_warning_with_their_rounded_size() {
    let mib: usize = 1024 * 1024;
    assert_eq!(large_report_warning(LARGE_REPORT_WARNING_BYTES), None);
    assert_eq!(LARGE_REPORT_WARNING_BYTES, 25 * mib);
    assert_eq!(
        large_report_warning(25 * mib + 1).as_deref(),
        Some(" Warning: this report is 25 MB - a browser may be slow to open it. Consider narrowing your filters or search folder.")
    );
    for bytes in [25 * mib + 1, 26 * mib + mib / 2, 27 * mib + mib / 2, 27 * mib + mib / 2 + 1, 40 * mib - 1, 100 * mib] {
        let mb = bytes as f64 / (1024.0 * 1024.0);
        let expected = format!(
            " Warning: this report is {mb:.0} MB - a browser may be slow to open it. Consider narrowing your filters or search folder."
        );
        assert_eq!(large_report_warning(bytes), Some(expected));
    }
    let mut s = empty_state();
    s.results_summary_text = "Searched 1 file(s).".to_string();
    s.note_report_size(1000);
    assert_eq!(s.results_summary_text, "Searched 1 file(s).");
    s.note_report_size(30 * mib);
    assert!(s.results_summary_text.starts_with("Searched 1 file(s). Warning: this report is 30 MB"));
}

#[test]
fn only_files_with_hits_are_shown() {
    let file = |p: &str, n: usize| {
        let hits = (0..n)
            .map(|i| LineHit { line_number: i, matched_filters: vec![], match_line: String::new() })
            .collect();
        FileResultView::new(p.to_string(), hits, false)
    };
    let files = vec![file("/a", 2), file("/b", 0), file("/c", 1)];
    let kept = keep_hits(files, &vec![true, false, true]);
    let names: Vec<&str> = kept.iter().map(|f| f.full_name.as_str()).collect();
    assert_eq!(names, vec!["/a", "/c"]);
    let mut s = empty_state();
    let files = vec![file("/a", 2), file("/b", 0), file("/c", 1)];
    s.show_finished_run(files, &vec![false, false, true], &SearchRunSummary {
        files_searched: 3,
        skipped_too_large: 0,
        skipped_binary: 0,
        skipped_read_error: 0,
        skipped_by_exclude: 0,
        skipped_by_mode: 0,
        skipped_unexpected_error: 0,
        cache_reused: 0,
        enumeration_errors: 0,
        warnings: vec![],
    });
    assert_eq!(s.results.len(), 1);
    assert_eq!(s.results[0].full_name, "/c");
    assert!(s.has_results);
    assert!(s.results_summary_text.starts_with("Searched 3 file(s). 1 file(s) with hits, 1 total hits."));
}

#[test]
fn command_line_options_become_search_settings() {
    let mut d = defaults();
    d.search_path = Some("/data".to_string());
    d.output_folder = None;
    d.extensions = Some(vec!["pdf".to_string(), ".TXT".to_string(), "*".to_string()]);
    d.index = true;
    d.no_parallel = true;
    let r = cli_search(&d, 16, 2);
    assert_eq!(r.search_path, "/data");
    assert_eq!(r.output_folder, "/data");
    assert_eq!(r.output_name.as_deref(), Some("report"));
    assert_eq!(r.match_mode, MatchMode::AnyLine);
    assert_eq!(r.extensions, Some(vec![".pdf".to_string(), ".TXT".to_string(), "*".to_string()]));
    assert_eq!(r.exclude_folders, vec!["node_modules", ".native-search-index"]);
    assert!(!r.parallel);
    assert_eq!(r.throttle_limit, 8);
    assert_eq!(r.heavy_throttle_limit, 2);
    assert_eq!(r.failure_log_path.as_deref(), Some("fail.log"));
    assert_eq!(r.cache_file_path, None);
    assert!(r.export_json && !r.export_csv);
    d.output_folder = Some("/elsewhere".to_string());
    d.mode = Some(MatchMode::Proximity);
    d.index = false;
    let r = cli_search(&d, 16, 2);
    assert_eq!(r.output_folder, "/elsewhere");
    assert_eq!(r.match_mode, MatchMode::Proximity);
    assert_eq!(r.exclude_folders, vec!["node_modules"]);
}
