use toolbench::catalog::{
    add_custom_extension, apply_selected_extensions, clear_selected_extensions, filtered_extensions,
    selected_extensions, selected_extensions_summary, ExtensionOption,
};
use toolbench::fields::{
    change_extension, number_input, parse_i32, parse_list, report_file_name, sanitize_file_name, ExcludeScope,
    GroupByMode, MatchMode,
};
use toolbench::history::{
    add_extra_search_path, delete_preset, preset_name_to_save, remember_recent_search, remove_extra_search_path, save_preset,
    RecentSearch, SavedPreset,
};
use toolbench::results::{
    merge_run_result, page_bounds, page_count, run_counts, run_summary, FileResultView, LineHit, RunCounts, SearchRunResult,
    SearchRunSummary,
};
use toolbench::state::{AppState, ProgressReport, RunOutcome, SearchOptions, SettingsSnapshot};
use toolbench::watch::{is_own_index_write, needs_rewatch, INDEX_FOLDER_NAME};
use toolbench::panel::{
    empty_state_text, hits_export_name, pager_buttons, pager_caption, search_has_started, shown_page, shows_stat_bars,
    stat_bar_width,
};

fn opt(ext: &str, category: &str, selected: bool) -> ExtensionOption {
    ExtensionOption { extension: ext.to_string(), category: category.to_string(), is_selected: selected }
}

fn summary(files_searched: usize, skipped_binary: usize) -> SearchRunSummary {
    SearchRunSummary {
        files_searched,
        skipped_too_large: 0,
        skipped_binary,
        skipped_read_error: 0,
        skipped_by_exclude: 0,
        skipped_by_mode: 0,
        skipped_unexpected_error: 0,
        cache_reused: 0,
        enumeration_errors: 0,
        warnings: vec![],
    }
}

fn result_for(full_name: &str) -> FileResultView {
    FileResultView::new(full_name.to_string(), vec![], false)
}

fn empty_state() -> AppState {
    AppState {
        search_path: String::new(),
        search_paths_extra: vec![],
        output_folder: String::new(),
        output_name: String::new(),
        filters_text: String::new(),
        exclude_filters_text: String::new(),
        exclude_folders_text: String::new(),
        extension_catalog: vec![],
        extension_filter_text: String::new(),
        native_search_query: String::new(),
        is_running: false,
        is_native_searching: false,
        status_text: "Ready.".to_string(),
        results: vec![],
        results_page: 0,
        selected_result: None,
        has_results: false,
        recent_searches: vec![],
        results_summary_text: String::new(),
        cache_file_path: String::new(),
        options: SearchOptions {
            match_mode: MatchMode::AnyLine,
            proximity_lines: 5,
            use_regex: false,
            whole_word: false,
            exclude_scope: ExcludeScope::Line,
            include_hidden: false,
            group_by: GroupByMode::Created,
            open_report_when_done: false,
            export_csv: false,
            export_json: false,
            parallel: false,
            throttle_limit: 4,
            dry_run: false,
            pdf_timeout_seconds: 15,
            file_timeout_seconds: 30,
            max_retries: 3,
            index_for_fast_search: false,
        },
    }
}

#[test]
fn parse_list_splits_trims_and_drops_empties() {
    assert_eq!(parse_list("apple, banana ,  , cherry"), vec!["apple", "banana", "cherry"]);
    assert_eq!(parse_list(""), Vec::<String>::new());
    assert_eq!(parse_list("   "), Vec::<String>::new());
    assert_eq!(parse_list("single"), vec!["single"]);
}

#[test]
fn sanitize_file_name_replaces_every_windows_invalid_char() {
    assert_eq!(sanitize_file_name(r#"a<b>c:d"e/f\g|h?i*j"#), "a_b_c_d_e_f_g_h_i_j");
    assert_eq!(sanitize_file_name("normal-name_123"), "normal-name_123");
    assert_eq!(sanitize_file_name("tab\tnewline\n"), "tab_newline_");
}

#[test]
fn change_extension_replaces_or_appends() {
    assert_eq!(change_extension("report.html", "csv"), "report.csv");
    assert_eq!(change_extension("path/to/report.html", "json"), "path/to/report.json");
    assert_eq!(change_extension("no_extension", "csv"), "no_extension.csv");
}

#[test]
fn filtered_extensions_matches_extension_or_category_case_insensitively() {
    let catalog = vec![opt(".docx", "Documents", false), opt(".py", "Code", true)];
    assert_eq!(filtered_extensions(&catalog, "").len(), 2);
    assert_eq!(filtered_extensions(&catalog, "DOC").len(), 1);
    assert_eq!(filtered_extensions(&catalog, "code").len(), 1);
    assert_eq!(filtered_extensions(&catalog, "nomatch").len(), 0);
}

#[test]
fn selected_extensions_summary_reports_default_or_explicit_selection() {
    let none_selected = vec![opt(".txt", "Text", false)];
    assert_eq!(selected_extensions_summary(&none_selected), "Using built-in default extension list.");

    let one_selected = vec![opt(".txt", "Text", true)];
    assert_eq!(selected_extensions_summary(&one_selected), "Searching: .txt");
}

#[test]
fn recent_search_label_uses_folder_name_not_full_path() {
    let recent = RecentSearch { search_path: "/x/y/project".to_string(), filters_text: "apple, banana".to_string() };
    assert_eq!(recent.label(), "project - apple, banana");
}

#[test]
fn merge_run_result_sums_counters_and_concatenates_files() {
    let mut acc = SearchRunResult {
        file_results: vec!["a.txt".to_string()],
        summary: summary(3, 1),
        was_dry_run: false,
        dry_run_candidates: None,
    };
    let next = SearchRunResult {
        file_results: vec!["b.txt".to_string()],
        summary: summary(2, 4),
        was_dry_run: false,
        dry_run_candidates: None,
    };

    merge_run_result(&mut acc, next);

    assert_eq!(acc.file_results.len(), 2);
    assert_eq!(acc.summary.files_searched, 5);
    assert_eq!(acc.summary.skipped_binary, 5);
}

#[test]
fn merge_run_result_concatenates_dry_run_candidates() {
    let mut acc: SearchRunResult<String> = SearchRunResult {
        file_results: vec![],
        summary: summary(0, 0),
        was_dry_run: true,
        dry_run_candidates: Some(vec!["a.txt".to_string()]),
    };
    let next: SearchRunResult<String> = SearchRunResult {
        file_results: vec![],
        summary: summary(0, 0),
        was_dry_run: true,
        dry_run_candidates: Some(vec!["b.txt".to_string()]),
    };

    merge_run_result(&mut acc, next);

    assert_eq!(acc.dry_run_candidates.unwrap().len(), 2);
}

#[test]
fn merge_run_result_starts_a_candidate_list_when_the_total_has_none() {
    let mut acc: SearchRunResult<String> = SearchRunResult {
        file_results: vec![],
        summary: summary(0, 0),
        was_dry_run: true,
        dry_run_candidates: None,
    };
    let next: SearchRunResult<String> = SearchRunResult {
        file_results: vec![],
        summary: summary(0, 0),
        was_dry_run: true,
        dry_run_candidates: Some(vec!["b.txt".to_string(), "c.txt".to_string()]),
    };
    merge_run_result(&mut acc, next);
    assert_eq!(acc.dry_run_candidates.unwrap(), vec!["b.txt", "c.txt"]);
}

#[test]
fn report_file_name_keeps_html_names_and_appends_otherwise() {
    assert_eq!(report_file_name(Some("Results.HTML"), "20240101_120000"), "Results.HTML");
    assert_eq!(report_file_name(Some("results"), "20240101_120000"), "results.html");
    assert_eq!(report_file_name(None, "20240101_120000"), "SearchResults_20240101_120000.html");
}

#[test]
fn remembering_searches_keeps_newest_first_without_duplicates_and_at_most_eight() {
    let mut recent: Vec<RecentSearch> = Vec::new();
    for i in 0..10 {
        remember_recent_search(&mut recent, &format!(" /data/{i} "), "engine");
    }
    assert_eq!(recent.len(), 8);
    assert_eq!(recent[0].search_path, "/data/9");
    assert_eq!(recent[7].search_path, "/data/2");
    remember_recent_search(&mut recent, "/data/5", "engine");
    assert_eq!(recent.len(), 8);
    assert_eq!(recent[0].search_path, "/data/5");
    assert_eq!(recent.iter().filter(|r| r.search_path == "/data/5").count(), 1);
    remember_recent_search(&mut recent, "   ", "engine");
    assert_eq!(recent[0].search_path, "/data/5");
    remember_recent_search(&mut recent, "/data/x", "  ");
    assert_eq!(recent[0].search_path, "/data/5");
}

#[test]
fn presets_are_saved_by_name_and_deleted_by_name() {
    let mut presets: Vec<SavedPreset<u32>> = Vec::new();
    save_preset(&mut presets, "a".to_string(), 1);
    save_preset(&mut presets, "b".to_string(), 2);
    save_preset(&mut presets, "a".to_string(), 3);
    assert_eq!(presets.len(), 2);
    assert_eq!(presets[0].name, "a");
    assert_eq!(presets[0].settings, 3);
    delete_preset(&mut presets, "a");
    assert_eq!(presets.len(), 1);
    assert_eq!(presets[0].name, "b");
}

#[test]
fn extra_search_folders_skip_the_primary_and_duplicates() {
    let mut extra: Vec<String> = Vec::new();
    add_extra_search_path(&mut extra, " /main ", "/main".to_string());
    assert!(extra.is_empty());
    add_extra_search_path(&mut extra, "/main", "/other".to_string());
    add_extra_search_path(&mut extra, "/main", "/other".to_string());
    add_extra_search_path(&mut extra, "/main", "/third".to_string());
    assert_eq!(extra, vec!["/other", "/third"]);
    remove_extra_search_path(&mut extra, "/other");
    assert_eq!(extra, vec!["/third"]);
}

#[test]
fn custom_extensions_are_normalized_and_selected() {
    let mut catalog = vec![opt(".pdf", "Documents", false)];
    let mut text = "  PDF ".to_string();
    add_custom_extension(&mut catalog, &mut text);
    assert_eq!(catalog.len(), 1);
    assert!(catalog[0].is_selected);
    assert_eq!(text, "");
    let mut text = "Log".to_string();
    add_custom_extension(&mut catalog, &mut text);
    assert_eq!(catalog.len(), 2);
    assert_eq!(catalog[1].extension, ".log");
    assert_eq!(catalog[1].category, "Custom");
    let mut blank = "   ".to_string();
    add_custom_extension(&mut catalog, &mut blank);
    assert_eq!(catalog.len(), 2);
    assert_eq!(blank, "   ");
}

#[test]
fn a_saved_selection_restores_onto_a_cleared_catalog() {
    let mut catalog = vec![opt(".pdf", "Documents", true), opt(".txt", "Text", false), opt(".py", "Code", true)];
    let saved = selected_extensions(&catalog);
    assert_eq!(saved, vec![".pdf", ".py"]);
    clear_selected_extensions(&mut catalog);
    assert!(catalog.iter().all(|e| !e.is_selected));
    apply_selected_extensions(&mut catalog, &saved);
    let flags: Vec<bool> = catalog.iter().map(|e| e.is_selected).collect();
    assert_eq!(flags, vec![true, false, true]);
}

#[test]
fn pages_hold_fifty_results() {
    assert_eq!(page_count(0), 1);
    assert_eq!(page_count(50), 1);
    assert_eq!(page_count(51), 2);
    assert_eq!(page_bounds(120, 2), (100, 120));
}

#[test]
fn hits_as_text_underlines_the_path_and_lists_each_hit() {
    let hit = LineHit { line_number: 7, matched_filters: vec!["a".to_string(), "b".to_string()], match_line: "x a b".to_string() };
    let r = FileResultView::new("/p/f.txt".to_string(), vec![hit], false);
    assert_eq!(r.file_name, "f.txt");
    assert_eq!(r.hit_count, 1);
    assert_eq!(r.hits_as_text(), "/p/f.txt\n========\n\nLine 7 (matched: a, b):\nx a b\n\n");
}

#[test]
fn run_summary_mentions_unlisted_folders_only_when_there_are_some() {
    let mut c = RunCounts {
        files_searched: 10,
        files_with_hits: 2,
        total_hits: 5,
        skipped_too_large: 1,
        skipped_binary: 0,
        skipped_read_error: 0,
        skipped_unexpected_error: 0,
        enumeration_errors: 0,
    };
    assert_eq!(
        run_summary(&c),
        "Searched 10 file(s). 2 file(s) with hits, 5 total hits. Skipped: 1 too large, 0 binary, 0 unreadable, 0 unexpected errors."
    );
    c.enumeration_errors = 3;
    assert!(run_summary(&c).ends_with(" 3 folder(s)/file(s) couldn't be listed (permissions or a broken link)."));
}

#[test]
fn a_search_can_run_only_with_folder_output_and_filters_and_none_running() {
    let mut s = empty_state();
    assert!(!s.can_run());
    s.search_path = "/data".to_string();
    s.output_folder = "/out".to_string();
    s.filters_text = "  ".to_string();
    assert!(!s.can_run());
    s.filters_text = "engine".to_string();
    assert!(s.can_run());
    s.is_running = true;
    assert!(!s.can_run());
    s.native_search_query = "bolt".to_string();
    assert!(s.can_native_search());
    s.is_native_searching = true;
    assert!(!s.can_native_search());
}

#[test]
fn progress_reports_update_status_and_add_each_hit_file_once() {
    let mut s = empty_state();
    s.apply_progress(ProgressReport {
        is_enumerating: true,
        enumerated_file_count: 12,
        total_files: 0,
        files_completed: 0,
        hits_so_far: 0,
        last_completed: None,
    });
    assert_eq!(s.status_text, "Scanning folders... 12 file(s) found so far");
    s.apply_progress(ProgressReport {
        is_enumerating: true,
        enumerated_file_count: 0,
        total_files: 0,
        files_completed: 0,
        hits_so_far: 0,
        last_completed: None,
    });
    assert_eq!(s.status_text, "Scanning folders...");
    s.apply_progress(ProgressReport {
        is_enumerating: false,
        enumerated_file_count: 0,
        total_files: 4,
        files_completed: 1,
        hits_so_far: 3,
        last_completed: Some((result_for("/d/A.txt"), true)),
    });
    assert_eq!(s.status_text, "1 of 4 file(s) - 3 hit(s) so far");
    assert_eq!(s.results.len(), 1);
    assert!(s.has_results);
    s.apply_progress(ProgressReport {
        is_enumerating: false,
        enumerated_file_count: 0,
        total_files: 4,
        files_completed: 2,
        hits_so_far: 3,
        last_completed: Some((result_for("/D/a.TXT"), true)),
    });
    assert_eq!(s.results.len(), 1);
    s.apply_progress(ProgressReport {
        is_enumerating: false,
        enumerated_file_count: 0,
        total_files: 4,
        files_completed: 3,
        hits_so_far: 3,
        last_completed: Some((result_for("/d/b.txt"), false)),
    });
    assert_eq!(s.results.len(), 1);
    assert_eq!(s.status_text, "3 of 4 file(s) - 3 hit(s) so far");
}

#[test]
fn keyboard_selection_moves_through_the_whole_list_and_turns_pages() {
    let mut s = empty_state();
    s.select_relative(1);
    assert!(s.selected_result.is_none());
    for i in 0..120 {
        s.results.push(result_for(&format!("/d/{i}.txt")));
    }
    s.select_relative(1);
    assert_eq!(s.selected_result.as_ref().unwrap().full_name, "/d/0.txt");
    s.select_relative(60);
    assert_eq!(s.selected_result.as_ref().unwrap().full_name, "/d/60.txt");
    assert_eq!(s.results_page, 1);
    s.select_relative(1000);
    assert_eq!(s.selected_result.as_ref().unwrap().full_name, "/d/119.txt");
    assert_eq!(s.results_page, 2);
    s.select_relative(-1000);
    assert_eq!(s.selected_result.as_ref().unwrap().full_name, "/d/0.txt");
    assert_eq!(s.results_page, 0);
    s.selected_result = None;
    s.select_relative(-1);
    assert_eq!(s.selected_result.as_ref().unwrap().full_name, "/d/119.txt");
}

#[test]
fn runs_start_reset_and_end_with_their_outcome() {
    let mut s = empty_state();
    s.search_path = " /data ".to_string();
    s.filters_text = "engine".to_string();
    s.results.push(result_for("/d/a.txt"));
    s.has_results = true;
    s.begin_run();
    assert!(s.is_running);
    assert!(s.results.is_empty());
    assert!(!s.has_results);
    assert_eq!(s.status_text, "Starting...");
    assert_eq!(s.recent_searches[0].search_path, "/data");
    s.end_run(RunOutcome::Failed("disk gone".to_string()));
    assert!(!s.is_running);
    assert_eq!(s.status_text, "Error: disk gone");
    s.begin_run();
    s.end_run(RunOutcome::Cancelled);
    assert_eq!(s.status_text, "Cancelled.");
    s.begin_run();
    s.show_dry_run(4);
    s.end_run(RunOutcome::Completed);
    assert_eq!(s.status_text, "Dry run: 4 file(s) would be searched. Nothing was read or written.");
    assert_eq!(s.results_summary_text, s.status_text);
}

#[test]
fn finished_runs_show_their_hits_and_summary() {
    let mut s = empty_state();
    let hit = |n: usize| LineHit { line_number: n, matched_filters: vec!["a".to_string()], match_line: "a".to_string() };
    let a = FileResultView::new("/d/a.txt".to_string(), vec![hit(1), hit(4)], false);
    let b = FileResultView::new("/d/b.txt".to_string(), vec![hit(2)], false);
    s.show_run_results(vec![a, b], &summary(3, 1));
    assert!(s.has_results);
    assert_eq!(s.results.len(), 2);
    assert_eq!(
        s.results_summary_text,
        "Searched 3 file(s). 2 file(s) with hits, 3 total hits. Skipped: 0 too large, 1 binary, 0 unreadable, 0 unexpected errors."
    );
    s.show_run_results(vec![], &summary(3, 0));
    assert!(!s.has_results);
    assert!(s.results_summary_text.starts_with("Searched 3 file(s). 0 file(s) with hits, 0 total hits."));
}

#[test]
fn run_counts_come_from_the_files_with_hits() {
    let hit = || LineHit { line_number: 1, matched_filters: vec![], match_line: String::new() };
    let files = vec![
        FileResultView::new("/x/one".to_string(), vec![hit(), hit(), hit()], false),
        FileResultView::new("/x/two".to_string(), vec![hit()], true),
    ];
    let mut sum = summary(10, 2);
    sum.enumeration_errors = 5;
    sum.skipped_too_large = 1;
    let c = run_counts(&files, &sum);
    assert_eq!(c.files_searched, 10);
    assert_eq!(c.files_with_hits, 2);
    assert_eq!(c.total_hits, 4);
    assert_eq!(c.skipped_too_large, 1);
    assert_eq!(c.skipped_binary, 2);
    assert_eq!(c.enumeration_errors, 5);
    let none = run_counts(&vec![], &sum);
    assert_eq!(none.files_with_hits, 0);
    assert_eq!(none.total_hits, 0);
}

#[test]
fn settings_form_becomes_a_request() {
    let mut s = empty_state();
    s.search_path = "  /data ".to_string();
    s.output_folder = " /out".to_string();
    s.output_name = " my:report ".to_string();
    s.filters_text = "a, b,,".to_string();
    s.exclude_folders_text = "node_modules, .git".to_string();
    s.cache_file_path = "   ".to_string();
    let r = s.build_settings();
    assert_eq!(r.search_path, "/data");
    assert_eq!(r.output_folder, "/out");
    assert_eq!(r.output_name.as_deref(), Some("my_report"));
    assert_eq!(r.filters, vec!["a", "b"]);
    assert!(r.exclude_filters.is_empty());
    assert_eq!(r.exclude_folders, vec!["node_modules", ".git", ".native-search-index"]);
    assert!(r.extensions.is_none());
    assert!(r.cache_file_path.is_none());
    s.output_name = "   ".to_string();
    s.cache_file_path = " c.db ".to_string();
    s.extension_catalog = vec![opt(".pdf", "Documents", true)];
    s.options.whole_word = true;
    let r = s.build_settings();
    assert!(r.options.whole_word);
    assert!(r.output_name.is_none());
    assert_eq!(r.cache_file_path.as_deref(), Some("c.db"));
    assert_eq!(r.extensions, Some(vec![".pdf".to_string()]));
}

#[test]
fn saved_settings_restore_the_form_and_the_selection() {
    let mut s = empty_state();
    s.search_path = "/data".to_string();
    s.filters_text = "engine".to_string();
    s.search_paths_extra = vec!["/more".to_string()];
    s.extension_catalog = vec![opt(".pdf", "Documents", true), opt(".txt", "Text", false)];
    s.options.match_mode = MatchMode::Proximity;
    s.options.max_retries = 9;
    s.options.export_csv = true;
    let mut snap: SettingsSnapshot = s.snapshot_settings();
    assert_eq!(snap.selected_extensions, vec![".pdf"]);
    let mut fresh = empty_state();
    fresh.extension_catalog = vec![opt(".pdf", "Documents", false), opt(".txt", "Text", false)];
    fresh.apply_settings(&snap);
    assert_eq!(fresh.search_path, "/data");
    assert_eq!(fresh.filters_text, "engine");
    assert_eq!(fresh.search_paths_extra, vec!["/more"]);
    let flags: Vec<bool> = fresh.extension_catalog.iter().map(|e| e.is_selected).collect();
    assert_eq!(flags, vec![true, false]);
    assert_eq!(fresh.options, s.options);
    // An older settings file without the retry count keeps the current one.
    snap.options.max_retries = None;
    let mut older = empty_state();
    older.apply_settings(&snap);
    assert_eq!(older.options.max_retries, 3);
    assert_eq!(older.options.match_mode, MatchMode::Proximity);
}

#[test]
fn recent_searches_reapply_only_folder_and_filters() {
    let mut s = empty_state();
    s.output_folder = "/out".to_string();
    let recent = RecentSearch { search_path: "/x".to_string(), filters_text: "bolt".to_string() };
    s.apply_recent_search(&recent);
    assert_eq!(s.search_path, "/x");
    assert_eq!(s.filters_text, "bolt");
    assert_eq!(s.output_folder, "/out");
}

#[test]
fn state_edits_of_the_picker_and_folders() {
    let mut s = empty_state();
    s.extension_catalog = vec![opt(".pdf", "Documents", true)];
    s.extension_filter_text = "md".to_string();
    s.add_custom_extension();
    assert_eq!(s.extension_catalog.len(), 2);
    assert_eq!(s.extension_filter_text, "");
    assert_eq!(s.build_selected_extensions(), Some(vec![".pdf".to_string(), ".md".to_string()]));
    s.clear_selected_extensions();
    assert_eq!(s.build_selected_extensions(), None);
    s.search_paths_extra = vec!["/a".to_string(), "/b".to_string()];
    s.remove_extra_search_path("/a");
    assert_eq!(s.search_paths_extra, vec!["/b"]);
}

#[test]
fn a_fresh_form_is_ready_and_cannot_run() {
    let s = AppState::new(vec![opt(".pdf", "Documents", false)], 8);
    assert_eq!(s.options.throttle_limit, 8);
    assert_eq!(s.options.proximity_lines, 5);
    assert_eq!(s.options.max_retries, 3);
    assert_eq!(s.status_text, "Ready.");
    assert_eq!(s.extension_catalog.len(), 1);
    assert!(!s.can_run());
    assert!(!s.can_native_search());
    assert!(s.results.is_empty());
}

#[test]
fn the_watcher_rewatches_only_a_new_folder_and_ignores_its_own_index() {
    assert!(needs_rewatch(&None, "/data"));
    assert!(!needs_rewatch(&Some("/data".to_string()), "/data"));
    assert!(needs_rewatch(&Some("/data".to_string()), "/other"));
    let own = vec![vec!["/".to_string(), "data".to_string(), INDEX_FOLDER_NAME.to_string(), "seg".to_string()]];
    assert!(is_own_index_write(&own));
    let other = vec![vec!["/".to_string(), "data".to_string(), "notes.txt".to_string()]];
    assert!(!is_own_index_write(&other));
    assert!(!is_own_index_write(&vec![]));
}

#[test]
fn adding_the_same_custom_extension_twice_adds_it_once() {
    let mut catalog = vec![opt(".pdf", "Documents", false)];
    let mut text = "md".to_string();
    add_custom_extension(&mut catalog, &mut text);
    let mut again = ".MD".to_string();
    add_custom_extension(&mut catalog, &mut again);
    assert_eq!(catalog.len(), 2);
    assert_eq!(catalog[1].extension, ".md");
    assert!(catalog[1].is_selected);
}

#[test]
fn results_panel_texts_and_pager() {
    assert!(!search_has_started("Ready."));
    assert!(search_has_started("Starting..."));
    assert_eq!(empty_state_text(false).0, "Search anything");
    assert_eq!(empty_state_text(true).0, "No matches");
    assert_eq!(shown_page(5, 120), 2);
    assert_eq!(shown_page(1, 120), 1);
    assert_eq!(shown_page(3, 0), 0);
    assert_eq!(pager_caption(1, 3, 120), "Page 2 of 3 (120 total)");
    assert_eq!(pager_buttons(0, 3), (false, true));
    assert_eq!(pager_buttons(2, 3), (true, false));
    assert_eq!(stat_bar_width(3, 4), 75);
    assert_eq!(stat_bar_width(4, 4), 100);
    assert_eq!(stat_bar_width(2, 0), 200);
    assert!(!shows_stat_bars(1));
    assert!(shows_stat_bars(2));
    assert_eq!(hits_export_name("re:port"), "re_port_hits.txt");
}

#[test]
fn whole_number_fields_read_like_i32_and_respect_their_floor() {
    assert_eq!(parse_i32("42"), Some(42));
    assert_eq!(parse_i32("+7"), Some(7));
    assert_eq!(parse_i32("-12"), Some(-12));
    assert_eq!(parse_i32("-2147483648"), Some(i32::MIN));
    assert_eq!(parse_i32("2147483647"), Some(i32::MAX));
    assert_eq!(parse_i32("2147483648"), None);
    assert_eq!(parse_i32("-2147483649"), None);
    assert_eq!(parse_i32("-"), None);
    assert_eq!(parse_i32("-+3"), None);
    assert_eq!(parse_i32(" 3"), None);
    assert_eq!(parse_i32(""), None);
    assert_eq!(number_input("-5", 0), Some(0));
    assert_eq!(number_input("0", 1), Some(1));
    assert_eq!(number_input("12", 1), Some(12));
    assert_eq!(number_input("x", 1), None);
}

#[test]
fn presets_are_named_by_their_trimmed_name() {
    assert_eq!(preset_name_to_save("  nightly "), Some("nightly".to_string()));
    assert_eq!(preset_name_to_save("   "), None);
    let mut s = empty_state();
    assert!(!s.can_add_custom_extension());
    s.extension_filter_text = " md ".to_string();
    assert!(s.can_add_custom_extension());
}
