use toolbench::cli::{
    ends_filter_list, exclude_scope_choice, export_choices, extensions_answer, filter_prompt, group_by_choice,
    match_mode_choice, missing_input_message, required_input, run_maintenance_action, MaintenanceAction,
    MaintenanceFlags, Requirement,
};
use toolbench::fields::{
    exclude_scope_str, group_by_str, match_mode_display, normalize_extension, parse_exclude_scope, parse_group_by,
    parse_match_mode, split_nonempty, ExcludeScope, GroupByMode, MatchMode,
};
use toolbench::palette::{filtered_commands, kept_positions, Command};
use toolbench::preview::{highlighted_line, HighlightPiece};
use toolbench::reamers::{parse_csv_rows, parse_tier, parse_u32, reamer_records, tier_label, AvailabilityTier};
use toolbench::results::FileResultView;
use toolbench::shell::{key_action, KeyAction, KeyInput, ToolId};
use toolbench::stats::{breakdown_of_keys, extension_breakdown, extension_key_of, lex_less};

fn pieces(line: &str, filters: &[&str]) -> Vec<(String, bool)> {
    let fs: Vec<String> = filters.iter().map(|f| f.to_string()).collect();
    highlighted_line(line, &fs).into_iter().map(|p: HighlightPiece| (p.text, p.marked)).collect()
}

fn owned(v: &[(&str, bool)]) -> Vec<(String, bool)> {
    v.iter().map(|(t, m)| (t.to_string(), *m)).collect()
}

#[test]
fn highlighting_marks_every_case_insensitive_occurrence() {
    assert_eq!(
        pieces("Engine and ENGINE oil", &["engine"]),
        owned(&[("Engine", true), (" and ", false), ("ENGINE", true), (" oil", false)])
    );
}

#[test]
fn highlighting_merges_overlapping_and_touching_matches() {
    assert_eq!(pieces("abcdef", &["abc", "bcd"]), owned(&[("abcd", true), ("ef", false)]));
    assert_eq!(pieces("abcdef", &["ab", "cd"]), owned(&[("abcd", true), ("ef", false)]));
    assert_eq!(pieces("aaaa", &["aa"]), owned(&[("aaaa", true)]));
}

#[test]
fn highlighting_without_matches_or_filters_keeps_the_line_plain() {
    assert_eq!(pieces("plain text", &["zzz"]), owned(&[("plain text", false)]));
    assert_eq!(pieces("plain text", &[]), owned(&[("plain text", false)]));
    assert_eq!(pieces("plain text", &[""]), owned(&[("plain text", false)]));
    assert_eq!(pieces("", &["x"]), owned(&[]));
}

#[test]
fn highlighting_handles_multibyte_text() {
    assert_eq!(
        pieces("Größe Maß", &["maß"]),
        owned(&[("Größe ", false), ("Maß", true)])
    );
    assert_eq!(pieces("über", &["Ü"]), owned(&[("ü", true), ("ber", false)]));
}

#[test]
fn highlighting_at_both_ends_of_the_line() {
    assert_eq!(pieces("bolt nut bolt", &["bolt"]), owned(&[("bolt", true), (" nut ", false), ("bolt", true)]));
}

#[test]
fn breakdown_ranks_by_count_then_text_and_keeps_six() {
    let keys: Vec<String> = [".b", ".a", ".b", ".c", ".d", ".e", ".f", ".g", ".a", ".b"]
        .iter()
        .map(|s| s.to_string())
        .collect();
    let r = breakdown_of_keys(&keys);
    let expected: Vec<(String, usize)> = vec![
        (".b".to_string(), 3),
        (".a".to_string(), 2),
        (".c".to_string(), 1),
        (".d".to_string(), 1),
        (".e".to_string(), 1),
        (".f".to_string(), 1),
    ];
    assert_eq!(r, expected);
    assert!(breakdown_of_keys(&vec![]).is_empty());
}

#[test]
fn extension_breakdown_counts_lowercased_extensions() {
    let results = vec![
        FileResultView::new("/d/a.PDF".to_string(), vec![], false),
        FileResultView::new("/d/b.pdf".to_string(), vec![], false),
        FileResultView::new("/d/README".to_string(), vec![], false),
        FileResultView::new("/d/.hidden".to_string(), vec![], false),
        FileResultView::new("/d/c.tar.gz".to_string(), vec![], false),
    ];
    let r = extension_breakdown(&results);
    let expected: Vec<(String, usize)> = vec![
        ("(no extension)".to_string(), 2),
        (".pdf".to_string(), 2),
        (".gz".to_string(), 1),
    ];
    assert_eq!(r, expected);
}

#[test]
fn extension_keys_are_dotted_and_lowercased() {
    assert_eq!(extension_key_of(Some("TXT".to_string())), ".txt");
    assert_eq!(extension_key_of(None), "(no extension)");
}

#[test]
fn text_order_compares_by_code_point_with_prefixes_first() {
    let c = |s: &str| s.chars().collect::<Vec<char>>();
    assert!(lex_less(&c("a"), &c("b")));
    assert!(lex_less(&c("ab"), &c("abc")));
    assert!(!lex_less(&c("abc"), &c("ab")));
    assert!(!lex_less(&c("x"), &c("x")));
    assert!(lex_less(&c("Z"), &c("a")));
}

#[test]
fn palette_filters_commands_case_insensitively() {
    assert_eq!(filtered_commands("").len(), 8);
    assert_eq!(
        filtered_commands("  SEARCH "),
        vec![
            Command::RunSearch,
            Command::CancelSearch,
            Command::BrowseSearchFolder,
            Command::ClearRecentSearches,
            Command::ToggleIndexForFastSearch
        ]
    );
    assert_eq!(filtered_commands("folder"), vec![Command::BrowseSearchFolder, Command::BrowseOutputFolder]);
    assert_eq!(filtered_commands("theme"), vec![Command::ToggleTheme]);
    assert!(filtered_commands("nothing like this").is_empty());
    assert_eq!(Command::RunSearch.label(), "Run Search");
    assert_eq!(Command::all().len(), 8);
    let texts = vec!["alpha - x".to_string(), "beta - y".to_string(), "ALPHA - z".to_string()];
    assert_eq!(kept_positions(&texts, "alpha"), vec![0, 2]);
}

#[test]
fn dropdown_values_round_trip() {
    for m in [MatchMode::AnyLine, MatchMode::AllInFile, MatchMode::Proximity] {
        let key = match m {
            MatchMode::AnyLine => "AnyLine",
            MatchMode::AllInFile => "AllInFile",
            MatchMode::Proximity => "Proximity",
        };
        assert_eq!(parse_match_mode(key), m);
    }
    assert_eq!(match_mode_display(MatchMode::AllInFile), "All in file");
    assert_eq!(parse_match_mode("bogus"), MatchMode::AnyLine);
    assert_eq!(parse_exclude_scope(exclude_scope_str(ExcludeScope::File)), ExcludeScope::File);
    assert_eq!(parse_exclude_scope("bogus"), ExcludeScope::Line);
    assert_eq!(group_by_str(GroupByMode::Ungrouped), "None");
    assert_eq!(parse_group_by("None"), GroupByMode::Ungrouped);
    assert_eq!(parse_group_by("bogus"), GroupByMode::Created);
}

#[test]
fn extensions_flag_items_get_a_leading_dot() {
    assert_eq!(normalize_extension("txt".to_string()), ".txt");
    assert_eq!(normalize_extension(".log".to_string()), ".log");
    assert_eq!(normalize_extension("*".to_string()), "*");
    assert_eq!(normalize_extension(String::new()), ".");
    assert_eq!(split_nonempty(" a ,, b"), vec!["a", "b"]);
}

#[test]
fn maintenance_flags_pick_the_first_action_in_order() {
    let none = MaintenanceFlags { list_failures: false, clear_cache: false, verify_index: false, remove_orphaned: false };
    assert_eq!(run_maintenance_action(none), None);
    let all = MaintenanceFlags { list_failures: true, clear_cache: true, verify_index: true, remove_orphaned: true };
    assert_eq!(run_maintenance_action(all), Some(MaintenanceAction::ListFailures));
    let two = MaintenanceFlags { list_failures: false, clear_cache: false, verify_index: true, remove_orphaned: true };
    assert_eq!(run_maintenance_action(two), Some(MaintenanceAction::VerifyIndex));
    assert_eq!(required_input(MaintenanceAction::ClearCache), Requirement::CacheFile);
    assert_eq!(required_input(MaintenanceAction::RemoveOrphaned), Requirement::SearchFolder);
    assert_eq!(
        missing_input_message(MaintenanceAction::ListFailures),
        "Error: --list-failures requires --failure-log <path>"
    );
}

#[test]
fn wizard_prompts_and_choices() {
    assert_eq!(filter_prompt(0), "Filter text (required)");
    assert_eq!(filter_prompt(2), "Another filter (#3, blank to stop)");
    assert!(ends_filter_list("   "));
    assert!(!ends_filter_list(" x "));
    assert_eq!(match_mode_choice(2), MatchMode::Proximity);
    assert_eq!(exclude_scope_choice(1), ExcludeScope::File);
    assert_eq!(group_by_choice(2), GroupByMode::Ungrouped);
    assert_eq!(extensions_answer("  "), None);
    assert_eq!(extensions_answer("pdf, txt"), Some(vec!["pdf".to_string(), "txt".to_string()]));
    assert_eq!(export_choices(&vec![2, 0]), (true, false, true));
    assert_eq!(export_choices(&vec![]), (false, false, false));
}

#[test]
fn csv_rows_follow_quotes_and_skip_blank_lines() {
    let rows = parse_csv_rows("a,\"b,c\",\"d\"\"e\"\r\n\n,,\nx,y\n");
    let expected: Vec<Vec<String>> = vec![
        vec!["a".to_string(), "b,c".to_string(), "d\"e".to_string()],
        vec!["x".to_string(), "y".to_string()],
    ];
    assert_eq!(rows, expected);
}

#[test]
fn reamer_rows_become_records_after_the_header() {
    let rows = parse_csv_rows(
        "size,nominal,plus,minus,tier,rank,a,b,notes\n#10,0.1935,0.0002,0.0000,preferred,1,,,stock\nshort,row\nA,0.2340,0.0002,0.0000,special,,x,y\n",
    );
    let recs = reamer_records(&rows);
    assert_eq!(recs.len(), 2);
    assert_eq!(recs[0].size_label, "#10");
    assert_eq!(recs[0].availability_tier, AvailabilityTier::Preferred);
    assert_eq!(recs[0].preferred_rank, Some(1));
    assert_eq!(recs[0].notes, "stock");
    assert_eq!(recs[1].availability_tier, AvailabilityTier::Special);
    assert_eq!(recs[1].preferred_rank, None);
    assert_eq!(recs[1].notes, "");
}

#[test]
fn tiers_and_numbers_parse() {
    assert_eq!(parse_tier("preferred"), AvailabilityTier::Preferred);
    assert_eq!(parse_tier("Preferred"), AvailabilityTier::Common);
    assert_eq!(tier_label(AvailabilityTier::Special), "Special");
    assert_eq!(parse_u32("42"), Some(42));
    assert_eq!(parse_u32("+7"), Some(7));
    assert_eq!(parse_u32(""), None);
    assert_eq!(parse_u32("4294967296"), None);
    assert_eq!(parse_u32("4294967295"), Some(4294967295));
    assert_eq!(parse_u32("-1"), None);
}

#[test]
fn highlighted_pieces_put_back_together_give_the_line() {
    let line = "The Bolt, the NUT and the bolt-hole";
    for filters in [vec!["bolt"], vec!["the", "nut"], vec!["t", "o"], vec![], vec!["zzz"]] {
        let joined: String = pieces(line, &filters).into_iter().map(|(t, _)| t).collect();
        assert_eq!(joined, line);
    }
}

#[test]
fn keys_toggle_the_palette_or_move_the_selection() {
    assert_eq!(key_action(KeyInput::KeyK, true, false), KeyAction::TogglePalette);
    assert_eq!(key_action(KeyInput::KeyK, true, true), KeyAction::TogglePalette);
    assert_eq!(key_action(KeyInput::KeyK, false, false), KeyAction::Nothing);
    assert_eq!(key_action(KeyInput::Escape, false, true), KeyAction::ClosePalette);
    assert_eq!(key_action(KeyInput::Escape, false, false), KeyAction::Nothing);
    assert_eq!(key_action(KeyInput::ArrowDown, false, false), KeyAction::SelectNext);
    assert_eq!(key_action(KeyInput::ArrowUp, true, false), KeyAction::SelectPrevious);
    assert_eq!(key_action(KeyInput::Enter, false, false), KeyAction::OpenSelected);
    assert_eq!(key_action(KeyInput::Enter, false, true), KeyAction::Nothing);
    assert_eq!(ToolId::default(), ToolId::Search);
    assert_eq!(ToolId::Bushing.title(), "Bushing Workbench");
    assert_eq!(ToolId::Logs.tagline(), "Parse and chart log files");
}
