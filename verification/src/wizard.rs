//! The command line's interactive wizard: from the options given on the
//! command line and the answers to its prompts, the options a search runs
//! with. A folder, filters or a match mode given on the command line are
//! kept and not asked for; the other settings are asked with the given
//! values as defaults, the advanced ones only when the user opts in; and
//! the settings a command-line search then runs with.

use vstd::prelude::*;
use crate::cli::{exclude_scope_choice, export_choices, extensions_answer, group_by_choice, match_mode_choice};
use crate::fields::{
    list_of, normalize_extension, normalized_extension, parse_list, ExcludeScope, GroupByMode, MatchMode,
};
use crate::results::copy_strings;
use crate::text::{trim, trim_str};
use crate::watch::{ensure_index_folder_excluded, with_index_folder};

verus! {

/// The search options of the command line (the file-size limit, a
/// floating-point value, is handled beside them).
#[derive(Debug)]
pub struct CliOptions {
    pub search_path: Option<String>,
    pub filters: Vec<String>,
    pub interactive: bool,
    pub output_folder: Option<String>,
    pub output_name: Option<String>,
    pub exclude_filters: Vec<String>,
    pub exclude_scope: ExcludeScope,
    /// The match mode, when one was given (any line applies otherwise).
    pub mode: Option<MatchMode>,
    pub proximity_lines: i32,
    pub regex: bool,
    pub whole_word: bool,
    pub ocr_scanned_pdfs: bool,
    pub extensions: Option<Vec<String>>,
    pub exclude_folders: Vec<String>,
    pub include_hidden: bool,
    pub group_by: GroupByMode,
    pub no_parallel: bool,
    pub throttle_limit: Option<i32>,
    pub heavy_throttle_limit: Option<i32>,
    pub dry_run: bool,
    pub csv: bool,
    pub json: bool,
    pub jsonl: bool,
    pub index: bool,
    pub failure_log: Option<String>,
    pub cache_file: Option<String>,
}

impl CliOptions {
    /// The folders a command-line search leaves out: the given ones, and,
    /// when the run also builds the fast re-search index, the index folder
    /// (see [`with_index_folder`]).
    pub fn excluded_folders(&self) -> (r: Vec<String>)
        ensures
            r.deep_view() == (if self.index {
                with_index_folder(self.exclude_folders.deep_view())
            } else {
                self.exclude_folders.deep_view()
            }),
    {
        let mut folders = copy_strings(&self.exclude_folders);
        if self.index {
            ensure_index_folder_excluded(&mut folders);
        }
        folders
    }
}

/// The answers given to the wizard's prompts; an answer to a prompt that
/// is not shown is not read.
#[derive(Debug)]
pub struct WizardAnswers {
    /// The folder typed when none was given.
    pub search_path: String,
    /// The filters typed one by one when none were given; a blank one ends
    /// the list.
    pub filters: Vec<String>,
    /// The position of the chosen match mode (any line, all in file,
    /// proximity), asked when none was given.
    pub mode_index: usize,
    /// Asked when the match mode is proximity.
    pub proximity_lines: i32,
    pub regex: bool,
    /// Asked when filters are not regular expressions.
    pub whole_word: bool,
    /// Whether the advanced settings are configured.
    pub advanced: bool,
    pub exclude_text: String,
    /// The position of the exclude scope (line, file), asked when there
    /// are exclusions.
    pub exclude_scope_index: usize,
    pub extensions_text: String,
    pub exclude_folders_text: String,
    pub include_hidden: bool,
    /// The position of the grouping (created, modified, none).
    pub group_index: usize,
    pub use_parallel: bool,
    pub dry_run: bool,
    /// The positions of the ticked export formats (CSV, JSON, JSON Lines).
    pub export_picks: Vec<usize>,
    pub index: bool,
}

/// The filters typed before the first blank one (trimmed to nothing).
pub open spec fn entries_before_blank(s: Seq<Seq<char>>) -> Seq<Seq<char>>
    decreases s.len(),
{
    if s.len() == 0 || trim(s[0]).len() == 0 {
        Seq::empty()
    } else {
        seq![s[0]] + entries_before_blank(s.drop_first())
    }
}

/// The match mode chosen at a position of the wizard's list.
pub open spec fn mode_at(index: usize) -> MatchMode {
    if index == 0 {
        MatchMode::AnyLine
    } else if index == 1 {
        MatchMode::AllInFile
    } else {
        MatchMode::Proximity
    }
}

/// The grouping chosen at a position of the wizard's list.
pub open spec fn group_at(index: usize) -> GroupByMode {
    if index == 0 {
        GroupByMode::Created
    } else if index == 1 {
        GroupByMode::Modified
    } else {
        GroupByMode::Ungrouped
    }
}

/// Optional text as optional characters.
pub open spec fn opt_text(o: Option<String>) -> Option<Seq<char>> {
    match o {
        Some(s) => Some(s@),
        None => None,
    }
}

/// An optional list of strings as optional character sequences.
pub open spec fn opt_list(o: Option<Vec<String>>) -> Option<Seq<Seq<char>>> {
    match o {
        Some(v) => Some(v.deep_view()),
        None => None,
    }
}

fn copy_text(o: &Option<String>) -> (r: Option<String>)
    ensures
        opt_text(r) == opt_text(*o),
{
    match o {
        Some(s) => Some(s.clone()),
        None => None,
    }
}

fn copy_list(o: &Option<Vec<String>>) -> (r: Option<Vec<String>>)
    ensures
        opt_list(r) == opt_list(*o),
{
    match o {
        Some(v) => Some(copy_strings(v)),
        None => None,
    }
}

fn filters_before_blank(entries: &Vec<String>) -> (r: Vec<String>)
    ensures
        r.deep_view() == entries_before_blank(entries.deep_view()),
{
    let ghost all = entries.deep_view();
    let mut out: Vec<String> = Vec::new();
    let mut i: usize = 0;
    assert(all.skip(0) =~= all);
    while i < entries.len() && trim_str(entries[i].as_str()).len() > 0
        invariant
            i <= entries.len(),
            all == entries.deep_view(),
            entries_before_blank(all) == out.deep_view() + entries_before_blank(all.skip(i as int)),
        decreases entries.len() - i,
    {
        let ghost before = out.deep_view();
        let ghost rest = all.skip(i as int);
        assert(rest[0] == all[i as int]);
        assert(rest.drop_first() =~= all.skip(i + 1));
        out.push(entries[i].clone());
        assert(out.deep_view() =~= before.push(all[i as int]));
        assert(before + entries_before_blank(rest) =~= out.deep_view() + entries_before_blank(
            all.skip(i + 1),
        ));
        i = i + 1;
    }
    proof {
        let rest = all.skip(i as int);
        if i < entries.len() {
            assert(rest[0] == all[i as int]);
        }
        assert(entries_before_blank(rest) =~= Seq::<Seq<char>>::empty());
        assert(out.deep_view() + Seq::<Seq<char>>::empty() =~= out.deep_view());
    }
    out
}

/// The options a search runs with after the wizard.
///
/// A given folder, filters or match mode are kept; otherwise the typed
/// folder, the typed filters before the first blank one, and the chosen
/// mode are used. The proximity is asked for the proximity mode; whole-word
/// matching is asked, and otherwise off, when filters are not regular
/// expressions. The advanced settings take their answers only when the user
/// opts in: exclusions and folder exclusions as comma-separated lists, the
/// exclude scope when there are exclusions, extensions (blank for the
/// default catalog), hidden files, grouping, parallel processing, dry run,
/// the three export formats and indexing. Output folder and name, OCR,
/// throttle limits, failure log and cache file are kept; the result is not
/// interactive.
pub fn wizard_result(defaults: &CliOptions, answers: &WizardAnswers) -> (r: CliOptions)
    requires
        defaults.mode is None ==> answers.mode_index < 3,
        answers.advanced ==> answers.exclude_scope_index < 2 && answers.group_index < 3 && forall|i: int|
            0 <= i < answers.export_picks.len() ==> answers.export_picks@[i] < 3,
    ensures
        !r.interactive,
        defaults.search_path matches Some(p) ==> opt_text(r.search_path) == Some(p@),
        defaults.search_path is None ==> opt_text(r.search_path) == Some(answers.search_path@),
        defaults.filters.len() > 0 ==> r.filters.deep_view() == defaults.filters.deep_view(),
        defaults.filters.len() == 0 ==> r.filters.deep_view() == entries_before_blank(
            answers.filters.deep_view(),
        ),
        r.mode == Some(
            match defaults.mode {
                Some(m) => m,
                None => mode_at(answers.mode_index),
            },
        ),
        r.proximity_lines == (if r.mode == Some(MatchMode::Proximity) {
            answers.proximity_lines
        } else {
            defaults.proximity_lines
        }),
        r.regex == answers.regex,
        r.whole_word == (!answers.regex && answers.whole_word),
        r.regex ==> !r.whole_word,
        opt_text(r.output_folder) == opt_text(defaults.output_folder),
        opt_text(r.output_name) == opt_text(defaults.output_name),
        r.ocr_scanned_pdfs == defaults.ocr_scanned_pdfs,
        r.throttle_limit == defaults.throttle_limit,
        r.heavy_throttle_limit == defaults.heavy_throttle_limit,
        opt_text(r.failure_log) == opt_text(defaults.failure_log),
        opt_text(r.cache_file) == opt_text(defaults.cache_file),
        !answers.advanced ==> {
            &&& r.exclude_filters.deep_view() == defaults.exclude_filters.deep_view()
            &&& r.exclude_scope == defaults.exclude_scope
            &&& opt_list(r.extensions) == opt_list(defaults.extensions)
            &&& r.exclude_folders.deep_view() == defaults.exclude_folders.deep_view()
            &&& r.include_hidden == defaults.include_hidden
            &&& r.group_by == defaults.group_by
            &&& r.no_parallel == defaults.no_parallel
            &&& r.dry_run == defaults.dry_run
            &&& r.csv == defaults.csv
            &&& r.json == defaults.json
            &&& r.jsonl == defaults.jsonl
            &&& r.index == defaults.index
        },
        answers.advanced ==> {
            &&& r.exclude_filters.deep_view() == list_of(answers.exclude_text@)
            &&& r.exclude_scope == (if list_of(answers.exclude_text@).len() > 0 {
                if answers.exclude_scope_index == 0 {
                    ExcludeScope::Line
                } else {
                    ExcludeScope::File
                }
            } else {
                defaults.exclude_scope
            })
            &&& trim(answers.extensions_text@).len() == 0 ==> r.extensions is None
            &&& trim(answers.extensions_text@).len() > 0 ==> opt_list(r.extensions) == Some(
                list_of(answers.extensions_text@),
            )
            &&& r.exclude_folders.deep_view() == list_of(answers.exclude_folders_text@)
            &&& r.include_hidden == answers.include_hidden
            &&& r.group_by == group_at(answers.group_index)
            &&& r.no_parallel == !answers.use_parallel
            &&& r.dry_run == answers.dry_run
            &&& r.csv == answers.export_picks@.contains(0usize)
            &&& r.json == answers.export_picks@.contains(1usize)
            &&& r.jsonl == answers.export_picks@.contains(2usize)
            &&& r.index == answers.index
        },
{
    let search_path = match &defaults.search_path {
        Some(p) => Some(p.clone()),
        None => Some(answers.search_path.clone()),
    };
    let filters = if defaults.filters.len() > 0 {
        copy_strings(&defaults.filters)
    } else {
        filters_before_blank(&answers.filters)
    };
    let mode = match defaults.mode {
        Some(m) => m,
        None => match_mode_choice(answers.mode_index),
    };
    let proximity_lines = if mode == MatchMode::Proximity {
        answers.proximity_lines
    } else {
        defaults.proximity_lines
    };
    let whole_word = if !answers.regex {
        answers.whole_word
    } else {
        false
    };
    let mut exclude_filters = copy_strings(&defaults.exclude_filters);
    let mut exclude_scope = defaults.exclude_scope;
    let mut extensions = copy_list(&defaults.extensions);
    let mut exclude_folders = copy_strings(&defaults.exclude_folders);
    let mut include_hidden = defaults.include_hidden;
    let mut group_by = defaults.group_by;
    let mut no_parallel = defaults.no_parallel;
    let mut dry_run = defaults.dry_run;
    let mut csv = defaults.csv;
    let mut json = defaults.json;
    let mut jsonl = defaults.jsonl;
    let mut index = defaults.index;
    if answers.advanced {
        exclude_filters = parse_list(answers.exclude_text.as_str());
        if exclude_filters.len() > 0 {
            exclude_scope = exclude_scope_choice(answers.exclude_scope_index);
        }
        extensions = extensions_answer(answers.extensions_text.as_str());
        exclude_folders = parse_list(answers.exclude_folders_text.as_str());
        include_hidden = answers.include_hidden;
        group_by = group_by_choice(answers.group_index);
        no_parallel = !answers.use_parallel;
        dry_run = answers.dry_run;
        let picked = export_choices(&answers.export_picks);
        csv = picked.0;
        json = picked.1;
        jsonl = picked.2;
        index = answers.index;
    }
    CliOptions {
        search_path,
        filters,
        interactive: false,
        output_folder: copy_text(&defaults.output_folder),
        output_name: copy_text(&defaults.output_name),
        exclude_filters,
        exclude_scope,
        mode: Some(mode),
        proximity_lines,
        regex: answers.regex,
        whole_word,
        ocr_scanned_pdfs: defaults.ocr_scanned_pdfs,
        extensions,
        exclude_folders,
        include_hidden,
        group_by,
        no_parallel,
        throttle_limit: defaults.throttle_limit,
        heavy_throttle_limit: defaults.heavy_throttle_limit,
        dry_run,
        csv,
        json,
        jsonl,
        index,
        failure_log: copy_text(&defaults.failure_log),
        cache_file: copy_text(&defaults.cache_file),
    }
}

/// The settings a command-line search runs with (the file-size limit, a
/// floating-point value, is handled beside them).
#[derive(Debug)]
pub struct CliSearch {
    pub search_path: String,
    pub output_folder: String,
    pub output_name: Option<String>,
    pub filters: Vec<String>,
    pub exclude_filters: Vec<String>,
    pub match_mode: MatchMode,
    pub proximity_lines: i32,
    pub exclude_scope: ExcludeScope,
    pub whole_word: bool,
    pub use_regex: bool,
    pub ocr_scanned_pdfs: bool,
    pub group_by: GroupByMode,
    pub extensions: Option<Vec<String>>,
    pub exclude_folders: Vec<String>,
    pub include_hidden: bool,
    pub parallel: bool,
    pub dry_run: bool,
    pub export_csv: bool,
    pub export_json: bool,
    pub throttle_limit: i32,
    pub heavy_throttle_limit: i32,
    pub failure_log_path: Option<String>,
    pub cache_file_path: Option<String>,
}

fn normalize_all(v: &Vec<String>) -> (r: Vec<String>)
    ensures
        r.deep_view() == v.deep_view().map_values(|e: Seq<char>| normalized_extension(e)),
{
    let mut out: Vec<String> = Vec::new();
    let mut i: usize = 0;
    while i < v.len()
        invariant
            i <= v.len(),
            out.deep_view() == v.deep_view().take(i as int).map_values(|e: Seq<char>| normalized_extension(e)),
        decreases v.len() - i,
    {
        let n = normalize_extension(v[i].clone());
        let ghost before = out.deep_view();
        out.push(n);
        assert(out.deep_view() =~= v.deep_view().take(i as int + 1).map_values(
            |e: Seq<char>| normalized_extension(e),
        )) by {
            assert(out.deep_view() =~= before.push(n@));
        }
        i = i + 1;
    }
    assert(v.deep_view().take(v.len() as int) =~= v.deep_view());
    out
}

/// The settings of a command-line search from its options: the output
/// folder defaults to the search folder; the match mode to "any line";
/// extensions are normalized (see [`normalized_extension`]); the excluded
/// folders are [`CliOptions::excluded_folders`]; processing is parallel
/// unless turned off; the throttle limits are the given ones, or the
/// engine's defaults; the rest is copied.
pub fn cli_search(opts: &CliOptions, default_throttle_limit: i32, default_heavy_throttle_limit: i32) -> (r:
    CliSearch)
    requires
        opts.search_path is Some,
    ensures
        opts.search_path matches Some(p) ==> r.search_path@ == p@,
        opts.output_folder matches Some(o) ==> r.output_folder@ == o@,
        opts.output_folder is None ==> (opts.search_path matches Some(p) && r.output_folder@ == p@),
        opt_text(r.output_name) == opt_text(opts.output_name),
        r.filters.deep_view() == opts.filters.deep_view(),
        r.exclude_filters.deep_view() == opts.exclude_filters.deep_view(),
        r.match_mode == match opts.mode {
            Some(m) => m,
            None => MatchMode::AnyLine,
        },
        r.proximity_lines == opts.proximity_lines,
        r.exclude_scope == opts.exclude_scope,
        r.whole_word == opts.whole_word,
        r.use_regex == opts.regex,
        r.ocr_scanned_pdfs == opts.ocr_scanned_pdfs,
        r.group_by == opts.group_by,
        opt_list(r.extensions) == match opts.extensions {
            Some(v) => Some(v.deep_view().map_values(|e: Seq<char>| normalized_extension(e))),
            None => None,
        },
        r.exclude_folders.deep_view() == (if opts.index {
            with_index_folder(opts.exclude_folders.deep_view())
        } else {
            opts.exclude_folders.deep_view()
        }),
        r.include_hidden == opts.include_hidden,
        r.parallel == !opts.no_parallel,
        r.dry_run == opts.dry_run,
        r.export_csv == opts.csv,
        r.export_json == opts.json,
        r.throttle_limit == match opts.throttle_limit {
            Some(t) => t,
            None => default_throttle_limit,
        },
        r.heavy_throttle_limit == match opts.heavy_throttle_limit {
            Some(t) => t,
            None => default_heavy_throttle_limit,
        },
        opt_text(r.failure_log_path) == opt_text(opts.failure_log),
        opt_text(r.cache_file_path) == opt_text(opts.cache_file),
{
    let search_path = match &opts.search_path {
        Some(p) => p.clone(),
        None => String::new(),
    };
    let output_folder = match &opts.output_folder {
        Some(o) => o.clone(),
        None => search_path.clone(),
    };
    let match_mode = match opts.mode {
        Some(m) => m,
        None => MatchMode::AnyLine,
    };
    let extensions = match &opts.extensions {
        Some(v) => Some(normalize_all(v)),
        None => None,
    };
    CliSearch {
        search_path,
        output_folder,
        output_name: copy_text(&opts.output_name),
        filters: copy_strings(&opts.filters),
        exclude_filters: copy_strings(&opts.exclude_filters),
        match_mode,
        proximity_lines: opts.proximity_lines,
        exclude_scope: opts.exclude_scope,
        whole_word: opts.whole_word,
        use_regex: opts.regex,
        ocr_scanned_pdfs: opts.ocr_scanned_pdfs,
        group_by: opts.group_by,
        extensions,
        exclude_folders: opts.excluded_folders(),
        include_hidden: opts.include_hidden,
        parallel: !opts.no_parallel,
        dry_run: opts.dry_run,
        export_csv: opts.csv,
        export_json: opts.json,
        throttle_limit: match opts.throttle_limit {
            Some(t) => t,
            None => default_throttle_limit,
        },
        heavy_throttle_limit: match opts.heavy_throttle_limit {
            Some(t) => t,
            None => default_heavy_throttle_limit,
        },
        failure_log_path: copy_text(&opts.failure_log),
        cache_file_path: copy_text(&opts.cache_file),
    }
}

} // verus!
