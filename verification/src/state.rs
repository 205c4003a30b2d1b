//! The search front end's state and the decisions taken on it: whether a
//! search may start, what a progress report changes, and the edits made
//! by the settings panel, the recent-search list and keyboard selection.

use vstd::prelude::*;
use crate::catalog::{
    add_custom_extension,
    apply_selected_extensions,
    distinct_extensions,
    keeps_and_selects,
    lemma_select_all_selects,
    lemma_selection_round_trip,
    select_all,
    ExtensionEntry,
    clear_selected_extensions,
    cleared,
    custom_extension_name,
    select_or_add,
    selected_extensions,
    selected_names,
    ExtensionOption,
};
use crate::history::{
    recent_entry_of,
    remember_recent_search,
    remembered,
    remove_extra_search_path,
    without_folder,
    RecentSearch,
};
use crate::results::{
    next_selection,
    progress_status,
    progress_text,
    scanning_status,
    scanning_text,
    select_relative,
    FileResultEntry,
    FileResultView,
};
use crate::fields::{list_of, parse_list, sanitize_file_name, sanitized, ExcludeScope, GroupByMode, MatchMode};
use crate::results::{
    copy_strings, counts_for, dry_run_message, dry_run_text, keep_hits, kept_hits, large_report_text,
    large_report_warning, run_counts, run_summary, run_summary_text, total_hits_of, SearchRunSummary,
    LARGE_REPORT_WARNING_BYTES,
};
use crate::watch::{ensure_index_folder_excluded, with_index_folder};
use crate::text::{chars_of, eq_ascii_ci, eq_ignore_ascii_case, extend_str, string_from, trim, trim_str};

verus! {

/// What the search front end holds: the settings the user typed, the
/// extension picker, and the live state of the current run.
#[derive(Debug)]
pub struct AppState {
    pub search_path: String,
    pub search_paths_extra: Vec<String>,
    pub output_folder: String,
    pub output_name: String,
    pub filters_text: String,
    pub exclude_filters_text: String,
    pub exclude_folders_text: String,
    pub extension_catalog: Vec<ExtensionOption>,
    pub extension_filter_text: String,
    pub native_search_query: String,
    pub is_running: bool,
    pub is_native_searching: bool,
    pub status_text: String,
    pub results: Vec<FileResultView>,
    pub results_page: usize,
    pub selected_result: Option<FileResultView>,
    pub has_results: bool,
    pub recent_searches: Vec<RecentSearch>,
    pub results_summary_text: String,
    pub cache_file_path: String,
    pub options: SearchOptions,
}

/// The search settings that are plain choices and numbers.
#[derive(Debug, Clone, Copy, PartialEq, Eq, Structural)]
pub struct SearchOptions {
    pub match_mode: MatchMode,
    pub proximity_lines: i32,
    pub use_regex: bool,
    pub whole_word: bool,
    pub exclude_scope: ExcludeScope,
    pub include_hidden: bool,
    pub group_by: GroupByMode,
    pub open_report_when_done: bool,
    pub export_csv: bool,
    pub export_json: bool,
    pub parallel: bool,
    pub throttle_limit: i32,
    pub dry_run: bool,
    pub pdf_timeout_seconds: i32,
    pub file_timeout_seconds: i32,
    pub max_retries: i32,
    pub index_for_fast_search: bool,
}

/// The options as they are kept: the choices and numbers a settings file
/// written before they existed may lack are optional.
#[derive(Debug, Clone, Copy, PartialEq, Eq, Structural)]
pub struct SavedOptions {
    pub match_mode: Option<MatchMode>,
    pub proximity_lines: Option<i32>,
    pub use_regex: bool,
    pub whole_word: bool,
    pub exclude_scope: Option<ExcludeScope>,
    pub include_hidden: bool,
    pub group_by: Option<GroupByMode>,
    pub open_report_when_done: bool,
    pub export_csv: bool,
    pub export_json: bool,
    pub parallel: bool,
    pub throttle_limit: Option<i32>,
    pub dry_run: bool,
    pub pdf_timeout_seconds: Option<i32>,
    pub file_timeout_seconds: Option<i32>,
    pub max_retries: Option<i32>,
    pub index_for_fast_search: bool,
}

/// The options as kept: every one present.
pub open spec fn saved_options_of(o: SearchOptions) -> SavedOptions {
    SavedOptions {
        match_mode: Some(o.match_mode),
        proximity_lines: Some(o.proximity_lines),
        use_regex: o.use_regex,
        whole_word: o.whole_word,
        exclude_scope: Some(o.exclude_scope),
        include_hidden: o.include_hidden,
        group_by: Some(o.group_by),
        open_report_when_done: o.open_report_when_done,
        export_csv: o.export_csv,
        export_json: o.export_json,
        parallel: o.parallel,
        throttle_limit: Some(o.throttle_limit),
        dry_run: o.dry_run,
        pdf_timeout_seconds: Some(o.pdf_timeout_seconds),
        file_timeout_seconds: Some(o.file_timeout_seconds),
        max_retries: Some(o.max_retries),
        index_for_fast_search: o.index_for_fast_search,
    }
}

/// The options of a fresh form: any line matches, five lines of
/// proximity, no regex or whole-word matching, exclusions per line, hidden
/// files skipped, grouping by creation date, no report opening and no extra
/// exports, parallel processing off with the given throttle limit, no dry
/// run, 15 s per PDF, 30 s per file, three retries, no fast re-search index.
pub open spec fn default_options(throttle_limit: i32) -> SearchOptions {
    SearchOptions {
        match_mode: MatchMode::AnyLine,
        proximity_lines: 5,
        use_regex: false,
        whole_word: false,
        exclude_scope: ExcludeScope::Line,
        include_hidden: false,
        group_by: GroupByMode::Created,
        open_report_when_done: false,
        export_csv: false,
        export_json: false,
        parallel: false,
        throttle_limit,
        dry_run: false,
        pdf_timeout_seconds: 15,
        file_timeout_seconds: 30,
        max_retries: 3,
        index_for_fast_search: false,
    }
}

/// A kept value, or the current one when none was kept.
pub open spec fn or_current<T>(saved: Option<T>, current: T) -> T {
    match saved {
        Some(v) => v,
        None => current,
    }
}

/// The options after restoring kept ones: every kept value is taken, and an
/// optional one that was not kept stays as it is.
pub open spec fn restored_options(current: SearchOptions, saved: SavedOptions) -> SearchOptions {
    SearchOptions {
        match_mode: or_current(saved.match_mode, current.match_mode),
        proximity_lines: or_current(saved.proximity_lines, current.proximity_lines),
        use_regex: saved.use_regex,
        whole_word: saved.whole_word,
        exclude_scope: or_current(saved.exclude_scope, current.exclude_scope),
        include_hidden: saved.include_hidden,
        group_by: or_current(saved.group_by, current.group_by),
        open_report_when_done: saved.open_report_when_done,
        export_csv: saved.export_csv,
        export_json: saved.export_json,
        parallel: saved.parallel,
        throttle_limit: or_current(saved.throttle_limit, current.throttle_limit),
        dry_run: saved.dry_run,
        pdf_timeout_seconds: or_current(saved.pdf_timeout_seconds, current.pdf_timeout_seconds),
        file_timeout_seconds: or_current(saved.file_timeout_seconds, current.file_timeout_seconds),
        max_retries: or_current(saved.max_retries, current.max_retries),
        index_for_fast_search: saved.index_for_fast_search,
    }
}

/// Keeping the options and restoring them gives them back, whatever the
/// options were before the restore.
pub proof fn lemma_options_round_trip(current: SearchOptions, kept: SearchOptions)
    ensures
        restored_options(current, saved_options_of(kept)) == kept,
{
}

fn restore<T: Copy>(saved: Option<T>, current: T) -> (r: T)
    ensures
        r == or_current(saved, current),
{
    match saved {
        Some(v) => v,
        None => current,
    }
}

/// The parts of a search request computed from the typed settings.
#[derive(Debug)]
pub struct SearchRequest {
    pub search_path: String,
    pub output_folder: String,
    pub output_name: Option<String>,
    pub filters: Vec<String>,
    pub exclude_filters: Vec<String>,
    pub extensions: Option<Vec<String>>,
    pub exclude_folders: Vec<String>,
    pub cache_file_path: Option<String>,
    pub options: SearchOptions,
}

/// The settings kept across relaunches, as far as the form's text and the
/// extension picker go.
#[derive(Debug)]
pub struct SettingsSnapshot {
    pub search_path: String,
    pub search_paths_extra: Vec<String>,
    pub output_folder: String,
    pub output_name: String,
    pub filters_text: String,
    pub exclude_filters_text: String,
    pub exclude_folders_text: String,
    pub cache_file_path: String,
    pub selected_extensions: Vec<String>,
    pub options: SavedOptions,
}

/// The catalog after restoring a saved selection: unchanged when nothing
/// was saved, otherwise every saved extension asked for in turn (see
/// [`select_all`]).
pub open spec fn restored_catalog(cat: Seq<ExtensionEntry>, names: Seq<Seq<char>>) -> Seq<ExtensionEntry> {
    if names.len() == 0 {
        cat
    } else {
        select_all(cat, names)
    }
}

proof fn lemma_nothing_selected_is_cleared(cat: Seq<ExtensionEntry>)
    requires
        selected_names(cat).len() == 0,
    ensures
        cleared(cat) == cat,
    decreases cat.len(),
{
    if cat.len() > 0 {
        let rest = cat.drop_last();
        assert(!cat.last().is_selected) by {
            if cat.last().is_selected {
                assert(selected_names(cat).len() == selected_names(rest).len() + 1);
            }
        }
        lemma_nothing_selected_is_cleared(rest);
        assert(cleared(cat) =~= cat) by {
            assert forall|i: int| 0 <= i < cat.len() implies cleared(cat)[i] == cat[i] by {
                if i < cat.len() - 1 {
                    assert(cleared(rest)[i] == rest[i]);
                }
            }
        }
    }
}

/// Saving the settings and restoring them onto a form whose picker has the
/// same entries, none selected, gives back the saved selection, provided
/// no two entries share an extension up to ASCII case.
pub proof fn lemma_settings_round_trip(cat: Seq<ExtensionEntry>)
    requires
        distinct_extensions(cat),
    ensures
        restored_catalog(cleared(cat), selected_names(cat)) == cat,
{
    if selected_names(cat).len() == 0 {
        lemma_nothing_selected_is_cleared(cat);
        assert(cleared(cleared(cat)) =~= cleared(cat));
    } else {
        lemma_selection_round_trip(cat);
    }
}

/// Restoring saved settings selects every saved extension, matching an
/// entry up to ASCII case or adding it as a "Custom" entry, and deselects
/// nothing that was selected.
pub proof fn lemma_restore_selects_every_saved_extension(cat: Seq<ExtensionEntry>, names: Seq<Seq<char>>)
    ensures
        keeps_and_selects(cat, restored_catalog(cat, names)),
        forall|k: int|
            #![trigger names[k]]
            0 <= k < names.len() ==> exists|j: int|
                0 <= j < restored_catalog(cat, names).len() && eq_ascii_ci(
                    #[trigger] restored_catalog(cat, names)[j].extension,
                    names[k],
                ) && restored_catalog(cat, names)[j].is_selected,
{
    if names.len() > 0 {
        lemma_select_all_selects(cat, names);
    }
}

/// How a search run ended.
#[derive(Debug)]
pub enum RunOutcome {
    Completed,
    Cancelled,
    Failed(String),
}

/// A file or folder dragged onto the window.
#[derive(Debug, Clone)]
pub enum DropEvent {
    /// Something is being dragged over the window (not yet dropped).
    Hovering,
    HoverCancelled,
    Dropped(String),
}

/// What a search reports while it runs, as far as the front end reads it.
#[derive(Debug)]
pub struct ProgressReport {
    pub is_enumerating: bool,
    pub enumerated_file_count: usize,
    pub total_files: usize,
    pub files_completed: usize,
    pub hits_so_far: usize,
    /// The file finished last, if any, and whether it had hits.
    pub last_completed: Option<(FileResultView, bool)>,
}

/// Some entry of `rs` names the same file as `name`, ignoring ASCII case.
pub open spec fn has_result_named(rs: Seq<FileResultEntry>, name: Seq<char>) -> bool {
    exists|i: int| 0 <= i < rs.len() && eq_ascii_ci(#[trigger] rs[i].full_name, name)
}

/// A progress report adds its finished file to the results: the file had
/// hits and no result names it yet (ignoring ASCII case).
pub open spec fn adds_result(results: Seq<FileResultEntry>, report: ProgressReport) -> bool {
    match report.last_completed {
        Some((r, hit)) => hit && !has_result_named(results, r.full_name@),
        None => false,
    }
}

/// The file a progress report finished last.
pub open spec fn completed_file(report: ProgressReport) -> FileResultView {
    match report.last_completed {
        Some((r, _)) => r,
        None => arbitrary(),
    }
}

/// Whether some result names the same file as `name`, ignoring ASCII case.
fn has_result(results: &Vec<FileResultView>, name: &String) -> (r: bool)
    ensures
        r == has_result_named(results.deep_view(), name@),
{
    let ghost rs = results.deep_view();
    let nc = chars_of(name.as_str());
    let mut i: usize = 0;
    while i < results.len()
        invariant
            i <= results.len(),
            rs == results.deep_view(),
            nc@ == name@,
            forall|j: int| 0 <= j < i ==> !eq_ascii_ci(#[trigger] rs[j].full_name, name@),
        decreases results.len() - i,
    {
        let fc = chars_of(results[i].full_name.as_str());
        assert(rs[i as int].full_name == results@[i as int].full_name@);
        if eq_ignore_ascii_case(fc.as_slice(), nc.as_slice()) {
            return true;
        }
        i = i + 1;
    }
    false
}

/// A search may start: none is running, and the folder, the output folder
/// and the filters are each non-empty once trimmed.
pub open spec fn run_allowed(s: AppState) -> bool {
    !s.is_running && trim(s.search_path@).len() > 0 && trim(s.output_folder@).len() > 0 && trim(
        s.filters_text@,
    ).len() > 0
}

/// A file taken into the results by one progress report is not taken in
/// again when a later report finishes the same file.
pub proof fn lemma_completed_file_listed_once(results: Seq<FileResultEntry>, report: ProgressReport)
    requires
        adds_result(results, report),
    ensures
        !adds_result(results.push(completed_file(report)@), report),
{
    let name = completed_file(report).full_name@;
    let after = results.push(completed_file(report)@);
    assert(eq_ascii_ci(after[results.len() as int].full_name, name));
}

/// While a run is going no other run may start, whatever the form holds.
pub proof fn lemma_running_blocks_run(s: AppState)
    requires
        s.is_running,
    ensures
        !run_allowed(s),
{
}

impl AppState {
    /// A fresh form: every text field empty, the given extension catalog,
    /// nothing running, no results, the status "Ready.", and the default
    /// options (see [`default_options`]) with the given parallel-file limit.
    pub fn new(extension_catalog: Vec<ExtensionOption>, default_throttle_limit: i32) -> (r: AppState)
        ensures
            r.options == default_options(default_throttle_limit),
            r.search_path@.len() == 0,
            r.search_paths_extra@.len() == 0,
            r.output_folder@.len() == 0,
            r.output_name@.len() == 0,
            r.filters_text@.len() == 0,
            r.exclude_filters_text@.len() == 0,
            r.exclude_folders_text@.len() == 0,
            r.extension_catalog == extension_catalog,
            r.extension_filter_text@.len() == 0,
            r.native_search_query@.len() == 0,
            !r.is_running,
            !r.is_native_searching,
            r.status_text@ == "Ready."@,
            r.results@.len() == 0,
            r.results_page == 0,
            r.selected_result is None,
            !r.has_results,
            r.recent_searches@.len() == 0,
            r.results_summary_text@.len() == 0,
            r.cache_file_path@.len() == 0,
    {
        AppState {
            search_path: String::new(),
            search_paths_extra: Vec::new(),
            output_folder: String::new(),
            output_name: String::new(),
            filters_text: String::new(),
            exclude_filters_text: String::new(),
            exclude_folders_text: String::new(),
            extension_catalog,
            extension_filter_text: String::new(),
            native_search_query: String::new(),
            is_running: false,
            is_native_searching: false,
            status_text: "Ready.".to_string(),
            results: Vec::new(),
            results_page: 0,
            selected_result: None,
            has_results: false,
            recent_searches: Vec::new(),
            results_summary_text: String::new(),
            cache_file_path: String::new(),
            options: SearchOptions {
                match_mode: MatchMode::AnyLine,
                proximity_lines: 5,
                use_regex: false,
                whole_word: false,
                exclude_scope: ExcludeScope::Line,
                include_hidden: false,
                group_by: GroupByMode::Created,
                open_report_when_done: false,
                export_csv: false,
                export_json: false,
                parallel: false,
                throttle_limit: default_throttle_limit,
                dry_run: false,
                pdf_timeout_seconds: 15,
                file_timeout_seconds: 30,
                max_retries: 3,
                index_for_fast_search: false,
            },
        }
    }

    /// A search may start: none is running, and the folder, the output
    /// folder and the filters are each non-empty once trimmed.
    pub fn can_run(&self) -> (r: bool)
        ensures
            r == run_allowed(*self),
    {
        !self.is_running && trim_str(self.search_path.as_str()).len() > 0 && trim_str(
            self.output_folder.as_str(),
        ).len() > 0 && trim_str(self.filters_text.as_str()).len() > 0
    }

    /// A fast re-search may start: none is running, and the query and the
    /// folder are each non-empty once trimmed.
    pub fn can_native_search(&self) -> (r: bool)
        ensures
            r == (!self.is_native_searching && trim(self.native_search_query@).len() > 0 && trim(
                self.search_path@,
            ).len() > 0),
    {
        !self.is_native_searching && trim_str(self.native_search_query.as_str()).len() > 0
            && trim_str(self.search_path.as_str()).len() > 0
    }

    /// Puts a recent search's folder and filter text back into the form,
    /// touching nothing else.
    pub fn apply_recent_search(&mut self, recent: &RecentSearch)
        ensures
            *final(self) == (AppState {
                search_path: final(self).search_path,
                filters_text: final(self).filters_text,
                ..*old(self)
            }),
            final(self).search_path@ == recent.search_path@,
            final(self).filters_text@ == recent.filters_text@,
    {
        self.search_path = recent.search_path.clone();
        self.filters_text = recent.filters_text.clone();
    }

    /// Remembers the search about to run in the recent-search list (see
    /// [`remember_recent_search`]); nothing else changes.
    pub fn remember_recent_search(&mut self)
        ensures
            *final(self) == (AppState { recent_searches: final(self).recent_searches, ..*old(self) }),
            (trim(old(self).search_path@).len() == 0 || trim(old(self).filters_text@).len() == 0)
                ==> final(self).recent_searches.deep_view() == old(self).recent_searches.deep_view(),
            (trim(old(self).search_path@).len() > 0 && trim(old(self).filters_text@).len() > 0)
                ==> final(self).recent_searches.deep_view() == remembered(
                old(self).recent_searches.deep_view(),
                recent_entry_of(old(self).search_path@, old(self).filters_text@),
            ),
    {
        remember_recent_search(
            &mut self.recent_searches,
            self.search_path.as_str(),
            self.filters_text.as_str(),
        );
    }

    /// Adds the extension typed into the picker's filter box (see
    /// [`add_custom_extension`]); nothing else changes.
    pub fn add_custom_extension(&mut self)
        ensures
            *final(self) == (AppState {
                extension_catalog: final(self).extension_catalog,
                extension_filter_text: final(self).extension_filter_text,
                ..*old(self)
            }),
            trim(old(self).extension_filter_text@).len() == 0 ==> final(self).extension_catalog.deep_view() == old(self).extension_catalog.deep_view() && final(self).extension_filter_text@ == old(self).extension_filter_text@,
            trim(old(self).extension_filter_text@).len() > 0 ==> final(self).extension_catalog.deep_view() == select_or_add(
                old(self).extension_catalog.deep_view(),
                custom_extension_name(old(self).extension_filter_text@),
            ) && final(self).extension_filter_text@.len() == 0,
    {
        add_custom_extension(&mut self.extension_catalog, &mut self.extension_filter_text);
    }

    /// The picker's add button is enabled when the filter box holds more
    /// than whitespace.
    pub fn can_add_custom_extension(&self) -> (r: bool)
        ensures
            r == (trim(self.extension_filter_text@).len() > 0),
    {
        trim_str(self.extension_filter_text.as_str()).len() > 0
    }

    /// Deselects every extension of the picker; nothing else changes.
    pub fn clear_selected_extensions(&mut self)
        ensures
            *final(self) == (AppState { extension_catalog: final(self).extension_catalog, ..*old(self) }),
            final(self).extension_catalog.deep_view() == cleared(
                old(self).extension_catalog.deep_view(),
            ),
    {
        clear_selected_extensions(&mut self.extension_catalog);
    }

    /// Removes a folder from the extra search folders; nothing else changes.
    pub fn remove_extra_search_path(&mut self, path: &str)
        ensures
            *final(self) == (AppState {
                search_paths_extra: final(self).search_paths_extra,
                ..*old(self)
            }),
            final(self).search_paths_extra.deep_view() == without_folder(
                old(self).search_paths_extra.deep_view(),
                path@,
            ),
    {
        remove_extra_search_path(&mut self.search_paths_extra, path);
    }

    /// The extensions a search is restricted to: `None` when none is
    /// selected (the built-in default list applies), otherwise the
    /// selected ones in catalog order.
    pub fn build_selected_extensions(&self) -> (r: Option<Vec<String>>)
        ensures
            selected_names(self.extension_catalog.deep_view()).len() == 0 ==> r is None,
            selected_names(self.extension_catalog.deep_view()).len() > 0 ==> (r matches Some(v)
                && v.deep_view() == selected_names(self.extension_catalog.deep_view())),
    {
        let v = selected_extensions(self.extension_catalog.as_slice());
        assert(self.extension_catalog@.map_values(|e: ExtensionOption| e@)
            =~= self.extension_catalog.deep_view());
        if v.len() == 0 {
            None
        } else {
            Some(v)
        }
    }

    /// Takes in a progress report. While files are being listed only the
    /// status line changes, to the scanning message. Afterwards the status
    /// line shows the progress when the total is known, and a finished file
    /// with hits joins the results (which then count as present) unless a
    /// result already names it; nothing else changes.
    pub fn apply_progress(&mut self, report: ProgressReport)
        ensures
            report.is_enumerating ==> *final(self) == (AppState {
                status_text: final(self).status_text,
                ..*old(self)
            }) && final(self).status_text@ == scanning_text(report.enumerated_file_count as nat),
            !report.is_enumerating ==> *final(self) == (AppState {
                status_text: final(self).status_text,
                results: final(self).results,
                has_results: final(self).has_results,
                ..*old(self)
            }),
            !report.is_enumerating && report.total_files > 0 ==> final(self).status_text@
                == progress_text(
                report.files_completed as nat,
                report.total_files as nat,
                report.hits_so_far as nat,
            ),
            !report.is_enumerating && report.total_files == 0 ==> final(self).status_text == old(self).status_text,
            !report.is_enumerating && adds_result(old(self).results.deep_view(), report) ==> final(self).results@ == old(self).results@.push(completed_file(report)) && final(self).has_results,
            !report.is_enumerating && !adds_result(old(self).results.deep_view(), report) ==> final(self).results == old(self).results && final(self).has_results == old(self).has_results,
    {
        if report.is_enumerating {
            self.status_text = scanning_status(report.enumerated_file_count);
            return;
        }
        if report.total_files > 0 {
            self.status_text = progress_status(
                report.files_completed,
                report.total_files,
                report.hits_so_far,
            );
        }
        match report.last_completed {
            Some((r, hit)) => {
                if hit {
                    let present = has_result(&self.results, &r.full_name);
                    if !present {
                        self.results.push(r);
                        self.has_results = true;
                    }
                }
            },
            None => {},
        }
    }

    /// The request computed from the form: folder and output folder
    /// trimmed; the output name trimmed and made safe for a file name, or
    /// none when empty; filters, exclusions and excluded folders split at
    /// commas (see [`list_of`]), the index folder always among the excluded
    /// folders (see [`with_index_folder`]); the selected extensions (see
    /// [`AppState::build_selected_extensions`]); the cache file trimmed, or
    /// none when empty.
    pub fn build_settings(&self) -> (r: SearchRequest)
        ensures
            r.search_path@ == trim(self.search_path@),
            r.output_folder@ == trim(self.output_folder@),
            trim(self.output_name@).len() == 0 ==> r.output_name is None,
            trim(self.output_name@).len() > 0 ==> (r.output_name matches Some(n) && n@ == sanitized(
                trim(self.output_name@),
            )),
            r.filters.deep_view() == list_of(self.filters_text@),
            r.exclude_filters.deep_view() == list_of(self.exclude_filters_text@),
            r.exclude_folders.deep_view() == with_index_folder(list_of(self.exclude_folders_text@)),
            selected_names(self.extension_catalog.deep_view()).len() == 0 ==> r.extensions is None,
            selected_names(self.extension_catalog.deep_view()).len() > 0 ==> (r.extensions matches Some(
                v,
            ) && v.deep_view() == selected_names(self.extension_catalog.deep_view())),
            trim(self.cache_file_path@).len() == 0 ==> r.cache_file_path is None,
            trim(self.cache_file_path@).len() > 0 ==> (r.cache_file_path matches Some(c) && c@ == trim(
                self.cache_file_path@,
            )),
            r.options == self.options,
    {
        let name = trim_str(self.output_name.as_str());
        let output_name = if name.len() == 0 {
            None
        } else {
            let raw = string_from(name.as_slice());
            Some(sanitize_file_name(raw.as_str()))
        };
        let cache = trim_str(self.cache_file_path.as_str());
        let cache_file_path = if cache.len() == 0 {
            None
        } else {
            Some(string_from(cache.as_slice()))
        };
        let sp = trim_str(self.search_path.as_str());
        let of = trim_str(self.output_folder.as_str());
        let mut exclude_folders = parse_list(self.exclude_folders_text.as_str());
        ensure_index_folder_excluded(&mut exclude_folders);
        SearchRequest {
            search_path: string_from(sp.as_slice()),
            output_folder: string_from(of.as_slice()),
            output_name,
            filters: parse_list(self.filters_text.as_str()),
            exclude_filters: parse_list(self.exclude_filters_text.as_str()),
            extensions: self.build_selected_extensions(),
            exclude_folders,
            cache_file_path,
            options: self.options,
        }
    }

    /// The settings to keep: the form's text fields, the extra folders, and
    /// the selected extensions in catalog order.
    pub fn snapshot_settings(&self) -> (r: SettingsSnapshot)
        ensures
            r.search_path@ == self.search_path@,
            r.search_paths_extra.deep_view() == self.search_paths_extra.deep_view(),
            r.output_folder@ == self.output_folder@,
            r.output_name@ == self.output_name@,
            r.filters_text@ == self.filters_text@,
            r.exclude_filters_text@ == self.exclude_filters_text@,
            r.exclude_folders_text@ == self.exclude_folders_text@,
            r.cache_file_path@ == self.cache_file_path@,
            r.selected_extensions.deep_view() == selected_names(self.extension_catalog.deep_view()),
            r.options == saved_options_of(self.options),
    {
        let sel = selected_extensions(self.extension_catalog.as_slice());
        assert(self.extension_catalog@.map_values(|e: ExtensionOption| e@)
            =~= self.extension_catalog.deep_view());
        SettingsSnapshot {
            search_path: self.search_path.clone(),
            search_paths_extra: copy_strings(&self.search_paths_extra),
            output_folder: self.output_folder.clone(),
            output_name: self.output_name.clone(),
            filters_text: self.filters_text.clone(),
            exclude_filters_text: self.exclude_filters_text.clone(),
            exclude_folders_text: self.exclude_folders_text.clone(),
            cache_file_path: self.cache_file_path.clone(),
            selected_extensions: sel,
            options: SavedOptions {
                match_mode: Some(self.options.match_mode),
                proximity_lines: Some(self.options.proximity_lines),
                use_regex: self.options.use_regex,
                whole_word: self.options.whole_word,
                exclude_scope: Some(self.options.exclude_scope),
                include_hidden: self.options.include_hidden,
                group_by: Some(self.options.group_by),
                open_report_when_done: self.options.open_report_when_done,
                export_csv: self.options.export_csv,
                export_json: self.options.export_json,
                parallel: self.options.parallel,
                throttle_limit: Some(self.options.throttle_limit),
                dry_run: self.options.dry_run,
                pdf_timeout_seconds: Some(self.options.pdf_timeout_seconds),
                file_timeout_seconds: Some(self.options.file_timeout_seconds),
                max_retries: Some(self.options.max_retries),
                index_for_fast_search: self.options.index_for_fast_search,
            },
        }
    }

    /// Restores kept settings: the text fields and extra folders take the
    /// saved values and the saved selection is restored (see
    /// [`restored_catalog`]); nothing else changes.
    pub fn apply_settings(&mut self, saved: &SettingsSnapshot)
        ensures
            *final(self) == (AppState {
                search_path: final(self).search_path,
                search_paths_extra: final(self).search_paths_extra,
                output_folder: final(self).output_folder,
                output_name: final(self).output_name,
                filters_text: final(self).filters_text,
                exclude_filters_text: final(self).exclude_filters_text,
                exclude_folders_text: final(self).exclude_folders_text,
                cache_file_path: final(self).cache_file_path,
                extension_catalog: final(self).extension_catalog,
                options: restored_options(old(self).options, saved.options),
                ..*old(self)
            }),
            final(self).search_path@ == saved.search_path@,
            final(self).search_paths_extra.deep_view() == saved.search_paths_extra.deep_view(),
            final(self).output_folder@ == saved.output_folder@,
            final(self).output_name@ == saved.output_name@,
            final(self).filters_text@ == saved.filters_text@,
            final(self).exclude_filters_text@ == saved.exclude_filters_text@,
            final(self).exclude_folders_text@ == saved.exclude_folders_text@,
            final(self).cache_file_path@ == saved.cache_file_path@,
            final(self).extension_catalog.deep_view() == restored_catalog(
                old(self).extension_catalog.deep_view(),
                saved.selected_extensions.deep_view(),
            ),
    {
        self.search_path = saved.search_path.clone();
        self.search_paths_extra = copy_strings(&saved.search_paths_extra);
        self.output_folder = saved.output_folder.clone();
        self.output_name = saved.output_name.clone();
        self.filters_text = saved.filters_text.clone();
        self.exclude_filters_text = saved.exclude_filters_text.clone();
        self.exclude_folders_text = saved.exclude_folders_text.clone();
        self.cache_file_path = saved.cache_file_path.clone();
        let o = saved.options;
        let cur = self.options;
        self.options = SearchOptions {
            match_mode: restore(o.match_mode, cur.match_mode),
            proximity_lines: restore(o.proximity_lines, cur.proximity_lines),
            use_regex: o.use_regex,
            whole_word: o.whole_word,
            exclude_scope: restore(o.exclude_scope, cur.exclude_scope),
            include_hidden: o.include_hidden,
            group_by: restore(o.group_by, cur.group_by),
            open_report_when_done: o.open_report_when_done,
            export_csv: o.export_csv,
            export_json: o.export_json,
            parallel: o.parallel,
            throttle_limit: restore(o.throttle_limit, cur.throttle_limit),
            dry_run: o.dry_run,
            pdf_timeout_seconds: restore(o.pdf_timeout_seconds, cur.pdf_timeout_seconds),
            file_timeout_seconds: restore(o.file_timeout_seconds, cur.file_timeout_seconds),
            max_retries: restore(o.max_retries, cur.max_retries),
            index_for_fast_search: o.index_for_fast_search,
        };
        if saved.selected_extensions.len() > 0 {
            apply_selected_extensions(&mut self.extension_catalog, &saved.selected_extensions);
        }
    }

    /// Starts a run: the search is remembered (see
    /// [`AppState::remember_recent_search`]), the page and the selection
    /// reset, the results and the summary clear, the status reads
    /// "Starting..." and the run counts as running.
    pub fn begin_run(&mut self)
        ensures
            *final(self) == (AppState {
                recent_searches: final(self).recent_searches,
                results_page: 0,
                selected_result: None,
                results: final(self).results,
                has_results: false,
                results_summary_text: final(self).results_summary_text,
                status_text: final(self).status_text,
                is_running: true,
                ..*old(self)
            }),
            (trim(old(self).search_path@).len() == 0 || trim(old(self).filters_text@).len() == 0)
                ==> final(self).recent_searches.deep_view() == old(self).recent_searches.deep_view(),
            (trim(old(self).search_path@).len() > 0 && trim(old(self).filters_text@).len() > 0)
                ==> final(self).recent_searches.deep_view() == remembered(
                old(self).recent_searches.deep_view(),
                recent_entry_of(old(self).search_path@, old(self).filters_text@),
            ),
            final(self).results@.len() == 0,
            final(self).results_summary_text@.len() == 0,
            final(self).status_text@ == "Starting..."@,
    {
        self.remember_recent_search();
        self.results_page = 0;
        self.selected_result = None;
        self.results = Vec::new();
        self.has_results = false;
        self.results_summary_text = String::new();
        self.status_text = "Starting...".to_string();
        self.is_running = true;
    }

    /// Shows a finished run's files with hits and its summary (see
    /// [`run_summary_text`]), the files with hits and the hits counted from
    /// `hits` (see [`counts_for`]); results count as present when there is
    /// one.
    pub fn show_run_results(&mut self, hits: Vec<FileResultView>, summary: &SearchRunSummary)
        requires
            total_hits_of(hits@) <= usize::MAX,
        ensures
            *final(self) == (AppState {
                results: hits,
                has_results: hits.len() > 0,
                results_summary_text: final(self).results_summary_text,
                ..*old(self)
            }),
            final(self).results_summary_text@ == run_summary_text(counts_for(hits@, *summary)),
    {
        let counts = run_counts(&hits, summary);
        self.has_results = hits.len() > 0;
        self.results = hits;
        self.results_summary_text = run_summary(&counts);
    }

    /// Shows a finished run's results: of the files it searched, those
    /// flagged as having hits (see [`kept_hits`]) are shown, and the
    /// summary counts them (see [`AppState::show_run_results`]).
    pub fn show_finished_run(&mut self, files: Vec<FileResultView>, is_hit: &Vec<bool>, summary: &SearchRunSummary)
        requires
            files.len() == is_hit.len(),
            total_hits_of(kept_hits(files@, is_hit@)) <= usize::MAX,
        ensures
            final(self).results@ == kept_hits(files@, is_hit@),
            *final(self) == (AppState {
                results: final(self).results,
                has_results: kept_hits(files@, is_hit@).len() > 0,
                results_summary_text: final(self).results_summary_text,
                ..*old(self)
            }),
            final(self).results_summary_text@ == run_summary_text(
                counts_for(kept_hits(files@, is_hit@), *summary),
            ),
    {
        let hits = keep_hits(files, is_hit);
        self.show_run_results(hits, summary);
    }

    /// Adds the large-report warning to the summary after a report of
    /// `report_bytes` bytes was built (see [`large_report_warning`]);
    /// nothing else changes.
    pub fn note_report_size(&mut self, report_bytes: usize)
        ensures
            *final(self) == (AppState { results_summary_text: final(self).results_summary_text, ..*old(self) }),
            report_bytes <= LARGE_REPORT_WARNING_BYTES ==> final(self).results_summary_text@
                == old(self).results_summary_text@,
            report_bytes > LARGE_REPORT_WARNING_BYTES ==> final(self).results_summary_text@
                == old(self).results_summary_text@ + large_report_text(report_bytes as nat),
    {
        match large_report_warning(report_bytes) {
            Some(w) => {
                let mut out = chars_of(self.results_summary_text.as_str());
                extend_str(&mut out, w.as_str());
                self.results_summary_text = string_from(out.as_slice());
            },
            None => {},
        }
    }

    /// Shows the outcome of a dry run: the status line and the summary both
    /// give the number of files that would be searched.
    pub fn show_dry_run(&mut self, candidates: usize)
        ensures
            *final(self) == (AppState {
                status_text: final(self).status_text,
                results_summary_text: final(self).results_summary_text,
                ..*old(self)
            }),
            final(self).status_text@ == dry_run_text(candidates as nat),
            final(self).results_summary_text@ == dry_run_text(candidates as nat),
    {
        self.status_text = dry_run_message(candidates);
        self.results_summary_text = dry_run_message(candidates);
    }

    /// Handles a drag-and-drop event and returns whether something is now
    /// dragged over the window. A dropped folder becomes the search folder;
    /// for a dropped file (`dropped_is_dir` false) its parent folder does,
    /// when it has one. Nothing else changes.
    pub fn handle_drop(&mut self, event: DropEvent, dropped_is_dir: bool, dropped_parent: Option<String>) -> (hovering: bool)
        ensures
            hovering == (event is Hovering),
            !(event is Dropped) ==> *final(self) == *old(self),
            event matches DropEvent::Dropped(p) ==> *final(self) == (AppState {
                search_path: final(self).search_path,
                ..*old(self)
            }),
            event matches DropEvent::Dropped(p) ==> final(self).search_path@ == (if dropped_is_dir {
                p@
            } else {
                match dropped_parent {
                    Some(parent) => parent@,
                    None => old(self).search_path@,
                }
            }),
    {
        match event {
            DropEvent::Hovering => true,
            DropEvent::HoverCancelled => false,
            DropEvent::Dropped(p) => {
                if dropped_is_dir {
                    self.search_path = p;
                } else {
                    match dropped_parent {
                        Some(parent) => {
                            self.search_path = parent;
                        },
                        None => {},
                    }
                }
                false
            },
        }
    }

    /// Ends a run: it no longer counts as running; a failed run's status
    /// reads "Error: " and the reason, a cancelled one's "Cancelled.", and
    /// a completed one keeps the status its results set.
    pub fn end_run(&mut self, outcome: RunOutcome)
        ensures
            *final(self) == (AppState {
                status_text: final(self).status_text,
                is_running: false,
                ..*old(self)
            }),
            outcome is Completed ==> final(self).status_text == old(self).status_text,
            outcome is Cancelled ==> final(self).status_text@ == "Cancelled."@,
            outcome matches RunOutcome::Failed(e) ==> final(self).status_text@ == "Error: "@ + e@,
    {
        match outcome {
            RunOutcome::Completed => {},
            RunOutcome::Cancelled => {
                self.status_text = "Cancelled.".to_string();
            },
            RunOutcome::Failed(e) => {
                let mut out: Vec<char> = Vec::new();
                extend_str(&mut out, "Error: ");
                extend_str(&mut out, e.as_str());
                self.status_text = string_from(out.as_slice());
            },
        }
        self.is_running = false;
    }

    /// Moves the selected result `delta` rows through the whole list and
    /// turns to its page (see [`select_relative`]); nothing else changes.
    pub fn select_relative(&mut self, delta: i32)
        requires
            old(self).results.len() <= i32::MAX,
        ensures
            *final(self) == (AppState {
                selected_result: final(self).selected_result,
                results_page: final(self).results_page,
                ..*old(self)
            }),
            old(self).results.len() == 0 ==> final(self).selected_result.deep_view() == old(self).selected_result.deep_view() && final(self).results_page == old(self).results_page,
            old(self).results.len() > 0 ==> {
                let k = next_selection(
                    old(self).results.deep_view(),
                    old(self).selected_result.deep_view(),
                    delta as int,
                );
                &&& 0 <= k < old(self).results.len()
                &&& final(self).selected_result.deep_view() == Some(
                    old(self).results.deep_view()[k],
                )
                &&& final(self).results_page == k / 50
            },
    {
        select_relative(&self.results, &mut self.selected_result, &mut self.results_page, delta);
    }
}

} // verus!
