//! Search results as the front end shows them: per-file hit lists, the
//! plain-text export of one file's hits, paging and keyboard selection in
//! the results list, merging the results of several searched folders, and
//! the status and summary lines of a run.

use vstd::prelude::*;
use vstd::utf8::encode_utf8;
use crate::text::{decimal, extend_str, join, push_decimal, push_joined, push_repeat, repeat_char, str_eq, string_from};

verus! {

// ---------------------------------------------------------------------------
// Per-file results.
// ---------------------------------------------------------------------------

/// One matching line of a file.
#[derive(Debug)]
pub struct LineHit {
    pub line_number: usize,
    pub matched_filters: Vec<String>,
    pub match_line: String,
}

/// The plain content of a [`LineHit`].
pub struct LineHitEntry {
    pub line_number: usize,
    pub matched_filters: Seq<Seq<char>>,
    pub match_line: Seq<char>,
}

impl View for LineHit {
    type V = LineHitEntry;

    open spec fn view(&self) -> LineHitEntry {
        LineHitEntry {
            line_number: self.line_number,
            matched_filters: self.matched_filters.deep_view(),
            match_line: self.match_line@,
        }
    }
}

impl DeepView for LineHit {
    type V = LineHitEntry;

    open spec fn deep_view(&self) -> LineHitEntry {
        self@
    }
}

/// One file with hits, as the results list shows it.
#[derive(Debug)]
pub struct FileResultView {
    pub full_name: String,
    pub file_name: String,
    pub hit_count: usize,
    pub hits: Vec<LineHit>,
    pub low_confidence_pdf: bool,
}

/// The plain content of a [`FileResultView`].
pub struct FileResultEntry {
    pub full_name: Seq<char>,
    pub file_name: Seq<char>,
    pub hit_count: usize,
    pub hits: Seq<LineHitEntry>,
    pub low_confidence_pdf: bool,
}

impl View for FileResultView {
    type V = FileResultEntry;

    open spec fn view(&self) -> FileResultEntry {
        FileResultEntry {
            full_name: self.full_name@,
            file_name: self.file_name@,
            hit_count: self.hit_count,
            hits: self.hits.deep_view(),
            low_confidence_pdf: self.low_confidence_pdf,
        }
    }
}

impl DeepView for FileResultView {
    type V = FileResultEntry;

    open spec fn deep_view(&self) -> FileResultEntry {
        self@
    }
}

/// A copy of a list of strings.
pub fn copy_strings(v: &Vec<String>) -> (r: Vec<String>)
    ensures
        r.deep_view() == v.deep_view(),
{
    let mut out: Vec<String> = Vec::new();
    let mut i: usize = 0;
    while i < v.len()
        invariant
            i <= v.len(),
            out.deep_view() == v.deep_view().take(i as int),
        decreases v.len() - i,
    {
        let c = v[i].clone();
        assert(c@ == v@[i as int]@);
        let ghost before = out.deep_view();
        out.push(c);
        assert(out.deep_view() =~= before.push(v@[i as int].deep_view()));
        assert(out.deep_view() =~= v.deep_view().take(i as int + 1));
        i = i + 1;
    }
    assert(v.deep_view().take(v.len() as int) =~= v.deep_view());
    out
}

impl LineHit {
    /// A copy of this hit.
    pub fn duplicate(&self) -> (r: LineHit)
        ensures
            r@ == self@,
    {
        LineHit {
            line_number: self.line_number,
            matched_filters: copy_strings(&self.matched_filters),
            match_line: self.match_line.clone(),
        }
    }
}

fn copy_hits(v: &Vec<LineHit>) -> (r: Vec<LineHit>)
    ensures
        r.deep_view() == v.deep_view(),
{
    let mut out: Vec<LineHit> = Vec::new();
    let mut i: usize = 0;
    while i < v.len()
        invariant
            i <= v.len(),
            out.deep_view() == v.deep_view().take(i as int),
        decreases v.len() - i,
    {
        let c = v[i].duplicate();
        let ghost before = out.deep_view();
        out.push(c);
        assert(out.deep_view() =~= before.push(v@[i as int].deep_view()));
        assert(out.deep_view() =~= v.deep_view().take(i as int + 1));
        i = i + 1;
    }
    assert(v.deep_view().take(v.len() as int) =~= v.deep_view());
    out
}

/// The text of one hit in a file's hit export: "Line N (matched: f1, f2):",
/// the matching line, and a blank line.
pub open spec fn hit_text(h: LineHitEntry) -> Seq<char> {
    "Line "@ + decimal(h.line_number as nat) + " (matched: "@ + join(h.matched_filters, ", "@) + "):\n"@
        + h.match_line + "\n\n"@
}

/// The texts of the hits, one after another.
pub open spec fn hits_text(hits: Seq<LineHitEntry>) -> Seq<char>
    decreases hits.len(),
{
    if hits.len() == 0 {
        Seq::empty()
    } else {
        hits_text(hits.drop_last()) + hit_text(hits.last())
    }
}

/// A file's hit export: its full name, a line of `=` as long as the name's
/// UTF-8 encoding in bytes (`str::len`), a blank line, then every hit (see [`hit_text`]).
pub open spec fn result_text(r: FileResultEntry) -> Seq<char> {
    r.full_name + "\n"@ + repeat_char('=', (encode_utf8(r.full_name).len() as usize) as nat) + "\n\n"@ + hits_text(r.hits)
}

impl FileResultView {
    /// A copy of this result.
    pub fn duplicate(&self) -> (r: FileResultView)
        ensures
            r@ == self@,
    {
        FileResultView {
            full_name: self.full_name.clone(),
            file_name: self.file_name.clone(),
            hit_count: self.hit_count,
            hits: copy_hits(&self.hits),
            low_confidence_pdf: self.low_confidence_pdf,
        }
    }

    /// A result for the file `full_name` with the given hits; its display
    /// name is the final component of the path (see
    /// [`crate::history::slash_path_file_name`] for paths written with `/`),
    /// or the whole path when the path has none, and its hit count is the
    /// number of hits.
    pub fn new(full_name: String, hits: Vec<LineHit>, low_confidence_pdf: bool) -> (r: FileResultView)
        ensures
            r.full_name@ == full_name@,
            r.hits.deep_view() == hits.deep_view(),
            r.hit_count == hits.len(),
            r.low_confidence_pdf == low_confidence_pdf,
            r.file_name@ == full_name@ || (r.file_name@.len() > 0 && crate::text::contains_seq(
                full_name@,
                r.file_name@,
            ) && (!crate::history::verbatim_path(full_name@) ==> !r.file_name@.contains('/'))),
            crate::history::slash_only_path(full_name@) ==> r.file_name@ == match crate::history::slash_path_file_name(
                full_name@,
            ) {
                Some(n) => n,
                None => full_name@,
            },
    {
        let file_name = match crate::history::file_name_of_path(full_name.as_str()) {
            Some(n) => n,
            None => full_name.clone(),
        };
        let hit_count = hits.len();
        FileResultView { full_name, file_name, hit_count, hits, low_confidence_pdf }
    }

    /// Plain-text rendering of just this file's hits (see [`result_text`]).
    pub fn hits_as_text(&self) -> (r: String)
        requires
            self.hits.len() < usize::MAX,
        ensures
            r@ == result_text(self@),
    {
        let mut out: Vec<char> = Vec::new();
        extend_str(&mut out, self.full_name.as_str());
        extend_str(&mut out, "\n");
        let n = self.full_name.as_str().len();
        assert(n == encode_utf8(self.full_name@).len() as usize);
        push_repeat(&mut out, '=', n);
        extend_str(&mut out, "\n\n");
        assert(out@ == self.full_name@ + "\n"@ + repeat_char('=', (encode_utf8(self.full_name@).len() as usize) as nat) + "\n\n"@);
        let ghost head = out@;
        let ghost hv = self.hits.deep_view();
        let mut i: usize = 0;
        assert(hv.take(0) =~= Seq::<LineHitEntry>::empty());
        assert(out@ =~= head + hits_text(hv.take(0)));
        while i < self.hits.len()
            invariant
                i <= self.hits.len(),
                hv == self.hits.deep_view(),
                out@ == head + hits_text(hv.take(i as int)),
            decreases self.hits.len() - i,
        {
            let h = &self.hits[i];
            let ghost before = out@;
            extend_str(&mut out, "Line ");
            push_decimal(&mut out, h.line_number as u64);
            extend_str(&mut out, " (matched: ");
            push_joined(&mut out, &h.matched_filters, ", ");
            extend_str(&mut out, "):\n");
            extend_str(&mut out, h.match_line.as_str());
            extend_str(&mut out, "\n\n");
            assert(out@ =~= before + hit_text(hv[i as int]));
            assert(hv.take(i as int + 1).drop_last() =~= hv.take(i as int));
            i = i + 1;
        }
        assert(hv.take(self.hits.len() as int) =~= hv);
        assert(out@ == result_text(self@));
        string_from(out.as_slice())
    }
}

// ---------------------------------------------------------------------------
// Paging and keyboard selection.
// ---------------------------------------------------------------------------

/// Results shown per page of the results list.
pub const RESULTS_PAGE_SIZE: usize = 50;

/// The number of result pages: at least one, and enough to show every
/// result.
pub open spec fn page_count_of(total: nat) -> nat {
    if total == 0 {
        1
    } else {
        ((total + 49) / 50) as nat
    }
}

/// The number of pages the results list has.
pub fn page_count(total: usize) -> (r: usize)
    ensures
        r == page_count_of(total as nat),
        r >= 1,
        (r - 1) * 50 <= (if total == 0 { 0 } else { total - 1 }),
        total <= r * 50,
{
    if total == 0 {
        1
    } else {
        (total - 1) / RESULTS_PAGE_SIZE + 1
    }
}

/// The first result and one past the last result shown on `page`.
pub fn page_bounds(total: usize, page: usize) -> (r: (usize, usize))
    ensures
        r.0 == (if page as int * 50 <= total { page as int * 50 } else { total as int }),
        r.1 == (if r.0 + 50 <= total { r.0 + 50 } else { total as int }),
{
    let start = if page <= total / RESULTS_PAGE_SIZE {
        page * RESULTS_PAGE_SIZE
    } else {
        total
    };
    assert(page <= total / 50 <==> page * 50 <= total) by (nonlinear_arith);
    let end = if total - start >= RESULTS_PAGE_SIZE {
        start + RESULTS_PAGE_SIZE
    } else {
        total
    };
    (start, end)
}

/// `i` is the first result for the file `name`.
pub open spec fn is_first_result(rs: Seq<FileResultEntry>, name: Seq<char>, i: int) -> bool {
    0 <= i < rs.len() && rs[i].full_name == name && forall|j: int|
        0 <= j < i ==> (#[trigger] rs[j]).full_name != name
}

/// The position of the selected file in the list, if it is there.
pub open spec fn selected_position(rs: Seq<FileResultEntry>, selected: Option<FileResultEntry>) -> Option<int> {
    match selected {
        Some(s) => if exists|i: int| is_first_result(rs, s.full_name, i) {
            Some(choose|i: int| is_first_result(rs, s.full_name, i))
        } else {
            None
        },
        None => None,
    }
}

/// The result selected after moving `delta` rows from the current
/// selection: the move is clamped to the list; with no (findable)
/// selection, a forward move selects the first result and a backward move
/// the last.
pub open spec fn next_selection(rs: Seq<FileResultEntry>, selected: Option<FileResultEntry>, delta: int) -> int {
    match selected_position(rs, selected) {
        Some(i) => if i + delta < 0 {
            0
        } else if i + delta > rs.len() - 1 {
            rs.len() - 1
        } else {
            i + delta
        },
        None => if delta >= 0 {
            0
        } else {
            rs.len() - 1
        },
    }
}

fn position_of(results: &Vec<FileResultView>, name: &String) -> (r: Option<usize>)
    ensures
        r matches Some(i) ==> is_first_result(results.deep_view(), name@, i as int),
        r is None ==> !exists|i: int| is_first_result(results.deep_view(), name@, i),
{
    let ghost rs = results.deep_view();
    let mut i: usize = 0;
    while i < results.len()
        invariant
            i <= results.len(),
            rs == results.deep_view(),
            forall|j: int| 0 <= j < i ==> (#[trigger] rs[j]).full_name != name@,
        decreases results.len() - i,
    {
        if str_eq(results[i].full_name.as_str(), name.as_str()) {
            return Some(i);
        }
        i = i + 1;
    }
    None
}

proof fn lemma_first_result_unique(rs: Seq<FileResultEntry>, name: Seq<char>, i: int)
    requires
        is_first_result(rs, name, i),
    ensures
        (choose|k: int| is_first_result(rs, name, k)) == i,
{
    let w = choose|k: int| is_first_result(rs, name, k);
    if w < i {
        assert(rs[w].full_name != name);
    } else if w > i {
        assert(rs[i].full_name != name);
    }
}

/// Moves the selection `delta` rows through the whole results list (see
/// [`next_selection`]) and turns to the page that shows the new selection.
/// With no results nothing changes.
pub fn select_relative(
    results: &Vec<FileResultView>,
    selected: &mut Option<FileResultView>,
    page: &mut usize,
    delta: i32,
)
    requires
        results.len() <= i32::MAX,
    ensures
        results.len() == 0 ==> final(selected).deep_view() == old(selected).deep_view() && *final(page)
            == *old(page),
        results.len() > 0 ==> {
            let k = next_selection(results.deep_view(), old(selected).deep_view(), delta as int);
            &&& 0 <= k < results.len()
            &&& final(selected).deep_view() == Some(results.deep_view()[k])
            &&& *final(page) == k / 50
        },
{
    if results.len() == 0 {
        return;
    }
    let ghost rs = results.deep_view();
    let ghost sel = selected.deep_view();
    let current: Option<usize> = match selected {
        Some(s) => position_of(results, &s.full_name),
        None => None,
    };
    proof {
        match current {
            Some(i) => {
                lemma_first_result_unique(rs, sel->0.full_name, i as int);
            },
            None => {},
        }
    }
    let len = results.len() as i64;
    let next: usize = match current {
        Some(i) => {
            let t: i64 = i as i64 + delta as i64;
            if t < 0 {
                0
            } else if t > len - 1 {
                (len - 1) as usize
            } else {
                t as usize
            }
        },
        None => if delta >= 0 {
            0
        } else {
            results.len() - 1
        },
    };
    assert(next == next_selection(rs, sel, delta as int));
    *selected = Some(results[next].duplicate());
    *page = next / RESULTS_PAGE_SIZE;
}

/// The page shown after a selection move always holds the selected result.
pub proof fn lemma_selection_is_on_its_page(k: int)
    requires
        k >= 0,
    ensures
        (k / 50) * 50 <= k < (k / 50) * 50 + 50,
{
}

// ---------------------------------------------------------------------------
// Merging the results of several folders.
// ---------------------------------------------------------------------------

/// The counters of one search run.
#[derive(Debug)]
pub struct SearchRunSummary {
    pub files_searched: usize,
    pub skipped_too_large: usize,
    pub skipped_binary: usize,
    pub skipped_read_error: usize,
    pub skipped_by_exclude: usize,
    pub skipped_by_mode: usize,
    pub skipped_unexpected_error: usize,
    pub cache_reused: usize,
    pub enumeration_errors: usize,
    pub warnings: Vec<String>,
}

/// One run's results: the per-file results, its counters, and, for a dry
/// run, the files it would have searched.
#[derive(Debug)]
pub struct SearchRunResult<F> {
    pub file_results: Vec<F>,
    pub summary: SearchRunSummary,
    pub was_dry_run: bool,
    pub dry_run_candidates: Option<Vec<String>>,
}

/// Every counter of `a` plus the same counter of `b` fits in a `usize`.
pub open spec fn counters_fit(a: SearchRunSummary, b: SearchRunSummary) -> bool {
    &&& a.files_searched + b.files_searched <= usize::MAX
    &&& a.skipped_too_large + b.skipped_too_large <= usize::MAX
    &&& a.skipped_binary + b.skipped_binary <= usize::MAX
    &&& a.skipped_read_error + b.skipped_read_error <= usize::MAX
    &&& a.skipped_by_exclude + b.skipped_by_exclude <= usize::MAX
    &&& a.skipped_by_mode + b.skipped_by_mode <= usize::MAX
    &&& a.skipped_unexpected_error + b.skipped_unexpected_error <= usize::MAX
    &&& a.cache_reused + b.cache_reused <= usize::MAX
    &&& a.enumeration_errors + b.enumeration_errors <= usize::MAX
}

/// `s` holds the sums of the counters of `a` and `b`.
pub open spec fn counters_summed(s: SearchRunSummary, a: SearchRunSummary, b: SearchRunSummary) -> bool {
    &&& s.files_searched == a.files_searched + b.files_searched
    &&& s.skipped_too_large == a.skipped_too_large + b.skipped_too_large
    &&& s.skipped_binary == a.skipped_binary + b.skipped_binary
    &&& s.skipped_read_error == a.skipped_read_error + b.skipped_read_error
    &&& s.skipped_by_exclude == a.skipped_by_exclude + b.skipped_by_exclude
    &&& s.skipped_by_mode == a.skipped_by_mode + b.skipped_by_mode
    &&& s.skipped_unexpected_error == a.skipped_unexpected_error + b.skipped_unexpected_error
    &&& s.cache_reused == a.cache_reused + b.cache_reused
    &&& s.enumeration_errors == a.enumeration_errors + b.enumeration_errors
}

fn move_all<T>(dst: &mut Vec<T>, src: Vec<T>)
    ensures
        final(dst)@ == old(dst)@ + src@,
{
    let ghost d0 = dst@;
    let ghost all = src@;
    for x in iter: src
        invariant
            iter.seq() == all,
            dst@ == d0 + all.take(iter.index() as int),
    {
        let ghost i = iter.index() as int;
        assert(x == all[i]);
        dst.push(x);
        assert(dst@ =~= d0 + all.take(i + 1));
    }
    assert(all.take(all.len() as int) =~= all);
}

/// Folds one folder's run into the running multi-folder total: per-file
/// results, warnings and dry-run candidates are concatenated and every
/// counter is summed; whether the total is a dry run stays as it was.
pub fn merge_run_result<F>(acc: &mut SearchRunResult<F>, next: SearchRunResult<F>)
    requires
        counters_fit(old(acc).summary, next.summary),
    ensures
        final(acc).file_results@ == old(acc).file_results@ + next.file_results@,
        counters_summed(final(acc).summary, old(acc).summary, next.summary),
        final(acc).summary.warnings.deep_view() == old(acc).summary.warnings.deep_view()
            + next.summary.warnings.deep_view(),
        final(acc).was_dry_run == old(acc).was_dry_run,
        final(acc).dry_run_candidates.deep_view() == match next.dry_run_candidates {
            Some(c) => Some(
                match old(acc).dry_run_candidates {
                    Some(a) => a.deep_view(),
                    None => Seq::<Seq<char>>::empty(),
                } + c.deep_view(),
            ),
            None => old(acc).dry_run_candidates.deep_view(),
        },
{
    let SearchRunResult { file_results, summary, was_dry_run: _, dry_run_candidates } = next;
    move_all(&mut acc.file_results, file_results);
    acc.summary.files_searched = acc.summary.files_searched + summary.files_searched;
    acc.summary.skipped_too_large = acc.summary.skipped_too_large + summary.skipped_too_large;
    acc.summary.skipped_binary = acc.summary.skipped_binary + summary.skipped_binary;
    acc.summary.skipped_read_error = acc.summary.skipped_read_error + summary.skipped_read_error;
    acc.summary.skipped_by_exclude = acc.summary.skipped_by_exclude + summary.skipped_by_exclude;
    acc.summary.skipped_by_mode = acc.summary.skipped_by_mode + summary.skipped_by_mode;
    acc.summary.skipped_unexpected_error = acc.summary.skipped_unexpected_error
        + summary.skipped_unexpected_error;
    acc.summary.cache_reused = acc.summary.cache_reused + summary.cache_reused;
    acc.summary.enumeration_errors = acc.summary.enumeration_errors + summary.enumeration_errors;
    let ghost w0 = acc.summary.warnings.deep_view();
    let ghost w1 = summary.warnings.deep_view();
    move_all(&mut acc.summary.warnings, summary.warnings);
    assert(acc.summary.warnings.deep_view() =~= w0 + w1);
    match dry_run_candidates {
        Some(cands) => {
            let ghost cv = cands.deep_view();
            let mut base: Vec<String> = match acc.dry_run_candidates.take() {
                Some(a) => a,
                None => Vec::new(),
            };
            let ghost b0 = base.deep_view();
            move_all(&mut base, cands);
            assert(base.deep_view() =~= b0 + cv);
            acc.dry_run_candidates = Some(base);
        },
        None => {},
    }
}

// ---------------------------------------------------------------------------
// Status and summary lines.
// ---------------------------------------------------------------------------

/// The status line while files are still being listed.
pub open spec fn scanning_text(found: nat) -> Seq<char> {
    if found > 0 {
        "Scanning folders... "@ + decimal(found) + " file(s) found so far"@
    } else {
        "Scanning folders..."@
    }
}

/// The status line while files are still being listed.
pub fn scanning_status(found: usize) -> (r: String)
    ensures
        r@ == scanning_text(found as nat),
{
    let mut out: Vec<char> = Vec::new();
    if found > 0 {
        extend_str(&mut out, "Scanning folders... ");
        push_decimal(&mut out, found as u64);
        extend_str(&mut out, " file(s) found so far");
    } else {
        extend_str(&mut out, "Scanning folders...");
    }
    string_from(out.as_slice())
}

/// The status line while files are being searched.
pub open spec fn progress_text(completed: nat, total: nat, hits: nat) -> Seq<char> {
    decimal(completed) + " of "@ + decimal(total) + " file(s) - "@ + decimal(hits) + " hit(s) so far"@
}

/// The status line while files are being searched.
pub fn progress_status(completed: usize, total: usize, hits: usize) -> (r: String)
    ensures
        r@ == progress_text(completed as nat, total as nat, hits as nat),
{
    let mut out: Vec<char> = Vec::new();
    push_decimal(&mut out, completed as u64);
    extend_str(&mut out, " of ");
    push_decimal(&mut out, total as u64);
    extend_str(&mut out, " file(s) - ");
    push_decimal(&mut out, hits as u64);
    extend_str(&mut out, " hit(s) so far");
    string_from(out.as_slice())
}

/// The status line of a multi-folder search: "Searching folder N of M:
/// <folder>", numbered from one.
pub open spec fn folder_progress_text(index: nat, count: nat, root: Seq<char>) -> Seq<char> {
    "Searching folder "@ + decimal(index + 1) + " of "@ + decimal(count) + ": "@ + root
}

/// The status line of a multi-folder search (see [`folder_progress_text`]).
pub fn folder_progress_status(index: usize, count: usize, root: &str) -> (r: String)
    requires
        index < usize::MAX,
    ensures
        r@ == folder_progress_text(index as nat, count as nat, root@),
{
    let mut out: Vec<char> = Vec::new();
    extend_str(&mut out, "Searching folder ");
    push_decimal(&mut out, (index + 1) as u64);
    extend_str(&mut out, " of ");
    push_decimal(&mut out, count as u64);
    extend_str(&mut out, ": ");
    extend_str(&mut out, root);
    string_from(out.as_slice())
}

/// The message of a dry run.
pub open spec fn dry_run_text(count: nat) -> Seq<char> {
    "Dry run: "@ + decimal(count) + " file(s) would be searched. Nothing was read or written."@
}

/// The message of a dry run.
pub fn dry_run_message(count: usize) -> (r: String)
    ensures
        r@ == dry_run_text(count as nat),
{
    let mut out: Vec<char> = Vec::new();
    extend_str(&mut out, "Dry run: ");
    push_decimal(&mut out, count as u64);
    extend_str(&mut out, " file(s) would be searched. Nothing was read or written.");
    string_from(out.as_slice())
}

/// The counts one summary line reports.
pub struct RunCounts {
    pub files_searched: usize,
    pub files_with_hits: usize,
    pub total_hits: usize,
    pub skipped_too_large: usize,
    pub skipped_binary: usize,
    pub skipped_read_error: usize,
    pub skipped_unexpected_error: usize,
    pub enumeration_errors: usize,
}

/// The files whose flag says they have hits, in order.
pub open spec fn kept_hits(files: Seq<FileResultView>, is_hit: Seq<bool>) -> Seq<FileResultView>
    decreases files.len(),
{
    if files.len() == 0 {
        Seq::empty()
    } else {
        let prev = kept_hits(files.drop_last(), is_hit.take(files.len() - 1));
        if is_hit[files.len() - 1] {
            prev.push(files.last())
        } else {
            prev
        }
    }
}

/// Keeps the files with hits (see [`kept_hits`]); `is_hit[i]` tells
/// whether `files[i]` has hits.
pub fn keep_hits(files: Vec<FileResultView>, is_hit: &Vec<bool>) -> (r: Vec<FileResultView>)
    requires
        files.len() == is_hit.len(),
    ensures
        r@ == kept_hits(files@, is_hit@),
{
    let ghost all = files@;
    let mut out: Vec<FileResultView> = Vec::new();
    let mut j: usize = 0;
    assert(all.take(0) =~= Seq::<FileResultView>::empty());
    for f in iter: files
        invariant
            iter.seq() == all,
            all.len() == is_hit.len(),
            j == iter.index(),
            out@ == kept_hits(all.take(j as int), is_hit@.take(j as int)),
    {
        let ghost i = j as int;
        assert(f == all[i]);
        assert(all.take(i + 1).drop_last() =~= all.take(i));
        assert(is_hit@.take(i + 1).take(i) =~= is_hit@.take(i));
        assert(is_hit@.take(i + 1)[i] == is_hit@[i]);
        if is_hit[j] {
            out.push(f);
        }
        j = j + 1;
    }
    assert(all.take(all.len() as int) =~= all);
    assert(is_hit@.take(all.len() as int) =~= is_hit@);
    out
}

/// The number of hits over all the given files.
pub open spec fn total_hits_of(files: Seq<FileResultView>) -> int
    decreases files.len(),
{
    if files.len() == 0 {
        0
    } else {
        total_hits_of(files.drop_last()) + files.last().hits.len()
    }
}

/// The counts reported for a run whose files with hits are `hits`: the
/// number of those files and of their hits, the rest from the run's
/// counters.
pub open spec fn counts_for(hits: Seq<FileResultView>, summary: SearchRunSummary) -> RunCounts {
    RunCounts {
        files_searched: summary.files_searched,
        files_with_hits: hits.len() as usize,
        total_hits: total_hits_of(hits) as usize,
        skipped_too_large: summary.skipped_too_large,
        skipped_binary: summary.skipped_binary,
        skipped_read_error: summary.skipped_read_error,
        skipped_unexpected_error: summary.skipped_unexpected_error,
        enumeration_errors: summary.enumeration_errors,
    }
}

proof fn lemma_total_hits_grows(files: Seq<FileResultView>, i: int)
    requires
        0 <= i <= files.len(),
    ensures
        total_hits_of(files.take(i)) <= total_hits_of(files),
    decreases files.len(),
{
    if i < files.len() {
        assert(files.drop_last().take(i) =~= files.take(i));
        lemma_total_hits_grows(files.drop_last(), i);
    } else {
        assert(files.take(i) =~= files);
    }
}

/// The counts of a run (see [`counts_for`]), the files with hits and their
/// hits counted from `hits`.
pub fn run_counts(hits: &Vec<FileResultView>, summary: &SearchRunSummary) -> (r: RunCounts)
    requires
        total_hits_of(hits@) <= usize::MAX,
    ensures
        r == counts_for(hits@, *summary),
{
    let mut total: usize = 0;
    let mut i: usize = 0;
    while i < hits.len()
        invariant
            i <= hits.len(),
            total == total_hits_of(hits@.take(i as int)),
            total_hits_of(hits@) <= usize::MAX,
        decreases hits.len() - i,
    {
        proof {
            assert(hits@.take(i as int + 1).drop_last() =~= hits@.take(i as int));
            lemma_total_hits_grows(hits@, i as int + 1);
        }
        total = total + hits[i].hits.len();
        i = i + 1;
    }
    assert(hits@.take(hits.len() as int) =~= hits@);
    RunCounts {
        files_searched: summary.files_searched,
        files_with_hits: hits.len(),
        total_hits: total,
        skipped_too_large: summary.skipped_too_large,
        skipped_binary: summary.skipped_binary,
        skipped_read_error: summary.skipped_read_error,
        skipped_unexpected_error: summary.skipped_unexpected_error,
        enumeration_errors: summary.enumeration_errors,
    }
}

/// The first sentence pair of a run summary.
pub open spec fn summary_core(c: RunCounts) -> Seq<char> {
    "Searched "@ + decimal(c.files_searched as nat) + " file(s). "@ + decimal(c.files_with_hits as nat)
        + " file(s) with hits, "@ + decimal(c.total_hits as nat) + " total hits. Skipped: "@ + decimal(
        c.skipped_too_large as nat,
    ) + " too large, "@ + decimal(c.skipped_binary as nat) + " binary, "@ + decimal(
        c.skipped_read_error as nat,
    ) + " unreadable, "@ + decimal(c.skipped_unexpected_error as nat) + " unexpected errors."@
}

/// The results summary the window shows after a run: the counts, followed,
/// when some folders or files could not be listed, by a sentence saying
/// how many.
pub open spec fn run_summary_text(c: RunCounts) -> Seq<char> {
    summary_core(c) + if c.enumeration_errors > 0 {
        " "@ + decimal(c.enumeration_errors as nat)
            + " folder(s)/file(s) couldn't be listed (permissions or a broken link)."@
    } else {
        Seq::<char>::empty()
    }
}

fn push_summary_core(out: &mut Vec<char>, c: &RunCounts)
    ensures
        final(out)@ == old(out)@ + summary_core(*c),
{
    extend_str(out, "Searched ");
    push_decimal(out, c.files_searched as u64);
    extend_str(out, " file(s). ");
    push_decimal(out, c.files_with_hits as u64);
    extend_str(out, " file(s) with hits, ");
    push_decimal(out, c.total_hits as u64);
    extend_str(out, " total hits. Skipped: ");
    push_decimal(out, c.skipped_too_large as u64);
    extend_str(out, " too large, ");
    push_decimal(out, c.skipped_binary as u64);
    extend_str(out, " binary, ");
    push_decimal(out, c.skipped_read_error as u64);
    extend_str(out, " unreadable, ");
    push_decimal(out, c.skipped_unexpected_error as u64);
    extend_str(out, " unexpected errors.");
}

/// The results summary of a run (see [`run_summary_text`]).
pub fn run_summary(c: &RunCounts) -> (r: String)
    ensures
        r@ == run_summary_text(*c),
{
    let mut out: Vec<char> = Vec::new();
    push_summary_core(&mut out, c);
    if c.enumeration_errors > 0 {
        extend_str(&mut out, " ");
        push_decimal(&mut out, c.enumeration_errors as u64);
        extend_str(&mut out, " folder(s)/file(s) couldn't be listed (permissions or a broken link).");
    }
    string_from(out.as_slice())
}

/// The summary the command-line tool prints: the counts without the
/// listing-errors sentence.
pub fn cli_run_summary(c: &RunCounts) -> (r: String)
    ensures
        r@ == summary_core(*c),
{
    let mut out: Vec<char> = Vec::new();
    push_summary_core(&mut out, c);
    string_from(out.as_slice())
}

/// Reports larger than this many bytes get a warning in the summary.
pub const LARGE_REPORT_WARNING_BYTES: usize = 25 * 1024 * 1024;

/// A byte count in mebibytes rounded to the nearest whole number, halves
/// to the even one, as `{:.0}` writes the quotient.
pub open spec fn rounded_mb(bytes: nat) -> nat {
    let q = bytes / 1048576;
    let rem = bytes % 1048576;
    if rem > 524288 || (rem == 524288 && q % 2 == 1) {
        q + 1
    } else {
        q
    }
}

/// The sentence added to the summary after a report of `bytes` bytes.
pub open spec fn large_report_text(bytes: nat) -> Seq<char> {
    " Warning: this report is "@ + decimal(rounded_mb(bytes))
        + " MB - a browser may be slow to open it. Consider narrowing your filters or search folder."@
}

/// The warning for a report of `report_bytes` bytes: none up to
/// [`LARGE_REPORT_WARNING_BYTES`], otherwise [`large_report_text`]. The
/// report is still written either way.
pub fn large_report_warning(report_bytes: usize) -> (r: Option<String>)
    ensures
        report_bytes <= LARGE_REPORT_WARNING_BYTES ==> r is None,
        report_bytes > LARGE_REPORT_WARNING_BYTES ==> (r matches Some(w) && w@ == large_report_text(
            report_bytes as nat,
        )),
{
    if report_bytes <= LARGE_REPORT_WARNING_BYTES {
        return None;
    }
    let q: usize = report_bytes / 1048576;
    let rem: usize = report_bytes % 1048576;
    let mb: usize = if rem > 524288 || (rem == 524288 && q % 2 == 1) {
        q + 1
    } else {
        q
    };
    assert(mb as nat == rounded_mb(report_bytes as nat));
    let mut out: Vec<char> = Vec::new();
    extend_str(&mut out, " Warning: this report is ");
    push_decimal(&mut out, mb as u64);
    extend_str(
        &mut out,
        " MB - a browser may be slow to open it. Consider narrowing your filters or search folder.",
    );
    Some(string_from(out.as_slice()))
}

/// The fast re-search status after a query: "No results." or "N result(s).".
pub open spec fn native_results_text(count: nat) -> Seq<char> {
    if count == 0 {
        "No results."@
    } else {
        decimal(count) + " result(s)."@
    }
}

/// The fast re-search status after a query (see [`native_results_text`]).
pub fn native_results_status(count: usize) -> (r: String)
    ensures
        r@ == native_results_text(count as nat),
{
    let mut out: Vec<char> = Vec::new();
    if count == 0 {
        extend_str(&mut out, "No results.");
    } else {
        push_decimal(&mut out, count as u64);
        extend_str(&mut out, " result(s).");
    }
    string_from(out.as_slice())
}

} // verus!
