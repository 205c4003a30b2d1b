//! What the results panel shows: the empty-state message, the page it
//! is on and its pager, the width of each statistics bar, and the file a
//! single result's hits are exported to.

use vstd::prelude::*;
use crate::fields::{sanitize_file_name, sanitized};
use crate::results::{page_count, page_count_of};
use crate::text::{decimal, extend_str, push_decimal, str_eq, string_from};

verus! {

/// A search has been started once the status line has left "Ready.".
pub fn search_has_started(status_text: &str) -> (r: bool)
    ensures
        r == (status_text@ != "Ready."@),
{
    !str_eq(status_text, "Ready.")
}

/// The title and caption shown when there are no results: before any
/// search an invitation to start one, afterwards a note that nothing
/// matched.
pub fn empty_state_text(has_started: bool) -> (r: (&'static str, &'static str))
    ensures
        has_started ==> r.0@ == "No matches"@ && r.1@
            == "Nothing matched your current filters. Try a broader term, or remove an exclude filter."@,
        !has_started ==> r.0@ == "Search anything"@ && r.1@
            == "Choose a search folder and at least one filter on the left, then Run Search."@,
{
    if has_started {
        (
            "No matches",
            "Nothing matched your current filters. Try a broader term, or remove an exclude filter.",
        )
    } else {
        ("Search anything", "Choose a search folder and at least one filter on the left, then Run Search.")
    }
}

/// The page actually shown: the selected page, or the last page when the
/// selection lies beyond it.
pub fn shown_page(selected_page: usize, total: usize) -> (r: usize)
    ensures
        r == (if selected_page < page_count_of(total as nat) {
            selected_page as int
        } else {
            page_count_of(total as nat) - 1
        }),
        r < page_count_of(total as nat),
{
    let pages = page_count(total);
    if selected_page < pages {
        selected_page
    } else {
        pages - 1
    }
}

/// The pager's caption: "Page N of M (T total)", pages numbered from one.
pub open spec fn pager_text(page: nat, pages: nat, total: nat) -> Seq<char> {
    "Page "@ + decimal(page + 1) + " of "@ + decimal(pages) + " ("@ + decimal(total) + " total)"@
}

/// The pager's caption (see [`pager_text`]).
pub fn pager_caption(page: usize, pages: usize, total: usize) -> (r: String)
    requires
        page < usize::MAX,
    ensures
        r@ == pager_text(page as nat, pages as nat, total as nat),
{
    let mut out: Vec<char> = Vec::new();
    extend_str(&mut out, "Page ");
    push_decimal(&mut out, (page + 1) as u64);
    extend_str(&mut out, " of ");
    push_decimal(&mut out, pages as u64);
    extend_str(&mut out, " (");
    push_decimal(&mut out, total as u64);
    extend_str(&mut out, " total)");
    string_from(out.as_slice())
}

/// Whether the pager's previous and next buttons are enabled on `page`.
pub fn pager_buttons(page: usize, pages: usize) -> (r: (bool, bool))
    ensures
        r.0 == (page > 0),
        r.1 == (page + 1 < pages),
{
    (page > 0, page < pages && pages - page > 1)
}

/// The width, in percent, of a statistics bar for `count` when the largest
/// count is `max_count` (taken as at least one).
pub fn stat_bar_width(count: usize, max_count: usize) -> (r: usize)
    requires
        count <= usize::MAX / 100,
    ensures
        r == 100 * count / (if max_count == 0 { 1 } else { max_count as int }),
{
    let m = if max_count == 0 { 1 } else { max_count };
    100 * count / m
}

/// No bar is wider than the full width, and the bar of the largest count
/// fills it.
pub proof fn lemma_stat_bars_fit(count: nat, max_count: nat)
    requires
        0 < max_count,
        count <= max_count,
    ensures
        100 * count / max_count <= 100,
        count == max_count ==> 100 * count / max_count == 100,
{
    assert(100 * count <= 100 * max_count) by (nonlinear_arith)
        requires
            count <= max_count,
    ;
    assert(100 * count / max_count <= 100) by (nonlinear_arith)
        requires
            100 * count <= 100 * max_count,
            0 < max_count,
    ;
    if count == max_count {
        assert(100 * count / max_count == 100) by (nonlinear_arith)
            requires
                count == max_count,
                0 < max_count,
        ;
    }
}

/// The statistics bars are shown only when there are at least two
/// extensions to compare.
pub fn shows_stat_bars(entries: usize) -> (r: bool)
    ensures
        r == (entries > 1),
{
    entries > 1
}

/// The name of the text file one result's hits are exported to: the file
/// name without its extension, made safe for a file name, then `_hits.txt`.
pub fn hits_export_name(file_stem: &str) -> (r: String)
    ensures
        r@ == sanitized(file_stem@) + "_hits.txt"@,
{
    let safe = sanitize_file_name(file_stem);
    let mut out: Vec<char> = Vec::new();
    extend_str(&mut out, safe.as_str());
    extend_str(&mut out, "_hits.txt");
    string_from(out.as_slice())
}

} // verus!
