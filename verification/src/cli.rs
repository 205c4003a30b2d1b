//! Decisions of the command-line front end: which one-shot maintenance
//! action a set of flags asks for, what each maintenance action needs, and
//! the interactive wizard's prompts and the values its answers select.

use vstd::prelude::*;
use crate::fields::{list_of, parse_list, ExcludeScope, GroupByMode, MatchMode};
use crate::text::{decimal, extend_str, push_decimal, string_from, trim, trim_str};

verus! {

/// A one-shot maintenance action run instead of a search.
#[derive(Debug, Clone, Copy, PartialEq, Eq, Structural)]
pub enum MaintenanceAction {
    ListFailures,
    ClearCache,
    VerifyIndex,
    RemoveOrphaned,
}

/// The maintenance flags given on the command line.
#[derive(Debug, Clone, Copy, PartialEq, Eq, Structural)]
pub struct MaintenanceFlags {
    pub list_failures: bool,
    pub clear_cache: bool,
    pub verify_index: bool,
    pub remove_orphaned: bool,
}

/// The action the flags select: the first present of list-failures,
/// clear-cache, verify-index and remove-orphaned, in that order; none
/// when no maintenance flag is given (a search runs instead).
pub open spec fn selected_action(f: MaintenanceFlags) -> Option<MaintenanceAction> {
    if f.list_failures {
        Some(MaintenanceAction::ListFailures)
    } else if f.clear_cache {
        Some(MaintenanceAction::ClearCache)
    } else if f.verify_index {
        Some(MaintenanceAction::VerifyIndex)
    } else if f.remove_orphaned {
        Some(MaintenanceAction::RemoveOrphaned)
    } else {
        None
    }
}

/// Chooses the maintenance action to run (see [`selected_action`]).
pub fn run_maintenance_action(f: MaintenanceFlags) -> (r: Option<MaintenanceAction>)
    ensures
        r == selected_action(f),
{
    if f.list_failures {
        return Some(MaintenanceAction::ListFailures);
    }
    if f.clear_cache {
        return Some(MaintenanceAction::ClearCache);
    }
    if f.verify_index {
        return Some(MaintenanceAction::VerifyIndex);
    }
    if f.remove_orphaned {
        return Some(MaintenanceAction::RemoveOrphaned);
    }
    None
}

/// What a maintenance action cannot run without: verify-index and
/// remove-orphaned need the search folder, clear-cache the cache file,
/// list-failures the failure log.
#[derive(Debug, Clone, Copy, PartialEq, Eq, Structural)]
pub enum Requirement {
    SearchFolder,
    CacheFile,
    FailureLog,
}

/// The input a maintenance action requires.
pub fn required_input(a: MaintenanceAction) -> (r: Requirement)
    ensures
        r == match a {
            MaintenanceAction::ListFailures => Requirement::FailureLog,
            MaintenanceAction::ClearCache => Requirement::CacheFile,
            MaintenanceAction::VerifyIndex => Requirement::SearchFolder,
            MaintenanceAction::RemoveOrphaned => Requirement::SearchFolder,
        },
{
    match a {
        MaintenanceAction::ListFailures => Requirement::FailureLog,
        MaintenanceAction::ClearCache => Requirement::CacheFile,
        MaintenanceAction::VerifyIndex => Requirement::SearchFolder,
        MaintenanceAction::RemoveOrphaned => Requirement::SearchFolder,
    }
}

/// The error line printed when a maintenance action lacks its input.
pub fn missing_input_message(a: MaintenanceAction) -> (r: &'static str)
    ensures
        r@ == match a {
            MaintenanceAction::ListFailures => "Error: --list-failures requires --failure-log <path>"@,
            MaintenanceAction::ClearCache => "Error: --clear-cache requires --cache-file <path>"@,
            MaintenanceAction::VerifyIndex => "Error: --verify-index requires a search folder"@,
            MaintenanceAction::RemoveOrphaned => "Error: --remove-orphaned requires a search folder"@,
        },
{
    match a {
        MaintenanceAction::ListFailures => "Error: --list-failures requires --failure-log <path>",
        MaintenanceAction::ClearCache => "Error: --clear-cache requires --cache-file <path>",
        MaintenanceAction::VerifyIndex => "Error: --verify-index requires a search folder",
        MaintenanceAction::RemoveOrphaned => "Error: --remove-orphaned requires a search folder",
    }
}


// ---------------------------------------------------------------------------
// The interactive wizard's decisions.
// ---------------------------------------------------------------------------

/// The prompt for the next filter when `count` filters were given so far.
pub open spec fn filter_prompt_text(count: nat) -> Seq<char> {
    if count == 0 {
        "Filter text (required)"@
    } else {
        "Another filter (#"@ + decimal(count + 1) + ", blank to stop)"@
    }
}

/// The prompt for the next filter (see [`filter_prompt_text`]).
pub fn filter_prompt(count: usize) -> (r: String)
    requires
        count < usize::MAX,
    ensures
        r@ == filter_prompt_text(count as nat),
{
    let mut out: Vec<char> = Vec::new();
    if count == 0 {
        extend_str(&mut out, "Filter text (required)");
    } else {
        extend_str(&mut out, "Another filter (#");
        push_decimal(&mut out, (count + 1) as u64);
        extend_str(&mut out, ", blank to stop)");
    }
    string_from(out.as_slice())
}

/// An answer to the filter prompt ends the list when it is blank once
/// trimmed.
pub fn ends_filter_list(answer: &str) -> (r: bool)
    ensures
        r == (trim(answer@).len() == 0),
{
    trim_str(answer).len() == 0
}

/// The match mode chosen by its position in the wizard's list.
pub fn match_mode_choice(index: usize) -> (r: MatchMode)
    requires
        index < 3,
    ensures
        r == (if index == 0 {
            MatchMode::AnyLine
        } else if index == 1 {
            MatchMode::AllInFile
        } else {
            MatchMode::Proximity
        }),
{
    if index == 0 {
        MatchMode::AnyLine
    } else if index == 1 {
        MatchMode::AllInFile
    } else {
        MatchMode::Proximity
    }
}

/// The exclude scope chosen by its position in the wizard's list.
pub fn exclude_scope_choice(index: usize) -> (r: ExcludeScope)
    requires
        index < 2,
    ensures
        r == (if index == 0 {
            ExcludeScope::Line
        } else {
            ExcludeScope::File
        }),
{
    if index == 0 {
        ExcludeScope::Line
    } else {
        ExcludeScope::File
    }
}

/// The grouping chosen by its position in the wizard's list.
pub fn group_by_choice(index: usize) -> (r: GroupByMode)
    requires
        index < 3,
    ensures
        r == (if index == 0 {
            GroupByMode::Created
        } else if index == 1 {
            GroupByMode::Modified
        } else {
            GroupByMode::Ungrouped
        }),
{
    if index == 0 {
        GroupByMode::Created
    } else if index == 1 {
        GroupByMode::Modified
    } else {
        GroupByMode::Ungrouped
    }
}

/// The extensions answer: blank once trimmed means the default catalog
/// (none), otherwise the comma-separated list (see [`list_of`]).
pub fn extensions_answer(text: &str) -> (r: Option<Vec<String>>)
    ensures
        trim(text@).len() == 0 ==> r is None,
        trim(text@).len() > 0 ==> (r matches Some(v) && v.deep_view() == list_of(text@)),
{
    if trim_str(text).len() == 0 {
        None
    } else {
        Some(parse_list(text))
    }
}

proof fn lemma_push_contains(s: Seq<usize>, p: usize, x: usize)
    ensures
        s.push(p).contains(x) == (s.contains(x) || p == x),
{
    if s.contains(x) {
        let w = choose|w: int| 0 <= w < s.len() && s[w] == x;
        assert(s.push(p)[w] == x);
    }
    if p == x {
        assert(s.push(p)[s.len() as int] == x);
    }
    if s.push(p).contains(x) {
        let w = choose|w: int| 0 <= w < s.push(p).len() && s.push(p)[w] == x;
        if w < s.len() {
            assert(s[w] == x);
        }
    }
}

/// The export formats ticked in the wizard (CSV, JSON, JSON Lines, by
/// position): each flag is set exactly when its position was picked.
pub fn export_choices(picked: &Vec<usize>) -> (r: (bool, bool, bool))
    requires
        forall|i: int| 0 <= i < picked.len() ==> picked@[i] < 3,
    ensures
        r.0 == picked@.contains(0usize),
        r.1 == picked@.contains(1usize),
        r.2 == picked@.contains(2usize),
{
    let mut flags: (bool, bool, bool) = (false, false, false);
    let mut i: usize = 0;
    while i < picked.len()
        invariant
            i <= picked.len(),
            forall|j: int| 0 <= j < picked.len() ==> picked@[j] < 3,
            flags.0 == picked@.take(i as int).contains(0usize),
            flags.1 == picked@.take(i as int).contains(1usize),
            flags.2 == picked@.take(i as int).contains(2usize),
        decreases picked.len() - i,
    {
        let p = picked[i];
        assert(picked@.take(i + 1) =~= picked@.take(i as int).push(p));
        proof {
            lemma_push_contains(picked@.take(i as int), p, 0usize);
            lemma_push_contains(picked@.take(i as int), p, 1usize);
            lemma_push_contains(picked@.take(i as int), p, 2usize);
        }
        if p == 0 {
            flags.0 = true;
        } else if p == 1 {
            flags.1 = true;
        } else {
            flags.2 = true;
        }
        i = i + 1;
    }
    assert(picked@.take(picked.len() as int) =~= picked@);
    flags
}

} // verus!
