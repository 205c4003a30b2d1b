//! The command palette: its commands, their labels, and which entries a
//! typed query keeps.

use vstd::prelude::*;
use crate::text::{chars_of, contains_chars, contains_seq, lowercase, string_from, to_lowercase, trim, trim_str};

verus! {

/// A palette command.
#[derive(Debug, Clone, Copy, PartialEq, Eq, Structural)]
pub enum Command {
    RunSearch,
    CancelSearch,
    OpenReport,
    ToggleTheme,
    BrowseSearchFolder,
    BrowseOutputFolder,
    ClearRecentSearches,
    ToggleIndexForFastSearch,
}

/// Every command, in the order the palette lists them.
pub open spec fn all_commands() -> Seq<Command> {
    seq![
        Command::RunSearch,
        Command::CancelSearch,
        Command::OpenReport,
        Command::ToggleTheme,
        Command::BrowseSearchFolder,
        Command::BrowseOutputFolder,
        Command::ClearRecentSearches,
        Command::ToggleIndexForFastSearch,
    ]
}

/// The text the palette shows for a command.
pub open spec fn command_label(c: Command) -> Seq<char> {
    match c {
        Command::RunSearch => "Run Search"@,
        Command::CancelSearch => "Cancel Search"@,
        Command::OpenReport => "Open Report"@,
        Command::ToggleTheme => "Toggle theme (dark/light)"@,
        Command::BrowseSearchFolder => "Browse search folder..."@,
        Command::BrowseOutputFolder => "Browse output folder..."@,
        Command::ClearRecentSearches => "Clear recent searches"@,
        Command::ToggleIndexForFastSearch => "Toggle \"Index for fast re-search\""@,
    }
}

impl Command {
    /// Every command, in palette order.
    pub fn all() -> (r: Vec<Command>)
        ensures
            r@ == all_commands(),
    {
        let v = vec![
            Command::RunSearch,
            Command::CancelSearch,
            Command::OpenReport,
            Command::ToggleTheme,
            Command::BrowseSearchFolder,
            Command::BrowseOutputFolder,
            Command::ClearRecentSearches,
            Command::ToggleIndexForFastSearch,
        ];
        assert(v@ =~= all_commands());
        v
    }

    /// The text the palette shows for this command.
    pub fn label(self) -> (r: &'static str)
        ensures
            r@ == command_label(self),
    {
        match self {
            Command::RunSearch => "Run Search",
            Command::CancelSearch => "Cancel Search",
            Command::OpenReport => "Open Report",
            Command::ToggleTheme => "Toggle theme (dark/light)",
            Command::BrowseSearchFolder => "Browse search folder...",
            Command::BrowseOutputFolder => "Browse output folder...",
            Command::ClearRecentSearches => "Clear recent searches",
            Command::ToggleIndexForFastSearch => "Toggle \"Index for fast re-search\"",
        }
    }
}

/// The query as it is compared: trimmed, then lower-cased.
pub open spec fn palette_needle(query: Seq<char>) -> Seq<char> {
    lowercase(trim(query))
}

/// An entry stays in the palette when the query is blank or its
/// lower-cased text contains the query.
pub open spec fn palette_keeps(text: Seq<char>, query: Seq<char>) -> bool {
    palette_needle(query).len() == 0 || contains_seq(lowercase(text), palette_needle(query))
}

/// The query prepared for comparison (see [`palette_needle`]).
pub fn prepare_query(query: &str) -> (r: Vec<char>)
    ensures
        r@ == palette_needle(query@),
{
    let t = trim_str(query);
    let ts = string_from(t.as_slice());
    let l = to_lowercase(ts.as_str());
    chars_of(l.as_str())
}

/// Whether an entry with this text stays for a prepared query.
pub fn palette_keeps_text(text: &str, needle: &[char]) -> (r: bool)
    ensures
        r == (needle@.len() == 0 || contains_seq(lowercase(text@), needle@)),
{
    if needle.len() == 0 {
        return true;
    }
    let l = to_lowercase(text);
    let lc = chars_of(l.as_str());
    contains_chars(lc.as_slice(), needle)
}

/// The commands a query keeps, in palette order.
pub open spec fn kept_commands(cs: Seq<Command>, query: Seq<char>) -> Seq<Command> {
    cs.filter(|c: Command| palette_keeps(command_label(c), query))
}

/// The commands the palette lists for a query (see [`palette_keeps`]).
pub fn filtered_commands(query: &str) -> (r: Vec<Command>)
    ensures
        r@ == kept_commands(all_commands(), query@),
{
    let needle = prepare_query(query);
    let all = Command::all();
    let mut out: Vec<Command> = Vec::new();
    let mut i: usize = 0;
    assert(all@.take(0).filter(|c: Command| palette_keeps(command_label(c), query@)) =~= Seq::<Command>::empty());
    while i < all.len()
        invariant
            i <= all.len(),
            all@ == all_commands(),
            needle@ == palette_needle(query@),
            out@ == all@.take(i as int).filter(|c: Command| palette_keeps(command_label(c), query@)),
        decreases all.len() - i,
    {
        let ghost pre = all@.take(i as int);
        assert(all@.take(i as int + 1).drop_last() =~= pre);
        reveal(Seq::filter);
        if palette_keeps_text(all[i].label(), needle.as_slice()) {
            out.push(all[i]);
        }
        i = i + 1;
    }
    assert(all@.take(all.len() as int) =~= all@);
    out
}

/// The positions, in order, of the texts a query keeps; the palette uses
/// it on the labels of the recent searches.
pub fn kept_positions(texts: &Vec<String>, query: &str) -> (r: Vec<usize>)
    ensures
        forall|k: int| 0 <= k < r.len() ==> (#[trigger] r[k]) < texts.len() && palette_keeps(
            texts[r[k] as int]@,
            query@,
        ),
        forall|k: int, m: int| 0 <= k < m < r.len() ==> r[k] < r[m],
        forall|j: int|
            0 <= j < texts.len() && palette_keeps(#[trigger] texts[j]@, query@) ==> r@.contains(j as usize),
{
    let needle = prepare_query(query);
    let mut out: Vec<usize> = Vec::new();
    let mut i: usize = 0;
    while i < texts.len()
        invariant
            i <= texts.len(),
            needle@ == palette_needle(query@),
            forall|k: int| 0 <= k < out.len() ==> (#[trigger] out[k]) < i && palette_keeps(
                texts[out[k] as int]@,
                query@,
            ),
            forall|k: int, m: int| 0 <= k < m < out.len() ==> out[k] < out[m],
            forall|j: int| 0 <= j < i && palette_keeps(#[trigger] texts[j]@, query@) ==> out@.contains(j as usize),
        decreases texts.len() - i,
    {
        let ghost before = out@;
        if palette_keeps_text(texts[i].as_str(), needle.as_slice()) {
            out.push(i);
            assert(out@[out.len() - 1] == i);
        }
        assert forall|j: int| 0 <= j < i + 1 && palette_keeps(#[trigger] texts[j]@, query@) implies out@.contains(
            j as usize,
        ) by {
            if j < i {
                assert(before.contains(j as usize));
                let w = choose|w: int| 0 <= w < before.len() && before[w] == j as usize;
                assert(out@[w] == before[w]);
            } else {
                assert(out@[out.len() - 1] == i);
            }
        }
        i = i + 1;
    }
    out
}

} // verus!
