//! What the search front end remembers between searches: the most-recent-
//! first list of recent searches, named presets, and the extra search
//! folders of a multi-folder search.

use vstd::prelude::*;
use crate::text::{contains_seq, extend_str, str_eq, string_from, trim, trim_str};

verus! {

// ---------------------------------------------------------------------------
// Recent searches.
// ---------------------------------------------------------------------------

/// One earlier search: the folder and the filter text it used.
#[derive(Debug)]
pub struct RecentSearch {
    pub search_path: String,
    pub filters_text: String,
}

/// The plain content of a [`RecentSearch`].
pub struct RecentEntry {
    pub search_path: Seq<char>,
    pub filters_text: Seq<char>,
}

impl View for RecentSearch {
    type V = RecentEntry;

    open spec fn view(&self) -> RecentEntry {
        RecentEntry { search_path: self.search_path@, filters_text: self.filters_text@ }
    }
}

impl DeepView for RecentSearch {
    type V = RecentEntry;

    open spec fn deep_view(&self) -> RecentEntry {
        self@
    }
}

/// The most recent searches kept.
pub const MAX_RECENT_SEARCHES: usize = 8;

/// `rs` without the entries equal to `e`, in order.
pub open spec fn without_entry(rs: Seq<RecentEntry>, e: RecentEntry) -> Seq<RecentEntry>
    decreases rs.len(),
{
    if rs.len() == 0 {
        Seq::empty()
    } else {
        let rest = without_entry(rs.drop_last(), e);
        if rs.last() == e {
            rest
        } else {
            rest.push(rs.last())
        }
    }
}

/// At most the first eight entries.
pub open spec fn first_recent(s: Seq<RecentEntry>) -> Seq<RecentEntry> {
    if s.len() <= 8 {
        s
    } else {
        s.take(8)
    }
}

/// The list after remembering `e`: `e` first, then the older entries other
/// than `e` in their order, at most eight in all.
pub open spec fn remembered(rs: Seq<RecentEntry>, e: RecentEntry) -> Seq<RecentEntry> {
    first_recent(seq![e] + without_entry(rs, e))
}

proof fn lemma_without_entry_filters(rs: Seq<RecentEntry>, e: RecentEntry)
    ensures
        without_entry(rs, e) == rs.filter(|x: RecentEntry| x != e),
    decreases rs.len(),
{
    reveal(Seq::filter);
    if rs.len() > 0 {
        lemma_without_entry_filters(rs.drop_last(), e);
    }
}

/// Remembering a search puts it first and keeps, after it and in their
/// order, every older entry that differs from it in folder or filter text
/// (an older search of the same folder with other filters stays), up to
/// eight entries in all.
pub proof fn lemma_remember_keeps_other_searches(rs: Seq<RecentEntry>, e: RecentEntry)
    ensures
        remembered(rs, e).len() == (if rs.filter(|x: RecentEntry| x != e).len() < 8 {
            rs.filter(|x: RecentEntry| x != e).len() + 1
        } else {
            8
        }),
        remembered(rs, e)[0] == e,
        forall|j: int|
            1 <= j < remembered(rs, e).len() ==> #[trigger] remembered(rs, e)[j] == rs.filter(
                |x: RecentEntry| x != e,
            )[j - 1],
{
    lemma_without_entry_filters(rs, e);
}

/// The entry a search with this folder and filter text is remembered
/// under: both fields trimmed.
pub open spec fn recent_entry_of(search_path: Seq<char>, filters_text: Seq<char>) -> RecentEntry {
    RecentEntry { search_path: trim(search_path), filters_text: trim(filters_text) }
}

impl RecentSearch {
    /// A copy with the same folder and filter text.
    pub fn duplicate(&self) -> (r: RecentSearch)
        ensures
            r@ == self@,
    {
        RecentSearch { search_path: self.search_path.clone(), filters_text: self.filters_text.clone() }
    }

    /// The label shown for this search, given the final component of its
    /// folder path (see [`recent_label`]).
    pub fn label_from(&self, folder_name: Option<String>) -> (r: String)
        ensures
            r@ == recent_label(
                self@,
                match folder_name {
                    Some(n) => Some(n@),
                    None => None,
                },
            ),
    {
        let mut out: Vec<char> = Vec::new();
        match folder_name {
            Some(n) => extend_str(&mut out, n.as_str()),
            None => extend_str(&mut out, self.search_path.as_str()),
        }
        extend_str(&mut out, " - ");
        extend_str(&mut out, self.filters_text.as_str());
        string_from(out.as_slice())
    }

    /// The label shown for this search: the name of its folder (the last
    /// component of the path, or the whole path when it has none), " - ",
    /// and its filter text.
    pub fn label(&self) -> (r: String)
        ensures
            exists|f: Option<Seq<char>>|
                {
                    &&& r@ == recent_label(self@, f)
                    &&& (f matches Some(n) ==> n.len() > 0 && contains_seq(self.search_path@, n) && (
                    !verbatim_path(self.search_path@) ==> !n.contains('/')))
                },
            slash_only_path(self.search_path@) ==> r@ == recent_label(
                self@,
                slash_path_file_name(self.search_path@),
            ),
    {
        let f = file_name_of_path(self.search_path.as_str());
        let ghost fv = match f {
            Some(ref n) => Some(n@),
            None => None,
        };
        let r = self.label_from(f);
        assert(r@ == recent_label(self@, fv));
        r
    }
}

/// The label of a recent search whose folder's final path component is
/// `folder_name`.
pub open spec fn recent_label(e: RecentEntry, folder_name: Option<Seq<char>>) -> Seq<char> {
    let folder = match folder_name {
        Some(n) => n,
        None => e.search_path,
    };
    folder + " - "@ + e.filters_text
}

/// The pieces of `s` between occurrences of `sep`, in order (always at
/// least one; adjacent separators give empty pieces).
pub open spec fn split_on(s: Seq<char>, sep: char) -> Seq<Seq<char>>
    decreases s.len(),
{
    if s.len() == 0 {
        seq![Seq::<char>::empty()]
    } else {
        let p = split_on(s.drop_last(), sep);
        if s.last() == sep {
            p.push(Seq::<char>::empty())
        } else {
            p.update(p.len() - 1, p.last().push(s.last()))
        }
    }
}

/// A path written with `/` only and with no prefix on any platform: no
/// `\`, no `:` (which could start a drive), and not starting with two
/// separators (which could start a network share).
pub open spec fn slash_only_path(path: Seq<char>) -> bool {
    &&& !path.contains('\\')
    &&& !path.contains(':')
    &&& !(path.len() >= 2 && path[0] == '/' && path[1] == '/')
}

/// A path starting with the verbatim prefix `\\?\`, after which only `\`
/// separates components on platforms that read such prefixes.
pub open spec fn verbatim_path(path: Seq<char>) -> bool {
    path.len() >= 4 && path[0] == '\\' && path[1] == '\\' && path[2] == '?' && path[3] == '\\'
}

/// The components of a `/`-separated path that name something: the
/// non-empty pieces other than `.` (a `.` never ends a path's components
/// unless it is all there is, and then the path has no file name).
pub open spec fn path_names(path: Seq<char>) -> Seq<Seq<char>> {
    split_on(path, '/').filter(|p: Seq<char>| p.len() > 0 && p != "."@)
}

/// The final component of a `/`-separated path, as `Path::file_name` gives
/// it: the last named component, or none when there is none or it is
/// `..`.
pub open spec fn slash_path_file_name(path: Seq<char>) -> Option<Seq<char>> {
    let names = path_names(path);
    if names.len() == 0 || names.last() == ".."@ {
        None
    } else {
        Some(names.last())
    }
}

/// Calls `std::path::Path::file_name` on the path and converts the result
/// with `to_string_lossy`. A returned name is non-empty and occurs in the
/// path as written; unless the path starts with the verbatim prefix (see
/// [`verbatim_path`]), it holds no `/`, a separator everywhere else. For a
/// path with no prefix written with `/` only (see [`slash_only_path`]) it
/// is the last named `/`-separated component (see
/// [`slash_path_file_name`]). Which other characters separate components,
/// and how prefixes read, depends on the platform, and is left unsaid.
#[verifier::external_body]
pub(crate) fn file_name_of_path(path: &str) -> (r: Option<String>)
    ensures
        r matches Some(n) ==> n@.len() > 0 && contains_seq(path@, n@) && (!verbatim_path(path@) ==> !n@.contains(
            '/',
        )),
        slash_only_path(path@) ==> match r {
            Some(n) => slash_path_file_name(path@) == Some(n@),
            None => slash_path_file_name(path@) is None,
        },
{
    std::path::Path::new(path).file_name().map(|n| n.to_string_lossy().into_owned())
}

fn recent_equal(a: &RecentSearch, b: &RecentSearch) -> (r: bool)
    ensures
        r == (a@ == b@),
{
    str_eq(a.search_path.as_str(), b.search_path.as_str()) && str_eq(
        a.filters_text.as_str(),
        b.filters_text.as_str(),
    )
}

/// Remembers a search that is about to run: when its trimmed folder and
/// trimmed filter text are both non-empty, that entry moves to (or enters
/// at) the front of the list, older duplicates of it go, and the list is
/// cut to eight entries; otherwise the list is unchanged.
pub fn remember_recent_search(recent: &mut Vec<RecentSearch>, search_path: &str, filters_text: &str)
    ensures
        (trim(search_path@).len() == 0 || trim(filters_text@).len() == 0) ==> final(recent).deep_view()
            == old(recent).deep_view(),
        (trim(search_path@).len() > 0 && trim(filters_text@).len() > 0) ==> final(recent).deep_view()
            == remembered(old(recent).deep_view(), recent_entry_of(search_path@, filters_text@)),
{
    let sp = trim_str(search_path);
    let ft = trim_str(filters_text);
    if sp.len() == 0 || ft.len() == 0 {
        return;
    }
    let entry = RecentSearch { search_path: string_from(sp.as_slice()), filters_text: string_from(ft.as_slice()) };
    let ghost e = entry@;
    let ghost rs = recent.deep_view();
    let mut out: Vec<RecentSearch> = Vec::new();
    out.push(entry.duplicate());
    assert(seq![e] + without_entry(rs.take(0), e) =~= seq![e]);
    assert(out.deep_view() =~= seq![e]);
    let mut i: usize = 0;
    while i < recent.len()
        invariant
            i <= recent.len(),
            rs == recent.deep_view(),
            e == entry@,
            out.deep_view() == first_recent(seq![e] + without_entry(rs.take(i as int), e)),
        decreases recent.len() - i,
    {
        let ghost old_full = seq![e] + without_entry(rs.take(i as int), e);
        assert(rs.take(i as int + 1).drop_last() =~= rs.take(i as int));
        assert(rs.take(i as int + 1).last() == recent@[i as int]@);
        if !recent_equal(&recent[i], &entry) {
            let ghost new_full = old_full.push(recent@[i as int]@);
            assert(seq![e] + without_entry(rs.take(i as int + 1), e) =~= new_full);
            if out.len() < MAX_RECENT_SEARCHES {
                let ghost before = out.deep_view();
                out.push(recent[i].duplicate());
                assert(out.deep_view() =~= before.push(recent@[i as int]@));
                assert(first_recent(new_full) =~= out.deep_view());
            } else {
                assert(first_recent(new_full) =~= first_recent(old_full));
            }
        } else {
            assert(seq![e] + without_entry(rs.take(i as int + 1), e) =~= old_full);
        }
        i = i + 1;
    }
    assert(rs.take(recent.len() as int) =~= rs);
    *recent = out;
}

proof fn lemma_without_entry_excludes(rs: Seq<RecentEntry>, e: RecentEntry)
    ensures
        forall|k: int| 0 <= k < without_entry(rs, e).len() ==> #[trigger] without_entry(rs, e)[k] != e,
        forall|k: int|
            0 <= k < without_entry(rs, e).len() ==> rs.contains(#[trigger] without_entry(rs, e)[k]),
    decreases rs.len(),
{
    if rs.len() > 0 {
        lemma_without_entry_excludes(rs.drop_last(), e);
        let rest = without_entry(rs.drop_last(), e);
        assert forall|k: int| 0 <= k < without_entry(rs, e).len() implies rs.contains(
            #[trigger] without_entry(rs, e)[k],
        ) by {
            if k < rest.len() {
                let x = rest[k];
                assert(rs.drop_last().contains(x));
                let w = choose|w: int| 0 <= w < rs.drop_last().len() && rs.drop_last()[w] == x;
                assert(rs[w] == x);
            } else {
                assert(rs[rs.len() - 1] == without_entry(rs, e)[k]);
            }
        }
    }
}

/// After a search is remembered, it is the first entry, no other entry
/// equals it, the list holds at most eight entries, and every other entry
/// was already in the list.
pub proof fn lemma_remembered_front(rs: Seq<RecentEntry>, e: RecentEntry)
    ensures
        remembered(rs, e).len() >= 1,
        remembered(rs, e)[0] == e,
        remembered(rs, e).len() <= 8,
        forall|k: int| 1 <= k < remembered(rs, e).len() ==> #[trigger] remembered(rs, e)[k] != e,
        forall|k: int| 1 <= k < remembered(rs, e).len() ==> rs.contains(#[trigger] remembered(rs, e)[k]),
{
    lemma_without_entry_excludes(rs, e);
    let full = seq![e] + without_entry(rs, e);
    assert forall|k: int| 1 <= k < remembered(rs, e).len() implies #[trigger] remembered(rs, e)[k] != e
        && rs.contains(remembered(rs, e)[k]) by {
        assert(remembered(rs, e)[k] == full[k]);
        assert(full[k] == without_entry(rs, e)[k - 1]);
    }
}

// ---------------------------------------------------------------------------
// Named presets.
// ---------------------------------------------------------------------------

/// A full settings snapshot saved under a name the user chose.
#[derive(Debug)]
pub struct SavedPreset<S> {
    pub name: String,
    pub settings: S,
}

/// The name a preset is saved under: the typed name trimmed; a name that
/// is blank once trimmed saves nothing.
pub fn preset_name_to_save(text: &str) -> (r: Option<String>)
    ensures
        trim(text@).len() == 0 ==> r is None,
        trim(text@).len() > 0 ==> (r matches Some(n) && n@ == trim(text@)),
{
    let t = trim_str(text);
    if t.len() == 0 {
        None
    } else {
        Some(string_from(t.as_slice()))
    }
}

/// The plain content of a [`SavedPreset`].
pub struct PresetEntry<S> {
    pub name: Seq<char>,
    pub settings: S,
}

impl<S> View for SavedPreset<S> {
    type V = PresetEntry<S>;

    open spec fn view(&self) -> PresetEntry<S> {
        PresetEntry { name: self.name@, settings: self.settings }
    }
}

impl<S> DeepView for SavedPreset<S> {
    type V = PresetEntry<S>;

    open spec fn deep_view(&self) -> PresetEntry<S> {
        self@
    }
}

/// `i` is the first preset called `name`.
pub open spec fn is_first_named<S>(ps: Seq<PresetEntry<S>>, name: Seq<char>, i: int) -> bool {
    0 <= i < ps.len() && ps[i].name == name && forall|j: int| 0 <= j < i ==> (#[trigger] ps[j]).name != name
}

/// The first preset called `name`.
pub open spec fn preset_index<S>(ps: Seq<PresetEntry<S>>, name: Seq<char>) -> Option<int> {
    if exists|i: int| is_first_named(ps, name, i) {
        Some(choose|i: int| is_first_named(ps, name, i))
    } else {
        None
    }
}

/// The presets after saving `settings` as `name`: the first preset with
/// that name takes the new settings, or a new preset is appended.
pub open spec fn saved_as<S>(ps: Seq<PresetEntry<S>>, name: Seq<char>, settings: S) -> Seq<PresetEntry<S>> {
    match preset_index(ps, name) {
        Some(i) => ps.update(i, PresetEntry { name, settings }),
        None => ps.push(PresetEntry { name, settings }),
    }
}

/// The presets not called `name`, in order.
pub open spec fn without_preset<S>(ps: Seq<PresetEntry<S>>, name: Seq<char>) -> Seq<PresetEntry<S>>
    decreases ps.len(),
{
    if ps.len() == 0 {
        Seq::empty()
    } else {
        let rest = without_preset(ps.drop_last(), name);
        if ps.last().name == name {
            rest
        } else {
            rest.push(ps.last())
        }
    }
}

fn find_preset<S>(presets: &Vec<SavedPreset<S>>, name: &String) -> (r: Option<usize>)
    ensures
        r matches Some(i) ==> preset_index(presets.deep_view(), name@) == Some(i as int),
        r is None ==> preset_index(presets.deep_view(), name@) is None,
{
    let ghost ps = presets.deep_view();
    let mut i: usize = 0;
    while i < presets.len()
        invariant
            i <= presets.len(),
            ps == presets.deep_view(),
            forall|j: int| 0 <= j < i ==> (#[trigger] ps[j]).name != name@,
        decreases presets.len() - i,
    {
        if str_eq(presets[i].name.as_str(), name.as_str()) {
            proof {
                assert(is_first_named(ps, name@, i as int));
                let w = choose|k: int| is_first_named(ps, name@, k);
                if w < i {
                    assert(ps[w].name != name@);
                } else if w > i {
                    assert(ps[i as int].name != name@);
                }
            }
            return Some(i);
        }
        i = i + 1;
    }
    assert(!exists|k: int| is_first_named(ps, name@, k));
    None
}

/// Saves (or overwrites, by name) a settings snapshot as a named preset
/// (see [`saved_as`]).
pub fn save_preset<S>(presets: &mut Vec<SavedPreset<S>>, name: String, settings: S)
    ensures
        final(presets).deep_view() == saved_as(old(presets).deep_view(), name@, settings),
{
    let ghost ps = presets.deep_view();
    let ghost nv = name@;
    match find_preset(presets, &name) {
        Some(i) => {
            let ghost before = presets@;
            presets.set(i, SavedPreset { name, settings });
            assert forall|j: int| 0 <= j < presets.len() implies #[trigger] presets.deep_view()[j] == saved_as(
                ps,
                nv,
                settings,
            )[j] by {
                if j != i {
                    assert(presets@[j] == before[j]);
                }
            }
            assert(presets.deep_view() =~= saved_as(ps, nv, settings));
        },
        None => {
            presets.push(SavedPreset { name, settings });
            assert(presets.deep_view() =~= saved_as(ps, nv, settings));
        },
    }
}

/// Deletes every preset called `name`.
pub fn delete_preset<S>(presets: &mut Vec<SavedPreset<S>>, name: &str)
    ensures
        final(presets).deep_view() == without_preset(old(presets).deep_view(), name@),
{
    let ghost ps = presets.deep_view();
    let mut kept: Vec<SavedPreset<S>> = Vec::new();
    let mut rest: Vec<SavedPreset<S>> = Vec::new();
    std::mem::swap(&mut rest, presets);
    assert(rest.deep_view() == ps);
    let ghost all = rest@;
    assert(ps.take(0) =~= Seq::<PresetEntry<S>>::empty());
    assert(kept.deep_view() =~= Seq::<PresetEntry<S>>::empty());
    for p in iter: rest
        invariant
            ps == Seq::new(all.len(), |k: int| all[k]@),
            iter.seq() == all,
            kept.deep_view() == without_preset(ps.take(iter.index() as int), name@),
    {
        let ghost i = iter.index() as int;
        assert(p == all[i]);
        assert(ps.take(i + 1).drop_last() =~= ps.take(i));
        assert(ps.take(i + 1).last() == p@);
        if !str_eq(p.name.as_str(), name) {
            let ghost before = kept.deep_view();
            kept.push(p);
            assert(kept.deep_view() =~= before.push(p@));
        }
    }
    assert(ps.take(all.len() as int) =~= ps);
    *presets = kept;
}

/// After saving settings under a name, looking that name up gives exactly
/// those settings.
pub proof fn lemma_saved_preset_is_found<S>(ps: Seq<PresetEntry<S>>, name: Seq<char>, settings: S)
    ensures
        preset_index(saved_as(ps, name, settings), name) is Some,
        saved_as(ps, name, settings)[preset_index(saved_as(ps, name, settings), name)->0].settings
            == settings,
{
    let after = saved_as(ps, name, settings);
    match preset_index(ps, name) {
        Some(i) => {
            assert(is_first_named(ps, name, i));
            assert(is_first_named(after, name, i)) by {
                assert forall|j: int| 0 <= j < i implies (#[trigger] after[j]).name != name by {
                    assert(after[j] == ps[j]);
                }
            }
            let w = choose|k: int| is_first_named(after, name, k);
            if w < i {
                assert(after[w].name != name);
            } else if w > i {
                assert(after[i].name != name);
            }
        },
        None => {
            let n = ps.len() as int;
            assert(is_first_named(after, name, n)) by {
                assert forall|j: int| 0 <= j < n implies (#[trigger] after[j]).name != name by {
                    assert(after[j] == ps[j]);
                    if ps[j].name == name {
                        let mut k = j;
                        assert(exists|k: int| 0 <= k < ps.len() && ps[k].name == name);
                        lemma_first_named_exists(ps, name, j);
                    }
                }
            }
            let w = choose|k: int| is_first_named(after, name, k);
            if w < n {
                assert(after[w].name != name);
            } else if w > n {
            }
        },
    }
}

proof fn lemma_first_named_exists<S>(ps: Seq<PresetEntry<S>>, name: Seq<char>, j: int)
    requires
        0 <= j < ps.len(),
        ps[j].name == name,
    ensures
        exists|i: int| is_first_named(ps, name, i),
    decreases j,
{
    if exists|k: int| 0 <= k < j && ps[k].name == name {
        let k = choose|k: int| 0 <= k < j && ps[k].name == name;
        lemma_first_named_exists(ps, name, k);
    } else {
        assert(is_first_named(ps, name, j));
    }
}

/// After deleting a name, no preset has that name.
pub proof fn lemma_deleted_preset_is_gone<S>(ps: Seq<PresetEntry<S>>, name: Seq<char>)
    ensures
        forall|k: int| 0 <= k < without_preset(ps, name).len() ==> (#[trigger] without_preset(ps, name)[k]).name
            != name,
    decreases ps.len(),
{
    if ps.len() > 0 {
        lemma_deleted_preset_is_gone(ps.drop_last(), name);
        let rest = without_preset(ps.drop_last(), name);
        assert forall|k: int| 0 <= k < without_preset(ps, name).len() implies (#[trigger] without_preset(
            ps,
            name,
        )[k]).name != name by {
            if k < rest.len() {
                assert(without_preset(ps, name)[k] == rest[k]);
            }
        }
    }
}

// ---------------------------------------------------------------------------
// Extra search folders.
// ---------------------------------------------------------------------------

/// The extra folders after picking `path`: it is added unless it is the
/// (trimmed) primary folder or already listed.
pub open spec fn with_extra_folder(extra: Seq<Seq<char>>, primary: Seq<char>, path: Seq<char>) -> Seq<Seq<char>> {
    if path != trim(primary) && !extra.contains(path) {
        extra.push(path)
    } else {
        extra
    }
}

/// Adds a picked folder to a multi-folder search (see
/// [`with_extra_folder`]).
pub fn add_extra_search_path(extra: &mut Vec<String>, primary: &str, path: String)
    ensures
        final(extra).deep_view() == with_extra_folder(old(extra).deep_view(), primary@, path@),
{
    let p = trim_str(primary);
    let ps = string_from(p.as_slice());
    if str_eq(path.as_str(), ps.as_str()) {
        return;
    }
    let ghost ev = extra.deep_view();
    let mut found = false;
    let mut i: usize = 0;
    while i < extra.len()
        invariant
            i <= extra.len(),
            ev == extra.deep_view(),
            found == exists|k: int| 0 <= k < i && ev[k] == path@,
        decreases extra.len() - i,
    {
        let same = str_eq(extra[i].as_str(), path.as_str());
        assert(ev[i as int] == extra@[i as int]@);
        if same {
            found = true;
        }
        assert(found == exists|k: int| 0 <= k < i + 1 && ev[k] == path@) by {
            if same {
                assert(ev[i as int] == path@);
            } else if exists|k: int| 0 <= k < i + 1 && ev[k] == path@ {
                let k = choose|k: int| 0 <= k < i + 1 && ev[k] == path@;
                assert(k < i);
            }
        }
        i = i + 1;
    }
    if !found {
        extra.push(path);
        assert(extra.deep_view() =~= ev.push(path@));
    } else {
        assert(ev.contains(path@));
    }
}

/// The extra folders other than `path`, in order.
pub open spec fn without_folder(extra: Seq<Seq<char>>, path: Seq<char>) -> Seq<Seq<char>>
    decreases extra.len(),
{
    if extra.len() == 0 {
        Seq::empty()
    } else {
        let rest = without_folder(extra.drop_last(), path);
        if extra.last() == path {
            rest
        } else {
            rest.push(extra.last())
        }
    }
}

/// After removing a folder it is no longer among the extra folders, and
/// every other folder is still there.
pub proof fn lemma_removed_folder_is_gone(extra: Seq<Seq<char>>, path: Seq<char>)
    ensures
        !without_folder(extra, path).contains(path),
        forall|f: Seq<char>| extra.contains(f) && f != path ==> #[trigger] without_folder(extra, path).contains(f),
    decreases extra.len(),
{
    if extra.len() > 0 {
        let rest = extra.drop_last();
        lemma_removed_folder_is_gone(rest, path);
        let r = without_folder(extra, path);
        let rr = without_folder(rest, path);
        if extra.last() != path {
            assert(r == rr.push(extra.last()));
            assert(!r.contains(path)) by {
                if r.contains(path) {
                    let w = choose|w: int| 0 <= w < r.len() && r[w] == path;
                    if w < rr.len() {
                        assert(rr[w] == path);
                    }
                }
            }
        }
        assert forall|f: Seq<char>| extra.contains(f) && f != path implies #[trigger] r.contains(f) by {
            let w = choose|w: int| 0 <= w < extra.len() && extra[w] == f;
            if w < extra.len() - 1 {
                assert(rest[w] == f);
                assert(rest.contains(f));
                assert(rr.contains(f));
                let v = choose|v: int| 0 <= v < rr.len() && rr[v] == f;
                if extra.last() != path {
                    assert(r == rr.push(extra.last()));
                    assert(r[v] == f);
                } else {
                    assert(r == rr);
                }
            } else {
                assert(r == rr.push(extra.last()));
                assert(r[r.len() - 1] == f);
            }
        }
    }
}

/// Removes a folder from a multi-folder search.
pub fn remove_extra_search_path(extra: &mut Vec<String>, path: &str)
    ensures
        final(extra).deep_view() == without_folder(old(extra).deep_view(), path@),
{
    let ghost ev = extra.deep_view();
    let mut kept: Vec<String> = Vec::new();
    let mut i: usize = 0;
    assert(ev.take(0) =~= Seq::<Seq<char>>::empty());
    assert(kept.deep_view() =~= Seq::<Seq<char>>::empty());
    while i < extra.len()
        invariant
            i <= extra.len(),
            ev == extra.deep_view(),
            kept.deep_view() == without_folder(ev.take(i as int), path@),
        decreases extra.len() - i,
    {
        assert(ev.take(i as int + 1).drop_last() =~= ev.take(i as int));
        assert(ev.take(i as int + 1).last() == extra@[i as int]@);
        if !str_eq(extra[i].as_str(), path) {
            let ghost before = kept.deep_view();
            kept.push(extra[i].clone());
            assert(kept.deep_view() =~= before.push(extra@[i as int]@));
        }
        i = i + 1;
    }
    assert(ev.take(extra.len() as int) =~= ev);
    *extra = kept;
}

} // verus!
