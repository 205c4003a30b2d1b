//! The extension picker: the catalog of searchable extensions with their
//! selection state, text filtering of the picker, custom extensions, and
//! saving and restoring the selection.

use vstd::prelude::*;
use crate::text::{
    chars_of, contains_chars, contains_seq, eq_ascii_ci, eq_ignore_ascii_case, extend_chars, extend_str,
    join, lowercase, occurs_at, push_joined, starts_with, string_from, to_lowercase, trim, trim_str,
};

verus! {

/// One extension in the picker.
#[derive(Debug)]
pub struct ExtensionOption {
    pub extension: String,
    pub category: String,
    pub is_selected: bool,
}

/// The plain content of an [`ExtensionOption`].
pub struct ExtensionEntry {
    pub extension: Seq<char>,
    pub category: Seq<char>,
    pub is_selected: bool,
}

impl View for ExtensionOption {
    type V = ExtensionEntry;

    open spec fn view(&self) -> ExtensionEntry {
        ExtensionEntry { extension: self.extension@, category: self.category@, is_selected: self.is_selected }
    }
}

impl DeepView for ExtensionOption {
    type V = ExtensionEntry;

    open spec fn deep_view(&self) -> ExtensionEntry {
        self@
    }
}

impl ExtensionOption {
    /// A copy with the same extension, category and selection.
    pub fn duplicate(&self) -> (r: ExtensionOption)
        ensures
            r@ == self@,
    {
        ExtensionOption {
            extension: self.extension.clone(),
            category: self.category.clone(),
            is_selected: self.is_selected,
        }
    }
}

/// An entry is shown for a (trimmed, lower-cased) filter text when the
/// text occurs in its lower-cased extension or category.
pub open spec fn entry_matches(e: ExtensionEntry, needle: Seq<char>) -> bool {
    contains_seq(lowercase(e.extension), needle) || contains_seq(lowercase(e.category), needle)
}

/// The entries shown for `needle`, in catalog order.
pub open spec fn matching_entries(cat: Seq<ExtensionEntry>, needle: Seq<char>) -> Seq<ExtensionEntry>
    decreases cat.len(),
{
    if cat.len() == 0 {
        Seq::empty()
    } else {
        let rest = matching_entries(cat.drop_last(), needle);
        if entry_matches(cat.last(), needle) {
            rest.push(cat.last())
        } else {
            rest
        }
    }
}

/// The filter text as it is compared: trimmed, then lower-cased.
pub open spec fn filter_needle(filter_text: Seq<char>) -> Seq<char> {
    lowercase(trim(filter_text))
}

/// The picker's visible entries for a filter text: the whole catalog when
/// the trimmed, lower-cased text is empty, otherwise the entries whose
/// lower-cased extension or category contains it.
pub open spec fn filtered_view(cat: Seq<ExtensionEntry>, filter_text: Seq<char>) -> Seq<ExtensionEntry> {
    if filter_needle(filter_text).len() == 0 {
        cat
    } else {
        matching_entries(cat, filter_needle(filter_text))
    }
}

proof fn lemma_matching_members(cat: Seq<ExtensionEntry>, needle: Seq<char>)
    ensures
        forall|i: int|
            0 <= i < cat.len() && (contains_seq(lowercase(cat[i].extension), needle) || contains_seq(
                lowercase(cat[i].category),
                needle,
            )) ==> matching_entries(cat, needle).contains(#[trigger] cat[i]),
        forall|j: int|
            0 <= j < matching_entries(cat, needle).len() ==> cat.contains(
                #[trigger] matching_entries(cat, needle)[j],
            ) && (contains_seq(lowercase(matching_entries(cat, needle)[j].extension), needle) || contains_seq(
                lowercase(matching_entries(cat, needle)[j].category),
                needle,
            )),
    decreases cat.len(),
{
    if cat.len() > 0 {
        let prev = cat.drop_last();
        let rest = matching_entries(prev, needle);
        let m = matching_entries(cat, needle);
        lemma_matching_members(prev, needle);
        assert forall|i: int|
            0 <= i < cat.len() && (contains_seq(lowercase(cat[i].extension), needle) || contains_seq(
                lowercase(cat[i].category),
                needle,
            )) implies m.contains(#[trigger] cat[i]) by {
            if i < cat.len() - 1 {
                assert(cat[i] == prev[i]);
                let k = choose|k: int| 0 <= k < rest.len() && rest[k] == prev[i];
                if entry_matches(cat.last(), needle) {
                    assert(m[k] == rest[k]);
                }
            } else {
                assert(m[m.len() - 1] == cat.last());
            }
        }
        assert forall|j: int| 0 <= j < m.len() implies cat.contains(#[trigger] m[j]) && (contains_seq(
            lowercase(m[j].extension),
            needle,
        ) || contains_seq(lowercase(m[j].category), needle)) by {
            if j < rest.len() {
                assert(m[j] == rest[j]);
                let k = choose|k: int| 0 <= k < prev.len() && prev[k] == rest[j];
                assert(cat[k] == prev[k]);
            } else {
                assert(m[j] == cat.last());
                assert(cat[cat.len() - 1] == cat.last());
            }
        }
    }
}

proof fn lemma_matching_is_filter(cat: Seq<ExtensionEntry>, needle: Seq<char>)
    ensures
        matching_entries(cat, needle) == cat.filter(
            |e: ExtensionEntry|
                contains_seq(lowercase(e.extension), needle) || contains_seq(lowercase(e.category), needle),
        ),
    decreases cat.len(),
{
    reveal(Seq::filter);
    if cat.len() > 0 {
        lemma_matching_is_filter(cat.drop_last(), needle);
    }
}

/// With a non-empty (trimmed, lower-cased) filter text the picker shows
/// the catalog's matching entries in catalog order, and nothing else; with
/// an empty one, the whole catalog.
pub proof fn lemma_filter_keeps_catalog_order(cat: Seq<ExtensionEntry>, filter_text: Seq<char>)
    ensures
        lowercase(trim(filter_text)).len() == 0 ==> filtered_view(cat, filter_text) == cat,
        lowercase(trim(filter_text)).len() > 0 ==> filtered_view(cat, filter_text) == cat.filter(
            |e: ExtensionEntry|
                contains_seq(lowercase(e.extension), lowercase(trim(filter_text))) || contains_seq(
                    lowercase(e.category),
                    lowercase(trim(filter_text)),
                ),
        ),
{
    lemma_matching_is_filter(cat, lowercase(trim(filter_text)));
}

/// The picker shows exactly the catalog entries whose lower-cased
/// extension or category contains the trimmed, lower-cased filter text:
/// every such entry is shown, and every shown entry is one of them (with
/// an empty filter text, every entry).
pub proof fn lemma_filter_shows_what_matches(cat: Seq<ExtensionEntry>, filter_text: Seq<char>)
    ensures
        forall|i: int|
            0 <= i < cat.len() && (contains_seq(lowercase(cat[i].extension), lowercase(trim(filter_text)))
                || contains_seq(lowercase(cat[i].category), lowercase(trim(filter_text))))
                ==> filtered_view(cat, filter_text).contains(#[trigger] cat[i]),
        forall|j: int|
            0 <= j < filtered_view(cat, filter_text).len() ==> cat.contains(
                #[trigger] filtered_view(cat, filter_text)[j],
            ) && (contains_seq(lowercase(filtered_view(cat, filter_text)[j].extension), lowercase(trim(filter_text)))
                || contains_seq(lowercase(filtered_view(cat, filter_text)[j].category), lowercase(trim(filter_text)))),
{
    let needle = lowercase(trim(filter_text));
    if needle.len() == 0 {
        assert forall|i: int| 0 <= i < cat.len() implies cat.contains(#[trigger] cat[i]) by {}
        assert forall|x: Seq<char>| #[trigger] contains_seq(x, needle) by {
            assert(occurs_at(x, needle, 0)) by {
                assert(x.subrange(0, 0) =~= needle);
            }
        }
    } else {
        lemma_matching_members(cat, needle);
    }
}

fn lower_chars(s: &String) -> (r: Vec<char>)
    ensures
        r@ == lowercase(s@),
{
    let l = to_lowercase(s.as_str());
    chars_of(l.as_str())
}

/// The catalog entries the picker shows for `filter_text` (see
/// [`filtered_view`]).
pub fn filtered_extensions(catalog: &[ExtensionOption], filter_text: &str) -> (r: Vec<ExtensionOption>)
    ensures
        r.deep_view() == filtered_view(catalog@.map_values(|e: ExtensionOption| e@), filter_text@),
{
    let ghost cat = catalog@.map_values(|e: ExtensionOption| e@);
    let t = trim_str(filter_text);
    let ts = string_from(t.as_slice());
    let needle = lower_chars(&ts);
    let mut out: Vec<ExtensionOption> = Vec::new();
    let mut i: usize = 0;
    let all = needle.len() == 0;
    assert(cat.take(0) =~= Seq::<ExtensionEntry>::empty());
    assert(out.deep_view() =~= Seq::<ExtensionEntry>::empty());
    while i < catalog.len()
        invariant
            i <= catalog.len(),
            cat == catalog@.map_values(|e: ExtensionOption| e@),
            needle@ == filter_needle(filter_text@),
            all == (needle@.len() == 0),
            all ==> out.deep_view() == cat.take(i as int),
            !all ==> out.deep_view() == matching_entries(cat.take(i as int), needle@),
        decreases catalog.len() - i,
    {
        let ghost before = out.deep_view();
        assert(cat.take(i as int + 1).drop_last() =~= cat.take(i as int));
        assert(cat.take(i as int + 1).last() == catalog@[i as int]@);
        if all {
            out.push(catalog[i].duplicate());
            assert(out.deep_view() =~= before.push(catalog@[i as int]@));
        } else {
            let le = lower_chars(&catalog[i].extension);
            let lc = lower_chars(&catalog[i].category);
            if contains_chars(le.as_slice(), needle.as_slice()) || contains_chars(lc.as_slice(), needle.as_slice()) {
                out.push(catalog[i].duplicate());
                assert(out.deep_view() =~= before.push(catalog@[i as int]@));
            }
        }
        i = i + 1;
    }
    assert(cat.take(catalog.len() as int) =~= cat);
    out
}

/// The extensions of the selected entries, in catalog order.
pub open spec fn selected_names(cat: Seq<ExtensionEntry>) -> Seq<Seq<char>>
    decreases cat.len(),
{
    if cat.len() == 0 {
        Seq::empty()
    } else {
        let rest = selected_names(cat.drop_last());
        if cat.last().is_selected {
            rest.push(cat.last().extension)
        } else {
            rest
        }
    }
}

/// The extensions of the selected catalog entries, in catalog order.
pub fn selected_extensions(catalog: &[ExtensionOption]) -> (r: Vec<String>)
    ensures
        r.deep_view() == selected_names(catalog@.map_values(|e: ExtensionOption| e@)),
{
    let ghost cat = catalog@.map_values(|e: ExtensionOption| e@);
    let mut out: Vec<String> = Vec::new();
    let mut i: usize = 0;
    assert(cat.take(0) =~= Seq::<ExtensionEntry>::empty());
    assert(out.deep_view() =~= Seq::<Seq<char>>::empty());
    while i < catalog.len()
        invariant
            i <= catalog.len(),
            cat == catalog@.map_values(|e: ExtensionOption| e@),
            out.deep_view() == selected_names(cat.take(i as int)),
        decreases catalog.len() - i,
    {
        let ghost before = out.deep_view();
        assert(cat.take(i as int + 1).drop_last() =~= cat.take(i as int));
        assert(cat.take(i as int + 1).last() == catalog@[i as int]@);
        if catalog[i].is_selected {
            out.push(catalog[i].extension.clone());
            assert(out.deep_view() =~= before.push(catalog@[i as int].extension@));
        }
        i = i + 1;
    }
    assert(cat.take(catalog.len() as int) =~= cat);
    out
}

/// The line under the picker: "Using built-in default extension list."
/// when nothing is selected, otherwise "Searching: " and the selected
/// extensions joined by ", ".
pub open spec fn selection_summary(cat: Seq<ExtensionEntry>) -> Seq<char> {
    if selected_names(cat).len() == 0 {
        "Using built-in default extension list."@
    } else {
        "Searching: "@ + join(selected_names(cat), ", "@)
    }
}

/// Describes the current extension selection (see [`selection_summary`]).
pub fn selected_extensions_summary(catalog: &[ExtensionOption]) -> (r: String)
    ensures
        r@ == selection_summary(catalog@.map_values(|e: ExtensionOption| e@)),
{
    let names = selected_extensions(catalog);
    let mut out: Vec<char> = Vec::new();
    if names.len() == 0 {
        extend_str(&mut out, "Using built-in default extension list.");
    } else {
        extend_str(&mut out, "Searching: ");
        push_joined(&mut out, &names, ", ");
    }
    string_from(out.as_slice())
}

/// `i` is the first entry whose extension equals `name` up to ASCII case.
pub open spec fn is_first_ci_match(cat: Seq<ExtensionEntry>, name: Seq<char>, i: int) -> bool {
    &&& 0 <= i < cat.len()
    &&& eq_ascii_ci(cat[i].extension, name)
    &&& forall|j: int| 0 <= j < i ==> !eq_ascii_ci(#[trigger] cat[j].extension, name)
}

/// The first entry whose extension equals `name` up to ASCII case.
pub open spec fn ci_index(cat: Seq<ExtensionEntry>, name: Seq<char>) -> Option<int> {
    if exists|i: int| is_first_ci_match(cat, name, i) {
        Some(choose|i: int| is_first_ci_match(cat, name, i))
    } else {
        None
    }
}

/// The catalog after asking for extension `name`: the first entry with
/// that extension (up to ASCII case) becomes selected, or, when there is
/// none, a selected "Custom" entry for `name` is appended.
pub open spec fn select_or_add(cat: Seq<ExtensionEntry>, name: Seq<char>) -> Seq<ExtensionEntry> {
    match ci_index(cat, name) {
        Some(i) => cat.update(
            i,
            ExtensionEntry { extension: cat[i].extension, category: cat[i].category, is_selected: true },
        ),
        None => cat.push(ExtensionEntry { extension: name, category: "Custom"@, is_selected: true }),
    }
}

/// Asking for an extension keeps every entry (same extension and
/// category, still selected if it was), may only append a selected
/// "Custom" entry, and leaves a selected entry matching the name up to
/// ASCII case.
pub open spec fn keeps_and_selects(before: Seq<ExtensionEntry>, after: Seq<ExtensionEntry>) -> bool {
    &&& after.len() >= before.len()
    &&& forall|i: int|
        0 <= i < before.len() ==> (#[trigger] after[i]).extension == before[i].extension && after[i].category
            == before[i].category && (before[i].is_selected ==> after[i].is_selected)
    &&& forall|j: int| before.len() <= j < after.len() ==> (#[trigger] after[j]).is_selected && after[j].category
        == "Custom"@
}

proof fn lemma_select_or_add_step(cat: Seq<ExtensionEntry>, name: Seq<char>)
    ensures
        keeps_and_selects(cat, select_or_add(cat, name)),
        exists|j: int|
            0 <= j < select_or_add(cat, name).len() && eq_ascii_ci(
                #[trigger] select_or_add(cat, name)[j].extension,
                name,
            ) && select_or_add(cat, name)[j].is_selected,
{
    let after = select_or_add(cat, name);
    match ci_index(cat, name) {
        Some(i) => {
            let w = choose|k: int| is_first_ci_match(cat, name, k);
            assert(is_first_ci_match(cat, name, w));
            assert(after[i].extension == cat[i].extension);
            assert(eq_ascii_ci(after[i].extension, name));
        },
        None => {
            let n = cat.len() as int;
            reveal_strlit("Custom");
            assert(after[n].extension == name);
            assert(eq_ascii_ci(after[n].extension, name));
        },
    }
}

/// Restoring a saved selection selects every saved extension, matching it
/// up to ASCII case or adding it as a "Custom" entry, and deselects
/// nothing: every entry stays with its extension and category, selected if
/// it was, and every added entry is a selected "Custom" one.
pub proof fn lemma_select_all_selects(cat: Seq<ExtensionEntry>, names: Seq<Seq<char>>)
    ensures
        keeps_and_selects(cat, select_all(cat, names)),
        forall|k: int|
            #![trigger names[k]]
            0 <= k < names.len() ==> exists|j: int|
                0 <= j < select_all(cat, names).len() && eq_ascii_ci(
                    #[trigger] select_all(cat, names)[j].extension,
                    names[k],
                ) && select_all(cat, names)[j].is_selected,
    decreases names.len(),
{
    if names.len() > 0 {
        let prev_names = names.drop_last();
        let name = names.last();
        let mid = select_all(cat, prev_names);
        let after = select_all(cat, names);
        lemma_select_all_selects(cat, prev_names);
        lemma_select_or_add_step(mid, name);
        assert(after == select_or_add(mid, name));
        assert forall|k: int| #![trigger names[k]] 0 <= k < names.len() implies exists|j: int|
            0 <= j < after.len() && eq_ascii_ci(#[trigger] after[j].extension, names[k])
                && after[j].is_selected by {
            if k < names.len() - 1 {
                assert(names[k] == prev_names[k]);
                let j = choose|j: int|
                    0 <= j < mid.len() && eq_ascii_ci(#[trigger] mid[j].extension, prev_names[k])
                        && mid[j].is_selected;
                assert(after[j].extension == mid[j].extension);
            } else {
                assert(names[k] == name);
            }
        }
        assert forall|i: int| 0 <= i < cat.len() implies (#[trigger] after[i]).extension == cat[i].extension
            && after[i].category == cat[i].category && (cat[i].is_selected ==> after[i].is_selected) by {
            assert(mid[i].extension == cat[i].extension);
        }
        assert forall|j: int| cat.len() <= j < after.len() implies (#[trigger] after[j]).is_selected
            && after[j].category == "Custom"@ by {
            if j < mid.len() {
                assert(mid[j].is_selected && mid[j].category == "Custom"@);
            }
        }
    }
}

/// Asking for the same extension twice leaves the catalog as asking once
/// did: an extension already present in any ASCII letter case is selected,
/// never added a second time.
pub proof fn lemma_select_or_add_idempotent(cat: Seq<ExtensionEntry>, name: Seq<char>)
    ensures
        select_or_add(select_or_add(cat, name), name) == select_or_add(cat, name),
{
    let once = select_or_add(cat, name);
    match ci_index(cat, name) {
        Some(i) => {
            let w = choose|k: int| is_first_ci_match(cat, name, k);
            assert(is_first_ci_match(cat, name, w));
            assert(is_first_ci_match(once, name, i)) by {
                assert forall|j: int| 0 <= j < i implies !eq_ascii_ci(#[trigger] once[j].extension, name) by {
                    assert(once[j] == cat[j]);
                }
            }
            lemma_ci_index_unique(once, name, i);
            assert(select_or_add(once, name) =~= once);
        },
        None => {
            let n = cat.len() as int;
            assert(!exists|k: int| is_first_ci_match(cat, name, k));
            assert(is_first_ci_match(once, name, n)) by {
                assert(eq_ascii_ci(once[n].extension, name));
                assert forall|j: int| 0 <= j < n implies !eq_ascii_ci(#[trigger] once[j].extension, name) by {
                    assert(once[j] == cat[j]);
                    if eq_ascii_ci(cat[j].extension, name) {
                        lemma_first_match_exists(cat, name, j);
                    }
                }
            }
            lemma_ci_index_unique(once, name, n);
            assert(select_or_add(once, name) =~= once);
        },
    }
}

/// When some entry matches `name` up to ASCII case, a first one does.
proof fn lemma_first_match_exists(cat: Seq<ExtensionEntry>, name: Seq<char>, j: int)
    requires
        0 <= j < cat.len(),
        eq_ascii_ci(cat[j].extension, name),
    ensures
        exists|k: int| is_first_ci_match(cat, name, k),
    decreases j,
{
    if forall|m: int| 0 <= m < j ==> !eq_ascii_ci(#[trigger] cat[m].extension, name) {
        assert(is_first_ci_match(cat, name, j));
    } else {
        let m = choose|m: int| 0 <= m < j && eq_ascii_ci(#[trigger] cat[m].extension, name);
        lemma_first_match_exists(cat, name, m);
    }
}

/// Every name of the list asked for in turn (see [`select_or_add`]).
pub open spec fn select_all(cat: Seq<ExtensionEntry>, names: Seq<Seq<char>>) -> Seq<ExtensionEntry>
    decreases names.len(),
{
    if names.len() == 0 {
        cat
    } else {
        select_or_add(select_all(cat, names.drop_last()), names.last())
    }
}

proof fn lemma_ci_index_unique(cat: Seq<ExtensionEntry>, name: Seq<char>, i: int)
    requires
        is_first_ci_match(cat, name, i),
    ensures
        ci_index(cat, name) == Some(i),
{
    let w = choose|k: int| is_first_ci_match(cat, name, k);
    assert(is_first_ci_match(cat, name, w));
    if w < i {
        assert(!eq_ascii_ci(cat[w].extension, name));
    } else if w > i {
        assert(!eq_ascii_ci(cat[i].extension, name));
    }
}

/// The position of the first entry whose extension equals `name` up to
/// ASCII case.
pub fn find_extension(catalog: &Vec<ExtensionOption>, name: &String) -> (r: Option<usize>)
    ensures
        r matches Some(i) ==> ci_index(catalog.deep_view(), name@) == Some(i as int),
        r is None ==> ci_index(catalog.deep_view(), name@) is None,
{
    let ghost cat = catalog.deep_view();
    let nc = chars_of(name.as_str());
    let mut i: usize = 0;
    while i < catalog.len()
        invariant
            i <= catalog.len(),
            cat == catalog.deep_view(),
            nc@ == name@,
            forall|j: int| 0 <= j < i ==> !eq_ascii_ci(#[trigger] cat[j].extension, name@),
        decreases catalog.len() - i,
    {
        let ec = chars_of(catalog[i].extension.as_str());
        if eq_ignore_ascii_case(ec.as_slice(), nc.as_slice()) {
            proof {
                assert(cat[i as int].extension == catalog@[i as int].extension@);
                lemma_ci_index_unique(cat, name@, i as int);
            }
            return Some(i);
        }
        i = i + 1;
    }
    assert(!exists|k: int| is_first_ci_match(cat, name@, k));
    None
}

/// Asks for extension `name` in the catalog (see [`select_or_add`]).
pub fn select_or_add_extension(catalog: &mut Vec<ExtensionOption>, name: &String)
    ensures
        final(catalog).deep_view() == select_or_add(old(catalog).deep_view(), name@),
{
    let ghost cat = catalog.deep_view();
    match find_extension(catalog, name) {
        Some(i) => {
            let e = ExtensionOption {
                extension: catalog[i].extension.clone(),
                category: catalog[i].category.clone(),
                is_selected: true,
            };
            let ghost before = catalog@;
            catalog.set(i, e);
            assert forall|j: int| 0 <= j < catalog.len() implies #[trigger] catalog.deep_view()[j]
                == select_or_add(cat, name@)[j] by {
                if j != i {
                    assert(catalog@[j] == before[j]);
                }
            }
            assert(catalog.deep_view() =~= select_or_add(cat, name@));
        },
        None => {
            catalog.push(
                ExtensionOption { extension: name.clone(), category: "Custom".to_string(), is_selected: true },
            );
            proof {
                reveal_strlit("Custom");
            }
            assert(catalog.deep_view() =~= select_or_add(cat, name@));
        },
    }
}

/// Restores a saved selection: every saved extension is asked for in turn
/// (see [`select_all`]).
pub fn apply_selected_extensions(catalog: &mut Vec<ExtensionOption>, names: &Vec<String>)
    ensures
        final(catalog).deep_view() == select_all(old(catalog).deep_view(), names.deep_view()),
{
    let ghost start = catalog.deep_view();
    let ghost all = names.deep_view();
    let mut i: usize = 0;
    assert(all.take(0) =~= Seq::<Seq<char>>::empty());
    while i < names.len()
        invariant
            i <= names.len(),
            all == names.deep_view(),
            catalog.deep_view() == select_all(start, all.take(i as int)),
        decreases names.len() - i,
    {
        assert(all.take(i as int + 1).drop_last() =~= all.take(i as int));
        select_or_add_extension(catalog, &names[i]);
        i = i + 1;
    }
    assert(all.take(names.len() as int) =~= all);
}

/// Every entry deselected.
pub open spec fn cleared(cat: Seq<ExtensionEntry>) -> Seq<ExtensionEntry> {
    cat.map_values(
        |e: ExtensionEntry| ExtensionEntry { extension: e.extension, category: e.category, is_selected: false },
    )
}

/// Deselects every catalog entry.
pub fn clear_selected_extensions(catalog: &mut Vec<ExtensionOption>)
    ensures
        final(catalog).deep_view() == cleared(old(catalog).deep_view()),
{
    let ghost cat = catalog.deep_view();
    let mut i: usize = 0;
    while i < catalog.len()
        invariant
            i <= catalog.len(),
            catalog.len() == cat.len(),
            forall|j: int| 0 <= j < i ==> (#[trigger] catalog@[j])@ == cleared(cat)[j],
            forall|j: int| i <= j < catalog.len() ==> (#[trigger] catalog@[j])@ == cat[j],
        decreases catalog.len() - i,
    {
        let e = ExtensionOption {
            extension: catalog[i].extension.clone(),
            category: catalog[i].category.clone(),
            is_selected: false,
        };
        let ghost before = catalog@;
        catalog.set(i, e);
        assert forall|j: int| 0 <= j <= i implies (#[trigger] catalog@[j])@ == cleared(cat)[j] by {
            if j != i {
                assert(catalog@[j] == before[j]);
            }
        }
        assert forall|j: int| i < j < catalog.len() implies (#[trigger] catalog@[j])@ == cat[j] by {
            assert(catalog@[j] == before[j]);
        }
        i = i + 1;
    }
    assert(catalog.deep_view() =~= cleared(cat));
}

/// The name a custom extension typed into the picker's filter box is
/// stored under: trimmed, given a leading `.` when it has none, then
/// lower-cased.
pub open spec fn custom_extension_name(raw: Seq<char>) -> Seq<char> {
    let t = trim(raw);
    lowercase(if starts_with(t, "."@) { t } else { "."@ + t })
}

/// Adds the extension typed into the filter box: nothing happens when the
/// trimmed text is empty; otherwise the normalized name (see
/// [`custom_extension_name`]) is asked for (see [`select_or_add`]) and
/// the filter box is cleared.
pub fn add_custom_extension(catalog: &mut Vec<ExtensionOption>, filter_text: &mut String)
    ensures
        trim(old(filter_text)@).len() == 0 ==> final(catalog).deep_view() == old(catalog).deep_view()
            && final(filter_text)@ == old(filter_text)@,
        trim(old(filter_text)@).len() > 0 ==> final(catalog).deep_view() == select_or_add(
            old(catalog).deep_view(),
            custom_extension_name(old(filter_text)@),
        ) && final(filter_text)@.len() == 0,
{
    let raw = trim_str(filter_text.as_str());
    if raw.len() == 0 {
        return;
    }
    let mut with_dot: Vec<char> = Vec::new();
    if raw[0] != '.' {
        with_dot.push('.');
    }
    extend_chars(&mut with_dot, raw.as_slice());
    proof {
        reveal_strlit(".");
        if raw@[0] == '.' {
            assert(raw@.subrange(0, 1) =~= "."@);
            assert(starts_with(raw@, "."@));
            assert(with_dot@ =~= raw@);
        } else {
            assert(!starts_with(raw@, "."@)) by {
                if starts_with(raw@, "."@) {
                    assert(raw@.subrange(0, 1)[0] == raw@[0]);
                }
            }
            assert(with_dot@ =~= "."@ + raw@);
        }
    }
    let ws = string_from(with_dot.as_slice());
    let normalized = to_lowercase(ws.as_str());
    select_or_add_extension(catalog, &normalized);
    *filter_text = String::new();
}

/// No two entries have the same extension up to ASCII case.
pub open spec fn distinct_extensions(cat: Seq<ExtensionEntry>) -> bool {
    forall|i: int, j: int|
        0 <= i < cat.len() && 0 <= j < cat.len() && i != j ==> !eq_ascii_ci(
            #[trigger] cat[i].extension,
            #[trigger] cat[j].extension,
        )
}

/// The first `n` entries as in `cat`, the rest deselected.
pub open spec fn restored_prefix(cat: Seq<ExtensionEntry>, n: int) -> Seq<ExtensionEntry> {
    Seq::new(cat.len(), |i: int| if i < n { cat[i] } else { cleared(cat)[i] })
}

proof fn lemma_selected_names_take(cat: Seq<ExtensionEntry>, n: int)
    requires
        0 <= n < cat.len(),
    ensures
        selected_names(cat.take(n + 1)) == if cat[n].is_selected {
            selected_names(cat.take(n)).push(cat[n].extension)
        } else {
            selected_names(cat.take(n))
        },
{
    assert(cat.take(n + 1).drop_last() =~= cat.take(n));
}

proof fn lemma_select_all_push(cat: Seq<ExtensionEntry>, names: Seq<Seq<char>>, name: Seq<char>)
    ensures
        select_all(cat, names.push(name)) == select_or_add(select_all(cat, names), name),
{
    assert(names.push(name).drop_last() =~= names);
}

proof fn lemma_restore_prefix(cat: Seq<ExtensionEntry>, n: int)
    requires
        0 <= n <= cat.len(),
        distinct_extensions(cat),
    ensures
        select_all(cleared(cat), selected_names(cat.take(n))) == restored_prefix(cat, n),
    decreases n,
{
    if n == 0 {
        assert(cat.take(0) =~= Seq::<ExtensionEntry>::empty());
        assert(restored_prefix(cat, 0) =~= cleared(cat));
    } else {
        let m = n - 1;
        lemma_restore_prefix(cat, m);
        lemma_selected_names_take(cat, m);
        let prev = restored_prefix(cat, m);
        if cat[m].is_selected {
            lemma_select_all_push(cleared(cat), selected_names(cat.take(m)), cat[m].extension);
            assert(is_first_ci_match(prev, cat[m].extension, m)) by {
                assert(eq_ascii_ci(cat[m].extension, cat[m].extension));
                assert forall|j: int| 0 <= j < m implies !eq_ascii_ci(#[trigger] prev[j].extension, cat[m].extension) by {
                    assert(prev[j] == cat[j]);
                }
            }
            lemma_ci_index_unique(prev, cat[m].extension, m);
            assert(select_or_add(prev, cat[m].extension) =~= restored_prefix(cat, n));
        } else {
            assert(prev =~= restored_prefix(cat, n));
        }
    }
}

/// Saving the selection and restoring it onto the deselected catalog gives
/// back the catalog as it was, provided no two entries share an extension
/// up to ASCII case.
pub proof fn lemma_selection_round_trip(cat: Seq<ExtensionEntry>)
    requires
        distinct_extensions(cat),
    ensures
        select_all(cleared(cat), selected_names(cat)) == cat,
{
    lemma_restore_prefix(cat, cat.len() as int);
    assert(cat.take(cat.len() as int) =~= cat);
    assert(restored_prefix(cat, cat.len() as int) =~= cat);
}

} // verus!
