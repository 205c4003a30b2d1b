//! The results panel's statistics line: the six most common file
//! extensions among the current results, most common first, ties broken
//! by the extension's text.

use vstd::prelude::*;
use crate::text::{ascii_lower, chars_of, lowercase, str_eq, string_from, to_lowercase, extend_str, contains_seq};
use crate::results::FileResultView;
use crate::fields::{last_index_of, lemma_last_index_of};

verus! {

// ---------------------------------------------------------------------------
// Lexicographic order on character sequences.
// ---------------------------------------------------------------------------

/// `a` sorts strictly before `b`, comparing characters by code point and a
/// proper prefix first.
pub open spec fn lex_lt(a: Seq<char>, b: Seq<char>) -> bool
    decreases a.len(),
{
    if b.len() == 0 {
        false
    } else if a.len() == 0 {
        true
    } else if a[0] != b[0] {
        (a[0] as int) < (b[0] as int)
    } else {
        lex_lt(a.drop_first(), b.drop_first())
    }
}

/// No sequence sorts before itself.
pub proof fn lemma_lex_irreflexive(a: Seq<char>)
    ensures
        !lex_lt(a, a),
    decreases a.len(),
{
    if a.len() > 0 {
        lemma_lex_irreflexive(a.drop_first());
    }
}

/// The order is transitive.
pub proof fn lemma_lex_transitive(a: Seq<char>, b: Seq<char>, c: Seq<char>)
    requires
        lex_lt(a, b),
        lex_lt(b, c),
    ensures
        lex_lt(a, c),
    decreases a.len(),
{
    if a.len() > 0 && b.len() > 0 && c.len() > 0 && a[0] == b[0] && b[0] == c[0] {
        lemma_lex_transitive(a.drop_first(), b.drop_first(), c.drop_first());
    }
}

/// Of two different sequences one sorts before the other.
pub proof fn lemma_lex_total(a: Seq<char>, b: Seq<char>)
    requires
        a != b,
    ensures
        lex_lt(a, b) || lex_lt(b, a),
    decreases a.len(),
{
    if a.len() == 0 || b.len() == 0 {
        if a.len() == 0 && b.len() == 0 {
            assert(a =~= b);
        }
    } else if a[0] == b[0] {
        if a.drop_first() == b.drop_first() {
            assert(a =~= seq![a[0]] + a.drop_first());
            assert(b =~= seq![b[0]] + b.drop_first());
        }
        lemma_lex_total(a.drop_first(), b.drop_first());
    } else {
        assert((a[0] as int) != (b[0] as int));
    }
}

proof fn lemma_lex_skip(a: Seq<char>, b: Seq<char>, i: int)
    requires
        0 <= i <= a.len(),
        i <= b.len(),
        a.take(i) == b.take(i),
    ensures
        lex_lt(a, b) == lex_lt(a.skip(i), b.skip(i)),
    decreases i,
{
    if i > 0 {
        assert(a[0] == a.take(i)[0]);
        assert(b[0] == b.take(i)[0]);
        assert(a.drop_first().take(i - 1) =~= a.take(i).drop_first());
        assert(b.drop_first().take(i - 1) =~= b.take(i).drop_first());
        lemma_lex_skip(a.drop_first(), b.drop_first(), i - 1);
        assert(a.drop_first().skip(i - 1) =~= a.skip(i));
        assert(b.drop_first().skip(i - 1) =~= b.skip(i));
    } else {
        assert(a.skip(0) =~= a);
        assert(b.skip(0) =~= b);
    }
}

/// Whether `a` sorts strictly before `b` (see [`lex_lt`]).
pub fn lex_less(a: &[char], b: &[char]) -> (r: bool)
    ensures
        r == lex_lt(a@, b@),
{
    let mut i: usize = 0;
    while i < a.len() && i < b.len() && a[i] == b[i]
        invariant
            i <= a.len(),
            i <= b.len(),
            a@.take(i as int) == b@.take(i as int),
        decreases a.len() - i,
    {
        assert(a@.take(i + 1) =~= a@.take(i as int).push(a@[i as int]));
        assert(b@.take(i + 1) =~= b@.take(i as int).push(b@[i as int]));
        i = i + 1;
    }
    proof {
        lemma_lex_skip(a@, b@, i as int);
    }
    if i == b.len() {
        false
    } else if i == a.len() {
        true
    } else {
        assert(a@.skip(i as int)[0] == a@[i as int]);
        assert(b@.skip(i as int)[0] == b@[i as int]);
        a[i] < b[i]
    }
}

// ---------------------------------------------------------------------------
// Specification of the breakdown.
// ---------------------------------------------------------------------------

/// How many times `k` occurs in `keys`.
pub open spec fn count_key(keys: Seq<Seq<char>>, k: Seq<char>) -> nat
    decreases keys.len(),
{
    if keys.len() == 0 {
        0
    } else {
        count_key(keys.drop_last(), k) + if keys.last() == k {
            1nat
        } else {
            0nat
        }
    }
}

/// Entry `a` is listed before entry `b`: a higher count first, and for
/// equal counts the text that sorts first.
pub open spec fn ranks_before(a: (Seq<char>, nat), b: (Seq<char>, nat)) -> bool {
    a.1 > b.1 || (a.1 == b.1 && lex_lt(a.0, b.0))
}

/// The most entries the breakdown lists.
pub const BREAKDOWN_SIZE: usize = 6;

/// `r` is the breakdown of `keys`: the distinct keys with their counts,
/// in rank order, cut after six; every key left out ranks after the sixth.
pub open spec fn is_breakdown(keys: Seq<Seq<char>>, r: Seq<(Seq<char>, nat)>) -> bool {
    &&& r.len() <= 6
    &&& forall|i: int| 0 <= i < r.len() ==> keys.contains(#[trigger] r[i].0)
    &&& forall|i: int| 0 <= i < r.len() ==> (#[trigger] r[i]).1 == count_key(keys, r[i].0)
    &&& forall|i: int, j: int| 0 <= i < j < r.len() ==> ranks_before(r[i], r[j])
    &&& forall|k: Seq<char>|
        #![trigger keys.contains(k)]
        keys.contains(k) ==> (exists|i: int| 0 <= i < r.len() && r[i].0 == k) || (r.len() == 6
            && ranks_before(r[5], (k, count_key(keys, k))))
}

/// Breakdown entries as plain values.
pub open spec fn entries_view(v: Seq<(String, usize)>) -> Seq<(Seq<char>, nat)> {
    v.map_values(|e: (String, usize)| (e.0@, e.1 as nat))
}


/// Ranking is transitive.
pub proof fn lemma_ranks_transitive(a: (Seq<char>, nat), b: (Seq<char>, nat), c: (Seq<char>, nat))
    requires
        ranks_before(a, b),
        ranks_before(b, c),
    ensures
        ranks_before(a, c),
{
    if a.1 == b.1 && b.1 == c.1 {
        lemma_lex_transitive(a.0, b.0, c.0);
    }
}

/// Of two entries with different texts one ranks before the other.
pub proof fn lemma_ranks_total(a: (Seq<char>, nat), b: (Seq<char>, nat))
    requires
        a.0 != b.0,
    ensures
        ranks_before(a, b) || ranks_before(b, a),
{
    lemma_lex_total(a.0, b.0);
}

/// No entry ranks before itself.
pub proof fn lemma_ranks_irreflexive(a: (Seq<char>, nat))
    ensures
        !ranks_before(a, a),
{
    lemma_lex_irreflexive(a.0);
}

// ---------------------------------------------------------------------------
// Computing the breakdown.
// ---------------------------------------------------------------------------

/// The distinct keys in order of first appearance, with their counts.
fn tally(keys: &Vec<String>) -> (r: Vec<(String, usize)>)
    ensures
        forall|j: int|
            0 <= j < r.len() ==> keys.deep_view().contains(#[trigger] entries_view(r@)[j].0)
                && entries_view(r@)[j].1 == count_key(keys.deep_view(), entries_view(r@)[j].0),
        forall|i: int, j: int|
            0 <= i < j < r.len() ==> entries_view(r@)[i].0 != entries_view(r@)[j].0,
        forall|k: Seq<char>|
            #![trigger keys.deep_view().contains(k)]
            keys.deep_view().contains(k) ==> exists|j: int|
                0 <= j < r.len() && entries_view(r@)[j].0 == k,
{
    let ghost ks = keys.deep_view();
    let mut names: Vec<String> = Vec::new();
    let mut counts: Vec<usize> = Vec::new();
    let mut i: usize = 0;
    while i < keys.len()
        invariant
            i <= keys.len(),
            ks == keys.deep_view(),
            names.len() == counts.len(),
            forall|j: int|
                0 <= j < names.len() ==> ks.take(i as int).contains(#[trigger] names@[j]@)
                    && counts@[j] == count_key(ks.take(i as int), names@[j]@) && counts@[j] <= i,
            forall|a: int, b: int| 0 <= a < b < names.len() ==> names@[a]@ != names@[b]@,
            forall|k: Seq<char>|
                #![trigger ks.take(i as int).contains(k)]
                ks.take(i as int).contains(k) ==> exists|j: int|
                    0 <= j < names.len() && names@[j]@ == k,
        decreases keys.len() - i,
    {
        let ghost pre = ks.take(i as int);
        let ghost post = ks.take(i + 1);
        assert(post.drop_last() =~= pre);
        assert(post.last() == ks[i as int]);
        let mut j: usize = 0;
        while j < names.len() && !str_eq(names[j].as_str(), keys[i].as_str())
            invariant
                j <= names.len(),
                i < keys.len(),
                ks == keys.deep_view(),
                forall|t: int| 0 <= t < j ==> names@[t]@ != ks[i as int],
            decreases names.len() - j,
        {
            j = j + 1;
        }
        assert forall|k: Seq<char>| #[trigger] post.contains(k) implies (pre.contains(k) || k
            == ks[i as int]) by {
            let w = choose|w: int| 0 <= w < post.len() && post[w] == k;
            if w < i {
                assert(pre[w] == k);
            }
        }
        assert forall|k: Seq<char>| #[trigger] pre.contains(k) implies post.contains(k) by {
            let w = choose|w: int| 0 <= w < pre.len() && pre[w] == k;
            assert(post[w] == k);
        }
        assert(post.contains(ks[i as int])) by {
            assert(post[i as int] == ks[i as int]);
        }
        let ghost old_names = names@;
        if j < names.len() {
            let c = counts[j];
            counts.set(j, c + 1);
        } else {
            names.push(keys[i].clone());
            counts.push(1);
            assert(count_key(pre, ks[i as int]) == 0) by {
                if count_key(pre, ks[i as int]) != 0 {
                    lemma_count_positive_contains(pre, ks[i as int]);
                }
            }
        }
        assert forall|k: Seq<char>| #[trigger] post.contains(k) implies exists|q: int|
            0 <= q < names.len() && names@[q]@ == k by {
            if k == ks[i as int] {
                if j < names.len() {
                    assert(names@[j as int]@ == k);
                } else {
                    assert(names@[names.len() - 1]@ == k);
                }
            } else {
                assert(pre.contains(k));
                let q = choose|q: int| 0 <= q < old_names.len() && old_names[q]@ == k;
                assert(names@[q]@ == k);
            }
        }
        i = i + 1;
    }
    assert(ks.take(keys.len() as int) =~= ks);
    let mut out: Vec<(String, usize)> = Vec::new();
    let mut t: usize = 0;
    while t < names.len()
        invariant
            t <= names.len(),
            names.len() == counts.len(),
            out.len() == t,
            forall|q: int|
                0 <= q < t ==> (#[trigger] entries_view(out@)[q]) == (names@[q]@, counts@[q] as nat),
        decreases names.len() - t,
    {
        let ghost prev = out@;
        out.push((names[t].clone(), counts[t]));
        assert(entries_view(out@) =~= entries_view(prev).push((names@[t as int]@, counts@[t as int] as nat)));
        t = t + 1;
    }
    assert forall|k: Seq<char>| #[trigger] ks.contains(k) implies exists|j: int|
        0 <= j < out.len() && entries_view(out@)[j].0 == k by {
        assert(ks.take(keys.len() as int).contains(k));
        let q = choose|q: int| 0 <= q < names.len() && names@[q]@ == k;
        assert(entries_view(out@)[q].0 == k);
    }
    out
}

/// A key counted at least once occurs among the keys.
proof fn lemma_count_positive_contains(keys: Seq<Seq<char>>, k: Seq<char>)
    requires
        count_key(keys, k) > 0,
    ensures
        keys.contains(k),
    decreases keys.len(),
{
    if keys.last() == k {
        assert(keys[keys.len() - 1] == k);
    } else {
        lemma_count_positive_contains(keys.drop_last(), k);
        let w = choose|w: int| 0 <= w < keys.drop_last().len() && keys.drop_last()[w] == k;
        assert(keys[w] == k);
    }
}


/// Whether entry `a` ranks before entry `b` (see [`ranks_before`]).
fn rank_less(a: &(String, usize), b: &(String, usize)) -> (r: bool)
    ensures
        r == ranks_before((a.0@, a.1 as nat), (b.0@, b.1 as nat)),
{
    if a.1 != b.1 {
        a.1 > b.1
    } else {
        let ac = chars_of(a.0.as_str());
        let bc = chars_of(b.0.as_str());
        lex_less(ac.as_slice(), bc.as_slice())
    }
}

/// Index of the entry of `rem` that ranks first.
fn best_entry(rem: &Vec<(String, usize)>) -> (b: usize)
    requires
        rem.len() > 0,
        forall|a: int, c: int|
            0 <= a < c < rem.len() ==> entries_view(rem@)[a].0 != entries_view(rem@)[c].0,
    ensures
        b < rem.len(),
        forall|q: int|
            0 <= q < rem.len() && q != b ==> ranks_before(
                entries_view(rem@)[b as int],
                #[trigger] entries_view(rem@)[q],
            ),
{
    let ghost ev = entries_view(rem@);
    let mut best: usize = 0;
    let mut j: usize = 1;
    while j < rem.len()
        invariant
            1 <= j <= rem.len(),
            best < j,
            ev == entries_view(rem@),
            forall|a: int, c: int| 0 <= a < c < rem.len() ==> ev[a].0 != ev[c].0,
            forall|q: int| 0 <= q < j && q != best ==> ranks_before(ev[best as int], #[trigger] ev[q]),
        decreases rem.len() - j,
    {
        assert(ev[j as int] == (rem@[j as int].0@, rem@[j as int].1 as nat));
        assert(ev[best as int] == (rem@[best as int].0@, rem@[best as int].1 as nat));
        if rank_less(&rem[j], &rem[best]) {
            assert forall|q: int| 0 <= q < j + 1 && q != j implies ranks_before(
                ev[j as int],
                #[trigger] ev[q],
            ) by {
                if q != best {
                    lemma_ranks_transitive(ev[j as int], ev[best as int], ev[q]);
                }
            }
            best = j;
        } else {
            proof {
                lemma_ranks_total(ev[j as int], ev[best as int]);
            }
        }
        j = j + 1;
    }
    best
}

/// The breakdown of the given keys (see [`is_breakdown`]).
pub fn breakdown_of_keys(keys: &Vec<String>) -> (r: Vec<(String, usize)>)
    ensures
        is_breakdown(keys.deep_view(), entries_view(r@)),
{
    let ghost ks = keys.deep_view();
    let mut rem = tally(keys);
    let mut out: Vec<(String, usize)> = Vec::new();
    while out.len() < BREAKDOWN_SIZE && rem.len() > 0
        invariant
            ks == keys.deep_view(),
            out.len() <= 6,
            forall|j: int|
                0 <= j < rem.len() ==> ks.contains(#[trigger] entries_view(rem@)[j].0)
                    && entries_view(rem@)[j].1 == count_key(ks, entries_view(rem@)[j].0),
            forall|j: int|
                0 <= j < out.len() ==> ks.contains(#[trigger] entries_view(out@)[j].0)
                    && entries_view(out@)[j].1 == count_key(ks, entries_view(out@)[j].0),
            forall|a: int, c: int|
                0 <= a < c < rem.len() ==> entries_view(rem@)[a].0 != entries_view(rem@)[c].0,
            forall|a: int, c: int|
                0 <= a < c < out.len() ==> ranks_before(
                    entries_view(out@)[a],
                    entries_view(out@)[c],
                ),
            forall|a: int, c: int|
                0 <= a < out.len() && 0 <= c < rem.len() ==> ranks_before(
                    entries_view(out@)[a],
                    entries_view(rem@)[c],
                ),
            forall|k: Seq<char>|
                #![trigger ks.contains(k)]
                ks.contains(k) ==> (exists|j: int| 0 <= j < out.len() && entries_view(out@)[j].0 == k)
                    || (exists|j: int| 0 <= j < rem.len() && entries_view(rem@)[j].0 == k),
        decreases rem.len(),
    {
        let b = best_entry(&rem);
        let ghost ev_rem = entries_view(rem@);
        let ghost ev_out = entries_view(out@);
        let e = rem.remove(b);
        out.push(e);
        assert(entries_view(rem@) =~= ev_rem.remove(b as int));
        assert(entries_view(out@) =~= ev_out.push(ev_rem[b as int]));
        assert forall|k: Seq<char>| #[trigger] ks.contains(k) implies (exists|j: int|
            0 <= j < out.len() && entries_view(out@)[j].0 == k) || (exists|j: int|
            0 <= j < rem.len() && entries_view(rem@)[j].0 == k) by {
            if exists|j: int| 0 <= j < ev_out.len() && ev_out[j].0 == k {
                let j = choose|j: int| 0 <= j < ev_out.len() && ev_out[j].0 == k;
                assert(entries_view(out@)[j].0 == k);
            } else {
                let j = choose|j: int| 0 <= j < ev_rem.len() && ev_rem[j].0 == k;
                if j == b {
                    assert(entries_view(out@)[ev_out.len() as int].0 == k);
                } else if j < b {
                    assert(entries_view(rem@)[j].0 == k);
                } else {
                    assert(entries_view(rem@)[j - 1].0 == k);
                }
            }
        }
        assert forall|a: int, c: int|
            0 <= a < out.len() && 0 <= c < rem.len() implies ranks_before(
            entries_view(out@)[a],
            entries_view(rem@)[c],
        ) by {
            let cc = if c < b { c } else { c + 1 };
            assert(entries_view(rem@)[c] == ev_rem[cc]);
            if a == ev_out.len() {
            } else {
                assert(entries_view(out@)[a] == ev_out[a]);
            }
        }
    }
    proof {
        let r = entries_view(out@);
        assert forall|k: Seq<char>| #[trigger] ks.contains(k) implies (exists|i: int|
            0 <= i < r.len() && r[i].0 == k) || (r.len() == 6 && ranks_before(
            r[5],
            (k, count_key(ks, k)),
        )) by {
            if !(exists|i: int| 0 <= i < r.len() && r[i].0 == k) {
                let j = choose|j: int| 0 <= j < rem.len() && entries_view(rem@)[j].0 == k;
                assert(entries_view(rem@)[j] == (k, count_key(ks, k)));
            }
        }
    }
    out
}


// ---------------------------------------------------------------------------
// Extensions of the results.
// ---------------------------------------------------------------------------

/// A file name as a single path component: not empty, not `.` or `..`,
/// and holding none of `/`, `\\` or `:`.
pub open spec fn plain_file_name(name: Seq<char>) -> bool {
    &&& name.len() > 0
    &&& name != "."@
    &&& name != ".."@
    &&& !name.contains('/')
    &&& !name.contains('\\')
    &&& !name.contains(':')
}

/// The extension of a plain file name, as `Path::extension` gives it: the
/// text after the last `.`; none when there is no `.` or the last one is
/// the name's first character.
pub open spec fn name_extension(name: Seq<char>) -> Option<Seq<char>> {
    match last_index_of(name, '.') {
        Some(i) => if i == 0 {
            None
        } else {
            Some(name.skip(i + 1))
        },
        None => None,
    }
}

/// The extension of a file name is what follows its last `.`, when that
/// `.` is not the name's first character; a name with no `.` after its
/// first character has none.
pub proof fn lemma_extension_follows_last_dot(name: Seq<char>)
    ensures
        name_extension(name) matches Some(e) ==> exists|k: int|
            0 < k < name.len() && name[k] == '.' && (forall|j: int| k < j < name.len() ==> name[j] != '.')
                && e == name.skip(k + 1),
        name_extension(name) is None ==> forall|j: int| 0 < j < name.len() ==> name[j] != '.',
{
    lemma_last_index_of(name, '.');
}

/// Calls `std::path::Path::extension` on `name` and converts the result
/// with `to_string_lossy`. An extension holds no `.` and occurs in `name`
/// right after a `.`; for a plain file name (see [`plain_file_name`]) it
/// is exactly [`name_extension`]. Where the final component of other
/// paths starts depends on the platform's separators, and is left unsaid.
#[verifier::external_body]
fn path_extension(name: &str) -> (r: Option<String>)
    ensures
        r matches Some(e) ==> !e@.contains('.') && contains_seq(name@, seq!['.'] + e@),
        plain_file_name(name@) ==> opt_chars(r) == name_extension(name@),
{
    std::path::Path::new(name).extension().map(|e| e.to_string_lossy().into_owned())
}

/// The breakdown key of a file with the given extension: a dot and the
/// lower-cased extension, or "(no extension)".
pub open spec fn extension_key(ext: Option<Seq<char>>) -> Seq<char> {
    match ext {
        Some(e) => seq!['.'] + lowercase(e),
        None => "(no extension)"@,
    }
}

/// An optional string as optional characters.
pub open spec fn opt_chars(o: Option<String>) -> Option<Seq<char>> {
    match o {
        Some(s) => Some(s@),
        None => None,
    }
}

/// The breakdown key for a file with the given extension (see
/// [`extension_key`]).
///
/// An ASCII extension is lower-cased letter by letter.
pub fn extension_key_of(ext: Option<String>) -> (r: String)
    ensures
        r@ == extension_key(opt_chars(ext)),
        ext matches Some(e) ==> (vstd::utf8::is_ascii_chars(e@) ==> r@ == seq!['.'] + e@.map_values(
            |c: char| ascii_lower(c),
        )),
{
    let mut out: Vec<char> = Vec::new();
    match ext {
        Some(e) => {
            out.push('.');
            let lower = to_lowercase(e.as_str());
            extend_str(&mut out, lower.as_str());
            assert(out@ =~= seq!['.'] + lowercase(e@));
        },
        None => {
            extend_str(&mut out, "(no extension)");
        },
    }
    string_from(out.as_slice())
}

/// The six most common extensions among the results' file names, most
/// common first and ties in text order, with their counts (see
/// [`is_breakdown`]). Each file's extension comes from the platform's path
/// rules, of which the contract states what holds everywhere.
pub fn extension_breakdown(results: &[FileResultView]) -> (r: Vec<(String, usize)>)
    ensures
        exists|exts: Seq<Option<Seq<char>>>|
            {
                &&& exts.len() == results.len()
                &&& forall|i: int|
                    0 <= i < results.len() ==> (#[trigger] exts[i] matches Some(e) ==> !e.contains(
                        '.',
                    ) && contains_seq(results@[i].file_name@, seq!['.'] + e))
                &&& forall|i: int|
                    0 <= i < results.len() && plain_file_name(results@[i].file_name@) ==> #[trigger] exts[i]
                        == name_extension(results@[i].file_name@)
                &&& is_breakdown(exts.map_values(|x: Option<Seq<char>>| extension_key(x)), entries_view(r@))
            },
{
    let mut keys: Vec<String> = Vec::new();
    let ghost mut exts: Seq<Option<Seq<char>>> = Seq::empty();
    let mut i: usize = 0;
    while i < results.len()
        invariant
            i <= results.len(),
            exts.len() == i,
            keys.len() == i,
            forall|q: int|
                0 <= q < i ==> (#[trigger] exts[q] matches Some(e) ==> !e.contains('.')
                    && contains_seq(results@[q].file_name@, seq!['.'] + e)),
            forall|q: int| 0 <= q < i ==> (#[trigger] keys@[q])@ == extension_key(exts[q]),
            forall|q: int|
                0 <= q < i && plain_file_name(results@[q].file_name@) ==> #[trigger] exts[q] == name_extension(
                    results@[q].file_name@,
                ),
        decreases results.len() - i,
    {
        let ext = path_extension(results[i].file_name.as_str());
        proof {
            exts = exts.push(opt_chars(ext));
        }
        let key = extension_key_of(ext);
        keys.push(key);
        i = i + 1;
    }
    let r = breakdown_of_keys(&keys);
    assert(keys.deep_view() =~= exts.map_values(|x: Option<Seq<char>>| extension_key(x)));
    r
}

} // verus!
