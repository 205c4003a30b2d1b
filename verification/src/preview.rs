//! Match highlighting for the preview pane: every case-insensitive
//! occurrence of a filter in a line is marked, overlapping and touching
//! marks are merged, and the line is cut into plain and marked pieces.
//!
//! The search runs over the UTF-8 bytes of the lower-cased line, while the
//! pieces are cut from the line as given; a piece whose byte bounds do not
//! fall on character boundaries of that line is left out.

use vstd::prelude::*;
use vstd::utf8::*;
use vstd::string::StringSliceAdditionalSpecFns;
use crate::text::{ascii_lower, lowercase, to_lowercase};

verus! {

broadcast use {
    vstd::utf8::encode_utf8_valid_utf8,
    vstd::utf8::is_char_boundary_start_end_of_seq,
    vstd::utf8::valid_utf8_split,
};

// ---------------------------------------------------------------------------
// Specifications.
// ---------------------------------------------------------------------------

/// `pat` occurs in `hay` starting at byte `i`.
pub open spec fn bytes_match_at(hay: Seq<u8>, pat: Seq<u8>, i: int) -> bool {
    0 <= i && i + pat.len() <= hay.len() && hay.subrange(i, i + pat.len()) == pat
}

/// The bytes covered by the leftmost non-overlapping occurrences of a
/// non-empty `pat` in `hay`, scanning from byte `i`: after a match the scan
/// resumes right behind it.
pub open spec fn cover_from(hay: Seq<u8>, pat: Seq<u8>, i: int) -> Set<int>
    decreases hay.len() - i,
{
    if pat.len() == 0 || i < 0 || i + pat.len() > hay.len() {
        Set::empty()
    } else if bytes_match_at(hay, pat, i) {
        Set::new(|q: int| i <= q < i + pat.len()).union(cover_from(hay, pat, i + pat.len()))
    } else {
        cover_from(hay, pat, i + 1)
    }
}

/// The search pattern of each filter: its lower-cased UTF-8 bytes, or
/// nothing for an empty filter.
pub open spec fn filter_patterns(filters: Seq<Seq<char>>) -> Seq<Seq<u8>> {
    Seq::new(
        filters.len(),
        |k: int|
            if filters[k].len() == 0 {
                Seq::<u8>::empty()
            } else {
                encode_utf8(lowercase(filters[k]))
            },
    )
}

/// Byte `q` of `hay` lies inside an occurrence of one of the patterns.
pub open spec fn covered(hay: Seq<u8>, pats: Seq<Seq<u8>>, q: int) -> bool {
    exists|k: int| 0 <= k < pats.len() && #[trigger] cover_from(hay, pats[k], 0).contains(q)
}

/// For each byte of `hay`, whether some pattern covers it.
pub open spec fn cover_mask(hay: Seq<u8>, pats: Seq<Seq<u8>>) -> Seq<bool> {
    Seq::new(hay.len(), |q: int| covered(hay, pats, q))
}

/// The maximal runs of covered bytes as `(start, end)` pairs, scanning from
/// `i`; `open` is the start of the run in progress, if any.
pub open spec fn runs_scan(mask: Seq<bool>, i: int, open: Option<int>) -> Seq<(int, int)>
    decreases mask.len() - i,
{
    if i < 0 || i >= mask.len() {
        match open {
            Some(s) => seq![(s, mask.len() as int)],
            None => Seq::empty(),
        }
    } else if mask[i] {
        runs_scan(
            mask,
            i + 1,
            match open {
                Some(s) => Some(s),
                None => Some(i),
            },
        )
    } else {
        match open {
            Some(s) => seq![(s, i)] + runs_scan(mask, i + 1, None),
            None => runs_scan(mask, i + 1, None),
        }
    }
}

/// Byte `i` of the UTF-8 text `line` starts a character or ends the text.
#[verifier::opaque]
pub open spec fn char_boundary(line: Seq<u8>, i: int) -> bool {
    is_char_boundary(line, i)
}

/// The pieces of `line` (its bytes, and whether the piece is marked) cut at
/// the runs from the `k`-th on, with `pos` the end of what was emitted so
/// far. A run emits the plain text before it when both ends of that text
/// are character boundaries, and itself when both of its own ends are;
/// whatever follows the last emitted mark closes the line.
pub open spec fn pieces_from(line: Seq<u8>, runs: Seq<(int, int)>, k: int, pos: int) -> Seq<
    (Seq<u8>, bool),
>
    decreases runs.len() - k,
{
    if k < 0 || k >= runs.len() {
        if pos < line.len() && char_boundary(line, pos) {
            seq![(line.subrange(pos, line.len() as int), false)]
        } else {
            Seq::empty()
        }
    } else {
        let s = runs[k].0;
        let e = runs[k].1;
        let plain = if s > pos && char_boundary(line, pos) && char_boundary(line, s) {
            seq![(line.subrange(pos, s), false)]
        } else {
            Seq::empty()
        };
        if char_boundary(line, s) && char_boundary(line, e) {
            plain + seq![(line.subrange(s, e), true)] + pieces_from(line, runs, k + 1, e)
        } else {
            plain + pieces_from(line, runs, k + 1, pos)
        }
    }
}

/// The highlighted pieces of `line` for the given filters.
pub open spec fn highlighted(line: Seq<char>, filters: Seq<Seq<char>>) -> Seq<(Seq<u8>, bool)> {
    let hay = encode_utf8(lowercase(line));
    let mask = cover_mask(hay, filter_patterns(filters));
    pieces_from(encode_utf8(line), runs_scan(mask, 0, None), 0, 0)
}


// ---------------------------------------------------------------------------
// The pieces together are the line.
// ---------------------------------------------------------------------------

/// The bytes of all pieces, in order.
pub open spec fn joined_pieces(ps: Seq<(Seq<u8>, bool)>) -> Seq<u8>
    decreases ps.len(),
{
    if ps.len() == 0 {
        Seq::empty()
    } else {
        ps[0].0 + joined_pieces(ps.drop_first())
    }
}

/// Runs from the `k`-th on start at or after `lo`, end at or before `hi`,
/// are non-empty, and each ends before the next one starts.
pub open spec fn runs_ordered(runs: Seq<(int, int)>, k: int, lo: int, hi: int) -> bool {
    &&& forall|j: int| k <= j < runs.len() ==> lo <= (#[trigger] runs[j]).0 < runs[j].1 <= hi
    &&& forall|i: int, j: int| k <= i < j < runs.len() ==> (#[trigger] runs[i]).1 < (#[trigger] runs[j]).0
}

proof fn lemma_joined_append(a: Seq<(Seq<u8>, bool)>, b: Seq<(Seq<u8>, bool)>)
    ensures
        joined_pieces(a + b) == joined_pieces(a) + joined_pieces(b),
    decreases a.len(),
{
    if a.len() == 0 {
        assert(a + b =~= b);
    } else {
        assert((a + b).drop_first() =~= a.drop_first() + b);
        lemma_joined_append(a.drop_first(), b);
    }
}

proof fn lemma_runs_scan_ordered(mask: Seq<bool>, i: int, open: Option<int>)
    requires
        0 <= i <= mask.len(),
        open matches Some(s) ==> 0 <= s < i,
    ensures
        runs_ordered(
            runs_scan(mask, i, open),
            0,
            match open {
                Some(s) => s,
                None => i,
            },
            mask.len() as int,
        ),
        open is Some ==> runs_scan(mask, i, open).len() > 0,
    decreases mask.len() - i,
{
    let r = runs_scan(mask, i, open);
    if i >= mask.len() {
    } else if mask[i] {
        let next = match open {
            Some(s) => Some(s),
            None => Some(i),
        };
        lemma_runs_scan_ordered(mask, i + 1, next);
    } else {
        lemma_runs_scan_ordered(mask, i + 1, None);
        let rest = runs_scan(mask, i + 1, None);
        match open {
            Some(s) => {
                assert(r == seq![(s, i)] + rest);
                assert forall|j: int| 0 <= j < r.len() implies s <= (#[trigger] r[j]).0 < r[j].1
                    <= mask.len() by {
                    if j > 0 {
                        assert(r[j] == rest[j - 1]);
                    }
                }
                assert forall|a: int, b: int| 0 <= a < b < r.len() implies (#[trigger] r[a]).1 < (
                #[trigger] r[b]).0 by {
                    assert(r[b] == rest[b - 1]);
                    if a > 0 {
                        assert(r[a] == rest[a - 1]);
                    }
                }
            },
            None => {},
        }
    }
}

proof fn lemma_joined_single(b: Seq<u8>, m: bool)
    ensures
        joined_pieces(seq![(b, m)]) == b,
{
    let one = seq![(b, m)];
    assert(one.drop_first() =~= Seq::<(Seq<u8>, bool)>::empty());
    assert(joined_pieces(one.drop_first()) == Seq::<u8>::empty());
    assert(one[0].0 == b);
    assert(b + Seq::<u8>::empty() =~= b);
}

proof fn lemma_subrange_split(line: Seq<u8>, pos: int, s: int, e: int)
    requires
        0 <= pos <= s <= e <= line.len(),
    ensures
        line.subrange(pos, s) + line.subrange(s, e) + line.subrange(e, line.len() as int)
            == line.subrange(pos, line.len() as int),
{
    assert(line.subrange(pos, s) + line.subrange(s, e) + line.subrange(e, line.len() as int)
        =~= line.subrange(pos, line.len() as int));
}

proof fn lemma_pieces_step(line: Seq<u8>, runs: Seq<(int, int)>, k: int, pos: int)
    requires
        valid_utf8(line),
        0 <= k < runs.len(),
        pos <= runs[k].0,
        char_boundary(line, pos),
        char_boundary(line, runs[k].0),
        char_boundary(line, runs[k].1),
    ensures
        pieces_from(line, runs, k, pos) == (if runs[k].0 > pos {
            seq![(line.subrange(pos, runs[k].0), false)]
        } else {
            Seq::empty()
        }) + seq![(line.subrange(runs[k].0, runs[k].1), true)] + pieces_from(line, runs, k + 1, runs[k].1),
{
}

#[verifier::rlimit(30)]
proof fn lemma_pieces_join(line: Seq<u8>, runs: Seq<(int, int)>, k: int, pos: int)
    requires
        valid_utf8(line),
        0 <= k <= runs.len(),
        0 <= pos <= line.len(),
        char_boundary(line, pos),
        runs_ordered(runs, k, pos, line.len() as int),
        forall|j: int| k <= j < runs.len() ==> char_boundary(line, (#[trigger] runs[j]).0)
            && char_boundary(line, runs[j].1),
    ensures
        joined_pieces(pieces_from(line, runs, k, pos)) == line.subrange(pos, line.len() as int),
    decreases runs.len() - k,
{
    if k >= runs.len() {
        if pos < line.len() {
            lemma_joined_single(line.subrange(pos, line.len() as int), false);
        } else {
            assert(line.subrange(pos, line.len() as int) =~= Seq::<u8>::empty());
        }
    } else {
        let s = runs[k].0;
        let e = runs[k].1;
        let plain: Seq<(Seq<u8>, bool)> = if s > pos {
            seq![(line.subrange(pos, s), false)]
        } else {
            Seq::empty()
        };
        let mark: Seq<(Seq<u8>, bool)> = seq![(line.subrange(s, e), true)];
        let rest = pieces_from(line, runs, k + 1, e);
        assert(runs_ordered(runs, k + 1, e, line.len() as int)) by {
            assert forall|j: int| k + 1 <= j < runs.len() implies e <= (#[trigger] runs[j]).0 by {
                assert(runs[k].1 < runs[j].0);
            }
        }
        lemma_pieces_join(line, runs, k + 1, e);
        lemma_pieces_step(line, runs, k, pos);
        lemma_joined_append(plain + mark, rest);
        lemma_joined_append(plain, mark);
        lemma_joined_single(line.subrange(s, e), true);
        if s > pos {
            lemma_joined_single(line.subrange(pos, s), false);
        } else {
            assert(line.subrange(pos, s) =~= Seq::<u8>::empty());
            assert(joined_pieces(plain) =~= Seq::<u8>::empty());
        }
        lemma_subrange_split(line, pos, s, e);
    }
}

proof fn lemma_ascii_boundaries(line: Seq<char>, i: int)
    requires
        is_ascii_chars(line),
        0 <= i <= line.len(),
    ensures
        is_char_boundary(encode_utf8(line), i),
{
    is_ascii_chars_encode_utf8(line);
    let bytes = encode_utf8(line);
    if i < line.len() {
        is_char_boundary_iff_not_is_continuation_byte(bytes, i);
        assert(line[i] as u8 == bytes[i]);
        assert((line[i] as u32) < 128);
        assert(bytes[i] < 0x80);
    }
}

/// For an ASCII line, lower-cased letter by letter as `str::to_lowercase`
/// does ASCII text, the pieces put back together are exactly the line:
/// highlighting loses, repeats and reorders no text.
proof fn lemma_highlight_keeps_text(line: Seq<char>, filters: Seq<Seq<char>>)
    requires
        is_ascii_chars(line),
        lowercase(line) == line.map_values(|c: char| ascii_lower(c)),
    ensures
        joined_pieces(highlighted(line, filters)) == encode_utf8(line),
{
    let bytes = encode_utf8(line);
    let lower = lowercase(line);
    assert(is_ascii_chars(lower)) by {
        assert forall|i: int| 0 <= i < lower.len() implies '\0' <= #[trigger] lower[i] <= '\u{7f}' by {
            assert(lower[i] == ascii_lower(line[i]));
        }
    }
    is_ascii_chars_encode_utf8(lower);
    let hay = encode_utf8(lowercase(line));
    let mask = cover_mask(hay, filter_patterns(filters));
    let runs = runs_scan(mask, 0, None);
    is_ascii_chars_encode_utf8(line);
    lemma_runs_scan_ordered(mask, 0, None);
    assert forall|j: int| 0 <= j < runs.len() implies char_boundary(bytes, (#[trigger] runs[j]).0)
        && char_boundary(bytes, runs[j].1) by {
        lemma_ascii_boundaries(line, runs[j].0);
        lemma_ascii_boundaries(line, runs[j].1);
        reveal(char_boundary);
    }
    assert(char_boundary(bytes, 0)) by {
        reveal(char_boundary);
    }
    lemma_pieces_join(bytes, runs, 0, 0);
    assert(bytes.subrange(0, bytes.len() as int) =~= bytes);
}

// ---------------------------------------------------------------------------
// Finding the covered bytes.
// ---------------------------------------------------------------------------

/// Whether `pat` occurs in `hay` starting at byte `i`.
fn match_at(hay: &[u8], pat: &[u8], i: usize) -> (r: bool)
    ensures
        r == bytes_match_at(hay@, pat@, i as int),
{
    if i > hay.len() || pat.len() > hay.len() - i {
        return false;
    }
    let mut k: usize = 0;
    while k < pat.len()
        invariant
            k <= pat.len(),
            i + pat.len() <= hay.len(),
            forall|j: int| 0 <= j < k ==> hay@[i + j] == pat@[j],
        decreases pat.len() - k,
    {
        if hay[i + k] != pat[k] {
            assert(hay@.subrange(i as int, i + pat.len())[k as int] != pat@[k as int]);
            return false;
        }
        k = k + 1;
    }
    assert(hay@.subrange(i as int, i + pat.len()) =~= pat@);
    true
}

/// Sets `mask[q]` for every byte `q` inside an occurrence of `pat`, found
/// left to right without overlap.
fn mark_occurrences(hay: &[u8], pat: &[u8], mask: &mut Vec<bool>)
    requires
        old(mask).len() == hay.len(),
    ensures
        final(mask).len() == hay.len(),
        forall|q: int|
            0 <= q < hay.len() ==> final(mask)[q] == (old(mask)[q] || cover_from(
                hay@,
                pat@,
                0,
            ).contains(q)),
{
    let ghost m0 = mask@;
    let n = hay.len();
    let m = pat.len();
    if m == 0 {
        assert(cover_from(hay@, pat@, 0) =~= Set::<int>::empty());
    } else {
        let mut i: usize = 0;
        let ghost mut done: Set<int> = Set::empty();
        while i <= n && m <= n - i
            invariant
                mask.len() == n,
                m0.len() == n,
                n == hay.len(),
                m == pat.len(),
                m > 0,
                i <= n,
                cover_from(hay@, pat@, 0) == done.union(cover_from(hay@, pat@, i as int)),
                forall|q: int| 0 <= q < n ==> mask@[q] == (m0[q] || done.contains(q)),
                forall|q: int| done.contains(q) ==> 0 <= q < i,
            decreases n - i,
        {
            if match_at(hay, pat, i) {
                let ghost before = done;
                let mut q: usize = i;
                while q < i + m
                    invariant
                        mask.len() == n,
                        m0.len() == n,
                        i + m <= n,
                        i <= q <= i + m,
                        forall|p: int|
                            0 <= p < n ==> mask@[p] == (m0[p] || before.contains(p) || (i
                                <= p < q)),
                    decreases i + m - q,
                {
                    mask.set(q, true);
                    q = q + 1;
                }
                proof {
                    let span = Set::new(|p: int| i <= p < i + m);
                    assert(cover_from(hay@, pat@, i as int) == span.union(
                        cover_from(hay@, pat@, i + m),
                    ));
                    done = before.union(span);
                    assert forall|p: int| 0 <= p < n implies mask@[p] == (m0[p] || done.contains(
                        p,
                    )) by {
                        assert(q == i + m);
                        assert(mask@[p] == (m0[p] || before.contains(p) || (i <= p < q)));
                        assert(span.contains(p) == (i <= p < i + m));
                        assert(done.contains(p) == (before.contains(p) || span.contains(p)));
                    }
                    assert(cover_from(hay@, pat@, 0) =~= done.union(
                        cover_from(hay@, pat@, i + m),
                    ));
                }
                i = i + m;
            } else {
                assert(cover_from(hay@, pat@, i as int) == cover_from(hay@, pat@, i + 1));
                i = i + 1;
            }
        }
        assert(cover_from(hay@, pat@, i as int) =~= Set::<int>::empty());
        assert(cover_from(hay@, pat@, 0) =~= done);
    }
}


/// Which bytes of `hay` the filters' patterns cover.
fn cover_mask_of(hay: &[u8], filters: &[String]) -> (mask: Vec<bool>)
    ensures
        mask@ == cover_mask(hay@, filter_patterns(filters.deep_view())),
{
    let ghost pats = filter_patterns(filters.deep_view());
    let n = hay.len();
    let mut mask: Vec<bool> = Vec::new();
    while mask.len() < n
        invariant
            forall|q: int| 0 <= q < mask.len() ==> !mask@[q],
            mask.len() <= n,
        decreases n - mask.len(),
    {
        mask.push(false);
    }
    let mut k: usize = 0;
    while k < filters.len()
        invariant
            k <= filters.len(),
            n == hay.len(),
            mask.len() == n,
            pats == filter_patterns(filters.deep_view()),
            forall|q: int|
                0 <= q < n ==> mask@[q] == exists|j: int|
                    0 <= j < k && #[trigger] cover_from(hay@, pats[j], 0).contains(q),
        decreases filters.len() - k,
    {
        let ghost before = mask@;
        let f = filters[k].as_str();
        if f.is_empty() {
            assert(pats[k as int].len() == 0);
            assert(cover_from(hay@, pats[k as int], 0) =~= Set::<int>::empty());
        } else {
            let lower = to_lowercase(f);
            let pat = lower.as_str().as_bytes();
            assert(pat@ == pats[k as int]);
            mark_occurrences(hay, pat, &mut mask);
        }
        assert forall|q: int|
            0 <= q < n implies mask@[q] == exists|j: int|
                0 <= j < k + 1 && #[trigger] cover_from(hay@, pats[j], 0).contains(q) by {
            if cover_from(hay@, pats[k as int], 0).contains(q) {
                assert(mask@[q]);
            }
        }
        k = k + 1;
    }
    assert(mask@ =~= cover_mask(hay@, pats));
    mask
}

// ---------------------------------------------------------------------------
// Runs and pieces.
// ---------------------------------------------------------------------------

/// Byte-index pairs as integer pairs.
pub open spec fn pairs_view(v: Seq<(usize, usize)>) -> Seq<(int, int)> {
    v.map_values(|p: (usize, usize)| (p.0 as int, p.1 as int))
}

/// An optional byte index as an optional integer.
pub open spec fn opt_view(o: Option<usize>) -> Option<int> {
    match o {
        Some(s) => Some(s as int),
        None => None,
    }
}

/// The maximal runs of `true` in `mask`, as half-open `(start, end)` pairs.
fn mask_runs(mask: &Vec<bool>) -> (r: Vec<(usize, usize)>)
    ensures
        pairs_view(r@) == runs_scan(mask@, 0, None),
        forall|k: int| 0 <= k < r.len() ==> r@[k].0 < r@[k].1,
{
    let n = mask.len();
    let mut out: Vec<(usize, usize)> = Vec::new();
    let mut open: Option<usize> = None;
    let mut i: usize = 0;
    while i < n
        invariant
            n == mask.len(),
            i <= n,
            runs_scan(mask@, 0, None) == pairs_view(out@) + runs_scan(mask@, i as int, opt_view(open)),
            forall|k: int| 0 <= k < out.len() ==> out@[k].0 < out@[k].1,
            match open {
                Some(s) => s < i,
                None => true,
            },
        decreases n - i,
    {
        let ghost prev = out@;
        if mask[i] {
            if open.is_none() {
                open = Some(i);
            }
        } else {
            match open {
                Some(s) => {
                    out.push((s, i));
                    open = None;
                    assert(pairs_view(out@) =~= pairs_view(prev) + seq![(s as int, i as int)]);
                },
                None => {},
            }
        }
        i = i + 1;
    }
    let ghost prev = out@;
    match open {
        Some(s) => {
            out.push((s, n));
            assert(pairs_view(out@) =~= pairs_view(prev) + seq![(s as int, n as int)]);
        },
        None => {
            assert(pairs_view(out@) =~= pairs_view(prev) + Seq::<(int, int)>::empty());
        },
    }
    out
}

/// A piece of a highlighted line: its text, and whether it is a match.
#[derive(Debug)]
pub struct HighlightPiece {
    pub text: String,
    pub marked: bool,
}

/// Each piece as its UTF-8 bytes and its mark.
pub open spec fn pieces_view(v: Seq<HighlightPiece>) -> Seq<(Seq<u8>, bool)> {
    v.map_values(|p: HighlightPiece| (encode_utf8(p.text@), p.marked))
}

/// A character boundary of a UTF-8 sequence stays one in any prefix that
/// reaches at least that far, when the prefix itself ends on a boundary.
proof fn lemma_boundary_in_prefix(bytes: Seq<u8>, a: int, b: int)
    requires
        valid_utf8(bytes),
        0 <= a <= b <= bytes.len(),
        is_char_boundary(bytes, a),
        is_char_boundary(bytes, b),
    ensures
        is_char_boundary(bytes.subrange(0, b), a),
{
    let pre = bytes.subrange(0, b);
    assert(valid_utf8(pre));
    if a == b {
        assert(pre.len() == b);
    } else if a == 0 {
    } else {
        is_char_boundary_iff_not_is_continuation_byte(bytes, a);
        is_char_boundary_iff_not_is_continuation_byte(pre, a);
        assert(pre[a] == bytes[a]);
    }
}

/// The text of `s` between two character boundaries, as a new string.
fn byte_slice(s: &str, a: usize, b: usize) -> (r: String)
    requires
        a <= b,
        is_char_boundary(s.spec_bytes(), a as int),
        is_char_boundary(s.spec_bytes(), b as int),
    ensures
        encode_utf8(r@) == s.spec_bytes().subrange(a as int, b as int),
{
    proof {
        lemma_boundary_in_prefix(s.spec_bytes(), a as int, b as int);
    }
    let (pre, _) = s.split_at(b);
    let (_, mid) = pre.split_at(a);
    let r = mid.to_owned();
    assert(s.spec_bytes().subrange(0, b as int).subrange(a as int, b as int) =~= s.spec_bytes().subrange(
        a as int,
        b as int,
    ));
    r
}

/// Cuts `line` at the given runs into plain and marked pieces.
fn cut_pieces(line: &str, runs: &Vec<(usize, usize)>) -> (r: Vec<HighlightPiece>)
    requires
        forall|k: int| 0 <= k < runs.len() ==> runs@[k].0 < runs@[k].1,
    ensures
        pieces_view(r@) == pieces_from(line.spec_bytes(), pairs_view(runs@), 0, 0),
{
    reveal(char_boundary);
    let ghost bytes = line.spec_bytes();
    let ghost rv = pairs_view(runs@);
    let len = line.as_bytes().len();
    let mut out: Vec<HighlightPiece> = Vec::new();
    let mut pos: usize = 0;
    let mut k: usize = 0;
    while k < runs.len()
        invariant
            k <= runs.len(),
            bytes == line.spec_bytes(),
            len == bytes.len(),
            rv == pairs_view(runs@),
            forall|j: int| 0 <= j < runs.len() ==> runs@[j].0 < runs@[j].1,
            pieces_from(bytes, rv, 0, 0) == pieces_view(out@) + pieces_from(
                bytes,
                rv,
                k as int,
                pos as int,
            ),
        decreases runs.len() - k,
    {
        proof {
            reveal(char_boundary);
        }
        let ghost prev = out@;
        let (s, e) = runs[k];
        let ghost plain = if s > pos && char_boundary(bytes, pos as int) && char_boundary(
            bytes,
            s as int,
        ) {
            seq![(bytes.subrange(pos as int, s as int), false)]
        } else {
            Seq::empty()
        };
        if s > pos && line.is_char_boundary(pos) && line.is_char_boundary(s) {
            let text = byte_slice(line, pos, s);
            out.push(HighlightPiece { text, marked: false });
        }
        assert(pieces_view(out@) =~= pieces_view(prev) + plain);
        if line.is_char_boundary(s) && line.is_char_boundary(e) {
            let ghost mid = out@;
            let text = byte_slice(line, s, e);
            out.push(HighlightPiece { text, marked: true });
            assert(pieces_view(out@) =~= pieces_view(mid) + seq![
                (bytes.subrange(s as int, e as int), true),
            ]);
            pos = e;
        }
        k = k + 1;
    }
    let ghost prev = out@;
    if pos < len && line.is_char_boundary(pos) {
        let text = byte_slice(line, pos, len);
        out.push(HighlightPiece { text, marked: false });
        assert(pieces_view(out@) =~= pieces_view(prev) + seq![
            (bytes.subrange(pos as int, len as int), false),
        ]);
    } else {
        assert(pieces_view(out@) =~= pieces_view(prev) + Seq::<(Seq<u8>, bool)>::empty());
    }
    out
}

/// Cuts `line` into plain and marked pieces, marking every case-insensitive
/// occurrence of a non-empty filter; touching or overlapping marks merge.
///
/// On an ASCII line the pieces put back together are exactly the line:
/// highlighting loses, repeats and reorders no text.
pub fn highlighted_line(line: &str, matched_filters: &[String]) -> (r: Vec<HighlightPiece>)
    ensures
        pieces_view(r@) == highlighted(line@, matched_filters.deep_view()),
        is_ascii_chars(line@) ==> joined_pieces(pieces_view(r@)) == encode_utf8(line@),
{
    let lower = to_lowercase(line);
    proof {
        if is_ascii_chars(line@) {
            lemma_highlight_keeps_text(line@, matched_filters.deep_view());
        }
    }
    let hay = lower.as_str().as_bytes();
    let mask = cover_mask_of(hay, matched_filters);
    let runs = mask_runs(&mask);
    cut_pieces(line, &runs)
}

} // verus!
