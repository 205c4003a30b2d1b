//! The aircraft reamer catalog: a small RFC-4180-style CSV reader (quoted
//! fields, `""` for a quote inside a quoted field, `\n`, `\r` or `\r\n`
//! ending a row, rows whose cells are all empty dropped), the
//! availability tiers, and the conversion of catalog rows into records.
//! The nominal and tool-tolerance columns are decimal inch values that the
//! caller reads as floating point; this module keeps their text.

use vstd::prelude::*;
use crate::text::{string_from, chars_of};
use crate::history::split_on;

verus! {

/// How readily a reamer size can be bought.
#[derive(Debug, Clone, Copy, PartialEq, Eq, Structural)]
pub enum AvailabilityTier {
    Preferred,
    Common,
    Special,
}

/// The tier a catalog's tier column names: "preferred", "special", and
/// anything else as common.
pub open spec fn tier_of(s: Seq<char>) -> AvailabilityTier {
    if s == "preferred"@ {
        AvailabilityTier::Preferred
    } else if s == "special"@ {
        AvailabilityTier::Special
    } else {
        AvailabilityTier::Common
    }
}

/// Reads a catalog tier column (see [`tier_of`]).
pub fn parse_tier(s: &str) -> (r: AvailabilityTier)
    ensures
        r == tier_of(s@),
{
    if crate::text::str_eq(s, "preferred") {
        AvailabilityTier::Preferred
    } else if crate::text::str_eq(s, "special") {
        AvailabilityTier::Special
    } else {
        AvailabilityTier::Common
    }
}

/// The label shown for a tier.
pub fn tier_label(tier: AvailabilityTier) -> (r: &'static str)
    ensures
        r@ == match tier {
            AvailabilityTier::Preferred => "Preferred"@,
            AvailabilityTier::Common => "Common"@,
            AvailabilityTier::Special => "Special"@,
        },
{
    match tier {
        AvailabilityTier::Preferred => "Preferred",
        AvailabilityTier::Common => "Common",
        AvailabilityTier::Special => "Special",
    }
}

// ---------------------------------------------------------------------------
// CSV reading.
// ---------------------------------------------------------------------------

/// Some cell of the row is non-empty.
pub open spec fn row_has_content(row: Seq<Seq<char>>) -> bool {
    exists|k: int| 0 <= k < row.len() && (#[trigger] row[k]).len() > 0
}

/// The rows produced once the text is exhausted: the pending cell and row
/// are kept when either holds anything.
pub open spec fn csv_finish(
    rows: Seq<Seq<Seq<char>>>,
    row: Seq<Seq<char>>,
    cell: Seq<char>,
) -> Seq<Seq<Seq<char>>> {
    if cell.len() > 0 || row.len() > 0 {
        rows.push(row.push(cell))
    } else {
        rows
    }
}

/// Reading `t` from position `i` on, with `rows` complete, `row` the cells
/// of the current row so far, `cell` the current cell so far and `in_q`
/// whether a quoted section is open. A quote toggles quoting, except that
/// two quotes inside a quoted section stand for one quote character; a
/// comma outside quotes ends the cell; a line break outside quotes (`\r`
/// followed by `\n` counting as one) ends the row, which is kept only when
/// some cell is non-empty; every other character joins the cell.
pub open spec fn csv_run(
    t: Seq<char>,
    i: int,
    rows: Seq<Seq<Seq<char>>>,
    row: Seq<Seq<char>>,
    cell: Seq<char>,
    in_q: bool,
) -> Seq<Seq<Seq<char>>>
    decreases t.len() - i,
{
    if i < 0 || i >= t.len() {
        csv_finish(rows, row, cell)
    } else {
        let ch = t[i];
        if ch == '"' {
            if in_q && i + 1 < t.len() && t[i + 1] == '"' {
                csv_run(t, i + 2, rows, row, cell.push('"'), in_q)
            } else {
                csv_run(t, i + 1, rows, row, cell, !in_q)
            }
        } else if !in_q && ch == ',' {
            csv_run(t, i + 1, rows, row.push(cell), Seq::empty(), in_q)
        } else if !in_q && (ch == '\n' || ch == '\r') {
            let step: int = if ch == '\r' && i + 1 < t.len() && t[i + 1] == '\n' {
                2
            } else {
                1
            };
            let done = row.push(cell);
            if row_has_content(done) {
                csv_run(t, i + step, rows.push(done), Seq::empty(), Seq::empty(), in_q)
            } else {
                csv_run(t, i + step, rows, Seq::empty(), Seq::empty(), in_q)
            }
        } else {
            csv_run(t, i + 1, rows, row, cell.push(ch), in_q)
        }
    }
}

/// The rows and cells of a CSV text.
pub open spec fn csv_rows(t: Seq<char>) -> Seq<Seq<Seq<char>>> {
    csv_run(t, 0, Seq::empty(), Seq::empty(), Seq::empty(), false)
}

proof fn lemma_split_len(s: Seq<char>, sep: char)
    ensures
        split_on(s, sep).len() >= 1,
    decreases s.len(),
{
    if s.len() > 0 {
        lemma_split_len(s.drop_last(), sep);
    }
}

proof fn lemma_split_no_sep(a: Seq<char>, sep: char)
    requires
        !a.contains(sep),
    ensures
        split_on(a, sep) == seq![a],
    decreases a.len(),
{
    if a.len() == 0 {
        assert(a =~= Seq::<char>::empty());
    } else {
        let d = a.drop_last();
        assert(!d.contains(sep)) by {
            if d.contains(sep) {
                let k = choose|k: int| 0 <= k < d.len() && d[k] == sep;
                assert(a[k] == sep);
            }
        }
        lemma_split_no_sep(d, sep);
        assert(a.last() != sep) by {
            assert(a[a.len() - 1] == a.last());
        }
        assert(d.push(a.last()) =~= a);
        assert(split_on(a, sep) =~= seq![a]);
    }
}

proof fn lemma_split_concat(a: Seq<char>, b: Seq<char>, sep: char)
    ensures
        split_on(a + seq![sep] + b, sep) == split_on(a, sep) + split_on(b, sep),
    decreases b.len(),
{
    let s = a + seq![sep] + b;
    if b.len() == 0 {
        assert(s.drop_last() =~= a);
        assert(split_on(b, sep) =~= seq![Seq::<char>::empty()]);
        assert(split_on(s, sep) =~= split_on(a, sep) + split_on(b, sep));
    } else {
        let bd = b.drop_last();
        assert(s.drop_last() =~= a + seq![sep] + bd);
        assert(s.last() == b.last());
        lemma_split_concat(a, bd, sep);
        lemma_split_len(bd, sep);
        lemma_split_len(a, sep);
        assert(split_on(s, sep) =~= split_on(a, sep) + split_on(b, sep));
    }
}

proof fn lemma_csv_plain(t: Seq<char>, i: int, rows: Seq<Seq<Seq<char>>>, row: Seq<Seq<char>>, cell: Seq<char>)
    requires
        0 <= i <= t.len(),
        forall|k: int| i <= k < t.len() ==> #[trigger] t[k] != '"' && t[k] != '\n' && t[k] != '\r',
        !cell.contains(','),
    ensures
        csv_run(t, i, rows, row, cell, false) == csv_finish(
            rows,
            row + split_on(cell + t.skip(i), ',').drop_last(),
            split_on(cell + t.skip(i), ',').last(),
        ),
    decreases t.len() - i,
{
    let rest = t.skip(i);
    if i == t.len() {
        assert(cell + rest =~= cell);
        lemma_split_no_sep(cell, ',');
        assert(row + seq![cell].drop_last() =~= row);
    } else {
        let ch = t[i];
        assert(rest =~= seq![ch] + t.skip(i + 1));
        if ch == ',' {
            lemma_csv_plain(t, i + 1, rows, row.push(cell), Seq::empty());
            let s2 = split_on(Seq::<char>::empty() + t.skip(i + 1), ',');
            assert(Seq::<char>::empty() + t.skip(i + 1) =~= t.skip(i + 1));
            assert(cell + rest =~= cell + seq![','] + t.skip(i + 1));
            lemma_split_concat(cell, t.skip(i + 1), ',');
            lemma_split_no_sep(cell, ',');
            lemma_split_len(t.skip(i + 1), ',');
            let s1 = split_on(cell + rest, ',');
            assert(s1 =~= seq![cell] + s2);
            assert(s1.drop_last() =~= seq![cell] + s2.drop_last());
            assert(row.push(cell) + s2.drop_last() =~= row + s1.drop_last());
        } else {
            assert(!cell.push(ch).contains(',')) by {
                if cell.push(ch).contains(',') {
                    let k = choose|k: int| 0 <= k < cell.push(ch).len() && cell.push(ch)[k] == ',';
                    if k < cell.len() {
                        assert(cell[k] == ',');
                    }
                }
            }
            lemma_csv_plain(t, i + 1, rows, row, cell.push(ch));
            assert(cell.push(ch) + t.skip(i + 1) =~= cell + rest);
        }
    }
}

/// A single line of plain cells (no quote and no line break) with some
/// non-empty cell reads as exactly one row, its cells being the text split
/// at commas, whether or not a line break would follow it.
pub proof fn lemma_csv_single_line(t: Seq<char>)
    requires
        !t.contains('\n'),
        !t.contains('\r'),
        !t.contains('"'),
        exists|k: int| 0 <= k < t.len() && t[k] != ',',
    ensures
        csv_rows(t) == seq![split_on(t, ',')],
{
    assert forall|k: int| 0 <= k < t.len() implies #[trigger] t[k] != '"' && t[k] != '\n' && t[k] != '\r' by {
        assert(t.contains(t[k]));
    }
    lemma_csv_plain(t, 0, Seq::empty(), Seq::empty(), Seq::empty());
    assert(Seq::<char>::empty() + t.skip(0) =~= t);
    let s = split_on(t, ',');
    lemma_split_len(t, ',');
    assert(Seq::<Seq<char>>::empty() + s.drop_last() =~= s.drop_last());
    if t.contains(',') {
        let k = choose|k: int| 0 <= k < t.len() && t[k] == ',';
        assert(t =~= t.take(k) + seq![','] + t.skip(k + 1));
        lemma_split_concat(t.take(k), t.skip(k + 1), ',');
        lemma_split_len(t.take(k), ',');
        lemma_split_len(t.skip(k + 1), ',');
        assert(s.drop_last().len() > 0);
    } else {
        lemma_split_no_sep(t, ',');
    }
    assert(s.drop_last().push(s.last()) =~= s);
}

proof fn lemma_csv_shift(p: Seq<char>, v: Seq<char>, j: int, rows: Seq<Seq<Seq<char>>>, row: Seq<Seq<char>>, cell: Seq<char>, in_q: bool)
    requires
        0 <= j <= v.len(),
    ensures
        csv_run(p + v, p.len() + j, rows, row, cell, in_q) == csv_run(v, j, rows, row, cell, in_q),
    decreases v.len() - j,
{
    let t = p + v;
    let i = p.len() + j;
    if j < v.len() {
        assert(t[i] == v[j]);
        if j + 1 < v.len() {
            assert(t[i + 1] == v[j + 1]);
        }
        let ch = v[j];
        if ch == '"' {
            if in_q && j + 1 < v.len() && v[j + 1] == '"' {
                lemma_csv_shift(p, v, j + 2, rows, row, cell.push('"'), in_q);
            } else {
                lemma_csv_shift(p, v, j + 1, rows, row, cell, !in_q);
            }
        } else if !in_q && ch == ',' {
            lemma_csv_shift(p, v, j + 1, rows, row.push(cell), Seq::empty(), in_q);
        } else if !in_q && (ch == '\n' || ch == '\r') {
            let step: int = if ch == '\r' && j + 1 < v.len() && v[j + 1] == '\n' {
                2
            } else {
                1
            };
            let done = row.push(cell);
            if row_has_content(done) {
                lemma_csv_shift(p, v, j + step, rows.push(done), Seq::empty(), Seq::empty(), in_q);
            } else {
                lemma_csv_shift(p, v, j + step, rows, Seq::empty(), Seq::empty(), in_q);
            }
        } else {
            lemma_csv_shift(p, v, j + 1, rows, row, cell.push(ch), in_q);
        }
    }
}

proof fn lemma_csv_rows_prefix(t: Seq<char>, i: int, rows: Seq<Seq<Seq<char>>>, row: Seq<Seq<char>>, cell: Seq<char>, in_q: bool)
    requires
        0 <= i,
    ensures
        csv_run(t, i, rows, row, cell, in_q) == rows + csv_run(t, i, Seq::empty(), row, cell, in_q),
    decreases t.len() - i,
{
    let e = Seq::<Seq<Seq<char>>>::empty();
    if i >= t.len() {
        if cell.len() > 0 || row.len() > 0 {
            assert(rows.push(row.push(cell)) =~= rows + e.push(row.push(cell)));
        } else {
            assert(rows =~= rows + e);
        }
    } else {
        let ch = t[i];
        if ch == '"' {
            if in_q && i + 1 < t.len() && t[i + 1] == '"' {
                lemma_csv_rows_prefix(t, i + 2, rows, row, cell.push('"'), in_q);
                lemma_csv_rows_prefix(t, i + 2, e, row, cell.push('"'), in_q);
            } else {
                lemma_csv_rows_prefix(t, i + 1, rows, row, cell, !in_q);
                lemma_csv_rows_prefix(t, i + 1, e, row, cell, !in_q);
            }
        } else if !in_q && ch == ',' {
            lemma_csv_rows_prefix(t, i + 1, rows, row.push(cell), Seq::empty(), in_q);
            lemma_csv_rows_prefix(t, i + 1, e, row.push(cell), Seq::empty(), in_q);
        } else if !in_q && (ch == '\n' || ch == '\r') {
            let step: int = if ch == '\r' && i + 1 < t.len() && t[i + 1] == '\n' {
                2
            } else {
                1
            };
            let done = row.push(cell);
            if row_has_content(done) {
                lemma_csv_rows_prefix(t, i + step, rows.push(done), Seq::empty(), Seq::empty(), in_q);
                lemma_csv_rows_prefix(t, i + step, e.push(done), Seq::empty(), Seq::empty(), in_q);
                let x = csv_run(t, i + step, e, Seq::empty(), Seq::empty(), in_q);
                assert(rows.push(done) + x =~= rows + (e.push(done) + x));
            } else {
                lemma_csv_rows_prefix(t, i + step, rows, Seq::empty(), Seq::empty(), in_q);
            }
        } else {
            lemma_csv_rows_prefix(t, i + 1, rows, row, cell.push(ch), in_q);
            lemma_csv_rows_prefix(t, i + 1, e, row, cell.push(ch), in_q);
        }
    }
}

proof fn lemma_csv_plain_to_break(t: Seq<char>, i: int, m: int, rows: Seq<Seq<Seq<char>>>, row: Seq<Seq<char>>, cell: Seq<char>)
    requires
        0 <= i <= m < t.len(),
        t[m] == '\n',
        forall|k: int| i <= k < m ==> #[trigger] t[k] != '"' && t[k] != '\n' && t[k] != '\r',
        !cell.contains(','),
    ensures
        csv_run(t, i, rows, row, cell, false) == (if row_has_content(row + split_on(cell + t.subrange(i, m), ',')) {
            csv_run(t, m + 1, rows.push(row + split_on(cell + t.subrange(i, m), ',')), Seq::empty(), Seq::empty(), false)
        } else {
            csv_run(t, m + 1, rows, Seq::empty(), Seq::empty(), false)
        }),
    decreases m - i,
{
    let rest = t.subrange(i, m);
    if i == m {
        assert(cell + rest =~= cell);
        lemma_split_no_sep(cell, ',');
        assert(row + seq![cell] =~= row.push(cell));
    } else {
        let ch = t[i];
        assert(rest =~= seq![ch] + t.subrange(i + 1, m));
        if ch == ',' {
            lemma_csv_plain_to_break(t, i + 1, m, rows, row.push(cell), Seq::empty());
            assert(Seq::<char>::empty() + t.subrange(i + 1, m) =~= t.subrange(i + 1, m));
            assert(cell + rest =~= cell + seq![','] + t.subrange(i + 1, m));
            lemma_split_concat(cell, t.subrange(i + 1, m), ',');
            lemma_split_no_sep(cell, ',');
            assert(row.push(cell) + split_on(t.subrange(i + 1, m), ',') =~= row + split_on(cell + rest, ','));
        } else {
            assert(!cell.push(ch).contains(',')) by {
                if cell.push(ch).contains(',') {
                    let k = choose|k: int| 0 <= k < cell.push(ch).len() && cell.push(ch)[k] == ',';
                    if k < cell.len() {
                        assert(cell[k] == ',');
                    }
                }
            }
            lemma_csv_plain_to_break(t, i + 1, m, rows, row, cell.push(ch));
            assert(cell.push(ch) + t.subrange(i + 1, m) =~= cell + rest);
        }
    }
}

proof fn lemma_split_content(u: Seq<char>)
    ensures
        row_has_content(split_on(u, ',')) <==> exists|k: int| 0 <= k < u.len() && u[k] != ',',
    decreases u.len(),
{
    if u.len() > 0 {
        let d = u.drop_last();
        let p = split_on(d, ',');
        lemma_split_content(d);
        lemma_split_len(d, ',');
        let s = split_on(u, ',');
        if u.last() == ',' {
            assert(s =~= p.push(Seq::<char>::empty()));
            if row_has_content(s) {
                let k = choose|k: int| 0 <= k < s.len() && (#[trigger] s[k]).len() > 0;
                assert(p[k] == s[k]);
                let q = choose|q: int| 0 <= q < d.len() && d[q] != ',';
                assert(u[q] == d[q]);
            }
            if exists|k: int| 0 <= k < u.len() && u[k] != ',' {
                let k = choose|k: int| 0 <= k < u.len() && u[k] != ',';
                assert(k < u.len() - 1);
                assert(d[k] == u[k]);
                let q = choose|q: int| 0 <= q < p.len() && (#[trigger] p[q]).len() > 0;
                assert(s[q] == p[q]);
            }
        } else {
            assert(s[s.len() - 1].len() > 0);
            assert(u[u.len() - 1] != ',');
        }
    }
}

/// A line break ends a row: a line of plain cells (no quote and no line
/// break) followed by `\n` reads as one row, its cells being the line split
/// at commas, when some cell is non-empty, and as no row otherwise; what
/// follows the break is read on its own.
pub proof fn lemma_csv_line_then_rest(u: Seq<char>, v: Seq<char>)
    requires
        !u.contains('\n'),
        !u.contains('\r'),
        !u.contains('"'),
    ensures
        csv_rows(u + seq!['\n'] + v) == (if exists|k: int| 0 <= k < u.len() && u[k] != ',' {
            seq![split_on(u, ',')]
        } else {
            Seq::empty()
        }) + csv_rows(v),
{
    let t = u + seq!['\n'] + v;
    let m = u.len() as int;
    let e = Seq::<Seq<Seq<char>>>::empty();
    assert forall|k: int| 0 <= k < m implies #[trigger] t[k] != '"' && t[k] != '\n' && t[k] != '\r' by {
        assert(t[k] == u[k]);
        assert(u.contains(u[k]));
    }
    lemma_csv_plain_to_break(t, 0, m, e, Seq::empty(), Seq::empty());
    assert(Seq::<char>::empty() + t.subrange(0, m) =~= u);
    assert(Seq::<Seq<char>>::empty() + split_on(u, ',') =~= split_on(u, ','));
    lemma_split_content(u);
    assert(t =~= (u + seq!['\n']) + v);
    assert((u + seq!['\n']).len() == m + 1);
    lemma_csv_shift(u + seq!['\n'], v, 0, e, Seq::empty(), Seq::empty(), false);
    lemma_csv_shift(u + seq!['\n'], v, 0, e.push(split_on(u, ',')), Seq::empty(), Seq::empty(), false);
    lemma_csv_rows_prefix(v, 0, e.push(split_on(u, ',')), Seq::empty(), Seq::empty(), false);
    assert(e + csv_rows(v) =~= csv_rows(v));
    assert(e.push(split_on(u, ',')) =~= seq![split_on(u, ',')]);
}

proof fn lemma_csv_quoted_run(t: Seq<char>, i: int, m: int, rows: Seq<Seq<Seq<char>>>, row: Seq<Seq<char>>, cell: Seq<char>)
    requires
        0 <= i <= m < t.len(),
        t[m] == '"',
        m + 1 >= t.len() || t[m + 1] != '"',
        forall|k: int| i <= k < m ==> #[trigger] t[k] != '"',
    ensures
        csv_run(t, i, rows, row, cell, true) == csv_run(t, m + 1, rows, row, cell + t.subrange(i, m), false),
    decreases m - i,
{
    if i == m {
        assert(cell + t.subrange(i, m) =~= cell);
    } else {
        lemma_csv_quoted_run(t, i + 1, m, rows, row, cell.push(t[i]));
        assert(cell.push(t[i]) + t.subrange(i + 1, m) =~= cell + t.subrange(i, m));
    }
}

/// A quoted cell keeps everything between its quotes, commas and line
/// breaks included: a text that is one quoted cell without quotes inside
/// reads as one row of that one cell (no row when the cell is empty).
pub proof fn lemma_csv_quoted_cell(c: Seq<char>)
    requires
        !c.contains('"'),
    ensures
        csv_rows(seq!['"'] + c + seq!['"']) == (if c.len() > 0 {
            seq![seq![c]]
        } else {
            Seq::<Seq<Seq<char>>>::empty()
        }),
{
    let t = seq!['"'] + c + seq!['"'];
    let m: int = c.len() as int + 1;
    assert(t[0] == '"');
    assert forall|k: int| 1 <= k < m implies #[trigger] t[k] != '"' by {
        assert(t[k] == c[k - 1]);
        assert(c.contains(c[k - 1]));
    }
    assert(t[m] == '"');
    lemma_csv_quoted_run(t, 1, m, Seq::empty(), Seq::empty(), Seq::empty());
    assert(Seq::<char>::empty() + t.subrange(1, m) =~= c);
    assert(Seq::<Seq<char>>::empty().push(c) =~= seq![c]);
}

/// Splits CSV text into rows of cells (see [`csv_run`] for the rules).
pub fn parse_csv_rows(text: &str) -> (r: Vec<Vec<String>>)
    ensures
        r.deep_view() == csv_rows(text@),
{
    let t = chars_of(text);
    let n = t.len();
    let mut rows: Vec<Vec<String>> = Vec::new();
    let mut row: Vec<String> = Vec::new();
    let mut cell: Vec<char> = Vec::new();
    let mut in_q = false;
    let mut i: usize = 0;
    assert(rows.deep_view() =~= Seq::<Seq<Seq<char>>>::empty());
    assert(row.deep_view() =~= Seq::<Seq<char>>::empty());
    while i < n
        invariant
            n == t.len(),
            t@ == text@,
            i <= n,
            csv_run(t@, i as int, rows.deep_view(), row.deep_view(), cell@, in_q) == csv_rows(text@),
        decreases n - i,
    {
        let ch = t[i];
        if ch == '"' {
            if in_q && i + 1 < n && t[i + 1] == '"' {
                cell.push('"');
                i = i + 2;
            } else {
                in_q = !in_q;
                i = i + 1;
            }
        } else if !in_q && ch == ',' {
            let s = string_from(cell.as_slice());
            let ghost old_row = row.deep_view();
            row.push(s);
            assert(row.deep_view() =~= old_row.push(cell@));
            cell = Vec::new();
            i = i + 1;
        } else if !in_q && (ch == '\n' || ch == '\r') {
            let step: usize = if ch == '\r' && i + 1 < n && t[i + 1] == '\n' {
                2
            } else {
                1
            };
            let s = string_from(cell.as_slice());
            let ghost old_row = row.deep_view();
            row.push(s);
            assert(row.deep_view() =~= old_row.push(cell@));
            let keep = row_has_nonempty(&row);
            if keep {
                let ghost old_rows = rows.deep_view();
                let ghost done = row.deep_view();
                rows.push(row);
                assert(rows.deep_view() =~= old_rows.push(done));
            }
            row = Vec::new();
            assert(row.deep_view() =~= Seq::<Seq<char>>::empty());
            cell = Vec::new();
            assert(cell@ =~= Seq::<char>::empty());
            i = i + step;
        } else {
            cell.push(ch);
            i = i + 1;
        }
    }
    if cell.len() > 0 || row.len() > 0 {
        let s = string_from(cell.as_slice());
        let ghost old_row = row.deep_view();
        row.push(s);
        assert(row.deep_view() =~= old_row.push(cell@));
        let ghost old_rows = rows.deep_view();
        let ghost done = row.deep_view();
        rows.push(row);
        assert(rows.deep_view() =~= old_rows.push(done));
    }
    rows
}

fn row_has_nonempty(row: &Vec<String>) -> (r: bool)
    ensures
        r == row_has_content(row.deep_view()),
{
    let mut k: usize = 0;
    while k < row.len()
        invariant
            k <= row.len(),
            forall|j: int| 0 <= j < k ==> (#[trigger] row.deep_view()[j]).len() == 0,
        decreases row.len() - k,
    {
        let c = chars_of(row[k].as_str());
        if c.len() > 0 {
            assert(row.deep_view()[k as int].len() > 0);
            return true;
        }
        k = k + 1;
    }
    false
}

/// Every row the reader returns, except possibly the last one (which the
/// end of the text closes), has a non-empty cell; and every row has at
/// least one cell.
pub proof fn lemma_csv_rows_have_content(t: Seq<char>)
    ensures
        forall|k: int| 0 <= k < csv_rows(t).len() - 1 ==> row_has_content(#[trigger] csv_rows(t)[k]),
        forall|k: int| 0 <= k < csv_rows(t).len() ==> (#[trigger] csv_rows(t)[k]).len() > 0,
{
    lemma_csv_run_content(t, 0, Seq::empty(), Seq::empty(), Seq::empty(), false);
}

proof fn lemma_csv_run_content(
    t: Seq<char>,
    i: int,
    rows: Seq<Seq<Seq<char>>>,
    row: Seq<Seq<char>>,
    cell: Seq<char>,
    in_q: bool,
)
    requires
        forall|k: int| 0 <= k < rows.len() ==> row_has_content(#[trigger] rows[k]),
    ensures
        forall|k: int|
            0 <= k < csv_run(t, i, rows, row, cell, in_q).len() - 1 ==> row_has_content(
                #[trigger] csv_run(t, i, rows, row, cell, in_q)[k],
            ),
        forall|k: int|
            0 <= k < csv_run(t, i, rows, row, cell, in_q).len() ==> (#[trigger] csv_run(
                t,
                i,
                rows,
                row,
                cell,
                in_q,
            )[k]).len() > 0,
    decreases t.len() - i,
{
    if i < 0 || i >= t.len() {
        let res = csv_finish(rows, row, cell);
        assert(res == csv_run(t, i, rows, row, cell, in_q));
        assert forall|k: int| 0 <= k < res.len() - 1 implies row_has_content(#[trigger] res[k]) by {
            assert(res[k] == rows[k]);
        }
        assert forall|k: int| 0 <= k < res.len() implies (#[trigger] res[k]).len() > 0 by {
            if k < rows.len() {
                assert(res[k] == rows[k]);
                assert(row_has_content(rows[k]));
            } else {
                assert(res[k] == row.push(cell));
            }
        }
    } else {
        let ch = t[i];
        let here = csv_run(t, i, rows, row, cell, in_q);
        if ch == '"' {
            if in_q && i + 1 < t.len() && t[i + 1] == '"' {
                assert(here == csv_run(t, i + 2, rows, row, cell.push('"'), in_q));
                lemma_csv_run_content(t, i + 2, rows, row, cell.push('"'), in_q);
            } else {
                assert(here == csv_run(t, i + 1, rows, row, cell, !in_q));
                lemma_csv_run_content(t, i + 1, rows, row, cell, !in_q);
            }
        } else if !in_q && ch == ',' {
            assert(here == csv_run(t, i + 1, rows, row.push(cell), Seq::empty(), in_q));
            lemma_csv_run_content(t, i + 1, rows, row.push(cell), Seq::empty(), in_q);
        } else if !in_q && (ch == '\n' || ch == '\r') {
            let step: int = if ch == '\r' && i + 1 < t.len() && t[i + 1] == '\n' {
                2
            } else {
                1
            };
            let done = row.push(cell);
            if row_has_content(done) {
                assert forall|k: int| 0 <= k < rows.push(done).len() implies row_has_content(
                    #[trigger] rows.push(done)[k],
                ) by {
                    if k < rows.len() {
                        assert(rows.push(done)[k] == rows[k]);
                    }
                }
                assert(here == csv_run(t, i + step, rows.push(done), Seq::empty(), Seq::empty(), in_q));
                lemma_csv_run_content(t, i + step, rows.push(done), Seq::empty(), Seq::empty(), in_q);
            } else {
                assert(here == csv_run(t, i + step, rows, Seq::empty(), Seq::empty(), in_q));
                lemma_csv_run_content(t, i + step, rows, Seq::empty(), Seq::empty(), in_q);
            }
        } else {
            assert(here == csv_run(t, i + 1, rows, row, cell.push(ch), in_q));
            lemma_csv_run_content(t, i + 1, rows, row, cell.push(ch), in_q);
        }
    }
}

// ---------------------------------------------------------------------------
// Catalog records.
// ---------------------------------------------------------------------------

/// Whether every character is an ASCII digit.
pub open spec fn all_digits(s: Seq<char>) -> bool {
    forall|i: int| 0 <= i < s.len() ==> '0' <= #[trigger] s[i] && s[i] <= '9'
}

/// The value of a string of ASCII digits, most significant first.
pub open spec fn digits_value(s: Seq<char>) -> nat
    decreases s.len(),
{
    if s.len() == 0 {
        0
    } else {
        digits_value(s.drop_last()) * 10 + ((s.last() as u32) - 48) as nat
    }
}

/// The digits of an unsigned decimal integer as `u32::from_str` accepts
/// it: an optional leading `+` followed by at least one ASCII digit.
pub open spec fn u32_digits(s: Seq<char>) -> Option<Seq<char>> {
    let d = if s.len() > 0 && s[0] == '+' {
        s.drop_first()
    } else {
        s
    };
    if d.len() > 0 && all_digits(d) {
        Some(d)
    } else {
        None
    }
}

/// What `str::parse::<u32>` answers: the value when the text is a
/// well-formed unsigned decimal not above `u32::MAX`, otherwise nothing.
pub open spec fn parsed_u32(s: Seq<char>) -> Option<u32> {
    match u32_digits(s) {
        Some(d) => if digits_value(d) <= u32::MAX {
            Some(digits_value(d) as u32)
        } else {
            None
        },
        None => None,
    }
}

proof fn lemma_digits_value_monotone(s: Seq<char>, k: int)
    requires
        0 <= k <= s.len(),
        all_digits(s),
    ensures
        digits_value(s.take(k)) <= digits_value(s),
    decreases s.len(),
{
    if k < s.len() {
        assert(s.drop_last().take(k) =~= s.take(k));
        assert(all_digits(s.drop_last()));
        lemma_digits_value_monotone(s.drop_last(), k);
    } else {
        assert(s.take(k) =~= s);
    }
}

/// Reads an unsigned 32-bit decimal (see [`parsed_u32`]).
pub fn parse_u32(s: &str) -> (r: Option<u32>)
    ensures
        r == parsed_u32(s@),
{
    let c = chars_of(s);
    let mut start: usize = 0;
    if c.len() > 0 && c[0] == '+' {
        start = 1;
    }
    let ghost d = if s@.len() > 0 && s@[0] == '+' {
        s@.drop_first()
    } else {
        s@
    };
    assert(d =~= c@.skip(start as int));
    if start >= c.len() {
        return None;
    }
    let mut value: u64 = 0;
    let mut i: usize = start;
    while i < c.len()
        invariant
            start <= i <= c.len(),
            start < c.len(),
            c@ == s@,
            d == (if s@.len() > 0 && s@[0] == '+' {
                s@.drop_first()
            } else {
                s@
            }),
            d == c@.skip(start as int),
            all_digits(c@.subrange(start as int, i as int)),
            value as nat == digits_value(c@.subrange(start as int, i as int)),
            value <= u32::MAX,
        decreases c.len() - i,
    {
        let ch = c[i];
        if ch < '0' || ch > '9' {
            assert(d[i - start] == ch);
            assert(!all_digits(d));
            return None;
        }
        let dv: u64 = ((ch as u32) - 48) as u64;
        let ghost prefix = c@.subrange(start as int, i as int + 1);
        assert(prefix.drop_last() =~= c@.subrange(start as int, i as int));
        let next: u64 = value * 10 + dv;
        assert(prefix.last() == ch);
        assert(digits_value(prefix) == digits_value(prefix.drop_last()) * 10 + ((ch as u32) - 48) as nat);
        assert(all_digits(prefix));
        if next > 4294967295u64 {
            proof {
                assert(all_digits(prefix));
                if all_digits(d) {
                    assert(prefix =~= d.take(i - start + 1));
                    lemma_digits_value_monotone(d, i - start + 1);
                }
            }
            return None;
        }
        value = next;
        i = i + 1;
    }
    assert(c@.subrange(start as int, c.len() as int) =~= d);
    Some(value as u32)
}

/// One catalog row: size label, the nominal and tool-tolerance columns as
/// written, availability tier, preferred rank and notes.
#[derive(Debug, Clone)]
pub struct ReamerRecord {
    pub size_label: String,
    pub nominal_text: String,
    pub tolerance_plus_text: String,
    pub tolerance_minus_text: String,
    pub availability_tier: AvailabilityTier,
    pub preferred_rank: Option<u32>,
    pub notes: String,
}

/// The record a catalog row becomes: columns 0-3 as written, column 4 as
/// the tier, column 5 read as the rank, column 8 (when present) as notes.
pub open spec fn record_of(row: Seq<Seq<char>>, rec: ReamerRecord) -> bool {
    &&& rec.size_label@ == row[0]
    &&& rec.nominal_text@ == row[1]
    &&& rec.tolerance_plus_text@ == row[2]
    &&& rec.tolerance_minus_text@ == row[3]
    &&& rec.availability_tier == tier_of(row[4])
    &&& rec.preferred_rank == parsed_u32(row[5])
    &&& rec.notes@ == (if row.len() > 8 {
        row[8]
    } else {
        Seq::<char>::empty()
    })
}

/// The rows that become records: every row after the header that has at
/// least six cells, in order.
pub open spec fn catalog_rows(rows: Seq<Seq<Seq<char>>>) -> Seq<Seq<Seq<char>>> {
    if rows.len() == 0 {
        Seq::empty()
    } else {
        rows.skip(1).filter(|r: Seq<Seq<char>>| r.len() >= 6)
    }
}

fn clone_string(s: &String) -> (r: String)
    ensures
        r@ == s@,
{
    s.clone()
}

fn record_from_row(row: &Vec<String>) -> (r: ReamerRecord)
    requires
        row.len() >= 6,
    ensures
        record_of(row.deep_view(), r),
{
    ReamerRecord {
        size_label: clone_string(&row[0]),
        nominal_text: clone_string(&row[1]),
        tolerance_plus_text: clone_string(&row[2]),
        tolerance_minus_text: clone_string(&row[3]),
        availability_tier: parse_tier(row[4].as_str()),
        preferred_rank: parse_u32(row[5].as_str()),
        notes: if row.len() > 8 {
            clone_string(&row[8])
        } else {
            String::new()
        },
    }
}

/// Turns parsed catalog rows into records: the header row is skipped, and
/// so is every row with fewer than six cells.
pub fn reamer_records(rows: &Vec<Vec<String>>) -> (r: Vec<ReamerRecord>)
    ensures
        r.len() == catalog_rows(rows.deep_view()).len(),
        forall|k: int| 0 <= k < r.len() ==> record_of(catalog_rows(rows.deep_view())[k], #[trigger] r[k]),
{
    let ghost all = rows.deep_view();
    let mut out: Vec<ReamerRecord> = Vec::new();
    if rows.len() == 0 {
        assert(catalog_rows(all) =~= Seq::<Seq<Seq<char>>>::empty());
        return out;
    }
    let mut i: usize = 1;
    assert(all.subrange(1, 1).filter(|r: Seq<Seq<char>>| r.len() >= 6) =~= Seq::<Seq<Seq<char>>>::empty());
    while i < rows.len()
        invariant
            1 <= i <= rows.len(),
            all == rows.deep_view(),
            out.len() == all.subrange(1, i as int).filter(|r: Seq<Seq<char>>| r.len() >= 6).len(),
            forall|k: int|
                0 <= k < out.len() ==> record_of(
                    all.subrange(1, i as int).filter(|r: Seq<Seq<char>>| r.len() >= 6)[k],
                    #[trigger] out[k],
                ),
        decreases rows.len() - i,
    {
        let ghost pre = all.subrange(1, i as int);
        let ghost post = all.subrange(1, i as int + 1);
        assert(post.drop_last() =~= pre);
        assert(post.last() == all[i as int]);
        reveal(Seq::filter);
        if rows[i].len() >= 6 {
            let rec = record_from_row(&rows[i]);
            assert(rows[i as int].deep_view() == all[i as int]);
            out.push(rec);
        }
        i = i + 1;
    }
    assert(all.subrange(1, rows.len() as int) =~= all.skip(1));
    out
}

} // verus!
