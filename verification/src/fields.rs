//! Reading and normalizing the search form's text fields: comma-separated
//! lists, report file names, extensions, and the three matching options
//! the settings dropdowns choose between.

use vstd::prelude::*;
use crate::reamers::{all_digits, digits_value, parse_u32, u32_digits};
use crate::text::{lemma_trim_idempotent, 
    chars_of, ends_with, ends_with_chars, extend_chars, extend_str, lowercase, str_eq, string_from, to_lowercase,
    trim, trim_chars,
};

verus! {

// ---------------------------------------------------------------------------
// Comma-separated lists.
// ---------------------------------------------------------------------------

/// The pieces of `s` between commas, as `str::split(',')` yields them
/// (always at least one piece; adjacent commas give empty pieces).
pub open spec fn split_commas(s: Seq<char>) -> Seq<Seq<char>>
    decreases s.len(),
{
    if s.len() == 0 {
        seq![Seq::<char>::empty()]
    } else {
        let p = split_commas(s.drop_last());
        if s.last() == ',' {
            p.push(Seq::<char>::empty())
        } else {
            p.update(p.len() - 1, p.last().push(s.last()))
        }
    }
}

/// The trimmed pieces that are not empty after trimming, in order.
pub open spec fn kept_fields(pieces: Seq<Seq<char>>) -> Seq<Seq<char>>
    decreases pieces.len(),
{
    if pieces.len() == 0 {
        Seq::empty()
    } else {
        let rest = kept_fields(pieces.drop_last());
        if trim(pieces.last()).len() > 0 {
            rest.push(trim(pieces.last()))
        } else {
            rest
        }
    }
}

/// A comma-separated field read as a list: split at commas, each piece
/// trimmed, empty pieces dropped.
pub open spec fn list_of(s: Seq<char>) -> Seq<Seq<char>> {
    kept_fields(split_commas(s))
}

proof fn lemma_split_nonempty(s: Seq<char>)
    ensures
        split_commas(s).len() >= 1,
    decreases s.len(),
{
    if s.len() > 0 {
        lemma_split_nonempty(s.drop_last());
    }
}

proof fn lemma_kept_push(pieces: Seq<Seq<char>>, last: Seq<char>)
    ensures
        kept_fields(pieces.push(last)) == if trim(last).len() > 0 {
            kept_fields(pieces).push(trim(last))
        } else {
            kept_fields(pieces)
        },
{
    assert(pieces.push(last).drop_last() =~= pieces);
}

/// Splits a comma-separated field into its trimmed, non-empty items (see
/// [`list_of`]).
pub fn parse_list(text: &str) -> (r: Vec<String>)
    ensures
        r.deep_view() == list_of(text@),
{
    let s = chars_of(text);
    let mut out: Vec<String> = Vec::new();
    let mut cur: Vec<char> = Vec::new();
    let ghost mut done: Seq<Seq<char>> = Seq::empty();
    let mut i: usize = 0;
    assert(s@.take(0) =~= Seq::<char>::empty());
    assert(out.deep_view() =~= Seq::<Seq<char>>::empty());
    assert(done.push(cur@) =~= split_commas(Seq::<char>::empty()));
    while i < s.len()
        invariant
            i <= s.len(),
            s@ == text@,
            split_commas(s@.take(i as int)) == done.push(cur@),
            out.deep_view() == kept_fields(done),
        decreases s.len() - i,
    {
        let c = s[i];
        let ghost prev = s@.take(i as int);
        assert(s@.take(i as int + 1).drop_last() =~= prev);
        assert(s@.take(i as int + 1).last() == c);
        if c == ',' {
            let t = trim_chars(cur.as_slice());
            proof {
                lemma_kept_push(done, cur@);
            }
            if t.len() > 0 {
                let ghost before = out.deep_view();
                out.push(string_from(t.as_slice()));
                assert(out.deep_view() =~= before.push(t@));
            }
            proof {
                done = done.push(cur@);
            }
            cur = Vec::new();
            assert(split_commas(s@.take(i as int + 1)) =~= done.push(cur@));
        } else {
            let ghost old_cur = cur@;
            cur.push(c);
            assert(split_commas(s@.take(i as int + 1)) =~= done.push(cur@)) by {
                assert(done.push(old_cur).update(done.len() as int, old_cur.push(c)) =~= done.push(cur@));
            }
        }
        i = i + 1;
    }
    assert(s@.take(s.len() as int) =~= s@);
    let t = trim_chars(cur.as_slice());
    proof {
        lemma_kept_push(done, cur@);
    }
    if t.len() > 0 {
        let ghost before = out.deep_view();
        out.push(string_from(t.as_slice()));
        assert(out.deep_view() =~= before.push(t@));
    }
    out
}

/// The interactive prompt's list reader: the same rule as [`parse_list`].
pub fn split_nonempty(s: &str) -> (r: Vec<String>)
    ensures
        r.deep_view() == list_of(s@),
{
    parse_list(s)
}

/// No item of a parsed list is empty, and every item is already trimmed.
pub proof fn lemma_list_items_trimmed(s: Seq<char>)
    ensures
        forall|k: int|
            0 <= k < list_of(s).len() ==> (#[trigger] list_of(s)[k]).len() > 0 && trim(list_of(s)[k])
                == list_of(s)[k],
{
    lemma_kept_items(split_commas(s));
    assert forall|k: int| 0 <= k < list_of(s).len() implies trim(#[trigger] list_of(s)[k]) == list_of(s)[k] by {
        let p = choose|p: Seq<char>| trim(p) == list_of(s)[k];
        lemma_trim_idempotent(p);
    }
}

proof fn lemma_kept_items(pieces: Seq<Seq<char>>)
    ensures
        forall|k: int|
            0 <= k < kept_fields(pieces).len() ==> (#[trigger] kept_fields(pieces)[k]).len() > 0 && exists|
                p: Seq<char>,
            | trim(p) == kept_fields(pieces)[k],
    decreases pieces.len(),
{
    if pieces.len() > 0 {
        lemma_kept_items(pieces.drop_last());
        let rest = kept_fields(pieces.drop_last());
        if trim(pieces.last()).len() > 0 {
            assert forall|k: int| 0 <= k < kept_fields(pieces).len() implies (#[trigger] kept_fields(
                pieces,
            )[k]).len() > 0 && exists|p: Seq<char>| trim(p) == kept_fields(pieces)[k] by {
                if k < rest.len() {
                    assert(kept_fields(pieces)[k] == rest[k]);
                } else {
                    assert(trim(pieces.last()) == kept_fields(pieces)[k]);
                }
            }
        }
    }
}

// ---------------------------------------------------------------------------
// File names and extensions.
// ---------------------------------------------------------------------------

/// Characters a Windows file name cannot hold: every ASCII control
/// character and `< > : " / \ | ? *`.
pub open spec fn invalid_file_name_char(c: char) -> bool {
    c == '<' || c == '>' || c == ':' || c == '"' || c == '/' || c == '\\' || c == '|' || c == '?'
        || c == '*' || (c as u32) < 0x20
}

/// Every invalid character replaced by `_`.
pub open spec fn sanitized(s: Seq<char>) -> Seq<char> {
    Seq::new(s.len(), |i: int| if invalid_file_name_char(s[i]) { '_' } else { s[i] })
}

fn is_invalid_windows_filename_char(c: char) -> (r: bool)
    ensures
        r == invalid_file_name_char(c),
{
    c == '<' || c == '>' || c == ':' || c == '"' || c == '/' || c == '\\' || c == '|' || c == '?'
        || c == '*' || (c as u32) < 0x20
}

/// Replaces every character a Windows file name cannot hold by `_`.
pub fn sanitize_file_name(name: &str) -> (r: String)
    ensures
        r@ == sanitized(name@),
{
    let s = chars_of(name);
    let mut out: Vec<char> = Vec::new();
    let mut i: usize = 0;
    while i < s.len()
        invariant
            i <= s.len(),
            s@ == name@,
            out@ == sanitized(s@).take(i as int),
        decreases s.len() - i,
    {
        let c = s[i];
        if is_invalid_windows_filename_char(c) {
            out.push('_');
        } else {
            out.push(c);
        }
        assert(out@ =~= sanitized(s@).take(i as int + 1));
        i = i + 1;
    }
    assert(sanitized(s@).take(s.len() as int) =~= sanitized(s@));
    string_from(out.as_slice())
}

/// The position of the last `c` in `s`, if any.
pub open spec fn last_index_of(s: Seq<char>, c: char) -> Option<int>
    decreases s.len(),
{
    if s.len() == 0 {
        None
    } else if s.last() == c {
        Some(s.len() - 1)
    } else {
        last_index_of(s.drop_last(), c)
    }
}

/// `path` with everything from its last `.` replaced by `.new_ext`, or
/// `.new_ext` appended when it has no `.` at all.
pub open spec fn with_extension(path: Seq<char>, new_ext: Seq<char>) -> Seq<char> {
    match last_index_of(path, '.') {
        Some(i) => path.take(i) + "."@ + new_ext,
        None => path + "."@ + new_ext,
    }
}

/// What [`last_index_of`] finds: the position of a `c` with no `c` after
/// it, or, when there is none, that no character is `c`.
pub proof fn lemma_last_index_of(s: Seq<char>, c: char)
    ensures
        match last_index_of(s, c) {
            Some(i) => 0 <= i < s.len() && s[i] == c && forall|j: int| i < j < s.len() ==> s[j] != c,
            None => forall|j: int| 0 <= j < s.len() ==> s[j] != c,
        },
    decreases s.len(),
{
    if s.len() > 0 && s.last() != c {
        lemma_last_index_of(s.drop_last(), c);
        assert forall|j: int| 0 <= j < s.len() - 1 implies s[j] == s.drop_last()[j] by {}
    }
}

/// Changing the extension keeps the path up to its last `.` and puts `.`
/// and the new extension after it; a path without `.` gets `.` and the new
/// extension appended.
pub proof fn lemma_change_extension_cuts_at_last_dot(path: Seq<char>, new_ext: Seq<char>)
    ensures
        (exists|k: int| 0 <= k < path.len() && path[k] == '.') ==> exists|k: int|
            0 <= k < path.len() && path[k] == '.' && (forall|j: int| k < j < path.len() ==> path[j] != '.')
                && with_extension(path, new_ext) == path.take(k) + seq!['.'] + new_ext,
        (forall|k: int| 0 <= k < path.len() ==> path[k] != '.') ==> with_extension(path, new_ext) == path
            + seq!['.'] + new_ext,
{
    reveal_strlit(".");
    lemma_last_index_of(path, '.');
    assert("."@ =~= seq!['.']);
    match last_index_of(path, '.') {
        Some(i) => {
            assert(path[i] == '.');
        },
        None => {},
    }
}

/// Replaces or appends the extension of a report path (see
/// [`with_extension`]); used to put the CSV and JSON exports next to the
/// HTML report.
pub fn change_extension(path: &str, new_ext: &str) -> (r: String)
    ensures
        r@ == with_extension(path@, new_ext@),
{
    let s = chars_of(path);
    let mut j: usize = s.len();
    assert(s@.take(j as int) =~= s@);
    while j > 0 && s[j - 1] != '.'
        invariant
            j <= s.len(),
            s@ == path@,
            last_index_of(s@, '.') == last_index_of(s@.take(j as int), '.'),
        decreases j,
    {
        assert(s@.take(j as int).drop_last() =~= s@.take(j as int - 1));
        j = j - 1;
    }
    let mut out: Vec<char> = Vec::new();
    if j > 0 {
        assert(last_index_of(s@.take(j as int), '.') == Some(j as int - 1));
        let mut k: usize = 0;
        while k < j - 1
            invariant
                0 < j <= s.len(),
                k <= j - 1,
                out@ == s@.take(k as int),
            decreases j - 1 - k,
        {
            out.push(s[k]);
            assert(s@.take(k as int).push(s@[k as int]) =~= s@.take(k as int + 1));
            k = k + 1;
        }
    } else {
        assert(last_index_of(s@.take(0), '.') == None::<int>);
        extend_chars(&mut out, s.as_slice());
    }
    extend_str(&mut out, ".");
    extend_str(&mut out, new_ext);
    string_from(out.as_slice())
}

/// An extension as the search engine matches it: `*` (every extension)
/// and names already starting with `.` are kept, anything else gets a
/// leading `.`.
pub open spec fn normalized_extension(ext: Seq<char>) -> Seq<char> {
    if ext == "*"@ || (ext.len() > 0 && ext[0] == '.') {
        ext
    } else {
        "."@ + ext
    }
}

/// Normalizes one `--extensions` item (see [`normalized_extension`]).
pub fn normalize_extension(ext: String) -> (r: String)
    ensures
        r@ == normalized_extension(ext@),
{
    let c = chars_of(ext.as_str());
    if str_eq(ext.as_str(), "*") || (c.len() > 0 && c[0] == '.') {
        ext
    } else {
        let mut out: Vec<char> = Vec::new();
        out.push('.');
        extend_chars(&mut out, c.as_slice());
        assert(out@ =~= "."@ + ext@) by {
            reveal_strlit(".");
        }
        string_from(out.as_slice())
    }
}

/// The HTML report's file name: a chosen name that already ends in
/// `.html` (in any letter case) is used as is, any other chosen name gets
/// `.html` appended, and without a name the report is called
/// `SearchResults_<timestamp>.html`.
pub open spec fn report_name(output_name: Option<Seq<char>>, timestamp: Seq<char>) -> Seq<char> {
    match output_name {
        Some(n) => if ends_with(lowercase(n), ".html"@) {
            n
        } else {
            n + ".html"@
        },
        None => "SearchResults_"@ + timestamp + ".html"@,
    }
}

/// Chooses the report's file name (see [`report_name`]); `timestamp` is
/// the local time already formatted as `YYYYmmdd_HHMMSS`.
pub fn report_file_name(output_name: Option<&str>, timestamp: &str) -> (r: String)
    ensures
        r@ == report_name(
            match output_name {
                Some(n) => Some(n@),
                None => None,
            },
            timestamp@,
        ),
{
    let mut out: Vec<char> = Vec::new();
    match output_name {
        Some(n) => {
            let lower = to_lowercase(n);
            let lc = chars_of(lower.as_str());
            let suffix = chars_of(".html");
            extend_str(&mut out, n);
            if !ends_with_chars(lc.as_slice(), suffix.as_slice()) {
                extend_str(&mut out, ".html");
            }
        },
        None => {
            extend_str(&mut out, "SearchResults_");
            extend_str(&mut out, timestamp);
            extend_str(&mut out, ".html");
        },
    }
    string_from(out.as_slice())
}

// ---------------------------------------------------------------------------
// Matching options.
// ---------------------------------------------------------------------------

/// How filters combine into a hit.
#[derive(Debug, Clone, Copy, PartialEq, Eq, Structural)]
pub enum MatchMode {
    AnyLine,
    AllInFile,
    Proximity,
}

/// Whether an exclude filter drops the matching line or the whole file.
#[derive(Debug, Clone, Copy, PartialEq, Eq, Structural)]
pub enum ExcludeScope {
    Line,
    File,
}

/// How the report groups its files.
#[derive(Debug, Clone, Copy, PartialEq, Eq, Structural)]
pub enum GroupByMode {
    Created,
    Modified,
    /// No grouping (shown as "None").
    Ungrouped,
}

/// The label the match-mode dropdown shows.
pub fn match_mode_display(m: MatchMode) -> (r: &'static str)
    ensures
        r@ == match m {
            MatchMode::AnyLine => "Any line"@,
            MatchMode::AllInFile => "All in file"@,
            MatchMode::Proximity => "Proximity"@,
        },
{
    match m {
        MatchMode::AnyLine => "Any line",
        MatchMode::AllInFile => "All in file",
        MatchMode::Proximity => "Proximity",
    }
}

/// The dropdown value of each match mode.
pub open spec fn match_mode_key(m: MatchMode) -> Seq<char> {
    match m {
        MatchMode::AnyLine => "AnyLine"@,
        MatchMode::AllInFile => "AllInFile"@,
        MatchMode::Proximity => "Proximity"@,
    }
}

/// The match mode a dropdown value selects; unknown values select
/// `AnyLine`.
pub fn parse_match_mode(s: &str) -> (r: MatchMode)
    ensures
        r == (if s@ == "AllInFile"@ {
            MatchMode::AllInFile
        } else if s@ == "Proximity"@ {
            MatchMode::Proximity
        } else {
            MatchMode::AnyLine
        }),
{
    if str_eq(s, "AllInFile") {
        MatchMode::AllInFile
    } else if str_eq(s, "Proximity") {
        MatchMode::Proximity
    } else {
        MatchMode::AnyLine
    }
}

/// The dropdown value and label of an exclude scope.
pub open spec fn exclude_scope_key(s: ExcludeScope) -> Seq<char> {
    match s {
        ExcludeScope::Line => "Line"@,
        ExcludeScope::File => "File"@,
    }
}

/// The dropdown value and label of an exclude scope.
pub fn exclude_scope_str(s: ExcludeScope) -> (r: &'static str)
    ensures
        r@ == exclude_scope_key(s),
{
    match s {
        ExcludeScope::Line => "Line",
        ExcludeScope::File => "File",
    }
}

/// The exclude scope a dropdown value selects; unknown values select
/// `Line`.
pub fn parse_exclude_scope(s: &str) -> (r: ExcludeScope)
    ensures
        r == (if s@ == "File"@ {
            ExcludeScope::File
        } else {
            ExcludeScope::Line
        }),
{
    if str_eq(s, "File") {
        ExcludeScope::File
    } else {
        ExcludeScope::Line
    }
}

/// The dropdown value and label of a grouping.
pub open spec fn group_by_key(g: GroupByMode) -> Seq<char> {
    match g {
        GroupByMode::Created => "Created"@,
        GroupByMode::Modified => "Modified"@,
        GroupByMode::Ungrouped => "None"@,
    }
}

/// The dropdown value and label of a grouping.
pub fn group_by_str(g: GroupByMode) -> (r: &'static str)
    ensures
        r@ == group_by_key(g),
{
    match g {
        GroupByMode::Created => "Created",
        GroupByMode::Modified => "Modified",
        GroupByMode::Ungrouped => "None",
    }
}

/// The grouping a dropdown value selects; unknown values select
/// `Created`.
pub fn parse_group_by(s: &str) -> (r: GroupByMode)
    ensures
        r == (if s@ == "Modified"@ {
            GroupByMode::Modified
        } else if s@ == "None"@ {
            GroupByMode::Ungrouped
        } else {
            GroupByMode::Created
        }),
{
    if str_eq(s, "Modified") {
        GroupByMode::Modified
    } else if str_eq(s, "None") {
        GroupByMode::Ungrouped
    } else {
        GroupByMode::Created
    }
}

/// Reading back the value a dropdown wrote gives the same option, for the
/// exclude scope and the grouping alike.
pub proof fn lemma_dropdown_round_trip(s: ExcludeScope, g: GroupByMode)
    ensures
        (if exclude_scope_key(s) == "File"@ {
            ExcludeScope::File
        } else {
            ExcludeScope::Line
        }) == s,
        (if group_by_key(g) == "Modified"@ {
            GroupByMode::Modified
        } else if group_by_key(g) == "None"@ {
            GroupByMode::Ungrouped
        } else {
            GroupByMode::Created
        }) == g,
{
    reveal_strlit("File");
    reveal_strlit("Line");
    reveal_strlit("Modified");
    reveal_strlit("None");
    reveal_strlit("Created");
    assert("Line"@ != "File"@) by {
        assert("Line"@[0] != "File"@[0]);
    }
    assert("Created"@ != "Modified"@) by {
        assert("Created"@[0] != "Modified"@[0]);
    }
    assert("Created"@ != "None"@) by {
        assert("Created"@[0] != "None"@[0]);
    }
    assert("Modified"@ != "None"@) by {
        assert("Modified"@[0] != "None"@[0]);
    }
}

/// Reading back a match mode's dropdown value gives the same mode.
pub proof fn lemma_match_mode_round_trip(m: MatchMode)
    ensures
        (if match_mode_key(m) == "AllInFile"@ {
            MatchMode::AllInFile
        } else if match_mode_key(m) == "Proximity"@ {
            MatchMode::Proximity
        } else {
            MatchMode::AnyLine
        }) == m,
{
    reveal_strlit("AnyLine");
    reveal_strlit("AllInFile");
    reveal_strlit("Proximity");
    assert("AnyLine"@ != "AllInFile"@) by {
        assert("AnyLine"@[1] != "AllInFile"@[1]);
    }
    assert("AnyLine"@ != "Proximity"@) by {
        assert("AnyLine"@[0] != "Proximity"@[0]);
    }
    assert("AllInFile"@ != "Proximity"@) by {
        assert("AllInFile"@[0] != "Proximity"@[0]);
    }
}


// ---------------------------------------------------------------------------
// Whole-number settings.
// ---------------------------------------------------------------------------

/// What `str::parse::<i32>` answers: an optional sign and at least one
/// ASCII digit, the value within the range of `i32`; otherwise nothing.
pub open spec fn parsed_i32(s: Seq<char>) -> Option<i32> {
    if s.len() > 0 && s[0] == '-' {
        let t = s.drop_first();
        if t.len() > 0 && all_digits(t) && digits_value(t) <= 2147483648 {
            Some((-(digits_value(t) as int)) as i32)
        } else {
            None
        }
    } else {
        match u32_digits(s) {
            Some(d) => if digits_value(d) <= 2147483647 {
                Some(digits_value(d) as i32)
            } else {
                None
            },
            None => None,
        }
    }
}

/// Reads a signed 32-bit decimal (see [`parsed_i32`]).
pub fn parse_i32(s: &str) -> (r: Option<i32>)
    ensures
        r == parsed_i32(s@),
{
    let c = chars_of(s);
    if c.len() > 0 && c[0] == '-' {
        let ghost t = s@.drop_first();
        let mut tail: Vec<char> = Vec::new();
        let mut i: usize = 1;
        while i < c.len()
            invariant
                1 <= i <= c.len(),
                c@ == s@,
                tail@ == c@.subrange(1, i as int),
            decreases c.len() - i,
        {
            tail.push(c[i]);
            assert(c@.subrange(1, i as int + 1) =~= c@.subrange(1, i as int).push(c@[i as int]));
            i = i + 1;
        }
        assert(tail@ =~= t);
        if tail.len() > 0 && tail[0] == '+' {
            assert(!all_digits(t));
            return None;
        }
        let ts = string_from(tail.as_slice());
        match parse_u32(ts.as_str()) {
            Some(v) => {
                assert(u32_digits(t) == Some(t));
                if v <= 2147483648u32 {
                    let neg: i64 = -(v as i64);
                    Some(neg as i32)
                } else {
                    None
                }
            },
            None => None,
        }
    } else {
        match parse_u32(s) {
            Some(v) => if v <= 2147483647u32 {
                Some(v as i32)
            } else {
                None
            },
            None => None,
        }
    }
}

/// A whole-number settings field: when the typed text reads as an `i32`
/// (see [`parsed_i32`]) the setting becomes that number, raised to
/// `floor` when below it; text that does not read leaves the setting as
/// it was (`None`).
pub fn number_input(text: &str, floor: i32) -> (r: Option<i32>)
    ensures
        r == match parsed_i32(text@) {
            Some(v) => Some(if v < floor { floor } else { v }),
            None => None,
        },
{
    match parse_i32(text) {
        Some(v) => Some(if v < floor { floor } else { v }),
        None => None,
    }
}

} // verus!
