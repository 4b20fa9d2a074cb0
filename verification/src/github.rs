//! GitHub contribution activity: the day list, its emoji, and the parser that reads it from
//! the contribution-calendar markup.

use vstd::prelude::*;
use crate::datetime::{current_utc_day, parse_iso_day, parsed_iso_day, MAX_DAY, MIN_DAY};
use crate::text::{
    chars_of, find, find_chars, is_white_space, is_whitespace, leading_word, lemma_leading_word,
    slice_range,
    starts_with, starts_with_chars, string_of, trim, trimmed,
};

verus! {

/// Emoji for a day's contribution count: none, light (1 to 3), busy (4 to 6), heavy (7+).
pub open spec fn activity_emoji(count: u32) -> Seq<char> {
    if count == 0 {
        "❌"@
    } else if count <= 3 {
        "✅"@
    } else if count <= 6 {
        "🌟"@
    } else {
        "🚀"@
    }
}

/// A user's recent contribution days, newest first, each a day number (days from the Common
/// Era, as `chrono` counts them) with its contribution count, and the fetch status shown
/// beside them.
#[derive(Clone, Debug)]
pub struct GitHubActivity {
    pub days: Vec<(i32, u32)>,
    pub status: String,
}

impl GitHubActivity {
    /// Activity before the first fetch: no days, status `...`.
    pub fn pending() -> (r: Self)
        ensures
            r.days@.len() == 0,
            r.status@ == "..."@,
    {
        GitHubActivity { days: Vec::new(), status: String::from_str("...") }
    }

    pub fn emoji_for_count(count: u32) -> (r: &'static str)
        ensures
            r@ == activity_emoji(count),
    {
        if count == 0 {
            "❌"
        } else if count <= 3 {
            "✅"
        } else if count <= 6 {
            "🌟"
        } else {
            "🚀"
        }
    }

    /// Records a fetch: on success the days are replaced and the status becomes the user
    /// name; on failure the days are kept and the status becomes the error message.
    pub fn record_fetch(&mut self, result: Result<Vec<(i32, u32)>, String>, username: &String)
        ensures
            match result {
                Ok(days) => final(self).days == days && final(self).status@ == username@,
                Err(message) => final(self).days == old(self).days && final(self).status
                    == message,
            },
    {
        match result {
            Ok(days) => {
                self.days = days;
                self.status = username.clone();
            },
            Err(message) => {
                self.status = message;
            },
        }
    }
}

// ---------------------------------------------------------------------------
// Attributes
// ---------------------------------------------------------------------------

/// The value of attribute `attr` in `line`: the text between the first `attr="` and the
/// next `"`, or `None` when either is missing.
pub open spec fn attr_value(line: Seq<char>, attr: Seq<char>) -> Option<Seq<char>> {
    let needle = attr + seq!['=', '"'];
    match find(line, needle) {
        None => None,
        Some(k) => {
            let rest = line.skip(k + needle.len());
            match find(rest, seq!['"']) {
                None => None,
                Some(e) => Some(rest.take(e)),
            }
        },
    }
}

/// `attr_value` on character vectors.
pub fn attr_value_chars(line: &[char], attr: &[char]) -> (r: Option<Vec<char>>)
    ensures
        r matches Some(v) ==> attr_value(line@, attr@) == Some(v@),
        r is None ==> attr_value(line@, attr@) is None,
{
    let end = line.len();
    let mut needle: Vec<char> = Vec::new();
    let mut i: usize = 0;
    while i < attr.len()
        invariant
            i <= attr@.len(),
            needle@ == attr@.take(i as int),
        decreases attr.len() - i,
    {
        needle.push(attr[i]);
        i += 1;
        assert(needle@ =~= attr@.take(i as int));
    }
    needle.push('=');
    needle.push('"');
    assert(needle@ =~= attr@ + seq!['=', '"']);
    match find_chars(line, needle.as_slice()) {
        None => None,
        Some(k) => {
            proof {
                crate::text::lemma_find_occurs(line@, needle@);
                assert(crate::text::occurs_at(line@, needle@, k as int));
            }
            let start = k + needle.len();
            let rest = slice_range(line, start, end);
            assert(rest@ =~= line@.skip(start as int));
            let quote: [char; 1] = ['"'];
            let qs = quote.as_slice();
            assert(qs@ =~= seq!['"']);
            match find_chars(rest.as_slice(), qs) {
                None => None,
                Some(e) => {
                    proof {
                        crate::text::lemma_find_occurs(rest@, qs@);
                    }
                    let v = slice_range(rest.as_slice(), 0, e);
                    assert(v@ =~= rest@.take(e as int));
                    Some(v)
                },
            }
        },
    }
}

/// The value of an HTML attribute in a line, e.g. `data-date` in
/// `<td data-date="2025-04-13">`.
pub fn extract_attr(line: &str, attr: &str) -> (r: Option<String>)
    ensures
        r matches Some(s) ==> attr_value(line@, attr@) == Some(s@),
        r is None ==> attr_value(line@, attr@) is None,
{
    let l = chars_of(line);
    let a = chars_of(attr);
    match attr_value_chars(l.as_slice(), a.as_slice()) {
        Some(v) => Some(string_of(v.as_slice())),
        None => None,
    }
}

// ---------------------------------------------------------------------------
// Tags and tooltip counts
// ---------------------------------------------------------------------------

/// Scans `s` left to right: characters from `<` through the next `>` are dropped, every
/// other character is kept. Returns the kept text and whether the scan ends inside a tag.
pub open spec fn strip_scan(s: Seq<char>) -> (Seq<char>, bool)
    decreases s.len(),
{
    if s.len() == 0 {
        (Seq::empty(), false)
    } else {
        let (out, inside) = strip_scan(s.drop_last());
        let c = s.last();
        if c == '<' {
            (out, true)
        } else if c == '>' {
            (out, false)
        } else if !inside {
            (out.push(c), inside)
        } else {
            (out, inside)
        }
    }
}

/// `s` with its markup tags removed.
pub open spec fn without_tags(s: Seq<char>) -> Seq<char> {
    strip_scan(s).0
}

/// `a` is a subsequence of `b`: `a` is `b` with some characters left out.
pub open spec fn is_subsequence(a: Seq<char>, b: Seq<char>) -> bool
    decreases b.len(),
{
    if a.len() == 0 {
        true
    } else if b.len() == 0 {
        false
    } else if a.last() == b.last() {
        is_subsequence(a.drop_last(), b.drop_last())
    } else {
        is_subsequence(a, b.drop_last())
    }
}

proof fn lemma_subsequence_drop_last(a: Seq<char>, b: Seq<char>)
    requires
        a.len() > 0,
        is_subsequence(a, b),
    ensures
        is_subsequence(a.drop_last(), b),
    decreases b.len(), 1nat,
{
    if a.last() == b.last() {
        lemma_subsequence_push(a.drop_last(), b.drop_last(), b.last());
        assert(b.drop_last().push(b.last()) =~= b);
    } else {
        lemma_subsequence_drop_last(a, b.drop_last());
        lemma_subsequence_push(a.drop_last(), b.drop_last(), b.last());
        assert(b.drop_last().push(b.last()) =~= b);
    }
}

proof fn lemma_subsequence_push(a: Seq<char>, b: Seq<char>, x: char)
    requires
        is_subsequence(a, b),
    ensures
        is_subsequence(a, b.push(x)),
    decreases b.len(), 2nat,
{
    assert(b.push(x).drop_last() =~= b);
    if a.len() > 0 && a.last() == x {
        lemma_subsequence_drop_last(a, b);
    }
}

proof fn lemma_strip_scan_facts(s: Seq<char>)
    ensures
        forall|i: int|
            0 <= i < strip_scan(s).0.len() ==> #[trigger] strip_scan(s).0[i] != '<' && strip_scan(s).0[i]
                != '>',
        is_subsequence(strip_scan(s).0, s),
        (forall|i: int| 0 <= i < s.len() ==> #[trigger] s[i] != '<' && s[i] != '>') ==> strip_scan(s)
            == (s, false),
    decreases s.len(),
{
    if s.len() > 0 {
        let p = s.drop_last();
        lemma_strip_scan_facts(p);
        let (out, inside) = strip_scan(p);
        let c = s.last();
        assert(p.push(c) =~= s);
        let r = strip_scan(s).0;
        assert forall|i: int| 0 <= i < r.len() implies #[trigger] r[i] != '<' && r[i] != '>' by {
            if i < out.len() {
                assert(r[i] == out[i]);
            }
        }
        if c == '<' || c == '>' || inside {
            lemma_subsequence_push(out, p, c);
        } else {
            assert(out.push(c).drop_last() =~= out);
        }
        if forall|i: int| 0 <= i < s.len() ==> #[trigger] s[i] != '<' && s[i] != '>' {
            assert forall|i: int| 0 <= i < p.len() implies #[trigger] p[i] != '<' && p[i] != '>' by {
                assert(p[i] == s[i]);
            }
            assert(s[s.len() - 1] == c);
        }
    }
}

/// Stripping tags leaves no `<` or `>`, keeps the remaining characters in order (a
/// subsequence of the input), leaves text without brackets unchanged, and so changes
/// nothing when applied a second time.
pub proof fn lemma_without_tags_laws(s: Seq<char>)
    ensures
        forall|i: int|
            0 <= i < without_tags(s).len() ==> #[trigger] without_tags(s)[i] != '<' && without_tags(s)[i]
                != '>',
        is_subsequence(without_tags(s), s),
        (forall|i: int| 0 <= i < s.len() ==> #[trigger] s[i] != '<' && s[i] != '>') ==> without_tags(s)
            == s,
        without_tags(without_tags(s)) == without_tags(s),
{
    lemma_strip_scan_facts(s);
    lemma_strip_scan_facts(without_tags(s));
}

/// `without_tags` on character vectors.
pub fn strip_tags_chars(s: &[char]) -> (r: Vec<char>)
    ensures
        r@ == without_tags(s@),
{
    let mut out: Vec<char> = Vec::new();
    let mut inside = false;
    let mut i: usize = 0;
    while i < s.len()
        invariant
            i <= s@.len(),
            (out@, inside) == strip_scan(s@.take(i as int)),
        decreases s.len() - i,
    {
        let c = s[i];
        assert(s@.take(i + 1).drop_last() =~= s@.take(i as int));
        assert(s@.take(i + 1).last() == c);
        if c == '<' {
            inside = true;
        } else if c == '>' {
            inside = false;
        } else if !inside {
            out.push(c);
        }
        i += 1;
    }
    assert(s@.take(s@.len() as int) =~= s@);
    out
}

/// Removes HTML tags from a line, keeping the text between them.
pub fn strip_tags(s: &str) -> (r: String)
    ensures
        r@ == without_tags(s@),
{
    let cs = chars_of(s);
    let out = strip_tags_chars(cs.as_slice());
    string_of(out.as_slice())
}

pub open spec fn is_ascii_digit(c: char) -> bool {
    '0' <= c && c <= '9'
}

/// The number written by a sequence of ASCII digits.
pub open spec fn digits_value(s: Seq<char>) -> nat
    decreases s.len(),
{
    if s.len() == 0 {
        0
    } else {
        digits_value(s.drop_last()) * 10 + ((s.last() as u32) - 48) as nat
    }
}

/// Every character of `s` is an ASCII digit.
pub open spec fn all_digits(s: Seq<char>) -> bool {
    forall|i: int| 0 <= i < s.len() ==> is_ascii_digit(#[trigger] s[i])
}

/// `s` without one leading `+`, when something follows it.
pub open spec fn unsigned_digits(s: Seq<char>) -> Seq<char> {
    if s.len() > 1 && s[0] == '+' {
        s.drop_first()
    } else {
        s
    }
}

/// What `str::parse::<u32>` reads: an optional `+` followed by one or more ASCII digits
/// whose value fits in a `u32`.
pub open spec fn parse_u32(s: Seq<char>) -> Option<u32> {
    let digits = unsigned_digits(s);
    if digits.len() > 0 && all_digits(digits) && digits_value(digits) <= u32::MAX {
        Some(digits_value(digits) as u32)
    } else {
        None
    }
}

proof fn lemma_digits_value_monotone(s: Seq<char>, j: int, k: int)
    requires
        0 <= j <= k <= s.len(),
    ensures
        digits_value(s.take(j)) <= digits_value(s.take(k)),
    decreases k - j,
{
    if j < k {
        lemma_digits_value_monotone(s, j, k - 1);
        assert(s.take(k).drop_last() =~= s.take(k - 1));
    }
}

/// Parses a decimal `u32` the way `str::parse::<u32>` does.
pub fn parse_u32_chars(s: &[char]) -> (r: Option<u32>)
    ensures
        r == parse_u32(s@),
{
    let start: usize = if s.len() > 1 && s[0] == '+' {
        1
    } else {
        0
    };
    let ghost digits = s@.skip(start as int);
    assert(digits =~= unsigned_digits(s@));
    if start == s.len() {
        return None;
    }
    let mut value: u64 = 0;
    let mut i: usize = start;
    while i < s.len()
        invariant
            start <= i <= s@.len(),
            start < s@.len(),
            digits == s@.skip(start as int),
            digits == unsigned_digits(s@),
            forall|k: int| 0 <= k < i - start ==> is_ascii_digit(#[trigger] digits[k]),
            value == digits_value(digits.take(i - start)),
            value <= u32::MAX,
        decreases s.len() - i,
    {
        let c = s[i];
        if !('0' <= c && c <= '9') {
            assert(digits[i - start] == c);
            assert(!is_ascii_digit(digits[i - start]));
            return None;
        }
        let d: u64 = ((c as u32) - 48) as u64;
        let ghost prev = digits.take(i - start);
        assert(digits.take(i - start + 1).drop_last() =~= prev);
        assert(digits.take(i - start + 1).last() == c);
        value = value * 10 + d;
        i += 1;
        assert(value == digits_value(digits.take(i - start)));
        if value > 4294967295 {
            proof {
                lemma_digits_value_monotone(digits, i - start, digits.len() as int);
                assert(digits.take(digits.len() as int) =~= digits);
            }
            return None;
        }
    }
    assert(digits.take(i - start) =~= digits);
    Some(value as u32)
}

/// Contribution count of a tooltip line such as `<tool-tip>28 contributions on April
/// 13th.</tool-tip>`: its text without tags, trimmed, counts as zero when it starts with
/// `No `, and otherwise as the number its first word spells, or zero when that word is not
/// a `u32`.
pub open spec fn tooltip_count(line: Seq<char>) -> u32 {
    let text = trim(without_tags(line));
    if starts_with(text, "No "@) {
        0
    } else {
        match parse_u32(leading_word(text)) {
            Some(n) => n,
            None => 0,
        }
    }
}

/// `tooltip_count` on character vectors.
pub fn tooltip_count_chars(line: &[char]) -> (r: u32)
    ensures
        r == tooltip_count(line@),
{
    let stripped = strip_tags_chars(line);
    let text = trimmed(stripped.as_slice());
    let no = chars_of("No ");
    if starts_with_chars(text.as_slice(), no.as_slice()) {
        return 0;
    }
    let mut end: usize = 0;
    while end < text.len() && !is_whitespace(text[end])
        invariant
            end <= text@.len(),
            forall|k: int| 0 <= k < end ==> !is_white_space(#[trigger] text@[k]),
        decreases text.len() - end,
    {
        end += 1;
    }
    proof {
        lemma_leading_word(text@, end as int);
    }
    let word = slice_range(text.as_slice(), 0, end);
    assert(word@ =~= text@.take(end as int));
    match parse_u32_chars(word.as_slice()) {
        Some(n) => n,
        None => 0,
    }
}

/// Parses the contribution count out of a tooltip line like `28 contributions on April
/// 13th.`, `1 contribution on ...` or `No contributions on May 4th.`.
pub fn parse_tooltip_count(line: &str) -> (r: u32)
    ensures
        r == tooltip_count(line@),
{
    let cs = chars_of(line);
    tooltip_count_chars(cs.as_slice())
}

// ---------------------------------------------------------------------------
// Contribution calendar
// ---------------------------------------------------------------------------

/// The date that a trimmed line of calendar markup names: its `data-date` attribute, parsed
/// as chrono parses `%Y-%m-%d`; `None` without the attribute or when it does not parse.
pub open spec fn line_date(t: Seq<char>) -> Option<i32> {
    match attr_value(t, "data-date"@) {
        Some(text) => parsed_iso_day(text),
        None => None,
    }
}

/// The effect of a trimmed line on the scan state (counts found so far, and the date of the
/// last day cell not yet matched with a tooltip), given the date the line names: that date,
/// if any, becomes the pending date; a line holding `<tool-tip` records its count for the
/// pending date, if there is one, and clears it.
pub open spec fn line_update(counts: Map<i32, u32>, last: Option<i32>, t: Seq<char>, date: Option<i32>) -> (
    Map<i32, u32>,
    Option<i32>,
) {
    let dated = match date {
        Some(d) => Some(d),
        None => last,
    };
    if find(t, "<tool-tip"@) is Some {
        match dated {
            Some(d) => (counts.insert(d, tooltip_count(t)), None),
            None => (counts, None),
        }
    } else {
        (counts, dated)
    }
}

/// The effect of one line of calendar markup on the scan state: the line is trimmed and
/// updated with the date it names.
pub open spec fn process_line(counts: Map<i32, u32>, last: Option<i32>, line: Seq<char>) -> (
    Map<i32, u32>,
    Option<i32>,
) {
    let t = trim(line);
    line_update(counts, last, t, line_date(t))
}

/// Scan state after reading `html`: every line ended by `\n` has been processed in order,
/// and the third component holds the characters of the unfinished last line. (This reads
/// the same lines as `str::lines`: the `\r` of a `\r\n` ending is whitespace, which
/// trimming removes, and a final empty line changes nothing.)
pub open spec fn scan_html(html: Seq<char>) -> (Map<i32, u32>, Option<i32>, Seq<char>)
    decreases html.len(),
{
    if html.len() == 0 {
        (Map::empty(), None, Seq::empty())
    } else {
        let (counts, last, line) = scan_html(html.drop_last());
        if html.last() == '\n' {
            let (c2, l2) = process_line(counts, last, line);
            (c2, l2, Seq::empty())
        } else {
            (counts, last, line.push(html.last()))
        }
    }
}

/// The contribution count of each dated day in the markup, later entries for a day
/// replacing earlier ones.
pub open spec fn contribution_counts(html: Seq<char>) -> Map<i32, u32> {
    let (counts, last, line) = scan_html(html);
    process_line(counts, last, line).0
}

/// The days `today`, `today - 1`, ..., `today - (n - 1)` that have a count, newest first,
/// each with its count.
pub open spec fn recent_days(counts: Map<i32, u32>, today: int, n: nat) -> Seq<(i32, u32)>
    decreases n,
{
    if n == 0 {
        Seq::empty()
    } else {
        let prev = recent_days(counts, today, (n - 1) as nat);
        let d = (today - (n - 1)) as i32;
        if counts.contains_key(d) {
            prev.push((d, counts[d]))
        } else {
            prev
        }
    }
}

/// Number of days, counting back from today, that the activity row covers.
pub open spec fn window_days() -> nat {
    366
}

/// The message of markup without any contribution data.
pub open spec fn no_data_message() -> Seq<char> {
    "No contribution data found"@
}

/// The message returned when today's date cannot be used: the clock cannot be read as a
/// date, or today is less than a year after the earliest representable date, where counting
/// back a year would leave the calendar.
pub open spec fn clock_out_of_range_message() -> Seq<char> {
    "Today is outside the supported date range"@
}

/// What the calendar parser returns on `html` when today is day `today`: an error when no
/// day has a count; otherwise an error when today lies within a year of the earliest date;
/// and otherwise the counted days among the last 366, newest first.
pub open spec fn contributions(html: Seq<char>, today: int) -> Result<Seq<(i32, u32)>, Seq<char>> {
    let counts = contribution_counts(html);
    if counts.is_empty() {
        Err(no_data_message())
    } else if today < MIN_DAY + 365 {
        Err(clock_out_of_range_message())
    } else {
        Ok(recent_days(counts, today, window_days()))
    }
}

/// The two error messages of the calendar parser differ.
pub proof fn lemma_parser_messages_differ()
    ensures
        no_data_message() != clock_out_of_range_message(),
{
    reveal_strlit("No contribution data found");
    reveal_strlit("Today is outside the supported date range");
    assert(no_data_message()[0] != clock_out_of_range_message()[0]);
}

/// The days that `recent_days` lists are newest first, lie in the window of `n` days ending
/// today, and each carries its recorded count.
pub proof fn lemma_recent_days_newest_first(counts: Map<i32, u32>, today: int, n: nat)
    requires
        MIN_DAY + 365 <= today <= MAX_DAY,
        n <= window_days(),
    ensures
        forall|i: int, j: int|
            0 <= i < j < recent_days(counts, today, n).len() ==> (#[trigger] recent_days(counts, today, n)[i]).0
                > (#[trigger] recent_days(counts, today, n)[j]).0,
        forall|i: int|
            0 <= i < recent_days(counts, today, n).len() ==> {
                let (d, c) = #[trigger] recent_days(counts, today, n)[i];
                &&& today - n < d <= today
                &&& counts.contains_key(d)
                &&& counts[d] == c
            },
    decreases n,
{
    if n > 0 {
        let prev = recent_days(counts, today, (n - 1) as nat);
        lemma_recent_days_newest_first(counts, today, (n - 1) as nat);
        let d = (today - (n - 1)) as i32;
        assert(d as int == today - (n - 1));
        let r = recent_days(counts, today, n);
        assert forall|i: int| 0 <= i < r.len() implies {
            let (e, c) = #[trigger] r[i];
            &&& today - n < e <= today
            &&& counts.contains_key(e)
            &&& counts[e] == c
        } by {
            if i < prev.len() {
                assert(r[i] == prev[i]);
            }
        }
        assert forall|i: int, j: int| 0 <= i < j < r.len() implies (#[trigger] r[i]).0 > (#[trigger] r[j]).0 by {
            assert(r[i] == prev[i]);
            if j < prev.len() {
                assert(r[j] == prev[j]);
            }
        }
    }
}

/// The parsed contribution days are newest first, all within the last 366 days, and each
/// carries the count that the markup gives its date.
pub proof fn lemma_contributions_newest_first(html: Seq<char>, today: int)
    requires
        MIN_DAY + 365 <= today <= MAX_DAY,
    ensures
        contributions(html, today) matches Ok(days) ==> {
            &&& forall|i: int, j: int| 0 <= i < j < days.len() ==> (#[trigger] days[i]).0 > (#[trigger] days[j]).0
            &&& forall|i: int|
                0 <= i < days.len() ==> {
                    let (d, c) = #[trigger] days[i];
                    &&& today - 366 < d <= today
                    &&& contribution_counts(html).contains_key(d)
                    &&& contribution_counts(html)[d] == c
                }
        },
{
    lemma_recent_days_newest_first(contribution_counts(html), today, window_days());
}

/// Applies a trimmed line of calendar markup to the scan state, given the date the line
/// names (`None` when it names none).
pub fn apply_dated_line(
    counts: &mut std::collections::HashMap<i32, u32>,
    last: &mut Option<i32>,
    line: &[char],
    date: Option<i32>,
)
    ensures
        (final(counts)@, *final(last)) == line_update(old(counts)@, *old(last), line@, date),
{
    broadcast use vstd::std_specs::hash::group_hash_axioms;

    match date {
        Some(d) => {
            *last = Some(d);
        },
        None => {},
    }
    let tooltip_tag = chars_of("<tool-tip");
    if find_chars(line, tooltip_tag.as_slice()).is_some() {
        match *last {
            Some(d) => {
                let count = tooltip_count_chars(line);
                counts.insert(d, count);
            },
            None => {},
        }
        *last = None;
    }
}

/// Applies one line of markup to the scan state.
fn apply_line(
    counts: &mut std::collections::HashMap<i32, u32>,
    last: &mut Option<i32>,
    line: &[char],
    date_attr: &[char],
)
    requires
        date_attr@ == "data-date"@,
    ensures
        (final(counts)@, *final(last)) == process_line(old(counts)@, *old(last), line@),
{
    let t = trimmed(line);
    let date = match attr_value_chars(t.as_slice(), date_attr) {
        Some(v) => {
            let text = string_of(v.as_slice());
            parse_iso_day(text.as_str())
        },
        None => None,
    };
    apply_dated_line(counts, last, t.as_slice(), date);
}

/// The contribution count of each dated day in the calendar markup (`contribution_counts`).
pub fn scan_contribution_counts(html: &str) -> (counts: std::collections::HashMap<i32, u32>)
    ensures
        counts@ == contribution_counts(html@),
{
    let cs = chars_of(html);
    let date_attr = chars_of("data-date");
    let mut counts: std::collections::HashMap<i32, u32> = std::collections::HashMap::new();
    let mut last: Option<i32> = None;
    let mut line: Vec<char> = Vec::new();
    let mut i: usize = 0;
    while i < cs.len()
        invariant
            i <= cs@.len(),
            cs@ == html@,
            date_attr@ == "data-date"@,
            (counts@, last, line@) == scan_html(cs@.take(i as int)),
        decreases cs.len() - i,
    {
        let c = cs[i];
        assert(cs@.take(i + 1).drop_last() =~= cs@.take(i as int));
        assert(cs@.take(i + 1).last() == c);
        if c == '\n' {
            apply_line(&mut counts, &mut last, line.as_slice(), date_attr.as_slice());
            line = Vec::new();
        } else {
            line.push(c);
        }
        i += 1;
    }
    assert(cs@.take(cs@.len() as int) =~= cs@);
    apply_line(&mut counts, &mut last, line.as_slice(), date_attr.as_slice());
    counts
}

/// The parser's result once the counts are known and not empty: an error when `today` is
/// within a year of the earliest date, and otherwise the counted days of the last 366 (today
/// included), newest first.
fn recent_contributions(counts: &std::collections::HashMap<i32, u32>, today: i32) -> (r: Result<
    Vec<(i32, u32)>,
    String,
>)
    requires
        MIN_DAY <= today <= MAX_DAY,
    ensures
        today < MIN_DAY + 365 ==> (r matches Err(e) && e@ == clock_out_of_range_message()),
        today >= MIN_DAY + 365 ==> (r matches Ok(v) && v@ == recent_days(counts@, today as int, window_days())),
{
    broadcast use vstd::std_specs::hash::group_hash_axioms;

    if today < MIN_DAY + 365 {
        return Err(String::from_str("Today is outside the supported date range"));
    }
    let mut result: Vec<(i32, u32)> = Vec::new();
    let mut k: i32 = 0;
    while k < 366
        invariant
            0 <= k <= 366,
            MIN_DAY + 365 <= today <= MAX_DAY,
            result@ == recent_days(counts@, today as int, k as nat),
        decreases 366 - k,
    {
        let d = today - k;
        match counts.get(&d) {
            Some(count) => {
                result.push((d, *count));
            },
            None => {},
        }
        k += 1;
    }
    Ok(result)
}

/// Parses the contribution calendar markup, with today being day number `today`: an error
/// when the markup holds no contribution data, an error when today is within a year of the
/// earliest date, and otherwise the counted days of the last 366 (today included), newest
/// first.
pub fn parse_contribution_html_at(html: &str, today: i32) -> (r: Result<Vec<(i32, u32)>, String>)
    requires
        MIN_DAY <= today <= MAX_DAY,
    ensures
        r matches Ok(v) ==> contributions(html@, today as int) == Ok::<Seq<(i32, u32)>, Seq<char>>(v@),
        r matches Err(e) ==> contributions(html@, today as int) == Err::<Seq<(i32, u32)>, Seq<char>>(e@),
{
    let counts = scan_contribution_counts(html);
    if counts.is_empty() {
        return Err(String::from_str("No contribution data found"));
    }
    recent_contributions(&counts, today)
}

/// Parses the contribution calendar markup against today's UTC date. Markup without any
/// contribution data gives the no-data error, decided before the clock is read. Otherwise
/// the result is the parser's result for the day the clock gives: the counted days of the
/// last 366, newest first, or, for a clock within a year of the earliest representable
/// date, the date-range error. A clock that cannot be read as a date (set before the Unix
/// epoch, or beyond chrono's range) gives the date-range error too.
pub fn parse_contribution_html(html: &str) -> (r: Result<Vec<(i32, u32)>, String>)
    ensures
        contribution_counts(html@).is_empty() <==> (r matches Err(e) && e@ == no_data_message()),
        r matches Err(e) ==> e@ == no_data_message() || e@ == clock_out_of_range_message(),
        r matches Err(e) && e@ == clock_out_of_range_message() ==> !contribution_counts(html@).is_empty(),
        r matches Ok(v) ==> exists|today: int|
            MIN_DAY + 365 <= today <= MAX_DAY && #[trigger] contributions(html@, today) == Ok::<
                Seq<(i32, u32)>,
                Seq<char>,
            >(v@),
{
    broadcast use vstd::std_specs::hash::group_hash_axioms;

    proof {
        lemma_parser_messages_differ();
    }
    let counts = scan_contribution_counts(html);
    if counts.is_empty() {
        return Err(String::from_str("No contribution data found"));
    }
    let today = match current_utc_day() {
        Some(d) => d,
        None => return Err(String::from_str("Today is outside the supported date range")),
    };
    let r = recent_contributions(&counts, today);
    proof {
        if r is Ok {
            assert(contributions(html@, today as int) is Ok);
        }
    }
    r
}

/// The emoji of `days`, separated by single spaces.
pub open spec fn joined_emoji(days: Seq<(i32, u32)>) -> Seq<char>
    decreases days.len(),
{
    if days.len() == 0 {
        Seq::empty()
    } else if days.len() == 1 {
        activity_emoji(days[0].1)
    } else {
        joined_emoji(days.drop_last()) + seq![' '] + activity_emoji(days.last().1)
    }
}

/// The activity row: the emoji of the first `max_days` days (newest first), separated by
/// single spaces.
pub fn emoji_row(days: &Vec<(i32, u32)>, max_days: usize) -> (r: String)
    ensures
        r@ == joined_emoji(days@.take(if days@.len() < max_days { days@.len() as int } else { max_days as int })),
{
    let n: usize = if days.len() < max_days {
        days.len()
    } else {
        max_days
    };
    let mut out: Vec<char> = Vec::new();
    let mut i: usize = 0;
    while i < n
        invariant
            n <= days@.len(),
            i <= n,
            out@ == joined_emoji(days@.take(i as int)),
        decreases n - i,
    {
        let ghost prefix = days@.take(i as int);
        assert(days@.take(i + 1).drop_last() =~= prefix);
        if i > 0 {
            out.push(' ');
        }
        let emoji = GitHubActivity::emoji_for_count(days[i].1);
        crate::text::extend_with_str(&mut out, emoji);
        i += 1;
        assert(out@ =~= joined_emoji(days@.take(i as int)));
    }
    string_of(out.as_slice())
}

/// How many activity emoji fit in a row of `inner_width` terminal columns: each takes two
/// columns plus a separating space.
pub fn github_day_capacity(inner_width: u16) -> (r: usize)
    ensures
        r == (inner_width + 1) / 3,
{
    (inner_width as usize + 1) / 3
}

/// Every counted day among the `n` days ending today is listed by `recent_days`, with its
/// count.
pub proof fn lemma_recent_days_complete(counts: Map<i32, u32>, today: int, n: nat)
    requires
        MIN_DAY + 365 <= today <= MAX_DAY,
        n <= 366,
    ensures
        forall|d: i32|
            #[trigger] counts.contains_key(d) && today - n < d <= today ==> recent_days(
                counts,
                today,
                n,
            ).contains((d, counts[d])),
    decreases n,
{
    if n > 0 {
        lemma_recent_days_complete(counts, today, (n - 1) as nat);
        let prev = recent_days(counts, today, (n - 1) as nat);
        let r = recent_days(counts, today, n);
        let newest = (today - (n - 1)) as i32;
        assert(newest as int == today - (n - 1));
        assert forall|d: i32| #[trigger] counts.contains_key(d) && today - n < d <= today implies r.contains(
            (d, counts[d]),
        ) by {
            if d == newest {
                assert(r == prev.push((d, counts[d])));
                assert(r[r.len() - 1] == (d, counts[d]));
            } else {
                assert(prev.contains((d, counts[d])));
                let k = choose|k: int| 0 <= k < prev.len() && prev[k] == (d, counts[d]);
                if counts.contains_key(newest) {
                    assert(r[k] == prev[k]);
                } else {
                    assert(r == prev);
                }
            }
        }
    }
}

/// The parser misses no day of the window: every date of the markup that has a count and
/// lies within the last 366 days (today included) is in the result, with its count.
pub proof fn lemma_contributions_complete(html: Seq<char>, today: int)
    requires
        MIN_DAY + 365 <= today <= MAX_DAY,
    ensures
        !contribution_counts(html).is_empty() ==> contributions(html, today) is Ok,
        contributions(html, today) matches Ok(days) ==> forall|d: i32|
            #[trigger] contribution_counts(html).contains_key(d) && today - 366 < d <= today
                ==> days.contains((d, contribution_counts(html)[d])),
{
    let counts = contribution_counts(html);
    if !counts.is_empty() {
        lemma_recent_days_complete(counts, today, window_days());
        assert forall|d: i32| #[trigger] counts.contains_key(d) && today - 366 < d <= today implies recent_days(
            counts,
            today,
            window_days(),
        ).contains((d, counts[d])) by {
            assert(counts.contains_key(d) && today - window_days() < d <= today);
        }
    }
}

} // verus!
