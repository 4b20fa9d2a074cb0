//! Header date line and currency labels.

use vstd::prelude::*;
use crate::datetime::{
    civil_date_in, clock_in, weekday_from_monday, zoned_date, zoned_time, CivilDate, Weekday,
    Zone, MAX_TIMESTAMP, MIN_TIMESTAMP,
};
use crate::text::{
    decimal, extend_with_str, is_white_space, leading_word, lemma_leading_word, push_zero_padded,
    str_eq, string_of, zero_pad,
};

verus! {

/// Spanish name of a weekday.
pub open spec fn spanish_weekday(w: Weekday) -> Seq<char> {
    match w {
        Weekday::Mon => "Lunes"@,
        Weekday::Tue => "Martes"@,
        Weekday::Wed => "Miércoles"@,
        Weekday::Thu => "Jueves"@,
        Weekday::Fri => "Viernes"@,
        Weekday::Sat => "Sábado"@,
        Weekday::Sun => "Domingo"@,
    }
}

/// English name of a weekday (what chrono's `%A` prints).
pub open spec fn english_weekday(w: Weekday) -> Seq<char> {
    match w {
        Weekday::Mon => "Monday"@,
        Weekday::Tue => "Tuesday"@,
        Weekday::Wed => "Wednesday"@,
        Weekday::Thu => "Thursday"@,
        Weekday::Fri => "Friday"@,
        Weekday::Sat => "Saturday"@,
        Weekday::Sun => "Sunday"@,
    }
}

pub fn weekday_name_spanish(w: Weekday) -> (r: &'static str)
    ensures
        r@ == spanish_weekday(w),
{
    match w {
        Weekday::Mon => "Lunes",
        Weekday::Tue => "Martes",
        Weekday::Wed => "Miércoles",
        Weekday::Thu => "Jueves",
        Weekday::Fri => "Viernes",
        Weekday::Sat => "Sábado",
        Weekday::Sun => "Domingo",
    }
}

/// English name of a weekday, as chrono's `%A` writes it.
pub fn weekday_name_english(w: Weekday) -> (r: &'static str)
    ensures
        r@ == english_weekday(w),
{
    match w {
        Weekday::Mon => "Monday",
        Weekday::Tue => "Tuesday",
        Weekday::Wed => "Wednesday",
        Weekday::Thu => "Thursday",
        Weekday::Fri => "Friday",
        Weekday::Sat => "Saturday",
        Weekday::Sun => "Sunday",
    }
}

/// chrono's `%Y`: the year zero-padded to four digits, with a sign before years outside
/// 0..=9999.
pub open spec fn year_text(y: int) -> Seq<char> {
    if 0 <= y <= 9999 {
        zero_pad(decimal(y as nat), 4)
    } else if y < 0 {
        seq!['-'] + zero_pad(decimal((-y) as nat), 4)
    } else {
        seq!['+'] + zero_pad(decimal(y as nat), 4)
    }
}

/// chrono's `%Y-%m-%d` of a date.
pub open spec fn iso_date_text(d: CivilDate) -> Seq<char> {
    year_text(d.year as int) + seq!['-'] + zero_pad(decimal(d.month as nat), 2) + seq!['-']
        + zero_pad(decimal(d.day as nat), 2)
}

/// The UTC minute that contains `ts`: the number of whole minutes since the Unix epoch,
/// rounded down, so that the minute before the epoch is minute -1.
pub open spec fn minute_index(ts: int) -> int {
    ts / 60
}

/// The header shows the Spanish weekday in odd UTC minutes and the English one in even ones.
pub open spec fn uses_spanish(ts: int) -> bool {
    minute_index(ts) % 2 != 0
}

/// The zone whose local date the header shows at `ts`: Madrid with Spanish, Chicago with
/// English.
pub open spec fn header_zone(ts: int) -> Zone {
    if uses_spanish(ts) {
        Zone::Madrid
    } else {
        Zone::Chicago
    }
}

/// The weekday of a local date, in Spanish or in English.
pub open spec fn weekday_word(local: CivilDate, spanish: bool) -> Seq<char> {
    let w = weekday_from_monday(local.weekday_from_monday);
    if spanish {
        spanish_weekday(w)
    } else {
        english_weekday(w)
    }
}

/// The header line for a local date: its weekday in Spanish or English, a space, and the
/// date as `%Y-%m-%d`.
pub open spec fn header_text(local: CivilDate, spanish: bool) -> Seq<char> {
    weekday_word(local, spanish) + seq![' '] + iso_date_text(local)
}

/// The weekday word that starts the header at `ts`.
pub open spec fn header_weekday_word(ts: int) -> Seq<char> {
    weekday_word(zoned_date(ts, header_zone(ts)), uses_spanish(ts))
}

/// The header's weekday-and-date line at `ts`.
pub open spec fn header_day_date(ts: int) -> Seq<char> {
    header_text(zoned_date(ts, header_zone(ts)), uses_spanish(ts))
}

/// Whether the header at `now` (seconds since the Unix epoch) uses Spanish.
pub fn header_uses_spanish(now: i64) -> (r: bool)
    ensures
        r == uses_spanish(now as int),
{
    if now >= 0 {
        (now / 60) % 2 != 0
    } else {
        // The minute is -m, where m rounds the elapsed minutes before the epoch up.
        let m: i128 = ((-(now as i128)) + 59) / 60;
        assert(minute_index(now as int) == -(m as int)) by (nonlinear_arith)
            requires
                now < 0,
                m == ((-(now as int)) + 59) / 60,
        {
            let q: int = (now as int) / 60;
            let r: int = (now as int) % 60;
            assert(now as int == 60 * q + r && 0 <= r < 60);
            assert((-(now as int)) + 59 == 60 * (-q) + (59 - r));
        }
        m % 2 != 0
    }
}

/// Appends chrono's `%Y-%m-%d` text of a date.
pub fn push_iso_date(out: &mut Vec<char>, d: CivilDate)
    ensures
        final(out)@ == old(out)@ + iso_date_text(d),
{
    let y = d.year;
    if 0 <= y && y <= 9999 {
        push_zero_padded(out, y as u64, 4);
    } else if y < 0 {
        out.push('-');
        let magnitude: i64 = -(y as i64);
        push_zero_padded(out, magnitude as u64, 4);
    } else {
        out.push('+');
        push_zero_padded(out, y as u64, 4);
    }
    out.push('-');
    push_zero_padded(out, d.month as u64, 2);
    out.push('-');
    push_zero_padded(out, d.day as u64, 2);
    assert(out@ =~= old(out)@ + iso_date_text(d));
}

/// The header line for a local date, with the weekday in Spanish or in English.
pub fn header_line(local: CivilDate, spanish: bool) -> (r: String)
    requires
        local.weekday_from_monday < 7,
    ensures
        r@ == header_text(local, spanish),
{
    let weekday = Weekday::from_monday_index(local.weekday_from_monday);
    let word = if spanish {
        weekday_name_spanish(weekday)
    } else {
        weekday_name_english(weekday)
    };
    let mut out: Vec<char> = Vec::new();
    extend_with_str(&mut out, word);
    out.push(' ');
    push_iso_date(&mut out, local);
    assert(out@ =~= header_text(local, spanish));
    string_of(out.as_slice())
}

/// Weekday + date for the header. The language toggles each UTC minute: Spanish with the
/// Europe/Madrid date in odd minutes, English with the America/Chicago (St. Louis) date in
/// even ones. `now` is the instant in seconds since the Unix epoch.
pub fn format_header_day_date(now: i64) -> (r: String)
    requires
        MIN_TIMESTAMP <= now <= MAX_TIMESTAMP,
    ensures
        r@ == header_day_date(now as int),
{
    let spanish = header_uses_spanish(now);
    let zone = if spanish {
        Zone::Madrid
    } else {
        Zone::Chicago
    };
    let local = civil_date_in(now, zone);
    header_line(local, spanish)
}

/// chrono's `%H:%M` of an hour and minute.
pub open spec fn hm_text(t: (u32, u32)) -> Seq<char> {
    zero_pad(decimal(t.0 as nat), 2) + seq![':'] + zero_pad(decimal(t.1 as nat), 2)
}

/// The header's clock text at `ts`: the Madrid time after the Spanish flag, a bar, and the
/// Chicago (St. Louis) time after the US flag.
pub open spec fn header_times_text(ts: int) -> Seq<char> {
    "🇪🇸 "@ + hm_text(zoned_time(ts, Zone::Madrid)) + " │ 🇺🇸 "@ + hm_text(
        zoned_time(ts, Zone::Chicago),
    )
}

/// Appends `HH:MM` of an hour and minute.
fn push_hm(out: &mut Vec<char>, t: (u32, u32))
    ensures
        final(out)@ == old(out)@ + hm_text(t),
{
    push_zero_padded(out, t.0 as u64, 2);
    out.push(':');
    push_zero_padded(out, t.1 as u64, 2);
    assert(out@ =~= old(out)@ + hm_text(t));
}

/// The header's clock: `🇪🇸 HH:MM │ 🇺🇸 HH:MM`, Madrid and Chicago local times of `now`
/// (seconds since the Unix epoch).
pub fn header_times(now: i64) -> (r: String)
    requires
        MIN_TIMESTAMP <= now <= MAX_TIMESTAMP,
    ensures
        r@ == header_times_text(now as int),
{
    let madrid = clock_in(now, Zone::Madrid);
    let chicago = clock_in(now, Zone::Chicago);
    let mut out: Vec<char> = Vec::new();
    extend_with_str(&mut out, "🇪🇸 ");
    push_hm(&mut out, madrid);
    extend_with_str(&mut out, " │ 🇺🇸 ");
    push_hm(&mut out, chicago);
    assert(out@ =~= header_times_text(now as int));
    string_of(out.as_slice())
}

/// The lock the header shows: closed while the VPN is up, open otherwise.
pub open spec fn lock_emoji(vpn: bool) -> Seq<char> {
    if vpn {
        "🔒"@
    } else {
        "🔓"@
    }
}

/// The header's centre label: the city of the public IP in parentheses, the VPN lock and the
/// host name, separated by single spaces.
pub open spec fn center_text(city: Seq<char>, vpn: bool, host: Seq<char>) -> Seq<char> {
    "("@ + city + ") "@ + lock_emoji(vpn) + " "@ + host
}

/// Builds the header's centre label.
pub fn header_center_text(city: &str, vpn: bool, host: &str) -> (r: String)
    ensures
        r@ == center_text(city@, vpn, host@),
{
    let lock = if vpn {
        "🔒"
    } else {
        "🔓"
    };
    let mut out: Vec<char> = Vec::new();
    extend_with_str(&mut out, "(");
    extend_with_str(&mut out, city);
    extend_with_str(&mut out, ") ");
    extend_with_str(&mut out, lock);
    extend_with_str(&mut out, " ");
    extend_with_str(&mut out, host);
    assert(out@ =~= center_text(city@, vpn, host@));
    string_of(out.as_slice())
}

/// The centre label's width in columns: the city and host names counted in bytes, six
/// columns for the parentheses, the two spaces and the two-column lock, taken modulo 2^16 as
/// a `u16`, and two columns of margin.
pub open spec fn center_width(city_bytes: int, host_bytes: int) -> int {
    (city_bytes + host_bytes + 6) % 65536 + 2
}

/// The width of the header's centre column, from the byte lengths of the city and host names.
pub fn header_center_width(city_bytes: usize, host_bytes: usize) -> (r: u16)
    requires
        city_bytes + host_bytes + 6 <= usize::MAX,
        (city_bytes + host_bytes + 6) % 65536 <= 65533,
    ensures
        r == center_width(city_bytes as int, host_bytes as int),
{
    let columns: usize = city_bytes + 2 + 1 + 2 + 1 + host_bytes;
    let low: u16 = (columns % 65536) as u16;
    low + 2
}

/// Flag emoji of a currency code, or a generic exchange symbol for codes without one.
pub open spec fn currency_flag(currency: Seq<char>) -> Seq<char> {
    if currency == "USD"@ {
        "🇺🇸"@
    } else if currency == "EUR"@ {
        "🇪🇺"@
    } else if currency == "GBP"@ {
        "🇬🇧"@
    } else if currency == "JPY"@ {
        "🇯🇵"@
    } else if currency == "CAD"@ {
        "🇨🇦"@
    } else if currency == "AUD"@ {
        "🇦🇺"@
    } else if currency == "CHF"@ {
        "🇨🇭"@
    } else {
        "💱"@
    }
}

/// Icon of a rate's fetch state: the currency's flag when the status is `OK`, a warning
/// sign otherwise.
pub open spec fn status_icon(currency: Seq<char>, status: Seq<char>) -> Seq<char> {
    if status == "OK"@ {
        currency_flag(currency)
    } else {
        "⚠️"@
    }
}

pub fn currency_status_icon(currency: &str, status: &str) -> (r: &'static str)
    ensures
        r@ == status_icon(currency@, status@),
{
    if str_eq(status, "OK") {
        currency_emoji(currency)
    } else {
        "⚠️"
    }
}

pub fn currency_emoji(currency: &str) -> (r: &'static str)
    ensures
        r@ == currency_flag(currency@),
{
    if str_eq(currency, "USD") {
        "🇺🇸"
    } else if str_eq(currency, "EUR") {
        "🇪🇺"
    } else if str_eq(currency, "GBP") {
        "🇬🇧"
    } else if str_eq(currency, "JPY") {
        "🇯🇵"
    } else if str_eq(currency, "CAD") {
        "🇨🇦"
    } else if str_eq(currency, "AUD") {
        "🇦🇺"
    } else if str_eq(currency, "CHF") {
        "🇨🇭"
    } else {
        "💱"
    }
}

/// A character that may appear in a typed amount: an ASCII digit or `.`.
pub open spec fn is_amount_char(c: char) -> bool {
    ('0' <= c && c <= '9') || c == '.'
}

/// The characters of `s` that may appear in an amount, in order.
pub open spec fn amount_chars(s: Seq<char>) -> Seq<char>
    decreases s.len(),
{
    if s.len() == 0 {
        s
    } else if is_amount_char(s.last()) {
        amount_chars(s.drop_last()).push(s.last())
    } else {
        amount_chars(s.drop_last())
    }
}

/// Keeps only the ASCII digits and dots of a typed amount.
pub fn filter_amount(raw: &str) -> (r: String)
    ensures
        r@ == amount_chars(raw@),
{
    let cs = crate::text::chars_of(raw);
    let mut out: Vec<char> = Vec::new();
    let mut i: usize = 0;
    while i < cs.len()
        invariant
            i <= cs@.len(),
            cs@ == raw@,
            out@ == amount_chars(cs@.take(i as int)),
        decreases cs.len() - i,
    {
        let c = cs[i];
        assert(cs@.take(i + 1).drop_last() =~= cs@.take(i as int));
        if ('0' <= c && c <= '9') || c == '.' {
            out.push(c);
        }
        i += 1;
    }
    assert(cs@.take(cs@.len() as int) =~= cs@);
    string_of(out.as_slice())
}

/// A filtered amount holds only digits and dots, and filtering it again changes nothing.
pub proof fn lemma_amount_chars_filtered(s: Seq<char>)
    ensures
        forall|i: int| 0 <= i < amount_chars(s).len() ==> is_amount_char(#[trigger] amount_chars(s)[i]),
        amount_chars(amount_chars(s)) == amount_chars(s),
    decreases s.len(),
{
    if s.len() > 0 {
        lemma_amount_chars_filtered(s.drop_last());
        let p = amount_chars(s.drop_last());
        if is_amount_char(s.last()) {
            assert(p.push(s.last()).drop_last() =~= p);
        }
    }
}

/// No English weekday name is a Spanish weekday name.
pub proof fn lemma_weekday_names_differ(a: Weekday, b: Weekday)
    ensures
        english_weekday(a) != spanish_weekday(b),
{
    reveal_strlit("Lunes");
    reveal_strlit("Martes");
    reveal_strlit("Miércoles");
    reveal_strlit("Jueves");
    reveal_strlit("Viernes");
    reveal_strlit("Sábado");
    reveal_strlit("Domingo");
    reveal_strlit("Monday");
    reveal_strlit("Tuesday");
    reveal_strlit("Wednesday");
    reveal_strlit("Thursday");
    reveal_strlit("Friday");
    reveal_strlit("Saturday");
    reveal_strlit("Sunday");
    let e = english_weekday(a);
    let s = spanish_weekday(b);
    if e.len() == s.len() {
        assert(e[0] != s[0] || e[1] != s[1]);
    }
}

/// Weekday names are single words: none of their characters is whitespace.
pub proof fn lemma_weekday_word_unspaced(local: CivilDate, spanish: bool)
    ensures
        forall|i: int|
            0 <= i < weekday_word(local, spanish).len() ==> !is_white_space(
                #[trigger] weekday_word(local, spanish)[i],
            ),
{
    reveal_strlit("Lunes");
    reveal_strlit("Martes");
    reveal_strlit("Miércoles");
    reveal_strlit("Jueves");
    reveal_strlit("Viernes");
    reveal_strlit("Sábado");
    reveal_strlit("Domingo");
    reveal_strlit("Monday");
    reveal_strlit("Tuesday");
    reveal_strlit("Wednesday");
    reveal_strlit("Thursday");
    reveal_strlit("Friday");
    reveal_strlit("Saturday");
    reveal_strlit("Sunday");
}

/// The header's first word (up to the first whitespace, as `split_whitespace` finds it)
/// is its weekday word.
pub proof fn lemma_header_first_word(ts: int)
    ensures
        leading_word(header_day_date(ts)) == header_weekday_word(ts),
{
    let local = zoned_date(ts, header_zone(ts));
    let spanish = uses_spanish(ts);
    let w = weekday_word(local, spanish);
    let s = header_day_date(ts);
    lemma_weekday_word_unspaced(local, spanish);
    assert forall|i: int| 0 <= i < w.len() implies !is_white_space(#[trigger] s[i]) by {
        assert(s[i] == w[i]);
    }
    assert(s[w.len() as int] == ' ');
    lemma_leading_word(s, w.len() as int);
    assert(s.take(w.len() as int) =~= w);
}

/// The header's language alternates from one UTC minute to the next, so its weekday word
/// changes: adjacent minutes show one English and one Spanish word.
pub proof fn lemma_header_word_alternates(ts: int)
    requires
        MIN_TIMESTAMP <= ts,
        ts + 60 <= MAX_TIMESTAMP,
    ensures
        uses_spanish(ts) != uses_spanish(ts + 60),
        header_weekday_word(ts) != header_weekday_word(ts + 60),
        leading_word(header_day_date(ts)) != leading_word(header_day_date(ts + 60)),
{
    lemma_header_first_word(ts);
    lemma_header_first_word(ts + 60);
    assert(minute_index(ts + 60) == minute_index(ts) + 1);
    let w0 = weekday_from_monday(zoned_date(ts, header_zone(ts)).weekday_from_monday);
    let w1 = weekday_from_monday(zoned_date(ts + 60, header_zone(ts + 60)).weekday_from_monday);
    if uses_spanish(ts) {
        lemma_weekday_names_differ(w1, w0);
    } else {
        lemma_weekday_names_differ(w0, w1);
    }
}

/// Filtering an amount character by character: an ASCII digit (`0` to `9`) or `.` is kept,
/// at the end, and any other character is dropped; nothing is left of empty text.
pub proof fn lemma_amount_chars_steps(s: Seq<char>, c: char)
    ensures
        amount_chars(Seq::<char>::empty()) == Seq::<char>::empty(),
        ('0' <= c && c <= '9') || c == '.' ==> amount_chars(s.push(c)) == amount_chars(s).push(c),
        !(('0' <= c && c <= '9') || c == '.') ==> amount_chars(s.push(c)) == amount_chars(s),
{
    assert(s.push(c).drop_last() =~= s);
    assert(s.push(c).last() == c);
}

/// Text made only of ASCII digits and dots passes the amount filter unchanged.
pub proof fn lemma_amount_chars_keeps_amounts(s: Seq<char>)
    requires
        forall|i: int| 0 <= i < s.len() ==> ('0' <= #[trigger] s[i] && s[i] <= '9') || s[i] == '.',
    ensures
        amount_chars(s) == s,
    decreases s.len(),
{
    if s.len() > 0 {
        let p = s.drop_last();
        assert forall|i: int| 0 <= i < p.len() implies ('0' <= #[trigger] p[i] && p[i] <= '9') || p[i] == '.' by {
            assert(p[i] == s[i]);
        }
        lemma_amount_chars_keeps_amounts(p);
        assert(s[s.len() - 1] == s.last());
        assert(p.push(s.last()) =~= s);
    }
}

/// The weekday names, by the weekday's number of days after Monday: chrono's `%A` names in
/// English, and the Spanish names.
pub proof fn lemma_weekday_name_table(i: u32)
    requires
        i < 7,
    ensures
        i == 0 ==> english_weekday(weekday_from_monday(i)) == "Monday"@ && spanish_weekday(weekday_from_monday(i)) == "Lunes"@,
        i == 1 ==> english_weekday(weekday_from_monday(i)) == "Tuesday"@ && spanish_weekday(weekday_from_monday(i)) == "Martes"@,
        i == 2 ==> english_weekday(weekday_from_monday(i)) == "Wednesday"@ && spanish_weekday(weekday_from_monday(i)) == "Miércoles"@,
        i == 3 ==> english_weekday(weekday_from_monday(i)) == "Thursday"@ && spanish_weekday(weekday_from_monday(i)) == "Jueves"@,
        i == 4 ==> english_weekday(weekday_from_monday(i)) == "Friday"@ && spanish_weekday(weekday_from_monday(i)) == "Viernes"@,
        i == 5 ==> english_weekday(weekday_from_monday(i)) == "Saturday"@ && spanish_weekday(weekday_from_monday(i)) == "Sábado"@,
        i == 6 ==> english_weekday(weekday_from_monday(i)) == "Sunday"@ && spanish_weekday(weekday_from_monday(i)) == "Domingo"@,
{
}

/// Different weekdays have different names, in English and in Spanish.
pub proof fn lemma_weekday_names_distinct(a: Weekday, b: Weekday)
    requires
        a != b,
    ensures
        english_weekday(a) != english_weekday(b),
        spanish_weekday(a) != spanish_weekday(b),
{
    reveal_strlit("Lunes");
    reveal_strlit("Martes");
    reveal_strlit("Miércoles");
    reveal_strlit("Jueves");
    reveal_strlit("Viernes");
    reveal_strlit("Sábado");
    reveal_strlit("Domingo");
    reveal_strlit("Monday");
    reveal_strlit("Tuesday");
    reveal_strlit("Wednesday");
    reveal_strlit("Thursday");
    reveal_strlit("Friday");
    reveal_strlit("Saturday");
    reveal_strlit("Sunday");
    let (ea, eb) = (english_weekday(a), english_weekday(b));
    let (sa, sb) = (spanish_weekday(a), spanish_weekday(b));
    assert(ea[0] != eb[0] || ea[1] != eb[1]);
    assert(sa[0] != sb[0] || sa[1] != sb[1]);
}

} // verus!
