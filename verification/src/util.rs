//! Dates, request parameters, query strings, password hashing and page text.

use vstd::prelude::*;
use crate::text::{
    digits_value, all_digits, is_digit, lemma_digit_char_code, lemma_nat_digits_value,
    lemma_split_on_concat, lemma_split_on_single, pad2, parse_i32, parse_i32_spec, push_pad2,
    replace_all, replace_str, occurs_at, lemma_replace_all_leaves_none, split_on, split_str, str_views, digit_char, nat_digits,
};

verus! {

/// A calendar date as the planner's routes carry it (`YYYY-MM-DD`); a `day`
/// of 0 stands for the whole month.
#[derive(Clone, Copy, Debug, PartialEq, Eq, Structural)]
pub struct Date {
    pub year: i32,
    pub month: i32,
    pub day: i32,
}

/// The text `Date` is displayed as: each field with `{:02}`, joined by `-`.
pub open spec fn date_text(d: Date) -> Seq<char> {
    pad2(d.year as int) + seq!['-'] + pad2(d.month as int) + seq!['-'] + pad2(d.day as int)
}

impl Date {
    /// The displayed form of the date, `{:02}-{:02}-{:02}` of year, month, day.
    pub fn to_string(&self) -> (s: String)
        ensures
            s@ == date_text(*self),
    {
        let mut s = String::new();
        push_pad2(&mut s, self.year);
        proof { reveal_strlit("-"); }
        s.append("-");
        push_pad2(&mut s, self.month);
        s.append("-");
        push_pad2(&mut s, self.day);
        assert(s@ =~= date_text(*self));
        s
    }
}

/// What `parse_date` accepts: the first three `-`-separated pieces each parse
/// as an `i32` (year, month, day); further pieces are ignored.
pub open spec fn parse_date_spec(s: Seq<char>) -> Option<Date> {
    let parts = split_on(s, '-');
    if parts.len() >= 3 && parse_i32_spec(parts[0]) is Some && parse_i32_spec(parts[1]) is Some
        && parse_i32_spec(parts[2]) is Some {
        Some(
            Date {
                year: parse_i32_spec(parts[0])->0,
                month: parse_i32_spec(parts[1])->0,
                day: parse_i32_spec(parts[2])->0,
            },
        )
    } else {
        None
    }
}

/// Parses a `year-month-day` route segment.
pub fn parse_date(s: &str) -> (r: Option<Date>)
    ensures
        r == parse_date_spec(s@),
{
    let parts = split_str(s, '-');
    assert(str_views(parts@).len() == parts@.len());
    if parts.len() < 3 {
        return None;
    }
    assert(str_views(parts@)[0] == parts@[0]@);
    assert(str_views(parts@)[1] == parts@[1]@);
    assert(str_views(parts@)[2] == parts@[2]@);
    let year = match parse_i32(parts[0]) {
        Some(v) => v,
        None => return None,
    };
    let month = match parse_i32(parts[1]) {
        Some(v) => v,
        None => return None,
    };
    let day = match parse_i32(parts[2]) {
        Some(v) => v,
        None => return None,
    };
    Some(Date { year, month, day })
}

proof fn lemma_pad2_parses(i: int)
    requires
        0 <= i <= i32::MAX,
    ensures
        parse_i32_spec(pad2(i)) == Some(i as i32),
        !pad2(i).contains('-'),
{
    let p = pad2(i);
    if i < 10 {
        lemma_digit_char_code(0);
        lemma_digit_char_code(i);
        assert(p.drop_last() =~= seq!['0']);
        assert(p.drop_last().drop_last() =~= Seq::<char>::empty());
        let z = p.drop_last();
        assert(z.last() == '0');
        assert(digits_value(z.drop_last()) == 0);
        assert(digits_value(z) == digits_value(z.drop_last()) * 10 + ((z.last() as u32) - 48) as nat);
        assert(digits_value(z) == 0);
        assert(p.last() == digit_char(i));
        assert(digits_value(p) == digits_value(z) * 10 + ((p.last() as u32) - 48) as nat);
        assert(digits_value(p) == i);
        assert(all_digits(p));
    } else {
        lemma_nat_digits_value(i as nat);
        assert(p == nat_digits(i as nat));
    }
    assert(is_digit(p[0]));
    assert(!p.contains('-')) by {
        if p.contains('-') {
            let k = choose|k: int| 0 <= k < p.len() && p[k] == '-';
            assert(is_digit(p[k]));
        }
    }
}

/// Reading back the displayed form of a date with non-negative fields gives
/// the date again.
pub proof fn lemma_parse_date_of_display(d: Date)
    requires
        d.year >= 0,
        d.month >= 0,
        d.day >= 0,
    ensures
        parse_date_spec(date_text(d)) == Some(d),
{
    let y = pad2(d.year as int);
    let m = pad2(d.month as int);
    let dd = pad2(d.day as int);
    lemma_pad2_parses(d.year as int);
    lemma_pad2_parses(d.month as int);
    lemma_pad2_parses(d.day as int);
    lemma_split_on_concat(y + seq!['-'] + m, '-', dd);
    lemma_split_on_concat(y, '-', m);
    lemma_split_on_single(y, '-');
    lemma_split_on_single(m, '-');
    lemma_split_on_single(dd, '-');
    assert(date_text(d) =~= (y + seq!['-'] + m) + seq!['-'] + dd);
    let parts = split_on(date_text(d), '-');
    assert(parts =~= seq![y, m, dd]);
}


/// A day of the week.
#[derive(Clone, Copy, Debug, PartialEq, Eq, Structural)]
pub enum Weekday {
    Mon,
    Tue,
    Wed,
    Thu,
    Fri,
    Sat,
    Sun,
}

/// Whether `year` is a leap year of the proleptic Gregorian calendar.
pub open spec fn is_leap_year(year: int) -> bool {
    (year % 4 == 0 && year % 100 != 0) || year % 400 == 0
}

/// The number of days in `month` (1 to 12) of `year`.
pub open spec fn days_in_month(year: int, month: int) -> int {
    if month == 2 {
        if is_leap_year(year) { 29 } else { 28 }
    } else if month == 4 || month == 6 || month == 9 || month == 11 {
        30
    } else {
        31
    }
}

/// The calendar dates that `chrono::NaiveDate` can hold: years -262143 to
/// 262142, months 1 to 12, and a day that exists in that month.
pub open spec fn is_valid_ymd(year: int, month: int, day: int) -> bool {
    &&& -262143 <= year <= 262142
    &&& 1 <= month <= 12
    &&& 1 <= day <= days_in_month(year, month)
}

/// Whether `date` names an existing calendar day in `chrono`'s range (month
/// and day read as unsigned, as `day_mask_from_date` passes them on).
pub fn is_existing_date(date: &Date) -> (r: bool)
    ensures
        r == is_valid_ymd(date.year as int, date.month as u32 as int, date.day as u32 as int),
{
    let y = date.year;
    let m = date.month as u32;
    let d = date.day as u32;
    if y < -262143 || y > 262142 || m < 1 || m > 12 || d < 1 {
        return false;
    }
    let leap = (y % 4 == 0 && y % 100 != 0) || y % 400 == 0;
    let days: u32 = if m == 2 {
        if leap { 29 } else { 28 }
    } else if m == 4 || m == 6 || m == 9 || m == 11 {
        30
    } else {
        31
    };
    d <= days
}

/// The number of leap years of the proleptic Gregorian calendar in `0..year`
/// (negated, counting `year..0`, for a negative year).
pub open spec fn leap_years_before(year: int) -> int {
    (year + 3) / 4 - (year + 99) / 100 + (year + 399) / 400
}

/// Days from 0000-01-01 to the first day of `year`.
pub open spec fn days_before_year(year: int) -> int {
    365 * year + leap_years_before(year)
}

/// Days of `year` before the first day of `month` (1 to 12).
pub open spec fn days_before_month(year: int, month: int) -> int {
    let leap_day: int = if month > 2 && is_leap_year(year) { 1 } else { 0 };
    let before: int = if month == 1 { 0 }
    else if month == 2 { 31 }
    else if month == 3 { 59 }
    else if month == 4 { 90 }
    else if month == 5 { 120 }
    else if month == 6 { 151 }
    else if month == 7 { 181 }
    else if month == 8 { 212 }
    else if month == 9 { 243 }
    else if month == 10 { 273 }
    else if month == 11 { 304 }
    else { 334 };
    leap_day + before
}

/// The day number of a date: days since 0000-01-01 of the proleptic Gregorian calendar.
pub open spec fn day_number(year: int, month: int, day: int) -> int {
    days_before_year(year) + days_before_month(year, month) + day - 1
}

/// The weekday of a position in the week that starts on Monday (0 to 6).
pub open spec fn weekday_at(i: int) -> Weekday {
    if i == 0 { Weekday::Mon }
    else if i == 1 { Weekday::Tue }
    else if i == 2 { Weekday::Wed }
    else if i == 3 { Weekday::Thu }
    else if i == 4 { Weekday::Fri }
    else if i == 5 { Weekday::Sat }
    else { Weekday::Sun }
}

/// The weekday of a date of the proleptic Gregorian calendar: day numbers
/// advance the week by one each day, and 1970-01-01 (day 719528) was a Thursday.
pub open spec fn civil_weekday(year: int, month: int, day: int) -> Weekday {
    weekday_at((day_number(year, month, day) + 5) % 7)
}

/// Calls `chrono::NaiveDate::from_ymd_opt` and, for an existing date, its
/// `Datelike::weekday`. Trusted: the result is `Some` exactly on the dates
/// that `chrono` accepts (its documentation: the day must exist, month and
/// day be in range, the year within `NaiveDate`'s range, which the source
/// sets to -262143..=262142), and the weekday is the one of the proleptic
/// Gregorian calendar, which `NaiveDate` is documented to follow.
#[verifier::external_body]
fn chrono_weekday_of(year: i32, month: u32, day: u32) -> (w: Option<Weekday>)
    ensures
        w is Some <==> is_valid_ymd(year as int, month as int, day as int),
        w matches Some(x) ==> x == civil_weekday(year as int, month as int, day as int),
{
    match chrono::NaiveDate::from_ymd_opt(year, month, day) {
        Some(date) => Some(match chrono::Datelike::weekday(&date) {
            chrono::Weekday::Mon => Weekday::Mon,
            chrono::Weekday::Tue => Weekday::Tue,
            chrono::Weekday::Wed => Weekday::Wed,
            chrono::Weekday::Thu => Weekday::Thu,
            chrono::Weekday::Fri => Weekday::Fri,
            chrono::Weekday::Sat => Weekday::Sat,
            chrono::Weekday::Sun => Weekday::Sun,
        }),
        None => None,
    }
}

/// The bit of a weekday in a weekly schedule: Sunday is bit 0, Monday bit 1,
/// up to Saturday at bit 6.
pub open spec fn weekday_mask(w: Weekday) -> i32 {
    match w {
        Weekday::Sun => 1,
        Weekday::Mon => 2,
        Weekday::Tue => 4,
        Weekday::Wed => 8,
        Weekday::Thu => 16,
        Weekday::Fri => 32,
        Weekday::Sat => 64,
    }
}

/// The calendar day after `(year, month, day)`.
pub open spec fn next_day(year: int, month: int, day: int) -> (int, int, int) {
    if day < days_in_month(year, month) {
        (year, month, day + 1)
    } else if month < 12 {
        (year, month + 1, 1)
    } else {
        (year + 1, 1, 1)
    }
}

proof fn lemma_leap_years_step(year: int)
    ensures
        leap_years_before(year + 1) == leap_years_before(year) + (if is_leap_year(year) { 1int } else { 0int }),
{
    assert((year + 4) / 4 == (year + 3) / 4 + (if year % 4 == 0 { 1int } else { 0int }));
    assert((year + 100) / 100 == (year + 99) / 100 + (if year % 100 == 0 { 1int } else { 0int }));
    assert((year + 400) / 400 == (year + 399) / 400 + (if year % 400 == 0 { 1int } else { 0int }));
    assert(year % 400 == 0 ==> year % 100 == 0);
    assert(year % 100 == 0 ==> year % 4 == 0);
}

/// The day after an existing date has the next day number.
pub proof fn lemma_day_number_next(year: int, month: int, day: int)
    requires
        1 <= month <= 12,
        1 <= day <= days_in_month(year, month),
    ensures
        ({
            let n = next_day(year, month, day);
            day_number(n.0, n.1, n.2) == day_number(year, month, day) + 1
        }),
{
    if day == days_in_month(year, month) && month == 12 {
        lemma_leap_years_step(year);
    }
}

/// Consecutive days get consecutive schedule bits: the bit doubles from one day
/// to the next, and after Saturday (bit 6) it returns to Sunday (bit 0).
pub proof fn lemma_day_mask_rotates(d1: Date, d2: Date)
    requires
        is_valid_ymd(d1.year as int, d1.month as u32 as int, d1.day as u32 as int),
        is_valid_ymd(d2.year as int, d2.month as u32 as int, d2.day as u32 as int),
        (d2.year as int, d2.month as u32 as int, d2.day as u32 as int) == next_day(
            d1.year as int,
            d1.month as u32 as int,
            d1.day as u32 as int,
        ),
    ensures
        ({
            let m1 = weekday_mask(civil_weekday(d1.year as int, d1.month as u32 as int, d1.day as u32 as int));
            let m2 = weekday_mask(civil_weekday(d2.year as int, d2.month as u32 as int, d2.day as u32 as int));
            m2 == if m1 == 64 { 1 } else { m1 * 2 }
        }),
{
    let (y, m, d) = (d1.year as int, d1.month as u32 as int, d1.day as u32 as int);
    lemma_day_number_next(y, m, d);
    let n1 = day_number(y, m, d);
    let n2 = day_number(d2.year as int, d2.month as u32 as int, d2.day as u32 as int);
    assert(n2 == n1 + 1);
    assert((n2 + 5) % 7 == ((n1 + 5) % 7 + 1) % 7);
}

/// The schedule bit of a weekday.
pub fn day_mask_from_weekday(w: Weekday) -> (mask: i32)
    ensures
        mask == weekday_mask(w),
{
    match w {
        Weekday::Sun => 1,
        Weekday::Mon => 2,
        Weekday::Tue => 4,
        Weekday::Wed => 8,
        Weekday::Thu => 16,
        Weekday::Fri => 32,
        Weekday::Sat => 64,
    }
}

/// The schedule bit of the weekday of `date`, which must be an existing date.
pub fn day_mask_from_date(date: Date) -> (mask: i32)
    requires
        is_valid_ymd(date.year as int, date.month as u32 as int, date.day as u32 as int),
    ensures
        mask == weekday_mask(civil_weekday(date.year as int, date.month as u32 as int, date.day as u32 as int)),
{
    let w = chrono_weekday_of(date.year, date.month as u32, date.day as u32);
    match w {
        Some(w) => day_mask_from_weekday(w),
        None => {
            proof { assert(false); }
            0
        }
    }
}


/// The 64-bit hash that `std`'s `DefaultHasher::new()` gives a `str` (its
/// `Hash` impl writes the bytes and a `0xff` terminator), fixed for the
/// standard library the crate is built with.
pub uninterp spec fn std_str_hash(s: Seq<char>) -> u64;

/// Hashes `s` with a fresh `std::hash::DefaultHasher` (`new`, `str::hash`,
/// `finish`). Trusted: `DefaultHasher::new` is documented to build the same
/// hasher every time, so the result depends on the string alone.
#[verifier::external_body]
fn default_hash_str(s: &str) -> (h: u64)
    ensures
        h == std_str_hash(s@),
{
    let mut hasher = std::hash::DefaultHasher::new();
    std::hash::Hash::hash(s, &mut hasher);
    std::hash::Hasher::finish(&hasher)
}

/// The stored form of a password.
pub fn hash_string(s: &str) -> (h: u64)
    ensures
        h == std_str_hash(s@),
{
    default_hash_str(s)
}

/// Why a route parameter could not be had.
#[derive(Clone, Copy, Debug, PartialEq, Eq, Structural)]
pub enum MatchParamError {
    /// The route has no segment of that name.
    Get,
    /// The segment is not a valid value.
    Parse,
}

/// An integer route parameter read from the segment the route matched, if any.
pub open spec fn match_param_spec(segment: Option<&str>) -> Result<i32, MatchParamError> {
    match segment {
        None => Err(MatchParamError::Get),
        Some(s) => match parse_i32_spec(s@) {
            Some(v) => Ok(v),
            None => Err(MatchParamError::Parse),
        },
    }
}

/// Reads an integer route parameter from the segment the route matched, if any.
pub fn match_param(segment: Option<&str>) -> (r: Result<i32, MatchParamError>)
    ensures
        r == match_param_spec(segment),
{
    match segment {
        None => Err(MatchParamError::Get),
        Some(s) => match parse_i32(s) {
            Some(v) => Ok(v),
            None => Err(MatchParamError::Parse),
        },
    }
}

/// The application's title, substituted for `$TITLE$` in every page.
pub const APP_TITLE: &'static str = "Productivity Tracker";

/// A page with its macros expanded: every `$TITLE$` becomes the title.
pub open spec fn html_page_text(content: Seq<char>) -> Seq<char> {
    replace_all(content, "$TITLE$"@, APP_TITLE@)
}

/// Expands the page macros in an HTML page.
pub fn expand_html_macros(content: &str) -> (page: String)
    ensures
        page@ == html_page_text(content@),
{
    proof { reveal_strlit("$TITLE$"); }
    replace_str(content, "$TITLE$", APP_TITLE)
}

/// No `$TITLE$` is left in an expanded page, whatever the page held.
pub proof fn lemma_expanded_page_has_no_title_macro(content: Seq<char>, k: int)
    ensures
        !occurs_at(html_page_text(content), "$TITLE$"@, k),
{
    reveal_strlit("$TITLE$");
    reveal_strlit("Productivity Tracker");
    let pat = "$TITLE$"@;
    let rep = APP_TITLE@;
    assert(rep == "Productivity Tracker"@);
    assert forall|i: int| 0 <= i < rep.len() implies rep[i] != pat[0] by {}
    assert forall|i: int| 1 <= i < pat.len() implies pat[i] != rep[0] by {}
    lemma_replace_all_leaves_none(content, pat, rep, k);
}


/// The name and value of one `name=value` piece of a query string: the first
/// two `=`-separated parts, when there are two.
pub open spec fn query_entry(piece: Seq<char>) -> Option<(Seq<char>, Seq<char>)> {
    let kv = split_on(piece, '=');
    if kv.len() >= 2 {
        Some((kv[0], kv[1]))
    } else {
        None
    }
}

/// The map that inserting the entries of `pieces` in order builds: a later
/// entry of the same name replaces an earlier one.
pub open spec fn query_map_of(pieces: Seq<Seq<char>>) -> Map<Seq<char>, Seq<char>>
    decreases pieces.len(),
{
    if pieces.len() == 0 {
        Map::empty()
    } else {
        let m = query_map_of(pieces.drop_last());
        match query_entry(pieces.last()) {
            Some(e) => m.insert(e.0, e.1),
            None => m,
        }
    }
}

/// The parameters of a URI query string, split at `&`.
pub open spec fn uri_queries(q: Seq<char>) -> Map<Seq<char>, Seq<char>> {
    query_map_of(split_on(q, '&'))
}

/// `v` lists each name of `m` once, with its value.
pub open spec fn lists_map(v: Seq<(&str, &str)>, m: Map<Seq<char>, Seq<char>>) -> bool {
    &&& forall|i: int, j: int| 0 <= i < j < v.len() ==> v[i].0@ != v[j].0@
    &&& forall|i: int|
        0 <= i < v.len() ==> m.contains_key(#[trigger] v[i].0@) && m[v[i].0@] == v[i].1@
    &&& forall|k: Seq<char>| m.contains_key(k) ==> exists|i: int| 0 <= i < v.len() && v[i].0@ == k
}

fn find_name(v: &Vec<(&str, &str)>, name: &str) -> (r: Option<usize>)
    ensures
        r matches Some(j) ==> j < v@.len() && v@[j as int].0@ == name@,
        r is None ==> forall|i: int| 0 <= i < v@.len() ==> v@[i].0@ != name@,
{
    let mut i: usize = 0;
    while i < v.len()
        invariant
            i <= v@.len(),
            forall|k: int| 0 <= k < i ==> v@[k].0@ != name@,
        decreases v@.len() - i,
    {
        if crate::text::str_eq(v[i].0, name) {
            return Some(i);
        }
        i = i + 1;
    }
    None
}

/// The parameters of a URI query string (`a=1&b=2`), each name once with the
/// value it was last given; pieces without `=` are skipped.
pub fn get_uri_queries(query: &str) -> (queries: Vec<(&str, &str)>)
    ensures
        lists_map(queries@, uri_queries(query@)),
{
    let pieces = split_str(query, '&');
    let ghost pv = str_views(pieces@);
    let mut queries: Vec<(&str, &str)> = Vec::new();
    let mut i: usize = 0;
    assert(pv.take(0) =~= Seq::<Seq<char>>::empty());
    while i < pieces.len()
        invariant
            pv == str_views(pieces@),
            pv == split_on(query@, '&'),
            i <= pieces@.len(),
            lists_map(queries@, query_map_of(pv.take(i as int))),
        decreases pieces@.len() - i,
    {
        let ghost m = query_map_of(pv.take(i as int));
        let ghost old_q = queries@;
        assert(pv.take(i + 1).drop_last() =~= pv.take(i as int));
        assert(pv.take(i + 1).last() == pieces@[i as int]@);
        let kv = split_str(pieces[i], '=');
        assert(str_views(kv@).len() == kv@.len());
        if kv.len() >= 2 {
            let name = kv[0];
            let value = kv[1];
            assert(name@ == str_views(kv@)[0]);
            assert(value@ == str_views(kv@)[1]);
            let ghost m2 = m.insert(name@, value@);
            assert(query_map_of(pv.take(i + 1)) == m2);
            match find_name(&queries, name) {
                Some(j) => {
                    queries.set(j, (name, value));
                    assert forall|k: Seq<char>| m2.contains_key(k) implies exists|x: int|
                        0 <= x < queries@.len() && queries@[x].0@ == k by {
                        if k != name@ {
                            let x = choose|x: int| 0 <= x < old_q.len() && old_q[x].0@ == k;
                            assert(queries@[x].0@ == k);
                        } else {
                            assert(queries@[j as int].0@ == k);
                        }
                    }
                    assert(lists_map(queries@, m2));
                },
                None => {
                    queries.push((name, value));
                    assert(!m.contains_key(name@));
                    assert forall|k: Seq<char>| m2.contains_key(k) implies exists|x: int|
                        0 <= x < queries@.len() && queries@[x].0@ == k by {
                        if k != name@ {
                            let x = choose|x: int| 0 <= x < old_q.len() && old_q[x].0@ == k;
                            assert(queries@[x].0@ == k);
                        } else {
                            assert(queries@[old_q.len() as int].0@ == k);
                        }
                    }
                    assert(lists_map(queries@, m2));
                },
            }
        } else {
            assert(query_map_of(pv.take(i + 1)) == m);
        }
        i = i + 1;
    }
    assert(pv.take(pieces@.len() as int) =~= pv);
    queries
}

} // verus!
