//! Dates and times: `date-time` and its parts, with the obsolete forms.

use vstd::prelude::*;
use chrono::Datelike;
use crate::{Day, Month, Date, DateTime, spec_month_number, month_number};
use crate::util::{lift, lift_end, spec_parse_digits, parse_digits};
use crate::rfc5322::chars::{Class, spec_class_run1, class_run1, spec_class_char, class_char, spec_lit, lit};
use crate::rfc5322::lexical::{opt_fws, opt_fws_into, spec_fws, fws, opt_cfws, skip_opt_cfws};

verus! {

// ---------------------------------------------------------------------------
// The calendar
// ---------------------------------------------------------------------------

/// The latest year of the calendar's range.
pub const MAX_YEAR: i32 = 262143;

/// The earliest year of the calendar's range.
pub const MIN_YEAR: i32 = -262144;

/// A leap year of the proleptic Gregorian calendar.
pub open spec fn spec_is_leap(y: int) -> bool {
    y % 4 == 0 && (y % 100 != 0 || y % 400 == 0)
}

pub open spec fn days_in_month(y: int, m: int) -> int {
    if m == 2 {
        if spec_is_leap(y) { 29 } else { 28 }
    } else if m == 4 || m == 6 || m == 9 || m == 11 {
        30
    } else {
        31
    }
}

/// A date of the proleptic Gregorian calendar within the calendar's range.
pub open spec fn spec_valid_date(y: i32, m: u32, d: u32) -> bool {
    MIN_YEAR <= y <= MAX_YEAR && 1 <= m <= 12 && 1 <= d <= days_in_month(y as int, m as int)
}

/// `NaiveDate::from_ymd_opt(year, month, day).is_some()` of chrono: whether
/// the year, month and day name a date of the proleptic Gregorian calendar
/// within chrono's year range [-262144, 262143].  The contract claims that
/// chrono accepts exactly those dates.
#[verifier::external_body]
fn naive_date_is_valid(year: i32, month: u32, day: u32) -> (r: bool)
    ensures
        r == spec_valid_date(year, month, day),
{
    chrono::NaiveDate::from_ymd_opt(year, month, day).is_some()
}

/// `UTC::today().year()` of chrono: the current year in UTC, read from the
/// system clock.  The contract claims only that it lies in chrono's year
/// range (the clock reading itself is not predictable).
#[verifier::external_body]
pub fn current_year() -> (y: i32)
    ensures
        MIN_YEAR <= y <= MAX_YEAR,
{
    chrono::UTC::today().year()
}

// ---------------------------------------------------------------------------
// Numbers
// ---------------------------------------------------------------------------

/// Digits read as a `usize`.
pub open spec fn spec_digits(s: Seq<u8>, p: int, min: nat, max: Option<nat>) -> Option<(int, usize)> {
    match spec_parse_digits(s, p, min, max) {
        Some((e, v)) => Some((e, v as usize)),
        None => None,
    }
}

fn digits(s: &[u8], pos: usize, min: usize, max: Option<usize>) -> (r: Option<(usize, usize)>)
    requires
        pos <= s.len(),
    ensures
        lift(r) == spec_digits(s@, pos as int, min as nat, crate::util::opt_nat(max)),
        r matches Some((e, _)) ==> pos <= e <= s.len(),
{
    parse_digits(s, pos, min, max)
}

/// `[CFWS] digits [CFWS]`, the shape of the obsolete numeric rules.
pub open spec fn spec_obs_number(s: Seq<u8>, p: int, min: nat, max: Option<nat>) -> Option<(int, usize)> {
    match spec_digits(s, opt_cfws(s, p).0, min, max) {
        Some((e, v)) => Some((opt_cfws(s, e).0, v)),
        None => None,
    }
}

fn obs_number(s: &[u8], pos: usize, min: usize, max: Option<usize>) -> (r: Option<(usize, usize)>)
    requires
        pos <= s.len(),
    ensures
        lift(r) == spec_obs_number(s@, pos as int, min as nat, crate::util::opt_nat(max)),
        r matches Some((e, _)) ==> pos <= e <= s.len(),
{
    let q = skip_opt_cfws(s, pos);
    match digits(s, q, min, max) {
        Some((e, v)) => Some((skip_opt_cfws(s, e), v)),
        None => None,
    }
}

// ---------------------------------------------------------------------------
// day-of-week = ([FWS] day-name) / obs-day-of-week
// ---------------------------------------------------------------------------

/// `day-name = "Mon" / "Tue" / "Wed" / "Thu" / "Fri" / "Sat" / "Sun"`
pub open spec fn spec_day_name(s: Seq<u8>, p: int) -> Option<(int, Day)> {
    if let Some(e) = spec_lit(s, p, seq![77u8, 111, 110]) {
        Some((e, Day::Mon))
    } else if let Some(e) = spec_lit(s, p, seq![84u8, 117, 101]) {
        Some((e, Day::Tue))
    } else if let Some(e) = spec_lit(s, p, seq![87u8, 101, 100]) {
        Some((e, Day::Wed))
    } else if let Some(e) = spec_lit(s, p, seq![84u8, 104, 117]) {
        Some((e, Day::Thu))
    } else if let Some(e) = spec_lit(s, p, seq![70u8, 114, 105]) {
        Some((e, Day::Fri))
    } else if let Some(e) = spec_lit(s, p, seq![83u8, 97, 116]) {
        Some((e, Day::Sat))
    } else if let Some(e) = spec_lit(s, p, seq![83u8, 117, 110]) {
        Some((e, Day::Sun))
    } else {
        None
    }
}

/// `day-name = "Mon" / "Tue" / "Wed" / "Thu" / "Fri" / "Sat" / "Sun"`
pub fn day_name(s: &[u8], pos: usize) -> (r: Option<(usize, Day)>)
    requires
        pos <= s.len(),
    ensures
        lift(r) == spec_day_name(s@, pos as int),
        r matches Some((e, _)) ==> pos < e <= s.len(),
{
    if let Some(e) = lit(s, pos, &[77u8, 111, 110]) {
        Some((e, Day::Mon))
    } else if let Some(e) = lit(s, pos, &[84u8, 117, 101]) {
        Some((e, Day::Tue))
    } else if let Some(e) = lit(s, pos, &[87u8, 101, 100]) {
        Some((e, Day::Wed))
    } else if let Some(e) = lit(s, pos, &[84u8, 104, 117]) {
        Some((e, Day::Thu))
    } else if let Some(e) = lit(s, pos, &[70u8, 114, 105]) {
        Some((e, Day::Fri))
    } else if let Some(e) = lit(s, pos, &[83u8, 97, 116]) {
        Some((e, Day::Sat))
    } else if let Some(e) = lit(s, pos, &[83u8, 117, 110]) {
        Some((e, Day::Sun))
    } else {
        None
    }
}

/// `obs-day-of-week = [CFWS] day-name [CFWS]`
pub open spec fn spec_obs_day_of_week(s: Seq<u8>, p: int) -> Option<(int, Day)> {
    match spec_day_name(s, opt_cfws(s, p).0) {
        Some((e, d)) => Some((opt_cfws(s, e).0, d)),
        None => None,
    }
}

/// `obs-day-of-week = [CFWS] day-name [CFWS]`
pub fn obs_day_of_week(s: &[u8], pos: usize) -> (r: Option<(usize, Day)>)
    requires
        pos <= s.len(),
    ensures
        lift(r) == spec_obs_day_of_week(s@, pos as int),
        r matches Some((e, _)) ==> pos < e <= s.len(),
{
    let q = skip_opt_cfws(s, pos);
    match day_name(s, q) {
        Some((e, d)) => Some((skip_opt_cfws(s, e), d)),
        None => None,
    }
}

/// `day-of-week = ([FWS] day-name) / obs-day-of-week`
pub open spec fn spec_day_of_week(s: Seq<u8>, p: int) -> Option<(int, Day)> {
    match spec_day_name(s, opt_fws(s, p).0) {
        Some(r) => Some(r),
        None => spec_obs_day_of_week(s, p),
    }
}

/// `day-of-week = ([FWS] day-name) / obs-day-of-week`
pub fn day_of_week(s: &[u8], pos: usize) -> (r: Option<(usize, Day)>)
    requires
        pos <= s.len(),
    ensures
        lift(r) == spec_day_of_week(s@, pos as int),
        r matches Some((e, _)) ==> pos < e <= s.len(),
{
    let mut scratch: Vec<u8> = Vec::new();
    let q = opt_fws_into(s, pos, &mut scratch);
    match day_name(s, q) {
        Some(r) => Some(r),
        None => obs_day_of_week(s, pos),
    }
}

// ---------------------------------------------------------------------------
// date = day month year
// ---------------------------------------------------------------------------

/// `obs-day = [CFWS] 1*2DIGIT [CFWS]`
pub fn obs_day(s: &[u8], pos: usize) -> (r: Option<(usize, usize)>)
    requires
        pos <= s.len(),
    ensures
        lift(r) == spec_obs_number(s@, pos as int, 1, Some(2)),
        r matches Some((e, _)) ==> pos <= e <= s.len(),
{
    obs_number(s, pos, 1, Some(2))
}

/// `day = ([FWS] 1*2DIGIT FWS) / obs-day`
pub open spec fn spec_day(s: Seq<u8>, p: int) -> Option<(int, usize)> {
    let new_form = match spec_digits(s, opt_fws(s, p).0, 1, Some(2)) {
        Some((e, v)) => match spec_fws(s, e) {
            Some((e2, _)) => Some((e2, v)),
            None => None,
        },
        None => None,
    };
    match new_form {
        Some(r) => Some(r),
        None => spec_obs_number(s, p, 1, Some(2)),
    }
}

/// `day = ([FWS] 1*2DIGIT FWS) / obs-day`
pub fn day(s: &[u8], pos: usize) -> (r: Option<(usize, usize)>)
    requires
        pos <= s.len(),
    ensures
        lift(r) == spec_day(s@, pos as int),
        r matches Some((e, _)) ==> pos <= e <= s.len(),
{
    let mut scratch: Vec<u8> = Vec::new();
    let q = opt_fws_into(s, pos, &mut scratch);
    if let Some((e, v)) = digits(s, q, 1, Some(2)) {
        if let Some((e2, _)) = fws(s, e) {
            return Some((e2, v));
        }
    }
    obs_day(s, pos)
}

/// `month = "Jan" / "Feb" / "Mar" / "Apr" / "May" / "Jun" / "Jul" / "Aug" /
/// "Sep" / "Oct" / "Nov" / "Dec"`, with "Sept" accepted for September.
pub open spec fn spec_month(s: Seq<u8>, p: int) -> Option<(int, Month)> {
    if let Some(e) = spec_lit(s, p, seq![74u8, 97, 110]) {
        Some((e, Month::Jan))
    } else if let Some(e) = spec_lit(s, p, seq![70u8, 101, 98]) {
        Some((e, Month::Feb))
    } else if let Some(e) = spec_lit(s, p, seq![77u8, 97, 114]) {
        Some((e, Month::Mar))
    } else if let Some(e) = spec_lit(s, p, seq![65u8, 112, 114]) {
        Some((e, Month::Apr))
    } else if let Some(e) = spec_lit(s, p, seq![77u8, 97, 121]) {
        Some((e, Month::May))
    } else if let Some(e) = spec_lit(s, p, seq![74u8, 117, 110]) {
        Some((e, Month::Jun))
    } else if let Some(e) = spec_lit(s, p, seq![74u8, 117, 108]) {
        Some((e, Month::Jul))
    } else if let Some(e) = spec_lit(s, p, seq![65u8, 117, 103]) {
        Some((e, Month::Aug))
    } else if let Some(e) = spec_lit(s, p, seq![83u8, 101, 112, 116]) {
        Some((e, Month::Sep))
    } else if let Some(e) = spec_lit(s, p, seq![83u8, 101, 112]) {
        Some((e, Month::Sep))
    } else if let Some(e) = spec_lit(s, p, seq![79u8, 99, 116]) {
        Some((e, Month::Oct))
    } else if let Some(e) = spec_lit(s, p, seq![78u8, 111, 118]) {
        Some((e, Month::Nov))
    } else if let Some(e) = spec_lit(s, p, seq![68u8, 101, 99]) {
        Some((e, Month::Dec))
    } else {
        None
    }
}

/// `month`
pub fn month(s: &[u8], pos: usize) -> (r: Option<(usize, Month)>)
    requires
        pos <= s.len(),
    ensures
        lift(r) == spec_month(s@, pos as int),
        r matches Some((e, _)) ==> pos < e <= s.len(),
{
    if let Some(e) = lit(s, pos, &[74u8, 97, 110]) {
        Some((e, Month::Jan))
    } else if let Some(e) = lit(s, pos, &[70u8, 101, 98]) {
        Some((e, Month::Feb))
    } else if let Some(e) = lit(s, pos, &[77u8, 97, 114]) {
        Some((e, Month::Mar))
    } else if let Some(e) = lit(s, pos, &[65u8, 112, 114]) {
        Some((e, Month::Apr))
    } else if let Some(e) = lit(s, pos, &[77u8, 97, 121]) {
        Some((e, Month::May))
    } else if let Some(e) = lit(s, pos, &[74u8, 117, 110]) {
        Some((e, Month::Jun))
    } else if let Some(e) = lit(s, pos, &[74u8, 117, 108]) {
        Some((e, Month::Jul))
    } else if let Some(e) = lit(s, pos, &[65u8, 117, 103]) {
        Some((e, Month::Aug))
    } else if let Some(e) = lit(s, pos, &[83u8, 101, 112, 116]) {
        Some((e, Month::Sep))
    } else if let Some(e) = lit(s, pos, &[83u8, 101, 112]) {
        Some((e, Month::Sep))
    } else if let Some(e) = lit(s, pos, &[79u8, 99, 116]) {
        Some((e, Month::Oct))
    } else if let Some(e) = lit(s, pos, &[78u8, 111, 118]) {
        Some((e, Month::Nov))
    } else if let Some(e) = lit(s, pos, &[68u8, 101, 99]) {
        Some((e, Month::Dec))
    } else {
        None
    }
}

/// `obs-year = [CFWS] 2*DIGIT [CFWS]`
pub fn obs_year(s: &[u8], pos: usize) -> (r: Option<(usize, usize)>)
    requires
        pos <= s.len(),
    ensures
        lift(r) == spec_obs_number(s@, pos as int, 2, None),
        r matches Some((e, _)) ==> pos <= e <= s.len(),
{
    obs_number(s, pos, 2, None)
}

/// `year = (FWS 4*DIGIT) / obs-year` (no white space is required after the
/// four-digit form).
pub open spec fn spec_year(s: Seq<u8>, p: int) -> Option<(int, usize)> {
    let new_form = match spec_fws(s, p) {
        Some((q, _)) => spec_digits(s, q, 4, None),
        None => None,
    };
    match new_form {
        Some(r) => Some(r),
        None => spec_obs_number(s, p, 2, None),
    }
}

/// `year = (FWS 4*DIGIT) / obs-year`
pub fn year(s: &[u8], pos: usize) -> (r: Option<(usize, usize)>)
    requires
        pos <= s.len(),
    ensures
        lift(r) == spec_year(s@, pos as int),
        r matches Some((e, _)) ==> pos <= e <= s.len(),
{
    if let Some((q, _)) = fws(s, pos) {
        if let Some(r) = digits(s, q, 4, None) {
            return Some(r);
        }
    }
    obs_year(s, pos)
}

/// The day, month and year as written, before the century is settled.
pub open spec fn spec_date_parts(s: Seq<u8>, p: int) -> Option<(int, (usize, Month, usize))> {
    match spec_day(s, p) {
        Some((q1, d)) => match spec_month(s, q1) {
            Some((q2, m)) => match spec_year(s, q2) {
                Some((e, y)) => Some((e, (d, m, y))),
                None => None,
            },
            None => None,
        },
        None => None,
    }
}

/// A two-digit year is put in the century that makes it at most
/// `this_year`, else in the century before.  `None` stands for an
/// arithmetic overflow of that computation.
pub open spec fn spec_full_year(y: usize, this_year: usize) -> Option<usize> {
    if y < 100 {
        let prefix = (this_year / 100) * 100;
        if y + prefix > usize::MAX {
            None
        } else if y + prefix <= this_year {
            Some((y + prefix) as usize)
        } else if prefix < 100 {
            None
        } else {
            Some((y + prefix - 100) as usize)
        }
    } else {
        Some(y)
    }
}

fn full_year(y: usize, this_year: usize) -> (r: Option<usize>)
    ensures
        r == spec_full_year(y, this_year),
{
    if y < 100 {
        let prefix = (this_year / 100) * 100;
        if prefix > usize::MAX - y {
            None
        } else if y + prefix <= this_year {
            Some(y + prefix)
        } else if prefix < 100 {
            None
        } else {
            Some(y + prefix - 100)
        }
    } else {
        Some(y)
    }
}

/// `date` overflows when settling the century of a two-digit year.
pub open spec fn spec_date_panics(s: Seq<u8>, p: int, this_year: usize) -> bool {
    match spec_date_parts(s, p) {
        Some((_, (d, m, y))) => spec_full_year(y, this_year) is None,
        None => false,
    }
}

/// `date = day month year`, a valid calendar date; two-digit years are
/// settled relative to `this_year`.
pub open spec fn spec_date(s: Seq<u8>, p: int, this_year: usize) -> Option<(int, Date)> {
    match spec_date_parts(s, p) {
        Some((e, (d, m, y))) => match spec_full_year(y, this_year) {
            Some(fy) => {
                let date = Date { year: fy as i32, month: spec_month_number(m), day: d as u32 };
                if spec_valid_date(date.year, date.month, date.day) {
                    Some((e, date))
                } else {
                    None
                }
            },
            None => None,
        },
        None => None,
    }
}

fn date_parts(s: &[u8], pos: usize) -> (r: Option<(usize, (usize, Month, usize))>)
    requires
        pos <= s.len(),
    ensures
        lift(r) == spec_date_parts(s@, pos as int),
        r matches Some((e, _)) ==> pos <= e <= s.len(),
{
    match day(s, pos) {
        Some((q1, d)) => match month(s, q1) {
            Some((q2, m)) => match year(s, q2) {
                Some((e, y)) => Some((e, (d, m, y))),
                None => None,
            },
            None => None,
        },
        None => None,
    }
}

/// `date = day month year`, settling two-digit years relative to `this_year`.
pub fn date_in_year(s: &[u8], pos: usize, this_year: usize) -> (r: Option<(usize, Date)>)
    requires
        pos <= s.len(),
        !spec_date_panics(s@, pos as int, this_year),
    ensures
        lift(r) == spec_date(s@, pos as int, this_year),
        r matches Some((e, _)) ==> pos <= e <= s.len(),
{
    match date_parts(s, pos) {
        Some((e, (d, m, y))) => match full_year(y, this_year) {
            Some(fy) => {
                let date = Date { year: fy as i32, month: month_number(m), day: d as u32 };
                if naive_date_is_valid(date.year, date.month, date.day) {
                    Some((e, date))
                } else {
                    None
                }
            },
            None => None,
        },
        None => None,
    }
}

/// The current year as a count, as the century of two-digit years is settled
/// against it.
pub open spec fn clock_year(y: i32) -> usize {
    y as usize
}

/// What `date` gives with two-digit years settled relative to `this_year`:
/// nothing where settling the century overflows, else the date read.
pub open spec fn spec_date_at(s: Seq<u8>, p: int, this_year: usize) -> Option<(int, Date)> {
    if spec_date_panics(s, p, this_year) {
        None
    } else {
        spec_date(s, p, this_year)
    }
}

/// `date = day month year`, settling two-digit years relative to the current
/// year read from the clock.  A clock reading for which the century cannot
/// be settled (a year before 100) gives nothing.
pub fn date(s: &[u8], pos: usize) -> (r: Option<(usize, Date)>)
    requires
        pos <= s.len(),
    ensures
        exists|y: i32| MIN_YEAR <= y <= MAX_YEAR && lift(r) == spec_date_at(s@, pos as int, #[trigger] clock_year(y)),
        r matches Some((e, _)) ==> pos <= e <= s.len(),
{
    let y = current_year();
    if date_panics(s, pos, y as usize) {
        assert(lift(None::<(usize, Date)>) == spec_date_at(s@, pos as int, clock_year(y)));
        return None;
    }
    let r = date_in_year(s, pos, y as usize);
    assert(lift(r) == spec_date_at(s@, pos as int, clock_year(y)));
    r
}

// ---------------------------------------------------------------------------
// time = time-of-day zone
// ---------------------------------------------------------------------------

/// `hour = 2DIGIT / obs-hour` (one digit is accepted too)
pub open spec fn spec_hour(s: Seq<u8>, p: int) -> Option<(int, usize)> {
    match spec_digits(s, p, 1, Some(2)) {
        Some(r) => Some(r),
        None => spec_obs_number(s, p, 1, Some(2)),
    }
}

/// `hour = 2DIGIT / obs-hour`
pub fn hour(s: &[u8], pos: usize) -> (r: Option<(usize, usize)>)
    requires
        pos <= s.len(),
    ensures
        lift(r) == spec_hour(s@, pos as int),
        r matches Some((e, _)) ==> pos <= e <= s.len(),
{
    match digits(s, pos, 1, Some(2)) {
        Some(r) => Some(r),
        None => obs_hour(s, pos),
    }
}

/// `obs-hour = [CFWS] 2DIGIT [CFWS]` (one digit is accepted too)
pub fn obs_hour(s: &[u8], pos: usize) -> (r: Option<(usize, usize)>)
    requires
        pos <= s.len(),
    ensures
        lift(r) == spec_obs_number(s@, pos as int, 1, Some(2)),
        r matches Some((e, _)) ==> pos <= e <= s.len(),
{
    obs_number(s, pos, 1, Some(2))
}

/// `minute = 2DIGIT / obs-minute`, and likewise `second`.
pub open spec fn spec_two_digits(s: Seq<u8>, p: int) -> Option<(int, usize)> {
    match spec_digits(s, p, 2, Some(2)) {
        Some(r) => Some(r),
        None => spec_obs_number(s, p, 2, Some(2)),
    }
}

/// `minute = 2DIGIT / obs-minute`
pub fn minute(s: &[u8], pos: usize) -> (r: Option<(usize, usize)>)
    requires
        pos <= s.len(),
    ensures
        lift(r) == spec_two_digits(s@, pos as int),
        r matches Some((e, _)) ==> pos <= e <= s.len(),
{
    match digits(s, pos, 2, Some(2)) {
        Some(r) => Some(r),
        None => obs_minute(s, pos),
    }
}

/// `obs-minute = [CFWS] 2DIGIT [CFWS]`
pub fn obs_minute(s: &[u8], pos: usize) -> (r: Option<(usize, usize)>)
    requires
        pos <= s.len(),
    ensures
        lift(r) == spec_obs_number(s@, pos as int, 2, Some(2)),
        r matches Some((e, _)) ==> pos <= e <= s.len(),
{
    obs_number(s, pos, 2, Some(2))
}

/// `second = 2DIGIT / obs-second`
pub fn second(s: &[u8], pos: usize) -> (r: Option<(usize, usize)>)
    requires
        pos <= s.len(),
    ensures
        lift(r) == spec_two_digits(s@, pos as int),
        r matches Some((e, _)) ==> pos <= e <= s.len(),
{
    match digits(s, pos, 2, Some(2)) {
        Some(r) => Some(r),
        None => obs_second(s, pos),
    }
}

/// `obs-second = [CFWS] 2DIGIT [CFWS]`
pub fn obs_second(s: &[u8], pos: usize) -> (r: Option<(usize, usize)>)
    requires
        pos <= s.len(),
    ensures
        lift(r) == spec_obs_number(s@, pos as int, 2, Some(2)),
        r matches Some((e, _)) ==> pos <= e <= s.len(),
{
    obs_number(s, pos, 2, Some(2))
}

/// `hour ":" minute [ ":" second ]` as written; the second defaults to 0.
pub open spec fn spec_time_of_day_parts(s: Seq<u8>, p: int) -> Option<(int, (usize, usize, usize))> {
    match spec_hour(s, p) {
        Some((q1, h)) => if 0 <= q1 < s.len() && s[q1] == 58 {
            match spec_two_digits(s, q1 + 1) {
                Some((q2, m)) => {
                    let sec: Option<(int, usize)> = if 0 <= q2 < s.len() && s[q2] == 58 {
                        spec_two_digits(s, q2 + 1)
                    } else {
                        None
                    };
                    match sec {
                        Some((e, x)) => Some((e, (h, m, x))),
                        None => Some((q2, (h, m, 0usize))),
                    }
                },
                None => None,
            }
        } else {
            None
        },
        None => None,
    }
}

/// A time of day: hour below 24, minute and second below 60.
pub open spec fn spec_valid_time(h: usize, m: usize, sec: usize) -> bool {
    h < 24 && m < 60 && sec < 60
}

/// `time-of-day` reads an hour, minute or second out of range (the time of
/// day cannot then be formed).
pub open spec fn spec_time_of_day_panics(s: Seq<u8>, p: int) -> bool {
    match spec_time_of_day_parts(s, p) {
        Some((_, (h, m, sec))) => !spec_valid_time(h, m, sec),
        None => false,
    }
}

/// `time-of-day = hour ":" minute [ ":" second ]`, as `(hour, minute, second)`.
pub open spec fn spec_time_of_day(s: Seq<u8>, p: int) -> Option<(int, (u32, u32, u32))> {
    match spec_time_of_day_parts(s, p) {
        Some((e, (h, m, sec))) => Some((e, (h as u32, m as u32, sec as u32))),
        None => None,
    }
}

fn time_of_day_parts(s: &[u8], pos: usize) -> (r: Option<(usize, (usize, usize, usize))>)
    requires
        pos <= s.len(),
    ensures
        lift(r) == spec_time_of_day_parts(s@, pos as int),
        r matches Some((e, _)) ==> pos <= e <= s.len(),
{
    match hour(s, pos) {
        Some((q1, h)) => if q1 < s.len() && s[q1] == 58 {
            match minute(s, q1 + 1) {
                Some((q2, m)) => {
                    let sec = if q2 < s.len() && s[q2] == 58 {
                        second(s, q2 + 1)
                    } else {
                        None
                    };
                    match sec {
                        Some((e, x)) => Some((e, (h, m, x))),
                        None => Some((q2, (h, m, 0usize))),
                    }
                },
                None => None,
            }
        } else {
            None
        },
        None => None,
    }
}

/// `time-of-day = hour ":" minute [ ":" second ]`
pub fn time_of_day(s: &[u8], pos: usize) -> (r: Option<(usize, (u32, u32, u32))>)
    requires
        pos <= s.len(),
        !spec_time_of_day_panics(s@, pos as int),
    ensures
        lift(r) == spec_time_of_day(s@, pos as int),
        r matches Some((e, (h, m, sec))) ==> pos <= e <= s.len() && h < 24 && m < 60 && sec < 60,
{
    match time_of_day_parts(s, pos) {
        Some((e, (h, m, x))) => Some((e, (h as u32, m as u32, x as u32))),
        None => None,
    }
}

/// The names of `obs-zone`, with their offset from UTC in hours, as the
/// grammar's comments give them: EDT is -0400, EST -0500, and so on.  Any other run
/// of letters, and in particular a military zone letter, counts as 0.
pub open spec fn spec_obs_zone_name(s: Seq<u8>, p: int) -> Option<(int, int)> {
    if let Some(e) = spec_lit(s, p, seq![85u8, 84]) {
        Some((e, 0))
    } else if let Some(e) = spec_lit(s, p, seq![71u8, 77, 84]) {
        Some((e, 0))
    } else if let Some(e) = spec_lit(s, p, seq![85u8, 84, 67]) {
        Some((e, 0))
    } else if let Some(e) = spec_lit(s, p, seq![69u8, 83, 84]) {
        Some((e, -5))
    } else if let Some(e) = spec_lit(s, p, seq![69u8, 68, 84]) {
        Some((e, -4))
    } else if let Some(e) = spec_lit(s, p, seq![67u8, 83, 84]) {
        Some((e, -6))
    } else if let Some(e) = spec_lit(s, p, seq![67u8, 68, 84]) {
        Some((e, -5))
    } else if let Some(e) = spec_lit(s, p, seq![77u8, 83, 84]) {
        Some((e, -7))
    } else if let Some(e) = spec_lit(s, p, seq![77u8, 68, 84]) {
        Some((e, -6))
    } else if let Some(e) = spec_lit(s, p, seq![80u8, 83, 84]) {
        Some((e, -8))
    } else if let Some(e) = spec_lit(s, p, seq![80u8, 68, 84]) {
        Some((e, -7))
    } else if 0 <= p < s.len() && ((65 <= s[p] <= 73) || (75 <= s[p] <= 90) || (97 <= s[p] <= 105)
        || (107 <= s[p] <= 122)) {
        Some((p + 1, 0))
    } else if let Some(e) = spec_class_run1(s, p, Class::Alpha) {
        Some((e, 0))
    } else {
        None
    }
}

fn obs_zone_name(s: &[u8], pos: usize) -> (r: Option<(usize, i32)>)
    requires
        pos <= s.len(),
    ensures
        r matches Some((e, o)) ==> spec_obs_zone_name(s@, pos as int) == Some((e as int, o as int))
            && pos < e <= s.len(),
        r is None ==> spec_obs_zone_name(s@, pos as int) is None,
{
    if let Some(e) = lit(s, pos, &[85u8, 84]) {
        Some((e, 0))
    } else if let Some(e) = lit(s, pos, &[71u8, 77, 84]) {
        Some((e, 0))
    } else if let Some(e) = lit(s, pos, &[85u8, 84, 67]) {
        Some((e, 0))
    } else if let Some(e) = lit(s, pos, &[69u8, 83, 84]) {
        Some((e, -5))
    } else if let Some(e) = lit(s, pos, &[69u8, 68, 84]) {
        Some((e, -4))
    } else if let Some(e) = lit(s, pos, &[67u8, 83, 84]) {
        Some((e, -6))
    } else if let Some(e) = lit(s, pos, &[67u8, 68, 84]) {
        Some((e, -5))
    } else if let Some(e) = lit(s, pos, &[77u8, 83, 84]) {
        Some((e, -7))
    } else if let Some(e) = lit(s, pos, &[77u8, 68, 84]) {
        Some((e, -6))
    } else if let Some(e) = lit(s, pos, &[80u8, 83, 84]) {
        Some((e, -8))
    } else if let Some(e) = lit(s, pos, &[80u8, 68, 84]) {
        Some((e, -7))
    } else if pos < s.len() && ((65 <= s[pos] && s[pos] <= 73) || (75 <= s[pos] && s[pos] <= 90) || (97
        <= s[pos] && s[pos] <= 105) || (107 <= s[pos] && s[pos] <= 122)) {
        Some((pos + 1, 0))
    } else if let Some(e) = class_run1(s, pos, Class::Alpha) {
        Some((e, 0))
    } else {
        None
    }
}

/// `obs-zone`, preceded by folding white space.  The value is the offset of
/// local time from UTC in seconds: the named zone's hours times 3600 (EST is
/// -18000).
pub open spec fn spec_obs_zone(s: Seq<u8>, p: int) -> Option<(int, int)> {
    match spec_fws(s, p) {
        Some((q, _)) => match spec_obs_zone_name(s, q) {
            Some((e, o)) => Some((e, o * 3600)),
            None => None,
        },
        None => None,
    }
}

/// `obs-zone` (see [`spec_obs_zone`]); the value is local time minus UTC, in
/// seconds.
pub fn obs_zone(s: &[u8], pos: usize) -> (r: Option<(usize, i32)>)
    requires
        pos <= s.len(),
    ensures
        r matches Some((e, z)) ==> spec_obs_zone(s@, pos as int) == Some((e as int, z as int)) && pos < e <= s.len(),
        r is None ==> spec_obs_zone(s@, pos as int) is None,
{
    match fws(s, pos) {
        Some((q, _)) => match obs_zone_name(s, q) {
            Some((e, o)) => Some((e, o * 3600)),
            None => None,
        },
        None => None,
    }
}

/// `zone = (FWS ( "+" / "-" ) 4DIGIT) / obs-zone`; the value is local time
/// minus UTC, in seconds.
pub open spec fn spec_zone_parts(s: Seq<u8>, p: int) -> Option<(int, int)> {
    let new_form: Option<(int, int)> = match spec_fws(s, p) {
        Some((q, _)) => if 0 <= q < s.len() && (s[q] == 43 || s[q] == 45) {
            match spec_digits(s, q + 1, 2, Some(2)) {
                Some((q2, h)) => match spec_digits(s, q2, 2, Some(2)) {
                    Some((e, m)) => {
                        let off = h * 3600 + m * 60;
                        Some((e, if s[q] == 43 { off } else { -off }))
                    },
                    None => None,
                },
                None => None,
            }
        } else {
            None
        },
        None => None,
    };
    match new_form {
        Some(r) => Some(r),
        None => spec_obs_zone(s, p),
    }
}

/// The zone's offset is a day or more, which no fixed offset can be.
pub open spec fn spec_zone_panics(s: Seq<u8>, p: int) -> bool {
    match spec_zone_parts(s, p) {
        Some((_, z)) => !(-86400 < z < 86400),
        None => false,
    }
}

fn zone_parts(s: &[u8], pos: usize) -> (r: Option<(usize, i32)>)
    requires
        pos <= s.len(),
    ensures
        r matches Some((e, z)) ==> spec_zone_parts(s@, pos as int) == Some((e as int, z as int)) && pos < e <= s.len(),
        r is None ==> spec_zone_parts(s@, pos as int) is None,
{
    if let Some((q, _)) = fws(s, pos) {
        if q < s.len() && (s[q] == 43 || s[q] == 45) {
            if let Some((q2, h)) = digits(s, q + 1, 2, Some(2)) {
                if let Some((e, m)) = digits(s, q2, 2, Some(2)) {
                    proof {
                        crate::util::lemma_digit_run_bound(s@, (q + 1) as int);
                    }
                    assert(h <= 99 && m <= 99) by {
                        assert(spec_parse_digits(s@, (q + 1) as int, 2, Some(2nat)) == Some((q2 as int, h as nat)));
                        lemma_two_digit_value(s@, (q + 1) as int);
                        lemma_two_digit_value(s@, q2 as int);
                    }
                    let off: i32 = (h as i32) * 3600 + (m as i32) * 60;
                    if s[q] == 43 {
                        return Some((e, off));
                    } else {
                        return Some((e, -off));
                    }
                }
            }
        }
    }
    obs_zone(s, pos)
}

/// Two digits are worth at most 99.
proof fn lemma_two_digit_value(s: Seq<u8>, p: int)
    requires
        0 <= p <= s.len(),
    ensures
        spec_parse_digits(s, p, 2, Some(2nat)) matches Some((e, v)) ==> v <= 99,
{
    if let Some((e, v)) = spec_parse_digits(s, p, 2, Some(2nat)) {
        crate::util::lemma_digit_run_bound(s, p);
        assert(crate::util::spec_is_digit(s[p]));
        assert(crate::util::spec_is_digit(s[p + 1]));
        assert(crate::util::digits_value(s, p, p) == 0);
        assert(crate::util::digits_value(s, p, p + 1) <= 9);
        assert(crate::util::digits_value(s, p, p + 2) <= 99);
    }
}

/// `zone = (FWS ( "+" / "-" ) 4DIGIT) / obs-zone`; the value is local time
/// minus UTC, in seconds.
pub fn zone(s: &[u8], pos: usize) -> (r: Option<(usize, i32)>)
    requires
        pos <= s.len(),
        !spec_zone_panics(s@, pos as int),
    ensures
        r matches Some((e, z)) ==> spec_zone_parts(s@, pos as int) == Some((e as int, z as int)) && pos < e <= s.len()
            && -86400 < z < 86400,
        r is None ==> spec_zone_parts(s@, pos as int) is None,
{
    zone_parts(s, pos)
}

/// `time = time-of-day zone` reads a time of day or a zone out of range.
pub open spec fn spec_time_panics(s: Seq<u8>, p: int) -> bool {
    match spec_time_of_day_parts(s, p) {
        Some((q, (h, m, sec))) => !spec_valid_time(h, m, sec) || spec_zone_panics(s, q),
        None => false,
    }
}

/// `time = time-of-day zone`: `((hour, minute, second), offset)`.
pub open spec fn spec_time(s: Seq<u8>, p: int) -> Option<(int, ((u32, u32, u32), i32))> {
    match spec_time_of_day(s, p) {
        Some((q, t)) => match spec_zone_parts(s, q) {
            Some((e, z)) => Some((e, (t, z as i32))),
            None => None,
        },
        None => None,
    }
}

/// `time = time-of-day zone`
pub fn time(s: &[u8], pos: usize) -> (r: Option<(usize, ((u32, u32, u32), i32))>)
    requires
        pos <= s.len(),
        !spec_time_panics(s@, pos as int),
    ensures
        lift(r) == spec_time(s@, pos as int),
        r matches Some((e, ((h, m, sec), z))) ==> pos <= e <= s.len() && h < 24 && m < 60 && sec < 60 && -86400
            < z < 86400,
{
    match time_of_day(s, pos) {
        Some((q, t)) => match zone(s, q) {
            Some((e, z)) => Some((e, (t, z))),
            None => None,
        },
        None => None,
    }
}

// ---------------------------------------------------------------------------
// date-time = [ day-of-week "," ] date time [CFWS]
// ---------------------------------------------------------------------------

/// The position after the optional `day-of-week ","`.
pub open spec fn spec_day_of_week_prefix(s: Seq<u8>, p: int) -> int {
    match spec_day_of_week(s, p) {
        Some((q, _)) => if 0 <= q < s.len() && s[q] == 44 {
            q + 1
        } else {
            p
        },
        None => p,
    }
}

/// The local date and time at the given offset fall outside the calendar's
/// range once converted to UTC.
pub open spec fn spec_utc_out_of_range(d: Date, t: (u32, u32, u32), z: i32) -> bool {
    let secs = t.0 * 3600 + t.1 * 60 + t.2;
    (d.year == MAX_YEAR && d.month == 12 && d.day == 31 && secs - z >= 86400) || (d.year == MIN_YEAR
        && d.month == 1 && d.day == 1 && secs - z < 0)
}

/// The inputs on which `date-time` cannot form its value: settling the
/// century overflows, the time of day or the zone is out of range, or the
/// instant falls outside the calendar in UTC.
#[verifier::opaque]
pub open spec fn spec_date_time_panics(s: Seq<u8>, p: int, this_year: usize) -> bool {
    let q0 = spec_day_of_week_prefix(s, p);
    spec_date_panics(s, q0, this_year) || match spec_date(s, q0, this_year) {
        Some((q1, d)) => spec_time_panics(s, q1) || match spec_time(s, q1) {
            Some((_, (t, z))) => spec_utc_out_of_range(d, t, z),
            None => false,
        },
        None => false,
    }
}

/// `date-time = [ day-of-week "," ] date time [CFWS]`, two-digit years being
/// settled relative to `this_year`.
#[verifier::opaque]
pub open spec fn spec_date_time(s: Seq<u8>, p: int, this_year: usize) -> Option<(int, DateTime)> {
    let q0 = spec_day_of_week_prefix(s, p);
    match spec_date(s, q0, this_year) {
        Some((q1, d)) => match spec_time(s, q1) {
            Some((q2, (t, z))) => Some((opt_cfws(s, q2).0, DateTime {
                year: d.year,
                month: d.month,
                day: d.day,
                hour: t.0,
                minute: t.1,
                second: t.2,
                offset: z,
            })),
            None => None,
        },
        None => None,
    }
}

fn day_of_week_prefix(s: &[u8], pos: usize) -> (q: usize)
    requires
        pos <= s.len(),
    ensures
        q as int == spec_day_of_week_prefix(s@, pos as int),
        pos <= q <= s.len(),
{
    match day_of_week(s, pos) {
        Some((q, _)) => if q < s.len() && s[q] == 44 {
            q + 1
        } else {
            pos
        },
        None => pos,
    }
}

fn utc_out_of_range(d: Date, t: (u32, u32, u32), z: i32) -> (r: bool)
    requires
        t.0 < 24 && t.1 < 60 && t.2 < 60,
        -86400 < z < 86400,
    ensures
        r == spec_utc_out_of_range(d, t, z),
{
    let secs: i64 = (t.0 as i64) * 3600 + (t.1 as i64) * 60 + (t.2 as i64);
    (d.year == MAX_YEAR && d.month == 12 && d.day == 31 && secs - (z as i64) >= 86400) || (d.year
        == MIN_YEAR && d.month == 1 && d.day == 1 && secs - (z as i64) < 0)
}

fn date_panics(s: &[u8], pos: usize, this_year: usize) -> (r: bool)
    requires
        pos <= s.len(),
    ensures
        r == spec_date_panics(s@, pos as int, this_year),
{
    match date_parts(s, pos) {
        Some((_, (_, _, y))) => full_year(y, this_year).is_none(),
        None => false,
    }
}

fn time_panics(s: &[u8], pos: usize) -> (r: bool)
    requires
        pos <= s.len(),
    ensures
        r == spec_time_panics(s@, pos as int),
{
    match time_of_day_parts(s, pos) {
        Some((q, (h, m, x))) => {
            if !(h < 24 && m < 60 && x < 60) {
                return true;
            }
            match zone_parts(s, q) {
                Some((_, z)) => !(-86400 < z && z < 86400),
                None => false,
            }
        },
        None => false,
    }
}

/// Whether `date-time` at `pos` reads a value that cannot be formed (see
/// [`spec_date_time_panics`]).
pub fn date_time_panics(s: &[u8], pos: usize, this_year: usize) -> (r: bool)
    requires
        pos <= s.len(),
    ensures
        r == spec_date_time_panics(s@, pos as int, this_year),
{
    reveal(spec_date_time_panics);
    let q0 = day_of_week_prefix(s, pos);
    if date_panics(s, q0, this_year) {
        return true;
    }
    match date_in_year(s, q0, this_year) {
        Some((q1, d)) => {
            if time_panics(s, q1) {
                return true;
            }
            match time(s, q1) {
                Some((_, (t, z))) => utc_out_of_range(d, t, z),
                None => false,
            }
        },
        None => false,
    }
}

/// `date-time = [ day-of-week "," ] date time [CFWS]`, settling two-digit
/// years relative to `this_year`.
pub fn date_time_in_year(s: &[u8], pos: usize, this_year: usize) -> (r: Option<(usize, DateTime)>)
    requires
        pos <= s.len(),
        !spec_date_time_panics(s@, pos as int, this_year),
    ensures
        lift(r) == spec_date_time(s@, pos as int, this_year),
        r matches Some((e, _)) ==> pos <= e <= s.len(),
{
    reveal(spec_date_time_panics);
    reveal(spec_date_time);
    let q0 = day_of_week_prefix(s, pos);
    match date_in_year(s, q0, this_year) {
        Some((q1, d)) => match time(s, q1) {
            Some((q2, (t, z))) => {
                let e = skip_opt_cfws(s, q2);
                Some((e, DateTime {
                    year: d.year,
                    month: d.month,
                    day: d.day,
                    hour: t.0,
                    minute: t.1,
                    second: t.2,
                    offset: z,
                }))
            },
            None => None,
        },
        None => None,
    }
}

/// What `date-time` gives with two-digit years settled relative to
/// `this_year`: nothing where the value cannot be formed (see
/// [`spec_date_time_panics`]), else the date and time read.
pub open spec fn spec_date_time_at(s: Seq<u8>, p: int, this_year: usize) -> Option<(int, DateTime)> {
    if spec_date_time_panics(s, p, this_year) {
        None
    } else {
        spec_date_time(s, p, this_year)
    }
}

/// `date-time`, settling two-digit years relative to the current year read
/// from the clock.  Where the value cannot be formed with the year read (a
/// time or zone out of range, an instant outside the calendar, a clock
/// before year 100 for a two-digit year) it gives nothing.
pub fn date_time(s: &[u8], pos: usize) -> (r: Option<(usize, DateTime)>)
    requires
        pos <= s.len(),
    ensures
        exists|y: i32| MIN_YEAR <= y <= MAX_YEAR && lift(r) == spec_date_time_at(s@, pos as int, #[trigger] clock_year(y)),
        r matches Some((e, _)) ==> pos <= e <= s.len(),
{
    let y = current_year();
    if date_time_panics(s, pos, y as usize) {
        assert(lift(None::<(usize, DateTime)>) == spec_date_time_at(s@, pos as int, clock_year(y)));
        return None;
    }
    let r = date_time_in_year(s, pos, y as usize);
    assert(lift(r) == spec_date_time_at(s@, pos as int, clock_year(y)));
    r
}

} // verus!
