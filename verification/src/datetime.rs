//! The date and time classes: `Instant`, `Date`, `Time`, `DateTime`,
//! `ZonedDateTime` and `Duration`.  An instance keeps its value in plain
//! integer (and time zone name) fields; each method reads them, hands them to
//! the `jiff` crate, and writes what comes back into the fields of a new
//! instance.  Which method runs, its argument checks and its field reads are
//! stated here; what `jiff` computes is a value of that crate, which the
//! library does not view, so no clause states it.
use crate::gc::{GcHeap, GcRef};
use crate::text::{nat_digits, u64_to_string};
use crate::typechecker::{find_key, lemma_key_index_bounds, lookup};
use crate::vm::{is_type_error, HeapObject, VmError, VmValue};
use vstd::prelude::*;

verus! {

#[verifier::external_type_specification]
#[verifier::external_body]
pub struct ExTimestamp(jiff::Timestamp);

#[verifier::external_type_specification]
#[verifier::external_body]
pub struct ExDate(jiff::civil::Date);

#[verifier::external_type_specification]
#[verifier::external_body]
pub struct ExTime(jiff::civil::Time);

#[verifier::external_type_specification]
#[verifier::external_body]
pub struct ExDateTime(jiff::civil::DateTime);

#[verifier::external_type_specification]
#[verifier::external_body]
pub struct ExZoned(jiff::Zoned);

#[verifier::external_type_specification]
#[verifier::external_body]
pub struct ExSpan(jiff::Span);

#[verifier::external_type_specification]
#[verifier::external_body]
pub struct ExTimeZone(jiff::tz::TimeZone);

#[verifier::external_type_specification]
#[verifier::external_body]
pub struct ExAmbiguousZoned(jiff::tz::AmbiguousZoned);

#[verifier::external_type_specification]
#[verifier::external_body]
pub struct ExJiffError(jiff::Error);

// ── Calls into `jiff` ───────────────────────────────────────────────────────
//
// Each of these makes one call of the crate.  Their results are `jiff`
// values, or numbers and text read from them, and no clause states them.

/// A leap year of the proleptic Gregorian calendar.
pub open spec fn leap_year(y: int) -> bool {
    y % 4 == 0 && (y % 100 != 0 || y % 400 == 0)
}

/// The number of days of month `m` (1 to 12) of year `y`.
pub open spec fn month_days(y: int, m: int) -> int {
    if m == 2 {
        if leap_year(y) {
            29
        } else {
            28
        }
    } else if m == 4 || m == 6 || m == 9 || m == 11 {
        30
    } else {
        31
    }
}

/// A civil date that exists: year in `-9999..=9999`, month in `1..=12`, day
/// in the month.
pub open spec fn valid_date(y: int, m: int, d: int) -> bool {
    -9999 <= y <= 9999 && 1 <= m <= 12 && 1 <= d <= month_days(y, m)
}

/// A civil time of day: hour, minute and second in range, nanoseconds below
/// a second.
pub open spec fn valid_time(h: int, mi: int, s: int, ns: int) -> bool {
    0 <= h <= 23 && 0 <= mi <= 59 && 0 <= s <= 59 && 0 <= ns <= 999_999_999
}

/// `Timestamp::new`: the instant `secs` seconds and `nanos` nanoseconds after the Unix epoch.
#[verifier::external_body]
fn ts_new(secs: i64, nanos: i32) -> (r: Result<jiff::Timestamp, jiff::Error>) {
    jiff::Timestamp::new(secs, nanos)
}

/// `<Timestamp as TryFrom<SystemTime>>::try_from` on the system clock: the
/// current instant, or an error when the clock lies outside the range the
/// crate supports.  Nothing is stated of the result: it is the time.
#[verifier::external_body]
fn ts_now() -> (r: Result<jiff::Timestamp, jiff::Error>) {
    jiff::Timestamp::try_from(std::time::SystemTime::now())
}

/// `Timestamp::from_second`.
#[verifier::external_body]
fn ts_from_second(s: i64) -> (r: Result<jiff::Timestamp, jiff::Error>) {
    jiff::Timestamp::from_second(s)
}

/// `Timestamp::from_millisecond`.
#[verifier::external_body]
fn ts_from_millisecond(ms: i64) -> (r: Result<jiff::Timestamp, jiff::Error>) {
    jiff::Timestamp::from_millisecond(ms)
}

/// `<Timestamp as FromStr>::from_str`.
#[verifier::external_body]
fn ts_parse(s: &str) -> (r: Result<jiff::Timestamp, jiff::Error>) {
    s.parse::<jiff::Timestamp>()
}

/// `<Timestamp as Display>::fmt`.
#[verifier::external_body]
fn ts_to_string(ts: &jiff::Timestamp) -> (r: String) {
    ts.to_string()
}

/// `Timestamp::as_second`.
#[verifier::external_body]
fn ts_as_second(ts: &jiff::Timestamp) -> (r: i64) {
    ts.as_second()
}

/// `Timestamp::subsec_nanosecond`.
#[verifier::external_body]
fn ts_subsec_nanosecond(ts: &jiff::Timestamp) -> (r: i32) {
    ts.subsec_nanosecond()
}

/// `Timestamp::as_millisecond`.
#[verifier::external_body]
fn ts_as_millisecond(ts: &jiff::Timestamp) -> (r: i64) {
    ts.as_millisecond()
}

/// `Timestamp::checked_add` with a span.
#[verifier::external_body]
fn ts_checked_add(ts: &jiff::Timestamp, span: &jiff::Span) -> (r: Result<jiff::Timestamp, jiff::Error>) {
    ts.checked_add(*span)
}

/// `Timestamp::checked_sub` with a span.
#[verifier::external_body]
fn ts_checked_sub(ts: &jiff::Timestamp, span: &jiff::Span) -> (r: Result<jiff::Timestamp, jiff::Error>) {
    ts.checked_sub(*span)
}

/// `Timestamp::since`.
#[verifier::external_body]
fn ts_since(ts: &jiff::Timestamp, other: &jiff::Timestamp) -> (r: Result<jiff::Span, jiff::Error>) {
    ts.since(*other)
}

/// `Timestamp::strftime`, written out; a malformed pattern is written as it is.
#[verifier::external_body]
fn ts_strftime(ts: &jiff::Timestamp, pat: &str) -> (r: String) {
    ts.strftime(pat).to_string()
}

/// `Timestamp::to_zoned`.
#[verifier::external_body]
fn ts_to_zoned(ts: &jiff::Timestamp, tz: jiff::tz::TimeZone) -> (r: jiff::Zoned) {
    ts.to_zoned(tz)
}

/// `civil::Date::new`: succeeds exactly when the year is in
/// `-9999..=9999`, the month in `1..=12` and the day between 1 and the
/// number of days of that month, as the crate documents.
#[verifier::external_body]
fn date_new(y: i16, m: i8, d: i8) -> (r: Result<jiff::civil::Date, jiff::Error>)
    ensures
        r is Ok <==> valid_date(y as int, m as int, d as int),
{
    jiff::civil::Date::new(y, m, d)
}

/// `<civil::Date as FromStr>::from_str`.
#[verifier::external_body]
fn date_parse(s: &str) -> (r: Result<jiff::civil::Date, jiff::Error>) {
    s.parse::<jiff::civil::Date>()
}

/// `<civil::Date as Display>::fmt`.
#[verifier::external_body]
fn date_to_string(d: &jiff::civil::Date) -> (r: String) {
    d.to_string()
}

/// `civil::Date::year`.
#[verifier::external_body]
fn date_year(d: &jiff::civil::Date) -> (r: i16) {
    d.year()
}

/// `civil::Date::month`.
#[verifier::external_body]
fn date_month(d: &jiff::civil::Date) -> (r: i8) {
    d.month()
}

/// `civil::Date::day`.
#[verifier::external_body]
fn date_day(d: &jiff::civil::Date) -> (r: i8) {
    d.day()
}

/// `civil::Date::checked_add` with a span.
#[verifier::external_body]
fn date_checked_add(d: &jiff::civil::Date, span: &jiff::Span) -> (r: Result<jiff::civil::Date, jiff::Error>) {
    d.checked_add(*span)
}

/// `civil::Date::checked_sub` with a span.
#[verifier::external_body]
fn date_checked_sub(d: &jiff::civil::Date, span: &jiff::Span) -> (r: Result<jiff::civil::Date, jiff::Error>) {
    d.checked_sub(*span)
}

/// `civil::Date::since`.
#[verifier::external_body]
fn date_since(d: &jiff::civil::Date, other: &jiff::civil::Date) -> (r: Result<jiff::Span, jiff::Error>) {
    d.since(*other)
}

/// `civil::Date::strftime`, written out.
#[verifier::external_body]
fn date_strftime(d: &jiff::civil::Date, pat: &str) -> (r: String) {
    d.strftime(pat).to_string()
}

/// `civil::Time::new`: succeeds exactly when the hour is in `0..=23`, the
/// minute and second in `0..=59` and the nanoseconds in
/// `0..=999_999_999`, as the crate documents.
#[verifier::external_body]
fn time_new(h: i8, mi: i8, s: i8, ns: i32) -> (r: Result<jiff::civil::Time, jiff::Error>)
    ensures
        r is Ok <==> valid_time(h as int, mi as int, s as int, ns as int),
{
    jiff::civil::Time::new(h, mi, s, ns)
}

/// `<civil::Time as FromStr>::from_str`.
#[verifier::external_body]
fn time_parse(s: &str) -> (r: Result<jiff::civil::Time, jiff::Error>) {
    s.parse::<jiff::civil::Time>()
}

/// `<civil::Time as Display>::fmt`.
#[verifier::external_body]
fn time_to_string(t: &jiff::civil::Time) -> (r: String) {
    t.to_string()
}

/// `civil::Time::hour`.
#[verifier::external_body]
fn time_hour(t: &jiff::civil::Time) -> (r: i8) {
    t.hour()
}

/// `civil::Time::minute`.
#[verifier::external_body]
fn time_minute(t: &jiff::civil::Time) -> (r: i8) {
    t.minute()
}

/// `civil::Time::second`.
#[verifier::external_body]
fn time_second(t: &jiff::civil::Time) -> (r: i8) {
    t.second()
}

/// `civil::Time::subsec_nanosecond`.
#[verifier::external_body]
fn time_subsec_nanosecond(t: &jiff::civil::Time) -> (r: i32) {
    t.subsec_nanosecond()
}

/// `civil::Time::strftime`, written out.
#[verifier::external_body]
fn time_strftime(t: &jiff::civil::Time, pat: &str) -> (r: String) {
    t.strftime(pat).to_string()
}

/// `civil::DateTime::new`: succeeds exactly when the date and the time
/// parts are valid (see `date_new` and `time_new`), as the crate documents.
#[verifier::external_body]
fn dt_new(y: i16, mo: i8, d: i8, h: i8, mi: i8, s: i8, ns: i32) -> (r: Result<jiff::civil::DateTime, jiff::Error>)
    ensures
        r is Ok <==> (valid_date(y as int, mo as int, d as int) && valid_time(h as int, mi as int, s as int, ns as int)),
{
    jiff::civil::DateTime::new(y, mo, d, h, mi, s, ns)
}

/// `<civil::DateTime as FromStr>::from_str`.
#[verifier::external_body]
fn dt_parse(s: &str) -> (r: Result<jiff::civil::DateTime, jiff::Error>) {
    s.parse::<jiff::civil::DateTime>()
}

/// `<civil::DateTime as Display>::fmt`.
#[verifier::external_body]
fn dt_to_string(dt: &jiff::civil::DateTime) -> (r: String) {
    dt.to_string()
}

/// `civil::DateTime::date`.
#[verifier::external_body]
fn dt_date(dt: &jiff::civil::DateTime) -> (r: jiff::civil::Date) {
    dt.date()
}

/// `civil::DateTime::time`.
#[verifier::external_body]
fn dt_time(dt: &jiff::civil::DateTime) -> (r: jiff::civil::Time) {
    dt.time()
}

/// `civil::DateTime::checked_add` with a span.
#[verifier::external_body]
fn dt_checked_add(dt: &jiff::civil::DateTime, span: &jiff::Span) -> (r: Result<jiff::civil::DateTime, jiff::Error>) {
    dt.checked_add(*span)
}

/// `civil::DateTime::checked_sub` with a span.
#[verifier::external_body]
fn dt_checked_sub(dt: &jiff::civil::DateTime, span: &jiff::Span) -> (r: Result<jiff::civil::DateTime, jiff::Error>) {
    dt.checked_sub(*span)
}

/// `civil::DateTime::since`.
#[verifier::external_body]
fn dt_since(dt: &jiff::civil::DateTime, other: &jiff::civil::DateTime) -> (r: Result<jiff::Span, jiff::Error>) {
    dt.since(*other)
}

/// `civil::DateTime::strftime`, written out.
#[verifier::external_body]
fn dt_strftime(dt: &jiff::civil::DateTime, pat: &str) -> (r: String) {
    dt.strftime(pat).to_string()
}

/// `civil::DateTime::to_zoned`.
#[verifier::external_body]
fn dt_to_zoned(dt: &jiff::civil::DateTime, tz: jiff::tz::TimeZone) -> (r: Result<jiff::Zoned, jiff::Error>) {
    dt.to_zoned(tz)
}

/// `tz::TimeZone::system`: the system's time zone, or one that behaves like
/// UTC when it cannot be found.  Nothing is stated of the result: it depends
/// on the machine.
#[verifier::external_body]
fn tz_system() -> (r: jiff::tz::TimeZone) {
    jiff::tz::TimeZone::system()
}

/// `<Zoned as FromStr>::from_str`.
#[verifier::external_body]
fn zoned_parse(s: &str) -> (r: Result<jiff::Zoned, jiff::Error>) {
    s.parse::<jiff::Zoned>()
}

/// `<Zoned as Display>::fmt`.
#[verifier::external_body]
fn zoned_to_string(z: &jiff::Zoned) -> (r: String) {
    z.to_string()
}

/// `Zoned::timestamp`.
#[verifier::external_body]
fn zoned_timestamp(z: &jiff::Zoned) -> (r: jiff::Timestamp) {
    z.timestamp()
}

/// `Zoned::datetime`.
#[verifier::external_body]
fn zoned_datetime(z: &jiff::Zoned) -> (r: jiff::civil::DateTime) {
    z.datetime()
}

/// `Zoned::date`.
#[verifier::external_body]
fn zoned_date(z: &jiff::Zoned) -> (r: jiff::civil::Date) {
    z.date()
}

/// `Zoned::time`.
#[verifier::external_body]
fn zoned_time(z: &jiff::Zoned) -> (r: jiff::civil::Time) {
    z.time()
}

/// `Zoned::time_zone`, cloned.
#[verifier::external_body]
fn zoned_time_zone(z: &jiff::Zoned) -> (r: jiff::tz::TimeZone) {
    z.time_zone().clone()
}

/// `Zoned::checked_add` with a span.
#[verifier::external_body]
fn zoned_checked_add(z: &jiff::Zoned, span: &jiff::Span) -> (r: Result<jiff::Zoned, jiff::Error>) {
    z.checked_add(*span)
}

/// `Zoned::checked_sub` with a span.
#[verifier::external_body]
fn zoned_checked_sub(z: &jiff::Zoned, span: &jiff::Span) -> (r: Result<jiff::Zoned, jiff::Error>) {
    z.checked_sub(*span)
}

/// `Zoned::since`.
#[verifier::external_body]
fn zoned_since(z: &jiff::Zoned, other: &jiff::Zoned) -> (r: Result<jiff::Span, jiff::Error>) {
    z.since(other)
}

/// `Zoned::strftime`, written out.
#[verifier::external_body]
fn zoned_strftime(z: &jiff::Zoned, pat: &str) -> (r: String) {
    z.strftime(pat).to_string()
}

/// `tz::TimeZone::get`: a zone of the time zone database.
#[verifier::external_body]
fn tz_get(name: &str) -> (r: Result<jiff::tz::TimeZone, jiff::Error>) {
    jiff::tz::TimeZone::get(name)
}

/// `tz::TimeZone::UTC`.
#[verifier::external_body]
fn tz_utc() -> (r: jiff::tz::TimeZone) {
    jiff::tz::TimeZone::UTC
}

/// `tz::TimeZone::iana_name`, as an owned string.
#[verifier::external_body]
fn tz_iana_name(tz: &jiff::tz::TimeZone) -> (r: Option<String>) {
    tz.iana_name().map(|n| n.to_string())
}

/// `tz::TimeZone::to_ambiguous_zoned`.
#[verifier::external_body]
fn tz_to_ambiguous_zoned(tz: &jiff::tz::TimeZone, dt: &jiff::civil::DateTime) -> (r: jiff::tz::AmbiguousZoned) {
    tz.to_ambiguous_zoned(*dt)
}

/// `tz::AmbiguousZoned::compatible`.
#[verifier::external_body]
fn az_compatible(az: jiff::tz::AmbiguousZoned) -> (r: Result<jiff::Zoned, jiff::Error>) {
    az.compatible()
}

/// `tz::AmbiguousZoned::earlier`.
#[verifier::external_body]
fn az_earlier(az: jiff::tz::AmbiguousZoned) -> (r: Result<jiff::Zoned, jiff::Error>) {
    az.earlier()
}

/// `tz::AmbiguousZoned::later`.
#[verifier::external_body]
fn az_later(az: jiff::tz::AmbiguousZoned) -> (r: Result<jiff::Zoned, jiff::Error>) {
    az.later()
}

/// `tz::AmbiguousZoned::disambiguate` with `Disambiguation::Reject`: an error for a gap or a fold.
#[verifier::external_body]
fn az_reject(az: jiff::tz::AmbiguousZoned) -> (r: Result<jiff::Zoned, jiff::Error>) {
    az.disambiguate(jiff::tz::Disambiguation::Reject)
}

/// `Span::new`: the empty span.
#[verifier::external_body]
fn span_new() -> (r: jiff::Span) {
    jiff::Span::new()
}

/// `Span::try_years`: the span with its years set; an error exactly when
/// `n` is outside `-19_998..=19_998`, as the crate documents.
#[verifier::external_body]
fn span_try_years(span: &jiff::Span, n: i64) -> (r: Result<jiff::Span, jiff::Error>)
    ensures
        r is Ok <==> -19_998 <= n <= 19_998,
{
    span.try_years(n)
}

/// `Span::try_months`: the span with its months set; an error exactly when
/// `n` is outside `-239_976..=239_976`, as the crate documents.
#[verifier::external_body]
fn span_try_months(span: &jiff::Span, n: i64) -> (r: Result<jiff::Span, jiff::Error>)
    ensures
        r is Ok <==> -239_976 <= n <= 239_976,
{
    span.try_months(n)
}

/// `Span::try_days`: the span with its days set; an error exactly when
/// `n` is outside `-7_304_484..=7_304_484`, as the crate documents.
#[verifier::external_body]
fn span_try_days(span: &jiff::Span, n: i64) -> (r: Result<jiff::Span, jiff::Error>)
    ensures
        r is Ok <==> -7_304_484 <= n <= 7_304_484,
{
    span.try_days(n)
}

/// `Span::try_hours`: the span with its hours set; an error exactly when
/// `n` is outside `-175_307_616..=175_307_616`, as the crate documents.
#[verifier::external_body]
fn span_try_hours(span: &jiff::Span, n: i64) -> (r: Result<jiff::Span, jiff::Error>)
    ensures
        r is Ok <==> -175_307_616 <= n <= 175_307_616,
{
    span.try_hours(n)
}

/// `Span::try_minutes`: the span with its minutes set; an error exactly when
/// `n` is outside `-10_518_456_960..=10_518_456_960`, as the crate documents.
#[verifier::external_body]
fn span_try_minutes(span: &jiff::Span, n: i64) -> (r: Result<jiff::Span, jiff::Error>)
    ensures
        r is Ok <==> -10_518_456_960 <= n <= 10_518_456_960,
{
    span.try_minutes(n)
}

/// `Span::try_seconds`: the span with its seconds set; an error exactly when
/// `n` is outside `-631_107_417_600..=631_107_417_600`, as the crate documents.
#[verifier::external_body]
fn span_try_seconds(span: &jiff::Span, n: i64) -> (r: Result<jiff::Span, jiff::Error>)
    ensures
        r is Ok <==> -631_107_417_600 <= n <= 631_107_417_600,
{
    span.try_seconds(n)
}

/// `Span::try_nanoseconds`: the span with its nanoseconds set; an error exactly when
/// `n` is outside `-9_223_372_036_854_775_807..=9_223_372_036_854_775_807`, as the crate documents.
#[verifier::external_body]
fn span_try_nanoseconds(span: &jiff::Span, n: i64) -> (r: Result<jiff::Span, jiff::Error>)
    ensures
        r is Ok <==> -9_223_372_036_854_775_807 <= n <= 9_223_372_036_854_775_807,
{
    span.try_nanoseconds(n)
}

/// `Span::get_years`.
#[verifier::external_body]
fn span_get_years(span: &jiff::Span) -> (r: i16) {
    span.get_years()
}

/// `Span::get_months`.
#[verifier::external_body]
fn span_get_months(span: &jiff::Span) -> (r: i32) {
    span.get_months()
}

/// `Span::get_days`.
#[verifier::external_body]
fn span_get_days(span: &jiff::Span) -> (r: i32) {
    span.get_days()
}

/// `Span::get_hours`.
#[verifier::external_body]
fn span_get_hours(span: &jiff::Span) -> (r: i32) {
    span.get_hours()
}

/// `Span::get_minutes`.
#[verifier::external_body]
fn span_get_minutes(span: &jiff::Span) -> (r: i64) {
    span.get_minutes()
}

/// `Span::get_seconds`.
#[verifier::external_body]
fn span_get_seconds(span: &jiff::Span) -> (r: i64) {
    span.get_seconds()
}

/// `Span::get_nanoseconds`.
#[verifier::external_body]
fn span_get_nanoseconds(span: &jiff::Span) -> (r: i64) {
    span.get_nanoseconds()
}

/// `<Span as Neg>::neg`.
#[verifier::external_body]
fn span_negate(span: &jiff::Span) -> (r: jiff::Span) {
    -*span
}

/// `<Span as Display>::fmt`.
#[verifier::external_body]
fn span_to_string(span: &jiff::Span) -> (r: String) {
    span.to_string()
}

/// `<jiff::Error as Display>::fmt`: the crate's description of the error.
#[verifier::external_body]
fn jiff_error_text(e: &jiff::Error) -> (r: String) {
    e.to_string()
}

// ── Results and errors ──────────────────────────────────────────────────────

/// What a date and time method gives back: a value, or a new instance of a
/// class with its fields, which the caller allocates.
pub enum DtValue {
    Value(VmValue),
    NewInstance { class_name: String, fields: Vec<(String, VmValue)> },
}

/// An error raised with a string message.
pub open spec fn is_raised(e: VmError, m: Seq<char>) -> bool {
    e matches VmError::Raised(VmValue::Str(s)) && s@ == m
}

fn raise(m: String) -> (e: VmError)
    ensures
        is_raised(e, m@),
{
    VmError::Raised(VmValue::Str(m))
}

fn raise_str(m: &str) -> (e: VmError)
    ensures
        is_raised(e, m@),
{
    raise(String::from_str(m))
}

/// A `jiff` error, raised with the crate's description.
fn jiff_err(e: jiff::Error) -> (r: VmError)
    ensures
        r matches VmError::Raised(VmValue::Str(_)),
{
    raise(jiff_error_text(&e))
}

/// `Class.method expects N arg(s), got M`.
pub open spec fn wrong_args_message(class: Seq<char>, method: Seq<char>, expected: nat, got: nat) -> Seq<char> {
    class + "."@ + method + " expects "@ + nat_digits(expected) + " arg(s), got "@ + nat_digits(got)
}

fn wrong_args(class: &str, method: &str, expected: usize, got: usize, line: u32) -> (e: VmError)
    ensures
        is_type_error(e, wrong_args_message(class@, method@, expected as nat, got as nat), line),
{
    let mut m = String::from_str(class);
    m.append(".");
    m.append(method);
    m.append(" expects ");
    m.append(u64_to_string(expected as u64).as_str());
    m.append(" arg(s), got ");
    m.append(u64_to_string(got as u64).as_str());
    VmError::TypeError { message: m, line }
}

// ── Fields ──────────────────────────────────────────────────────────────────

/// The integer in field `k`, or 0 when there is none.
pub open spec fn field_int(f: Seq<(String, VmValue)>, k: Seq<char>) -> i64 {
    match lookup(f, k) {
        Some(VmValue::Int(n)) => n,
        _ => 0,
    }
}

/// The string in field `k`, or the empty string when there is none.
pub open spec fn field_str(f: Seq<(String, VmValue)>, k: Seq<char>) -> Seq<char> {
    match lookup(f, k) {
        Some(VmValue::Str(s)) => s@,
        _ => Seq::empty(),
    }
}

fn get_int(f: &Vec<(String, VmValue)>, key: &str) -> (n: i64)
    ensures
        n == field_int(f@, key@),
{
    let found = find_key(f, key);
    proof {
        lemma_key_index_bounds(f@, key@);
    }
    match found {
        Some(i) => match &f[i].1 {
            VmValue::Int(n) => *n,
            _ => 0,
        },
        None => 0,
    }
}

fn get_str(f: &Vec<(String, VmValue)>, key: &str) -> (s: String)
    ensures
        s@ == field_str(f@, key@),
{
    let found = find_key(f, key);
    proof {
        lemma_key_index_bounds(f@, key@);
    }
    match found {
        Some(i) => match &f[i].1 {
            VmValue::Str(s) => s.clone(),
            _ => String::new(),
        },
        None => String::new(),
    }
}

/// The names of the fields, in order.
pub open spec fn field_names(f: Seq<(String, VmValue)>) -> Seq<Seq<char>> {
    f.map_values(|e: (String, VmValue)| e.0@)
}

// ── Arguments ───────────────────────────────────────────────────────────────

/// `ctx: arg N must be an integer` or `ctx: missing arg N`, N counted from 1.
pub open spec fn int_arg_spec(args: Seq<VmValue>, idx: nat, ctx: Seq<char>) -> Result<i64, Seq<char>> {
    if idx < args.len() {
        match args[idx as int] {
            VmValue::Int(n) => Ok(n),
            _ => Err(ctx + ": arg "@ + nat_digits(idx + 1) + " must be an integer"@),
        }
    } else {
        Err(ctx + ": missing arg "@ + nat_digits(idx + 1))
    }
}

/// `ctx: arg N must be a string` or `ctx: missing arg N`.
pub open spec fn str_arg_spec(args: Seq<VmValue>, idx: nat, ctx: Seq<char>) -> Result<Seq<char>, Seq<char>> {
    if idx < args.len() {
        match args[idx as int] {
            VmValue::Str(s) => Ok(s@),
            _ => Err(ctx + ": arg "@ + nat_digits(idx + 1) + " must be a string"@),
        }
    } else {
        Err(ctx + ": missing arg "@ + nat_digits(idx + 1))
    }
}

fn arg_message(ctx: &str, mid: &str, idx: usize, tail: &str) -> (m: String)
    requires
        idx < usize::MAX,
    ensures
        m@ == ctx@ + mid@ + nat_digits((idx + 1) as nat) + tail@,
{
    let mut m = String::from_str(ctx);
    m.append(mid);
    m.append(u64_to_string((idx + 1) as u64).as_str());
    m.append(tail);
    m
}

fn int_arg(args: &[VmValue], idx: usize, ctx: &str) -> (r: Result<i64, VmError>)
    requires
        idx < 8,
    ensures
        match int_arg_spec(args@, idx as nat, ctx@) {
            Ok(n) => r == Ok::<i64, VmError>(n),
            Err(m) => r matches Err(e) && is_raised(e, m),
        },
{
    if idx < args.len() {
        match &args[idx] {
            VmValue::Int(n) => Ok(*n),
            _ => Err(raise(arg_message(ctx, ": arg ", idx, " must be an integer"))),
        }
    } else {
        proof {
            reveal_strlit("");
        }
        Err(raise(arg_message(ctx, ": missing arg ", idx, "")))
    }
}

fn str_arg(args: &[VmValue], idx: usize, ctx: &str) -> (r: Result<String, VmError>)
    requires
        idx < 8,
    ensures
        match str_arg_spec(args@, idx as nat, ctx@) {
            Ok(s) => r matches Ok(t) && t@ == s,
            Err(m) => r matches Err(e) && is_raised(e, m),
        },
{
    if idx < args.len() {
        match &args[idx] {
            VmValue::Str(s) => Ok(s.clone()),
            _ => Err(raise(arg_message(ctx, ": arg ", idx, " must be a string"))),
        }
    } else {
        proof {
            reveal_strlit("");
        }
        Err(raise(arg_message(ctx, ": missing arg ", idx, "")))
    }
}

// ── Class and method names ──────────────────────────────────────────────────

fn is(s: &str, lit: &str) -> (r: bool)
    ensures
        r == (s@ == lit@),
{
    String::from_str(s) == String::from_str(lit)
}

/// The date and time classes.
#[derive(PartialEq, Eq, Structural)]
pub enum DtClass {
    Instant,
    Date,
    Time,
    DateTime,
    Zoned,
    Duration,
    Other,
}

/// The class a name denotes.
pub open spec fn dt_class(c: Seq<char>) -> DtClass {
    if c == "Instant"@ {
        DtClass::Instant
    } else if c == "Date"@ {
        DtClass::Date
    } else if c == "Time"@ {
        DtClass::Time
    } else if c == "DateTime"@ {
        DtClass::DateTime
    } else if c == "ZonedDateTime"@ {
        DtClass::Zoned
    } else if c == "Duration"@ {
        DtClass::Duration
    } else {
        DtClass::Other
    }
}

/// The method names of the date and time classes.
#[derive(PartialEq, Eq, Structural)]
pub enum DtMethod {
    Now,
    OfEpochSeconds,
    OfEpochMillis,
    Parse,
    Today,
    Of,
    OfNanos,
    OfCompatible,
    OfBefore,
    OfAfter,
    FromInstant,
    OfYears,
    OfMonths,
    OfDays,
    OfHours,
    OfMinutes,
    OfSeconds,
    ToS,
    Inspect,
    EpochSeconds,
    EpochMillis,
    Add,
    Sub,
    Before,
    After,
    Equal,
    Format,
    InTimezone,
    Year,
    Month,
    Day,
    DayOfWeek,
    DayOfYear,
    DaysInMonth,
    NextDay,
    PrevDay,
    Hour,
    Minute,
    Second,
    Nano,
    Date,
    Time,
    ToInstant,
    Timezone,
    Datetime,
    ToUtc,
    WithTimezone,
    Years,
    Months,
    Days,
    Hours,
    Minutes,
    Seconds,
    Nanos,
    Negate,
    Abs,
    Other,
}

/// The method a name denotes.
pub open spec fn dt_method(m: Seq<char>) -> DtMethod {
    if m == "now"@ {
        DtMethod::Now
    } else if m == "of_epoch_seconds"@ {
        DtMethod::OfEpochSeconds
    } else if m == "of_epoch_millis"@ {
        DtMethod::OfEpochMillis
    } else if m == "parse"@ {
        DtMethod::Parse
    } else if m == "today"@ {
        DtMethod::Today
    } else if m == "of"@ {
        DtMethod::Of
    } else if m == "of_nanos"@ {
        DtMethod::OfNanos
    } else if m == "of_compatible"@ {
        DtMethod::OfCompatible
    } else if m == "of_before"@ {
        DtMethod::OfBefore
    } else if m == "of_after"@ {
        DtMethod::OfAfter
    } else if m == "from_instant"@ {
        DtMethod::FromInstant
    } else if m == "of_years"@ {
        DtMethod::OfYears
    } else if m == "of_months"@ {
        DtMethod::OfMonths
    } else if m == "of_days"@ {
        DtMethod::OfDays
    } else if m == "of_hours"@ {
        DtMethod::OfHours
    } else if m == "of_minutes"@ {
        DtMethod::OfMinutes
    } else if m == "of_seconds"@ {
        DtMethod::OfSeconds
    } else if m == "to_s"@ {
        DtMethod::ToS
    } else if m == "inspect"@ {
        DtMethod::Inspect
    } else if m == "epoch_seconds"@ {
        DtMethod::EpochSeconds
    } else if m == "epoch_millis"@ {
        DtMethod::EpochMillis
    } else if m == "add"@ {
        DtMethod::Add
    } else if m == "sub"@ {
        DtMethod::Sub
    } else if m == "before?"@ {
        DtMethod::Before
    } else if m == "after?"@ {
        DtMethod::After
    } else if m == "equal?"@ {
        DtMethod::Equal
    } else if m == "format"@ {
        DtMethod::Format
    } else if m == "in_timezone"@ {
        DtMethod::InTimezone
    } else if m == "year"@ {
        DtMethod::Year
    } else if m == "month"@ {
        DtMethod::Month
    } else if m == "day"@ {
        DtMethod::Day
    } else if m == "day_of_week"@ {
        DtMethod::DayOfWeek
    } else if m == "day_of_year"@ {
        DtMethod::DayOfYear
    } else if m == "days_in_month"@ {
        DtMethod::DaysInMonth
    } else if m == "next_day"@ {
        DtMethod::NextDay
    } else if m == "prev_day"@ {
        DtMethod::PrevDay
    } else if m == "hour"@ {
        DtMethod::Hour
    } else if m == "minute"@ {
        DtMethod::Minute
    } else if m == "second"@ {
        DtMethod::Second
    } else if m == "nano"@ {
        DtMethod::Nano
    } else if m == "date"@ {
        DtMethod::Date
    } else if m == "time"@ {
        DtMethod::Time
    } else if m == "to_instant"@ {
        DtMethod::ToInstant
    } else if m == "timezone"@ {
        DtMethod::Timezone
    } else if m == "datetime"@ {
        DtMethod::Datetime
    } else if m == "to_utc"@ {
        DtMethod::ToUtc
    } else if m == "with_timezone"@ {
        DtMethod::WithTimezone
    } else if m == "years"@ {
        DtMethod::Years
    } else if m == "months"@ {
        DtMethod::Months
    } else if m == "days"@ {
        DtMethod::Days
    } else if m == "hours"@ {
        DtMethod::Hours
    } else if m == "minutes"@ {
        DtMethod::Minutes
    } else if m == "seconds"@ {
        DtMethod::Seconds
    } else if m == "nanos"@ {
        DtMethod::Nanos
    } else if m == "negate"@ {
        DtMethod::Negate
    } else if m == "abs"@ {
        DtMethod::Abs
    } else {
        DtMethod::Other
    }
}

fn class_of(c: &str) -> (r: DtClass)
    ensures
        r == dt_class(c@),
{
    if is(c, "Instant") {
        DtClass::Instant
    } else if is(c, "Date") {
        DtClass::Date
    } else if is(c, "Time") {
        DtClass::Time
    } else if is(c, "DateTime") {
        DtClass::DateTime
    } else if is(c, "ZonedDateTime") {
        DtClass::Zoned
    } else if is(c, "Duration") {
        DtClass::Duration
    } else {
        DtClass::Other
    }
}

fn method_of(m: &str) -> (r: DtMethod)
    ensures
        r == dt_method(m@),
{
    if is(m, "now") {
        DtMethod::Now
    } else if is(m, "of_epoch_seconds") {
        DtMethod::OfEpochSeconds
    } else if is(m, "of_epoch_millis") {
        DtMethod::OfEpochMillis
    } else if is(m, "parse") {
        DtMethod::Parse
    } else if is(m, "today") {
        DtMethod::Today
    } else if is(m, "of") {
        DtMethod::Of
    } else if is(m, "of_nanos") {
        DtMethod::OfNanos
    } else if is(m, "of_compatible") {
        DtMethod::OfCompatible
    } else if is(m, "of_before") {
        DtMethod::OfBefore
    } else if is(m, "of_after") {
        DtMethod::OfAfter
    } else if is(m, "from_instant") {
        DtMethod::FromInstant
    } else if is(m, "of_years") {
        DtMethod::OfYears
    } else if is(m, "of_months") {
        DtMethod::OfMonths
    } else if is(m, "of_days") {
        DtMethod::OfDays
    } else if is(m, "of_hours") {
        DtMethod::OfHours
    } else if is(m, "of_minutes") {
        DtMethod::OfMinutes
    } else if is(m, "of_seconds") {
        DtMethod::OfSeconds
    } else if is(m, "to_s") {
        DtMethod::ToS
    } else if is(m, "inspect") {
        DtMethod::Inspect
    } else if is(m, "epoch_seconds") {
        DtMethod::EpochSeconds
    } else if is(m, "epoch_millis") {
        DtMethod::EpochMillis
    } else if is(m, "add") {
        DtMethod::Add
    } else if is(m, "sub") {
        DtMethod::Sub
    } else if is(m, "before?") {
        DtMethod::Before
    } else if is(m, "after?") {
        DtMethod::After
    } else if is(m, "equal?") {
        DtMethod::Equal
    } else if is(m, "format") {
        DtMethod::Format
    } else if is(m, "in_timezone") {
        DtMethod::InTimezone
    } else if is(m, "year") {
        DtMethod::Year
    } else if is(m, "month") {
        DtMethod::Month
    } else if is(m, "day") {
        DtMethod::Day
    } else if is(m, "day_of_week") {
        DtMethod::DayOfWeek
    } else if is(m, "day_of_year") {
        DtMethod::DayOfYear
    } else if is(m, "days_in_month") {
        DtMethod::DaysInMonth
    } else if is(m, "next_day") {
        DtMethod::NextDay
    } else if is(m, "prev_day") {
        DtMethod::PrevDay
    } else if is(m, "hour") {
        DtMethod::Hour
    } else if is(m, "minute") {
        DtMethod::Minute
    } else if is(m, "second") {
        DtMethod::Second
    } else if is(m, "nano") {
        DtMethod::Nano
    } else if is(m, "date") {
        DtMethod::Date
    } else if is(m, "time") {
        DtMethod::Time
    } else if is(m, "to_instant") {
        DtMethod::ToInstant
    } else if is(m, "timezone") {
        DtMethod::Timezone
    } else if is(m, "datetime") {
        DtMethod::Datetime
    } else if is(m, "to_utc") {
        DtMethod::ToUtc
    } else if is(m, "with_timezone") {
        DtMethod::WithTimezone
    } else if is(m, "years") {
        DtMethod::Years
    } else if is(m, "months") {
        DtMethod::Months
    } else if is(m, "days") {
        DtMethod::Days
    } else if is(m, "hours") {
        DtMethod::Hours
    } else if is(m, "minutes") {
        DtMethod::Minutes
    } else if is(m, "seconds") {
        DtMethod::Seconds
    } else if is(m, "nanos") {
        DtMethod::Nanos
    } else if is(m, "negate") {
        DtMethod::Negate
    } else if is(m, "abs") {
        DtMethod::Abs
    } else {
        DtMethod::Other
    }
}

// ── Civil values by their fields ────────────────────────────────────────────

/// The day after `y-m-d` in the proleptic Gregorian calendar.
pub open spec fn next_date(y: int, m: int, d: int) -> (int, int, int) {
    if d < month_days(y, m) {
        (y, m, d + 1)
    } else if m < 12 {
        (y, m + 1, 1)
    } else {
        (y + 1, 1, 1)
    }
}

/// The day before `y-m-d` in the proleptic Gregorian calendar.
pub open spec fn prev_date(y: int, m: int, d: int) -> (int, int, int) {
    if d > 1 {
        (y, m, d - 1)
    } else if m > 1 {
        (y, m - 1, month_days(y, m - 1))
    } else {
        (y - 1, 12, 31)
    }
}

/// The fields of a date instance holding `k`: `_y`, `_mo`, `_d` in that order.
pub open spec fn date_fields(fs: Seq<(String, VmValue)>, k: (int, int, int)) -> bool {
    &&& field_names(fs) == seq!["_y"@, "_mo"@, "_d"@]
    &&& field_int(fs, "_y"@) == k.0
    &&& field_int(fs, "_mo"@) == k.1
    &&& field_int(fs, "_d"@) == k.2
}

/// `next_day` and `prev_day` on a valid date: when the neighbouring day is
/// within the supported years, a new date holding it.
pub open spec fn day_step_ok(m: Seq<char>, f: Seq<(String, VmValue)>, r: Result<DtValue, VmError>) -> bool {
    (dt_method(m) == DtMethod::NextDay || dt_method(m) == DtMethod::PrevDay) && key_valid(DtClass::Date, f) ==> {
        let k = date_key(f);
        let n = if dt_method(m) == DtMethod::NextDay {
            next_date(k[0] as int, k[1] as int, k[2] as int)
        } else {
            prev_date(k[0] as int, k[1] as int, k[2] as int)
        };
        -9999 <= n.0 <= 9999 ==> (r matches Ok(DtValue::NewInstance { class_name: c, fields: fs }) && c@ == "Date"@
            && date_fields(fs@, n))
    }
}

fn month_days_of(y: i64, m: i64) -> (r: i64)
    requires
        -9999 <= y <= 9999,
        1 <= m <= 12,
    ensures
        r == month_days(y as int, m as int),
{
    if m == 2 {
        if y % 4 == 0 && (y % 100 != 0 || y % 400 == 0) {
            29
        } else {
            28
        }
    } else if m == 4 || m == 6 || m == 9 || m == 11 {
        30
    } else {
        31
    }
}

fn next_day_of(y: i64, m: i64, d: i64) -> (r: (i64, i64, i64))
    requires
        valid_date(y as int, m as int, d as int),
    ensures
        (r.0 as int, r.1 as int, r.2 as int) == next_date(y as int, m as int, d as int),
{
    if d < month_days_of(y, m) {
        (y, m, d + 1)
    } else if m < 12 {
        (y, m + 1, 1)
    } else {
        (y + 1, 1, 1)
    }
}

fn prev_day_of(y: i64, m: i64, d: i64) -> (r: (i64, i64, i64))
    requires
        valid_date(y as int, m as int, d as int),
    ensures
        (r.0 as int, r.1 as int, r.2 as int) == prev_date(y as int, m as int, d as int),
{
    if d > 1 {
        (y, m, d - 1)
    } else if m > 1 {
        (y, m - 1, month_days_of(y, m - 1))
    } else {
        (y - 1, 12, 31)
    }
}

/// The days of the months of year `y` before month `m`.
pub open spec fn days_before_month(y: int, m: int) -> int
    decreases m,
{
    if m <= 1 {
        0
    } else {
        days_before_month(y, m - 1) + month_days(y, m - 1)
    }
}

/// The leap years from year 1 through year `y` (counted negatively for the
/// years up to 0 when `y` is below 0).
pub open spec fn leaps_through(y: int) -> int {
    y / 4 - y / 100 + y / 400
}

/// The number of a day, counting 0001-01-01 of the proleptic Gregorian
/// calendar as day 1.
pub open spec fn day_number(y: int, m: int, d: int) -> int {
    365 * (y - 1) + leaps_through(y - 1) + days_before_month(y, m) + d
}

/// The weekday of a date, Monday 1 to Sunday 7; 0001-01-01 was a Monday.
pub open spec fn weekday_number(y: int, m: int, d: int) -> int {
    (day_number(y, m, d) - 1) % 7 + 1
}

/// What `day_of_week`, `day_of_year` and `days_in_month` give for a date
/// instance: on a valid date, the weekday (Monday 1), the day's ordinal in
/// its year and the length of its month; on fields that form no date, an
/// error.
pub open spec fn calendar_ok(m: Seq<char>, f: Seq<(String, VmValue)>, r: Result<DtValue, VmError>) -> bool {
    let k = date_key(f);
    let (y, mo, d) = (k[0] as int, k[1] as int, k[2] as int);
    let n = if dt_method(m) == DtMethod::DayOfWeek {
        weekday_number(y, mo, d)
    } else if dt_method(m) == DtMethod::DayOfYear {
        days_before_month(y, mo) + d
    } else {
        month_days(y, mo)
    };
    (dt_method(m) == DtMethod::DayOfWeek || dt_method(m) == DtMethod::DayOfYear || dt_method(m)
        == DtMethod::DaysInMonth) ==> if key_valid(DtClass::Date, f) {
        r == Ok::<DtValue, VmError>(DtValue::Value(VmValue::Int(n as i64)))
    } else {
        r is Err
    }
}

fn days_before_month_of(y: i64, m: i64) -> (r: i64)
    requires
        -9999 <= y <= 9999,
        1 <= m <= 12,
    ensures
        r == days_before_month(y as int, m as int),
        0 <= r <= 341,
{
    let mut total: i64 = 0;
    let mut k: i64 = 1;
    while k < m
        invariant
            -9999 <= y <= 9999,
            1 <= k <= m <= 12,
            total == days_before_month(y as int, k as int),
            0 <= total <= 31 * (k - 1),
        decreases m - k,
    {
        total = total + month_days_of(y, k);
        k = k + 1;
    }
    total
}

fn weekday_of(y: i64, m: i64, d: i64) -> (r: i64)
    requires
        valid_date(y as int, m as int, d as int),
    ensures
        r == weekday_number(y as int, m as int, d as int),
{
    // Shifted by 25 cycles of 400 years, which keep both the calendar and
    // the weekdays, the year is positive and division truncates as it floors.
    let p: i64 = y + 9999;
    let leaps: i64 = p / 4 - p / 100 + p / 400;
    let before = days_before_month_of(y, m);
    let n: i64 = 365 * p + leaps + before + d;
    proof {
        let a = y - 1;
        assert((a + 10000) / 4 == a / 4 + 2500) by (nonlinear_arith);
        assert((a + 10000) / 100 == a / 100 + 100) by (nonlinear_arith);
        assert((a + 10000) / 400 == a / 400 + 25) by (nonlinear_arith);
        assert(n == day_number(y as int, m as int, d as int) + 3652425);
        let x = day_number(y as int, m as int, d as int) - 1;
        assert((x + 7 * 521775) % 7 == x % 7) by (nonlinear_arith);
    }
    (n - 1) % 7 + 1
}

proof fn lemma_date_fields(fs: Seq<(String, VmValue)>, y: int, m: int, d: int)
    requires
        fs.len() == 3,
        fs[0].0@ == "_y"@,
        fs[1].0@ == "_mo"@,
        fs[2].0@ == "_d"@,
        fs[0].1 == VmValue::Int(y as i64),
        fs[1].1 == VmValue::Int(m as i64),
        fs[2].1 == VmValue::Int(d as i64),
        i64::MIN <= y <= i64::MAX,
        i64::MIN <= m <= i64::MAX,
        i64::MIN <= d <= i64::MAX,
    ensures
        date_fields(fs, (y, m, d)),
{
    reveal_strlit("_y");
    reveal_strlit("_mo");
    reveal_strlit("_d");
    reveal_with_fuel(crate::typechecker::key_index, 4);
    assert(field_names(fs) =~= seq!["_y"@, "_mo"@, "_d"@]);
    assert(fs.drop_last().drop_last().drop_last() =~= Seq::<(String, VmValue)>::empty());
    assert(fs.drop_last().drop_last().last() == fs[0]);
    assert(fs.drop_last().last() == fs[1]);
    assert(fs.last() == fs[2]);
    assert("_y"@.len() == 2 && "_mo"@.len() == 3 && "_d"@.len() == 2);
    assert("_y"@[1] == 'y' && "_d"@[1] == 'd');
    assert("_y"@ != "_mo"@);
    assert("_y"@ != "_d"@);
    assert("_mo"@ != "_d"@);
}

/// The year, month and day of a date's fields, each at its component's width.
pub open spec fn date_key(f: Seq<(String, VmValue)>) -> Seq<i64> {
    seq![
        field_int(f, "_y"@) as i16 as i64,
        field_int(f, "_mo"@) as i8 as i64,
        field_int(f, "_d"@) as i8 as i64,
    ]
}

/// The hour, minute, second and nanoseconds of a time's fields, each at its
/// component's width.
pub open spec fn time_key(f: Seq<(String, VmValue)>) -> Seq<i64> {
    seq![
        field_int(f, "_h"@) as i8 as i64,
        field_int(f, "_mi"@) as i8 as i64,
        field_int(f, "_s"@) as i8 as i64,
        field_int(f, "_ns"@) as i32 as i64,
    ]
}

/// The components by which values of a civil class are ordered: date, time,
/// or date then time.
pub open spec fn civil_key(c: DtClass, f: Seq<(String, VmValue)>) -> Seq<i64> {
    match c {
        DtClass::Date => date_key(f),
        DtClass::Time => time_key(f),
        _ => date_key(f) + time_key(f),
    }
}

/// The fields form a value of the civil class.
pub open spec fn key_valid(c: DtClass, f: Seq<(String, VmValue)>) -> bool {
    let d = date_key(f);
    let t = time_key(f);
    match c {
        DtClass::Date => valid_date(d[0] as int, d[1] as int, d[2] as int),
        DtClass::Time => valid_time(t[0] as int, t[1] as int, t[2] as int, t[3] as int),
        _ => valid_date(d[0] as int, d[1] as int, d[2] as int) && valid_time(t[0] as int, t[1] as int, t[2] as int, t[3] as int),
    }
}

/// Lexicographic order of equally long component sequences: the order of
/// dates, times and date-times.
pub open spec fn lex_lt(a: Seq<i64>, b: Seq<i64>) -> bool
    decreases a.len(),
{
    if a.len() == 0 || b.len() == 0 {
        false
    } else {
        a[0] < b[0] || (a[0] == b[0] && lex_lt(a.drop_first(), b.drop_first()))
    }
}

/// The name of a civil class.
pub open spec fn civil_class_name(c: DtClass) -> Seq<char> {
    match c {
        DtClass::Date => "Date"@,
        DtClass::Time => "Time"@,
        _ => "DateTime"@,
    }
}

/// `before?`, `after?` and `equal?` on a date, a time or a date and time:
/// the argument must be an instance of the same class; both must be valid
/// values; the answer compares their components in order.
pub open spec fn compare_call_ok(
    heap: &GcHeap<HeapObject>,
    c: DtClass,
    m: Seq<char>,
    f: Seq<(String, VmValue)>,
    args: Seq<VmValue>,
    r: Result<DtValue, VmError>,
) -> bool {
    (c == DtClass::Date || c == DtClass::Time || c == DtClass::DateTime) && (dt_method(m) == DtMethod::Before || dt_method(m)
        == DtMethod::After || dt_method(m) == DtMethod::Equal) && args.len() == 1 ==> match args[0] {
        VmValue::Instance { class_name: k, fields: g } => if k@ == civil_class_name(c) && key_valid(c, heap.fields(g))
            && key_valid(c, f) {
            r == Ok::<DtValue, VmError>(
                DtValue::Value(
                    VmValue::Bool(
                        if dt_method(m) == DtMethod::Before {
                            lex_lt(civil_key(c, f), civil_key(c, heap.fields(g)))
                        } else if dt_method(m) == DtMethod::After {
                            lex_lt(civil_key(c, heap.fields(g)), civil_key(c, f))
                        } else {
                            civil_key(c, f) == civil_key(c, heap.fields(g))
                        },
                    ),
                ),
            )
        } else {
            r is Err
        },
        _ => r is Err,
    }
}

/// The instant of an `Instant` or a zoned date and time, in nanoseconds
/// after the epoch: its seconds, then its nanoseconds at their width.
pub open spec fn epoch_nanos(f: Seq<(String, VmValue)>) -> int {
    field_int(f, "_secs"@) as int * 1_000_000_000 + field_int(f, "_ns"@) as i32 as int
}

/// `before?`, `after?` and `equal?` on an instant or a zoned date and time:
/// the argument must be an instance of the same class, and an answer
/// compares the two instants.
/// `Instant#sub` of another instant: the duration between them, in hours,
/// minutes, seconds and nanoseconds (see `instant_diff_vals`), whenever the
/// difference in nanoseconds fits in 64 bits.
pub open spec fn instant_sub_ok(
    heap: &GcHeap<HeapObject>,
    c: DtClass,
    m: Seq<char>,
    f: Seq<(String, VmValue)>,
    args: Seq<VmValue>,
    r: Result<DtValue, VmError>,
) -> bool {
    c == DtClass::Instant && dt_method(m) == DtMethod::Sub && args.len() == 1 ==> match args[0] {
        VmValue::Instance { class_name: k, fields: g } => (k@ == "Instant"@ && -9_223_372_036_854_775_807 <= epoch_nanos(f)
            - epoch_nanos(heap.fields(g)) <= 9_223_372_036_854_775_807 && r is Ok) ==> (r matches Ok(
            DtValue::NewInstance { class_name: c2, fields: fs },
        ) && c2@ == "Duration"@ && int_fields(fs@, span_field_names(), instant_diff_vals(f, heap.fields(g)))),
        _ => true,
    }
}

pub open spec fn instant_compare_ok(
    heap: &GcHeap<HeapObject>,
    c: DtClass,
    m: Seq<char>,
    f: Seq<(String, VmValue)>,
    args: Seq<VmValue>,
    r: Result<DtValue, VmError>,
) -> bool {
    (c == DtClass::Instant || c == DtClass::Zoned) && (dt_method(m) == DtMethod::Before || dt_method(m) == DtMethod::After
        || dt_method(m) == DtMethod::Equal) && args.len() == 1 ==> match args[0] {
        VmValue::Instance { class_name: k, fields: g } => if k@ == (if c == DtClass::Instant {
            "Instant"@
        } else {
            "ZonedDateTime"@
        }) {
            r is Ok ==> r == Ok::<DtValue, VmError>(
                DtValue::Value(
                    VmValue::Bool(
                        if dt_method(m) == DtMethod::Before {
                            epoch_nanos(f) < epoch_nanos(heap.fields(g))
                        } else if dt_method(m) == DtMethod::After {
                            epoch_nanos(heap.fields(g)) < epoch_nanos(f)
                        } else {
                            epoch_nanos(f) == epoch_nanos(heap.fields(g))
                        },
                    ),
                ),
            )
        } else {
            r is Err
        },
        _ => r is Err,
    }
}

fn instant_nanos(f: &Vec<(String, VmValue)>) -> (n: i128)
    ensures
        n == epoch_nanos(f@),
{
    (get_int(f, "_secs") as i128) * 1_000_000_000 + (get_int(f, "_ns") as i32 as i128)
}

fn date_key_vec(f: &Vec<(String, VmValue)>) -> (k: Vec<i64>)
    ensures
        k@ == date_key(f@),
{
    let mut k: Vec<i64> = Vec::new();
    k.push(get_int(f, "_y") as i16 as i64);
    k.push(get_int(f, "_mo") as i8 as i64);
    k.push(get_int(f, "_d") as i8 as i64);
    assert(k@ =~= date_key(f@));
    k
}

fn time_key_vec(f: &Vec<(String, VmValue)>) -> (k: Vec<i64>)
    ensures
        k@ == time_key(f@),
{
    let mut k: Vec<i64> = Vec::new();
    k.push(get_int(f, "_h") as i8 as i64);
    k.push(get_int(f, "_mi") as i8 as i64);
    k.push(get_int(f, "_s") as i8 as i64);
    k.push(get_int(f, "_ns") as i32 as i64);
    assert(k@ =~= time_key(f@));
    k
}

fn datetime_key_vec(f: &Vec<(String, VmValue)>) -> (k: Vec<i64>)
    ensures
        k@ == date_key(f@) + time_key(f@),
{
    let mut k = date_key_vec(f);
    let mut t = time_key_vec(f);
    k.append(&mut t);
    k
}

/// Whether `a` orders strictly before `b`, component by component.
fn lex_less(a: &Vec<i64>, b: &Vec<i64>) -> (r: bool)
    requires
        a@.len() == b@.len(),
    ensures
        r == lex_lt(a@, b@),
{
    let mut i: usize = 0;
    assert(a@.skip(0) =~= a@);
    assert(b@.skip(0) =~= b@);
    while i < a.len()
        invariant
            i <= a@.len() == b@.len(),
            a@.take(i as int) == b@.take(i as int),
            lex_lt(a@, b@) == lex_lt(a@.skip(i as int), b@.skip(i as int)),
        decreases a@.len() - i,
    {
        proof {
            assert(a@.skip(i as int).drop_first() =~= a@.skip(i + 1));
            assert(b@.skip(i as int).drop_first() =~= b@.skip(i + 1));
            assert(a@.skip(i as int)[0] == a@[i as int]);
            assert(b@.skip(i as int)[0] == b@[i as int]);
        }
        if a[i] < b[i] {
            return true;
        }
        if a[i] != b[i] {
            return false;
        }
        proof {
            assert(a@.take(i + 1) =~= a@.take(i as int).push(a@[i as int]));
            assert(b@.take(i + 1) =~= b@.take(i as int).push(b@[i as int]));
        }
        i += 1;
    }
    proof {
        assert(a@.skip(i as int).len() == 0);
    }
    false
}

/// Whether `a` and `b` hold the same components.
fn keys_equal(a: &Vec<i64>, b: &Vec<i64>) -> (r: bool)
    requires
        a@.len() == b@.len(),
    ensures
        r == (a@ == b@),
{
    let mut i: usize = 0;
    while i < a.len()
        invariant
            i <= a@.len() == b@.len(),
            forall|k: int| 0 <= k < i ==> a@[k] == b@[k],
        decreases a@.len() - i,
    {
        if a[i] != b[i] {
            return false;
        }
        i += 1;
    }
    assert(a@ =~= b@);
    true
}

/// The fields of an argument that must be an instance of `class`.
fn civil_fields_of<'a>(heap: &'a GcHeap<HeapObject>, val: &VmValue, class: &str, ctx: &str, what: &str) -> (r: Result<
    &'a Vec<(String, VmValue)>,
    VmError,
>)
    requires
        *val matches VmValue::Instance { fields, .. } ==> heap.is_fields(fields),
    ensures
        match *val {
            VmValue::Instance { class_name, fields } => if class_name@ == class@ {
                r matches Ok(f) && f@ == heap.fields(fields)
            } else {
                r is Err
            },
            _ => r is Err,
        },
        r matches Err(e) ==> e is Raised,
{
    match instance_fields(heap, val, class) {
        Some(f) => Ok(f),
        None => Err(arg_must_be(ctx, what)),
    }
}


// ── Fields to `jiff` values and back ────────────────────────────────────────

fn to_timestamp(f: &Vec<(String, VmValue)>) -> (r: Result<jiff::Timestamp, VmError>)
    ensures
        r matches Err(e) ==> e is Raised,
{
    match ts_new(get_int(f, "_secs"), get_int(f, "_ns") as i32) {
        Ok(ts) => Ok(ts),
        Err(e) => Err(jiff_err(e)),
    }
}

fn to_date(f: &Vec<(String, VmValue)>) -> (r: Result<jiff::civil::Date, VmError>)
    ensures
        r matches Err(e) ==> e is Raised,
        r is Ok <==> key_valid(DtClass::Date, f@),
{
    match date_new(get_int(f, "_y") as i16, get_int(f, "_mo") as i8, get_int(f, "_d") as i8) {
        Ok(d) => Ok(d),
        Err(e) => Err(jiff_err(e)),
    }
}

fn to_time(f: &Vec<(String, VmValue)>) -> (r: Result<jiff::civil::Time, VmError>)
    ensures
        r matches Err(e) ==> e is Raised,
        r is Ok <==> key_valid(DtClass::Time, f@),
{
    match time_new(get_int(f, "_h") as i8, get_int(f, "_mi") as i8, get_int(f, "_s") as i8, get_int(f, "_ns") as i32) {
        Ok(t) => Ok(t),
        Err(e) => Err(jiff_err(e)),
    }
}

fn to_datetime(f: &Vec<(String, VmValue)>) -> (r: Result<jiff::civil::DateTime, VmError>)
    ensures
        r matches Err(e) ==> e is Raised,
        r is Ok <==> key_valid(DtClass::DateTime, f@),
{
    match dt_new(
        get_int(f, "_y") as i16,
        get_int(f, "_mo") as i8,
        get_int(f, "_d") as i8,
        get_int(f, "_h") as i8,
        get_int(f, "_mi") as i8,
        get_int(f, "_s") as i8,
        get_int(f, "_ns") as i32,
    ) {
        Ok(dt) => Ok(dt),
        Err(e) => Err(jiff_err(e)),
    }
}

fn to_zoned(f: &Vec<(String, VmValue)>) -> (r: Result<jiff::Zoned, VmError>)
    ensures
        r matches Err(e) ==> e is Raised,
{
    let ts = to_timestamp(f)?;
    match tz_get(get_str(f, "_tz").as_str()) {
        Ok(tz) => Ok(ts_to_zoned(&ts, tz)),
        Err(e) => Err(jiff_err(e)),
    }
}

/// A span with these components.  Where a component is out of `jiff`'s
/// range the error is raised.
fn span_build(y: i64, mo: i64, d: i64, h: i64, mi: i64, s: i64, ns: i64) -> (r: Result<jiff::Span, VmError>)
    ensures
        r is Ok <==> span_parts_ok(y, mo, d, h, mi, s, ns),
        r matches Err(e) ==> e is Raised,
{
    let sp = span_new();
    let sp = match span_try_years(&sp, y) {
        Ok(x) => x,
        Err(e) => return Err(jiff_err(e)),
    };
    let sp = match span_try_months(&sp, mo) {
        Ok(x) => x,
        Err(e) => return Err(jiff_err(e)),
    };
    let sp = match span_try_days(&sp, d) {
        Ok(x) => x,
        Err(e) => return Err(jiff_err(e)),
    };
    let sp = match span_try_hours(&sp, h) {
        Ok(x) => x,
        Err(e) => return Err(jiff_err(e)),
    };
    let sp = match span_try_minutes(&sp, mi) {
        Ok(x) => x,
        Err(e) => return Err(jiff_err(e)),
    };
    let sp = match span_try_seconds(&sp, s) {
        Ok(x) => x,
        Err(e) => return Err(jiff_err(e)),
    };
    match span_try_nanoseconds(&sp, ns) {
        Ok(x) => Ok(x),
        Err(e) => Err(jiff_err(e)),
    }
}

fn to_span(f: &Vec<(String, VmValue)>) -> (r: Result<jiff::Span, VmError>)
    ensures
        r matches Err(e) ==> e is Raised,
{
    span_build(
        get_int(f, "_years"),
        get_int(f, "_months"),
        get_int(f, "_days"),
        get_int(f, "_hours"),
        get_int(f, "_minutes"),
        get_int(f, "_secs"),
        get_int(f, "_ns"),
    )
}

fn field(name: &str, v: VmValue) -> (e: (String, VmValue))
    ensures
        e.0@ == name@,
        e.1 == v,
{
    (String::from_str(name), v)
}

fn from_timestamp(ts: &jiff::Timestamp) -> (m: Vec<(String, VmValue)>)
    ensures
        field_names(m@) == seq!["_secs"@, "_ns"@],
{
    let mut m: Vec<(String, VmValue)> = Vec::new();
    m.push(field("_secs", VmValue::Int(ts_as_second(ts))));
    m.push(field("_ns", VmValue::Int(ts_subsec_nanosecond(ts) as i64)));
    assert(field_names(m@) =~= seq!["_secs"@, "_ns"@]);
    m
}

fn from_date(d: &jiff::civil::Date) -> (m: Vec<(String, VmValue)>)
    ensures
        field_names(m@) == seq!["_y"@, "_mo"@, "_d"@],
{
    let mut m: Vec<(String, VmValue)> = Vec::new();
    m.push(field("_y", VmValue::Int(date_year(d) as i64)));
    m.push(field("_mo", VmValue::Int(date_month(d) as i64)));
    m.push(field("_d", VmValue::Int(date_day(d) as i64)));
    assert(field_names(m@) =~= seq!["_y"@, "_mo"@, "_d"@]);
    m
}

fn from_time(t: &jiff::civil::Time) -> (m: Vec<(String, VmValue)>)
    ensures
        field_names(m@) == seq!["_h"@, "_mi"@, "_s"@, "_ns"@],
{
    let mut m: Vec<(String, VmValue)> = Vec::new();
    m.push(field("_h", VmValue::Int(time_hour(t) as i64)));
    m.push(field("_mi", VmValue::Int(time_minute(t) as i64)));
    m.push(field("_s", VmValue::Int(time_second(t) as i64)));
    m.push(field("_ns", VmValue::Int(time_subsec_nanosecond(t) as i64)));
    assert(field_names(m@) =~= seq!["_h"@, "_mi"@, "_s"@, "_ns"@]);
    m
}

fn from_datetime(dt: &jiff::civil::DateTime) -> (m: Vec<(String, VmValue)>)
    ensures
        field_names(m@) == seq!["_y"@, "_mo"@, "_d"@, "_h"@, "_mi"@, "_s"@, "_ns"@],
{
    let d = dt_date(dt);
    let t = dt_time(dt);
    let mut m: Vec<(String, VmValue)> = Vec::new();
    m.push(field("_y", VmValue::Int(date_year(&d) as i64)));
    m.push(field("_mo", VmValue::Int(date_month(&d) as i64)));
    m.push(field("_d", VmValue::Int(date_day(&d) as i64)));
    m.push(field("_h", VmValue::Int(time_hour(&t) as i64)));
    m.push(field("_mi", VmValue::Int(time_minute(&t) as i64)));
    m.push(field("_s", VmValue::Int(time_second(&t) as i64)));
    m.push(field("_ns", VmValue::Int(time_subsec_nanosecond(&t) as i64)));
    assert(field_names(m@) =~= seq!["_y"@, "_mo"@, "_d"@, "_h"@, "_mi"@, "_s"@, "_ns"@]);
    m
}

fn from_zoned(z: &jiff::Zoned) -> (m: Vec<(String, VmValue)>)
    ensures
        field_names(m@) == seq!["_secs"@, "_ns"@, "_tz"@],
{
    let ts = zoned_timestamp(z);
    let tz_name = match tz_iana_name(&zoned_time_zone(z)) {
        Some(n) => n,
        None => String::from_str("UTC"),
    };
    let mut m: Vec<(String, VmValue)> = Vec::new();
    m.push(field("_secs", VmValue::Int(ts_as_second(&ts))));
    m.push(field("_ns", VmValue::Int(ts_subsec_nanosecond(&ts) as i64)));
    m.push(field("_tz", VmValue::Str(tz_name)));
    assert(field_names(m@) =~= seq!["_secs"@, "_ns"@, "_tz"@]);
    m
}

fn from_span(sp: &jiff::Span) -> (m: Vec<(String, VmValue)>)
    ensures
        field_names(m@) == seq!["_years"@, "_months"@, "_days"@, "_hours"@, "_minutes"@, "_secs"@, "_ns"@],
{
    let mut m: Vec<(String, VmValue)> = Vec::new();
    m.push(field("_years", VmValue::Int(span_get_years(sp) as i64)));
    m.push(field("_months", VmValue::Int(span_get_months(sp) as i64)));
    m.push(field("_days", VmValue::Int(span_get_days(sp) as i64)));
    m.push(field("_hours", VmValue::Int(span_get_hours(sp) as i64)));
    m.push(field("_minutes", VmValue::Int(span_get_minutes(sp))));
    m.push(field("_secs", VmValue::Int(span_get_seconds(sp))));
    m.push(field("_ns", VmValue::Int(span_get_nanoseconds(sp))));
    assert(field_names(m@) =~= seq!["_years"@, "_months"@, "_days"@, "_hours"@, "_minutes"@, "_secs"@, "_ns"@]);
    m
}

fn new_instance(class_name: &str, fields: Vec<(String, VmValue)>) -> (r: DtValue)
    ensures
        r matches DtValue::NewInstance { class_name: c, fields: f } && c@ == class_name@ && f == fields,
{
    DtValue::NewInstance { class_name: String::from_str(class_name), fields }
}

fn mk_instant(ts: &jiff::Timestamp) -> (r: DtValue)
    ensures
        r matches DtValue::NewInstance { class_name: c, .. } && c@ == "Instant"@,
{
    new_instance("Instant", from_timestamp(ts))
}

fn date_parts(y: i64, mo: i64, d: i64) -> (v: Vec<(String, VmValue)>)
    ensures
        int_fields(v@, seq!["_y"@, "_mo"@, "_d"@], seq![y, mo, d]),
{
    let mut v: Vec<(String, VmValue)> = Vec::new();
    v.push(field("_y", VmValue::Int(y)));
    v.push(field("_mo", VmValue::Int(mo)));
    v.push(field("_d", VmValue::Int(d)));
    v
}

fn time_parts(h: i64, mi: i64, s: i64, ns: i64) -> (v: Vec<(String, VmValue)>)
    ensures
        int_fields(v@, seq!["_h"@, "_mi"@, "_s"@, "_ns"@], seq![h, mi, s, ns]),
{
    let mut v: Vec<(String, VmValue)> = Vec::new();
    v.push(field("_h", VmValue::Int(h)));
    v.push(field("_mi", VmValue::Int(mi)));
    v.push(field("_s", VmValue::Int(s)));
    v.push(field("_ns", VmValue::Int(ns)));
    v
}

fn datetime_parts(y: i64, mo: i64, d: i64, h: i64, mi: i64, s: i64, ns: i64) -> (v: Vec<(String, VmValue)>)
    ensures
        int_fields(
            v@,
            seq!["_y"@, "_mo"@, "_d"@, "_h"@, "_mi"@, "_s"@, "_ns"@],
            seq![y, mo, d, h, mi, s, ns],
        ),
{
    let mut v: Vec<(String, VmValue)> = Vec::new();
    v.push(field("_y", VmValue::Int(y)));
    v.push(field("_mo", VmValue::Int(mo)));
    v.push(field("_d", VmValue::Int(d)));
    v.push(field("_h", VmValue::Int(h)));
    v.push(field("_mi", VmValue::Int(mi)));
    v.push(field("_s", VmValue::Int(s)));
    v.push(field("_ns", VmValue::Int(ns)));
    v
}

fn span_parts(y: i64, mo: i64, d: i64, h: i64, mi: i64, s: i64, ns: i64) -> (v: Vec<(String, VmValue)>)
    ensures
        int_fields(v@, span_field_names(), seq![y, mo, d, h, mi, s, ns]),
{
    let mut v: Vec<(String, VmValue)> = Vec::new();
    v.push(field("_years", VmValue::Int(y)));
    v.push(field("_months", VmValue::Int(mo)));
    v.push(field("_days", VmValue::Int(d)));
    v.push(field("_hours", VmValue::Int(h)));
    v.push(field("_minutes", VmValue::Int(mi)));
    v.push(field("_secs", VmValue::Int(s)));
    v.push(field("_ns", VmValue::Int(ns)));
    v
}

/// The integer argument at `i` (0 for another value).
fn int_at(args: &[VmValue], i: usize) -> (n: i64)
    requires
        i < args@.len(),
    ensures
        n == int_of(args@[i as int]),
{
    match &args[i] {
        VmValue::Int(n) => *n,
        _ => 0,
    }
}

fn mk_date(d: &jiff::civil::Date) -> (r: DtValue)
    ensures
        r matches DtValue::NewInstance { class_name: c, .. } && c@ == "Date"@,
{
    new_instance("Date", from_date(d))
}

fn mk_time(t: &jiff::civil::Time) -> (r: DtValue)
    ensures
        r matches DtValue::NewInstance { class_name: c, .. } && c@ == "Time"@,
{
    new_instance("Time", from_time(t))
}

fn mk_datetime(dt: &jiff::civil::DateTime) -> (r: DtValue)
    ensures
        r matches DtValue::NewInstance { class_name: c, .. } && c@ == "DateTime"@,
{
    new_instance("DateTime", from_datetime(dt))
}

fn mk_zoned(z: &jiff::Zoned) -> (r: DtValue)
    ensures
        r matches DtValue::NewInstance { class_name: c, .. } && c@ == "ZonedDateTime"@,
{
    new_instance("ZonedDateTime", from_zoned(z))
}

fn mk_duration(sp: &jiff::Span) -> (r: DtValue)
    ensures
        r matches DtValue::NewInstance { class_name: c, .. } && c@ == "Duration"@,
{
    new_instance("Duration", from_span(sp))
}

/// Division rounding toward zero, as Rust's integer division does.
pub open spec fn tdiv(a: int, b: int) -> int {
    if a >= 0 {
        a / b
    } else {
        -((-a) / b)
    }
}

/// The remainder that goes with `tdiv`: it takes the sign of `a`.
pub open spec fn trem(a: int, b: int) -> int {
    a - b * tdiv(a, b)
}

/// The nanoseconds that the difference `d` (in nanoseconds) of two
/// timestamps keeps once `Timestamp::since` has split it into seconds,
/// milliseconds, microseconds and nanoseconds and only its seconds and
/// nanoseconds are read back: whole seconds, plus what is left below a
/// microsecond.
pub open spec fn since_nanos(d: int) -> int {
    tdiv(d, 1_000_000_000) * 1_000_000_000 + trem(trem(d, 1_000_000_000), 1000)
}

/// A count of nanoseconds `t` split into hours, minutes, seconds and
/// nanoseconds, each rounded toward zero.
pub open spec fn hms_parts(t: int) -> Seq<int> {
    let s = tdiv(t, 1_000_000_000);
    let m = tdiv(s, 60);
    seq![tdiv(m, 60), trem(m, 60), trem(s, 60), trem(t, 1_000_000_000)]
}

/// The fields of the duration from instant `b` to instant `a`.
pub open spec fn instant_diff_vals(a: Seq<(String, VmValue)>, b: Seq<(String, VmValue)>) -> Seq<i64> {
    let p = hms_parts(since_nanos(epoch_nanos(a) - epoch_nanos(b)));
    seq![0i64, 0i64, 0i64, p[0] as i64, p[1] as i64, p[2] as i64, p[3] as i64]
}

/// Division by a positive number rounding toward zero: quotient and
/// remainder rebuild the number, and the remainder is smaller than the
/// divisor and has the number's sign.
pub proof fn lemma_tdiv(x: int, b: int)
    requires
        b > 0,
    ensures
        x == tdiv(x, b) * b + trem(x, b),
        x >= 0 ==> 0 <= trem(x, b) < b && tdiv(x, b) >= 0,
        x <= 0 ==> -b < trem(x, b) <= 0 && tdiv(x, b) <= 0,
        x >= 0 ==> tdiv(x, b) == x / b && trem(x, b) == x % b,
{
    if x >= 0 {
        vstd::arithmetic::div_mod::lemma_fundamental_div_mod(x, b);
        assert(0 <= x % b < b);
        if x == 0 {
            assert(x == 0 * b + 0) by (nonlinear_arith)
                requires
                    x == 0,
            ;
            vstd::arithmetic::div_mod::lemma_fundamental_div_mod_converse(x, b, 0, 0);
        }
        assert(x / b >= 0) by (nonlinear_arith)
            requires
                x >= 0,
                b > 0,
        {
            vstd::arithmetic::div_mod::lemma_div_pos_is_pos(x, b);
        }
    } else {
        vstd::arithmetic::div_mod::lemma_fundamental_div_mod(-x, b);
        assert(0 <= (-x) % b < b);
        assert((-x) / b >= 0) by {
            vstd::arithmetic::div_mod::lemma_div_pos_is_pos(-x, b);
        }
        let q = (-x) / b;
        assert(b * (-q) == -(b * q)) by (nonlinear_arith);
        assert(tdiv(x, b) == -q);
        assert(trem(x, b) == x + b * q);
    }
    assert(b * tdiv(x, b) == tdiv(x, b) * b) by (nonlinear_arith);
}

/// The quotient and remainder rounding toward zero are the only ones that
/// rebuild `x` with a remainder below `b` of `x`'s sign.
pub proof fn lemma_tdiv_unique(x: int, b: int, q: int, r: int)
    requires
        b > 0,
        x == q * b + r,
        x >= 0 ==> 0 <= r < b,
        x < 0 ==> -b < r <= 0,
    ensures
        tdiv(x, b) == q,
        trem(x, b) == r,
{
    if x >= 0 {
        vstd::arithmetic::div_mod::lemma_fundamental_div_mod_converse(x, b, q, r);
    } else {
        assert(-x == (-q) * b + (-r)) by (nonlinear_arith)
            requires
                x == q * b + r,
        ;
        vstd::arithmetic::div_mod::lemma_fundamental_div_mod_converse(-x, b, -q, -r);
    }
    assert(b * tdiv(x, b) == tdiv(x, b) * b) by (nonlinear_arith);
}

/// The nanoseconds that `Instant#sub` reads back of the difference of two
/// instants (see `since_nanos`), when that count fits in 64 bits; past that
/// the count wraps as 64-bit arithmetic does.
fn since_total_nanos(f: &Vec<(String, VmValue)>, of: &Vec<(String, VmValue)>) -> (t: i64)
    ensures
        -9_223_372_036_854_775_807 <= epoch_nanos(f@) - epoch_nanos(of@) <= 9_223_372_036_854_775_807 ==> t
            == since_nanos(epoch_nanos(f@) - epoch_nanos(of@)),
{
    let d: i128 = instant_nanos(f) - instant_nanos(of);
    let s: i128 = d / 1_000_000_000;
    let rem: i128 = d % 1_000_000_000;
    let n: i128 = rem % 1000;
    proof {
        lemma_tdiv(d as int, 1_000_000_000);
        lemma_tdiv(rem as int, 1000);
        assert(s == tdiv(d as int, 1_000_000_000));
        assert(rem == trem(d as int, 1_000_000_000));
        assert(n == trem(rem as int, 1000));
    }
    if -9_223_372_036_854_775_807 <= d && d <= 9_223_372_036_854_775_807 {
        let t: i128 = s * 1_000_000_000 + n;
        proof {
            assert(d >= 0 ==> 0 <= t <= d);
            assert(d < 0 ==> d <= t <= 0);
        }
        t as i64
    } else {
        #[verifier::truncate]
        let s64: i64 = s as i64;
        s64.wrapping_mul(1_000_000_000).wrapping_add(n as i64)
    }
}

/// A count of nanoseconds in hours, minutes, seconds and nanoseconds, each
/// rounded toward zero (see `hms_parts`).
fn normalize_time_span(total_ns: i64) -> (r: (i64, i64, i64, i64))
    ensures
        r.0 == hms_parts(total_ns as int)[0],
        r.1 == hms_parts(total_ns as int)[1],
        r.2 == hms_parts(total_ns as int)[2],
        r.3 == hms_parts(total_ns as int)[3],
{
    let ns: i64 = total_ns % 1_000_000_000;
    let total_s: i64 = total_ns / 1_000_000_000;
    let secs: i64 = total_s % 60;
    let total_m: i64 = total_s / 60;
    let mins: i64 = total_m % 60;
    let hours: i64 = total_m / 60;
    proof {
        lemma_tdiv(total_ns as int, 1_000_000_000);
        lemma_tdiv(total_s as int, 60);
        lemma_tdiv(total_m as int, 60);
    }
    (hours, mins, secs, ns)
}

// ── Which calls are well formed ─────────────────────────────────────────────

/// The number of arguments of a class method, `None` for a name the class
/// does not have.
pub open spec fn class_method_arity(c: DtClass, m: DtMethod) -> Option<nat> {
    match c {
        DtClass::Instant => match m {
            DtMethod::Now => Some(0),
            DtMethod::OfEpochSeconds | DtMethod::OfEpochMillis | DtMethod::Parse => Some(1),
            _ => None,
        },
        DtClass::Date => match m {
            DtMethod::Today => Some(0),
            DtMethod::Of => Some(3),
            DtMethod::Parse => Some(1),
            _ => None,
        },
        DtClass::Time => match m {
            DtMethod::Now => Some(0),
            DtMethod::Of => Some(3),
            DtMethod::OfNanos => Some(4),
            DtMethod::Parse => Some(1),
            _ => None,
        },
        DtClass::DateTime => match m {
            DtMethod::Now => Some(0),
            DtMethod::Of => Some(6),
            DtMethod::OfNanos => Some(7),
            DtMethod::Parse => Some(1),
            _ => None,
        },
        DtClass::Zoned => match m {
            DtMethod::Now => Some(1),
            DtMethod::Of | DtMethod::OfCompatible | DtMethod::OfBefore | DtMethod::OfAfter => Some(7),
            DtMethod::FromInstant => Some(2),
            DtMethod::Parse => Some(1),
            _ => None,
        },
        DtClass::Duration => match m {
            DtMethod::OfYears | DtMethod::OfMonths | DtMethod::OfDays | DtMethod::OfHours | DtMethod::OfMinutes
            | DtMethod::OfSeconds | DtMethod::OfNanos => Some(1),
            DtMethod::Of => Some(7),
            _ => None,
        },
        DtClass::Other => None,
    }
}

/// The integer an argument holds (0 for any other value).
pub open spec fn int_of(v: VmValue) -> i64 {
    match v {
        VmValue::Int(n) => n,
        _ => 0,
    }
}

/// Exactly `n` arguments, all integers.
pub open spec fn int_args(args: Seq<VmValue>, n: nat) -> bool {
    args.len() == n && forall|i: int| 0 <= i < n ==> (#[trigger] args[i]) is Int
}

/// The bound of a `Duration.of_*` unit: its count must lie within
/// `-bound..=bound`.
pub open spec fn unit_bound(m: DtMethod) -> int {
    match m {
        DtMethod::OfYears => 19_998,
        DtMethod::OfMonths => 239_976,
        DtMethod::OfDays => 7_304_484,
        DtMethod::OfHours => 175_307_616,
        DtMethod::OfMinutes => 10_518_456_960,
        DtMethod::OfSeconds => 631_107_417_600,
        _ => 9_223_372_036_854_775_807,
    }
}

/// A count within the bound of its unit.
pub open spec fn in_unit_range(m: DtMethod, n: i64) -> bool {
    -unit_bound(m) <= n <= unit_bound(m)
}

/// The seven components of `Duration.of`, each within its unit's bound.
pub open spec fn span_parts_ok(y: i64, mo: i64, d: i64, h: i64, mi: i64, s: i64, ns: i64) -> bool {
    &&& in_unit_range(DtMethod::OfYears, y)
    &&& in_unit_range(DtMethod::OfMonths, mo)
    &&& in_unit_range(DtMethod::OfDays, d)
    &&& in_unit_range(DtMethod::OfHours, h)
    &&& in_unit_range(DtMethod::OfMinutes, mi)
    &&& in_unit_range(DtMethod::OfSeconds, s)
    &&& in_unit_range(DtMethod::OfNanos, ns)
}

/// The date and time of the first six (or seven, `with_nanos`) integer
/// arguments, each taken at its component's width, form a valid civil
/// date and time.
pub open spec fn dt_args_valid(args: Seq<VmValue>, with_nanos: bool) -> bool {
    &&& valid_date(int_of(args[0]) as i16 as int, int_of(args[1]) as i8 as int, int_of(args[2]) as i8 as int)
    &&& valid_time(
        int_of(args[3]) as i8 as int,
        int_of(args[4]) as i8 as int,
        int_of(args[5]) as i8 as int,
        if with_nanos {
            int_of(args[6]) as i32 as int
        } else {
            0
        },
    )
}

/// The class methods whose success depends on their arguments alone, and
/// the arguments on which they succeed: the right number of integers that
/// form a valid date, time or date and time (each taken at its component's
/// width), or durations within their units' bounds.
pub open spec fn class_success_owed(c: DtClass, m: DtMethod, args: Seq<VmValue>) -> bool {
    match (c, m) {
        (DtClass::Date, DtMethod::Of) => int_args(args, 3) && valid_date(
            int_of(args[0]) as i16 as int,
            int_of(args[1]) as i8 as int,
            int_of(args[2]) as i8 as int,
        ),
        (DtClass::Time, DtMethod::Of) => int_args(args, 3) && valid_time(
            int_of(args[0]) as i8 as int,
            int_of(args[1]) as i8 as int,
            int_of(args[2]) as i8 as int,
            0,
        ),
        (DtClass::Time, DtMethod::OfNanos) => int_args(args, 4) && valid_time(
            int_of(args[0]) as i8 as int,
            int_of(args[1]) as i8 as int,
            int_of(args[2]) as i8 as int,
            int_of(args[3]) as i32 as int,
        ),
        (DtClass::DateTime, DtMethod::Of) => int_args(args, 6) && dt_args_valid(args, false),
        (DtClass::DateTime, DtMethod::OfNanos) => int_args(args, 7) && dt_args_valid(args, true),
        (DtClass::Duration, DtMethod::Of) => int_args(args, 7) && span_parts_ok(
            int_of(args[0]),
            int_of(args[1]),
            int_of(args[2]),
            int_of(args[3]),
            int_of(args[4]),
            int_of(args[5]),
            int_of(args[6]),
        ),
        (DtClass::Duration, DtMethod::OfYears) | (DtClass::Duration, DtMethod::OfMonths) | (
            DtClass::Duration,
            DtMethod::OfDays,
        ) | (DtClass::Duration, DtMethod::OfHours) | (DtClass::Duration, DtMethod::OfMinutes) | (
            DtClass::Duration,
            DtMethod::OfSeconds,
        ) | (DtClass::Duration, DtMethod::OfNanos) => int_args(args, 1) && in_unit_range(m, int_of(args[0])),
        _ => false,
    }
}

/// The fields `fs` are named `names`, in order, and hold the integers `vals`.
pub open spec fn int_fields(fs: Seq<(String, VmValue)>, names: Seq<Seq<char>>, vals: Seq<i64>) -> bool {
    &&& fs.len() == names.len()
    &&& fs.len() == vals.len()
    &&& forall|i: int| 0 <= i < fs.len() ==> (#[trigger] fs[i]).0@ == names[i] && fs[i].1 == VmValue::Int(vals[i])
}

/// The names and values of the fields that a constructor of dates and times
/// gives its instance: its integer arguments, each at its component's width
/// (and no nanoseconds where it takes none).
pub open spec fn ctor_fields(c: DtClass, m: DtMethod, args: Seq<VmValue>) -> Option<(Seq<Seq<char>>, Seq<i64>)> {
    let a = |i: int| int_of(args[i]);
    match (c, m) {
        (DtClass::Date, DtMethod::Of) => Some(
            (
                seq!["_y"@, "_mo"@, "_d"@],
                seq![a(0) as i16 as i64, a(1) as i8 as i64, a(2) as i8 as i64],
            ),
        ),
        (DtClass::Time, DtMethod::Of) => Some(
            (
                seq!["_h"@, "_mi"@, "_s"@, "_ns"@],
                seq![a(0) as i8 as i64, a(1) as i8 as i64, a(2) as i8 as i64, 0i64],
            ),
        ),
        (DtClass::Time, DtMethod::OfNanos) => Some(
            (
                seq!["_h"@, "_mi"@, "_s"@, "_ns"@],
                seq![a(0) as i8 as i64, a(1) as i8 as i64, a(2) as i8 as i64, a(3) as i32 as i64],
            ),
        ),
        (DtClass::DateTime, DtMethod::Of) | (DtClass::DateTime, DtMethod::OfNanos) => Some(
            (
                seq!["_y"@, "_mo"@, "_d"@, "_h"@, "_mi"@, "_s"@, "_ns"@],
                seq![
                    a(0) as i16 as i64,
                    a(1) as i8 as i64,
                    a(2) as i8 as i64,
                    a(3) as i8 as i64,
                    a(4) as i8 as i64,
                    a(5) as i8 as i64,
                    if m == DtMethod::OfNanos {
                        a(6) as i32 as i64
                    } else {
                        0i64
                    },
                ],
            ),
        ),
        (DtClass::Duration, DtMethod::OfYears) | (DtClass::Duration, DtMethod::OfMonths) | (
            DtClass::Duration,
            DtMethod::OfDays,
        ) | (DtClass::Duration, DtMethod::OfHours) | (DtClass::Duration, DtMethod::OfMinutes) | (
            DtClass::Duration,
            DtMethod::OfSeconds,
        ) | (DtClass::Duration, DtMethod::OfNanos) => Some((span_field_names(), unit_span_vals(m, a(0)))),
        _ => None,
    }
}

/// The fields of a duration of `n` of one unit: that unit's count `n`,
/// every other unit 0.
pub open spec fn unit_span_vals(unit: DtMethod, n: i64) -> Seq<i64> {
    let z = 0i64;
    match unit {
        DtMethod::OfYears => seq![n, z, z, z, z, z, z],
        DtMethod::OfMonths => seq![z, n, z, z, z, z, z],
        DtMethod::OfDays => seq![z, z, n, z, z, z, z],
        DtMethod::OfHours => seq![z, z, z, n, z, z, z],
        DtMethod::OfMinutes => seq![z, z, z, z, n, z, z],
        DtMethod::OfSeconds => seq![z, z, z, z, z, n, z],
        _ => seq![z, z, z, z, z, z, n],
    }
}

/// The names of a duration's fields, in order.
pub open spec fn span_field_names() -> Seq<Seq<char>> {
    seq!["_years"@, "_months"@, "_days"@, "_hours"@, "_minutes"@, "_secs"@, "_ns"@]
}

/// What a class method call gives: for a name the class does not have, the
/// type error that says so; for the wrong number of arguments, the type
/// error that says how many it takes; on success, a new instance of the
/// class; success on the arguments that owe it; and, for the constructors
/// from components, exactly the fields those components give.
pub open spec fn class_call_ok(
    c: DtClass,
    class_name: Seq<char>,
    m: Seq<char>,
    args: Seq<VmValue>,
    line: u32,
    r: Result<DtValue, VmError>,
) -> bool {
    &&& class_method_arity(c, dt_method(m)) is None ==> (r matches Err(e) && is_type_error(
        e,
        class_name + " has no class method '"@ + m + "'"@,
        line,
    ))
    &&& match class_method_arity(c, dt_method(m)) {
        Some(n) => args.len() != n ==> (r matches Err(e) && is_type_error(
            e,
            wrong_args_message(class_name, m, n, args.len()),
            line,
        )),
        None => true,
    }
    &&& r matches Ok(v) ==> (v matches DtValue::NewInstance { class_name: k, .. } && k@ == class_name)
    &&& class_success_owed(c, dt_method(m), args) ==> r is Ok
    &&& match ctor_fields(c, dt_method(m), args) {
        Some((names, vals)) => class_success_owed(c, dt_method(m), args) ==> (r matches Ok(
            DtValue::NewInstance { fields: fs, .. },
        ) && int_fields(fs@, names, vals)),
        None => true,
    }
    &&& (r matches Err(e) && e is TypeError) ==> match class_method_arity(c, dt_method(m)) {
        Some(n) => args.len() != n,
        None => true,
    }
}

/// The methods of instances: `Some(None)` for one that takes any arguments
/// it is given, `Some(Some(n))` for one that takes exactly `n`, `None` for a
/// name the class does not have.
pub open spec fn instance_arity(c: DtClass, m: DtMethod) -> Option<Option<nat>> {
    match c {
        DtClass::Instant => match m {
            DtMethod::ToS | DtMethod::Inspect | DtMethod::EpochSeconds | DtMethod::EpochMillis => Some(None),
            DtMethod::Add | DtMethod::Sub | DtMethod::Before | DtMethod::After | DtMethod::Equal | DtMethod::Format
            | DtMethod::InTimezone => Some(Some(1)),
            _ => None,
        },
        DtClass::Date => match m {
            DtMethod::ToS | DtMethod::Inspect | DtMethod::Year | DtMethod::Month | DtMethod::Day | DtMethod::DayOfWeek
            | DtMethod::DayOfYear | DtMethod::DaysInMonth | DtMethod::NextDay | DtMethod::PrevDay => Some(None),
            DtMethod::Add | DtMethod::Sub | DtMethod::Before | DtMethod::After | DtMethod::Equal | DtMethod::Format => Some(
                Some(1),
            ),
            _ => None,
        },
        DtClass::Time => match m {
            DtMethod::ToS | DtMethod::Inspect | DtMethod::Hour | DtMethod::Minute | DtMethod::Second | DtMethod::Nano => Some(
                None,
            ),
            DtMethod::Before | DtMethod::After | DtMethod::Equal | DtMethod::Format => Some(Some(1)),
            _ => None,
        },
        DtClass::DateTime => match m {
            DtMethod::ToS | DtMethod::Inspect | DtMethod::Year | DtMethod::Month | DtMethod::Day | DtMethod::Hour
            | DtMethod::Minute | DtMethod::Second | DtMethod::Nano | DtMethod::Date | DtMethod::Time
            | DtMethod::ToInstant => Some(None),
            DtMethod::Add | DtMethod::Sub | DtMethod::Before | DtMethod::After | DtMethod::Equal | DtMethod::Format
            | DtMethod::InTimezone => Some(Some(1)),
            _ => None,
        },
        DtClass::Zoned => match m {
            DtMethod::ToS | DtMethod::Inspect | DtMethod::Year | DtMethod::Month | DtMethod::Day | DtMethod::Hour
            | DtMethod::Minute | DtMethod::Second | DtMethod::Nano | DtMethod::Timezone | DtMethod::EpochSeconds
            | DtMethod::EpochMillis | DtMethod::Date | DtMethod::Time | DtMethod::Datetime | DtMethod::ToInstant
            | DtMethod::ToUtc => Some(None),
            DtMethod::WithTimezone | DtMethod::Add | DtMethod::Sub | DtMethod::Before | DtMethod::After
            | DtMethod::Equal | DtMethod::Format => Some(Some(1)),
            _ => None,
        },
        DtClass::Duration => match m {
            DtMethod::ToS | DtMethod::Inspect | DtMethod::Years | DtMethod::Months | DtMethod::Days | DtMethod::Hours
            | DtMethod::Minutes | DtMethod::Seconds | DtMethod::Nanos | DtMethod::Negate | DtMethod::Abs => Some(None),
            DtMethod::Add => Some(Some(1)),
            _ => None,
        },
        DtClass::Other => None,
    }
}

/// The integer field that a method reads and returns as it is.
pub open spec fn getter_field(c: DtClass, m: DtMethod) -> Option<Seq<char>> {
    match (c, m) {
        (DtClass::Instant, DtMethod::EpochSeconds) => Some("_secs"@),
        (DtClass::Date, DtMethod::Year) => Some("_y"@),
        (DtClass::Date, DtMethod::Month) => Some("_mo"@),
        (DtClass::Date, DtMethod::Day) => Some("_d"@),
        (DtClass::Time, DtMethod::Hour) => Some("_h"@),
        (DtClass::Time, DtMethod::Minute) => Some("_mi"@),
        (DtClass::Time, DtMethod::Second) => Some("_s"@),
        (DtClass::Time, DtMethod::Nano) => Some("_ns"@),
        (DtClass::DateTime, DtMethod::Year) => Some("_y"@),
        (DtClass::DateTime, DtMethod::Month) => Some("_mo"@),
        (DtClass::DateTime, DtMethod::Day) => Some("_d"@),
        (DtClass::DateTime, DtMethod::Hour) => Some("_h"@),
        (DtClass::DateTime, DtMethod::Minute) => Some("_mi"@),
        (DtClass::DateTime, DtMethod::Second) => Some("_s"@),
        (DtClass::DateTime, DtMethod::Nano) => Some("_ns"@),
        (DtClass::Zoned, DtMethod::EpochSeconds) => Some("_secs"@),
        (DtClass::Duration, DtMethod::Years) => Some("_years"@),
        (DtClass::Duration, DtMethod::Months) => Some("_months"@),
        (DtClass::Duration, DtMethod::Days) => Some("_days"@),
        (DtClass::Duration, DtMethod::Hours) => Some("_hours"@),
        (DtClass::Duration, DtMethod::Minutes) => Some("_minutes"@),
        (DtClass::Duration, DtMethod::Seconds) => Some("_secs"@),
        (DtClass::Duration, DtMethod::Nanos) => Some("_ns"@),
        _ => None,
    }
}

/// What an instance method call gives: for a name the class does not have,
/// the type error that says so; for a method of one argument called with
/// another number, the type error that says so; for a field reader, the
/// field (a time zone's name for `ZonedDateTime#timezone`).
pub open spec fn instance_call_ok(
    c: DtClass,
    class_name: Seq<char>,
    m: Seq<char>,
    f: Seq<(String, VmValue)>,
    args: Seq<VmValue>,
    line: u32,
    r: Result<DtValue, VmError>,
) -> bool {
    &&& instance_arity(c, dt_method(m)) is None ==> (r matches Err(e) && is_type_error(
        e,
        class_name + " has no method '"@ + m + "'"@,
        line,
    ))
    &&& match instance_arity(c, dt_method(m)) {
        Some(Some(n)) => args.len() != n ==> (r matches Err(e) && is_type_error(
            e,
            wrong_args_message(class_name, m, n, args.len()),
            line,
        )),
        _ => true,
    }
    &&& match getter_field(c, dt_method(m)) {
        Some(k) => r == Ok::<DtValue, VmError>(DtValue::Value(VmValue::Int(field_int(f, k)))),
        None => true,
    }
    &&& c == DtClass::Zoned && dt_method(m) == DtMethod::Timezone ==> (r matches Ok(DtValue::Value(VmValue::Str(s)))
        && s@ == field_str(f, "_tz"@))
}

/// Every instance among `args` has its fields in the heap.
pub open spec fn instances_in_heap(heap: &GcHeap<HeapObject>, args: Seq<VmValue>) -> bool {
    forall|i: int| 0 <= i < args.len() ==> (#[trigger] args[i] matches VmValue::Instance { fields, .. } ==> heap.is_fields(fields))
}

fn no_class_method(class_name: &str, method: &str, line: u32) -> (e: VmError)
    ensures
        is_type_error(e, class_name@ + " has no class method '"@ + method@ + "'"@, line),
{
    let mut m = String::from_str(class_name);
    m.append(" has no class method '");
    m.append(method);
    m.append("'");
    VmError::TypeError { message: m, line }
}

fn no_method(class_name: &str, method: &str, line: u32) -> (e: VmError)
    ensures
        is_type_error(e, class_name@ + " has no method '"@ + method@ + "'"@, line),
{
    let mut m = String::from_str(class_name);
    m.append(" has no method '");
    m.append(method);
    m.append("'");
    VmError::TypeError { message: m, line }
}

/// The fields of `val` when it is an instance of `class`.
fn instance_fields<'a>(heap: &'a GcHeap<HeapObject>, val: &VmValue, class: &str) -> (r: Option<&'a Vec<(String, VmValue)>>)
    requires
        *val matches VmValue::Instance { fields, .. } ==> heap.is_fields(fields),
    ensures
        match *val {
            VmValue::Instance { class_name, fields } => if class_name@ == class@ {
                r matches Some(f) && f@ == heap.fields(fields)
            } else {
                r is None
            },
            _ => r is None,
        },
{
    match val {
        VmValue::Instance { class_name, fields } => if is(class_name.as_str(), class) {
            Some(heap.get_fields(*fields))
        } else {
            None
        },
        _ => None,
    }
}

fn arg_must_be(ctx: &str, what: &str) -> (e: VmError)
    ensures
        is_raised(e, ctx@ + ": argument must be "@ + what@),
{
    let mut m = String::from_str(ctx);
    m.append(": argument must be ");
    m.append(what);
    raise(m)
}

fn span_from_val(heap: &GcHeap<HeapObject>, val: &VmValue) -> (r: Result<jiff::Span, VmError>)
    requires
        *val matches VmValue::Instance { fields, .. } ==> heap.is_fields(fields),
    ensures
        r matches Err(e) ==> e is Raised,
{
    match instance_fields(heap, val, "Duration") {
        Some(f) => to_span(f),
        None => Err(raise_str("expected a Duration instance")),
    }
}

// ── Class methods ───────────────────────────────────────────────────────────

fn instant_class(method: &str, args: &[VmValue], line: u32) -> (r: Result<DtValue, VmError>)
    ensures
        class_call_ok(DtClass::Instant, "Instant"@, method@, args@, line, r),
{
    match method_of(method) {
        DtMethod::Now => {
            if args.len() != 0 {
                return Err(wrong_args("Instant", "now", 0, args.len(), line));
            }
            match ts_now() {
                Ok(ts) => Ok(mk_instant(&ts)),
                Err(e) => Err(jiff_err(e)),
            }
        },
        DtMethod::OfEpochSeconds => {
            if args.len() != 1 {
                return Err(wrong_args("Instant", "of_epoch_seconds", 1, args.len(), line));
            }
            let s = int_arg(args, 0, "Instant.of_epoch_seconds")?;
            match ts_from_second(s) {
                Ok(ts) => Ok(mk_instant(&ts)),
                Err(e) => Err(jiff_err(e)),
            }
        },
        DtMethod::OfEpochMillis => {
            if args.len() != 1 {
                return Err(wrong_args("Instant", "of_epoch_millis", 1, args.len(), line));
            }
            let ms = int_arg(args, 0, "Instant.of_epoch_millis")?;
            match ts_from_millisecond(ms) {
                Ok(ts) => Ok(mk_instant(&ts)),
                Err(e) => Err(jiff_err(e)),
            }
        },
        DtMethod::Parse => {
            if args.len() != 1 {
                return Err(wrong_args("Instant", "parse", 1, args.len(), line));
            }
            let s = str_arg(args, 0, "Instant.parse")?;
            match ts_parse(s.as_str()) {
                Ok(ts) => Ok(mk_instant(&ts)),
                Err(e) => Err(jiff_err(e)),
            }
        },
        _ => Err(no_class_method("Instant", method, line)),
    }
}

fn date_class(method: &str, args: &[VmValue], line: u32) -> (r: Result<DtValue, VmError>)
    ensures
        class_call_ok(DtClass::Date, "Date"@, method@, args@, line, r),
{
    match method_of(method) {
        DtMethod::Today => {
            if args.len() != 0 {
                return Err(wrong_args("Date", "today", 0, args.len(), line));
            }
            match ts_now() {
                Ok(ts) => Ok(mk_date(&zoned_date(&ts_to_zoned(&ts, tz_system())))),
                Err(e) => Err(jiff_err(e)),
            }
        },
        DtMethod::Of => {
            if args.len() != 3 {
                return Err(wrong_args("Date", "of", 3, args.len(), line));
            }
            let y = int_arg(args, 0, "Date.of")?;
            let mo = int_arg(args, 1, "Date.of")?;
            let d = int_arg(args, 2, "Date.of")?;
            match date_new(y as i16, mo as i8, d as i8) {
                Ok(_) => Ok(new_instance("Date", date_parts(y as i16 as i64, mo as i8 as i64, d as i8 as i64))),
                Err(e) => Err(jiff_err(e)),
            }
        },
        DtMethod::Parse => {
            if args.len() != 1 {
                return Err(wrong_args("Date", "parse", 1, args.len(), line));
            }
            let s = str_arg(args, 0, "Date.parse")?;
            match date_parse(s.as_str()) {
                Ok(x) => Ok(mk_date(&x)),
                Err(e) => Err(jiff_err(e)),
            }
        },
        _ => Err(no_class_method("Date", method, line)),
    }
}

fn time_class(method: &str, args: &[VmValue], line: u32) -> (r: Result<DtValue, VmError>)
    ensures
        class_call_ok(DtClass::Time, "Time"@, method@, args@, line, r),
{
    match method_of(method) {
        DtMethod::Now => {
            if args.len() != 0 {
                return Err(wrong_args("Time", "now", 0, args.len(), line));
            }
            match ts_now() {
                Ok(ts) => Ok(mk_time(&zoned_time(&ts_to_zoned(&ts, tz_system())))),
                Err(e) => Err(jiff_err(e)),
            }
        },
        DtMethod::Of => {
            if args.len() != 3 {
                return Err(wrong_args("Time", "of", 3, args.len(), line));
            }
            let h = int_arg(args, 0, "Time.of")?;
            let mi = int_arg(args, 1, "Time.of")?;
            let s = int_arg(args, 2, "Time.of")?;
            match time_new(h as i8, mi as i8, s as i8, 0) {
                Ok(_) => Ok(new_instance("Time", time_parts(h as i8 as i64, mi as i8 as i64, s as i8 as i64, 0))),
                Err(e) => Err(jiff_err(e)),
            }
        },
        DtMethod::OfNanos => {
            if args.len() != 4 {
                return Err(wrong_args("Time", "of_nanos", 4, args.len(), line));
            }
            let h = int_arg(args, 0, "Time.of_nanos")?;
            let mi = int_arg(args, 1, "Time.of_nanos")?;
            let s = int_arg(args, 2, "Time.of_nanos")?;
            let ns = int_arg(args, 3, "Time.of_nanos")?;
            match time_new(h as i8, mi as i8, s as i8, ns as i32) {
                Ok(_) => Ok(
                    new_instance(
                        "Time",
                        time_parts(h as i8 as i64, mi as i8 as i64, s as i8 as i64, ns as i32 as i64),
                    ),
                ),
                Err(e) => Err(jiff_err(e)),
            }
        },
        DtMethod::Parse => {
            if args.len() != 1 {
                return Err(wrong_args("Time", "parse", 1, args.len(), line));
            }
            let s = str_arg(args, 0, "Time.parse")?;
            match time_parse(s.as_str()) {
                Ok(x) => Ok(mk_time(&x)),
                Err(e) => Err(jiff_err(e)),
            }
        },
        _ => Err(no_class_method("Time", method, line)),
    }
}

/// A civil date and time from the first six integer arguments, at whole
/// seconds, or the nanoseconds of the seventh when `with_nanos`.
/// The message of the first of the first `n` arguments that is not an
/// integer (or is missing), if any.
pub open spec fn first_int_arg_error(args: Seq<VmValue>, n: nat, ctx: Seq<char>) -> Option<Seq<char>>
    decreases n,
{
    if n == 0 {
        None
    } else {
        match first_int_arg_error(args, (n - 1) as nat, ctx) {
            Some(m) => Some(m),
            None => match int_arg_spec(args, (n - 1) as nat, ctx) {
                Ok(_) => None,
                Err(m) => Some(m),
            },
        }
    }
}

fn build_dt_args(args: &[VmValue], ctx: &str, with_nanos: bool) -> (r: Result<jiff::civil::DateTime, VmError>)
    ensures
        int_args(args@, if with_nanos { 7 } else { 6 }) && dt_args_valid(args@, with_nanos) ==> r is Ok,
        r matches Err(e) ==> e is Raised,
        first_int_arg_error(args@, if with_nanos { 7 } else { 6 }, ctx@) matches Some(m) ==> (r matches Err(e)
            && is_raised(e, m)),
{
    proof {
        reveal_with_fuel(first_int_arg_error, 8);
    }
    let y = int_arg(args, 0, ctx)?;
    let mo = int_arg(args, 1, ctx)?;
    let d = int_arg(args, 2, ctx)?;
    let h = int_arg(args, 3, ctx)?;
    let mi = int_arg(args, 4, ctx)?;
    let s = int_arg(args, 5, ctx)?;
    let ns = if with_nanos {
        int_arg(args, 6, ctx)?
    } else {
        0
    };
    match dt_new(y as i16, mo as i8, d as i8, h as i8, mi as i8, s as i8, ns as i32) {
        Ok(x) => Ok(x),
        Err(e) => Err(jiff_err(e)),
    }
}

fn datetime_class(method: &str, args: &[VmValue], line: u32) -> (r: Result<DtValue, VmError>)
    ensures
        class_call_ok(DtClass::DateTime, "DateTime"@, method@, args@, line, r),
{
    match method_of(method) {
        DtMethod::Now => {
            if args.len() != 0 {
                return Err(wrong_args("DateTime", "now", 0, args.len(), line));
            }
            match ts_now() {
                Ok(ts) => Ok(mk_datetime(&zoned_datetime(&ts_to_zoned(&ts, tz_system())))),
                Err(e) => Err(jiff_err(e)),
            }
        },
        DtMethod::Of => {
            if args.len() != 6 {
                return Err(wrong_args("DateTime", "of", 6, args.len(), line));
            }
            build_dt_args(args, "DateTime.of", false)?;
            Ok(
                new_instance(
                    "DateTime",
                    datetime_parts(
                        int_at(args, 0) as i16 as i64,
                        int_at(args, 1) as i8 as i64,
                        int_at(args, 2) as i8 as i64,
                        int_at(args, 3) as i8 as i64,
                        int_at(args, 4) as i8 as i64,
                        int_at(args, 5) as i8 as i64,
                        0,
                    ),
                ),
            )
        },
        DtMethod::OfNanos => {
            if args.len() != 7 {
                return Err(wrong_args("DateTime", "of_nanos", 7, args.len(), line));
            }
            build_dt_args(args, "DateTime.of_nanos", true)?;
            Ok(
                new_instance(
                    "DateTime",
                    datetime_parts(
                        int_at(args, 0) as i16 as i64,
                        int_at(args, 1) as i8 as i64,
                        int_at(args, 2) as i8 as i64,
                        int_at(args, 3) as i8 as i64,
                        int_at(args, 4) as i8 as i64,
                        int_at(args, 5) as i8 as i64,
                        int_at(args, 6) as i32 as i64,
                    ),
                ),
            )
        },
        DtMethod::Parse => {
            if args.len() != 1 {
                return Err(wrong_args("DateTime", "parse", 1, args.len(), line));
            }
            let s = str_arg(args, 0, "DateTime.parse")?;
            match dt_parse(s.as_str()) {
                Ok(x) => Ok(mk_datetime(&x)),
                Err(e) => Err(jiff_err(e)),
            }
        },
        _ => Err(no_class_method("DateTime", method, line)),
    }
}

fn zone_named(name: &str) -> (r: Result<jiff::tz::TimeZone, VmError>)
    ensures
        r matches Err(e) ==> e is Raised,
{
    match tz_get(name) {
        Ok(tz) => Ok(tz),
        Err(e) => Err(jiff_err(e)),
    }
}

fn zoned_result(r: Result<jiff::Zoned, jiff::Error>) -> (v: Result<DtValue, VmError>)
    ensures
        v matches Ok(x) ==> (x matches DtValue::NewInstance { class_name: c, .. } && c@ == "ZonedDateTime"@),
        v matches Err(e) ==> e is Raised,
{
    match r {
        Ok(z) => Ok(mk_zoned(&z)),
        Err(e) => Err(jiff_err(e)),
    }
}

fn zoned_class(heap: &GcHeap<HeapObject>, method: &str, args: &[VmValue], line: u32) -> (r: Result<DtValue, VmError>)
    requires
        instances_in_heap(heap, args@),
    ensures
        class_call_ok(DtClass::Zoned, "ZonedDateTime"@, method@, args@, line, r),
{
    match method_of(method) {
        DtMethod::Now => {
            if args.len() != 1 {
                return Err(wrong_args("ZonedDateTime", "now", 1, args.len(), line));
            }
            let name = str_arg(args, 0, "ZonedDateTime.now")?;
            let tz = zone_named(name.as_str())?;
            match ts_now() {
                Ok(ts) => Ok(mk_zoned(&ts_to_zoned(&ts, tz))),
                Err(e) => Err(jiff_err(e)),
            }
        },
        DtMethod::Of => {
            if args.len() != 7 {
                return Err(wrong_args("ZonedDateTime", "of", 7, args.len(), line));
            }
            let name = str_arg(args, 6, "ZonedDateTime.of")?;
            let tz = zone_named(name.as_str())?;
            let dt = build_dt_args(args, "ZonedDateTime.of", false)?;
            zoned_result(az_reject(tz_to_ambiguous_zoned(&tz, &dt)))
        },
        DtMethod::OfCompatible => {
            if args.len() != 7 {
                return Err(wrong_args("ZonedDateTime", "of_compatible", 7, args.len(), line));
            }
            let name = str_arg(args, 6, "ZonedDateTime.of_compatible")?;
            let tz = zone_named(name.as_str())?;
            let dt = build_dt_args(args, "ZonedDateTime.of_compatible", false)?;
            zoned_result(az_compatible(tz_to_ambiguous_zoned(&tz, &dt)))
        },
        DtMethod::OfBefore => {
            if args.len() != 7 {
                return Err(wrong_args("ZonedDateTime", "of_before", 7, args.len(), line));
            }
            let name = str_arg(args, 6, "ZonedDateTime.of_before")?;
            let tz = zone_named(name.as_str())?;
            let dt = build_dt_args(args, "ZonedDateTime.of_before", false)?;
            zoned_result(az_earlier(tz_to_ambiguous_zoned(&tz, &dt)))
        },
        DtMethod::OfAfter => {
            if args.len() != 7 {
                return Err(wrong_args("ZonedDateTime", "of_after", 7, args.len(), line));
            }
            let name = str_arg(args, 6, "ZonedDateTime.of_after")?;
            let tz = zone_named(name.as_str())?;
            let dt = build_dt_args(args, "ZonedDateTime.of_after", false)?;
            zoned_result(az_later(tz_to_ambiguous_zoned(&tz, &dt)))
        },
        DtMethod::FromInstant => {
            if args.len() != 2 {
                return Err(wrong_args("ZonedDateTime", "from_instant", 2, args.len(), line));
            }
            let ts = match instance_fields(heap, &args[0], "Instant") {
                Some(f) => to_timestamp(f)?,
                None => {
                    return Err(raise_str("ZonedDateTime.from_instant: first arg must be Instant"));
                },
            };
            let name = str_arg(args, 1, "ZonedDateTime.from_instant")?;
            let tz = zone_named(name.as_str())?;
            Ok(mk_zoned(&ts_to_zoned(&ts, tz)))
        },
        DtMethod::Parse => {
            if args.len() != 1 {
                return Err(wrong_args("ZonedDateTime", "parse", 1, args.len(), line));
            }
            let s = str_arg(args, 0, "ZonedDateTime.parse")?;
            zoned_result(zoned_parse(s.as_str()))
        },
        _ => Err(no_class_method("ZonedDateTime", method, line)),
    }
}

fn duration_of(unit: DtMethod, n: i64) -> (r: Result<DtValue, VmError>)
    ensures
        r is Ok <==> in_unit_range(unit, n),
        r matches Err(e) ==> e is Raised,
        r matches Ok(x) ==> (x matches DtValue::NewInstance { class_name: c, fields: fs } && c@ == "Duration"@
            && int_fields(fs@, span_field_names(), unit_span_vals(unit, n))),
{
    let sp = span_new();
    let built = match unit {
        DtMethod::OfYears => span_try_years(&sp, n),
        DtMethod::OfMonths => span_try_months(&sp, n),
        DtMethod::OfDays => span_try_days(&sp, n),
        DtMethod::OfHours => span_try_hours(&sp, n),
        DtMethod::OfMinutes => span_try_minutes(&sp, n),
        DtMethod::OfSeconds => span_try_seconds(&sp, n),
        _ => span_try_nanoseconds(&sp, n),
    };
    // A duration of one unit holds that unit's count and nothing else.
    let fields = match unit {
        DtMethod::OfYears => span_parts(n, 0, 0, 0, 0, 0, 0),
        DtMethod::OfMonths => span_parts(0, n, 0, 0, 0, 0, 0),
        DtMethod::OfDays => span_parts(0, 0, n, 0, 0, 0, 0),
        DtMethod::OfHours => span_parts(0, 0, 0, n, 0, 0, 0),
        DtMethod::OfMinutes => span_parts(0, 0, 0, 0, n, 0, 0),
        DtMethod::OfSeconds => span_parts(0, 0, 0, 0, 0, n, 0),
        _ => span_parts(0, 0, 0, 0, 0, 0, n),
    };
    match built {
        Ok(_) => Ok(new_instance("Duration", fields)),
        Err(e) => Err(jiff_err(e)),
    }
}

fn duration_class(method: &str, args: &[VmValue], line: u32) -> (r: Result<DtValue, VmError>)
    ensures
        class_call_ok(DtClass::Duration, "Duration"@, method@, args@, line, r),
{
    let m = method_of(method);
    match m {
        DtMethod::OfYears | DtMethod::OfMonths | DtMethod::OfDays | DtMethod::OfHours | DtMethod::OfMinutes
        | DtMethod::OfSeconds | DtMethod::OfNanos => {
            if args.len() != 1 {
                return Err(wrong_args("Duration", method, 1, args.len(), line));
            }
            let mut ctx = String::from_str("Duration.");
            ctx.append(method);
            let n = int_arg(args, 0, ctx.as_str())?;
            duration_of(m, n)
        },
        DtMethod::Of => {
            if args.len() != 7 {
                return Err(wrong_args("Duration", "of", 7, args.len(), line));
            }
            let y = int_arg(args, 0, "Duration.of")?;
            let mo = int_arg(args, 1, "Duration.of")?;
            let d = int_arg(args, 2, "Duration.of")?;
            let h = int_arg(args, 3, "Duration.of")?;
            let mi = int_arg(args, 4, "Duration.of")?;
            let s = int_arg(args, 5, "Duration.of")?;
            let ns = int_arg(args, 6, "Duration.of")?;
            let sp = span_build(y, mo, d, h, mi, s, ns)?;
            Ok(mk_duration(&sp))
        },
        _ => Err(no_class_method("Duration", method, line)),
    }
}

/// Dispatch a class method of `Instant`, `Date`, `Time`, `DateTime`,
/// `ZonedDateTime` or `Duration`.  A name outside these classes is a type
/// error; so are a method the class does not have and a wrong number of
/// arguments (see `class_call_ok`).  On success the result is a new instance
/// of the class.
pub fn dispatch_class_method(
    heap: &GcHeap<HeapObject>,
    class_name: &str,
    method_name: &str,
    args: &[VmValue],
    line: u32,
) -> (r: Result<DtValue, VmError>)
    requires
        instances_in_heap(heap, args@),
    ensures
        dt_class(class_name@) == DtClass::Other ==> (r matches Err(e) && is_type_error(
            e,
            class_name@ + " has no native class method '"@ + method_name@ + "'"@,
            line,
        )),
        dt_class(class_name@) != DtClass::Other ==> class_call_ok(
            dt_class(class_name@),
            class_name@,
            method_name@,
            args@,
            line,
            r,
        ),
{
    match class_of(class_name) {
        DtClass::Instant => instant_class(method_name, args, line),
        DtClass::Date => date_class(method_name, args, line),
        DtClass::Time => time_class(method_name, args, line),
        DtClass::DateTime => datetime_class(method_name, args, line),
        DtClass::Zoned => zoned_class(heap, method_name, args, line),
        DtClass::Duration => duration_class(method_name, args, line),
        DtClass::Other => {
            let mut m = String::from_str(class_name);
            m.append(" has no native class method '");
            m.append(method_name);
            m.append("'");
            Err(VmError::TypeError { message: m, line })
        },
    }
}

// ── Instance methods ────────────────────────────────────────────────────────

fn str_value(s: String) -> (r: Result<DtValue, VmError>)
    ensures
        r matches Ok(DtValue::Value(VmValue::Str(t))) && t@ == s@,
{
    Ok(DtValue::Value(VmValue::Str(s)))
}

fn int_value(n: i64) -> (r: Result<DtValue, VmError>)
    ensures
        r == Ok::<DtValue, VmError>(DtValue::Value(VmValue::Int(n))),
{
    Ok(DtValue::Value(VmValue::Int(n)))
}

fn bool_value(b: bool) -> (r: Result<DtValue, VmError>)
    ensures
        r == Ok::<DtValue, VmError>(DtValue::Value(VmValue::Bool(b))),
{
    Ok(DtValue::Value(VmValue::Bool(b)))
}

fn instant_instance(
    heap: &GcHeap<HeapObject>,
    f: &Vec<(String, VmValue)>,
    method: &str,
    args: &[VmValue],
    line: u32,
) -> (r: Result<DtValue, VmError>)
    requires
        instances_in_heap(heap, args@),
    ensures
        instance_call_ok(DtClass::Instant, "Instant"@, method@, f@, args@, line, r),
        instant_compare_ok(heap, DtClass::Instant, method@, f@, args@, r),
        instant_sub_ok(heap, DtClass::Instant, method@, f@, args@, r),
{
    let m = method_of(method);
    match m {
        DtMethod::ToS | DtMethod::Inspect => str_value(ts_to_string(&to_timestamp(f)?)),
        DtMethod::EpochSeconds => int_value(get_int(f, "_secs")),
        DtMethod::EpochMillis => int_value(ts_as_millisecond(&to_timestamp(f)?)),
        DtMethod::Add | DtMethod::Sub | DtMethod::Before | DtMethod::After | DtMethod::Equal | DtMethod::Format
        | DtMethod::InTimezone => {
            if args.len() != 1 {
                return Err(wrong_args("Instant", method, 1, args.len(), line));
            }
            proof {
                assert(args@[0] matches VmValue::Instance { fields, .. } ==> heap.is_fields(fields));
            }
            match m {
                DtMethod::Add => {
                    let span = span_from_val(heap, &args[0])?;
                    match ts_checked_add(&to_timestamp(f)?, &span) {
                        Ok(x) => Ok(mk_instant(&x)),
                        Err(e) => Err(jiff_err(e)),
                    }
                },
                DtMethod::Sub => {
                    if let Some(of) = instance_fields(heap, &args[0], "Instant") {
                        let other = to_timestamp(of)?;
                        match ts_since(&to_timestamp(f)?, &other) {
                            Ok(_) => {
                                // The span `since` gives holds the difference in seconds,
                                // milliseconds, microseconds and nanoseconds; its seconds and
                                // nanoseconds are taken and put in hours, minutes and seconds.
                                let (h, mi, s, ns) = normalize_time_span(since_total_nanos(f, of));
                                span_build(0, 0, 0, h, mi, s, ns)?;
                                Ok(new_instance("Duration", span_parts(0, 0, 0, h, mi, s, ns)))
                            },
                            Err(e) => Err(jiff_err(e)),
                        }
                    } else if let Some(of) = instance_fields(heap, &args[0], "Duration") {
                        let span = to_span(of)?;
                        match ts_checked_sub(&to_timestamp(f)?, &span) {
                            Ok(x) => Ok(mk_instant(&x)),
                            Err(e) => Err(jiff_err(e)),
                        }
                    } else {
                        Err(raise_str("Instant.sub: argument must be an Instant or Duration"))
                    }
                },
                DtMethod::Before => {
                    let of = civil_fields_of(heap, &args[0], "Instant", "Instant.before?", "an Instant")?;
                    let _ = to_timestamp(of)?;
                    let _ = to_timestamp(f)?;
                    bool_value(instant_nanos(f) < instant_nanos(of))
                },
                DtMethod::After => {
                    let of = civil_fields_of(heap, &args[0], "Instant", "Instant.after?", "an Instant")?;
                    let _ = to_timestamp(of)?;
                    let _ = to_timestamp(f)?;
                    bool_value(instant_nanos(of) < instant_nanos(f))
                },
                DtMethod::Equal => {
                    let of = civil_fields_of(heap, &args[0], "Instant", "Instant.equal?", "an Instant")?;
                    let _ = to_timestamp(of)?;
                    let _ = to_timestamp(f)?;
                    bool_value(instant_nanos(f) == instant_nanos(of))
                },
                DtMethod::Format => {
                    let pat = str_arg(args, 0, "Instant.format")?;
                    str_value(ts_strftime(&to_timestamp(f)?, pat.as_str()))
                },
                _ => {
                    let name = str_arg(args, 0, "Instant.in_timezone")?;
                    let tz = zone_named(name.as_str())?;
                    Ok(mk_zoned(&ts_to_zoned(&to_timestamp(f)?, tz)))
                },
            }
        },
        _ => Err(no_method("Instant", method, line)),
    }
}

fn date_result(r: Result<jiff::civil::Date, jiff::Error>) -> (v: Result<DtValue, VmError>) {
    match r {
        Ok(d) => Ok(mk_date(&d)),
        Err(e) => Err(jiff_err(e)),
    }
}

fn date_instance(
    heap: &GcHeap<HeapObject>,
    f: &Vec<(String, VmValue)>,
    method: &str,
    args: &[VmValue],
    line: u32,
) -> (r: Result<DtValue, VmError>)
    requires
        instances_in_heap(heap, args@),
    ensures
        instance_call_ok(DtClass::Date, "Date"@, method@, f@, args@, line, r),
        compare_call_ok(heap, DtClass::Date, method@, f@, args@, r),
        day_step_ok(method@, f@, r),
        calendar_ok(method@, f@, r),
{
    let m = method_of(method);
    match m {
        DtMethod::ToS | DtMethod::Inspect => str_value(date_to_string(&to_date(f)?)),
        DtMethod::Year => int_value(get_int(f, "_y")),
        DtMethod::Month => int_value(get_int(f, "_mo")),
        DtMethod::Day => int_value(get_int(f, "_d")),
        DtMethod::DayOfWeek | DtMethod::DayOfYear | DtMethod::DaysInMonth => {
            to_date(f)?;
            let y = get_int(f, "_y") as i16 as i64;
            let mo = get_int(f, "_mo") as i8 as i64;
            let dd = get_int(f, "_d") as i8 as i64;
            if m == DtMethod::DayOfWeek {
                int_value(weekday_of(y, mo, dd))
            } else if m == DtMethod::DayOfYear {
                int_value(days_before_month_of(y, mo) + dd)
            } else {
                int_value(month_days_of(y, mo))
            }
        },
        DtMethod::NextDay | DtMethod::PrevDay => {
            let d = to_date(f)?;
            let y = get_int(f, "_y") as i16 as i64;
            let mo = get_int(f, "_mo") as i8 as i64;
            let dd = get_int(f, "_d") as i8 as i64;
            let (ny, nm, nd) = if m == DtMethod::NextDay {
                next_day_of(y, mo, dd)
            } else {
                prev_day_of(y, mo, dd)
            };
            if -9999 <= ny && ny <= 9999 {
                let mut fs: Vec<(String, VmValue)> = Vec::new();
                fs.push(field("_y", VmValue::Int(ny)));
                fs.push(field("_mo", VmValue::Int(nm)));
                fs.push(field("_d", VmValue::Int(nd)));
                proof {
                    lemma_date_fields(fs@, ny as int, nm as int, nd as int);
                }
                return Ok(new_instance("Date", fs));
            }
            // A step past the supported years: the crate reports the error.
            let one = match span_try_days(&span_new(), 1) {
                Ok(x) => x,
                Err(e) => return Err(jiff_err(e)),
            };
            if m == DtMethod::NextDay {
                date_result(date_checked_add(&d, &one))
            } else {
                date_result(date_checked_sub(&d, &one))
            }
        },
        DtMethod::Add | DtMethod::Sub | DtMethod::Before | DtMethod::After | DtMethod::Equal | DtMethod::Format => {
            if args.len() != 1 {
                return Err(wrong_args("Date", method, 1, args.len(), line));
            }
            proof {
                assert(args@[0] matches VmValue::Instance { fields, .. } ==> heap.is_fields(fields));
            }
            match m {
                DtMethod::Add => {
                    let span = span_from_val(heap, &args[0])?;
                    date_result(date_checked_add(&to_date(f)?, &span))
                },
                DtMethod::Sub => {
                    if let Some(of) = instance_fields(heap, &args[0], "Date") {
                        let other = to_date(of)?;
                        match date_since(&to_date(f)?, &other) {
                            Ok(sp) => Ok(mk_duration(&sp)),
                            Err(e) => Err(jiff_err(e)),
                        }
                    } else if let Some(of) = instance_fields(heap, &args[0], "Duration") {
                        let span = to_span(of)?;
                        date_result(date_checked_sub(&to_date(f)?, &span))
                    } else {
                        Err(raise_str("Date.sub: argument must be a Date or Duration"))
                    }
                },
                DtMethod::Before => {
                    let of = civil_fields_of(heap, &args[0], "Date", "Date.before?", "a Date")?;
                    let _ = to_date(of)?;
                    let _ = to_date(f)?;
                    bool_value(lex_less(&date_key_vec(f), &date_key_vec(of)))
                },
                DtMethod::After => {
                    let of = civil_fields_of(heap, &args[0], "Date", "Date.after?", "a Date")?;
                    let _ = to_date(of)?;
                    let _ = to_date(f)?;
                    bool_value(lex_less(&date_key_vec(of), &date_key_vec(f)))
                },
                DtMethod::Equal => {
                    let of = civil_fields_of(heap, &args[0], "Date", "Date.equal?", "a Date")?;
                    let _ = to_date(of)?;
                    let _ = to_date(f)?;
                    bool_value(keys_equal(&date_key_vec(f), &date_key_vec(of)))
                },
                _ => {
                    let pat = str_arg(args, 0, "Date.format")?;
                    str_value(date_strftime(&to_date(f)?, pat.as_str()))
                },
            }
        },
        _ => Err(no_method("Date", method, line)),
    }
}

fn time_instance(
    heap: &GcHeap<HeapObject>,
    f: &Vec<(String, VmValue)>,
    method: &str,
    args: &[VmValue],
    line: u32,
) -> (r: Result<DtValue, VmError>)
    requires
        instances_in_heap(heap, args@),
    ensures
        instance_call_ok(DtClass::Time, "Time"@, method@, f@, args@, line, r),
        compare_call_ok(heap, DtClass::Time, method@, f@, args@, r),
{
    let m = method_of(method);
    match m {
        DtMethod::ToS | DtMethod::Inspect => str_value(time_to_string(&to_time(f)?)),
        DtMethod::Hour => int_value(get_int(f, "_h")),
        DtMethod::Minute => int_value(get_int(f, "_mi")),
        DtMethod::Second => int_value(get_int(f, "_s")),
        DtMethod::Nano => int_value(get_int(f, "_ns")),
        DtMethod::Before | DtMethod::After | DtMethod::Equal | DtMethod::Format => {
            if args.len() != 1 {
                return Err(wrong_args("Time", method, 1, args.len(), line));
            }
            proof {
                assert(args@[0] matches VmValue::Instance { fields, .. } ==> heap.is_fields(fields));
            }
            match m {
                DtMethod::Before => {
                    let of = civil_fields_of(heap, &args[0], "Time", "Time.before?", "a Time")?;
                    let _ = to_time(of)?;
                    let _ = to_time(f)?;
                    bool_value(lex_less(&time_key_vec(f), &time_key_vec(of)))
                },
                DtMethod::After => {
                    let of = civil_fields_of(heap, &args[0], "Time", "Time.after?", "a Time")?;
                    let _ = to_time(of)?;
                    let _ = to_time(f)?;
                    bool_value(lex_less(&time_key_vec(of), &time_key_vec(f)))
                },
                DtMethod::Equal => {
                    let of = civil_fields_of(heap, &args[0], "Time", "Time.equal?", "a Time")?;
                    let _ = to_time(of)?;
                    let _ = to_time(f)?;
                    bool_value(keys_equal(&time_key_vec(f), &time_key_vec(of)))
                },
                _ => {
                    let pat = str_arg(args, 0, "Time.format")?;
                    str_value(time_strftime(&to_time(f)?, pat.as_str()))
                },
            }
        },
        _ => Err(no_method("Time", method, line)),
    }
}

fn datetime_result(r: Result<jiff::civil::DateTime, jiff::Error>) -> (v: Result<DtValue, VmError>) {
    match r {
        Ok(d) => Ok(mk_datetime(&d)),
        Err(e) => Err(jiff_err(e)),
    }
}

fn datetime_instance(
    heap: &GcHeap<HeapObject>,
    f: &Vec<(String, VmValue)>,
    method: &str,
    args: &[VmValue],
    line: u32,
) -> (r: Result<DtValue, VmError>)
    requires
        instances_in_heap(heap, args@),
    ensures
        instance_call_ok(DtClass::DateTime, "DateTime"@, method@, f@, args@, line, r),
        compare_call_ok(heap, DtClass::DateTime, method@, f@, args@, r),
{
    let m = method_of(method);
    match m {
        DtMethod::ToS | DtMethod::Inspect => str_value(dt_to_string(&to_datetime(f)?)),
        DtMethod::Year => int_value(get_int(f, "_y")),
        DtMethod::Month => int_value(get_int(f, "_mo")),
        DtMethod::Day => int_value(get_int(f, "_d")),
        DtMethod::Hour => int_value(get_int(f, "_h")),
        DtMethod::Minute => int_value(get_int(f, "_mi")),
        DtMethod::Second => int_value(get_int(f, "_s")),
        DtMethod::Nano => int_value(get_int(f, "_ns")),
        DtMethod::Date => Ok(mk_date(&dt_date(&to_datetime(f)?))),
        DtMethod::Time => Ok(mk_time(&dt_time(&to_datetime(f)?))),
        DtMethod::ToInstant => match dt_to_zoned(&to_datetime(f)?, tz_utc()) {
            Ok(z) => Ok(mk_instant(&zoned_timestamp(&z))),
            Err(e) => Err(jiff_err(e)),
        },
        DtMethod::Add | DtMethod::Sub | DtMethod::Before | DtMethod::After | DtMethod::Equal | DtMethod::Format
        | DtMethod::InTimezone => {
            if args.len() != 1 {
                return Err(wrong_args("DateTime", method, 1, args.len(), line));
            }
            proof {
                assert(args@[0] matches VmValue::Instance { fields, .. } ==> heap.is_fields(fields));
            }
            match m {
                DtMethod::Add => {
                    let span = span_from_val(heap, &args[0])?;
                    datetime_result(dt_checked_add(&to_datetime(f)?, &span))
                },
                DtMethod::Sub => {
                    if let Some(of) = instance_fields(heap, &args[0], "DateTime") {
                        let other = to_datetime(of)?;
                        match dt_since(&to_datetime(f)?, &other) {
                            Ok(sp) => Ok(mk_duration(&sp)),
                            Err(e) => Err(jiff_err(e)),
                        }
                    } else if let Some(of) = instance_fields(heap, &args[0], "Duration") {
                        let span = to_span(of)?;
                        datetime_result(dt_checked_sub(&to_datetime(f)?, &span))
                    } else {
                        Err(raise_str("DateTime.sub: argument must be a DateTime or Duration"))
                    }
                },
                DtMethod::Before => {
                    let of = civil_fields_of(heap, &args[0], "DateTime", "DateTime.before?", "a DateTime")?;
                    let _ = to_datetime(of)?;
                    let _ = to_datetime(f)?;
                    bool_value(lex_less(&datetime_key_vec(f), &datetime_key_vec(of)))
                },
                DtMethod::After => {
                    let of = civil_fields_of(heap, &args[0], "DateTime", "DateTime.after?", "a DateTime")?;
                    let _ = to_datetime(of)?;
                    let _ = to_datetime(f)?;
                    bool_value(lex_less(&datetime_key_vec(of), &datetime_key_vec(f)))
                },
                DtMethod::Equal => {
                    let of = civil_fields_of(heap, &args[0], "DateTime", "DateTime.equal?", "a DateTime")?;
                    let _ = to_datetime(of)?;
                    let _ = to_datetime(f)?;
                    bool_value(keys_equal(&datetime_key_vec(f), &datetime_key_vec(of)))
                },
                DtMethod::Format => {
                    let pat = str_arg(args, 0, "DateTime.format")?;
                    str_value(dt_strftime(&to_datetime(f)?, pat.as_str()))
                },
                _ => {
                    let name = str_arg(args, 0, "DateTime.in_timezone")?;
                    let tz = zone_named(name.as_str())?;
                    let dt = to_datetime(f)?;
                    zoned_result(az_compatible(tz_to_ambiguous_zoned(&tz, &dt)))
                },
            }
        },
        _ => Err(no_method("DateTime", method, line)),
    }
}

fn zoned_instance(
    heap: &GcHeap<HeapObject>,
    f: &Vec<(String, VmValue)>,
    method: &str,
    args: &[VmValue],
    line: u32,
) -> (r: Result<DtValue, VmError>)
    requires
        instances_in_heap(heap, args@),
    ensures
        instance_call_ok(DtClass::Zoned, "ZonedDateTime"@, method@, f@, args@, line, r),
        instant_compare_ok(heap, DtClass::Zoned, method@, f@, args@, r),
{
    let m = method_of(method);
    match m {
        DtMethod::ToS | DtMethod::Inspect => str_value(zoned_to_string(&to_zoned(f)?)),
        DtMethod::Year => int_value(date_year(&zoned_date(&to_zoned(f)?)) as i64),
        DtMethod::Month => int_value(date_month(&zoned_date(&to_zoned(f)?)) as i64),
        DtMethod::Day => int_value(date_day(&zoned_date(&to_zoned(f)?)) as i64),
        DtMethod::Hour => int_value(time_hour(&zoned_time(&to_zoned(f)?)) as i64),
        DtMethod::Minute => int_value(time_minute(&zoned_time(&to_zoned(f)?)) as i64),
        DtMethod::Second => int_value(time_second(&zoned_time(&to_zoned(f)?)) as i64),
        DtMethod::Nano => int_value(time_subsec_nanosecond(&zoned_time(&to_zoned(f)?)) as i64),
        DtMethod::Timezone => str_value(get_str(f, "_tz")),
        DtMethod::EpochSeconds => int_value(get_int(f, "_secs")),
        DtMethod::EpochMillis => int_value(ts_as_millisecond(&zoned_timestamp(&to_zoned(f)?))),
        DtMethod::Date => Ok(mk_date(&zoned_date(&to_zoned(f)?))),
        DtMethod::Time => Ok(mk_time(&zoned_time(&to_zoned(f)?))),
        DtMethod::Datetime => Ok(mk_datetime(&zoned_datetime(&to_zoned(f)?))),
        DtMethod::ToInstant => Ok(mk_instant(&zoned_timestamp(&to_zoned(f)?))),
        DtMethod::ToUtc => {
            let ts = zoned_timestamp(&to_zoned(f)?);
            Ok(mk_zoned(&ts_to_zoned(&ts, tz_utc())))
        },
        DtMethod::WithTimezone | DtMethod::Add | DtMethod::Sub | DtMethod::Before | DtMethod::After
        | DtMethod::Equal | DtMethod::Format => {
            if args.len() != 1 {
                return Err(wrong_args("ZonedDateTime", method, 1, args.len(), line));
            }
            proof {
                assert(args@[0] matches VmValue::Instance { fields, .. } ==> heap.is_fields(fields));
            }
            match m {
                DtMethod::WithTimezone => {
                    let name = str_arg(args, 0, "ZonedDateTime.with_timezone")?;
                    let tz = zone_named(name.as_str())?;
                    let ts = zoned_timestamp(&to_zoned(f)?);
                    Ok(mk_zoned(&ts_to_zoned(&ts, tz)))
                },
                DtMethod::Add => {
                    let span = span_from_val(heap, &args[0])?;
                    zoned_result(zoned_checked_add(&to_zoned(f)?, &span))
                },
                DtMethod::Sub => {
                    let z = to_zoned(f)?;
                    if let Some(of) = instance_fields(heap, &args[0], "ZonedDateTime") {
                        let other = to_zoned(of)?;
                        match zoned_since(&z, &other) {
                            Ok(sp) => Ok(mk_duration(&sp)),
                            Err(e) => Err(jiff_err(e)),
                        }
                    } else if let Some(of) = instance_fields(heap, &args[0], "Duration") {
                        let span = to_span(of)?;
                        zoned_result(zoned_checked_sub(&z, &span))
                    } else {
                        Err(raise_str("ZonedDateTime.sub: argument must be ZonedDateTime or Duration"))
                    }
                },
                DtMethod::Before => {
                    let of = civil_fields_of(heap, &args[0], "ZonedDateTime", "ZonedDateTime.before?", "a ZonedDateTime")?;
                    let _ = to_zoned(of)?;
                    let _ = to_zoned(f)?;
                    bool_value(instant_nanos(f) < instant_nanos(of))
                },
                DtMethod::After => {
                    let of = civil_fields_of(heap, &args[0], "ZonedDateTime", "ZonedDateTime.after?", "a ZonedDateTime")?;
                    let _ = to_zoned(of)?;
                    let _ = to_zoned(f)?;
                    bool_value(instant_nanos(of) < instant_nanos(f))
                },
                DtMethod::Equal => {
                    let of = civil_fields_of(heap, &args[0], "ZonedDateTime", "ZonedDateTime.equal?", "a ZonedDateTime")?;
                    let _ = to_zoned(of)?;
                    let _ = to_zoned(f)?;
                    bool_value(instant_nanos(f) == instant_nanos(of))
                },
                _ => {
                    let pat = str_arg(args, 0, "ZonedDateTime.format")?;
                    str_value(zoned_strftime(&to_zoned(f)?, pat.as_str()))
                },
            }
        },
        _ => Err(no_method("ZonedDateTime", method, line)),
    }
}

fn duration_instance(
    heap: &GcHeap<HeapObject>,
    f: &Vec<(String, VmValue)>,
    method: &str,
    args: &[VmValue],
    line: u32,
) -> (r: Result<DtValue, VmError>)
    requires
        instances_in_heap(heap, args@),
    ensures
        instance_call_ok(DtClass::Duration, "Duration"@, method@, f@, args@, line, r),
{
    let m = method_of(method);
    match m {
        DtMethod::ToS | DtMethod::Inspect => str_value(span_to_string(&to_span(f)?)),
        DtMethod::Years => int_value(get_int(f, "_years")),
        DtMethod::Months => int_value(get_int(f, "_months")),
        DtMethod::Days => int_value(get_int(f, "_days")),
        DtMethod::Hours => int_value(get_int(f, "_hours")),
        DtMethod::Minutes => int_value(get_int(f, "_minutes")),
        DtMethod::Seconds => int_value(get_int(f, "_secs")),
        DtMethod::Nanos => int_value(get_int(f, "_ns")),
        DtMethod::Negate => Ok(mk_duration(&span_negate(&to_span(f)?))),
        DtMethod::Abs => {
            let s = to_span(f)?;
            let neg = span_get_years(&s) < 0 || span_get_months(&s) < 0 || span_get_days(&s) < 0 || span_get_hours(&s)
                < 0 || span_get_minutes(&s) < 0 || span_get_seconds(&s) < 0 || span_get_nanoseconds(&s) < 0;
            if neg {
                Ok(mk_duration(&span_negate(&s)))
            } else {
                Ok(mk_duration(&s))
            }
        },
        DtMethod::Add => {
            if args.len() != 1 {
                return Err(wrong_args("Duration", "add", 1, args.len(), line));
            }
            proof {
                assert(args@[0] matches VmValue::Instance { fields, .. } ==> heap.is_fields(fields));
            }
            let other = span_from_val(heap, &args[0])?;
            let a = to_span(f)?;
            let combined = span_build(
                span_get_years(&a) as i64 + span_get_years(&other) as i64,
                span_get_months(&a) as i64 + span_get_months(&other) as i64,
                span_get_days(&a) as i64 + span_get_days(&other) as i64,
                span_get_hours(&a) as i64 + span_get_hours(&other) as i64,
                span_get_minutes(&a).wrapping_add(span_get_minutes(&other)),
                span_get_seconds(&a).wrapping_add(span_get_seconds(&other)),
                span_get_nanoseconds(&a).wrapping_add(span_get_nanoseconds(&other)),
            )?;
            Ok(mk_duration(&combined))
        },
        _ => Err(no_method("Duration", method, line)),
    }
}

/// Dispatch a method of an instance of `Instant`, `Date`, `Time`,
/// `DateTime`, `ZonedDateTime` or `Duration`, whose fields are in slot
/// `fields`.  A name outside these classes is a type error; so are a method
/// the class does not have and a one-argument method called with another
/// number; the field readers give the field (see `instance_call_ok`).
pub fn dispatch_instance_method(
    heap: &GcHeap<HeapObject>,
    class_name: &str,
    fields: GcRef,
    method_name: &str,
    args: &[VmValue],
    line: u32,
) -> (r: Result<DtValue, VmError>)
    requires
        heap.is_fields(fields),
        instances_in_heap(heap, args@),
    ensures
        dt_class(class_name@) == DtClass::Other ==> (r matches Err(e) && is_type_error(
            e,
            class_name@ + " has no native method '"@ + method_name@ + "'"@,
            line,
        )),
        dt_class(class_name@) != DtClass::Other ==> instance_call_ok(
            dt_class(class_name@),
            class_name@,
            method_name@,
            heap.fields(fields),
            args@,
            line,
            r,
        ),
        compare_call_ok(heap, dt_class(class_name@), method_name@, heap.fields(fields), args@, r),
        dt_class(class_name@) == DtClass::Date ==> day_step_ok(method_name@, heap.fields(fields), r),
        dt_class(class_name@) == DtClass::Date ==> calendar_ok(method_name@, heap.fields(fields), r),
        instant_compare_ok(heap, dt_class(class_name@), method_name@, heap.fields(fields), args@, r),
        instant_sub_ok(heap, dt_class(class_name@), method_name@, heap.fields(fields), args@, r),
{
    let f = heap.get_fields(fields);
    match class_of(class_name) {
        DtClass::Instant => instant_instance(heap, f, method_name, args, line),
        DtClass::Date => date_instance(heap, f, method_name, args, line),
        DtClass::Time => time_instance(heap, f, method_name, args, line),
        DtClass::DateTime => datetime_instance(heap, f, method_name, args, line),
        DtClass::Zoned => zoned_instance(heap, f, method_name, args, line),
        DtClass::Duration => duration_instance(heap, f, method_name, args, line),
        DtClass::Other => {
            let mut m = String::from_str(class_name);
            m.append(" has no native method '");
            m.append(method_name);
            m.append("'");
            Err(VmError::TypeError { message: m, line })
        },
    }
}

} // verus!
