//! The wake schedule that the app writes for the wake helper: the record
//! itself, how an update fills it, and when a wake planned for a clock time
//! falls.
use vstd::prelude::*;
use chrono::{Datelike, Timelike};
use crate::text::{
    clone_opt, decimal, digits_value, is_digit, joined, lemma_padded_field, opt_text, push_char,
    two_digits, zero_padded,
};

verus! {

/// The schedule record that the helper reads (`nextWake`, `enabled`,
/// `alarmTime` and `label` in its JSON form).
pub struct WakeSchedule {
    pub next_wake: Option<String>,
    pub enabled: bool,
    pub alarm_time: Option<String>,
    pub label: Option<String>,
}

/// The contents of a schedule record.
pub struct WakeScheduleView {
    pub next_wake: Option<Seq<char>>,
    pub enabled: bool,
    pub alarm_time: Option<Seq<char>>,
    pub label: Option<Seq<char>>,
}

impl View for WakeSchedule {
    type V = WakeScheduleView;

    open spec fn view(&self) -> WakeScheduleView {
        WakeScheduleView {
            next_wake: opt_text(self.next_wake),
            enabled: self.enabled,
            alarm_time: opt_text(self.alarm_time),
            label: opt_text(self.label),
        }
    }
}

/// The schedule that an update writes: enabled exactly when a wake time is
/// given, the other fields as they come.
pub open spec fn updated_schedule(
    next_wake: Option<Seq<char>>,
    alarm_time: Option<Seq<char>>,
    label: Option<Seq<char>>,
) -> WakeScheduleView {
    WakeScheduleView { next_wake, enabled: next_wake is Some, alarm_time, label }
}

/// The schedule record for an update of the wake schedule.
pub fn schedule_update(
    next_wake: Option<String>,
    alarm_time: Option<String>,
    label: Option<String>,
) -> (s: WakeSchedule)
    ensures
        s@ == updated_schedule(opt_text(next_wake), opt_text(alarm_time), opt_text(label)),
        s.enabled == next_wake.is_some(),
        opt_text(s.next_wake) == opt_text(next_wake),
        opt_text(s.alarm_time) == opt_text(alarm_time),
        opt_text(s.label) == opt_text(label),
{
    proof {
        lemma_enabled_exactly_with_a_wake_time(
            opt_text(next_wake),
            opt_text(alarm_time),
            opt_text(label),
        );
    }
    let enabled = next_wake.is_some();
    WakeSchedule { next_wake: clone_opt(&next_wake), enabled, alarm_time, label }
}

/// An update enables the schedule exactly when it gives a wake time,
/// whatever the alarm time and the label, and keeps the three as given.
pub proof fn lemma_enabled_exactly_with_a_wake_time(
    next_wake: Option<Seq<char>>,
    alarm_time: Option<Seq<char>>,
    label: Option<Seq<char>>,
)
    ensures
        updated_schedule(next_wake, alarm_time, label).enabled <==> next_wake is Some,
        updated_schedule(next_wake, alarm_time, label).next_wake == next_wake,
        updated_schedule(next_wake, alarm_time, label).alarm_time == alarm_time,
        updated_schedule(next_wake, alarm_time, label).label == label,
{
}

/// The answer to a successful update.
pub open spec fn update_message(next_wake: Option<Seq<char>>) -> Seq<char> {
    match next_wake {
        Some(w) => "Wake schedule updated: "@ + w,
        None => "Wake schedule disabled"@,
    }
}

/// The answer to a successful update of the wake schedule.
pub fn schedule_update_message(s: &WakeSchedule) -> (m: String)
    ensures
        m@ == update_message(s@.next_wake),
{
    match &s.next_wake {
        Some(w) => joined("Wake schedule updated: ", w.as_str()),
        None => String::from_str("Wake schedule disabled"),
    }
}

/// The steps of writing the schedule that can fail.
#[derive(PartialEq, Eq, Structural, Clone, Copy, Debug)]
pub enum ScheduleStep {
    /// Creating the shared directory, on an update.
    CreateDirectory,
    /// Encoding the record as JSON.
    Encode,
    /// Writing the file, on an update.
    WriteUpdate,
    /// Writing the file, when a wake is planned for a clock time.
    WriteWake,
}

/// The prefix of the error for a failed step.
pub open spec fn step_prefix(step: ScheduleStep) -> Seq<char> {
    match step {
        ScheduleStep::CreateDirectory => "Cannot create directory: "@,
        ScheduleStep::Encode => "JSON error: "@,
        ScheduleStep::WriteUpdate => "Cannot write schedule: "@,
        ScheduleStep::WriteWake => "Write error: "@,
    }
}

/// The error for a failed step, with the cause's text.
pub fn schedule_error(step: ScheduleStep, detail: &str) -> (e: String)
    ensures
        e@ == step_prefix(step) + detail@,
{
    let prefix = match step {
        ScheduleStep::CreateDirectory => "Cannot create directory: ",
        ScheduleStep::Encode => "JSON error: ",
        ScheduleStep::WriteUpdate => "Cannot write schedule: ",
        ScheduleStep::WriteWake => "Write error: ",
    };
    joined(prefix, detail)
}

// ---------------------------------------------------------------------------
// Planning a wake for a clock time
// ---------------------------------------------------------------------------

/// The first year of the calendar that chrono's dates cover.
pub open spec fn min_year() -> int {
    -262143
}

/// The last year of the calendar that chrono's dates cover.
pub open spec fn max_year() -> int {
    262142
}

/// A date and wall-clock time in local time, without time zone.
#[derive(PartialEq, Eq, Structural, Clone, Copy, Debug)]
pub struct LocalDateTime {
    pub year: i32,
    pub month: u32,
    pub day: u32,
    pub hour: u32,
    pub minute: u32,
    pub second: u32,
}

/// Leap years of the proleptic Gregorian calendar.
pub open spec fn is_leap_year(y: int) -> bool {
    (y % 4 == 0 && y % 100 != 0) || y % 400 == 0
}

/// The number of days of month `m` of year `y`.
pub open spec fn days_in_month(y: int, m: int) -> int {
    if m == 2 {
        if is_leap_year(y) {
            29
        } else {
            28
        }
    } else if m == 4 || m == 6 || m == 9 || m == 11 {
        30
    } else {
        31
    }
}

/// A date of the calendar that chrono covers, with a time of day to the
/// second.
pub open spec fn valid_date_time(t: LocalDateTime) -> bool {
    &&& min_year() <= t.year <= max_year()
    &&& 1 <= t.month <= 12
    &&& 1 <= t.day <= days_in_month(t.year as int, t.month as int)
    &&& t.hour < 24
    &&& t.minute < 60
    &&& t.second < 60
}

/// The last day that chrono's dates cover.
pub open spec fn is_last_day(t: LocalDateTime) -> bool {
    t.year == max_year() && t.month == 12 && t.day == 31
}

/// The same time of day on the following day.
pub open spec fn next_day(t: LocalDateTime) -> LocalDateTime {
    if t.day < days_in_month(t.year as int, t.month as int) {
        LocalDateTime { day: (t.day + 1) as u32, ..t }
    } else if t.month < 12 {
        LocalDateTime { month: (t.month + 1) as u32, day: 1, ..t }
    } else {
        LocalDateTime { year: (t.year + 1) as i32, month: 1, day: 1, ..t }
    }
}

/// `a` comes before `b`.
pub open spec fn is_before(a: LocalDateTime, b: LocalDateTime) -> bool {
    ||| a.year < b.year
    ||| a.year == b.year && a.month < b.month
    ||| a.year == b.year && a.month == b.month && a.day < b.day
    ||| a.year == b.year && a.month == b.month && a.day == b.day && (a.hour, a.minute, a.second)
        != (b.hour, b.minute, b.second) && (a.hour < b.hour || (a.hour == b.hour && (a.minute
        < b.minute || (a.minute == b.minute && a.second < b.second))))
}

/// Adds one day with chrono (`NaiveDateTime + Duration::days(1)`). Its
/// contract claims the Gregorian successor date at the same time of day,
/// for every date before chrono's last one, where the addition would panic.
#[verifier::external_body]
fn day_after(t: LocalDateTime) -> (r: LocalDateTime)
    requires
        valid_date_time(t),
        !is_last_day(t),
    ensures
        r == next_day(t),
{
    let moment = chrono::NaiveDate::from_ymd_opt(t.year, t.month, t.day).unwrap().and_hms_opt(
        t.hour,
        t.minute,
        t.second,
    ).unwrap() + chrono::Duration::days(1);
    LocalDateTime {
        year: moment.year(),
        month: moment.month(),
        day: moment.day(),
        hour: moment.hour(),
        minute: moment.minute(),
        second: moment.second(),
    }
}

/// The year as chrono's `%Y` writes it: four zero-padded digits for the
/// years 0 to 9999, and outside them a sign before at least four digits.
pub open spec fn year_text(y: int) -> Seq<char> {
    if 0 <= y <= 9999 {
        zero_padded(decimal(y as nat), 4)
    } else if y > 9999 {
        seq!['+'] + decimal(y as nat)
    } else {
        seq!['-'] + zero_padded(decimal((-y) as nat), 4)
    }
}

/// `YYYY-MM-DDTHH:MM:SS`, each field but the year zero-padded to two
/// digits, as chrono's format `%Y-%m-%dT%H:%M:%S` gives it.
pub open spec fn iso_form(t: LocalDateTime) -> Seq<char> {
    year_text(t.year as int) + seq!['-'] + zero_padded(decimal(t.month as nat), 2) + seq!['-']
        + zero_padded(decimal(t.day as nat), 2) + seq!['T'] + zero_padded(decimal(t.hour as nat), 2)
        + seq![':'] + zero_padded(decimal(t.minute as nat), 2) + seq![':'] + zero_padded(
        decimal(t.second as nat),
        2,
    )
}

/// Formats with chrono's `format("%Y-%m-%dT%H:%M:%S")`. Its contract claims
/// the text of `iso_form`: chrono writes `%Y` with four zero-padded digits
/// for the years 0 to 9999 and with a sign and at least four digits
/// outside them, and every other field with two zero-padded digits.
#[verifier::external_body]
fn iso_text(t: LocalDateTime) -> (s: String)
    requires
        valid_date_time(t),
    ensures
        s@ == iso_form(t),
{
    chrono::NaiveDate::from_ymd_opt(t.year, t.month, t.day).unwrap().and_hms_opt(
        t.hour,
        t.minute,
        t.second,
    ).unwrap().format("%Y-%m-%dT%H:%M:%S").to_string()
}

/// The wake planned for `hour:minute` on a day: that time, to the minute.
pub open spec fn candidate_at(year: int, month: int, day: int, hour: int, minute: int) -> LocalDateTime {
    LocalDateTime {
        year: year as i32,
        month: month as u32,
        day: day as u32,
        hour: hour as u32,
        minute: minute as u32,
        second: 0,
    }
}

/// The wake for `hour:minute` on the given day (today's local date).
pub fn wake_candidate(year: i32, month: u32, day: u32, hour: u8, minute: u8) -> (t: LocalDateTime)
    requires
        valid_date_time(candidate_at(year as int, month as int, day as int, 0, 0)),
        hour < 24,
        minute < 60,
    ensures
        t == candidate_at(year as int, month as int, day as int, hour as int, minute as int),
        valid_date_time(t),
{
    LocalDateTime { year, month, day, hour: hour as u32, minute: minute as u32, second: 0 }
}

/// An instant as chrono's `DateTime` holds it: the seconds since the Unix
/// epoch and the nanoseconds within that second (past one billion during a
/// leap second).
#[derive(PartialEq, Eq, Structural, Clone, Copy, Debug)]
pub struct Timestamp {
    pub seconds: i64,
    pub nanos: u32,
}

/// `a` is not after `b`: the order of instants that chrono compares
/// `DateTime`s by.
pub open spec fn not_after(a: Timestamp, b: Timestamp) -> bool {
    a.seconds < b.seconds || (a.seconds == b.seconds && a.nanos <= b.nanos)
}

/// Whether the wake planned for today has already come: its instant is not
/// after now.
pub fn wake_time_has_passed(wake: Timestamp, now: Timestamp) -> (passed: bool)
    ensures
        passed == not_after(wake, now),
        wake.seconds < now.seconds ==> passed,
        now.seconds < wake.seconds ==> !passed,
        wake.seconds == now.seconds ==> (passed <==> wake.nanos <= now.nanos),
{
    wake.seconds < now.seconds || (wake.seconds == now.seconds && wake.nanos <= now.nanos)
}

/// When the wake falls: at the candidate time, or, where that time of
/// today has already come, at the same time tomorrow.
pub open spec fn wake_moment(candidate: LocalDateTime, already_passed: bool) -> LocalDateTime {
    if already_passed {
        next_day(candidate)
    } else {
        candidate
    }
}

/// The alarm time as `HH:MM`.
pub open spec fn alarm_text(hour: nat, minute: nat) -> Seq<char> {
    zero_padded(decimal(hour), 2) + seq![':'] + zero_padded(decimal(minute), 2)
}

/// The alarm time as `format!("{:02}:{:02}", hour, minute)` gives it.
pub fn alarm_label(hour: u8, minute: u8) -> (s: String)
    ensures
        s@ == alarm_text(hour as nat, minute as nat),
        hour < 100 && minute < 100 ==> {
            &&& s@.len() == 5
            &&& s@[2] == ':'
            &&& digits_value(s@.subrange(0, 2)) == hour
            &&& digits_value(s@.subrange(3, 5)) == minute
        },
{
    proof {
        if hour < 100 && minute < 100 {
            lemma_alarm_text_reads_back(hour as nat, minute as nat);
        }
    }
    let mut s = two_digits(hour as u64);
    push_char(&mut s, ':');
    let m = two_digits(minute as u64);
    s.append(m.as_str());
    assert(s@ =~= alarm_text(hour as nat, minute as nat));
    s
}

/// The schedule of a wake planned for a clock time.
pub open spec fn wake_schedule(iso: Seq<char>, hour: nat, minute: nat) -> WakeScheduleView {
    WakeScheduleView {
        next_wake: Some(iso),
        enabled: true,
        alarm_time: Some(alarm_text(hour, minute)),
        label: None,
    }
}

/// The schedule record of a wake at the time written `iso`, set for
/// `hour:minute`, and the answer that reports it.
pub fn scheduled_wake(iso: String, hour: u8, minute: u8) -> (r: (WakeSchedule, String))
    ensures
        r.0@ == wake_schedule(iso@, hour as nat, minute as nat),
        r.1@ == "Wake scheduled for "@ + iso@,
{
    let message = joined("Wake scheduled for ", iso.as_str());
    let schedule = WakeSchedule {
        next_wake: Some(iso),
        enabled: true,
        alarm_time: Some(alarm_label(hour, minute)),
        label: None,
    };
    (schedule, message)
}

/// Plans the wake for `hour:minute` on the given day: at that time, or a
/// day later where it has already passed; gives the schedule record and the
/// answer.
pub fn plan_wake(candidate: LocalDateTime, already_passed: bool) -> (r: (WakeSchedule, String))
    requires
        valid_date_time(candidate),
        already_passed ==> !is_last_day(candidate),
    ensures
        r.0@ == wake_schedule(
            iso_form(wake_moment(candidate, already_passed)),
            candidate.hour as nat,
            candidate.minute as nat,
        ),
        r.1@ == "Wake scheduled for "@ + iso_form(wake_moment(candidate, already_passed)),
        already_passed ==> r.0@.next_wake == Some(iso_form(next_day(candidate))),
        !already_passed ==> r.0@.next_wake == Some(iso_form(candidate)),
        r.0@.enabled,
        r.0@.alarm_time == Some(alarm_text(candidate.hour as nat, candidate.minute as nat)),
{
    let moment = if already_passed {
        day_after(candidate)
    } else {
        candidate
    };
    let iso = iso_text(moment);
    scheduled_wake(iso, candidate.hour as u8, candidate.minute as u8)
}

/// The day after a date of the calendar is again a date of it, and later:
/// a wake moved to tomorrow is a valid time after the one planned for today.
pub proof fn lemma_next_day_is_later(t: LocalDateTime)
    requires
        valid_date_time(t),
        !is_last_day(t),
    ensures
        valid_date_time(next_day(t)),
        is_before(t, next_day(t)),
        next_day(t).hour == t.hour && next_day(t).minute == t.minute && next_day(t).second
            == t.second,
{
}

/// A wake whose time has already passed today moves forward: it falls
/// after the planned time, at the same time of day, on a date of the
/// calendar; a wake still ahead stays at the planned time.
pub proof fn lemma_passed_wake_moves_forward(c: LocalDateTime)
    requires
        valid_date_time(c),
        !is_last_day(c),
    ensures
        is_before(c, wake_moment(c, true)),
        valid_date_time(wake_moment(c, true)),
        wake_moment(c, true).hour == c.hour,
        wake_moment(c, true).minute == c.minute,
        wake_moment(c, true).second == c.second,
        wake_moment(c, false) == c,
{
    lemma_next_day_is_later(c);
}

/// The alarm time reads back as the clock time it was made from: two
/// digits of the hour, a colon, two digits of the minute.
pub proof fn lemma_alarm_text_reads_back(hour: nat, minute: nat)
    requires
        hour < 100,
        minute < 100,
    ensures
        alarm_text(hour, minute).len() == 5,
        alarm_text(hour, minute)[2] == ':',
        digits_value(alarm_text(hour, minute).subrange(0, 2)) == hour,
        digits_value(alarm_text(hour, minute).subrange(3, 5)) == minute,
        is_digit(alarm_text(hour, minute)[0]) && is_digit(alarm_text(hour, minute)[1]),
        is_digit(alarm_text(hour, minute)[3]) && is_digit(alarm_text(hour, minute)[4]),
{
    lemma_padded_field(hour, 2);
    lemma_padded_field(minute, 2);
    let h = zero_padded(decimal(hour), 2);
    let m = zero_padded(decimal(minute), 2);
    let a = alarm_text(hour, minute);
    assert(a.subrange(0, 2) =~= h);
    assert(a.subrange(3, 5) =~= m);
    assert(a[0] == h[0] && a[1] == h[1] && a[3] == m[0] && a[4] == m[1]);
}

/// For the years 0 to 9999 the ISO text has nineteen characters, its
/// separators in place, and every field reads back as the date and time it
/// was made from.
pub proof fn lemma_iso_form_reads_back(t: LocalDateTime)
    requires
        valid_date_time(t),
        0 <= t.year <= 9999,
    ensures
        iso_form(t).len() == 19,
        iso_form(t)[4] == '-' && iso_form(t)[7] == '-' && iso_form(t)[10] == 'T',
        iso_form(t)[13] == ':' && iso_form(t)[16] == ':',
        digits_value(iso_form(t).subrange(0, 4)) == t.year,
        digits_value(iso_form(t).subrange(5, 7)) == t.month,
        digits_value(iso_form(t).subrange(8, 10)) == t.day,
        digits_value(iso_form(t).subrange(11, 13)) == t.hour,
        digits_value(iso_form(t).subrange(14, 16)) == t.minute,
        digits_value(iso_form(t).subrange(17, 19)) == t.second,
{
    lemma_padded_field(t.year as nat, 4);
    lemma_padded_field(t.month as nat, 2);
    lemma_padded_field(t.day as nat, 2);
    lemma_padded_field(t.hour as nat, 2);
    lemma_padded_field(t.minute as nat, 2);
    lemma_padded_field(t.second as nat, 2);
    let y = zero_padded(decimal(t.year as nat), 4);
    let mo = zero_padded(decimal(t.month as nat), 2);
    let d = zero_padded(decimal(t.day as nat), 2);
    let h = zero_padded(decimal(t.hour as nat), 2);
    let mi = zero_padded(decimal(t.minute as nat), 2);
    let se = zero_padded(decimal(t.second as nat), 2);
    let f = iso_form(t);
    assert(f =~= y + seq!['-'] + mo + seq!['-'] + d + seq!['T'] + h + seq![':'] + mi + seq![':']
        + se);
    assert(f.subrange(0, 4) =~= y);
    assert(f.subrange(5, 7) =~= mo);
    assert(f.subrange(8, 10) =~= d);
    assert(f.subrange(11, 13) =~= h);
    assert(f.subrange(14, 16) =~= mi);
    assert(f.subrange(17, 19) =~= se);
}

/// The order of instants is a total order, decided by the seconds first
/// and by the nanoseconds within the same second.
pub proof fn lemma_not_after_orders_instants(a: Timestamp, b: Timestamp, c: Timestamp)
    ensures
        not_after(a, a),
        not_after(a, b) || not_after(b, a),
        not_after(a, b) && not_after(b, a) ==> a == b,
        not_after(a, b) && not_after(b, c) ==> not_after(a, c),
        a.seconds < b.seconds ==> not_after(a, b) && !not_after(b, a),
        a.seconds == b.seconds ==> (not_after(a, b) <==> a.nanos <= b.nanos),
{
}

} // verus!
