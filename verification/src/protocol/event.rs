//! Events on the wire: the projection of a journal record, and the timestamp it shows.
use crate::funnel::CLOCK_LIMIT_MS;
use crate::json::{
    is_object, json_ok, json_parse, json_text, json_tree, parse_value, text_of_value, JsonView,
};
use crate::protocol::types::{
    bounded_u32, Actor, ActorView, BoundedU32, DecimalU64, Event, EventView, Rfc3339Timestamp,
    StreamClass,
};
use crate::protocol::wire::{event_tree, event_value};
use crate::protocol::{EVENT_VERSION, MAX_EVENT_BYTES, MAX_EVENT_PAYLOAD_BYTES};
use crate::store::{EventRecord, EventRecordView};
use crate::text::{digit, digit_char, digit_char_value, digit_value};
use serde_json::Value;
use vstd::prelude::*;
use vstd::string::*;
use vstd::utf8::encode_utf8;

verus! {

// --- The calendar --------------------------------------------------------------------------------

/// Whether a year has 366 days.
pub open spec fn is_leap(year: int) -> bool {
    year % 4 == 0 && (year % 100 != 0 || year % 400 == 0)
}

/// How many days a year has.
pub open spec fn year_days(year: int) -> int {
    if is_leap(year) {
        366
    } else {
        365
    }
}

/// How many days a month has.
pub open spec fn month_days(year: int, month: int) -> int {
    if month == 2 {
        if is_leap(year) {
            29
        } else {
            28
        }
    } else if month == 4 || month == 6 || month == 9 || month == 11 {
        30
    } else {
        31
    }
}

/// How many days lie between the first of January 1970 and the first of January of a year.
pub open spec fn days_before_year(year: int) -> int
    decreases year,
{
    if year <= 1970 {
        0
    } else {
        days_before_year(year - 1) + year_days(year - 1)
    }
}

/// How many days of a year lie before a month.
pub open spec fn days_before_month(year: int, month: int) -> int
    decreases month,
{
    if month <= 1 {
        0
    } else {
        days_before_month(year, month - 1) + month_days(year, month - 1)
    }
}

/// A point in time by the calendar, in UTC.
pub struct Civil {
    pub year: int,
    pub month: int,
    pub day: int,
    pub hour: int,
    pub minute: int,
    pub second: int,
    pub milli: int,
}

/// Whether a point in time lies on the calendar and the clock.
pub open spec fn is_civil(c: Civil) -> bool {
    &&& 1970 <= c.year
    &&& 1 <= c.month <= 12
    &&& 1 <= c.day <= month_days(c.year, c.month)
    &&& 0 <= c.hour < 24
    &&& 0 <= c.minute < 60
    &&& 0 <= c.second < 60
    &&& 0 <= c.milli < 1000
}

/// The milliseconds since the beginning of 1970.
pub open spec fn civil_ms(c: Civil) -> int {
    let days = days_before_year(c.year) + days_before_month(c.year, c.month) + c.day - 1;
    (((days * 24 + c.hour) * 60 + c.minute) * 60 + c.second) * 1000 + c.milli
}

/// The text of a point in time, in UTC and with milliseconds.
#[verifier::opaque]
pub open spec fn civil_text(c: Civil) -> Seq<char> {
    seq![
        digit_char(c.year / 1000),
        digit_char(c.year / 100 % 10),
        digit_char(c.year / 10 % 10),
        digit_char(c.year % 10),
        '-',
        digit_char(c.month / 10),
        digit_char(c.month % 10),
        '-',
        digit_char(c.day / 10),
        digit_char(c.day % 10),
        'T',
        digit_char(c.hour / 10),
        digit_char(c.hour % 10),
        ':',
        digit_char(c.minute / 10),
        digit_char(c.minute % 10),
        ':',
        digit_char(c.second / 10),
        digit_char(c.second % 10),
        '.',
        digit_char(c.milli / 100),
        digit_char(c.milli / 10 % 10),
        digit_char(c.milli % 10),
        'Z',
    ]
}

/// Whether a text shows a point in time.
pub open spec fn shows(text: Seq<char>, ms: int) -> bool {
    exists|c: Civil| is_civil(c) && #[trigger] civil_ms(c) == ms && text == civil_text(c)
}

fn leap(year: u64) -> (r: bool)
    ensures
        r == is_leap(year as int),
{
    year % 4 == 0 && (year % 100 != 0 || year % 400 == 0)
}

fn days_in_month(year: u64, month: u64) -> (r: u64)
    ensures
        r == month_days(year as int, month as int),
        28 <= r <= 31,
{
    if month == 2 {
        if leap(year) {
            29
        } else {
            28
        }
    } else if month == 4 || month == 6 || month == 9 || month == 11 {
        30
    } else {
        31
    }
}

proof fn year_count(year: int)
    requires
        1970 <= year,
    ensures
        days_before_year(year) == 365 * (year - 1970) + ((year - 1) / 4 - (year - 1) / 100 + (year
            - 1) / 400) - 477,
    decreases year,
{
    if year > 1970 {
        year_count(year - 1);
    }
}

proof fn months_fill_the_year(year: int)
    ensures
        days_before_month(year, 13) == year_days(year),
{
    reveal_with_fuel(days_before_month, 14);
}

fn push_digit(s: &mut String, d: u64)
    requires
        d < 10,
    ensures
        final(s)@ == old(s)@.push(digit_char(d as int)),
{
    s.push(digit(d));
}

/// A day by the calendar.
struct Day {
    year: u64,
    month: u64,
    day: u64,
}

fn year_of(days: u64) -> (r: (u64, u64))
    requires
        days <= 2932896,
    ensures
        1970 <= r.0 <= 9999,
        days == days_before_year(r.0 as int) + r.1,
        r.1 < year_days(r.0 as int),
{
    let mut year: u64 = 1970;
    let mut rest: u64 = days;
    let mut length: u64 = 365;
    proof {
        year_count(10000);
    }
    while rest >= length
        invariant
            1970 <= year <= 9999,
            days <= 2932896,
            days_before_year(10000) == 2932897,
            length == year_days(year as int),
            days == days_before_year(year as int) + rest,
        decreases rest,
    {
        rest = rest - length;
        year = year + 1;
        length = if leap(year) {
            366
        } else {
            365
        };
        proof {
            assert(days_before_year(year as int) == days_before_year(year - 1) + year_days(
                year - 1,
            ));
        }
    }
    (year, rest)
}

fn day_of(days: u64) -> (r: Day)
    requires
        days <= 2932896,
    ensures
        1970 <= r.year <= 9999,
        1 <= r.month <= 12,
        1 <= r.day <= month_days(r.year as int, r.month as int),
        days == days_before_year(r.year as int) + days_before_month(r.year as int, r.month as int)
            + r.day - 1,
{
    let (year, year_rest) = year_of(days);
    let mut rest: u64 = year_rest;
    let mut month: u64 = 1;
    proof {
        months_fill_the_year(year as int);
    }
    let mut size: u64 = days_in_month(year, month);
    while rest >= size
        invariant
            1 <= month <= 12,
            size == month_days(year as int, month as int),
            28 <= size <= 31,
            year_rest < year_days(year as int),
            days_before_month(year as int, 13) == year_days(year as int),
            year_rest == days_before_month(year as int, month as int) + rest,
        decreases rest,
    {
        rest = rest - size;
        month = month + 1;
        size = days_in_month(year, month);
        proof {
            assert(days_before_month(year as int, month as int) == days_before_month(
                year as int,
                month - 1,
            ) + month_days(year as int, month - 1));
        }
    }
    Day { year, month, day: rest + 1 }
}

fn push_two(s: &mut String, n: u64)
    requires
        n < 100,
    ensures
        final(s)@ == old(s)@.push(digit_char(n as int / 10)).push(digit_char(n as int % 10)),
{
    push_digit(s, n / 10);
    push_digit(s, n % 10);
}

fn civil_string(d: &Day, hour: u64, minute: u64, second: u64, milli: u64) -> (r: String)
    requires
        d.year <= 9999,
        d.month < 100,
        d.day < 100,
        hour < 100,
        minute < 100,
        second < 100,
        milli < 1000,
    ensures
        r@ == civil_text(
            Civil {
                year: d.year as int,
                month: d.month as int,
                day: d.day as int,
                hour: hour as int,
                minute: minute as int,
                second: second as int,
                milli: milli as int,
            },
        ),
{
    let mut s = String::new();
    push_digit(&mut s, d.year / 1000);
    push_digit(&mut s, d.year / 100 % 10);
    push_digit(&mut s, d.year / 10 % 10);
    push_digit(&mut s, d.year % 10);
    s.push('-');
    push_two(&mut s, d.month);
    s.push('-');
    push_two(&mut s, d.day);
    s.push('T');
    push_two(&mut s, hour);
    s.push(':');
    push_two(&mut s, minute);
    s.push(':');
    push_two(&mut s, second);
    s.push('.');
    push_digit(&mut s, milli / 100);
    push_digit(&mut s, milli / 10 % 10);
    push_digit(&mut s, milli % 10);
    s.push('Z');
    proof {
        reveal(civil_text);
        let c = Civil {
            year: d.year as int,
            month: d.month as int,
            day: d.day as int,
            hour: hour as int,
            minute: minute as int,
            second: second as int,
            milli: milli as int,
        };
        assert(s@ =~= civil_text(c));
    }
    s
}

/// The text of a time in milliseconds since the beginning of 1970. The year 10000 and what
/// follows cannot be shown.
pub fn format_timestamp(unix_ms: u64) -> (r: Result<String, String>)
    ensures
        match r {
            Ok(text) => unix_ms < CLOCK_LIMIT_MS && shows(text@, unix_ms as int),
            Err(e) => unix_ms >= CLOCK_LIMIT_MS && e@ == "time is beyond the year 9999"@,
        },
{
    if unix_ms >= CLOCK_LIMIT_MS {
        return Err("time is beyond the year 9999".to_owned());
    }
    let seconds: u64 = unix_ms / 1000;
    let minutes: u64 = seconds / 60;
    let hours: u64 = minutes / 60;
    let d = day_of(hours / 24);
    let text = civil_string(&d, hours % 24, minutes % 60, seconds % 60, unix_ms % 1000);
    proof {
        let c = Civil {
            year: d.year as int,
            month: d.month as int,
            day: d.day as int,
            hour: hours as int % 24,
            minute: minutes as int % 60,
            second: seconds as int % 60,
            milli: unix_ms as int % 1000,
        };
        assert(civil_ms(c) == unix_ms);
        assert(is_civil(c));
    }
    Ok(text)
}

/// Two times before the year 10000 that show the same text are the same.
pub proof fn timestamps_tell_times_apart(text: Seq<char>, a: int, b: int)
    requires
        0 <= a < CLOCK_LIMIT_MS,
        0 <= b < CLOCK_LIMIT_MS,
        shows(text, a),
        shows(text, b),
    ensures
        a == b,
{
    let c = choose|c: Civil| is_civil(c) && #[trigger] civil_ms(c) == a && text == civil_text(c);
    let d = choose|d: Civil| is_civil(d) && #[trigger] civil_ms(d) == b && text == civil_text(d);
    year_is_shown(c, a);
    year_is_shown(d, b);
    same_digits(c, d);
}

proof fn year_is_shown(c: Civil, ms: int)
    requires
        is_civil(c),
        civil_ms(c) == ms,
        ms < CLOCK_LIMIT_MS,
    ensures
        c.year <= 9999,
{
    if c.year >= 10000 {
        year_count(c.year);
        months_are_counted(c.year, c.month);
        let days = days_before_year(c.year) + days_before_month(c.year, c.month) + c.day - 1;
        assert(days >= 2932897);
        assert(civil_ms(c) >= days * 86_400_000);
    }
}

proof fn months_are_counted(year: int, month: int)
    ensures
        days_before_month(year, month) >= 0,
    decreases month,
{
    if month > 1 {
        months_are_counted(year, month - 1);
    }
}

proof fn same_digits(c: Civil, d: Civil)
    requires
        is_civil(c),
        is_civil(d),
        c.year <= 9999,
        d.year <= 9999,
        civil_text(c) == civil_text(d),
    ensures
        c == d,
{
    digits_of(c);
    digits_of(d);
    digits_are_apart(c.year / 1000, d.year / 1000);
    digits_are_apart(c.year / 100 % 10, d.year / 100 % 10);
    digits_are_apart(c.year / 10 % 10, d.year / 10 % 10);
    digits_are_apart(c.year % 10, d.year % 10);
    digits_are_apart(c.month / 10, d.month / 10);
    digits_are_apart(c.month % 10, d.month % 10);
    digits_are_apart(c.day / 10, d.day / 10);
    digits_are_apart(c.day % 10, d.day % 10);
    digits_are_apart(c.hour / 10, d.hour / 10);
    digits_are_apart(c.hour % 10, d.hour % 10);
    digits_are_apart(c.minute / 10, d.minute / 10);
    digits_are_apart(c.minute % 10, d.minute % 10);
    digits_are_apart(c.second / 10, d.second / 10);
    digits_are_apart(c.second % 10, d.second % 10);
    digits_are_apart(c.milli / 100, d.milli / 100);
    digits_are_apart(c.milli / 10 % 10, d.milli / 10 % 10);
    digits_are_apart(c.milli % 10, d.milli % 10);
}

proof fn digits_of(c: Civil)
    ensures
        ({
            let s = civil_text(c);
            &&& s[0] == digit_char(c.year / 1000)
            &&& s[1] == digit_char(c.year / 100 % 10)
            &&& s[2] == digit_char(c.year / 10 % 10)
            &&& s[3] == digit_char(c.year % 10)
            &&& s[5] == digit_char(c.month / 10)
            &&& s[6] == digit_char(c.month % 10)
            &&& s[8] == digit_char(c.day / 10)
            &&& s[9] == digit_char(c.day % 10)
            &&& s[11] == digit_char(c.hour / 10)
            &&& s[12] == digit_char(c.hour % 10)
            &&& s[14] == digit_char(c.minute / 10)
            &&& s[15] == digit_char(c.minute % 10)
            &&& s[17] == digit_char(c.second / 10)
            &&& s[18] == digit_char(c.second % 10)
            &&& s[20] == digit_char(c.milli / 100)
            &&& s[21] == digit_char(c.milli / 10 % 10)
            &&& s[22] == digit_char(c.milli % 10)
        }),
{
    reveal(civil_text);
}

proof fn digits_are_apart(a: int, b: int)
    requires
        0 <= a < 10,
        0 <= b < 10,
    ensures
        digit_char(a) == digit_char(b) ==> a == b,
{
    crate::text::digit_char_value(a);
    crate::text::digit_char_value(b);
}

proof fn years_ascend(a: int, b: int)
    requires
        1970 <= a <= b,
    ensures
        days_before_year(a) <= days_before_year(b),
    decreases b - a,
{
    if a < b {
        years_ascend(a, b - 1);
    }
}

proof fn months_ascend(year: int, a: int, b: int)
    requires
        1 <= a <= b,
    ensures
        days_before_month(year, a) <= days_before_month(year, b),
    decreases b - a,
{
    if a < b {
        months_ascend(year, a, b - 1);
    }
}

spec fn day_number(c: Civil) -> int {
    days_before_year(c.year) + days_before_month(c.year, c.month) + c.day - 1
}

proof fn day_lies_in_its_year(c: Civil)
    requires
        is_civil(c),
    ensures
        days_before_year(c.year) <= day_number(c) < days_before_year(c.year + 1),
{
    months_ascend(c.year, 1, c.month);
    months_ascend(c.year, c.month + 1, 13);
    months_fill_the_year(c.year);
    assert(days_before_month(c.year, c.month + 1) == days_before_month(c.year, c.month)
        + month_days(c.year, c.month));
    assert(days_before_year(c.year + 1) == days_before_year(c.year) + year_days(c.year));
}

proof fn days_are_apart(c: Civil, d: Civil)
    requires
        is_civil(c),
        is_civil(d),
        day_number(c) == day_number(d),
    ensures
        c.year == d.year,
        c.month == d.month,
        c.day == d.day,
{
    day_lies_in_its_year(c);
    day_lies_in_its_year(d);
    if c.year < d.year {
        years_ascend(c.year + 1, d.year);
    } else if d.year < c.year {
        years_ascend(d.year + 1, c.year);
    }
    assert(days_before_month(c.year, c.month + 1) == days_before_month(c.year, c.month)
        + month_days(c.year, c.month));
    assert(days_before_month(d.year, d.month + 1) == days_before_month(d.year, d.month)
        + month_days(d.year, d.month));
    if c.month < d.month {
        months_ascend(c.year, c.month + 1, d.month);
    } else if d.month < c.month {
        months_ascend(c.year, d.month + 1, c.month);
    }
}

proof fn clock_reads(c: Civil, ms: int)
    requires
        is_civil(c),
        civil_ms(c) == ms,
    ensures
        c.milli == ms % 1000,
        c.second == ms / 1000 % 60,
        c.minute == ms / 1000 / 60 % 60,
        c.hour == ms / 1000 / 60 / 60 % 24,
        day_number(c) == ms / 1000 / 60 / 60 / 24,
{
    let hours = day_number(c) * 24 + c.hour;
    let minutes = hours * 60 + c.minute;
    let seconds = minutes * 60 + c.second;
    vstd::arithmetic::div_mod::lemma_fundamental_div_mod_converse(ms, 1000, seconds, c.milli);
    vstd::arithmetic::div_mod::lemma_fundamental_div_mod_converse(seconds, 60, minutes, c.second);
    vstd::arithmetic::div_mod::lemma_fundamental_div_mod_converse(minutes, 60, hours, c.minute);
    vstd::arithmetic::div_mod::lemma_fundamental_div_mod_converse(
        hours,
        24,
        day_number(c),
        c.hour,
    );
}

/// A time is shown by one text only.
pub proof fn times_have_one_text(s: Seq<char>, t: Seq<char>, ms: int)
    requires
        shows(s, ms),
        shows(t, ms),
    ensures
        s == t,
{
    let c = choose|c: Civil| is_civil(c) && #[trigger] civil_ms(c) == ms && s == civil_text(c);
    let d = choose|d: Civil| is_civil(d) && #[trigger] civil_ms(d) == ms && t == civil_text(d);
    clock_reads(c, ms);
    clock_reads(d, ms);
    days_are_apart(c, d);
    assert(c == d);
}

/// The text that shows a time.
pub open spec fn time_text(ms: int) -> Seq<char> {
    choose|text: Seq<char>| shows(text, ms)
}

// --- Projection ----------------------------------------------------------------------------------

/// The event on the wire that a journal record stands for, with the payload that it reads as.
pub open spec fn event_view(e: EventRecordView, payload: JsonView) -> EventView {
    EventView {
        event_id: e.event_id,
        cursor: e.cursor,
        stream_class: StreamClass::DurableSemantic,
        aggregate_kind: e.aggregate_kind,
        aggregate_id: e.aggregate_id,
        aggregate_version: e.aggregate_version,
        ordinal: bounded_u32(e.ordinal as u32),
        event_kind: e.event_kind,
        event_version: bounded_u32(EVENT_VERSION),
        occurred_at: time_text(e.occurred_at_ms as int),
        actor: ActorView { principal_kind: e.actor_kind, principal_id: e.actor_id },
        command_id: Some(e.command_id),
        causation_id: e.causation_id,
        correlation_id: e.correlation_id,
        payload,
    }
}

/// The detail of a fault of an event.
pub open spec fn event_detail(e: EventRecordView, fault: Seq<char>) -> Seq<char> {
    "durable event "@ + e.event_id + fault
}

/// What a journal record projects to, when its payload reads as `parsed`: an event, or why it
/// is none.
pub open spec fn projection(e: EventRecordView, parsed: Result<JsonView, Seq<char>>) -> Result<
    EventView,
    Seq<char>,
> {
    if encode_utf8(e.payload).len() > MAX_EVENT_PAYLOAD_BYTES {
        Err(event_detail(e, " has a payload beyond 16 KiB"@))
    } else {
        match parsed {
            Err(message) => Err(event_detail(e, " has an invalid JSON payload: "@ + message)),
            Ok(payload) => if !(payload is Object) {
                Err(event_detail(e, " has a payload that is no JSON object"@))
            } else if e.ordinal > u32::MAX {
                Err(event_detail(e, " has an ordinal beyond 32 bits"@))
            } else if e.occurred_at_ms >= CLOCK_LIMIT_MS {
                Err(event_detail(e, " lies beyond the year 9999"@))
            } else if encode_utf8(json_text(event_tree(event_view(e, payload)))).len()
                > MAX_EVENT_BYTES {
                Err(event_detail(e, " exceeds 64 KiB"@))
            } else {
                Ok(event_view(e, payload))
            },
        }
    }
}

fn fault(e: &EventRecord, text: &str) -> (r: Result<Event, String>)
    ensures
        r is Err,
        r->Err_0@ == event_detail(e@, text@),
{
    let mut detail = "durable event ".to_owned();
    detail.append(&e.event_id);
    detail.append(text);
    Err(detail)
}

/// Projects a journal record onto the wire.
pub fn project(e: &EventRecord) -> (r: Result<Event, String>)
    ensures
        match r {
            Ok(event) => projection(e@, json_parse(e@.payload)) == Ok::<EventView, Seq<char>>(
                event@,
            ),
            Err(detail) => projection(e@, json_parse(e@.payload)) == Err::<EventView, Seq<char>>(
                detail@,
            ),
        },
{
    if e.payload.as_str().as_bytes().len() > MAX_EVENT_PAYLOAD_BYTES {
        return fault(e, " has a payload beyond 16 KiB");
    }
    match parse_value(&e.payload) {
        Err(message) => {
            let mut text = " has an invalid JSON payload: ".to_owned();
            text.append(&message);
            fault(e, &text)
        },
        Ok(payload) => project_payload(e, payload),
    }
}

/// Projects a journal record whose payload was read.
pub fn project_payload(e: &EventRecord, payload: Value) -> (r: Result<Event, String>)
    requires
        encode_utf8(e@.payload).len() <= MAX_EVENT_PAYLOAD_BYTES,
    ensures
        match r {
            Ok(event) => projection(e@, json_ok(json_tree(payload))) == Ok::<EventView, Seq<char>>(
                event@,
            ),
            Err(detail) => projection(e@, json_ok(json_tree(payload))) == Err::<
                EventView,
                Seq<char>,
            >(detail@),
        },
{
    if !is_object(&payload) {
        return fault(e, " has a payload that is no JSON object");
    }
    if e.ordinal > u32::MAX as u64 {
        return fault(e, " has an ordinal beyond 32 bits");
    }
    let text = match format_timestamp(e.occurred_at_ms) {
        Ok(text) => text,
        Err(_) => {
            return fault(e, " lies beyond the year 9999");
        },
    };
    proof {
        assert(shows(text@, e@.occurred_at_ms as int));
        times_have_one_text(text@, time_text(e@.occurred_at_ms as int), e@.occurred_at_ms as int);
    }
    let event = Event {
        event_id: e.event_id.clone(),
        cursor: DecimalU64::new(e.cursor),
        stream_class: StreamClass::DurableSemantic,
        aggregate_kind: e.aggregate_kind.clone(),
        aggregate_id: e.aggregate_id.clone(),
        aggregate_version: DecimalU64::new(e.aggregate_version),
        ordinal: BoundedU32::new(e.ordinal as u32),
        event_kind: e.event_kind.clone(),
        event_version: BoundedU32::new(EVENT_VERSION),
        occurred_at: Rfc3339Timestamp::formatted(text),
        actor: Actor { principal_kind: e.actor_kind.clone(), principal_id: e.actor_id.clone() },
        command_id: Some(e.command_id.clone()),
        causation_id: e.causation_id.clone(),
        correlation_id: e.correlation_id.clone(),
        payload,
    };
    if event_bytes(&event) > MAX_EVENT_BYTES {
        return fault(e, " exceeds 64 KiB");
    }
    Ok(event)
}

/// The size of an event on the wire.
pub open spec fn event_size(e: EventView) -> nat {
    encode_utf8(json_text(event_tree(e))).len()
}

/// The size of an event on the wire.
pub fn event_bytes(event: &Event) -> (r: usize)
    ensures
        r == event_size(event@),
{
    text_of_value(&event_value(event)).as_str().as_bytes().len()
}

/// The calendar: a year has 366 days where it divides by 4, but of the centuries only where it divides
/// by 400; and the first of January of a year lies as many days after that of 1970 as all the years
/// between have.
pub proof fn years_follow_the_calendar(year: int)
    requires
        1970 <= year,
    ensures
        year_days(year) == 366 <==> year % 400 == 0 || year % 4 == 0 && year % 100 != 0,
        year_days(year) == 365 || year_days(year) == 366,
        days_before_year(year) == 365 * (year - 1970) + ((year - 1) / 4 - (year - 1) / 100 + (year
            - 1) / 400 - 477),
    decreases year,
{
    if year > 1970 {
        years_follow_the_calendar(year - 1);
    }
}

/// The months: thirty days have April, June, September and November, 28 or 29 February, and 31 all the
/// rest; together the days of the year.
pub proof fn months_follow_the_calendar(year: int)
    ensures
        month_days(year, 1) == 31,
        month_days(year, 2) == if year_days(year) == 366 {
            29int
        } else {
            28
        },
        month_days(year, 3) == 31,
        month_days(year, 4) == 30,
        month_days(year, 5) == 31,
        month_days(year, 6) == 30,
        month_days(year, 7) == 31,
        month_days(year, 8) == 31,
        month_days(year, 9) == 30,
        month_days(year, 10) == 31,
        month_days(year, 11) == 30,
        month_days(year, 12) == 31,
        days_before_month(year, 1) == 0,
        days_before_month(year, 12) + 31 == year_days(year),
        forall|m: int|
            1 < m <= 12 ==> #[trigger] days_before_month(year, m) == days_before_month(year, m - 1)
                + month_days(year, m - 1),
{
    reveal_with_fuel(days_before_month, 13);
}

/// The clock: a text shows the time that its year, month, day, hour, minute, second and millisecond
/// name, each at its place.
pub proof fn texts_show_their_time(c: Civil)
    requires
        is_civil(c),
        c.year < 10000,
    ensures
        ({
            let t = civil_text(c);
            let ms = (((days_before_year(c.year) + days_before_month(c.year, c.month) + c.day - 1)
                * 86_400 + c.hour * 3600 + c.minute * 60 + c.second) * 1000) + c.milli;
            &&& shows(t, ms)
            &&& t.len() == 24
            &&& t[4] == '-' && t[7] == '-' && t[10] == 'T' && t[13] == ':' && t[16] == ':' && t[19]
                == '.' && t[23] == 'Z'
            &&& c.year == digit_value(t[0]) * 1000 + digit_value(t[1]) * 100 + digit_value(t[2]) * 10
                + digit_value(t[3])
            &&& c.month == digit_value(t[5]) * 10 + digit_value(t[6])
            &&& c.day == digit_value(t[8]) * 10 + digit_value(t[9])
            &&& c.hour == digit_value(t[11]) * 10 + digit_value(t[12])
            &&& c.minute == digit_value(t[14]) * 10 + digit_value(t[15])
            &&& c.second == digit_value(t[17]) * 10 + digit_value(t[18])
            &&& c.milli == digit_value(t[20]) * 100 + digit_value(t[21]) * 10 + digit_value(t[22])
        }),
{
    reveal(civil_text);
    assert forall|d: int| 0 <= d < 10 implies digit_value(#[trigger] digit_char(d)) == d by {
        digit_char_value(d);
    }
    let days = days_before_year(c.year) + days_before_month(c.year, c.month) + c.day - 1;
    assert((((days * 24 + c.hour) * 60 + c.minute) * 60 + c.second) * 1000 + c.milli == ((days
        * 86_400 + c.hour * 3600 + c.minute * 60 + c.second) * 1000) + c.milli);
    assert(civil_ms(c) == ((days * 86_400 + c.hour * 3600 + c.minute * 60 + c.second) * 1000)
        + c.milli);
}

} // verus!
