//! Calendar aggregation: normalizing the provider's calendars and events,
//! the time window that is queried, and the requests sent to the service.

use vstd::prelude::*;
use vstd::string::*;
use crate::auth::now_secs;
use crate::encoding::{owned_or, percent_encode, percent_encoded, text_or};

verus! {

/// Root of the calendar service.
pub const CALENDAR_API_BASE: &'static str = "https://www.googleapis.com/calendar/v3";

/// Seconds in a day.
pub const DAY_SECS: i64 = 86400;

/// A calendar of the account.
#[derive(Debug, Clone)]
pub struct Calendar {
    pub id: String,
    pub name: String,
    pub color: String,
    pub primary: bool,
}

/// The mathematical value of a `Calendar`.
pub struct CalendarModel {
    pub id: Seq<char>,
    pub name: Seq<char>,
    pub color: Seq<char>,
    pub primary: bool,
}

impl View for Calendar {
    type V = CalendarModel;

    open spec fn view(&self) -> CalendarModel {
        CalendarModel { id: self.id@, name: self.name@, color: self.color@, primary: self.primary }
    }
}

/// A normalized event.
#[derive(Debug, Clone)]
pub struct Event {
    pub id: String,
    pub title: String,
    pub date: String,
    pub time: String,
    pub time_range: String,
    pub date_formatted: String,
    pub color: String,
    pub calendar: String,
    pub location: String,
    pub description: String,
    pub is_all_day: bool,
}

/// The mathematical value of an `Event`.
pub struct EventModel {
    pub id: Seq<char>,
    pub title: Seq<char>,
    pub date: Seq<char>,
    pub time: Seq<char>,
    pub time_range: Seq<char>,
    pub date_formatted: Seq<char>,
    pub color: Seq<char>,
    pub calendar: Seq<char>,
    pub location: Seq<char>,
    pub description: Seq<char>,
    pub is_all_day: bool,
}

impl View for Event {
    type V = EventModel;

    open spec fn view(&self) -> EventModel {
        EventModel {
            id: self.id@,
            title: self.title@,
            date: self.date@,
            time: self.time@,
            time_range: self.time_range@,
            date_formatted: self.date_formatted@,
            color: self.color@,
            calendar: self.calendar@,
            location: self.location@,
            description: self.description@,
            is_all_day: self.is_all_day,
        }
    }
}

impl Event {
    /// A copy of the event.
    pub fn duplicate(&self) -> (r: Event)
        ensures
            r == *self,
    {
        Event {
            id: self.id.clone(),
            title: self.title.clone(),
            date: self.date.clone(),
            time: self.time.clone(),
            time_range: self.time_range.clone(),
            date_formatted: self.date_formatted.clone(),
            color: self.color.clone(),
            calendar: self.calendar.clone(),
            location: self.location.clone(),
            description: self.description.clone(),
            is_all_day: self.is_all_day,
        }
    }
}

/// One calendar, as the provider lists it.
#[derive(Debug, Clone)]
pub struct CalendarListEntry {
    pub id: String,
    pub summary: Option<String>,
    pub background_color: Option<String>,
    pub primary: Option<bool>,
}

/// One page of the calendar list.
#[derive(Debug, Clone)]
pub struct CalendarListPage {
    pub items: Option<Vec<CalendarListEntry>>,
    pub next_page_token: Option<String>,
}

/// Start or end of an event: an instant, or a bare date for an all-day event.
#[derive(Debug, Clone)]
pub struct EventDateTime {
    pub date_time: Option<String>,
    pub date: Option<String>,
}

/// One event, as the provider lists it.
#[derive(Debug, Clone)]
pub struct EventEntry {
    pub id: Option<String>,
    pub summary: Option<String>,
    pub start: Option<EventDateTime>,
    pub end: Option<EventDateTime>,
    pub location: Option<String>,
    pub description: Option<String>,
}

/// A calendar with what fetching its events gave: `None` where the fetch
/// failed or the answer held no items.
#[derive(Debug, Clone)]
pub struct CalendarEvents {
    pub calendar: Calendar,
    pub items: Option<Vec<EventEntry>>,
}

/// An instant in the local time zone: date, time of day, and long-form date.
#[derive(Debug, Clone)]
pub struct LocalStamp {
    pub date: String,
    pub time: String,
    pub date_formatted: String,
}

/// A local calendar day: its date, its UTC offset, its place in the week.
#[derive(Debug, Clone)]
pub struct LocalDay {
    pub date: String,
    pub offset: String,
    pub days_from_monday: u32,
}

/// When an event takes place, normalized for display.
#[derive(Debug, Clone)]
pub struct EventTime {
    pub date: String,
    pub time: String,
    pub time_range: String,
    pub date_formatted: String,
    pub is_all_day: bool,
}

/// The mathematical value of an `EventTime`.
pub struct EventTimeModel {
    pub date: Seq<char>,
    pub time: Seq<char>,
    pub time_range: Seq<char>,
    pub date_formatted: Seq<char>,
    pub is_all_day: bool,
}

impl View for EventTime {
    type V = EventTimeModel;

    open spec fn view(&self) -> EventTimeModel {
        EventTimeModel {
            date: self.date@,
            time: self.time@,
            time_range: self.time_range@,
            date_formatted: self.date_formatted@,
            is_all_day: self.is_all_day,
        }
    }
}

/// The bounds of the queried time span, as RFC 3339 text.
#[derive(Debug, Clone)]
pub struct EventWindow {
    pub time_min: String,
    pub time_max: String,
}

/// The long form ("Monday, 10. June") that `chrono` gives a date written
/// as year-month-day, or `None` where the text is no such date.
pub uninterp spec fn chrono_long_date(date: Seq<char>) -> Option<Seq<char>>;

/// Parses with `chrono::NaiveDate::parse_from_str` and the pattern
/// `%Y-%m-%d`, and formats the date with `%A, %d. %B`. The contract names
/// the result; `None` stands for a text that does not parse.
#[verifier::external_body]
pub(crate) fn long_date(date: &str) -> (r: Option<String>)
    ensures
        match r {
            Some(text) => chrono_long_date(date@) == Some(text@),
            None => chrono_long_date(date@) is None,
        },
{
    match chrono::NaiveDate::parse_from_str(date, "%Y-%m-%d") {
        Ok(d) => Some(d.format("%A, %d. %B").to_string()),
        Err(_) => None,
    }
}

/// Whether `chrono::DateTime::parse_from_rfc3339` reads the text as an
/// instant.
pub uninterp spec fn rfc3339_instant(text: Seq<char>) -> bool;

/// Parses with `chrono::DateTime::parse_from_rfc3339`, converts to
/// `chrono::Local` and formats date, time of day and long-form date.
/// There is a stamp exactly where the text parses. What the stamp holds
/// depends on the machine's time zone, so nothing is promised of it.
#[verifier::external_body]
pub(crate) fn local_stamp(instant: &str) -> (r: Option<LocalStamp>)
    ensures
        r is Some <==> rfc3339_instant(instant@),
{
    match chrono::DateTime::parse_from_rfc3339(instant) {
        Ok(dt) => {
            let local = dt.with_timezone(&chrono::Local);
            Some(LocalStamp {
                date: local.format("%Y-%m-%d").to_string(),
                time: local.format("%H:%M").to_string(),
                date_formatted: local.format("%A, %d. %B").to_string(),
            })
        },
        Err(_) => None,
    }
}

/// Today's date by `chrono::Utc::now`, as year-month-day. Nothing is
/// promised of it.
#[verifier::external_body]
pub(crate) fn today_utc() -> (r: String) {
    chrono::Utc::now().format("%Y-%m-%d").to_string()
}

/// Whether `chrono::DateTime::from_timestamp` has a date and time for
/// the instant `secs` (epoch seconds, no fraction).
pub uninterp spec fn chrono_has_instant(secs: i64) -> bool;

/// The day that `chrono` gives the instant `secs` at `offset_secs`
/// seconds east of UTC: the date as year-month-day, the offset as
/// hours and minutes with a sign, and the weekday's distance from Monday;
/// `None` where it has no such offset or instant.
pub uninterp spec fn chrono_day_at(secs: i64, offset_secs: i32) -> Option<
    (Seq<char>, Seq<char>, u32),
>;

/// The offset of the machine's time zone from UTC at the instant `secs`,
/// in seconds, by `chrono::DateTime::from_timestamp`,
/// `with_timezone(&Local)` and `FixedOffset::local_minus_utc`. The
/// contract claims: there is one exactly where `from_timestamp` has the
/// instant, which is so at least from 1970 to the end of the year 9999
/// (the crate's dates reach the year 262142); and an offset is less than
/// a day.
#[verifier::external_body]
pub(crate) fn local_offset_at(secs: i64) -> (r: Option<i32>)
    ensures
        r is Some <==> chrono_has_instant(secs),
        0 <= secs <= 253_402_300_799 ==> r is Some,
        r is Some ==> -86_400 < r->0 < 86_400,
{
    let local = chrono::DateTime::from_timestamp(secs, 0)?.with_timezone(&chrono::Local);
    Some(local.offset().local_minus_utc())
}

/// The day of the instant `secs` at a fixed offset, by
/// `chrono::FixedOffset::east_opt`, `DateTime::from_timestamp`,
/// `with_timezone`, `format` and `weekday().num_days_from_monday()`.
/// The contract names the day; it claims that, for an offset of less than
/// a day, the day is there exactly where `from_timestamp` has the
/// instant, and that a weekday's distance from Monday is below 7.
#[verifier::external_body]
pub(crate) fn day_at(secs: i64, offset_secs: i32) -> (r: Option<LocalDay>)
    ensures
        match r {
            Some(d) => chrono_day_at(secs, offset_secs) == Some(
                (d.date@, d.offset@, d.days_from_monday),
            ),
            None => chrono_day_at(secs, offset_secs) is None,
        },
        -86_400 < offset_secs < 86_400 ==> (r is Some <==> chrono_has_instant(secs)),
        r is Some ==> r->0.days_from_monday < 7,
{
    let zone = chrono::FixedOffset::east_opt(offset_secs)?;
    let at = chrono::DateTime::from_timestamp(secs, 0)?.with_timezone(&zone);
    Some(LocalDay {
        date: at.format("%Y-%m-%d").to_string(),
        offset: at.format("%:z").to_string(),
        days_from_monday: chrono::Datelike::weekday(&at).num_days_from_monday(),
    })
}

/// The long form of a date, or the text itself where it is no date.
pub open spec fn date_string_of(date: Seq<char>) -> Seq<char> {
    match chrono_long_date(date) {
        Some(text) => text,
        None => date,
    }
}

/// Long-form display of a year-month-day date; a text that is no such
/// date is handed back as it is.
pub fn format_date_string(date: &str) -> (r: String)
    ensures
        r@ == date_string_of(date@),
{
    match long_date(date) {
        Some(text) => text,
        None => String::from_str(date),
    }
}

/// The bare date of an all-day event, where the entry has one.
pub open spec fn all_day_date(entry: EventEntry) -> Option<Seq<char>> {
    match entry.start {
        Some(start) => match start.date {
            Some(d) => Some(d@),
            None => None,
        },
        None => None,
    }
}

/// Whether the entry names a start instant.
pub open spec fn has_start_instant(entry: EventEntry) -> bool {
    entry.start is Some && entry.start->0.date_time is Some
}

/// Whether the entry names an end instant.
pub open spec fn has_end_instant(entry: EventEntry) -> bool {
    entry.end is Some && entry.end->0.date_time is Some
}

/// The normalized time of an entry, given the local form of its start and
/// end instants (`None` where absent or unreadable) and today's date.
pub open spec fn event_time_of(
    entry: EventEntry,
    start: Option<LocalStamp>,
    end: Option<LocalStamp>,
    today: Seq<char>,
) -> EventTimeModel {
    if all_day_date(entry) is Some {
        EventTimeModel {
            date: all_day_date(entry)->0,
            time: "All day"@,
            time_range: "All day"@,
            date_formatted: date_string_of(all_day_date(entry)->0),
            is_all_day: true,
        }
    } else if has_start_instant(entry) && start is Some {
        EventTimeModel {
            date: start->0.date@,
            time: start->0.time@,
            time_range: if has_end_instant(entry) && end is Some {
                start->0.time@ + " - "@ + end->0.time@
            } else {
                start->0.time@
            },
            date_formatted: start->0.date_formatted@,
            is_all_day: false,
        }
    } else {
        EventTimeModel {
            date: today,
            time: "All day"@,
            time_range: "All day"@,
            date_formatted: "Unknown"@,
            is_all_day: true,
        }
    }
}

fn entry_all_day_date(entry: &EventEntry) -> (r: Option<&String>)
    ensures
        match r {
            Some(d) => all_day_date(*entry) == Some(d@),
            None => all_day_date(*entry) is None,
        },
{
    match &entry.start {
        Some(start) => match &start.date {
            Some(d) => Some(d),
            None => None,
        },
        None => None,
    }
}

fn start_instant(entry: &EventEntry) -> (r: Option<&String>)
    ensures
        r is Some == has_start_instant(*entry),
        r is Some ==> *r->0 == entry.start->0.date_time->0,
{
    match &entry.start {
        Some(start) => match &start.date_time {
            Some(d) => Some(d),
            None => None,
        },
        None => None,
    }
}

fn end_instant(entry: &EventEntry) -> (r: Option<&String>)
    ensures
        r is Some == has_end_instant(*entry),
        r is Some ==> *r->0 == entry.end->0.date_time->0,
{
    match &entry.end {
        Some(end) => match &end.date_time {
            Some(d) => Some(d),
            None => None,
        },
        None => None,
    }
}

/// Normalizes the time of an entry from the local form of its instants:
/// an all-day event keeps its bare date, a timed event takes date and
/// time from its local start and a range where its end is known, and an
/// entry without a usable start falls on `today` as an all-day event.
pub fn event_time(
    entry: &EventEntry,
    start: Option<LocalStamp>,
    end: Option<LocalStamp>,
    today: &str,
) -> (out: EventTime)
    ensures
        out@ == event_time_of(*entry, start, end, today@),
{
    if let Some(date) = entry_all_day_date(entry) {
        return EventTime {
            date: date.clone(),
            time: String::from_str("All day"),
            time_range: String::from_str("All day"),
            date_formatted: format_date_string(date.as_str()),
            is_all_day: true,
        };
    }
    if start_instant(entry).is_some() {
        if let Some(local) = start {
            let mut time_range = local.time.clone();
            if end_instant(entry).is_some() {
                if let Some(end_local) = end {
                    time_range.append(" - ");
                    time_range.append(end_local.time.as_str());
                }
            }
            return EventTime {
                date: local.date,
                time: local.time,
                time_range,
                date_formatted: local.date_formatted,
                is_all_day: false,
            };
        }
    }
    EventTime {
        date: String::from_str(today),
        time: String::from_str("All day"),
        time_range: String::from_str("All day"),
        date_formatted: String::from_str("Unknown"),
        is_all_day: true,
    }
}

/// The text of the entry's start instant.
pub open spec fn start_text(entry: EventEntry) -> Seq<char> {
    entry.start->0.date_time->0@
}

/// The text of the entry's end instant.
pub open spec fn end_text(entry: EventEntry) -> Seq<char> {
    entry.end->0.date_time->0@
}

/// Whether the entry is timed: it has no all-day date, and a start
/// instant that reads as one.
pub open spec fn is_timed(entry: EventEntry) -> bool {
    all_day_date(entry) is None && has_start_instant(entry) && rfc3339_instant(start_text(entry))
}

/// Whether `time` is a normalized time of `entry`, for some reading of
/// its instants in a time zone and some current date. An all-day entry
/// is settled by its date alone. A timed entry takes date and time from a
/// stamp of its start, and a range exactly where its end reads as an
/// instant too. Any other entry falls on some date as an all-day event.
pub open spec fn is_time_of(entry: EventEntry, time: EventTime) -> bool {
    &&& all_day_date(entry) is Some ==> time@ == event_time_of(entry, None, None, Seq::empty())
    &&& is_timed(entry) ==> !time.is_all_day && exists|s: LocalStamp, e: Option<LocalStamp>|
        (e is Some <==> has_end_instant(entry) && rfc3339_instant(end_text(entry))) && time@
            == #[trigger] event_time_of(entry, Some(s), e, Seq::empty())
    &&& all_day_date(entry) is None && !is_timed(entry) ==> exists|today: Seq<char>|
        time@ == #[trigger] event_time_of(entry, None, None, today)
}

/// Normalizes the time of an entry, reading its instants in the local time
/// zone and the current date from the clock.
pub fn parse_event_time(entry: &EventEntry) -> (out: EventTime)
    ensures
        is_time_of(*entry, out),
{
    let start = match start_instant(entry) {
        Some(text) => local_stamp(text.as_str()),
        None => None,
    };
    let end = match end_instant(entry) {
        Some(text) => local_stamp(text.as_str()),
        None => None,
    };
    let today = today_utc();
    let out = event_time(entry, start, end, today.as_str());
    proof {
        if is_timed(*entry) {
            assert(out@ == event_time_of(*entry, Some(start->0), end, Seq::empty()));
        } else if all_day_date(*entry) is None {
            assert(out@ == event_time_of(*entry, None, None, today@));
        }
    }
    out
}

/// The calendar that a list entry stands for: an unnamed one is called
/// "Unnamed", one without a colour is blue, one not marked is not primary.
pub open spec fn calendar_of(entry: CalendarListEntry) -> CalendarModel {
    CalendarModel {
        id: entry.id@,
        name: text_or(entry.summary, "Unnamed"@),
        color: text_or(entry.background_color, "#3b82f6"@),
        primary: match entry.primary {
            Some(p) => p,
            None => false,
        },
    }
}

/// The calendars of one page of the list.
pub open spec fn page_calendars(page: CalendarListPage) -> Seq<CalendarModel> {
    match page.items {
        Some(items) => items@.map_values(|e: CalendarListEntry| calendar_of(e)),
        None => Seq::empty(),
    }
}

/// The calendars of all pages, page after page.
pub open spec fn all_calendars(pages: Seq<CalendarListPage>) -> Seq<CalendarModel>
    decreases pages.len(),
{
    if pages.len() == 0 {
        Seq::empty()
    } else {
        all_calendars(pages.drop_last()) + page_calendars(pages.last())
    }
}

/// The models of a sequence of calendars.
pub open spec fn calendar_models(calendars: Seq<Calendar>) -> Seq<CalendarModel> {
    calendars.map_values(|c: Calendar| c@)
}

/// Normalizes one entry of the calendar list.
pub fn calendar_from_entry(entry: &CalendarListEntry) -> (calendar: Calendar)
    ensures
        calendar@ == calendar_of(*entry),
{
    Calendar {
        id: entry.id.clone(),
        name: owned_or(&entry.summary, "Unnamed"),
        color: owned_or(&entry.background_color, "#3b82f6"),
        primary: match entry.primary {
            Some(p) => p,
            None => false,
        },
    }
}

/// The calendars of the account, from the pages of the calendar list in
/// the order they were fetched.
pub fn get_calendars(pages: &Vec<CalendarListPage>) -> (calendars: Vec<Calendar>)
    ensures
        calendar_models(calendars@) == all_calendars(pages@),
{
    let mut out: Vec<Calendar> = Vec::new();
    let mut i: usize = 0;
    assert(pages@.take(0) =~= Seq::empty());
    assert(calendar_models(out@) =~= Seq::empty());
    while i < pages.len()
        invariant
            i <= pages.len(),
            calendar_models(out@) == all_calendars(pages@.take(i as int)),
        decreases pages.len() - i,
    {
        proof {
            assert(pages@.take(i as int + 1).drop_last() =~= pages@.take(i as int));
            assert(pages@.take(i as int + 1).last() == pages@[i as int]);
        }
        let ghost start = calendar_models(out@);
        match &pages[i].items {
            Some(items) => {
                let mut j: usize = 0;
                assert(start + page_calendars(pages@[i as int]).take(0) =~= start);
                while j < items.len()
                    invariant
                        j <= items.len(),
                        i < pages.len(),
                        pages@[i as int].items == Some(*items),
                        calendar_models(out@) == start + page_calendars(pages@[i as int]).take(
                            j as int,
                        ),
                    decreases items.len() - j,
                {
                    let ghost before = out@;
                    out.push(calendar_from_entry(&items[j]));
                    proof {
                        let page = page_calendars(pages@[i as int]);
                        assert(page[j as int] == calendar_of(items@[j as int]));
                        assert(calendar_models(out@) =~= calendar_models(before).push(
                            page[j as int],
                        ));
                        assert(start + page.take(j as int + 1) =~= (start + page.take(
                            j as int,
                        )).push(page[j as int]));
                    }
                    j = j + 1;
                }
                assert(page_calendars(pages@[i as int]).take(items.len() as int)
                    =~= page_calendars(pages@[i as int]));
            },
            None => {
                assert(start + Seq::<CalendarModel>::empty() =~= start);
            },
        }
        i = i + 1;
    }
    assert(pages@.take(pages.len() as int) =~= pages@);
    out
}

/// URL of one page of the calendar list; the first page has no token.
pub fn calendar_list_url(page_token: &Option<String>) -> (url: String)
    ensures
        url@ == match *page_token {
            Some(token) => CALENDAR_API_BASE@ + "/users/me/calendarList"@ + "?pageToken="@
                + token@,
            None => CALENDAR_API_BASE@ + "/users/me/calendarList"@,
        },
{
    let mut url = String::from_str(CALENDAR_API_BASE);
    url.append("/users/me/calendarList");
    match page_token {
        Some(token) => {
            url.append("?pageToken=");
            url.append(token.as_str());
        },
        None => {},
    }
    url
}

/// The URL of the page that follows `page`, or `None` where `page` is
/// the last one.
pub fn next_calendar_page(page: &CalendarListPage) -> (url: Option<String>)
    ensures
        page.next_page_token is None ==> url is None,
        page.next_page_token is Some ==> url is Some && url->0@ == CALENDAR_API_BASE@
            + "/users/me/calendarList"@ + "?pageToken="@ + page.next_page_token->0@,
{
    match &page.next_page_token {
        Some(_) => {
            let url = calendar_list_url(&page.next_page_token);
            Some(url)
        },
        None => None,
    }
}

/// URL that lists the events of one calendar inside the window, recurring
/// events expanded and ordered by start time.
pub fn events_url(calendar_id: &str, window: &EventWindow) -> (url: String)
    ensures
        url@ == CALENDAR_API_BASE@ + "/calendars/"@ + percent_encoded(calendar_id@)
            + "/events?timeMin="@ + percent_encoded(window.time_min@) + "&timeMax="@
            + percent_encoded(window.time_max@) + "&singleEvents=true&orderBy=startTime"@,
{
    let mut url = String::from_str(CALENDAR_API_BASE);
    url.append("/calendars/");
    url.append(percent_encode(calendar_id).as_str());
    url.append("/events?timeMin=");
    url.append(percent_encode(window.time_min.as_str()).as_str());
    url.append("&timeMax=");
    url.append(percent_encode(window.time_max.as_str()).as_str());
    url.append("&singleEvents=true&orderBy=startTime");
    url
}

/// The instant `days` days from `now`, where it fits the timestamp type.
pub open spec fn shifted_instant(now: i64, days: int) -> Option<i64> {
    if i64::MIN <= now + days * DAY_SECS <= i64::MAX {
        Some((now + days * DAY_SECS) as i64)
    } else {
        None
    }
}

/// Decides `shifted_instant` for a number of days that fits 32 bits.
pub fn shift_days(now: i64, days: i64) -> (r: Option<i64>)
    requires
        -0x8000_0000 <= days <= 0x7fff_ffff,
    ensures
        r == shifted_instant(now, days as int),
{
    let delta: i64 = days * DAY_SECS;
    now.checked_add(delta)
}

/// The bounds of a window from the local day it starts on and the local
/// day it ends on: the start of the first, the last second of the other.
pub fn window_between(first: &LocalDay, last: &LocalDay) -> (window: EventWindow)
    ensures
        window.time_min@ == first.date@ + "T00:00:00"@ + first.offset@,
        window.time_max@ == last.date@ + "T23:59:59"@ + last.offset@,
{
    let mut time_min = first.date.clone();
    time_min.append("T00:00:00");
    time_min.append(first.offset.as_str());
    let mut time_max = last.date.clone();
    time_max.append("T23:59:59");
    time_max.append(last.offset.as_str());
    EventWindow { time_min, time_max }
}

/// The last second of the year 9999, in epoch seconds.
pub const LAST_COMMON_SECOND: i64 = 253_402_300_799;

/// An instant from 1970 to the end of the year 9999.
pub open spec fn common_instant(secs: int) -> bool {
    0 <= secs <= LAST_COMMON_SECOND
}

/// Whether the calendar has the three instants that a window rests on:
/// `now`, the instant `days` days ahead, and the instant `back` days ago,
/// `back` being the distance of the local weekday from Monday.
pub open spec fn window_instants(now: i64, days: int, back: int) -> bool {
    &&& chrono_has_instant(now)
    &&& shifted_instant(now, days) is Some
    &&& chrono_has_instant(shifted_instant(now, days)->0)
    &&& shifted_instant(now, -back) is Some
    &&& chrono_has_instant(shifted_instant(now, -back)->0)
}

/// How many days the instant `now`, read at `offset` seconds east of
/// UTC, lies behind the Monday of its week.
pub open spec fn days_back(now: i64, offset: i32) -> int {
    match chrono_day_at(now, offset) {
        Some(day) => day.2 as int,
        None => 0,
    }
}

/// A bound of a window: the date of the instant `secs` read at `offset`,
/// the time of day `mark`, and the offset as text.
pub open spec fn day_text(secs: i64, offset: i32, mark: Seq<char>) -> Seq<char> {
    match chrono_day_at(secs, offset) {
        Some(day) => day.0 + mark + day.1,
        None => Seq::empty(),
    }
}

/// Whether `window` is the window of `now` and `days`, the time zone
/// standing `at_now` seconds east of UTC at `now`, `at_start` at the
/// start of the week and `at_end` at the horizon: it opens at 00:00 of
/// the day that lies as many days before `now` as `now` lies behind
/// Monday, and closes with the last second of the day `days` days after
/// `now`.
pub open spec fn is_window_of(
    window: EventWindow,
    now: i64,
    days: int,
    at_now: i32,
    at_start: i32,
    at_end: i32,
) -> bool {
    &&& -86_400 < at_now < 86_400
    &&& -86_400 < at_start < 86_400
    &&& -86_400 < at_end < 86_400
    &&& shifted_instant(now, -days_back(now, at_now)) is Some
    &&& shifted_instant(now, days) is Some
    &&& window.time_min@ == day_text(
        shifted_instant(now, -days_back(now, at_now))->0,
        at_start,
        "T00:00:00"@,
    )
    &&& window.time_max@ == day_text(shifted_instant(now, days)->0, at_end, "T23:59:59"@)
}

/// What `event_window` owes for `now` and `days` where the time zone
/// stands `at_now` seconds east of UTC at `now`: a window exactly where
/// the calendar has the three instants, and then the window of `now` and
/// `days` for the offsets at the start of the week and at the horizon.
pub open spec fn window_outcome(r: Option<EventWindow>, now: i64, days: int, at_now: i32) -> bool {
    &&& -86_400 < at_now < 86_400
    &&& r is Some <==> window_instants(now, days, days_back(now, at_now))
    &&& r is Some ==> exists|at_start: i32, at_end: i32| #[trigger]
        is_window_of(r->0, now, days, at_now, at_start, at_end)
}

/// The window queried at `now` for a horizon of `days` days: from the
/// Monday of the current local week, 00:00, to the end of the local day
/// `days` days ahead. There is a window exactly where the calendar has
/// `now`, the instant `days` days ahead and the instant as many days ago
/// as the local weekday lies behind Monday; that is so whenever the week
/// before `now`, `now` and the horizon lie between 1970 and the year 9999.
/// The window is that of `now` and `days` for the offsets that the time
/// zone has at the three instants.
pub fn event_window(now: i64, days: i32) -> (r: Option<EventWindow>)
    ensures
        exists|at_now: i32| #[trigger] window_outcome(r, now, days as int, at_now),
        common_instant(now - 6 * DAY_SECS) && common_instant(now as int) && common_instant(
            now + days * DAY_SECS,
        ) ==> r is Some,
        shifted_instant(now, days as int) is None || !chrono_has_instant(now) ==> r is None,
{
    let end = match shift_days(now, days as i64) {
        Some(t) => t,
        None => {
            assert(window_outcome(None, now, days as int, 0));
            return None;
        },
    };
    let at_now = match local_offset_at(now) {
        Some(o) => o,
        None => {
            assert(window_outcome(None, now, days as int, 0));
            return None;
        },
    };
    let today = match day_at(now, at_now) {
        Some(d) => d,
        None => {
            assert(window_outcome(None, now, days as int, at_now));
            return None;
        },
    };
    let back: i64 = 0 - (today.days_from_monday as i64);
    let ghost behind = today.days_from_monday as int;
    assert(behind == days_back(now, at_now));
    let start = match shift_days(now, back) {
        Some(t) => t,
        None => {
            assert(window_outcome(None, now, days as int, at_now));
            return None;
        },
    };
    let at_start = match local_offset_at(start) {
        Some(o) => o,
        None => {
            assert(window_outcome(None, now, days as int, at_now));
            return None;
        },
    };
    let first = match day_at(start, at_start) {
        Some(d) => d,
        None => {
            assert(window_outcome(None, now, days as int, at_now));
            return None;
        },
    };
    let at_end = match local_offset_at(end) {
        Some(o) => o,
        None => {
            assert(window_outcome(None, now, days as int, at_now));
            return None;
        },
    };
    let last = match day_at(end, at_end) {
        Some(d) => d,
        None => {
            assert(window_outcome(None, now, days as int, at_now));
            return None;
        },
    };
    let window = window_between(&first, &last);
    assert(window_instants(now, days as int, behind));
    let r = Some(window);
    assert(is_window_of(r->0, now, days as int, at_now, at_start, at_end));
    assert(window_outcome(r, now, days as int, at_now));
    r
}

/// The window queried right now for a horizon of `days` days: what
/// `event_window` owes at the instant that the clock shows, which lies
/// in 1970 or later.
pub fn current_event_window(days: i32) -> (r: Option<EventWindow>)
    ensures
        exists|now: i64, at_now: i32| now >= 0 && #[trigger] window_outcome(
            r,
            now,
            days as int,
            at_now,
        ),
{
    let now = now_secs();
    let r = event_window(now, days);
    r
}

} // verus!
