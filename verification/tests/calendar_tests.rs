use daywidget::agenda::{event_from_entry, event_precedes, get_events, sort_events};
use daywidget::calendar::{
    calendar_from_entry, calendar_list_url, current_event_window, event_time, event_window,
    events_url,
    format_date_string, get_calendars, next_calendar_page, parse_event_time, shift_days, window_between, Calendar,
    CalendarEvents, CalendarListEntry, CalendarListPage, Event, EventDateTime, EventEntry,
    EventTime, EventWindow, LocalDay, LocalStamp,
};

fn event(id: &str, date: &str, time: &str, all_day: bool) -> Event {
    Event {
        id: id.to_string(),
        title: "t".to_string(),
        date: date.to_string(),
        time: time.to_string(),
        time_range: time.to_string(),
        date_formatted: "".to_string(),
        color: "#000".to_string(),
        calendar: "c".to_string(),
        location: "".to_string(),
        description: "".to_string(),
        is_all_day: all_day,
    }
}

fn ids(events: &Vec<Event>) -> Vec<String> {
    events.iter().map(|e| e.id.clone()).collect()
}

fn entry(id: &str, start: Option<EventDateTime>, end: Option<EventDateTime>) -> EventEntry {
    EventEntry {
        id: Some(id.to_string()),
        summary: None,
        start,
        end,
        location: None,
        description: Some("d".to_string()),
    }
}

fn on_date(date: &str) -> Option<EventDateTime> {
    Some(EventDateTime { date_time: None, date: Some(date.to_string()) })
}

fn at_instant(instant: &str) -> Option<EventDateTime> {
    Some(EventDateTime { date_time: Some(instant.to_string()), date: None })
}

fn stamp(date: &str, time: &str, long: &str) -> Option<LocalStamp> {
    Some(LocalStamp {
        date: date.to_string(),
        time: time.to_string(),
        date_formatted: long.to_string(),
    })
}

fn calendar() -> Calendar {
    Calendar {
        id: "cal-1".to_string(),
        name: "Home".to_string(),
        color: "#123456".to_string(),
        primary: true,
    }
}

#[test]
fn agenda_orders_by_date_then_all_day_then_time() {
    let input = vec![
        event("allday-10", "2024-06-10", "All day", true),
        event("timed-10", "2024-06-10", "09:00", false),
        event("timed-09", "2024-06-09", "23:00", false),
    ];
    let sorted = sort_events(&input);
    assert_eq!(ids(&sorted), vec!["timed-09", "allday-10", "timed-10"]);
}

#[test]
fn agenda_puts_all_day_first_even_when_its_label_sorts_later() {
    let input = vec![
        event("timed", "2024-06-10", "09:00", false),
        event("allday", "2024-06-10", "All day", true),
        event("early", "2024-06-10", "08:15", false),
    ];
    assert_eq!(ids(&sort_events(&input)), vec!["allday", "early", "timed"]);
}

#[test]
fn agenda_keeps_level_events_in_their_order() {
    let input = vec![
        event("b", "2024-06-10", "09:00", false),
        event("a", "2024-06-10", "09:00", false),
        event("c", "2024-06-10", "09:00", false),
        event("z", "2024-06-01", "09:00", false),
    ];
    assert_eq!(ids(&sort_events(&input)), vec!["z", "b", "a", "c"]);
    assert!(sort_events(&Vec::new()).is_empty());
}

#[test]
fn precedence_of_two_events() {
    let a = event("a", "2024-06-10", "All day", true);
    let b = event("b", "2024-06-10", "09:00", false);
    assert!(event_precedes(&a, &b));
    assert!(!event_precedes(&b, &a));
    assert!(!event_precedes(&a, &a));
    let c = event("c", "2024-06-09", "23:00", false);
    assert!(event_precedes(&c, &a));
    assert!(!event_precedes(&a, &c));
}

#[test]
fn long_form_of_a_date() {
    assert_eq!(format_date_string("2024-06-10"), "Monday, 10. June");
    assert_eq!(format_date_string("2024-01-07"), "Sunday, 07. January");
}

#[test]
fn text_that_is_no_date_is_kept() {
    assert_eq!(format_date_string("next week"), "next week");
    assert_eq!(format_date_string("2024-13-40"), "2024-13-40");
    assert_eq!(format_date_string(""), "");
}

#[test]
fn all_day_entry_keeps_its_date() {
    let e = entry("e", on_date("2024-06-10"), None);
    let t = event_time(&e, None, None, "2030-01-01");
    assert_eq!(t.date, "2024-06-10");
    assert_eq!(t.time, "All day");
    assert_eq!(t.time_range, "All day");
    assert_eq!(t.date_formatted, "Monday, 10. June");
    assert!(t.is_all_day);
    let p = parse_event_time(&e);
    assert_eq!(p.date, "2024-06-10");
    assert_eq!(p.date_formatted, "Monday, 10. June");
    assert!(p.is_all_day);
}

#[test]
fn timed_entry_takes_its_local_start_and_range() {
    let e = entry("e", at_instant("2024-06-10T09:00:00Z"), at_instant("2024-06-10T10:30:00Z"));
    let t = event_time(
        &e,
        stamp("2024-06-10", "11:00", "Monday, 10. June"),
        stamp("2024-06-10", "12:30", "Monday, 10. June"),
        "2030-01-01",
    );
    assert_eq!(t.date, "2024-06-10");
    assert_eq!(t.time, "11:00");
    assert_eq!(t.time_range, "11:00 - 12:30");
    assert_eq!(t.date_formatted, "Monday, 10. June");
    assert!(!t.is_all_day);
}

#[test]
fn timed_entry_without_usable_end_shows_its_start_only() {
    let e = entry("e", at_instant("2024-06-10T09:00:00Z"), at_instant("garbage"));
    let t = event_time(&e, stamp("2024-06-10", "11:00", "Monday, 10. June"), None, "x");
    assert_eq!(t.time_range, "11:00");
    let no_end = entry("e", at_instant("2024-06-10T09:00:00Z"), None);
    let t = event_time(
        &no_end,
        stamp("2024-06-10", "11:00", "Monday, 10. June"),
        stamp("2024-06-10", "12:30", "Monday, 10. June"),
        "x",
    );
    assert_eq!(t.time_range, "11:00");
}

#[test]
fn entry_without_usable_start_falls_on_today() {
    let e = entry("e", at_instant("not an instant"), None);
    let t = event_time(&e, None, None, "2030-01-01");
    assert_eq!(t.date, "2030-01-01");
    assert_eq!(t.time, "All day");
    assert_eq!(t.time_range, "All day");
    assert_eq!(t.date_formatted, "Unknown");
    assert!(t.is_all_day);
    let missing = entry("e", None, None);
    let p = parse_event_time(&missing);
    assert_eq!(p.date_formatted, "Unknown");
    assert!(p.is_all_day);
    assert_eq!(p.date.len(), 10);
    let garbled = parse_event_time(&e);
    assert_eq!(garbled.date_formatted, "Unknown");
}

#[test]
fn timed_entry_is_read_in_the_local_zone() {
    let e = entry("e", at_instant("2024-06-10T09:00:00Z"), at_instant("2024-06-10T10:30:00Z"));
    let p = parse_event_time(&e);
    assert!(!p.is_all_day);
    assert_eq!(p.date.len(), 10);
    assert_eq!(p.time.len(), 5);
    assert_eq!(p.time_range.len(), 13);
    assert!(p.time_range.starts_with(&p.time));
    assert!(p.time_range.contains(" - "));
}

#[test]
fn calendar_entry_defaults() {
    let bare = CalendarListEntry {
        id: "c1".to_string(),
        summary: None,
        background_color: None,
        primary: None,
    };
    let c = calendar_from_entry(&bare);
    assert_eq!(c.id, "c1");
    assert_eq!(c.name, "Unnamed");
    assert_eq!(c.color, "#3b82f6");
    assert!(!c.primary);
    let full = CalendarListEntry {
        id: "c2".to_string(),
        summary: Some("Work".to_string()),
        background_color: Some("#ff0000".to_string()),
        primary: Some(true),
    };
    let c = calendar_from_entry(&full);
    assert_eq!(c.name, "Work");
    assert_eq!(c.color, "#ff0000");
    assert!(c.primary);
}

#[test]
fn calendars_of_all_pages_in_order() {
    let page = |ids: Option<Vec<&str>>, next: Option<&str>| CalendarListPage {
        items: ids.map(|v| {
            v.into_iter()
                .map(|id| CalendarListEntry {
                    id: id.to_string(),
                    summary: None,
                    background_color: None,
                    primary: None,
                })
                .collect()
        }),
        next_page_token: next.map(|s| s.to_string()),
    };
    let pages = vec![
        page(Some(vec!["a", "b"]), Some("second")),
        page(None, Some("third")),
        page(Some(vec!["c"]), None),
    ];
    let got: Vec<String> = get_calendars(&pages).into_iter().map(|c| c.id).collect();
    assert_eq!(got, vec!["a", "b", "c"]);
    assert!(get_calendars(&Vec::new()).is_empty());
}

#[test]
fn calendar_urls() {
    assert_eq!(
        calendar_list_url(&None),
        "https://www.googleapis.com/calendar/v3/users/me/calendarList"
    );
    assert_eq!(
        calendar_list_url(&Some("tok".to_string())),
        "https://www.googleapis.com/calendar/v3/users/me/calendarList?pageToken=tok"
    );
    let window = EventWindow {
        time_min: "2024-06-10T00:00:00+02:00".to_string(),
        time_max: "2024-08-09T23:59:59+02:00".to_string(),
    };
    assert_eq!(
        events_url("me@example.com", &window),
        "https://www.googleapis.com/calendar/v3/calendars/me%40example.com/events?timeMin=2024-06-10T00%3A00%3A00%2B02%3A00&timeMax=2024-08-09T23%3A59%3A59%2B02%3A00&singleEvents=true&orderBy=startTime"
    );
}

#[test]
fn shifting_by_days() {
    assert_eq!(shift_days(1_000_000, 2), Some(1_172_800));
    assert_eq!(shift_days(1_000_000, -6), Some(481_600));
    assert_eq!(shift_days(5, 0), Some(5));
    assert_eq!(shift_days(i64::MAX, 1), None);
    assert_eq!(shift_days(i64::MIN, -1), None);
}

#[test]
fn window_bounds_from_two_days() {
    let first = LocalDay {
        date: "2024-06-10".to_string(),
        offset: "+02:00".to_string(),
        days_from_monday: 0,
    };
    let last = LocalDay {
        date: "2024-08-09".to_string(),
        offset: "+01:00".to_string(),
        days_from_monday: 4,
    };
    let w = window_between(&first, &last);
    assert_eq!(w.time_min, "2024-06-10T00:00:00+02:00");
    assert_eq!(w.time_max, "2024-08-09T23:59:59+01:00");
}

#[test]
fn window_of_a_week_day() {
    let w = event_window(1_718_010_000, 60).unwrap();
    assert_eq!(w.time_min.len(), 25);
    assert_eq!(&w.time_min[10..19], "T00:00:00");
    assert_eq!(&w.time_max[10..19], "T23:59:59");
    assert!(w.time_min < w.time_max);
    assert!(event_window(i64::MAX, 1).is_none());
    assert!(event_window(i64::MAX - 86_400 * 3, 1).is_none());
}

#[test]
fn event_of_an_entry() {
    let e = EventEntry {
        id: None,
        summary: None,
        start: None,
        end: None,
        location: Some("Room 1".to_string()),
        description: None,
    };
    let time = EventTime {
        date: "2024-06-10".to_string(),
        time: "09:00".to_string(),
        time_range: "09:00 - 10:00".to_string(),
        date_formatted: "Monday, 10. June".to_string(),
        is_all_day: false,
    };
    let ev = event_from_entry(&e, &calendar(), time);
    assert_eq!(ev.id, "");
    assert_eq!(ev.title, "(No title)");
    assert_eq!(ev.date, "2024-06-10");
    assert_eq!(ev.time, "09:00");
    assert_eq!(ev.time_range, "09:00 - 10:00");
    assert_eq!(ev.date_formatted, "Monday, 10. June");
    assert_eq!(ev.color, "#123456");
    assert_eq!(ev.calendar, "Home");
    assert_eq!(ev.location, "Room 1");
    assert_eq!(ev.description, "");
    assert!(!ev.is_all_day);
}

#[test]
fn events_of_fetched_calendars_are_merged() {
    let batches = vec![
        CalendarEvents {
            calendar: calendar(),
            items: Some(vec![
                entry("late", on_date("2024-06-12"), None),
                entry("early", on_date("2024-06-10"), None),
            ]),
        },
        CalendarEvents { calendar: calendar(), items: None },
        CalendarEvents {
            calendar: Calendar {
                id: "cal-2".to_string(),
                name: "Work".to_string(),
                color: "#abcdef".to_string(),
                primary: false,
            },
            items: Some(vec![entry("middle", on_date("2024-06-11"), None)]),
        },
    ];
    let events = get_events(&batches);
    assert_eq!(ids(&events), vec!["early", "middle", "late"]);
    assert_eq!(events[1].calendar, "Work");
    assert_eq!(events[1].color, "#abcdef");
    assert_eq!(events[0].calendar, "Home");
    assert_eq!(events[0].date_formatted, "Monday, 10. June");
    assert_eq!(events[0].description, "d");
    assert!(get_events(&Vec::new()).is_empty());
}

#[test]
fn pagination_follows_the_next_page_token() {
    let more = CalendarListPage { items: None, next_page_token: Some("second".to_string()) };
    assert_eq!(
        next_calendar_page(&more),
        Some("https://www.googleapis.com/calendar/v3/users/me/calendarList?pageToken=second".to_string())
    );
    let last = CalendarListPage { items: None, next_page_token: None };
    assert_eq!(next_calendar_page(&last), None);
}

#[test]
fn window_exists_for_instants_of_the_common_era() {
    assert!(event_window(6 * 86_400, 0).is_some());
    assert!(event_window(1_718_010_000, -3).is_some());
    assert!(event_window(253_402_300_799 - 86_400, 1).is_some());
    assert!(event_window(1_718_010_000, i32::MAX).is_none());
    assert!(event_window(i64::MIN, 0).is_none());
}

#[test]
fn window_of_the_present() {
    let w = current_event_window(60).unwrap();
    assert_eq!(&w.time_min[10..19], "T00:00:00");
    assert_eq!(&w.time_max[10..19], "T23:59:59");
    assert!(w.time_min < w.time_max);
}

#[test]
fn unreadable_end_gives_no_range() {
    let e = entry("e", at_instant("2024-06-10T09:00:00Z"), at_instant("garbage"));
    let p = parse_event_time(&e);
    assert!(!p.is_all_day);
    assert_eq!(p.time_range, p.time);
    assert_eq!(p.time.len(), 5);
}

#[test]
fn window_opens_on_a_monday_and_closes_on_the_horizon() {
    // 2024-06-13 12:00:00 UTC is a Thursday; whatever the zone, the local
    // day at noon UTC lies within a day of it.
    let w = event_window(1_718_280_000, 2).unwrap();
    let first = &w.time_min[..10];
    let last = &w.time_max[..10];
    assert!(first == "2024-06-10" || first == "2024-06-09" || first == "2024-06-11");
    assert!(last == "2024-06-15" || last == "2024-06-14" || last == "2024-06-16");
    assert_eq!(format_date_string(first).split(',').next(), Some("Monday"));
    let offset = &w.time_min[19..];
    assert_eq!(offset.len(), 6);
    assert!(offset.starts_with('+') || offset.starts_with('-'));
}
