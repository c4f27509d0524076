//! The agenda: events built from the fetched calendars, merged into one
//! list ordered by date, all-day events first within a date, then by time.

use vstd::prelude::*;
use vstd::string::*;
use crate::calendar::{
    is_time_of, parse_event_time, Calendar, CalendarEvents, Event, EventEntry, EventModel,
    EventTime,
};
use crate::encoding::{
    lemma_bytes_before_irreflexive, lemma_bytes_before_total, lemma_bytes_before_transitive,
    owned_or, owned_or_empty, text_before, text_lt, text_or, text_or_empty,
};

verus! {

/// The models of a sequence of events.
pub open spec fn event_models(events: Seq<Event>) -> Seq<EventModel> {
    events.map_values(|e: Event| e@)
}

/// The event that an entry of a calendar becomes, given its normalized time.
pub open spec fn event_of(entry: EventEntry, calendar: Calendar, time: EventTime) -> EventModel {
    EventModel {
        id: text_or_empty(entry.id),
        title: text_or(entry.summary, "(No title)"@),
        date: time.date@,
        time: time.time@,
        time_range: time.time_range@,
        date_formatted: time.date_formatted@,
        color: calendar.color@,
        calendar: calendar.name@,
        location: text_or_empty(entry.location),
        description: text_or_empty(entry.description),
        is_all_day: time.is_all_day,
    }
}

/// Builds the normalized event of an entry.
pub fn event_from_entry(entry: &EventEntry, calendar: &Calendar, time: EventTime) -> (event: Event)
    ensures
        event@ == event_of(*entry, *calendar, time),
{
    Event {
        id: owned_or_empty(&entry.id),
        title: owned_or(&entry.summary, "(No title)"),
        date: time.date,
        time: time.time,
        time_range: time.time_range,
        date_formatted: time.date_formatted,
        color: calendar.color.clone(),
        calendar: calendar.name.clone(),
        location: owned_or_empty(&entry.location),
        description: owned_or_empty(&entry.description),
        is_all_day: time.is_all_day,
    }
}

/// Whether two texts are neither before the other.
pub open spec fn text_level(a: Seq<char>, b: Seq<char>) -> bool {
    !text_before(a, b) && !text_before(b, a)
}

/// The order of the agenda: `a` comes strictly before `b` when its date
/// is earlier, or, on the same date, when it is an all-day event and `b`
/// is timed, or, both of one kind, when its time is earlier.
pub open spec fn event_before(a: EventModel, b: EventModel) -> bool {
    text_before(a.date, b.date) || (text_level(a.date, b.date) && ((a.is_all_day && !b.is_all_day)
        || (a.is_all_day == b.is_all_day && text_before(a.time, b.time))))
}

/// Decides `event_before`.
pub fn event_precedes(a: &Event, b: &Event) -> (r: bool)
    ensures
        r == event_before(a@, b@),
{
    if text_lt(a.date.as_str(), b.date.as_str()) {
        true
    } else if text_lt(b.date.as_str(), a.date.as_str()) {
        false
    } else if a.is_all_day != b.is_all_day {
        a.is_all_day
    } else {
        text_lt(a.time.as_str(), b.time.as_str())
    }
}

/// A sequence is in agenda order when no event comes before an earlier one.
pub open spec fn events_ordered(events: Seq<EventModel>) -> bool {
    forall|i: int, j: int|
        0 <= i < j < events.len() ==> !event_before(#[trigger] events[j], #[trigger] events[i])
}

/// Where `e` goes in an ordered sequence: the index of the first event
/// that `e` comes strictly before, or the length where there is none.
pub open spec fn place_index(events: Seq<EventModel>, e: EventModel) -> int
    decreases events.len(),
{
    if events.len() == 0 {
        0
    } else if event_before(e, events[0]) {
        0
    } else {
        1 + place_index(events.skip(1), e)
    }
}

/// `e` placed into a sequence: behind all that are level with it.
pub open spec fn placed(events: Seq<EventModel>, e: EventModel) -> Seq<EventModel> {
    events.insert(place_index(events, e), e)
}

/// The agenda of a sequence of events: each placed in turn.
pub open spec fn sorted_events(events: Seq<EventModel>) -> Seq<EventModel>
    decreases events.len(),
{
    if events.len() == 0 {
        Seq::empty()
    } else {
        placed(sorted_events(events.drop_last()), events.last())
    }
}

proof fn lemma_place_index_at(events: Seq<EventModel>, e: EventModel, k: int)
    requires
        0 <= k <= events.len(),
        forall|i: int| 0 <= i < k ==> !event_before(e, #[trigger] events[i]),
        k < events.len() ==> event_before(e, events[k]),
    ensures
        place_index(events, e) == k,
    decreases events.len(),
{
    if events.len() > 0 && k > 0 {
        let rest = events.skip(1);
        assert forall|i: int| 0 <= i < k - 1 implies !event_before(e, #[trigger] rest[i]) by {
            assert(rest[i] == events[i + 1]);
        }
        lemma_place_index_at(rest, e, k - 1);
    }
}

proof fn lemma_place_index(events: Seq<EventModel>, e: EventModel)
    ensures
        0 <= place_index(events, e) <= events.len(),
        forall|i: int| 0 <= i < place_index(events, e) ==> !event_before(e, #[trigger] events[i]),
        place_index(events, e) < events.len() ==> event_before(
            e,
            events[place_index(events, e)],
        ),
    decreases events.len(),
{
    if events.len() > 0 && !event_before(e, events[0]) {
        let rest = events.skip(1);
        lemma_place_index(rest, e);
        assert forall|i: int| 0 <= i < place_index(events, e) implies !event_before(
            e,
            #[trigger] events[i],
        ) by {
            if i > 0 {
                assert(events[i] == rest[i - 1]);
            }
        }
        if place_index(events, e) < events.len() {
            assert(events[place_index(events, e)] == rest[place_index(rest, e)]);
        }
    }
}

/// No event comes before itself, and of two events at most one comes
/// before the other.
pub proof fn lemma_event_before_asymmetric(a: EventModel, b: EventModel)
    ensures
        !(event_before(a, b) && event_before(b, a)),
{
    let enc = |s: Seq<char>| vstd::utf8::encode_utf8(s);
    if event_before(a, b) && event_before(b, a) {
        if text_before(a.date, b.date) && text_before(b.date, a.date) {
            lemma_bytes_before_transitive(enc(a.date), enc(b.date), enc(a.date));
            lemma_bytes_before_irreflexive(enc(a.date));
        } else if text_before(a.time, b.time) && text_before(b.time, a.time) {
            lemma_bytes_before_transitive(enc(a.time), enc(b.time), enc(a.time));
            lemma_bytes_before_irreflexive(enc(a.time));
        }
    }
}

proof fn lemma_text_order(a: Seq<char>, b: Seq<char>, c: Seq<char>)
    ensures
        text_before(a, b) && text_before(b, c) ==> text_before(a, c),
        text_before(a, b) && text_level(b, c) ==> text_before(a, c),
        text_level(a, b) && text_before(b, c) ==> text_before(a, c),
        text_level(a, b) && text_level(b, c) ==> text_level(a, c),
{
    let x = vstd::utf8::encode_utf8(a);
    let y = vstd::utf8::encode_utf8(b);
    let z = vstd::utf8::encode_utf8(c);
    lemma_bytes_before_total(x, y);
    lemma_bytes_before_total(y, z);
    lemma_bytes_before_irreflexive(x);
    lemma_bytes_before_irreflexive(z);
    if text_before(a, b) && text_before(b, c) {
        lemma_bytes_before_transitive(x, y, z);
    }
}

/// The agenda order is transitive.
pub proof fn lemma_event_before_transitive(a: EventModel, b: EventModel, c: EventModel)
    requires
        event_before(a, b),
        event_before(b, c),
    ensures
        event_before(a, c),
{
    lemma_text_order(a.date, b.date, c.date);
    lemma_text_order(a.time, b.time, c.time);
}

/// If `b` is not before `a` and `c` is not before `b`, then `c` is not
/// before `a`.
pub proof fn lemma_event_not_before_transitive(a: EventModel, b: EventModel, c: EventModel)
    requires
        !event_before(b, a),
        !event_before(c, b),
    ensures
        !event_before(c, a),
{
    lemma_text_order(c.date, a.date, b.date);
    lemma_text_order(b.date, c.date, a.date);
    lemma_text_order(c.date, b.date, a.date);
    lemma_text_order(a.date, b.date, c.date);
    lemma_text_order(c.time, a.time, b.time);
    lemma_text_order(b.time, c.time, a.time);
    lemma_text_order(c.time, b.time, a.time);
    lemma_text_order(a.time, b.time, c.time);
}

/// Placing an event into an agenda gives an agenda.
pub proof fn lemma_placed_ordered(events: Seq<EventModel>, e: EventModel)
    requires
        events_ordered(events),
    ensures
        events_ordered(placed(events, e)),
{
    let k = place_index(events, e);
    let out = placed(events, e);
    lemma_place_index(events, e);
    assert forall|i: int, j: int| 0 <= i < j < out.len() implies !event_before(
        #[trigger] out[j],
        #[trigger] out[i],
    ) by {
        if j == k {
            assert(out[i] == events[i]);
        } else if i == k {
            assert(out[j] == events[j - 1]);
            lemma_event_before_asymmetric(e, events[k]);
            if j - 1 > k {
                lemma_event_not_before_transitive(e, events[k], events[j - 1]);
            }
        } else {
            let a = if i < k { i } else { i - 1 };
            let b = if j < k { j } else { j - 1 };
            assert(out[i] == events[a]);
            assert(out[j] == events[b]);
        }
    }
}

/// The merged list is in agenda order: dates ascend, on one date the
/// all-day events stand first, and within each kind the times ascend.
pub proof fn lemma_sorted_ordered(events: Seq<EventModel>)
    ensures
        events_ordered(sorted_events(events)),
    decreases events.len(),
{
    if events.len() > 0 {
        lemma_sorted_ordered(events.drop_last());
        lemma_placed_ordered(sorted_events(events.drop_last()), events.last());
    }
}

/// What agenda order means for two events of an agenda, the first of
/// which stands earlier: the later one's date is not earlier; where the
/// dates are level, a timed event does not stand before an all-day one;
/// and where the kinds agree too, the later one's time is not earlier.
pub proof fn lemma_agenda_order(events: Seq<EventModel>, i: int, j: int)
    requires
        events_ordered(events),
        0 <= i < j < events.len(),
    ensures
        !text_before(events[j].date, events[i].date),
        text_level(events[i].date, events[j].date) ==> !(events[j].is_all_day
            && !events[i].is_all_day),
        text_level(events[i].date, events[j].date) && events[i].is_all_day
            == events[j].is_all_day ==> !text_before(events[j].time, events[i].time),
{
    assert(!event_before(events[j], events[i]));
}

/// The merged list holds the same events as the input, each as often.
pub proof fn lemma_sorted_permutes(events: Seq<EventModel>)
    ensures
        sorted_events(events).to_multiset() == events.to_multiset(),
        sorted_events(events).len() == events.len(),
    decreases events.len(),
{
    broadcast use vstd::seq_lib::group_to_multiset_ensures;

    if events.len() > 0 {
        let head = events.drop_last();
        let e = events.last();
        lemma_sorted_permutes(head);
        let before = sorted_events(head);
        let k = place_index(before, e);
        lemma_place_index(before, e);
        let out = before.insert(k, e);
        assert(out.remove(k) =~= before);
        assert(out[k] == e);
        assert(out.contains(e));
        assert(out.to_multiset() =~= before.to_multiset().insert(e));
        assert(events =~= head.push(e));
        assert(events.to_multiset() =~= head.to_multiset().insert(e));
    } else {
        assert(sorted_events(events) =~= events);
    }
}

/// Merges events into the agenda: by date, all-day events before timed
/// ones within a date, then by time; events that are level keep the order
/// they came in.
pub fn sort_events(events: &Vec<Event>) -> (sorted: Vec<Event>)
    ensures
        event_models(sorted@) == sorted_events(event_models(events@)),
        events_ordered(event_models(sorted@)),
        event_models(sorted@).to_multiset() == event_models(events@).to_multiset(),
        sorted.len() == events.len(),
{
    let ghost all = event_models(events@);
    let mut out: Vec<Event> = Vec::new();
    let mut i: usize = 0;
    assert(all.take(0) =~= Seq::empty());
    assert(event_models(out@) =~= Seq::empty());
    while i < events.len()
        invariant
            i <= events.len(),
            all == event_models(events@),
            event_models(out@) == sorted_events(all.take(i as int)),
        decreases events.len() - i,
    {
        let e = events[i].duplicate();
        let mut k: usize = 0;
        while k < out.len() && !event_precedes(&e, &out[k])
            invariant
                k <= out.len(),
                forall|m: int| 0 <= m < k ==> !event_before(e@, #[trigger] event_models(out@)[m]),
            decreases out.len() - k,
        {
            k = k + 1;
        }
        let ghost before = out@;
        proof {
            lemma_place_index_at(event_models(before), e@, k as int);
            assert(all.take(i as int + 1).drop_last() =~= all.take(i as int));
            assert(all.take(i as int + 1).last() == e@);
        }
        out.insert(k, e);
        assert(event_models(out@) =~= event_models(before).insert(k as int, e@));
        i = i + 1;
    }
    proof {
        assert(all.take(events.len() as int) =~= all);
        lemma_sorted_ordered(all);
        lemma_sorted_permutes(all);
    }
    out
}

/// Number of entries fetched for a calendar.
pub open spec fn entry_count(batch: CalendarEvents) -> nat {
    match batch.items {
        Some(items) => items@.len(),
        None => 0,
    }
}

/// The events of one calendar, given the normalized time of each entry.
pub open spec fn batch_events(batch: CalendarEvents, times: Seq<EventTime>) -> Seq<EventModel> {
    Seq::new(
        entry_count(batch),
        |k: int| event_of(batch.items->0@[k], batch.calendar, times[k]),
    )
}

/// The events of all calendars, calendar after calendar, before merging.
pub open spec fn fetched_events(batches: Seq<CalendarEvents>, times: Seq<Seq<EventTime>>) -> Seq<
    EventModel,
>
    decreases batches.len(),
{
    if batches.len() == 0 {
        Seq::empty()
    } else {
        fetched_events(batches.drop_last(), times.drop_last()) + batch_events(
            batches.last(),
            times.last(),
        )
    }
}

/// Whether `times` gives each entry of each calendar a normalized time.
pub open spec fn times_fit(batches: Seq<CalendarEvents>, times: Seq<Seq<EventTime>>) -> bool {
    &&& times.len() == batches.len()
    &&& forall|i: int|
        0 <= i < batches.len() ==> (#[trigger] times[i]).len() == entry_count(batches[i])
    &&& forall|i: int, k: int|
        0 <= i < batches.len() && 0 <= k < entry_count(batches[i]) ==> is_time_of(
            batches[i].items->0@[k],
            #[trigger] times[i][k],
        )
}

fn push_batch_events(out: &mut Vec<Event>, batch: &CalendarEvents) -> (times: Ghost<
    Seq<EventTime>,
>)
    ensures
        times@.len() == entry_count(*batch),
        forall|k: int|
            0 <= k < entry_count(*batch) ==> is_time_of(batch.items->0@[k], #[trigger] times@[k]),
        event_models(final(out)@) == event_models(old(out)@) + batch_events(*batch, times@),
{
    let ghost start = event_models(out@);
    let ghost mut times: Seq<EventTime> = Seq::empty();
    match &batch.items {
        Some(items) => {
            let mut j: usize = 0;
            assert(start + batch_events(*batch, times).take(0) =~= start);
            while j < items.len()
                invariant
                    j <= items.len(),
                    batch.items == Some(*items),
                    times.len() == j,
                    forall|k: int| 0 <= k < j ==> is_time_of(items@[k], #[trigger] times[k]),
                    forall|k: int|
                        0 <= k < j ==> (#[trigger] (event_models(out@)[start.len() + k]))
                            == event_of(items@[k], batch.calendar, times[k]),
                    event_models(out@).len() == start.len() + j,
                    event_models(out@).take(start.len() as int) == start,
                decreases items.len() - j,
            {
                let time = parse_event_time(&items[j]);
                let ghost before = out@;
                proof {
                    times = times.push(time);
                }
                out.push(event_from_entry(&items[j], &batch.calendar, time));
                proof {
                    assert(event_models(out@) =~= event_models(before).push(
                        event_of(items@[j as int], batch.calendar, time),
                    ));
                    assert(event_models(out@).take(start.len() as int) =~= event_models(
                        before,
                    ).take(start.len() as int));
                    assert forall|k: int| 0 <= k < j + 1 implies (#[trigger] (event_models(
                        out@,
                    )[start.len() + k])) == event_of(items@[k], batch.calendar, times[k]) by {
                        if k < j {
                            assert(event_models(out@)[start.len() + k] == event_models(
                                before,
                            )[start.len() + k]);
                        }
                    }
                }
                j = j + 1;
            }
            assert(event_models(out@) =~= start + batch_events(*batch, times)) by {
                assert(event_models(out@).take(start.len() as int) == start);
                assert forall|m: int| 0 <= m < event_models(out@).len() implies event_models(
                    out@,
                )[m] == (start + batch_events(*batch, times))[m] by {
                    if m < start.len() {
                        assert(event_models(out@).take(start.len() as int)[m] == event_models(
                            out@,
                        )[m]);
                    } else {
                        assert(event_models(out@)[start.len() + (m - start.len())] == event_of(
                            items@[m - start.len()],
                            batch.calendar,
                            times[m - start.len()],
                        ));
                    }
                }
            }
        },
        None => {
            assert(start + batch_events(*batch, times) =~= start);
        },
    }
    Ghost(times)
}

/// The agenda of the fetched calendars: every entry of every calendar
/// whose fetch gave items becomes an event, with its normalized time and
/// its calendar's name and colour, and the events are merged in agenda
/// order. A calendar whose fetch failed contributes nothing.
pub fn get_events(batches: &Vec<CalendarEvents>) -> (events: Vec<Event>)
    ensures
        exists|times: Seq<Seq<EventTime>>|
            times_fit(batches@, times) && event_models(events@) == sorted_events(
                #[trigger] fetched_events(batches@, times),
            ),
        events_ordered(event_models(events@)),
{
    let mut all: Vec<Event> = Vec::new();
    let ghost mut times: Seq<Seq<EventTime>> = Seq::empty();
    let mut i: usize = 0;
    assert(batches@.take(0) =~= Seq::empty());
    assert(event_models(all@) =~= Seq::empty());
    while i < batches.len()
        invariant
            i <= batches.len(),
            times_fit(batches@.take(i as int), times),
            event_models(all@) == fetched_events(batches@.take(i as int), times),
        decreases batches.len() - i,
    {
        let ghost before = times;
        let batch_times = push_batch_events(&mut all, &batches[i]);
        proof {
            times = before.push(batch_times@);
            assert(batches@.take(i as int + 1).drop_last() =~= batches@.take(i as int));
            assert(batches@.take(i as int + 1).last() == batches@[i as int]);
            assert(times.drop_last() =~= before);
            assert(times.last() == batch_times@);
            assert forall|m: int| 0 <= m < i + 1 implies (#[trigger] times[m]).len()
                == entry_count(batches@.take(i as int + 1)[m]) by {
                if m < i {
                    assert(times[m] == before[m]);
                    assert(batches@.take(i as int)[m] == batches@.take(i as int + 1)[m]);
                }
            }
            assert forall|m: int, k: int|
                0 <= m < i + 1 && 0 <= k < entry_count(
                    batches@.take(i as int + 1)[m],
                ) implies is_time_of(
                batches@.take(i as int + 1)[m].items->0@[k],
                #[trigger] times[m][k],
            ) by {
                if m < i {
                    assert(times[m] == before[m]);
                    assert(batches@.take(i as int)[m] == batches@.take(i as int + 1)[m]);
                    assert(is_time_of(batches@.take(i as int)[m].items->0@[k], before[m][k]));
                }
            }
        }
        i = i + 1;
    }
    assert(batches@.take(batches.len() as int) =~= batches@);
    let sorted = sort_events(&all);
    sorted
}

} // verus!
