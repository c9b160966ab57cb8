//! Events of calendar attachments, with their times resolved to instants.
//!
//! An instant is a number of milliseconds since 1970-01-01T00:00:00 UTC.
//! The calendar text is read by `icalendar`; a time with a zone name is
//! placed by `chrono-tz`.
use crate::model::{lemma_views_push, opt_view, views};
use vstd::prelude::*;

verus! {

/// The status of an event.
#[derive(Clone, Copy, Debug, PartialEq, Eq, Structural)]
pub enum CalendarEventStatus {
    /// Indicates event is tentative.
    Tentative,
    /// Indicates event is definite.
    Confirmed,
    /// Indicates event was cancelled.
    Cancelled,
}

/// A time as a calendar states it.
#[derive(Debug)]
pub enum CalendarTime {
    /// A date and time of day with no zone: the milliseconds from
    /// 1970-01-01T00:00:00 to it on one and the same clock.
    Floating { wall_clock_millis: i64 },
    /// An instant.
    Utc { millis: i64 },
    /// A date and time of day on the clocks of a named zone.
    Zoned { wall_clock_millis: i64, zone: String },
    /// A day without time of day: its number in the proleptic Gregorian
    /// calendar, where 1 is the first of January of the year 1.
    Date { day_number: i32 },
}

/// The content of a [`CalendarTime`].
pub enum CalendarTimeView {
    Floating { wall_clock_millis: i64 },
    Utc { millis: i64 },
    Zoned { wall_clock_millis: i64, zone: Seq<char> },
    Date { day_number: i32 },
}

impl View for CalendarTime {
    type V = CalendarTimeView;

    open spec fn view(&self) -> CalendarTimeView {
        match *self {
            CalendarTime::Floating { wall_clock_millis } => CalendarTimeView::Floating {
                wall_clock_millis,
            },
            CalendarTime::Utc { millis } => CalendarTimeView::Utc { millis },
            CalendarTime::Zoned { wall_clock_millis, zone } => CalendarTimeView::Zoned {
                wall_clock_millis,
                zone: zone@,
            },
            CalendarTime::Date { day_number } => CalendarTimeView::Date { day_number },
        }
    }
}

/// Where a time of day on the clocks of a zone falls.
#[derive(Clone, Copy, Debug, PartialEq, Eq, Structural)]
pub enum LocalTime {
    /// The zone is not known.
    UnknownZone,
    /// The clocks of the zone never showed that time.
    Missing,
    /// The clocks showed it once, at this instant.
    Single(i64),
    /// The clocks showed it twice, at these instants.
    Ambiguous(i64, i64),
}

/// An event as its calendar states it, field by field.
#[derive(Debug)]
pub struct RawEvent {
    pub uid: Option<String>,
    pub summary: Option<String>,
    pub status: Option<CalendarEventStatus>,
    pub url: Option<String>,
    pub google_conference_link: Option<String>,
    pub location: Option<String>,
    /// `DTSTAMP`, read as an instant.
    pub timestamp: Option<i64>,
    /// `LAST-MODIFIED`, read as an instant.
    pub last_modified: Option<i64>,
    /// `LAST-MODIFIED`, read as any time.
    pub last_modified_time: Option<CalendarTime>,
    /// `CREATED`, read as an instant.
    pub created: Option<i64>,
    pub start: Option<CalendarTime>,
    pub end: Option<CalendarTime>,
}

/// The content of a [`RawEvent`].
pub struct RawEventView {
    pub uid: Option<Seq<char>>,
    pub summary: Option<Seq<char>>,
    pub status: Option<CalendarEventStatus>,
    pub url: Option<Seq<char>>,
    pub google_conference_link: Option<Seq<char>>,
    pub location: Option<Seq<char>>,
    pub timestamp: Option<i64>,
    pub last_modified: Option<i64>,
    pub last_modified_time: Option<CalendarTimeView>,
    pub created: Option<i64>,
    pub start: Option<CalendarTimeView>,
    pub end: Option<CalendarTimeView>,
}

impl View for RawEvent {
    type V = RawEventView;

    open spec fn view(&self) -> RawEventView {
        RawEventView {
            uid: opt_view(self.uid),
            summary: opt_view(self.summary),
            status: self.status,
            url: opt_view(self.url),
            google_conference_link: opt_view(self.google_conference_link),
            location: opt_view(self.location),
            timestamp: self.timestamp,
            last_modified: self.last_modified,
            last_modified_time: opt_view(self.last_modified_time),
            created: self.created,
            start: opt_view(self.start),
            end: opt_view(self.end),
        }
    }
}

/// A normalised event. Each of its five times is an instant or absent.
#[derive(Debug)]
pub struct CalendarEvent {
    pub uid: Option<String>,
    pub summary: Option<String>,
    pub status: Option<CalendarEventStatus>,
    pub url: Option<String>,
    pub google_conference_link: Option<String>,
    pub location: Option<String>,
    pub timestamp: Option<i64>,
    pub last_modified: Option<i64>,
    pub created: Option<i64>,
    pub start: Option<i64>,
    pub end: Option<i64>,
}

/// The content of a [`CalendarEvent`].
pub struct CalendarEventView {
    pub uid: Option<Seq<char>>,
    pub summary: Option<Seq<char>>,
    pub status: Option<CalendarEventStatus>,
    pub url: Option<Seq<char>>,
    pub google_conference_link: Option<Seq<char>>,
    pub location: Option<Seq<char>>,
    pub timestamp: Option<i64>,
    pub last_modified: Option<i64>,
    pub created: Option<i64>,
    pub start: Option<i64>,
    pub end: Option<i64>,
}

impl View for CalendarEvent {
    type V = CalendarEventView;

    open spec fn view(&self) -> CalendarEventView {
        CalendarEventView {
            uid: opt_view(self.uid),
            summary: opt_view(self.summary),
            status: self.status,
            url: opt_view(self.url),
            google_conference_link: opt_view(self.google_conference_link),
            location: opt_view(self.location),
            timestamp: self.timestamp,
            last_modified: self.last_modified,
            created: self.created,
            start: self.start,
            end: self.end,
        }
    }
}

/// `icalendar::Calendar`, a parsed calendar. Nothing inside it is seen
/// here.
#[verifier::external_type_specification]
#[verifier::external_body]
pub struct ExCalendar(icalendar::Calendar);

/// `icalendar::CalendarComponent`, one component of a calendar.
#[verifier::external_type_specification]
#[verifier::external_body]
pub struct ExCalendarComponent(icalendar::CalendarComponent);

/// `icalendar::Event`, an event of a calendar.
#[verifier::external_type_specification]
#[verifier::external_body]
pub struct ExEvent(icalendar::Event);

/// `icalendar::DatePerhapsTime`, a time as a property states it.
#[verifier::external_type_specification]
#[verifier::external_body]
pub struct ExDatePerhapsTime(icalendar::DatePerhapsTime);

/// The calendar that a text states, where it states one.
pub uninterp spec fn calendar_document(text: Seq<char>) -> Option<icalendar::Calendar>;

/// The components of a calendar, in order; each is an event or something
/// else.
pub uninterp spec fn calendar_components(calendar: icalendar::Calendar) -> Seq<
    Option<icalendar::Event>,
>;

/// The `STATUS` of an event, where it is one of the three that are known.
pub uninterp spec fn event_status(event: icalendar::Event) -> Option<CalendarEventStatus>;

/// The `DTSTAMP` of an event, where it is an instant.
pub uninterp spec fn event_timestamp(event: icalendar::Event) -> Option<i64>;

/// The `LAST-MODIFIED` of an event, where it is an instant.
pub uninterp spec fn event_last_modified(event: icalendar::Event) -> Option<i64>;

/// The `CREATED` of an event, where it is an instant.
pub uninterp spec fn event_created(event: icalendar::Event) -> Option<i64>;

/// The value of the property of an event under a name.
pub uninterp spec fn event_property(event: icalendar::Event, name: Seq<char>) -> Option<Seq<char>>;

/// The property of an event under a name, read as a time.
pub uninterp spec fn event_property_time(event: icalendar::Event, name: Seq<char>) -> Option<
    icalendar::DatePerhapsTime,
>;

/// A time of a calendar in plain numbers.
pub uninterp spec fn calendar_time(time: icalendar::DatePerhapsTime) -> CalendarTimeView;

/// Where a time of day, given as milliseconds on the wall clock, falls on
/// the clocks of a zone.
pub uninterp spec fn local_time(zone: Seq<char>, wall_clock_millis: i64) -> LocalTime;

/// `str::parse` at the type `icalendar::Calendar`: the calendar that the
/// text states, `None` where the parser reports an error.
#[verifier::external_body]
fn read_calendar(text: &str) -> (r: Option<icalendar::Calendar>)
    ensures
        r == calendar_document(text@),
{
    text.parse::<icalendar::Calendar>().ok()
}

/// The events behind a list of optional references.
pub open spec fn event_options(items: Seq<Option<&icalendar::Event>>) -> Seq<Option<icalendar::Event>> {
    items.map_values(
        |x: Option<&icalendar::Event>|
            match x {
                Some(e) => Some(*e),
                None => None,
            },
    )
}

/// The field `components` of a calendar, with `CalendarComponent::as_event`
/// of each.
#[verifier::external_body]
fn components_of(calendar: &icalendar::Calendar) -> (r: Vec<Option<&icalendar::Event>>)
    ensures
        event_options(r@) == calendar_components(*calendar),
{
    calendar.components.iter().map(|c| c.as_event()).collect()
}

/// `Event::get_status`, with each status as the variant of the same name.
/// A status that is none of the three gives `None`.
#[verifier::external_body]
fn status_of(event: &icalendar::Event) -> (r: Option<CalendarEventStatus>)
    ensures
        r == event_status(*event),
{
    event.get_status().map(|s| match s {
        icalendar::EventStatus::Tentative => CalendarEventStatus::Tentative,
        icalendar::EventStatus::Confirmed => CalendarEventStatus::Confirmed,
        icalendar::EventStatus::Cancelled => CalendarEventStatus::Cancelled,
    })
}

/// `Component::property_value`, copied.
#[verifier::external_body]
fn property_of(event: &icalendar::Event, name: &str) -> (r: Option<String>)
    ensures
        opt_view(r) == event_property(*event, name@),
{
    icalendar::Component::property_value(event, name).map(|s| s.to_owned())
}

/// `Component::get_timestamp`, as the `timestamp_millis` of the instant.
#[verifier::external_body]
fn timestamp_of(event: &icalendar::Event) -> (r: Option<i64>)
    ensures
        r == event_timestamp(*event),
{
    icalendar::Component::get_timestamp(event).map(|t| t.timestamp_millis())
}

/// `Component::get_last_modified`, as the `timestamp_millis` of the
/// instant.
#[verifier::external_body]
fn last_modified_of(event: &icalendar::Event) -> (r: Option<i64>)
    ensures
        r == event_last_modified(*event),
{
    icalendar::Component::get_last_modified(event).map(|t| t.timestamp_millis())
}

/// `Component::get_created`, as the `timestamp_millis` of the instant.
#[verifier::external_body]
fn created_of(event: &icalendar::Event) -> (r: Option<i64>)
    ensures
        r == event_created(*event),
{
    icalendar::Component::get_created(event).map(|t| t.timestamp_millis())
}

/// `DatePerhapsTime::from_property` on the property that
/// `Component::properties` holds under a name.
#[verifier::external_body]
fn property_time_of(event: &icalendar::Event, name: &str) -> (r: Option<icalendar::DatePerhapsTime>)
    ensures
        r == event_property_time(*event, name@),
{
    icalendar::Component::properties(event).get(name).and_then(
        icalendar::DatePerhapsTime::from_property,
    )
}

/// Tells the four forms of a time apart and writes each in plain numbers:
/// a date and time of day as the `timestamp_millis` of the same reading in
/// UTC (`NaiveDateTime::and_utc`), an instant as its `timestamp_millis`, a
/// day as its `Datelike::num_days_from_ce`.
#[verifier::external_body]
fn plain_time(time: icalendar::DatePerhapsTime) -> (r: CalendarTime)
    ensures
        r@ == calendar_time(time),
{
    match time {
        icalendar::DatePerhapsTime::DateTime(icalendar::CalendarDateTime::Floating(t)) => {
            CalendarTime::Floating { wall_clock_millis: t.and_utc().timestamp_millis() }
        },
        icalendar::DatePerhapsTime::DateTime(icalendar::CalendarDateTime::Utc(t)) => {
            CalendarTime::Utc { millis: t.timestamp_millis() }
        },
        icalendar::DatePerhapsTime::DateTime(
            icalendar::CalendarDateTime::WithTimezone { date_time, tzid },
        ) => CalendarTime::Zoned { wall_clock_millis: date_time.and_utc().timestamp_millis(), zone: tzid },
        icalendar::DatePerhapsTime::Date(d) => CalendarTime::Date {
            day_number: chrono::Datelike::num_days_from_ce(&d),
        },
    }
}

/// `str::parse` at the type `chrono_tz::Tz` and
/// `TimeZone::from_local_datetime` of that zone, on the date and time that
/// `DateTime::from_timestamp_millis` makes of the wall-clock reading; each
/// instant found is given by its `timestamp_millis`. A reading that is out of
/// chrono's range counts as missing.
#[verifier::external_body]
fn place_in_zone(zone: &str, wall_clock_millis: i64) -> (r: LocalTime)
    ensures
        r == local_time(zone@, wall_clock_millis),
{
    let Ok(tz) = zone.parse::<chrono_tz::Tz>() else { return LocalTime::UnknownZone };
    let Some(reading) = chrono::DateTime::from_timestamp_millis(wall_clock_millis) else {
        return LocalTime::Missing
    };
    match chrono::TimeZone::from_local_datetime(&tz, &reading.naive_utc()) {
        chrono::LocalResult::None => LocalTime::Missing,
        chrono::LocalResult::Single(t) => LocalTime::Single(t.timestamp_millis()),
        chrono::LocalResult::Ambiguous(a, b) => LocalTime::Ambiguous(
            a.timestamp_millis(),
            b.timestamp_millis(),
        ),
    }
}

/// The number of the day 1970-01-01.
pub const EPOCH_DAY: i64 = 719_163;

/// The milliseconds of a day.
pub const DAY_MILLIS: i64 = 86_400_000;

/// The instant that a place on the clocks of a zone names: the one instant
/// at which the clocks showed it, and none where the zone is unknown or
/// the clocks showed it never or twice.
pub open spec fn single_instant(place: LocalTime) -> Option<i64> {
    match place {
        LocalTime::Single(t) => Some(t),
        _ => None,
    }
}

/// The instant of a time of a calendar.
///
/// A time without zone is read as UTC. An instant stands for itself. A
/// time on the clocks of a zone is the one instant at which those clocks
/// showed it. A day is its midnight in UTC.
pub open spec fn instant_of(time: CalendarTimeView) -> Option<i64> {
    match time {
        CalendarTimeView::Floating { wall_clock_millis } => Some(wall_clock_millis),
        CalendarTimeView::Utc { millis } => Some(millis),
        CalendarTimeView::Zoned { wall_clock_millis, zone } => single_instant(
            local_time(zone, wall_clock_millis),
        ),
        CalendarTimeView::Date { day_number } => Some(
            ((day_number - EPOCH_DAY) * DAY_MILLIS) as i64,
        ),
    }
}

/// The instant that a place on the clocks of a zone names.
pub fn instant_in_zone(place: LocalTime) -> (r: Option<i64>)
    ensures
        r == single_instant(place),
{
    match place {
        LocalTime::Single(t) => Some(t),
        _ => None,
    }
}

/// The instant of a time of a calendar.
pub fn get_timestamp(x: &CalendarTime) -> (r: Option<i64>)
    ensures
        r == instant_of(x@),
{
    match x {
        CalendarTime::Floating { wall_clock_millis } => Some(*wall_clock_millis),
        CalendarTime::Utc { millis } => Some(*millis),
        CalendarTime::Zoned { wall_clock_millis, zone } => instant_in_zone(
            place_in_zone(zone.as_str(), *wall_clock_millis),
        ),
        CalendarTime::Date { day_number } => {
            let days: i64 = *day_number as i64 - EPOCH_DAY;
            Some(days * DAY_MILLIS)
        },
    }
}

/// The instant of an optional time.
pub open spec fn optional_instant(time: Option<CalendarTimeView>) -> Option<i64> {
    match time {
        Some(t) => instant_of(t),
        None => None,
    }
}

/// The first of two optional values that is present.
pub open spec fn or_else(first: Option<i64>, second: Option<i64>) -> Option<i64> {
    match first {
        Some(_) => first,
        None => second,
    }
}

/// The normalised form of an event.
///
/// The time of the last change is `LAST-MODIFIED` read as an instant; only
/// where that gives nothing is the same property read as any time.
pub open spec fn normalized_event(raw: RawEventView) -> CalendarEventView {
    CalendarEventView {
        uid: raw.uid,
        summary: raw.summary,
        status: raw.status,
        url: raw.url,
        google_conference_link: raw.google_conference_link,
        location: raw.location,
        timestamp: raw.timestamp,
        last_modified: or_else(raw.last_modified, optional_instant(raw.last_modified_time)),
        created: raw.created,
        start: optional_instant(raw.start),
        end: optional_instant(raw.end),
    }
}

fn instant_of_optional(time: &Option<CalendarTime>) -> (r: Option<i64>)
    ensures
        r == optional_instant(opt_view(*time)),
{
    match time {
        Some(t) => get_timestamp(t),
        None => None,
    }
}

/// Normalises an event.
pub fn normalize_event(raw: RawEvent) -> (event: CalendarEvent)
    ensures
        event@ == normalized_event(raw@),
{
    let last_modified = match raw.last_modified {
        Some(t) => Some(t),
        None => instant_of_optional(&raw.last_modified_time),
    };
    let start = instant_of_optional(&raw.start);
    let end = instant_of_optional(&raw.end);
    CalendarEvent {
        uid: raw.uid,
        summary: raw.summary,
        status: raw.status,
        url: raw.url,
        google_conference_link: raw.google_conference_link,
        location: raw.location,
        timestamp: raw.timestamp,
        last_modified,
        created: raw.created,
        start,
        end,
    }
}

/// A time read off an event, in plain numbers.
pub open spec fn plain(time: Option<icalendar::DatePerhapsTime>) -> Option<CalendarTimeView> {
    match time {
        Some(t) => Some(calendar_time(t)),
        None => None,
    }
}

/// The fields of an event, each from the property of its name.
pub open spec fn raw_event(event: icalendar::Event) -> RawEventView {
    RawEventView {
        uid: event_property(event, "UID"@),
        summary: event_property(event, "SUMMARY"@),
        status: event_status(event),
        url: event_property(event, "URL"@),
        google_conference_link: event_property(event, "X-GOOGLE-CONFERENCE"@),
        location: event_property(event, "LOCATION"@),
        timestamp: event_timestamp(event),
        last_modified: event_last_modified(event),
        last_modified_time: plain(event_property_time(event, "LAST-MODIFIED"@)),
        created: event_created(event),
        start: plain(event_property_time(event, "DTSTART"@)),
        end: plain(event_property_time(event, "DTEND"@)),
    }
}

fn plain_optional(time: Option<icalendar::DatePerhapsTime>) -> (r: Option<CalendarTime>)
    ensures
        opt_view(r) == plain(time),
{
    match time {
        Some(t) => Some(plain_time(t)),
        None => None,
    }
}

/// Reads the fields of an event.
fn read_event(event: &icalendar::Event) -> (raw: RawEvent)
    ensures
        raw@ == raw_event(*event),
{
    RawEvent {
        uid: property_of(event, "UID"),
        summary: property_of(event, "SUMMARY"),
        status: status_of(event),
        url: property_of(event, "URL"),
        google_conference_link: property_of(event, "X-GOOGLE-CONFERENCE"),
        location: property_of(event, "LOCATION"),
        timestamp: timestamp_of(event),
        last_modified: last_modified_of(event),
        last_modified_time: plain_optional(property_time_of(event, "LAST-MODIFIED")),
        created: created_of(event),
        start: plain_optional(property_time_of(event, "DTSTART")),
        end: plain_optional(property_time_of(event, "DTEND")),
    }
}

/// The normalised form of a component of a calendar: of an event its
/// normalised form, of anything else nothing.
pub open spec fn component_event(component: Option<icalendar::Event>) -> Option<CalendarEventView> {
    match component {
        Some(e) => Some(normalized_event(raw_event(e))),
        None => None,
    }
}

/// Normalises a component of a calendar where it is an event.
pub fn parse_calendar_event(comp: Option<&icalendar::Event>) -> (r: Option<CalendarEvent>)
    ensures
        opt_view(r) == component_event(
            match comp {
                Some(e) => Some(*e),
                None => None,
            },
        ),
{
    match comp {
        Some(event) => Some(normalize_event(read_event(event))),
        None => None,
    }
}

/// The normalised events among the components, in order.
pub open spec fn component_events(components: Seq<Option<icalendar::Event>>) -> Seq<CalendarEventView>
    decreases components.len(),
{
    if components.len() == 0 {
        seq![]
    } else {
        let before = component_events(components.drop_last());
        match component_event(components.last()) {
            Some(e) => before.push(e),
            None => before,
        }
    }
}

/// The events of a calendar attachment: those of the calendar that the
/// text states, and `None` for a text that states none.
pub open spec fn events_of(text: Seq<char>) -> Option<Seq<CalendarEventView>> {
    match calendar_document(text) {
        Some(calendar) => Some(component_events(calendar_components(calendar))),
        None => None,
    }
}

/// Reads the events of a calendar attachment.
pub fn parse_events(body: &str) -> (r: Option<Vec<CalendarEvent>>)
    ensures
        match r {
            Some(events) => events_of(body@) == Some(views(events@)),
            None => events_of(body@) is None,
        },
{
    let calendar = match read_calendar(body) {
        Some(c) => c,
        None => {
            return None;
        },
    };
    let components = components_of(&calendar);
    let ghost all = event_options(components@);
    let mut events: Vec<CalendarEvent> = Vec::new();
    let mut i: usize = 0;
    assert(views(events@) =~= Seq::<CalendarEventView>::empty());
    while i < components.len()
        invariant
            i <= components.len(),
            all == event_options(components@),
            views(events@) == component_events(all.take(i as int)),
        decreases components.len() - i,
    {
        proof {
            assert(all.take(i + 1).drop_last() =~= all.take(i as int));
            assert(all.take(i + 1).last() == all[i as int]);
        }
        match parse_calendar_event(components[i]) {
            Some(e) => {
                proof {
                    lemma_views_push(events@, e);
                }
                events.push(e);
            },
            None => {},
        }
        i += 1;
    }
    assert(all.take(components.len() as int) == all);
    Some(events)
}

/// Where `LAST-MODIFIED` reads as an instant, that instant is the time of
/// the last change, whatever else the property could be read as.
pub proof fn lemma_last_modified_prefers_the_instant(raw: RawEventView)
    ensures
        raw.last_modified is Some ==> normalized_event(raw).last_modified == raw.last_modified,
        raw.last_modified is None ==> normalized_event(raw).last_modified == optional_instant(
            raw.last_modified_time,
        ),
{
}

/// A time without zone is the same reading in UTC, and a day is its
/// midnight in UTC.
pub proof fn lemma_floating_and_date(wall_clock_millis: i64, day_number: i32)
    ensures
        instant_of(CalendarTimeView::Floating { wall_clock_millis }) == Some(wall_clock_millis),
        instant_of(CalendarTimeView::Date { day_number }) == Some(
            ((day_number - 719_163) * 86_400_000) as i64,
        ),
        i64::MIN <= (day_number - 719_163) * 86_400_000 <= i64::MAX,
{
}

} // verus!
