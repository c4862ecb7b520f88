//! Corporate actions, from two sources: the calendar of splits and dividends, which
//! depends on the day alone, and the filings with the SEC, which are asked for symbol
//! by symbol.
//!
//! Splits and dividends are of medium severity, filings of form 8-K of high severity
//! and other filings of medium severity. The id of an event stays the same from poll
//! to poll: `split:{symbol}:{date}`, `div:{symbol}:{date}`, `sec:{symbol}:{link}`.

use std::sync::Arc;

use vstd::prelude::*;

use crate::clock;
use crate::clock::Date;
use crate::clock::Timestamp;
use crate::clock::DAY_SECONDS;
use crate::clock::EPOCH_DAY;
use crate::double::Double;
use crate::double::ZERO;
use crate::event;
use crate::event::EventKind;
use crate::event::EventView;
use crate::event::FmpClient;
use crate::event::KindView;
use crate::event::MarketEvent;
use crate::event::Severity;
use crate::event::SourceSchedule;
use crate::json::Json;
use crate::json::JsonNumber;
use crate::json::JsonView;
use crate::json::NumberView;
use crate::poll::PollView;
use crate::poll::SharedRegistry;
use crate::poll::SymbolPoll;
use crate::text;

verus! {

/// The moment at which the day starts.
pub open spec fn start_of(day: Date) -> Timestamp {
    Timestamp { secs: day.start() as i64, nanos: 0 }
}

/// The day that the member `date` of the row gives.
pub open spec fn day_of_row(row: JsonView) -> Option<Date> {
    match row.text_member("date"@) {
        Some(text) => clock::parsed_date(text, "%Y-%m-%d"@),
        None => None,
    }
}

/// The day that the member `date` of the row gives.
pub fn row_day(row: &Json) -> (day: Option<Date>)
    ensures
        day == day_of_row(row@),
        day matches Some(d) ==> d.valid(),
        forall|d: Date|
            d.valid() && row@.text_member("date"@) == Some(#[trigger] d.text()) ==> day == Some(d),
        (row@.text_member("date"@) matches Some(text) && text::digitless(text)) ==> day is None,
{
    match row.get_text("date") {
        Some(text) => clock::parse_date(text, "%Y-%m-%d"),
        None => None,
    }
}

/// The ratio of a split, where both of its numbers are there and the denominator is
/// above zero.
pub open spec fn ratio_of(numerator: Option<NumberView>, denominator: Option<NumberView>) -> Seq<
    char,
> {
    match (numerator, denominator) {
        (Some(n), Some(d)) => if (Double { bits: ZERO }).below(d.value) {
            n.shortest + "-for-"@ + d.shortest
        } else {
            Seq::empty()
        },
        _ => Seq::empty(),
    }
}

fn ratio(numerator: Option<&JsonNumber>, denominator: Option<&JsonNumber>) -> (text: String)
    ensures
        text@ == ratio_of(
            match numerator {
                Some(n) => Some(n@),
                None => None,
            },
            match denominator {
                Some(d) => Some(d@),
                None => None,
            },
        ),
{
    match (numerator, denominator) {
        (Some(n), Some(d)) => {
            let zero = Double { bits: ZERO };
            if zero.less_than(d.value) {
                text::concat3(n.shortest.as_str(), "-for-", d.shortest.as_str())
            } else {
                String::new()
            }
        },
        _ => String::new(),
    }
}

/// The event that a row of the split calendar gives, where `day` is the day of the row.
pub open spec fn split_of(row: JsonView, day: Option<Date>) -> Option<EventView> {
    match (row.text_member("symbol"@), row.text_member("date"@), day) {
        (Some(symbol), Some(date), Some(day)) => Some(
            EventView {
                id: "split:"@ + symbol + ":"@ + date,
                kind: KindView::Split,
                severity: Severity::Medium,
                symbols: seq![symbol],
                occurred_at: start_of(day),
                title: symbol + " stock split on "@ + date,
                summary: ratio_of(
                    row.number_member("numerator"@),
                    row.number_member("denominator"@),
                ),
                url: None,
                source: "fmp.stock_split_calendar"@,
                payload: row,
            },
        ),
        _ => None,
    }
}

/// What an optional event says.
pub open spec fn event_view(event: Option<MarketEvent>) -> Option<EventView> {
    match event {
        Some(e) => Some(e@),
        None => None,
    }
}

/// The event that a row of the split calendar gives, where `day` is the day of the row.
pub fn split_event(row: &Json, day: Option<Date>) -> (event: Option<MarketEvent>)
    requires
        day matches Some(d) ==> d.valid(),
    ensures
        event_view(event) == split_of(row@, day),
{
    let (symbol, date, day) = match (row.get_text("symbol"), row.get_text("date"), day) {
        (Some(symbol), Some(date), Some(day)) => (symbol, date, day),
        _ => {
            return None;
        },
    };
    let event = MarketEvent {
        id: text::concat4("split:", symbol, ":", date),
        kind: EventKind::Split,
        severity: Severity::Medium,
        symbols: vec![symbol.to_owned()],
        occurred_at: clock::midnight(day),
        title: text::concat3(symbol, " stock split on ", date),
        summary: ratio(row.get_number("numerator"), row.get_number("denominator")),
        url: None,
        source: "fmp.stock_split_calendar".to_owned(),
        payload: row.duplicate(),
    };
    assert(event@.symbols =~= seq![symbol@]);
    Some(event)
}

/// The events of a split calendar.
pub open spec fn splits_of(document: JsonView) -> Seq<EventView> {
    match document.elements() {
        Some(rows) => event::kept(rows.len(), |i: int| split_of(rows[i], day_of_row(rows[i]))),
        None => Seq::empty(),
    }
}

/// The events of a split calendar, one for each row that has a symbol and a day, in
/// the order of the rows; none if the document is no array.
pub fn events_from_splits(document: &Json) -> (events: Vec<MarketEvent>)
    ensures
        event::events_of(events@) == splits_of(document@),
{
    let mut events: Vec<MarketEvent> = Vec::new();
    let rows = match document.as_array() {
        Some(rows) => rows,
        None => {
            return events;
        },
    };
    let ghost views = document@->Array_0;
    let ghost found = |i: int| split_of(views[i], day_of_row(views[i]));
    let mut i: usize = 0;
    while i < rows.len()
        invariant
            i <= rows@.len() == views.len(),
            forall|j: int| 0 <= j < rows@.len() ==> views[j] == (#[trigger] rows@[j])@,
            found == (|i: int| split_of(views[i], day_of_row(views[i]))),
            event::events_of(events@) == event::kept(i as nat, found),
        decreases rows@.len() - i,
    {
        let row = &rows[i];
        match split_event(row, row_day(row)) {
            Some(event) => {
                let ghost before = events@;
                events.push(event);
                assert(event::events_of(events@) =~= event::events_of(before).push(event@));
            },
            None => {},
        }
        i = i + 1;
    }
    events
}

/// The event that a row of the dividend calendar gives, where `day` is the day of the
/// row.
pub open spec fn dividend_of(row: JsonView, day: Option<Date>) -> Option<EventView> {
    match (row.text_member("symbol"@), row.text_member("date"@), day) {
        (Some(symbol), Some(date), Some(day)) => Some(
            EventView {
                id: "div:"@ + symbol + ":"@ + date,
                kind: KindView::Dividend,
                severity: Severity::Medium,
                symbols: seq![symbol],
                occurred_at: start_of(day),
                title: symbol + " dividend ex-date "@ + date,
                summary: match row.number_member("dividend"@) {
                    Some(n) => "股息 "@ + n.four_places,
                    None => Seq::empty(),
                },
                url: None,
                source: "fmp.stock_dividend_calendar"@,
                payload: row,
            },
        ),
        _ => None,
    }
}

/// The event that a row of the dividend calendar gives, where `day` is the day of the
/// row.
pub fn dividend_event(row: &Json, day: Option<Date>) -> (event: Option<MarketEvent>)
    requires
        day matches Some(d) ==> d.valid(),
    ensures
        event_view(event) == dividend_of(row@, day),
{
    let (symbol, date, day) = match (row.get_text("symbol"), row.get_text("date"), day) {
        (Some(symbol), Some(date), Some(day)) => (symbol, date, day),
        _ => {
            return None;
        },
    };
    let summary = match row.get_number("dividend") {
        Some(n) => text::concat2("股息 ", n.four_places.as_str()),
        None => String::new(),
    };
    let event = MarketEvent {
        id: text::concat4("div:", symbol, ":", date),
        kind: EventKind::Dividend,
        severity: Severity::Medium,
        symbols: vec![symbol.to_owned()],
        occurred_at: clock::midnight(day),
        title: text::concat3(symbol, " dividend ex-date ", date),
        summary,
        url: None,
        source: "fmp.stock_dividend_calendar".to_owned(),
        payload: row.duplicate(),
    };
    assert(event@.symbols =~= seq![symbol@]);
    Some(event)
}

/// The events of a dividend calendar.
pub open spec fn dividends_of(document: JsonView) -> Seq<EventView> {
    match document.elements() {
        Some(rows) => event::kept(
            rows.len(),
            |i: int| dividend_of(rows[i], day_of_row(rows[i])),
        ),
        None => Seq::empty(),
    }
}

/// The events of a dividend calendar, one for each row that has a symbol and a day, in
/// the order of the rows; none if the document is no array.
pub fn events_from_dividends(document: &Json) -> (events: Vec<MarketEvent>)
    ensures
        event::events_of(events@) == dividends_of(document@),
{
    let mut events: Vec<MarketEvent> = Vec::new();
    let rows = match document.as_array() {
        Some(rows) => rows,
        None => {
            return events;
        },
    };
    let ghost views = document@->Array_0;
    let ghost found = |i: int| dividend_of(views[i], day_of_row(views[i]));
    let mut i: usize = 0;
    while i < rows.len()
        invariant
            i <= rows@.len() == views.len(),
            forall|j: int| 0 <= j < rows@.len() ==> views[j] == (#[trigger] rows@[j])@,
            found == (|i: int| dividend_of(views[i], day_of_row(views[i]))),
            event::events_of(events@) == event::kept(i as nat, found),
        decreases rows@.len() - i,
    {
        let row = &rows[i];
        match dividend_event(row, row_day(row)) {
            Some(event) => {
                let ghost before = events@;
                events.push(event);
                assert(event::events_of(events@) =~= event::events_of(before).push(event@));
            },
            None => {},
        }
        i = i + 1;
    }
    events
}

/// A moment where there is one, else the start of a day where there is one.
pub open spec fn moment_or_day(moment: Option<Timestamp>, day: Option<Date>) -> Option<Timestamp> {
    match (moment, day) {
        (Some(moment), _) => Some(moment),
        (None, Some(day)) => Some(start_of(day)),
        (None, None) => None,
    }
}

/// The moment that the text gives with its time of day, or else by its day alone.
pub open spec fn fmp_datetime(text: Seq<char>) -> Option<Timestamp> {
    moment_or_day(
        clock::parsed_moment(text, "%Y-%m-%d %H:%M:%S"@),
        clock::parsed_date(text, "%Y-%m-%d"@),
    )
}

/// A moment where there is one, else the start of a day where there is one.
pub fn choose_moment(moment: Option<Timestamp>, day: Option<Date>) -> (chosen: Option<Timestamp>)
    requires
        day matches Some(d) ==> d.valid(),
    ensures
        chosen == moment_or_day(moment, day),
{
    match (moment, day) {
        (Some(moment), _) => Some(moment),
        (None, Some(day)) => Some(clock::midnight(day)),
        (None, None) => None,
    }
}

/// The moment that the text gives with its time of day, or else by its day alone.
pub fn parse_fmp_datetime(s: &str) -> (moment: Option<Timestamp>)
    ensures
        moment == fmp_datetime(s@),
        forall|d: Date, hour: nat, minute: nat, second: nat|
            d.valid() && hour < 24 && minute < 60 && second < 60 && s@ == #[trigger] d.text()
                + seq![' '] + #[trigger] clock::time_text(hour, minute, second) ==> moment == Some(
                Timestamp {
                    secs: (d.start() + 3600 * hour + 60 * minute + second) as i64,
                    nanos: 0,
                },
            ),
        forall|d: Date|
            d.valid() && s@ == #[trigger] d.text() ==> moment == Some(start_of(d)),
        text::digitless(s@) ==> moment is None,
{
    choose_moment(
        clock::parse_moment(s, "%Y-%m-%d %H:%M:%S"),
        clock::parse_date(s, "%Y-%m-%d"),
    )
}

/// `text`, or `otherwise` if there is none.
pub open spec fn text_or(text: Option<Seq<char>>, otherwise: Seq<char>) -> Seq<char> {
    match text {
        Some(s) => s,
        None => otherwise,
    }
}

/// `text`, or `otherwise` if there is none.
fn text_or_else<'a>(text: Option<&'a str>, otherwise: &'a str) -> (chosen: &'a str)
    ensures
        chosen@ == text_or(
            match text {
                Some(s) => Some(s@),
                None => None,
            },
            otherwise@,
        ),
{
    match text {
        Some(s) => s,
        None => otherwise,
    }
}

/// The link of a filing: its final link, or else its link.
pub open spec fn filing_link(row: JsonView) -> Seq<char> {
    text_or(row.text_member("finalLink"@), text_or(row.text_member("link"@), ""@))
}

/// The day of a filing as the row has it.
pub open spec fn filing_date(row: JsonView) -> Seq<char> {
    text_or(row.text_member("fillingDate"@), ""@)
}

/// When a filing was accepted as the row has it, or else its day.
pub open spec fn accepted_date(row: JsonView) -> Seq<char> {
    text_or(row.text_member("acceptedDate"@), filing_date(row))
}

/// When a filing was accepted, or `now` if the row does not tell.
pub open spec fn filing_time(row: JsonView, now: Timestamp) -> Timestamp {
    match fmp_datetime(accepted_date(row)) {
        Some(moment) => moment,
        None => now,
    }
}

/// The event that a row of the filings of `ticker` gives, where the filing was accepted
/// at `occurred_at`.
pub open spec fn filing_of(row: JsonView, ticker: Seq<char>, occurred_at: Timestamp) -> Option<
    EventView,
> {
    let form = text_or(row.text_member("type"@), ""@);
    let link = filing_link(row);
    if link.len() == 0 {
        None
    } else {
        Some(
            EventView {
                id: "sec:"@ + ticker + ":"@ + link,
                kind: KindView::SecFiling { form },
                severity: if form == "8-K"@ {
                    Severity::High
                } else {
                    Severity::Medium
                },
                symbols: seq![ticker],
                occurred_at,
                title: ticker + " filed "@ + form,
                summary: filing_date(row),
                url: Some(link),
                source: "fmp.sec_filings"@,
                payload: row,
            },
        )
    }
}

/// The event that a row of the filings of `ticker` gives, where the filing was accepted
/// at `occurred_at`; none if the row has no link.
pub fn filing_event(row: &Json, ticker: &str, occurred_at: Timestamp) -> (event: Option<
    MarketEvent,
>)
    ensures
        event_view(event) == filing_of(row@, ticker@, occurred_at),
{
    proof {
        reveal_strlit("");
    }
    let form = text_or_else(row.get_text("type"), "");
    let link = text_or_else(row.get_text("finalLink"), text_or_else(row.get_text("link"), ""));
    if link.is_empty() {
        return None;
    }
    let filed = text_or_else(row.get_text("fillingDate"), "");
    let severity = if text::same_text(form, "8-K") {
        Severity::High
    } else {
        Severity::Medium
    };
    let event = MarketEvent {
        id: text::concat4("sec:", ticker, ":", link),
        kind: EventKind::SecFiling { form: form.to_owned() },
        severity,
        symbols: vec![ticker.to_owned()],
        occurred_at,
        title: text::concat3(ticker, " filed ", form),
        summary: filed.to_owned(),
        url: Some(link.to_owned()),
        source: "fmp.sec_filings".to_owned(),
        payload: row.duplicate(),
    };
    assert(event@.symbols =~= seq![ticker@]);
    Some(event)
}

/// When the row tells that its filing was accepted, by a moment or by a day.
pub fn accepted_at(row: &Json) -> (moment: Option<Timestamp>)
    ensures
        moment == fmp_datetime(accepted_date(row@)),
        forall|d: Date, hour: nat, minute: nat, second: nat|
            d.valid() && hour < 24 && minute < 60 && second < 60 && accepted_date(row@)
                == #[trigger] d.text() + seq![' '] + #[trigger] clock::time_text(
                hour,
                minute,
                second,
            ) ==> moment == Some(
                Timestamp {
                    secs: (d.start() + 3600 * hour + 60 * minute + second) as i64,
                    nanos: 0,
                },
            ),
        forall|d: Date|
            d.valid() && accepted_date(row@) == #[trigger] d.text() ==> moment == Some(
                start_of(d),
            ),
        text::digitless(accepted_date(row@)) ==> moment is None,
{
    parse_fmp_datetime(
        text_or_else(
            row.get_text("acceptedDate"),
            text_or_else(row.get_text("fillingDate"), ""),
        ),
    )
}

/// Whether it takes the clock to say when the filing of the row occurred: whether the row
/// gives an event and does not tell when the filing was accepted.
pub open spec fn needs_clock(row: JsonView) -> bool {
    filing_link(row).len() > 0 && fmp_datetime(accepted_date(row)) is None
}

/// Whether it takes the clock to say when the filing of the row occurred.
fn asks_for_clock(row: &Json) -> (yes: bool)
    ensures
        yes == needs_clock(row@),
{
    proof {
        reveal_strlit("");
    }
    let link = text_or_else(row.get_text("finalLink"), text_or_else(row.get_text("link"), ""));
    !link.is_empty() && accepted_at(row).is_none()
}

/// The event that a row of the filings of `ticker` gives if the clock shows `now`; none if
/// the row has no link. A filing of which the row does not tell when it was accepted occurs
/// now.
pub fn filing_event_at(row: &Json, ticker: &str, now: Timestamp) -> (event: Option<MarketEvent>)
    ensures
        event_view(event) == filing_of(row@, ticker@, filing_time(row@, now)),
        forall|d: Date, hour: nat, minute: nat, second: nat|
            d.valid() && hour < 24 && minute < 60 && second < 60 && accepted_date(row@)
                == #[trigger] d.text() + seq![' '] + #[trigger] clock::time_text(
                hour,
                minute,
                second,
            ) ==> event_view(event) == filing_of(
                row@,
                ticker@,
                Timestamp {
                    secs: (d.start() + 3600 * hour + 60 * minute + second) as i64,
                    nanos: 0,
                },
            ),
        forall|d: Date|
            d.valid() && accepted_date(row@) == #[trigger] d.text() ==> event_view(event)
                == filing_of(row@, ticker@, start_of(d)),
        text::digitless(accepted_date(row@)) ==> event_view(event) == filing_of(row@, ticker@, now),
{
    let occurred_at = match accepted_at(row) {
        Some(moment) => moment,
        None => now,
    };
    filing_event(row, ticker, occurred_at)
}

/// The events of the filings of `ticker`, where `readings` holds what the clock shows
/// at each row.
pub open spec fn filings_of(
    document: JsonView,
    ticker: Seq<char>,
    readings: Seq<Timestamp>,
) -> Seq<EventView> {
    match document.elements() {
        Some(rows) => event::kept(
            rows.len(),
            |i: int| filing_of(rows[i], ticker, filing_time(rows[i], readings[i])),
        ),
        None => Seq::empty(),
    }
}

/// Whether `readings` holds what a clock can show at each row of the document.
pub open spec fn readings_for(document: JsonView, readings: Seq<Timestamp>) -> bool {
    &&& document.elements() matches Some(rows) ==> readings.len() == rows.len()
    &&& forall|i: int|
        0 <= i < readings.len() ==> (#[trigger] readings[i]).regular() && readings[i].secs >= 0
}

/// The events of the filings of `ticker`, one for each row that has a link, in the
/// order of the rows; none if the document is no array. A filing of which the row does
/// not tell when it was accepted occurred at the moment of the call.
pub fn events_from_sec_filings(document: &Json, ticker: &str) -> (events: Vec<MarketEvent>)
    ensures
        exists|readings: Seq<Timestamp>| #[trigger]
            readings_for(document@, readings) && event::events_of(events@) == filings_of(
                document@,
                ticker@,
                readings,
            ),
{
    let mut events: Vec<MarketEvent> = Vec::new();
    let rows = match document.as_array() {
        Some(rows) => rows,
        None => {
            assert(readings_for(document@, Seq::empty()));
            return events;
        },
    };
    let ghost views = document@->Array_0;
    let ghost mut readings: Seq<Timestamp> = Seq::empty();
    let mut i: usize = 0;
    while i < rows.len()
        invariant
            i <= rows@.len() == views.len(),
            forall|j: int| 0 <= j < rows@.len() ==> views[j] == (#[trigger] rows@[j])@,
            readings.len() == i,
            forall|j: int|
                0 <= j < i ==> (#[trigger] readings[j]).regular() && readings[j].secs >= 0,
            event::events_of(events@) == event::kept(
                i as nat,
                |j: int| filing_of(views[j], ticker@, filing_time(views[j], readings[j])),
            ),
        decreases rows@.len() - i,
    {
        let row = &rows[i];
        // The clock is read only for a row that needs it; for others any moment will do.
        let now = if asks_for_clock(row) {
            clock::utc_now()
        } else {
            Timestamp { secs: 0, nanos: 0 }
        };
        let ghost before = readings;
        proof {
            readings = readings.push(now);
            event::lemma_kept_of_same(
                i as nat,
                |j: int| filing_of(views[j], ticker@, filing_time(views[j], before[j])),
                |j: int| filing_of(views[j], ticker@, filing_time(views[j], readings[j])),
            );
        }
        match filing_event_at(row, ticker, now) {
            Some(event) => {
                let ghost earlier = events@;
                events.push(event);
                assert(event::events_of(events@) =~= event::events_of(earlier).push(event@));
            },
            None => {},
        }
        i = i + 1;
    }
    assert(readings_for(document@, readings));
    events
}

// ---------------------------------------------------------------------------
// The calendar of splits and dividends
// ---------------------------------------------------------------------------
/// Polls the calendar of splits and dividends from today on.
#[derive(Debug)]
pub struct CorpActionCalendarPoller {
    pub client: FmpClient,
    pub window_days: i64,
    pub schedule: SourceSchedule,
}

/// What the poller asks for.
#[derive(Debug)]
pub struct CalendarPaths {
    pub splits: String,
    pub dividends: String,
}

impl CalendarPaths {
    /// Whether the paths ask for the splits and dividends of the days from `from` to `to`.
    pub open spec fn ask_for(self, from: Date, to: Date) -> bool {
        &&& self.splits@ == "/stable/stock_split_calendar?from="@ + from.text() + "&to="@
            + to.text()
        &&& self.dividends@ == "/stable/stock_dividend_calendar?from="@ + from.text() + "&to="@
            + to.text()
    }

    /// Whether the paths ask for the days from the one with the number to the one that
    /// lies `days` later.
    pub open spec fn ask_ahead(self, number: int, days: int) -> bool {
        exists|from: Date, to: Date| #[trigger]
            self.ask_for(from, to) && from.valid() && from.number() == number && to.valid()
                && to.number() == number + days
    }
}

/// The events of the two calendars; a calendar that could not be had has none.
pub open spec fn calendar_of(splits: Option<JsonView>, dividends: Option<JsonView>) -> Seq<
    EventView,
> {
    (match splits {
        Some(document) => splits_of(document),
        None => Seq::empty(),
    }) + (match dividends {
        Some(document) => dividends_of(document),
        None => Seq::empty(),
    })
}

/// What an optional document says.
pub open spec fn document_view(document: Option<&Json>) -> Option<JsonView> {
    match document {
        Some(d) => Some(d@),
        None => None,
    }
}

impl CorpActionCalendarPoller {
    /// A poller that looks thirty days ahead.
    pub fn new(client: FmpClient, schedule: SourceSchedule) -> (poller: Self)
        ensures
            poller == (CorpActionCalendarPoller { client, window_days: 30, schedule }),
    {
        CorpActionCalendarPoller { client, window_days: 30, schedule }
    }

    /// The poller, but looking so many days ahead.
    pub fn with_window_days(self, days: i64) -> (poller: Self)
        ensures
            poller == (CorpActionCalendarPoller {
                client: self.client,
                window_days: days,
                schedule: self.schedule,
            }),
    {
        CorpActionCalendarPoller { client: self.client, window_days: days, schedule: self.schedule }
    }

    /// The name of the source.
    pub fn name(&self) -> (name: &str)
        ensures
            name@ == "fmp.corp_action"@,
    {
        "fmp.corp_action"
    }

    /// How often the poller runs.
    pub fn schedule(&self) -> (schedule: SourceSchedule)
        ensures
            schedule == self.schedule,
    {
        self.schedule
    }

    /// Whether `paths` is what the poller asks for on the day with the number: the days from
    /// that one to the one that lies the window later, or nothing if the calendar ends
    /// within the window.
    pub open spec fn asks(self, paths: Option<CalendarPaths>, number: int) -> bool {
        match paths {
            Some(p) => p.ask_ahead(number, self.window_days as int),
            None => !clock::day_fits(number, self.window_days as int),
        }
    }

    /// What the poller asks for on the day `today`: the days from `today` to the one that
    /// lies the window later.
    pub fn paths_on(&self, today: Date) -> (paths: CalendarPaths)
        requires
            today.valid(),
            clock::day_fits(today.number(), self.window_days as int),
        ensures
            paths.ask_ahead(today.number(), self.window_days as int),
    {
        let to = clock::days_after(today, self.window_days);
        let from_text = clock::format_date(today, "%Y-%m-%d");
        let to_text = clock::format_date(to, "%Y-%m-%d");
        let paths = CalendarPaths {
            splits: text::concat4(
                "/stable/stock_split_calendar?from=",
                from_text.as_str(),
                "&to=",
                to_text.as_str(),
            ),
            dividends: text::concat4(
                "/stable/stock_dividend_calendar?from=",
                from_text.as_str(),
                "&to=",
                to_text.as_str(),
            ),
        };
        assert(paths.ask_for(today, to));
        paths
    }

    /// What the poller asks for at the moment `now`; nothing if the calendar ends within
    /// the window.
    pub fn paths_at(&self, now: Timestamp) -> (paths: Option<CalendarPaths>)
        requires
            now.regular(),
            now.secs >= 0,
        ensures
            self.asks(paths, now.secs as int / DAY_SECONDS as int + EPOCH_DAY),
    {
        let number: i64 = (now.secs as u64 / DAY_SECONDS as u64) as i64 + EPOCH_DAY;
        assert(number == now.secs as int / DAY_SECONDS as int + EPOCH_DAY);
        if clock::can_reach(number, self.window_days) {
            Some(self.paths_on(clock::date_of(now)))
        } else {
            None
        }
    }

    /// What the poller asks for at the moment of the call; nothing if the calendar ends
    /// within the window.
    pub fn poll_paths(&self) -> (paths: Option<CalendarPaths>)
        ensures
            exists|now: Timestamp| #[trigger]
                now.regular() && now.secs >= 0 && self.asks(
                    paths,
                    now.secs as int / DAY_SECONDS as int + EPOCH_DAY,
                ),
    {
        let now = clock::utc_now();
        self.paths_at(now)
    }

    /// The events of the two calendars, splits first; a calendar that could not be had
    /// has none.
    pub fn poll_events(splits: Option<&Json>, dividends: Option<&Json>) -> (events: Vec<
        MarketEvent,
    >)
        ensures
            event::events_of(events@) == calendar_of(
                document_view(splits),
                document_view(dividends),
            ),
    {
        let mut events = match splits {
            Some(document) => events_from_splits(document),
            None => Vec::new(),
        };
        let mut more = match dividends {
            Some(document) => events_from_dividends(document),
            None => Vec::new(),
        };
        let ghost first = events@;
        let ghost second = more@;
        events.append(&mut more);
        assert(event::events_of(events@) =~= event::events_of(first) + event::events_of(second));
        events
    }
}

// ---------------------------------------------------------------------------
// Filings with the SEC
// ---------------------------------------------------------------------------
/// Polls the filings of form 8-K of the watched symbols.
#[derive(Debug)]
pub struct SecFilingsPoller {
    pub client: FmpClient,
    pub sec_recent_hours: i64,
    pub registry: Arc<SharedRegistry>,
    pub schedule: SourceSchedule,
}

/// Whether the event occurred at `cutoff` or later.
pub open spec fn since(cutoff: Timestamp) -> spec_fn(EventView) -> bool {
    |e: EventView| !e.occurred_at.precedes(cutoff)
}

/// The events that occurred at `cutoff` or later, in their order.
pub fn keep_since(events: Vec<MarketEvent>, cutoff: Timestamp) -> (recent: Vec<MarketEvent>)
    ensures
        event::events_of(recent@) == event::events_of(events@).filter(since(cutoff)),
{
    let mut recent: Vec<MarketEvent> = Vec::new();
    let ghost all = events@;
    let ghost views = event::events_of(all);
    assert(views.take(0) =~= Seq::empty());
    for e in iter: events.into_iter()
        invariant
            iter.seq() == all,
            views == event::events_of(all),
            event::events_of(recent@) == views.take(iter.index()).filter(since(cutoff)),
    {
        let ghost at = iter.index();
        reveal(Seq::filter);
        assert(views.take(at + 1).drop_last() =~= views.take(at));
        assert(views.take(at + 1).last() == e@);
        if !e.occurred_at.is_before(cutoff) {
            let ghost before = recent@;
            recent.push(e);
            assert(event::events_of(recent@) =~= event::events_of(before).push(e@));
        }
    }
    assert(views.take(views.len() as int) =~= views);
    recent
}

impl SecFilingsPoller {
    /// A poller that keeps the filings of the last 48 hours.
    pub fn new(client: FmpClient, registry: Arc<SharedRegistry>, schedule: SourceSchedule) -> (poller:
        Self)
        ensures
            poller == (SecFilingsPoller { client, sec_recent_hours: 48, registry, schedule }),
    {
        SecFilingsPoller { client, sec_recent_hours: 48, registry, schedule }
    }

    /// The poller, but keeping the filings of the last so many hours.
    ///
    /// The window only spares a first run the filings of long ago: that no event is
    /// delivered twice rests on the ids.
    pub fn with_sec_recent_hours(self, hours: i64) -> (poller: Self)
        ensures
            poller == (SecFilingsPoller {
                client: self.client,
                sec_recent_hours: hours,
                registry: self.registry,
                schedule: self.schedule,
            }),
    {
        SecFilingsPoller {
            client: self.client,
            sec_recent_hours: hours,
            registry: self.registry,
            schedule: self.schedule,
        }
    }

    /// The name of the source.
    pub fn name(&self) -> (name: &str)
        ensures
            name@ == "fmp.sec_filings"@,
    {
        "fmp.sec_filings"
    }

    /// How often the poller runs.
    pub fn schedule(&self) -> (schedule: SourceSchedule)
        ensures
            schedule == self.schedule,
    {
        self.schedule
    }

    /// What the poller asks for of `ticker`.
    pub fn fetch_path(&self, ticker: &str) -> (path: String)
        ensures
            path@ == "/stable/sec_filings/"@ + ticker@ + "?type=8-K&page=0"@,
    {
        text::concat3("/stable/sec_filings/", ticker, "?type=8-K&page=0")
    }

    /// The earliest moment that is recent at `now`; none if chrono cannot represent it.
    pub fn cutoff(&self, now: Timestamp) -> (cutoff: Option<Timestamp>)
        requires
            now.regular(),
        ensures
            cutoff is Some <==> clock::representable(now.secs - self.sec_recent_hours * 3600),
            cutoff matches Some(t) ==> t.regular() && t.secs == now.secs - self.sec_recent_hours
                * 3600 && t.nanos == now.nanos,
    {
        clock::checked_before(now, self.sec_recent_hours, 3600)
    }

    /// The filings of `ticker` that the reply to its request holds and that are recent at
    /// `now`: those that occurred at the start of the window or later. None at all if chrono
    /// cannot represent the start of the window.
    pub fn fetch_at(&self, reply: &Json, ticker: &str, now: Timestamp) -> (events: Option<
        Vec<MarketEvent>,
    >)
        requires
            now.regular(),
        ensures
            exists|readings: Seq<Timestamp>| #[trigger]
                readings_for(reply@, readings) && ({
                    let start = now.secs - self.sec_recent_hours * 3600;
                    match events {
                        Some(events) => clock::representable(start) && event::events_of(events@)
                            == filings_of(reply@, ticker@, readings).filter(
                            since(Timestamp { secs: start as i64, nanos: now.nanos }),
                        ),
                        None => !clock::representable(start),
                    }
                }),
    {
        let cutoff = match self.cutoff(now) {
            Some(cutoff) => cutoff,
            None => {
                let ghost count = match reply@.elements() {
                    Some(rows) => rows.len(),
                    None => 0,
                };
                let ghost readings = Seq::new(count, |i: int| Timestamp { secs: 0, nanos: 0 });
                assert(readings_for(reply@, readings));
                return None;
            },
        };
        let all = events_from_sec_filings(reply, ticker);
        Some(keep_since(all, cutoff))
    }

    /// The recent filings of `ticker` that the reply to its request holds; none at all if
    /// chrono cannot represent the start of the window.
    pub fn fetch(&self, reply: &Json, ticker: &str) -> (events: Option<Vec<MarketEvent>>)
        ensures
            exists|now: Timestamp, readings: Seq<Timestamp>| #[trigger]
                now.regular() && #[trigger] readings_for(reply@, readings) && now.secs >= 0 && ({
                    let start = now.secs - self.sec_recent_hours * 3600;
                    match events {
                        Some(events) => clock::representable(start) && event::events_of(events@)
                            == filings_of(reply@, ticker@, readings).filter(
                            since(Timestamp { secs: start as i64, nanos: now.nanos }),
                        ),
                        None => !clock::representable(start),
                    }
                }),
    {
        let now = clock::utc_now();
        self.fetch_at(reply, ticker, now)
    }

    /// A round of requests over the watched symbols.
    pub fn poll(&self) -> (round: SymbolPoll)
        ensures
            round@ == PollView::started(self.registry@),
    {
        SymbolPoll::start(self.registry.watch_pool())
    }
}

// ---------------------------------------------------------------------------
// What holds of every document
// ---------------------------------------------------------------------------
/// Every split and every dividend is of medium severity, has one symbol, and has an id
/// that is made of its kind, that symbol and the day as its row writes it.
pub proof fn law_calendar_events(document: JsonView, k: int)
    ensures
        0 <= k < splits_of(document).len() ==> ({
            let e = splits_of(document)[k];
            &&& e.kind == KindView::Split
            &&& e.severity == Severity::Medium
            &&& e.symbols.len() == 1
            &&& e.payload.text_member("symbol"@) == Some(e.symbols[0])
            &&& e.payload.text_member("date"@) matches Some(date) && e.id == "split:"@
                + e.symbols[0] + ":"@ + date
        }),
        0 <= k < dividends_of(document).len() ==> ({
            let e = dividends_of(document)[k];
            &&& e.kind == KindView::Dividend
            &&& e.severity == Severity::Medium
            &&& e.symbols.len() == 1
            &&& e.payload.text_member("symbol"@) == Some(e.symbols[0])
            &&& e.payload.text_member("date"@) matches Some(date) && e.id == "div:"@
                + e.symbols[0] + ":"@ + date
        }),
{
    if let Some(rows) = document.elements() {
        let split = |i: int| split_of(rows[i], day_of_row(rows[i]));
        let dividend = |i: int| dividend_of(rows[i], day_of_row(rows[i]));
        event::law_kept_is_what_was_found(rows.len(), split);
        event::law_kept_is_what_was_found(rows.len(), dividend);
        if 0 <= k < splits_of(document).len() {
            assert(event::kept(rows.len(), split).contains(splits_of(document)[k]));
        }
        if 0 <= k < dividends_of(document).len() {
            assert(event::kept(rows.len(), dividend).contains(dividends_of(document)[k]));
        }
    }
}

/// A filing is of high severity if its form is 8-K and of medium severity if not.
pub proof fn law_filing_severity(
    document: JsonView,
    ticker: Seq<char>,
    readings: Seq<Timestamp>,
    k: int,
)
    requires
        0 <= k < filings_of(document, ticker, readings).len(),
    ensures
        ({
            let e = filings_of(document, ticker, readings)[k];
            &&& e.kind is SecFiling
            &&& e.severity == Severity::High <==> e.kind->form == "8-K"@
            &&& e.severity == Severity::Medium <==> e.kind->form != "8-K"@
            &&& e.url matches Some(link) && link.len() > 0 && e.id == "sec:"@ + ticker + ":"@ + link
        }),
{
    let rows = document.elements()->0;
    let found = |i: int| filing_of(rows[i], ticker, filing_time(rows[i], readings[i]));
    event::law_kept_is_what_was_found(rows.len(), found);
    assert(event::kept(rows.len(), found).contains(filings_of(document, ticker, readings)[k]));
}

/// The filings of a document have the same ids whenever it is read: the clock does not
/// enter into them.
pub proof fn law_filing_ids_are_stable(
    document: JsonView,
    ticker: Seq<char>,
    readings: Seq<Timestamp>,
    later: Seq<Timestamp>,
)
    ensures
        filings_of(document, ticker, readings).len() == filings_of(document, ticker, later).len(),
        forall|k: int|
            0 <= k < filings_of(document, ticker, readings).len() ==> (#[trigger] filings_of(
                document,
                ticker,
                readings,
            )[k]).id == filings_of(document, ticker, later)[k].id,
{
    if let Some(rows) = document.elements() {
        event::lemma_kept_of_alike(
            rows.len(),
            |i: int| filing_of(rows[i], ticker, filing_time(rows[i], readings[i])),
            |i: int| filing_of(rows[i], ticker, filing_time(rows[i], later[i])),
        );
    }
}

/// The filings of a symbol are told apart by their links: two of them, in whatever
/// documents and whenever they were read, have the same id if and only if they have the
/// same link.
pub proof fn law_one_id_for_each_link(
    ticker: Seq<char>,
    first: JsonView,
    first_readings: Seq<Timestamp>,
    k: int,
    second: JsonView,
    second_readings: Seq<Timestamp>,
    l: int,
)
    requires
        0 <= k < filings_of(first, ticker, first_readings).len(),
        0 <= l < filings_of(second, ticker, second_readings).len(),
    ensures
        ({
            let a = filings_of(first, ticker, first_readings)[k];
            let b = filings_of(second, ticker, second_readings)[l];
            a.id == b.id <==> a.url == b.url
        }),
{
    law_filing_severity(first, ticker, first_readings, k);
    law_filing_severity(second, ticker, second_readings, l);
    let start = "sec:"@ + ticker + ":"@;
    let link_a = filings_of(first, ticker, first_readings)[k].url->0;
    let link_b = filings_of(second, ticker, second_readings)[l].url->0;
    assert((start + link_a).skip(start.len() as int) =~= link_a);
    assert((start + link_b).skip(start.len() as int) =~= link_b);
}

/// Calendars join: the events of the rows of two documents in one are those of the first
/// and then those of the second.
pub proof fn law_calendars_join(first: Seq<JsonView>, second: Seq<JsonView>)
    ensures
        splits_of(JsonView::Array(first + second)) == splits_of(JsonView::Array(first))
            + splits_of(JsonView::Array(second)),
        dividends_of(JsonView::Array(first + second)) == dividends_of(JsonView::Array(first))
            + dividends_of(JsonView::Array(second)),
{
    let n = first.len();
    let m = second.len();
    let all = first + second;
    let split = |i: int| split_of(all[i], day_of_row(all[i]));
    event::lemma_kept_of_parts(n, m, split);
    event::lemma_kept_of_same(n, split, |i: int| split_of(first[i], day_of_row(first[i])));
    event::lemma_kept_of_same(
        m,
        |i: int| split(n + i),
        |i: int| split_of(second[i], day_of_row(second[i])),
    );
    let dividend = |i: int| dividend_of(all[i], day_of_row(all[i]));
    event::lemma_kept_of_parts(n, m, dividend);
    event::lemma_kept_of_same(n, dividend, |i: int| dividend_of(first[i], day_of_row(first[i])));
    event::lemma_kept_of_same(
        m,
        |i: int| dividend(n + i),
        |i: int| dividend_of(second[i], day_of_row(second[i])),
    );
}

/// A later cutoff filters: what it keeps of any events is what it keeps of those that an
/// earlier cutoff keeps.
pub proof fn law_later_window_filters(
    events: Seq<EventView>,
    earlier: Timestamp,
    later: Timestamp,
)
    requires
        !later.precedes(earlier),
    ensures
        events.filter(since(later)) == events.filter(since(earlier)).filter(since(later)),
    decreases events.len(),
{
    if events.len() == 0 {
        reveal(Seq::filter);
    } else {
        let rest = events.drop_last();
        let last = events.last();
        law_later_window_filters(rest, earlier, later);
        assert(events =~= rest.push(last));
        rest.lemma_filter_push(last, since(earlier));
        rest.lemma_filter_push(last, since(later));
        rest.filter(since(earlier)).lemma_filter_push(last, since(later));
    }
}

/// Of any events, those that occurred at the cutoff or later are kept, and no others.
pub proof fn law_window_keeps_what_is_recent(events: Seq<EventView>, cutoff: Timestamp)
    ensures
        forall|e: EventView| #[trigger]
            events.filter(since(cutoff)).contains(e) <==> events.contains(e)
                && !e.occurred_at.precedes(cutoff),
{
    let recent = events.filter(since(cutoff));
    assert forall|e: EventView| #[trigger] recent.contains(e) <==> events.contains(e)
        && !e.occurred_at.precedes(cutoff) by {
        if recent.contains(e) {
            let k = choose|k: int| 0 <= k < recent.len() && recent[k] == e;
            events.lemma_filter_pred(since(cutoff), k);
            events.lemma_filter_contains_rev(since(cutoff), e);
        }
        if events.contains(e) && !e.occurred_at.precedes(cutoff) {
            let j = choose|j: int| 0 <= j < events.len() && events[j] == e;
            events.lemma_filter_contains(since(cutoff), j);
        }
    }
}

/// A calendar is read row by row: its events are those of the rows that give one, in the
/// order of the rows, and a document that is no array has none. The day of a row is what its
/// date reads as.
pub proof fn law_calendars_are_read_row_by_row(document: JsonView, row: JsonView)
    ensures
        match document {
            JsonView::Array(rows) => {
                &&& event::read_off(
                    rows.len(),
                    |i: int| split_of(rows[i], day_of_row(rows[i])),
                    splits_of(document),
                )
                &&& event::read_off(
                    rows.len(),
                    |i: int| dividend_of(rows[i], day_of_row(rows[i])),
                    dividends_of(document),
                )
            },
            _ => splits_of(document).len() == 0 && dividends_of(document).len() == 0,
        },
        match row.text_member("date"@) {
            Some(date) => day_of_row(row) == clock::parsed_date(date, "%Y-%m-%d"@),
            None => day_of_row(row) is None,
        },
{
    if let JsonView::Array(rows) = document {
        event::law_kept_is_in_order(rows.len(), |i: int| split_of(rows[i], day_of_row(rows[i])));
        event::law_kept_is_in_order(rows.len(), |i: int| dividend_of(rows[i], day_of_row(rows[i])));
    }
}

/// A row gives a split if and only if it has a symbol and a date that is a day. The split is
/// about that symbol alone, happens when that day starts, and tells symbol and date as the
/// row writes them; the row goes along with it.
pub proof fn law_split_tells_its_row(row: JsonView, day: Option<Date>)
    requires
        day matches Some(d) ==> d.valid(),
    ensures
        split_of(row, day) is Some <==> row.text_member("symbol"@) is Some && row.text_member(
            "date"@,
        ) is Some && day is Some,
        split_of(row, day) matches Some(e) ==> {
            let symbol = row.text_member("symbol"@)->0;
            let date = row.text_member("date"@)->0;
            &&& e.id == "split:"@ + symbol + ":"@ + date
            &&& e.title == symbol + " stock split on "@ + date
            &&& e.symbols.len() == 1 && e.symbols[0] == symbol
            &&& e.occurred_at.secs == (day->0.number() - 719163) * 86400
            &&& e.occurred_at.nanos == 0
            &&& e.kind is Split
            &&& e.severity is Medium
            &&& e.url is None
            &&& e.source == "fmp.stock_split_calendar"@
            &&& e.payload == row
        },
{
    if let Some(d) = day {
        clock::law_days_are_representable(d);
    }
}

/// The summary of a split is its ratio as the row has it: whichever of the two numbers is
/// greater, the text of the numerator comes first, then `-for-`, then the text of the
/// denominator. Where a number is missing or the denominator is not above zero there is no
/// ratio, and the summary is empty.
pub proof fn law_ratio_is_numerator_for_denominator(document: JsonView, k: int)
    requires
        0 <= k < splits_of(document).len(),
    ensures
        ({
            let e = splits_of(document)[k];
            let numerator = e.payload.number_member("numerator"@);
            let denominator = e.payload.number_member("denominator"@);
            if numerator is Some && denominator is Some && 0 < denominator->0.value.bits
                <= 0x7ff0_0000_0000_0000 {
                let n = numerator->0.shortest;
                let d = denominator->0.shortest;
                &&& n.is_prefix_of(e.summary)
                &&& "-for-"@.is_prefix_of(e.summary.skip(n.len() as int))
                &&& e.summary.skip(n.len() as int).skip("-for-"@.len() as int) == d
            } else {
                e.summary.len() == 0
            }
        }),
{
    let rows = document.elements()->0;
    let split = |i: int| split_of(rows[i], day_of_row(rows[i]));
    let e = splits_of(document)[k];
    event::law_kept_is_what_was_found(rows.len(), split);
    assert(event::kept(rows.len(), split).contains(e));
    let numerator = e.payload.number_member("numerator"@);
    let denominator = e.payload.number_member("denominator"@);
    if numerator is Some && denominator is Some && 0 < denominator->0.value.bits
        <= 0x7ff0_0000_0000_0000 {
        let n = numerator->0.shortest;
        let d = denominator->0.shortest;
        assert(e.summary == n + "-for-"@ + d);
        assert(e.summary.skip(n.len() as int) =~= "-for-"@ + d);
        assert(e.summary.skip(n.len() as int).skip("-for-"@.len() as int) =~= d);
    }
}

/// A row gives a dividend if and only if it has a symbol and a date that is a day. The
/// dividend is about that symbol alone, happens when that day starts, and tells symbol, date
/// and amount as the row writes them; the row goes along with it.
pub proof fn law_dividend_tells_its_row(row: JsonView, day: Option<Date>)
    requires
        day matches Some(d) ==> d.valid(),
    ensures
        dividend_of(row, day) is Some <==> row.text_member("symbol"@) is Some && row.text_member(
            "date"@,
        ) is Some && day is Some,
        dividend_of(row, day) matches Some(e) ==> {
            let symbol = row.text_member("symbol"@)->0;
            let date = row.text_member("date"@)->0;
            &&& e.id == "div:"@ + symbol + ":"@ + date
            &&& e.title == symbol + " dividend ex-date "@ + date
            &&& e.symbols.len() == 1 && e.symbols[0] == symbol
            &&& e.occurred_at.secs == (day->0.number() - 719163) * 86400
            &&& e.occurred_at.nanos == 0
            &&& e.kind is Dividend
            &&& e.severity is Medium
            &&& row.number_member("dividend"@) matches Some(n) ==> e.summary == "股息 "@
                + n.four_places
            &&& row.number_member("dividend"@) is None ==> e.summary.len() == 0
            &&& e.url is None
            &&& e.source == "fmp.stock_dividend_calendar"@
            &&& e.payload == row
        },
{
    if let Some(d) = day {
        clock::law_days_are_representable(d);
    }
}

/// Both calendars are told of, splits first; a calendar that could not be had takes nothing
/// from the other.
pub proof fn law_one_calendar_does_without_the_other(splits: JsonView, dividends: JsonView)
    ensures
        calendar_of(Some(splits), Some(dividends)) == splits_of(splits) + dividends_of(dividends),
        calendar_of(Some(splits), None) == splits_of(splits),
        calendar_of(None, Some(dividends)) == dividends_of(dividends),
        calendar_of(None, None).len() == 0,
{
    assert(calendar_of(Some(splits), None) =~= splits_of(splits));
    assert(calendar_of(None, Some(dividends)) =~= dividends_of(dividends));
}

/// What is asked for on a day are the splits and the dividends of the same days: from that
/// day to the one that lies the window later. Nothing is asked for only if the calendar ends
/// before that.
pub proof fn law_paths_span_the_window(
    poller: CorpActionCalendarPoller,
    paths: CalendarPaths,
    number: int,
)
    ensures
        poller.asks(Some(paths), number) ==> exists|from: Date, to: Date|
            from.valid() && to.valid() && #[trigger] from.number() == number && #[trigger] to.number()
                == number + poller.window_days && paths.splits@
                == "/stable/stock_split_calendar?from="@ + from.text() + "&to="@ + to.text()
                && paths.dividends@ == "/stable/stock_dividend_calendar?from="@ + from.text()
                + "&to="@ + to.text(),
        poller.asks(None, number) ==> !clock::day_fits(number, poller.window_days as int),
{
    if poller.asks(Some(paths), number) {
        let (from, to) = choose|from: Date, to: Date| #[trigger]
            paths.ask_for(from, to) && from.valid() && from.number() == number && to.valid()
                && to.number() == number + poller.window_days;
        assert(from.number() == number);
        assert(to.number() == number + poller.window_days);
    }
}

/// A row gives a filing if and only if it has a link that is not empty, where the final link
/// goes before the other. The filing is about the symbol that was asked for alone, is
/// severe if its form is 8-K, and tells form, link and day as the row writes them; the row
/// goes along with it.
pub proof fn law_filing_tells_its_row(row: JsonView, ticker: Seq<char>, occurred_at: Timestamp)
    ensures
        ({
            let link = match row.text_member("finalLink"@) {
                Some(link) => Some(link),
                None => row.text_member("link"@),
            };
            &&& filing_of(row, ticker, occurred_at) is Some <==> link is Some && link->0.len() > 0
            &&& filing_of(row, ticker, occurred_at) matches Some(e) ==> {
                &&& e.id == "sec:"@ + ticker + ":"@ + link->0
                &&& e.url == link
                &&& e.symbols.len() == 1 && e.symbols[0] == ticker
                &&& e.occurred_at == occurred_at
                &&& e.source == "fmp.sec_filings"@
                &&& e.payload == row
                &&& row.text_member("type"@) matches Some(form) ==> {
                    &&& e.kind == (KindView::SecFiling { form })
                    &&& e.title == ticker + " filed "@ + form
                    &&& e.severity is High <==> form == "8-K"@
                }
                &&& row.text_member("type"@) is None ==> {
                    &&& e.kind is SecFiling && e.kind->form.len() == 0
                    &&& e.title == ticker + " filed "@
                    &&& e.severity is Medium
                }
                &&& e.severity is High || e.severity is Medium
                &&& row.text_member("fillingDate"@) matches Some(filed) ==> e.summary == filed
                &&& row.text_member("fillingDate"@) is None ==> e.summary.len() == 0
            }
        }),
{
    reveal_strlit("");
    reveal_strlit("8-K");
    assert("8-K"@.len() == 3);
    assert(ticker + " filed "@ + ""@ =~= ticker + " filed "@);
}

/// A filing occurred when the row says that it was accepted, or on its day if the row does
/// not say that, and at the reading of the clock if neither can be read. A text is read with
/// its time of day if it can be, else as the start of a day.
pub proof fn law_filing_occurred_when_accepted(row: JsonView, now: Timestamp, text: Seq<char>)
    ensures
        row.text_member("acceptedDate"@) matches Some(accepted) ==> filing_time(row, now)
            == match fmp_datetime(accepted) {
            Some(moment) => moment,
            None => now,
        },
        row.text_member("acceptedDate"@) is None && row.text_member("fillingDate"@) is Some
            ==> filing_time(row, now) == match fmp_datetime(row.text_member("fillingDate"@)->0) {
            Some(moment) => moment,
            None => now,
        },
        row.text_member("acceptedDate"@) is None && row.text_member("fillingDate"@) is None
            ==> filing_time(row, now) == match fmp_datetime(Seq::empty()) {
            Some(moment) => moment,
            None => now,
        },
        clock::parsed_moment(text, "%Y-%m-%d %H:%M:%S"@) is Some ==> fmp_datetime(text)
            == clock::parsed_moment(text, "%Y-%m-%d %H:%M:%S"@),
        clock::parsed_moment(text, "%Y-%m-%d %H:%M:%S"@) is None ==> match clock::parsed_date(
            text,
            "%Y-%m-%d"@,
        ) {
            Some(day) => day.valid() ==> (fmp_datetime(text) matches Some(moment) && moment.secs
                == (day.number() - 719163) * 86400 && moment.nanos == 0),
            None => fmp_datetime(text) is None,
        },
        needs_clock(row) ==> forall|other: Timestamp| #[trigger] filing_time(row, other) == other,
        !needs_clock(row) && filing_of(row, text, now) is Some ==> forall|other: Timestamp| #[trigger]
            filing_time(row, other) == filing_time(row, now),
{
    reveal_strlit("");
    assert(""@ =~= Seq::empty());
    if let Some(day) = clock::parsed_date(text, "%Y-%m-%d"@) {
        if day.valid() {
            clock::law_days_are_representable(day);
        }
    }
}

/// Filings are read row by row: the events are those of the rows that give one, in the order
/// of the rows, each at the time of its own row; a document that is no array has none.
pub proof fn law_filings_are_read_row_by_row(
    document: JsonView,
    ticker: Seq<char>,
    readings: Seq<Timestamp>,
)
    ensures
        match document {
            JsonView::Array(rows) => event::read_off(
                rows.len(),
                |i: int| filing_of(rows[i], ticker, filing_time(rows[i], readings[i])),
                filings_of(document, ticker, readings),
            ),
            _ => filings_of(document, ticker, readings).len() == 0,
        },
        document is Array && readings_for(document, readings) ==> readings.len()
            == document->Array_0.len(),
        readings_for(document, readings) ==> forall|i: int|
            0 <= i < readings.len() ==> (#[trigger] readings[i]).secs >= 0 && readings[i].nanos
                < 1_000_000_000,
{
    if let JsonView::Array(rows) = document {
        event::law_kept_is_in_order(
            rows.len(),
            |i: int| filing_of(rows[i], ticker, filing_time(rows[i], readings[i])),
        );
    }
}

/// The window keeps events in their order: what it keeps of two runs of events is what it
/// keeps of the first and then of the second, and a single event is kept if and only if it
/// occurred at the cutoff or later.
pub proof fn law_window_keeps_the_order(
    first: Seq<EventView>,
    second: Seq<EventView>,
    event: EventView,
    cutoff: Timestamp,
)
    ensures
        (first + second).filter(since(cutoff)) == first.filter(since(cutoff)) + second.filter(
            since(cutoff),
        ),
        seq![event].filter(since(cutoff)) == if event.occurred_at.precedes(cutoff) {
            Seq::empty()
        } else {
            seq![event]
        },
{
    Seq::filter_distributes_over_add(first, second, since(cutoff));
    reveal_with_fuel(Seq::filter, 2);
    assert(seq![event].drop_last() =~= Seq::empty());
    assert(Seq::<EventView>::empty().push(event) =~= seq![event]);
}

/// An optional event and an optional document say what they hold.
pub proof fn law_options_say_what_they_hold(event: MarketEvent, document: &Json)
    ensures
        event_view(Some(event)) == Some(event@),
        event_view(None) is None,
        document_view(Some(document)) == Some(document@),
        document_view(None) is None,
{
}

}
