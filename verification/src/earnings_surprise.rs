//! Earnings against what was estimated, from `v3/earnings-surprises/{ticker}` of FMP.
//!
//! A surprise is the percentage by which the earnings of a quarter differ from the
//! estimate. It is of high severity if it reaches the threshold in either direction and
//! of medium severity if not. The id of an event stays the same from poll to poll:
//! `earnings_surprise:{symbol}:{date}`, one for each company and quarter.
//!
//! The percentage is a quotient of doubles, and computed by the caller:
//! [`percent_inputs`] says of which numbers, and [`events_from_surprises`] takes the
//! results.

use std::sync::Arc;

use vstd::prelude::*;

use crate::clock;
use crate::clock::Date;
use crate::clock::Timestamp;
use crate::clock::DAY_SECONDS;
use crate::corp_action;
use crate::double::Double;
use crate::double::EPSILON;
use crate::double::FIVE;
use crate::double::ZERO;
use crate::event;
use crate::event::EventKind;
use crate::event::EventView;
use crate::event::FmpClient;
use crate::event::KindView;
use crate::event::MarketEvent;
use crate::event::Severity;
use crate::event::SourceSchedule;
use crate::json::Json;
use crate::json::JsonView;
use crate::poll::PollView;
use crate::poll::SharedRegistry;
use crate::poll::SymbolPoll;
use crate::text;

verus! {

/// A percentage, and its text with a sign and one digit behind the point.
#[derive(Debug)]
pub struct Percent {
    pub value: Double,
    pub text: String,
}

/// What a [`Percent`] says.
#[verifier::ext_equal]
pub struct PercentView {
    pub value: Double,
    pub text: Seq<char>,
}

impl Percent {
    pub open spec fn view(&self) -> PercentView {
        PercentView { value: self.value, text: self.text@ }
    }
}

/// The percentage of the row at place `i`; none if `percents` has none there.
pub open spec fn percent_at(percents: Seq<Option<Percent>>, i: int) -> Option<PercentView> {
    if 0 <= i < percents.len() {
        match percents[i] {
            Some(p) => Some(p@),
            None => None,
        }
    } else {
        None
    }
}

/// Whether the estimate is too close to zero to divide by.
pub open spec fn negligible(estimate: Double) -> bool {
    estimate.absolute().below(Double { bits: EPSILON })
}

/// The earnings and the estimate of the row, if it has both and the estimate is not
/// negligible.
pub open spec fn numbers_of(row: JsonView) -> Option<(Double, Double)> {
    match (row.number_member("actualEarningResult"@), row.number_member("estimatedEarning"@)) {
        (Some(actual), Some(estimate)) => if negligible(estimate.value) {
            None
        } else {
            Some((actual.value, estimate.value))
        },
        _ => None,
    }
}

/// The earnings and the estimate of the row, if it has both and the estimate is not
/// negligible.
pub fn row_numbers(row: &Json) -> (numbers: Option<(Double, Double)>)
    ensures
        numbers == numbers_of(row@),
{
    match (row.get_number("actualEarningResult"), row.get_number("estimatedEarning")) {
        (Some(actual), Some(estimate)) => {
            let epsilon = Double { bits: EPSILON };
            if estimate.value.abs().less_than(epsilon) {
                None
            } else {
                Some((actual.value, estimate.value))
            }
        },
        _ => None,
    }
}

/// For each row of the document, the earnings and the estimate to compute a percentage
/// of, or none if the row needs no percentage; nothing if the document is no array.
pub fn percent_inputs(document: &Json) -> (inputs: Vec<Option<(Double, Double)>>)
    ensures
        match document@.elements() {
            Some(rows) => inputs@ == rows.map_values(|row: JsonView| numbers_of(row)),
            None => inputs@.len() == 0,
        },
{
    let mut inputs: Vec<Option<(Double, Double)>> = Vec::new();
    let rows = match document.as_array() {
        Some(rows) => rows,
        None => {
            return inputs;
        },
    };
    let ghost views = document@->Array_0;
    let mut i: usize = 0;
    while i < rows.len()
        invariant
            i <= rows@.len() == views.len(),
            forall|j: int| 0 <= j < rows@.len() ==> views[j] == (#[trigger] rows@[j])@,
            inputs@.len() == i,
            forall|j: int| 0 <= j < i ==> #[trigger] inputs@[j] == numbers_of(views[j]),
        decreases rows@.len() - i,
    {
        inputs.push(row_numbers(&rows[i]));
        i = i + 1;
    }
    assert(inputs@ =~= views.map_values(|row: JsonView| numbers_of(row)));
    inputs
}

/// How severe a surprise is.
pub open spec fn severity_of(percent: Double, high_percent: Double) -> Severity {
    if percent.absolute().reaches(high_percent) {
        Severity::High
    } else {
        Severity::Medium
    }
}

/// What a surprise is called.
pub open spec fn direction_of(percent: Double) -> Seq<char> {
    if percent.reaches(Double { bits: ZERO }) {
        "超预期"@
    } else {
        "不及预期"@
    }
}

/// The event that a row of the surprises of `ticker` gives, where `day` is the day of the
/// row and `percent` its percentage.
pub open spec fn surprise_of(
    row: JsonView,
    ticker: Seq<char>,
    day: Option<Date>,
    cutoff: Timestamp,
    high_percent: Double,
    percent: Option<PercentView>,
) -> Option<EventView> {
    match (row.text_member("date"@), day, numbers_of(row), percent) {
        (Some(date), Some(day), Some(_), Some(percent)) => if corp_action::start_of(day).precedes(
            cutoff,
        ) {
            None
        } else {
            Some(
                EventView {
                    id: "earnings_surprise:"@ + ticker + ":"@ + date,
                    kind: KindView::EarningsReleased,
                    severity: severity_of(percent.value, high_percent),
                    symbols: seq![ticker],
                    occurred_at: corp_action::start_of(day),
                    title: ticker + " 财报 "@ + direction_of(percent.value) + " "@ + percent.text
                        + "%"@,
                    summary: "实际 "@ + row.number_member("actualEarningResult"@)->0.two_places
                        + " / 预期 "@ + row.number_member("estimatedEarning"@)->0.two_places,
                    url: Some(
                        "https://finance.yahoo.com/quote/"@ + ticker + "/press-releases/"@,
                    ),
                    source: "fmp.earnings_surprises"@,
                    payload: row,
                },
            )
        },
        _ => None,
    }
}

/// The event that a row of the surprises of `ticker` gives, where `day` is the day of the
/// row and `percent` its percentage. A row gives none if it has no day, if its day starts
/// before the cutoff, or if it has no earnings or no estimate that can be divided by.
///
/// The row has no link to a press release. The page that the event points to lists the
/// press releases of the company, the latest first.
pub fn surprise_event(
    row: &Json,
    ticker: &str,
    day: Option<Date>,
    cutoff: Timestamp,
    high_percent: Double,
    percent: Option<&Percent>,
) -> (event: Option<MarketEvent>)
    requires
        day matches Some(d) ==> d.valid(),
    ensures
        corp_action::event_view(event) == surprise_of(
            row@,
            ticker@,
            day,
            cutoff,
            high_percent,
            match percent {
                Some(p) => Some(p@),
                None => None,
            },
        ),
{
    let (date, day, percent) = match (row.get_text("date"), day, percent) {
        (Some(date), Some(day), Some(percent)) => (date, day, percent),
        _ => {
            return None;
        },
    };
    let occurred_at = clock::midnight(day);
    if occurred_at.is_before(cutoff) || row_numbers(row).is_none() {
        return None;
    }
    let (actual, estimate) = match (
        row.get_number("actualEarningResult"),
        row.get_number("estimatedEarning"),
    ) {
        (Some(actual), Some(estimate)) => (actual, estimate),
        _ => {
            return None;
        },
    };
    let severity = if percent.value.abs().at_least(high_percent) {
        Severity::High
    } else {
        Severity::Medium
    };
    let zero = Double { bits: ZERO };
    let direction = if percent.value.at_least(zero) {
        "超预期"
    } else {
        "不及预期"
    };
    let mut title = text::concat3(ticker, " 财报 ", direction);
    title = text::concat4(title.as_str(), " ", percent.text.as_str(), "%");
    let event = MarketEvent {
        id: text::concat4("earnings_surprise:", ticker, ":", date),
        kind: EventKind::EarningsReleased,
        severity,
        symbols: vec![ticker.to_owned()],
        occurred_at,
        title,
        summary: text::concat4(
            "实际 ",
            actual.two_places.as_str(),
            " / 预期 ",
            estimate.two_places.as_str(),
        ),
        url: Some(text::concat3("https://finance.yahoo.com/quote/", ticker, "/press-releases/")),
        source: "fmp.earnings_surprises".to_owned(),
        payload: row.duplicate(),
    };
    assert(event@.symbols =~= seq![ticker@]);
    Some(event)
}

/// The events of the surprises of `ticker`.
pub open spec fn surprises_of(
    document: JsonView,
    ticker: Seq<char>,
    cutoff: Timestamp,
    high_percent: Double,
    percents: Seq<Option<Percent>>,
) -> Seq<EventView> {
    match document.elements() {
        Some(rows) => event::kept(
            rows.len(),
            |i: int|
                surprise_of(
                    rows[i],
                    ticker,
                    corp_action::day_of_row(rows[i]),
                    cutoff,
                    high_percent,
                    percent_at(percents, i),
                ),
        ),
        None => Seq::empty(),
    }
}

/// The events of the surprises of `ticker`, in the order of the rows; none if the
/// document is no array. `percents` holds the percentage of each row that
/// [`percent_inputs`] gives numbers for.
pub fn events_from_surprises(
    document: &Json,
    ticker: &str,
    cutoff: Timestamp,
    high_percent: Double,
    percents: &Vec<Option<Percent>>,
) -> (events: Vec<MarketEvent>)
    ensures
        event::events_of(events@) == surprises_of(
            document@,
            ticker@,
            cutoff,
            high_percent,
            percents@,
        ),
{
    let mut events: Vec<MarketEvent> = Vec::new();
    let rows = match document.as_array() {
        Some(rows) => rows,
        None => {
            return events;
        },
    };
    let ghost views = document@->Array_0;
    let ghost found = |i: int|
        surprise_of(
            views[i],
            ticker@,
            corp_action::day_of_row(views[i]),
            cutoff,
            high_percent,
            percent_at(percents@, i),
        );
    let mut i: usize = 0;
    while i < rows.len()
        invariant
            i <= rows@.len() == views.len(),
            forall|j: int| 0 <= j < rows@.len() ==> views[j] == (#[trigger] rows@[j])@,
            found == (|i: int|
                surprise_of(
                    views[i],
                    ticker@,
                    corp_action::day_of_row(views[i]),
                    cutoff,
                    high_percent,
                    percent_at(percents@, i),
                )),
            event::events_of(events@) == event::kept(i as nat, found),
        decreases rows@.len() - i,
    {
        let row = &rows[i];
        let percent = if i < percents.len() {
            match &percents[i] {
                Some(p) => Some(p),
                None => None,
            }
        } else {
            None
        };
        let day = corp_action::row_day(row);
        match surprise_event(row, ticker, day, cutoff, high_percent, percent) {
            Some(event) => {
                let ghost before = events@;
                events.push(event);
                assert(event::events_of(events@) =~= event::events_of(before).push(event@));
            },
            None => {},
        }
        i = i + 1;
    }
    events
}

/// Polls the latest surprises of the watched symbols.
#[derive(Debug)]
pub struct EarningsSurprisePoller {
    pub client: FmpClient,
    pub lookback_days: i64,
    pub high_threshold_pct: Double,
    pub registry: Arc<SharedRegistry>,
    pub schedule: SourceSchedule,
}

impl EarningsSurprisePoller {
    /// A poller that looks three days back and takes five percent for high.
    pub fn new(client: FmpClient, registry: Arc<SharedRegistry>, schedule: SourceSchedule) -> (poller:
        Self)
        ensures
            poller == (EarningsSurprisePoller {
                client,
                lookback_days: 3,
                high_threshold_pct: Double { bits: FIVE },
                registry,
                schedule,
            }),
    {
        EarningsSurprisePoller {
            client,
            lookback_days: 3,
            high_threshold_pct: Double { bits: FIVE },
            registry,
            schedule,
        }
    }

    /// The poller, but looking so many days back.
    pub fn with_lookback_days(self, days: i64) -> (poller: Self)
        ensures
            poller == (EarningsSurprisePoller {
                client: self.client,
                lookback_days: days,
                high_threshold_pct: self.high_threshold_pct,
                registry: self.registry,
                schedule: self.schedule,
            }),
    {
        EarningsSurprisePoller {
            client: self.client,
            lookback_days: days,
            high_threshold_pct: self.high_threshold_pct,
            registry: self.registry,
            schedule: self.schedule,
        }
    }

    /// The poller, but taking such a percentage for high.
    pub fn with_high_threshold_pct(self, pct: Double) -> (poller: Self)
        ensures
            poller == (EarningsSurprisePoller {
                client: self.client,
                lookback_days: self.lookback_days,
                high_threshold_pct: pct,
                registry: self.registry,
                schedule: self.schedule,
            }),
    {
        EarningsSurprisePoller {
            client: self.client,
            lookback_days: self.lookback_days,
            high_threshold_pct: pct,
            registry: self.registry,
            schedule: self.schedule,
        }
    }

    /// The name of the source.
    pub fn name(&self) -> (name: &str)
        ensures
            name@ == "fmp.earnings_surprise"@,
    {
        "fmp.earnings_surprise"
    }

    /// How often the poller runs.
    pub fn schedule(&self) -> (schedule: SourceSchedule)
        ensures
            schedule == self.schedule,
    {
        self.schedule
    }

    /// What the poller asks for of `ticker`.
    pub fn fetch_path(&self, ticker: &str) -> (path: String)
        ensures
            path@ == "/v3/earnings-surprises/"@ + ticker@,
    {
        text::concat2("/v3/earnings-surprises/", ticker)
    }

    /// The earliest start of a day that is recent at `now`; none if chrono cannot represent
    /// it.
    pub fn cutoff(&self, now: Timestamp) -> (cutoff: Option<Timestamp>)
        requires
            now.regular(),
        ensures
            cutoff is Some <==> clock::representable(now.secs - self.lookback_days * DAY_SECONDS),
            cutoff matches Some(t) ==> t.regular() && t.secs == now.secs - self.lookback_days
                * DAY_SECONDS && t.nanos == now.nanos,
    {
        clock::checked_before(now, self.lookback_days, DAY_SECONDS)
    }

    /// The cutoff at the moment of the call; none if chrono cannot represent it.
    pub fn cutoff_now(&self) -> (cutoff: Option<Timestamp>)
        ensures
            exists|now: Timestamp| #[trigger]
                now.regular() && now.secs >= 0 && ({
                    let start = now.secs - self.lookback_days * DAY_SECONDS;
                    match cutoff {
                        Some(t) => clock::representable(start) && t.secs == start && t.nanos
                            == now.nanos,
                        None => !clock::representable(start),
                    }
                }),
    {
        let now = clock::utc_now();
        self.cutoff(now)
    }

    /// The surprises of `ticker` that the reply to its request holds.
    pub fn fetch(
        &self,
        reply: &Json,
        ticker: &str,
        cutoff: Timestamp,
        percents: &Vec<Option<Percent>>,
    ) -> (events: Vec<MarketEvent>)
        ensures
            event::events_of(events@) == surprises_of(
                reply@,
                ticker@,
                cutoff,
                self.high_threshold_pct,
                percents@,
            ),
    {
        events_from_surprises(reply, ticker, cutoff, self.high_threshold_pct, percents)
    }

    /// A round of requests over the watched symbols.
    pub fn poll(&self) -> (round: SymbolPoll)
        ensures
            round@ == PollView::started(self.registry@),
    {
        SymbolPoll::start(self.registry.watch_pool())
    }
}

/// Every surprise has a row, is of the severity that the percentage of that row has, has
/// an id that is made of the symbol and the day as the row writes it, does not start
/// before the cutoff, and points to the press releases of the symbol.
pub proof fn law_surprises(
    document: JsonView,
    ticker: Seq<char>,
    cutoff: Timestamp,
    high_percent: Double,
    percents: Seq<Option<Percent>>,
    k: int,
)
    requires
        0 <= k < surprises_of(document, ticker, cutoff, high_percent, percents).len(),
    ensures
        ({
            let e = surprises_of(document, ticker, cutoff, high_percent, percents)[k];
            &&& e.kind == KindView::EarningsReleased
            &&& e.symbols == seq![ticker]
            &&& !e.occurred_at.precedes(cutoff)
            &&& e.payload.text_member("date"@) matches Some(date) && e.id
                == "earnings_surprise:"@ + ticker + ":"@ + date
            &&& e.url == Some("https://finance.yahoo.com/quote/"@ + ticker + "/press-releases/"@)
            &&& exists|i: int|
                0 <= i < document.elements()->0.len() && document.elements()->0[i] == e.payload && (
                #[trigger] percent_at(percents, i) matches Some(percent) && e.severity
                    == severity_of(percent.value, high_percent))
        }),
{
    let rows = document.elements()->0;
    let found = |i: int|
        surprise_of(
            rows[i],
            ticker,
            corp_action::day_of_row(rows[i]),
            cutoff,
            high_percent,
            percent_at(percents, i),
        );
    let e = surprises_of(document, ticker, cutoff, high_percent, percents)[k];
    event::law_kept_is_what_was_found(rows.len(), found);
    assert(event::kept(rows.len(), found).contains(e));
    let i = choose|i: int| 0 <= i < rows.len() && #[trigger] found(i) == Some(e);
    assert(percent_at(percents, i) is Some);
}

/// The id of a surprise tells the quarters of a company apart and stays the same from poll
/// to poll: two surprises of a symbol, whenever and however they were found, have the same
/// id if and only if their rows write the same day.
pub proof fn law_one_id_for_each_quarter(
    ticker: Seq<char>,
    first: JsonView,
    first_cutoff: Timestamp,
    first_high: Double,
    first_percents: Seq<Option<Percent>>,
    k: int,
    second: JsonView,
    second_cutoff: Timestamp,
    second_high: Double,
    second_percents: Seq<Option<Percent>>,
    l: int,
)
    requires
        0 <= k < surprises_of(first, ticker, first_cutoff, first_high, first_percents).len(),
        0 <= l < surprises_of(second, ticker, second_cutoff, second_high, second_percents).len(),
    ensures
        ({
            let a = surprises_of(first, ticker, first_cutoff, first_high, first_percents)[k];
            let b = surprises_of(second, ticker, second_cutoff, second_high, second_percents)[l];
            a.id == b.id <==> a.payload.text_member("date"@) == b.payload.text_member("date"@)
        }),
{
    let a = surprises_of(first, ticker, first_cutoff, first_high, first_percents)[k];
    let b = surprises_of(second, ticker, second_cutoff, second_high, second_percents)[l];
    law_surprises(first, ticker, first_cutoff, first_high, first_percents, k);
    law_surprises(second, ticker, second_cutoff, second_high, second_percents, l);
    let start = "earnings_surprise:"@ + ticker + ":"@;
    let date_a = a.payload.text_member("date"@)->0;
    let date_b = b.payload.text_member("date"@)->0;
    assert((start + date_a).skip(start.len() as int) =~= date_a);
    assert((start + date_b).skip(start.len() as int) =~= date_b);
}

/// A later cutoff filters: it gives those of the surprises of an earlier cutoff that did not
/// occur before it.
pub proof fn law_later_cutoff_filters(
    document: JsonView,
    ticker: Seq<char>,
    earlier: Timestamp,
    later: Timestamp,
    high_percent: Double,
    percents: Seq<Option<Percent>>,
)
    requires
        !later.precedes(earlier),
    ensures
        surprises_of(document, ticker, later, high_percent, percents) == surprises_of(
            document,
            ticker,
            earlier,
            high_percent,
            percents,
        ).filter(corp_action::since(later)),
{
    match document.elements() {
        Some(rows) => {
            event::lemma_kept_of_some(
                rows.len(),
                |i: int|
                    surprise_of(
                        rows[i],
                        ticker,
                        corp_action::day_of_row(rows[i]),
                        earlier,
                        high_percent,
                        percent_at(percents, i),
                    ),
                |i: int|
                    surprise_of(
                        rows[i],
                        ticker,
                        corp_action::day_of_row(rows[i]),
                        later,
                        high_percent,
                        percent_at(percents, i),
                    ),
                corp_action::since(later),
            );
        },
        None => {
            reveal(Seq::filter);
        },
    }
}

/// A beat and a miss of the same size are equally severe, whichever way the sign goes.
pub proof fn law_severity_ignores_the_sign(a: Double, b: Double, high_percent: Double)
    requires
        !a.not_a_number(),
        b.rank() == -a.rank(),
    ensures
        severity_of(a, high_percent) == severity_of(b, high_percent),
{
}

/// A lower threshold never makes a surprise less severe.
pub proof fn law_lower_threshold_keeps_high(percent: Double, low: Double, high: Double)
    requires
        !low.not_a_number(),
        low.rank() <= high.rank(),
        severity_of(percent, high) == Severity::High,
    ensures
        severity_of(percent, low) == Severity::High,
{
}

/// A row whose estimate is negligible gives no event, whatever its earnings.
pub proof fn law_negligible_estimate_gives_nothing(
    row: JsonView,
    ticker: Seq<char>,
    day: Option<Date>,
    cutoff: Timestamp,
    high_percent: Double,
    percent: Option<PercentView>,
)
    requires
        row.number_member("estimatedEarning"@) matches Some(estimate) && negligible(estimate.value),
    ensures
        surprise_of(row, ticker, day, cutoff, high_percent, percent) is None,
{
}

/// Whether the percentage is a number that is not below zero: a bit pattern without a sign up
/// to that of infinity, or that of zero with a sign.
pub open spec fn not_negative(percent: Double) -> bool {
    percent.bits <= 0x7ff0_0000_0000_0000 || percent.bits == 0x8000_0000_0000_0000
}

/// The title of a surprise tells a beat from a miss: it says 超预期 if the percentage of its
/// row is a number that is not below zero, and 不及预期 if not, whatever the size of the
/// percentage; before that stands the symbol, behind it the percentage as it was given.
pub proof fn law_title_tells_a_beat_from_a_miss(
    document: JsonView,
    ticker: Seq<char>,
    cutoff: Timestamp,
    high_percent: Double,
    percents: Seq<Option<Percent>>,
    k: int,
)
    requires
        0 <= k < surprises_of(document, ticker, cutoff, high_percent, percents).len(),
    ensures
        exists|i: int|
            0 <= i < document.elements()->0.len() && i < percents.len() && #[trigger] percents[i] is Some && {
                let e = surprises_of(document, ticker, cutoff, high_percent, percents)[k];
                let percent = percents[i]->0;
                &&& document.elements()->0[i] == e.payload
                &&& not_negative(percent.value) ==> e.title == ticker + " 财报 "@ + "超预期"@
                    + " "@ + percent.text@ + "%"@
                &&& !not_negative(percent.value) ==> e.title == ticker + " 财报 "@
                    + "不及预期"@ + " "@ + percent.text@ + "%"@
            },
{
    let rows = document.elements()->0;
    let found = |i: int|
        surprise_of(
            rows[i],
            ticker,
            corp_action::day_of_row(rows[i]),
            cutoff,
            high_percent,
            percent_at(percents, i),
        );
    let e = surprises_of(document, ticker, cutoff, high_percent, percents)[k];
    event::law_kept_is_what_was_found(rows.len(), found);
    assert(event::kept(rows.len(), found).contains(e));
    let i = choose|i: int| 0 <= i < rows.len() && #[trigger] found(i) == Some(e);
    assert(percent_at(percents, i) is Some);
    assert(percents[i] is Some);
}

/// A surprise is severe if and only if its percentage, sign aside, is at least the threshold
/// as numbers go; what is no number reaches nothing and is not reached.
pub proof fn law_severity_goes_by_the_threshold(percent: Double, high_percent: Double)
    ensures
        ({
            let size = percent.bits as int % 0x8000_0000_0000_0000;
            let high = high_percent.bits as int % 0x8000_0000_0000_0000;
            let high_is_negative = high_percent.bits >= 0x8000_0000_0000_0000;
            severity_of(percent, high_percent) is High <==> size <= 0x7ff0_0000_0000_0000 && high
                <= 0x7ff0_0000_0000_0000 && (high_is_negative || size >= high)
        }),
        severity_of(percent, high_percent) is High || severity_of(
            percent,
            high_percent,
        ) is Medium,
{
}

/// A row gives a surprise if and only if it has a date that is a day not starting before the
/// cutoff, earnings, an estimate that is not smaller than two to the power of -52 sign aside,
/// and a percentage. The surprise is about the symbol that was asked for alone, happens when
/// that day starts, and tells the numbers as the row writes them, earnings first; the row
/// goes along with it.
pub proof fn law_surprise_tells_its_row(
    row: JsonView,
    ticker: Seq<char>,
    day: Option<Date>,
    cutoff: Timestamp,
    high_percent: Double,
    percent: Option<PercentView>,
)
    requires
        day matches Some(d) ==> d.valid(),
    ensures
        ({
            let actual = row.number_member("actualEarningResult"@);
            let estimate = row.number_member("estimatedEarning"@);
            let event = surprise_of(row, ticker, day, cutoff, high_percent, percent);
            &&& event is Some <==> row.text_member("date"@) is Some && day is Some && !(Timestamp {
                secs: ((day->0.number() - 719163) * 86400) as i64,
                nanos: 0,
            }).precedes(cutoff) && actual is Some && estimate is Some && estimate->0.value.bits as int
                % 0x8000_0000_0000_0000 >= 971 * 0x10_0000_0000_0000 && percent is Some
            &&& event matches Some(e) ==> {
                &&& e.id == "earnings_surprise:"@ + ticker + ":"@ + row.text_member("date"@)->0
                &&& e.kind is EarningsReleased
                &&& e.severity == severity_of(percent->0.value, high_percent)
                &&& e.symbols.len() == 1 && e.symbols[0] == ticker
                &&& e.occurred_at.secs == (day->0.number() - 719163) * 86400
                &&& e.occurred_at.nanos == 0
                &&& e.title == ticker + " 财报 "@ + (if not_negative(percent->0.value) {
                    "超预期"@
                } else {
                    "不及预期"@
                }) + " "@ + percent->0.text + "%"@
                &&& e.summary == "实际 "@ + actual->0.two_places + " / 预期 "@
                    + estimate->0.two_places
                &&& e.url == Some("https://finance.yahoo.com/quote/"@ + ticker
                    + "/press-releases/"@)
                &&& e.source == "fmp.earnings_surprises"@
                &&& e.payload == row
            }
        }),
{
    if let Some(d) = day {
        clock::law_days_are_representable(d);
    }
}

/// A percentage is asked for if and only if a row has earnings and an estimate that is not
/// smaller than two to the power of -52 sign aside, and it is that of the earnings against
/// the estimate of that row.
pub proof fn law_percentages_are_of_earnings_against_estimates(row: JsonView)
    ensures
        ({
            let actual = row.number_member("actualEarningResult"@);
            let estimate = row.number_member("estimatedEarning"@);
            &&& numbers_of(row) is Some <==> actual is Some && estimate is Some
                && estimate->0.value.bits as int % 0x8000_0000_0000_0000 >= 971
                * 0x10_0000_0000_0000
            &&& numbers_of(row) matches Some(numbers) ==> numbers.0 == actual->0.value && numbers.1
                == estimate->0.value
        }),
{
}

/// Surprises are read row by row: the events are those of the rows that give one, in the
/// order of the rows, each with the percentage at the place of its own row; a document that
/// is no array has none.
pub proof fn law_surprises_are_read_row_by_row(
    document: JsonView,
    ticker: Seq<char>,
    cutoff: Timestamp,
    high_percent: Double,
    percents: Seq<Option<Percent>>,
)
    ensures
        match document {
            JsonView::Array(rows) => event::read_off(
                rows.len(),
                |i: int|
                    surprise_of(
                        rows[i],
                        ticker,
                        corp_action::day_of_row(rows[i]),
                        cutoff,
                        high_percent,
                        percent_at(percents, i),
                    ),
                surprises_of(document, ticker, cutoff, high_percent, percents),
            ),
            _ => surprises_of(document, ticker, cutoff, high_percent, percents).len() == 0,
        },
        forall|i: int|
            0 <= i < percents.len() ==> match #[trigger] percents[i] {
                Some(percent) => percent_at(percents, i) matches Some(p) && p.value == percent.value
                    && p.text == percent.text@,
                None => percent_at(percents, i) is None,
            },
        forall|i: int| i >= percents.len() ==> (#[trigger] percent_at(percents, i)) is None,
{
    if let JsonView::Array(rows) = document {
        event::law_kept_is_in_order(
            rows.len(),
            |i: int|
                surprise_of(
                    rows[i],
                    ticker,
                    corp_action::day_of_row(rows[i]),
                    cutoff,
                    high_percent,
                    percent_at(percents, i),
                ),
        );
    }
}

}
