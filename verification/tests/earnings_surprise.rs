use std::sync::Arc;

use chrono::Utc;
use honeclaw::clock::Timestamp;
use honeclaw::double::Double;
use honeclaw::earnings_surprise;
use honeclaw::earnings_surprise::percent_inputs;
use honeclaw::earnings_surprise::row_numbers;
use honeclaw::earnings_surprise::EarningsSurprisePoller;
use honeclaw::earnings_surprise::Percent;
use honeclaw::event::EventKind;
use honeclaw::event::FmpClient;
use honeclaw::event::MarketEvent;
use honeclaw::event::Severity;
use honeclaw::event::SourceSchedule;
use honeclaw::json::Json;
use honeclaw::json::JsonNumber;
use honeclaw::poll::SharedRegistry;

fn number(x: f64) -> Json {
    Json::Number(JsonNumber {
        literal: format!("{x}"),
        value: double(x),
        shortest: format!("{x}"),
        two_places: format!("{x:.2}"),
        four_places: format!("{x:.4}"),
    })
}

fn double(x: f64) -> Double {
    Double { bits: x.to_bits() }
}

fn row(date: &str, actual: f64, est: f64) -> Json {
    Json::Object(vec![
        ("date".to_string(), Json::Text(date.to_string())),
        ("symbol".to_string(), Json::Text("AAPL".to_string())),
        ("actualEarningResult".to_string(), number(actual)),
        ("estimatedEarning".to_string(), number(est)),
    ])
}

fn surprise(date_offset: i64, actual: f64, est: f64) -> Json {
    let d = (Utc::now() - chrono::Duration::days(date_offset)).format("%Y-%m-%d").to_string();
    row(&d, actual, est)
}

fn ago(days: i64) -> Timestamp {
    let t = Utc::now() - chrono::Duration::days(days);
    Timestamp { secs: t.timestamp(), nanos: t.timestamp_subsec_nanos() }
}

fn percents(raw: &Json) -> Vec<Option<Percent>> {
    percent_inputs(raw)
        .into_iter()
        .map(|input| {
            input.map(|(actual, est)| {
                let actual = f64::from_bits(actual.bits);
                let est = f64::from_bits(est.bits);
                let pct = (actual - est) / est.abs() * 100.0;
                Percent { value: double(pct), text: format!("{pct:+.1}") }
            })
        })
        .collect()
}

fn events_from_surprises(raw: &Json, ticker: &str, cutoff: Timestamp, high: f64) -> Vec<MarketEvent> {
    earnings_surprise::events_from_surprises(raw, ticker, cutoff, double(high), &percents(raw))
}

#[test]
fn large_beat_is_high() {
    let raw = Json::Array(vec![surprise(0, 2.30, 2.00)]);
    let events = events_from_surprises(&raw, "AAPL", ago(7), 5.0);
    assert_eq!(events.len(), 1);
    assert_eq!(events[0].severity, Severity::High);
    assert!(events[0].title.contains("超预期"));
    assert!(events[0].summary.contains("2.30"));
    let occurred_at =
        chrono::DateTime::from_timestamp(events[0].occurred_at.secs, events[0].occurred_at.nanos)
            .unwrap();
    assert_eq!(
        events[0].id,
        format!("earnings_surprise:AAPL:{}", occurred_at.format("%Y-%m-%d")),
    );
}

#[test]
fn released_event_carries_press_release_link() {
    let raw = Json::Array(vec![surprise(0, 2.30, 2.00)]);
    let events = events_from_surprises(&raw, "AAPL", ago(7), 5.0);
    let url = events[0].url.as_ref().expect("press-release url");
    assert!(url.contains("AAPL"));
    assert!(url.starts_with("https://"));
    assert!(url.contains("press-releases"));
}

#[test]
fn small_beat_is_medium() {
    let raw = Json::Array(vec![surprise(0, 2.03, 2.00)]);
    let events = events_from_surprises(&raw, "AAPL", ago(7), 5.0);
    assert_eq!(events[0].severity, Severity::Medium);
}

#[test]
fn large_miss_is_high() {
    let raw = Json::Array(vec![surprise(0, 1.70, 2.00)]);
    let events = events_from_surprises(&raw, "AAPL", ago(7), 5.0);
    assert_eq!(events[0].severity, Severity::High);
    assert!(events[0].title.contains("不及预期"));
}

#[test]
fn stale_surprise_is_dropped() {
    let raw = Json::Array(vec![surprise(90, 2.30, 2.00)]);
    let events = events_from_surprises(&raw, "AAPL", ago(3), 5.0);
    assert!(events.is_empty());
}

#[test]
fn zero_estimate_is_skipped() {
    let raw = Json::Array(vec![surprise(0, 2.30, 0.0)]);
    let events = events_from_surprises(&raw, "AAPL", ago(3), 5.0);
    assert!(events.is_empty());
}

#[test]
fn surprise_event_in_full() {
    let raw = Json::Array(vec![row("1970-01-02", 1.7, -2.0), Json::Null, row("x", 1.0, 1.0)]);
    let cutoff = Timestamp { secs: 86400, nanos: 0 };
    let events = events_from_surprises(&raw, "TSLA", cutoff, 185.0);
    assert_eq!(events.len(), 1);
    let event = &events[0];
    assert_eq!(event.id, "earnings_surprise:TSLA:1970-01-02");
    assert!(matches!(event.kind, EventKind::EarningsReleased));
    assert_eq!(event.severity, Severity::High);
    assert_eq!(event.symbols, vec!["TSLA".to_string()]);
    assert_eq!(event.occurred_at, cutoff);
    assert_eq!(event.title, "TSLA 财报 超预期 +185.0%");
    assert_eq!(event.summary, "实际 1.70 / 预期 -2.00");
    assert_eq!(
        event.url.as_deref(),
        Some("https://finance.yahoo.com/quote/TSLA/press-releases/"),
    );
    assert_eq!(event.source, "fmp.earnings_surprises");
    let later = Timestamp { secs: 86400, nanos: 1 };
    assert!(events_from_surprises(&raw, "TSLA", later, 5.0).is_empty());
}

#[test]
fn threshold_is_reached_from_both_sides() {
    let cutoff = Timestamp { secs: 0, nanos: 0 };
    let severity = |actual: f64, high: f64| {
        let raw = Json::Array(vec![row("2026-01-01", actual, 2.0)]);
        events_from_surprises(&raw, "A", cutoff, high)[0].severity
    };
    assert_eq!(severity(3.0, 50.0), Severity::High);
    assert_eq!(severity(1.0, 50.0), Severity::High);
    assert_eq!(severity(1.0, 50.5), Severity::Medium);
    assert_eq!(severity(2.0, 0.0), Severity::High);
    assert_eq!(severity(3.0, f64::NAN), Severity::Medium);
}

#[test]
fn rows_that_cannot_be_divided_need_no_percentage() {
    assert_eq!(row_numbers(&row("d", 1.0, 2.0)), Some((double(1.0), double(2.0))));
    assert_eq!(row_numbers(&row("d", 1.0, -f64::EPSILON)), Some((double(1.0), double(-f64::EPSILON))));
    assert_eq!(row_numbers(&row("d", 1.0, f64::EPSILON / 2.0)), None);
    assert_eq!(row_numbers(&row("d", 1.0, -0.0)), None);
    assert_eq!(row_numbers(&Json::Null), None);
    let half = Json::Object(vec![("actualEarningResult".to_string(), number(1.0))]);
    assert_eq!(row_numbers(&half), None);
    let raw = Json::Array(vec![row("d", 1.0, 2.0), Json::Null]);
    assert_eq!(percent_inputs(&raw), vec![Some((double(1.0), double(2.0))), None]);
    assert!(percent_inputs(&Json::Bool(true)).is_empty());
}

#[test]
fn a_document_of_surprises_that_is_no_array_has_no_events() {
    let raw = row("2026-01-01", 1.0, 2.0);
    assert!(events_from_surprises(&raw, "A", Timestamp { secs: 0, nanos: 0 }, 5.0).is_empty());
}

#[test]
fn doubles_compare_as_numbers_do() {
    let samples = [
        f64::NEG_INFINITY, -5.0, -f64::MIN_POSITIVE, -0.0, 0.0, 1e-310, f64::EPSILON, 5.0,
        f64::MAX, f64::INFINITY, f64::NAN,
    ];
    for a in samples {
        for b in samples {
            assert_eq!(double(a).less_than(double(b)), a < b);
            assert_eq!(double(a).at_least(double(b)), a >= b);
        }
        assert_eq!(double(a).abs().bits, a.abs().to_bits());
    }
    assert_eq!(honeclaw::double::EPSILON, f64::EPSILON.to_bits());
    assert_eq!(honeclaw::double::FIVE, 5.0f64.to_bits());
    assert_eq!(honeclaw::double::ZERO, 0.0f64.to_bits());
    assert_eq!(honeclaw::double::INFINITY, f64::INFINITY.to_bits());
}

#[test]
fn surprise_poller_defaults_and_builder() {
    let client = FmpClient {
        api_key: "k".to_string(),
        api_keys: vec![],
        base_url: "b".to_string(),
        timeout: 30,
    };
    let registry = Arc::new(SharedRegistry { symbols: vec!["AAPL".to_string()] });
    let schedule = SourceSchedule::FixedInterval { secs: 60, nanos: 0 };
    let poller = EarningsSurprisePoller::new(client, registry, schedule);
    assert_eq!(poller.lookback_days, 3);
    assert_eq!(poller.high_threshold_pct, double(5.0));
    assert_eq!(poller.name(), "fmp.earnings_surprise");
    assert_eq!(poller.schedule(), schedule);
    assert_eq!(poller.fetch_path("NVDA"), "/v3/earnings-surprises/NVDA");
    assert_eq!(poller.poll().next_symbol(), Some("AAPL"));
    let poller = poller.with_lookback_days(90).with_high_threshold_pct(double(2.5));
    assert_eq!(poller.lookback_days, 90);
    let now = Timestamp { secs: 90 * 86400 + 7, nanos: 8 };
    assert_eq!(poller.cutoff(now), Some(Timestamp { secs: 7, nanos: 8 }));
    let cutoff = poller.cutoff_now().unwrap();
    assert!((ago(90).secs - cutoff.secs).abs() <= 5);
    let raw = Json::Array(vec![surprise(30, 2.06, 2.00)]);
    let events = poller.fetch(&raw, "AAPL", cutoff, &percents(&raw));
    assert_eq!(events[0].severity, Severity::High);
    assert!(poller.with_lookback_days(i64::MAX).cutoff_now().is_none());
}

#[test]
fn ids_tell_quarters_apart_and_stay() {
    let first = Json::Array(vec![row("2026-01-29", 2.30, 2.00), row("2026-04-30", 1.65, 1.62)]);
    let again = Json::Array(vec![row("2026-04-30", 1.70, 1.62)]);
    let long_ago = Timestamp { secs: 0, nanos: 0 };
    let april = Timestamp { secs: 1_775_001_600, nanos: 0 };
    let earlier = events_from_surprises(&first, "AAPL", long_ago, 5.0);
    let later = events_from_surprises(&again, "AAPL", april, 1.0);
    assert_eq!((earlier.len(), later.len()), (2, 1));
    assert_ne!(earlier[0].id, earlier[1].id);
    assert_eq!(earlier[1].id, later[0].id);
}

#[test]
fn a_later_cutoff_gives_less_of_the_same() {
    let raw = Json::Array(vec![
        row("1970-01-03", 2.30, 2.00),
        row("1970-01-05", 2.30, 2.00),
        row("1970-01-04", 2.30, 2.00),
    ]);
    let ids = |day: i64, nanos: u32| -> Vec<String> {
        let cutoff = Timestamp { secs: day * 86_400, nanos };
        let events = events_from_surprises(&raw, "A", cutoff, 5.0);
        events.into_iter().map(|e| e.id.replace("earnings_surprise:A:1970-01-", "")).collect()
    };
    assert_eq!(ids(2, 0), vec!["03", "05", "04"]);
    assert_eq!(ids(2, 1), vec!["05", "04"]);
    assert_eq!(ids(4, 0), vec!["05"]);
    assert!(ids(4, 1).is_empty());
}
