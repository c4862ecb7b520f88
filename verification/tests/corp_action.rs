use std::sync::Arc;

use honeclaw::clock::Date;
use honeclaw::clock::Timestamp;
use honeclaw::corp_action::accepted_at;
use honeclaw::corp_action::choose_moment;
use honeclaw::corp_action::events_from_dividends;
use honeclaw::corp_action::events_from_sec_filings;
use honeclaw::corp_action::events_from_splits;
use honeclaw::corp_action::filing_event;
use honeclaw::corp_action::filing_event_at;
use honeclaw::corp_action::keep_since;
use honeclaw::corp_action::parse_fmp_datetime;
use honeclaw::corp_action::row_day;
use honeclaw::corp_action::CorpActionCalendarPoller;
use honeclaw::corp_action::SecFilingsPoller;
use honeclaw::double::Double;
use honeclaw::event::EventKind;
use honeclaw::event::FmpClient;
use honeclaw::event::Severity;
use honeclaw::event::SourceSchedule;
use honeclaw::json::Json;
use honeclaw::json::JsonNumber;
use honeclaw::poll::SharedRegistry;
use honeclaw::poll::SymbolPoll;
use serde_json::Value;

fn json(value: &Value) -> Json {
    match value {
        Value::Null => Json::Null,
        Value::Bool(b) => Json::Bool(*b),
        Value::Number(n) => {
            let x: f64 = n.as_f64().unwrap();
            Json::Number(JsonNumber {
                literal: n.to_string(),
                value: Double { bits: x.to_bits() },
                shortest: format!("{x}"),
                two_places: format!("{x:.2}"),
                four_places: format!("{x:.4}"),
            })
        }
        Value::String(s) => Json::Text(s.clone()),
        Value::Array(items) => Json::Array(items.iter().map(json).collect()),
        Value::Object(members) => {
            Json::Object(members.iter().map(|(k, v)| (k.clone(), json(v))).collect())
        }
    }
}

fn document(text: &str) -> Json {
    json(&serde_json::from_str(text).unwrap())
}

fn client() -> FmpClient {
    FmpClient {
        api_key: "k".to_string(),
        api_keys: vec![],
        base_url: "https://financialmodelingprep.com/api".to_string(),
        timeout: 30,
    }
}

const EVERY_MINUTE: SourceSchedule = SourceSchedule::FixedInterval { secs: 60, nanos: 0 };

fn registry(symbols: &[&str]) -> Arc<SharedRegistry> {
    Arc::new(SharedRegistry { symbols: symbols.iter().map(|s| s.to_string()).collect() })
}

#[test]
fn parses_splits() {
    let raw = document(
        r#"[{"date": "2026-05-01", "symbol": "AAPL", "numerator": 4.0, "denominator": 1.0}]"#,
    );
    let events = events_from_splits(&raw);
    assert_eq!(events.len(), 1);
    assert_eq!(events[0].id, "split:AAPL:2026-05-01");
    assert!(events[0].summary.contains("4-for-1"));
    assert_eq!(events[0].severity, Severity::Medium);
}

#[test]
fn parses_dividends() {
    let raw = document(r#"[{"date": "2026-05-10", "symbol": "MSFT", "dividend": 0.75}]"#);
    let events = events_from_dividends(&raw);
    assert_eq!(events.len(), 1);
    assert_eq!(events[0].id, "div:MSFT:2026-05-10");
    assert!(events[0].summary.contains("0.7500"));
}

#[test]
fn sec_8k_maps_to_high_severity() {
    let raw = document(
        r#"[{
            "symbol": "TSLA",
            "type": "8-K",
            "fillingDate": "2026-04-20",
            "acceptedDate": "2026-04-20 16:01:00",
            "finalLink": "https://sec.gov/x/y/z.htm"
        }]"#,
    );
    let events = events_from_sec_filings(&raw, "TSLA");
    assert_eq!(events.len(), 1);
    assert_eq!(events[0].severity, Severity::High);
    match &events[0].kind {
        EventKind::SecFiling { form } => assert_eq!(form, "8-K"),
        _ => panic!("expected SecFiling kind"),
    }
    assert!(events[0].id.starts_with("sec:TSLA:"));
}

#[test]
fn sec_10q_is_medium() {
    let raw = document(
        r#"[{
            "symbol": "TSLA",
            "type": "10-Q",
            "fillingDate": "2026-04-20",
            "finalLink": "https://sec.gov/q.htm"
        }]"#,
    );
    let events = events_from_sec_filings(&raw, "TSLA");
    assert_eq!(events[0].severity, Severity::Medium);
}

#[test]
fn skips_missing_required_fields() {
    let splits = events_from_splits(&document(
        r#"[
            {"symbol": "AAPL"},
            {"date": "2026-05-01"}
        ]"#,
    ));
    assert!(splits.is_empty());
}

#[test]
fn split_event_in_full() {
    let events = events_from_splits(&document(
        r#"[
            {"date": "not a day", "symbol": "A"},
            {"date": "1970-01-03", "symbol": "B", "numerator": 3, "denominator": 2},
            {"date": "2026-02-30", "symbol": "C"}
        ]"#,
    ));
    assert_eq!(events.len(), 1);
    let event = &events[0];
    assert_eq!(event.id, "split:B:1970-01-03");
    assert!(matches!(event.kind, EventKind::Split));
    assert_eq!(event.symbols, vec!["B".to_string()]);
    assert_eq!(event.occurred_at, Timestamp { secs: 172800, nanos: 0 });
    assert_eq!(event.title, "B stock split on 1970-01-03");
    assert_eq!(event.summary, "3-for-2");
    assert!(event.url.is_none());
    assert_eq!(event.source, "fmp.stock_split_calendar");
    assert!(matches!(event.payload.get("numerator"), Some(Json::Number(_))));
    assert!(event.payload.get("ratio").is_none());
}

#[test]
fn split_without_a_positive_denominator_has_no_ratio() {
    let events = events_from_splits(&document(
        r#"[
            {"date": "2026-05-01", "symbol": "A", "numerator": 4, "denominator": 0},
            {"date": "2026-05-01", "symbol": "B", "numerator": 4, "denominator": -0.0},
            {"date": "2026-05-01", "symbol": "C", "numerator": 4, "denominator": -2},
            {"date": "2026-05-01", "symbol": "D", "numerator": 4},
            {"date": "2026-05-01", "symbol": "E", "numerator": "4", "denominator": 1},
            {"date": "2026-05-01", "symbol": "F", "numerator": 1, "denominator": 0.5}
        ]"#,
    ));
    let summaries: Vec<&str> = events.iter().map(|e| e.summary.as_str()).collect();
    assert_eq!(summaries, vec!["", "", "", "", "", "1-for-0.5"]);
}

#[test]
fn dividend_event_in_full() {
    let events = events_from_dividends(&document(
        r#"[
            {"date": "2026-05-10", "symbol": "MSFT", "dividend": 0.75},
            {"date": "2026-05-11", "symbol": "KO"},
            {"date": 20260512, "symbol": "PEP"}
        ]"#,
    ));
    assert_eq!(events.len(), 2);
    assert_eq!(events[0].summary, "股息 0.7500");
    assert_eq!(events[0].title, "MSFT dividend ex-date 2026-05-10");
    assert_eq!(events[0].source, "fmp.stock_dividend_calendar");
    assert!(matches!(events[0].kind, EventKind::Dividend));
    assert_eq!(events[0].severity, Severity::Medium);
    assert_eq!(events[1].id, "div:KO:2026-05-11");
    assert_eq!(events[1].summary, "");
}

#[test]
fn a_document_that_is_no_array_has_no_events() {
    for text in [r#"{"symbol": "A", "date": "2026-05-01"}"#, "null", "3", "\"x\"", "true"] {
        let raw = document(text);
        assert!(events_from_splits(&raw).is_empty());
        assert!(events_from_dividends(&raw).is_empty());
        assert!(events_from_sec_filings(&raw, "A").is_empty());
    }
}

#[test]
fn filing_event_in_full() {
    let raw = document(
        r#"[{
            "type": "8-K",
            "fillingDate": "2026-04-20",
            "acceptedDate": "2026-04-20 16:01:00",
            "link": "https://sec.gov/index.htm",
            "finalLink": "https://sec.gov/x.htm"
        }]"#,
    );
    let event = &events_from_sec_filings(&raw, "TSLA")[0];
    assert_eq!(event.id, "sec:TSLA:https://sec.gov/x.htm");
    assert_eq!(event.title, "TSLA filed 8-K");
    assert_eq!(event.summary, "2026-04-20");
    assert_eq!(event.url.as_deref(), Some("https://sec.gov/x.htm"));
    assert_eq!(event.source, "fmp.sec_filings");
    assert_eq!(event.symbols, vec!["TSLA".to_string()]);
    assert_eq!(event.occurred_at, Timestamp { secs: 1776700860, nanos: 0 });
}

#[test]
fn filing_falls_back_on_link_and_filing_day() {
    let raw = document(
        r#"[
            {"fillingDate": "2026-04-20", "link": "l"},
            {"fillingDate": "2026-04-20", "finalLink": 5, "link": "m"},
            {"fillingDate": "2026-04-20", "finalLink": "", "link": "n"},
            {"fillingDate": "2026-04-20"}
        ]"#,
    );
    let events = events_from_sec_filings(&raw, "T");
    let ids: Vec<&str> = events.iter().map(|e| e.id.as_str()).collect();
    assert_eq!(ids, vec!["sec:T:l", "sec:T:m"]);
    assert_eq!(events[0].title, "T filed ");
    assert_eq!(events[0].severity, Severity::Medium);
    assert_eq!(events[0].occurred_at, Timestamp { secs: 1776643200, nanos: 0 });
}

#[test]
fn filing_without_a_time_occurs_now_and_keeps_its_id() {
    let raw = document(r#"[{"type": "8-K", "finalLink": "x", "acceptedDate": "soon"}]"#);
    let before = chrono::Utc::now().timestamp();
    let first = events_from_sec_filings(&raw, "T");
    let second = events_from_sec_filings(&raw, "T");
    let after = chrono::Utc::now().timestamp();
    assert!(before <= first[0].occurred_at.secs && first[0].occurred_at.secs <= after);
    assert_eq!(first[0].id, second[0].id);
}

#[test]
fn filings_occur_when_they_were_accepted_or_now() {
    let now = Timestamp { secs: 1_000, nanos: 7 };
    let at = |row: &str| filing_event_at(&document(row), "T", now).map(|e| e.occurred_at);
    assert_eq!(
        at(r#"{"link": "l", "fillingDate": "1970-01-03", "acceptedDate": "1970-01-02 00:00:01"}"#),
        Some(Timestamp { secs: 86_401, nanos: 0 }),
    );
    assert_eq!(
        at(r#"{"link": "l", "fillingDate": "1970-01-03"}"#),
        Some(Timestamp { secs: 172_800, nanos: 0 }),
    );
    assert_eq!(at(r#"{"link": "l", "fillingDate": "1970-01-03", "acceptedDate": ""}"#), Some(now));
    assert_eq!(at(r#"{"link": "l"}"#), Some(now));
    assert_eq!(at(r#"{"acceptedDate": "1970-01-02"}"#), None);
}

#[test]
fn moments_are_read_with_and_without_a_time() {
    assert_eq!(
        parse_fmp_datetime("1970-01-02 00:00:01"),
        Some(Timestamp { secs: 86401, nanos: 0 }),
    );
    assert_eq!(parse_fmp_datetime("1970-01-02"), Some(Timestamp { secs: 86400, nanos: 0 }));
    assert_eq!(parse_fmp_datetime("1969-12-31"), Some(Timestamp { secs: -86400, nanos: 0 }));
    assert_eq!(parse_fmp_datetime(""), None);
    assert_eq!(parse_fmp_datetime("soon"), None);
    assert_eq!(parse_fmp_datetime("1970-01-02T00:00:01"), None);
    assert_eq!(
        parse_fmp_datetime("2016-12-31 23:59:60"),
        Some(Timestamp { secs: 1483228799, nanos: 1_000_000_000 }),
    );
}

#[test]
fn a_moment_goes_before_a_day() {
    let moment = Timestamp { secs: 5, nanos: 6 };
    let day = Date { year: 1970, month: 1, day: 2 };
    assert_eq!(choose_moment(Some(moment), Some(day)), Some(moment));
    assert_eq!(choose_moment(None, Some(day)), Some(Timestamp { secs: 86400, nanos: 0 }));
    assert_eq!(choose_moment(None, None), None);
}

#[test]
fn the_day_of_a_row_is_read() {
    let row = document(r#"{"date": "2024-02-29"}"#);
    assert_eq!(row_day(&row), Some(Date { year: 2024, month: 2, day: 29 }));
    assert_eq!(row_day(&document(r#"{"date": "2023-02-29"}"#)), None);
    assert_eq!(row_day(&document(r#"{"day": "2024-02-29"}"#)), None);
    assert_eq!(row_day(&document(r#"{"date": ""}"#)), None);
    assert_eq!(row_day(&document(r#"{"date": "tomorrow"}"#)), None);
}

#[test]
fn the_window_keeps_what_is_recent() {
    let row = document(r#"{"finalLink": "x"}"#);
    let at = |secs: i64, nanos: u32| filing_event(&row, "T", Timestamp { secs, nanos }).unwrap();
    let events = vec![at(99, 9), at(100, 4), at(100, 5), at(101, 0), at(7, 0)];
    let recent = keep_since(events, Timestamp { secs: 100, nanos: 5 });
    let kept: Vec<(i64, u32)> =
        recent.iter().map(|e| (e.occurred_at.secs, e.occurred_at.nanos)).collect();
    assert_eq!(kept, vec![(100, 5), (101, 0)]);
}

#[test]
fn calendar_poller_defaults_and_builder() {
    let poller = CorpActionCalendarPoller::new(client(), EVERY_MINUTE);
    assert_eq!(poller.window_days, 30);
    assert_eq!(poller.name(), "fmp.corp_action");
    assert_eq!(poller.schedule(), EVERY_MINUTE);
    let poller = poller.with_window_days(7);
    assert_eq!(poller.window_days, 7);
    assert_eq!(poller.client.timeout, 30);
}

#[test]
fn calendar_paths_span_the_window() {
    let poller = CorpActionCalendarPoller::new(client(), EVERY_MINUTE);
    let paths = poller.paths_on(Date { year: 2026, month: 12, day: 15 });
    assert_eq!(paths.splits, "/stable/stock_split_calendar?from=2026-12-15&to=2027-01-14");
    assert_eq!(paths.dividends, "/stable/stock_dividend_calendar?from=2026-12-15&to=2027-01-14");
    let back = poller.with_window_days(-15).paths_on(Date { year: 900, month: 3, day: 1 });
    assert_eq!(back.splits, "/stable/stock_split_calendar?from=0900-03-01&to=0900-02-14");
}

#[test]
fn calendar_paths_follow_the_clock() {
    let poller = CorpActionCalendarPoller::new(client(), EVERY_MINUTE).with_window_days(1);
    let paths = poller.paths_at(Timestamp { secs: 86399, nanos: 0 }).unwrap();
    assert_eq!(paths.splits, "/stable/stock_split_calendar?from=1970-01-01&to=1970-01-02");
    let today = chrono::Utc::now().format("%Y-%m-%d").to_string();
    assert!(poller.poll_paths().unwrap().dividends.contains(&today[..7]));
    let far = CorpActionCalendarPoller::new(client(), EVERY_MINUTE).with_window_days(i64::MAX);
    assert!(far.poll_paths().is_none());
    let early = CorpActionCalendarPoller::new(client(), EVERY_MINUTE).with_window_days(i64::MIN);
    assert!(early.poll_paths().is_none());
}

#[test]
fn a_calendar_that_failed_leaves_the_other_alone() {
    let splits = document(r#"[{"date": "2026-05-01", "symbol": "A"}]"#);
    let dividends = document(r#"[{"date": "2026-05-01", "symbol": "B"}]"#);
    let ids = |s: Option<&Json>, d: Option<&Json>| -> Vec<String> {
        CorpActionCalendarPoller::poll_events(s, d).into_iter().map(|e| e.id).collect()
    };
    assert_eq!(
        ids(Some(&splits), Some(&dividends)),
        vec!["split:A:2026-05-01".to_string(), "div:B:2026-05-01".to_string()],
    );
    assert_eq!(ids(Some(&splits), None), vec!["split:A:2026-05-01".to_string()]);
    assert_eq!(ids(None, Some(&dividends)), vec!["div:B:2026-05-01".to_string()]);
    assert!(ids(None, None).is_empty());
}

#[test]
fn sec_poller_defaults_and_builder() {
    let poller = SecFilingsPoller::new(client(), registry(&["A"]), EVERY_MINUTE);
    assert_eq!(poller.sec_recent_hours, 48);
    assert_eq!(poller.name(), "fmp.sec_filings");
    assert_eq!(poller.schedule(), EVERY_MINUTE);
    assert_eq!(poller.fetch_path("TSLA"), "/stable/sec_filings/TSLA?type=8-K&page=0");
    let poller = poller.with_sec_recent_hours(2);
    let now = Timestamp { secs: 10_000, nanos: 3 };
    assert_eq!(poller.cutoff(now), Some(Timestamp { secs: 2_800, nanos: 3 }));
    assert_eq!(poller.with_sec_recent_hours(i64::MAX).cutoff(now), None);
}

#[test]
fn sec_fetch_keeps_the_last_hours() {
    let now = chrono::Utc::now();
    let stamp = |hours: i64| {
        (now - chrono::Duration::hours(hours)).format("%Y-%m-%d %H:%M:%S").to_string()
    };
    let raw = document(&format!(
        r#"[
            {{"type": "8-K", "finalLink": "old", "acceptedDate": "{}"}},
            {{"type": "8-K", "finalLink": "new", "acceptedDate": "{}"}}
        ]"#,
        stamp(50),
        stamp(46),
    ));
    let poller = SecFilingsPoller::new(client(), registry(&["T"]), EVERY_MINUTE);
    let events = poller.fetch(&raw, "T").unwrap();
    assert_eq!(events.len(), 1);
    assert_eq!(events[0].id, "sec:T:new");
    assert!(poller.with_sec_recent_hours(i64::MIN).fetch(&raw, "T").is_none());
}

#[test]
fn sec_fetch_keeps_the_hours_before_a_moment() {
    let raw = document(
        r#"[
            {"finalLink": "a", "acceptedDate": "2026-04-18 15:59:59"},
            {"finalLink": "b", "acceptedDate": "2026-04-18 16:00:00"},
            {"finalLink": "c", "acceptedDate": "2026-04-18 16:00:01"},
            {"finalLink": "d", "acceptedDate": "2026-04-20"},
            {"finalLink": "e", "acceptedDate": "2026-04-01"}
        ]"#,
    );
    // 2026-04-20 16:00:00, so that the window starts on 2026-04-18 at that time.
    let now = |nanos: u32| Timestamp { secs: 1_776_700_800, nanos };
    let poller = SecFilingsPoller::new(client(), registry(&["T"]), EVERY_MINUTE);
    let ids = |now: Timestamp| -> Vec<String> {
        poller.fetch_at(&raw, "T", now).unwrap().into_iter().map(|e| e.id).collect()
    };
    assert_eq!(ids(now(0)), vec!["sec:T:b", "sec:T:c", "sec:T:d"]);
    assert_eq!(ids(now(1)), vec!["sec:T:c", "sec:T:d"]);
    assert!(poller.with_sec_recent_hours(i64::MAX).fetch_at(&raw, "T", now(0)).is_none());
}

#[test]
fn a_round_asks_for_each_symbol_and_survives_failures() {
    let poller = SecFilingsPoller::new(client(), registry(&["A", "B", "C"]), EVERY_MINUTE);
    let row = document(r#"{"finalLink": "x"}"#);
    let at = Timestamp { secs: 1, nanos: 0 };
    let mut round = poller.poll();
    assert_eq!(round.next_symbol(), Some("A"));
    round.take_reply(Some(vec![filing_event(&row, "A", at).unwrap()]));
    assert_eq!(round.next_symbol(), Some("B"));
    round.take_reply(None);
    assert_eq!(round.next_symbol(), Some("C"));
    round.take_reply(Some(vec![filing_event(&row, "C", at).unwrap()]));
    assert_eq!(round.next_symbol(), None);
    let ids: Vec<String> = round.finish().into_iter().map(|e| e.id).collect();
    assert_eq!(ids, vec!["sec:A:x".to_string(), "sec:C:x".to_string()]);
}

#[test]
fn a_round_over_nothing_asks_for_nothing() {
    let round = SymbolPoll::start(vec![]);
    assert_eq!(round.next_symbol(), None);
    assert!(round.finish().is_empty());
    assert_eq!(registry(&["A", "B"]).watch_pool(), vec!["A".to_string(), "B".to_string()]);
}

#[test]
fn rows_tell_when_filings_were_accepted() {
    let at = |row: &str| accepted_at(&document(row));
    let start = Some(Timestamp { secs: 86_400, nanos: 0 });
    assert_eq!(at(r#"{"acceptedDate": "1970-01-02"}"#), start);
    assert_eq!(at(r#"{"fillingDate": "1970-01-02"}"#), start);
    assert_eq!(at(r#"{"acceptedDate": "soon", "fillingDate": "1970-01-02"}"#), None);
    assert_eq!(at("{}"), None);
}

#[test]
fn calendars_of_two_documents_join() {
    let both = document(
        r#"[{"date": "2026-05-01", "symbol": "A"}, {"symbol": "B"},
            {"date": "2026-05-02", "symbol": "C"}]"#,
    );
    let first = document(r#"[{"date": "2026-05-01", "symbol": "A"}]"#);
    let second = document(r#"[{"symbol": "B"}, {"date": "2026-05-02", "symbol": "C"}]"#);
    let ids = |raw: &Json| -> Vec<String> {
        let mut events = events_from_splits(raw);
        events.extend(events_from_dividends(raw));
        events.into_iter().map(|e| e.id).collect()
    };
    let mut joined = ids(&first);
    joined.extend(ids(&second));
    joined.sort();
    let mut whole = ids(&both);
    whole.sort();
    assert_eq!(whole, joined);
    assert_eq!(whole.len(), 4);
}

#[test]
fn a_filing_keeps_its_id_in_another_document() {
    let first = document(r#"[{"link": "x", "type": "8-K"}, {"link": "y"}]"#);
    let second = document(r#"[{"finalLink": "x", "link": "z"}]"#);
    let a = events_from_sec_filings(&first, "T");
    let b = events_from_sec_filings(&second, "T");
    assert_eq!(a[0].id, b[0].id);
    assert_ne!(a[1].id, b[0].id);
}

#[test]
fn a_later_window_keeps_less_of_the_same() {
    let row = document(r#"{"finalLink": "x"}"#);
    let events = || -> Vec<_> {
        [3, 9, 5, 7]
            .iter()
            .map(|s| filing_event(&row, "T", Timestamp { secs: *s, nanos: 0 }).unwrap())
            .collect()
    };
    let at = |secs: i64| Timestamp { secs, nanos: 0 };
    let seconds = |events: Vec<honeclaw::event::MarketEvent>| -> Vec<i64> {
        events.iter().map(|e| e.occurred_at.secs).collect()
    };
    assert_eq!(seconds(keep_since(events(), at(6))), vec![9, 7]);
    assert_eq!(seconds(keep_since(keep_since(events(), at(4)), at(6))), vec![9, 7]);
}
