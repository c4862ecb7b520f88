use chrono::Datelike;
use honeclaw::clock::Date;
use honeclaw::clock::Timestamp;
use honeclaw::logs::active_log;
use honeclaw::logs::is_expired;
use honeclaw::logs::is_outdated;
use honeclaw::logs::lag_line;
use honeclaw::logs::local_day;
use honeclaw::logs::local_today;
use honeclaw::logs::log_line;
use honeclaw::logs::rotation;
use honeclaw::logs::sweep;

fn day(year: i32, month: u32, day: u32) -> Date {
    Date { year, month, day }
}

#[test]
fn a_log_of_an_earlier_day_is_put_aside() {
    let today = day(2026, 3, 1);
    assert_eq!(
        rotation(day(2026, 2, 28), today).as_deref(),
        Some("acp-events.log.2026-02-28"),
    );
    assert_eq!(rotation(day(2025, 12, 31), today).as_deref(), Some("acp-events.log.2025-12-31"));
    assert_eq!(rotation(today, today), None);
    assert_eq!(rotation(day(2026, 3, 2), today), None);
    assert_eq!(active_log(), "acp-events.log");
}

#[test]
fn logs_are_kept_for_fifteen_days() {
    let today = day(2026, 3, 16);
    assert!(!is_expired("acp-events.log.2026-03-01", today));
    assert!(is_expired("acp-events.log.2026-02-28", today));
    assert!(is_expired("acp-events.log.2024-02-29", today));
    assert!(!is_expired("acp-events.log.2023-02-29", today));
    assert!(!is_expired("acp-events.log.2024-02-29.gz", today));
    assert!(!is_expired("acp-events.log.old", today));
    assert!(!is_expired("acp-events.log.", today));
    assert!(!is_expired("acp-events.log", today));
    assert!(is_outdated(Some(day(2026, 2, 28)), today));
    assert!(!is_outdated(Some(day(2026, 3, 1)), today));
    assert!(!is_outdated(None, today));
}

#[test]
fn other_files_are_left_alone() {
    let today = day(2026, 5, 20);
    for name in [
        "backup.2020-01-01",
        "web.log.2024-02-29",
        "2024.2024-02-29",
        "2024-02-29",
        "acp-events.log-2020-01-01",
        "old.acp-events.log.2020-01-01",
        "",
    ] {
        assert!(!is_expired(name, today), "{name}");
        assert!(sweep(&vec![name.to_string()], today).is_empty(), "{name}");
    }
}

#[test]
fn only_expired_files_are_swept() {
    let names: Vec<String> = [
        "acp-events.log",
        "acp-events.log.2026-01-01",
        "web.log.2026-01-01",
        "acp-events.log.2026-03-15",
        "acp-events.log.2025-03-15",
    ]
    .iter()
    .map(|s| s.to_string())
    .collect();
    assert_eq!(
        sweep(&names, day(2026, 3, 16)),
        vec!["acp-events.log.2026-01-01".to_string(), "acp-events.log.2025-03-15".to_string()],
    );
}

#[test]
fn lines_show_the_level_in_five_columns() {
    assert_eq!(log_line("12:00", "INFO", "m"), "[12:00] INFO  m\n");
    assert_eq!(log_line("t", "ERROR", "m"), "[t] ERROR m\n");
    assert_eq!(log_line("t", "CRITICAL", ""), "[t] CRITICAL \n");
    assert_eq!(log_line("", "", "x"), "[]       x\n");
    assert_eq!(log_line("t", "警告", "m"), format!("[t] {:<5} m\n", "警告"));
    assert_eq!(lag_line(17), "[WARN ] 日志追赶：跳过 17 条\n");
}

#[test]
fn local_days_are_those_of_the_machine() {
    let now = chrono::Utc::now();
    let expected = now.with_timezone(&chrono::Local).date_naive();
    let at = Timestamp { secs: now.timestamp(), nanos: now.timestamp_subsec_nanos() };
    assert_eq!(
        local_day(at),
        Some(Date { year: expected.year(), month: expected.month(), day: expected.day() }),
    );
    assert!(local_today().is_some());
    assert_eq!(local_day(Timestamp { secs: 8210266876799, nanos: 0 }), None);
    assert_eq!(local_day(Timestamp { secs: -8334601228800, nanos: 0 }), None);
}
