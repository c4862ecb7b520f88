use honeclaw::clock::can_reach;
use honeclaw::clock::checked_before;
use honeclaw::clock::Date;
use honeclaw::clock::Timestamp;
use honeclaw::clock::DAY_SECONDS;
use honeclaw::clock::EPOCH_DAY;
use honeclaw::clock::FIRST_DAY;
use honeclaw::clock::FIRST_SECOND;
use honeclaw::clock::LAST_DAY;
use honeclaw::clock::LAST_SECOND;
use honeclaw::json::Json;
use honeclaw::text::after_prefix;
use honeclaw::text::clip;
use honeclaw::text::decimal;
use honeclaw::text::first_line;
use honeclaw::text::prefix;
use honeclaw::text::strip_hashes;
use honeclaw::text::trim;

#[test]
fn trimming_agrees_with_the_standard_library() {
    for c in ('\0'..='\u{ffff}').chain('\u{1f600}'..='\u{1f610}') {
        let s = format!("{c}a{c}b{c}");
        assert_eq!(trim(&s), s.trim(), "{:x}", c as u32);
    }
    assert_eq!(trim(""), "");
    assert_eq!(trim(" \t\n "), "");
}

#[test]
fn first_lines_agree_with_the_standard_library() {
    for s in ["", "a", "a\nb", "a\r\nb", "a\rb\n", "a\r", "\n", "\r\n", "\r\r\n", "线\n"] {
        assert_eq!(first_line(s), s.lines().next().unwrap_or(""));
    }
    assert_eq!(strip_hashes("## # a#"), " # a#");
    assert_eq!(strip_hashes("###"), "");
    assert_eq!(strip_hashes("a"), "a");
}

#[test]
fn starts_of_texts() {
    assert_eq!(prefix("画像", 1), "画");
    assert_eq!(prefix("画像", 2), "画像");
    assert_eq!(prefix("画像", 3), "画像");
    assert_eq!(prefix("画像", 0), "");
    assert_eq!(clip("画像", 6), "画像");
    assert_eq!(clip("画像", 5), "画");
    assert_eq!(clip("画像", 2), "");
    assert_eq!(clip("a😀", 4), "a");
    assert_eq!(clip("", 0), "");
}

#[test]
fn prefixes_agree_with_the_standard_library() {
    for s in ["", "a", "日志.x", "日志", "x日志.", "日志.日志."] {
        for prefix in ["", "a", "日志.", "x"] {
            assert_eq!(after_prefix(s, prefix), s.strip_prefix(prefix));
        }
    }
}

#[test]
fn numerals_agree_with_the_standard_library() {
    for n in [0, 1, 9, 10, 99, 100, 1204, u64::MAX] {
        assert_eq!(decimal(n), n.to_string());
    }
}

#[test]
fn limits_are_those_of_chrono() {
    let first = chrono::DateTime::<chrono::Utc>::MIN_UTC;
    let last = chrono::DateTime::<chrono::Utc>::MAX_UTC;
    assert_eq!(FIRST_SECOND, first.timestamp());
    assert_eq!(LAST_SECOND, last.timestamp());
    assert_eq!(FIRST_DAY, FIRST_SECOND.div_euclid(DAY_SECONDS) + EPOCH_DAY);
    assert_eq!(LAST_DAY, LAST_SECOND.div_euclid(DAY_SECONDS) + EPOCH_DAY);
    assert!(can_reach(LAST_DAY - 1, 1));
    assert!(!can_reach(LAST_DAY, 1));
    assert!(can_reach(FIRST_DAY + 1, -1));
    assert!(!can_reach(FIRST_DAY, -1));
}

#[test]
fn moments_go_back_as_far_as_chrono_does() {
    let at = |secs: i64| Timestamp { secs, nanos: 7 };
    assert_eq!(checked_before(at(100), 2, 60), Some(at(-20)));
    assert_eq!(checked_before(at(100), -2, 60), Some(at(220)));
    assert_eq!(checked_before(at(FIRST_SECOND + 1), 1, 1), Some(at(FIRST_SECOND)));
    assert_eq!(checked_before(at(FIRST_SECOND), 1, 1), None);
    assert_eq!(checked_before(at(LAST_SECOND), -1, 1), None);
    assert_eq!(checked_before(at(0), i64::MIN, DAY_SECONDS), None);
}

#[test]
fn days_and_moments_are_ordered() {
    let day = |year: i32, month: u32, day: u32| Date { year, month, day };
    assert!(day(2025, 12, 31).is_before(day(2026, 1, 1)));
    assert!(day(2026, 1, 31).is_before(day(2026, 2, 1)));
    assert!(day(2026, 2, 1).is_before(day(2026, 2, 2)));
    assert!(!day(2026, 2, 2).is_before(day(2026, 2, 2)));
    assert!(!day(2026, 2, 2).is_before(day(2026, 1, 3)));
    let early = Timestamp { secs: 1, nanos: 5 };
    assert!(early.is_before(Timestamp { secs: 1, nanos: 6 }));
    assert!(early.is_before(Timestamp { secs: 2, nanos: 0 }));
    assert!(!early.is_before(early));
}

#[test]
fn members_are_found_by_their_names() {
    let document = Json::Object(vec![
        ("a".to_string(), Json::Text("x".to_string())),
        ("b".to_string(), Json::Array(vec![Json::Bool(true), Json::Null])),
    ]);
    assert_eq!(document.get_text("a"), Some("x"));
    assert_eq!(document.get_text("b"), None);
    assert_eq!(document.get_text("c"), None);
    assert!(document.get_number("a").is_none());
    assert!(document.as_array().is_none());
    assert_eq!(document.get("b").unwrap().as_array().unwrap().len(), 2);
    assert!(Json::Null.get("a").is_none());
    assert_eq!(format!("{:?}", document.duplicate()), format!("{document:?}"));
}
