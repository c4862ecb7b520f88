//! The log files of the server.
//!
//! The log of the agent protocol is written to one file. A file that was last written
//! on an earlier day is put aside under a name that ends with that day, and what was put
//! aside is deleted once its day lies more than fifteen days back. No other file is
//! touched.

use vstd::prelude::*;
use vstd::string::StrSliceExecFns;
use vstd::string::StringExecFns;

use crate::clock;
use crate::clock::Date;
use crate::clock::Timestamp;
use crate::clock::DAY_SECONDS;
use crate::clock::EPOCH_DAY;
use crate::event;
use crate::text;

verus! {

/// How many days a log file is kept.
pub const RETENTION_DAYS: i64 = 15;

/// The name of the file that the log of the agent protocol is written to.
pub fn active_log() -> (name: &'static str)
    ensures
        name@ == "acp-events.log"@,
{
    "acp-events.log"
}

/// Whether local time at that second can be had on any machine.
pub open spec fn locatable(secs: int) -> bool {
    clock::representable(secs - DAY_SECONDS) && clock::representable(secs + DAY_SECONDS)
}

/// The local day of the moment, which lies at most a day from the day in UTC; none if the
/// moment lies within a day of the ends of the calendar.
pub fn local_day(at: Timestamp) -> (day: Option<Date>)
    requires
        at.regular(),
    ensures
        day is Some <==> locatable(at.secs as int),
        day matches Some(d) ==> d.valid() && -1 <= d.number() - (at.secs as int
            / DAY_SECONDS as int + EPOCH_DAY) <= 1,
{
    if clock::checked_before(at, 1, DAY_SECONDS).is_some() && clock::checked_before(
        at,
        -1,
        DAY_SECONDS,
    ).is_some() {
        Some(clock::local_date(at))
    } else {
        None
    }
}

/// The local day at the moment of the call; none at the ends of the calendar.
pub fn local_today() -> (day: Option<Date>)
    ensures
        exists|now: Timestamp| #[trigger]
            now.regular() && now.secs >= 0 && (day is Some <==> locatable(now.secs as int)) && (
            day matches Some(d) ==> -1 <= d.number() - (now.secs as int / DAY_SECONDS as int
                + EPOCH_DAY) <= 1),
        day matches Some(d) ==> d.valid(),
{
    let now = clock::utc_now();
    local_day(now)
}

/// The name under which a log that was last written on the day is put aside.
pub open spec fn archive_of(day: Date) -> Seq<char> {
    "acp-events.log."@ + day.text()
}

/// The name under which the log is put aside today if it was last written on the day
/// `modified`; none if it stays where it is.
pub fn rotation(modified: Date, today: Date) -> (target: Option<String>)
    requires
        modified.valid(),
        today.valid(),
    ensures
        target is Some <==> modified.number() < today.number(),
        target matches Some(name) ==> name@ == archive_of(modified),
{
    proof {
        clock::law_numbers_follow_the_calendar(modified, today);
    }
    if modified.is_before(today) {
        let day = clock::format_date(modified, "%Y-%m-%d");
        Some(text::concat2("acp-events.log.", day.as_str()))
    } else {
        None
    }
}

/// Whether a log of the day is deleted today. A file whose name gives no day is kept.
pub open spec fn outdated(day: Option<Date>, today: Date) -> bool {
    day matches Some(d) && d.number() < today.number() - RETENTION_DAYS
}

/// The day that a file with the name was put aside for; none if the name is not that of a
/// log that was put aside.
pub open spec fn day_of_name(name: Seq<char>) -> Option<Date> {
    if "acp-events.log."@.is_prefix_of(name) {
        clock::parsed_date(name.skip("acp-events.log."@.len() as int), "%Y-%m-%d"@)
    } else {
        None
    }
}

/// Whether a log of the day is deleted today. A file whose name gives no day is kept.
pub fn is_outdated(day: Option<Date>, today: Date) -> (yes: bool)
    requires
        day matches Some(d) ==> d.valid(),
        today.valid(),
        clock::day_fits(today.number(), -RETENTION_DAYS),
    ensures
        yes == outdated(day, today),
{
    let cutoff = clock::days_after(today, -RETENTION_DAYS);
    match day {
        Some(d) => {
            proof {
                clock::law_numbers_follow_the_calendar(d, cutoff);
            }
            d.is_before(cutoff)
        },
        None => false,
    }
}

proof fn lemma_archive_gives_its_day(day: Date)
    ensures
        "acp-events.log."@.is_prefix_of(archive_of(day)),
        archive_of(day).skip("acp-events.log."@.len() as int) == day.text(),
{
    assert(archive_of(day).skip("acp-events.log."@.len() as int) =~= day.text());
}

/// Whether the file with the name is deleted today. A log that was put aside is deleted
/// if and only if its day lies more than fifteen days back. A file is kept if its name is
/// not that of a log that was put aside, or has no digit where the day would stand.
pub fn is_expired(name: &str, today: Date) -> (yes: bool)
    requires
        today.valid(),
        clock::day_fits(today.number(), -RETENTION_DAYS),
    ensures
        yes == outdated(day_of_name(name@), today),
        forall|d: Date|
            d.valid() && name@ == #[trigger] archive_of(d) ==> yes == (today.number() - d.number()
                > RETENTION_DAYS),
        !"acp-events.log."@.is_prefix_of(name@) ==> !yes,
        text::digitless(name@.skip("acp-events.log."@.len() as int)) ==> !yes,
{
    proof {
        assert forall|d: Date| name@ == #[trigger] archive_of(d) implies
            "acp-events.log."@.is_prefix_of(name@) && name@.skip("acp-events.log."@.len() as int)
            == d.text() by {
            lemma_archive_gives_its_day(d);
        }
    }
    let day = match text::after_prefix(name, "acp-events.log.") {
        Some(rest) => clock::parse_date(rest, "%Y-%m-%d"),
        None => None,
    };
    is_outdated(day, today)
}

/// The names of those files that are deleted today.
pub open spec fn expired_names(names: Seq<Seq<char>>, today: Date) -> Seq<Seq<char>> {
    names.filter(|name: Seq<char>| outdated(day_of_name(name), today))
}

/// The names of those files that are deleted today, in their order.
pub fn sweep(names: &Vec<String>, today: Date) -> (expired: Vec<String>)
    requires
        today.valid(),
        clock::day_fits(today.number(), -RETENTION_DAYS),
    ensures
        event::texts_of(expired@) == expired_names(event::texts_of(names@), today),
        forall|d: Date|
            d.valid() && event::texts_of(names@).contains(#[trigger] archive_of(d)) ==> (
            event::texts_of(expired@).contains(archive_of(d)) <==> today.number() - d.number()
                > RETENTION_DAYS),
{
    let mut expired: Vec<String> = Vec::new();
    let ghost views = event::texts_of(names@);
    let ghost gone = |name: Seq<char>| outdated(day_of_name(name), today);
    assert(views.take(0) =~= Seq::empty());
    reveal(Seq::filter);
    let mut i: usize = 0;
    while i < names.len()
        invariant
            i <= names@.len(),
            today.valid(),
            clock::day_fits(today.number(), -RETENTION_DAYS),
            views == event::texts_of(names@),
            gone == (|name: Seq<char>| outdated(day_of_name(name), today)),
            event::texts_of(expired@) == views.take(i as int).filter(gone),
            forall|j: int, d: Date|
                0 <= j < i && d.valid() && #[trigger] views[j] == #[trigger] archive_of(d)
                    ==> gone(views[j]) == (today.number() - d.number() > RETENTION_DAYS),
        decreases names@.len() - i,
    {
        reveal(Seq::filter);
        assert(views.take(i + 1).drop_last() =~= views.take(i as int));
        assert(views.take(i + 1).last() == names@[i as int]@);
        if is_expired(names[i].as_str(), today) {
            let ghost before = expired@;
            let name = names[i].clone();
            expired.push(name);
            assert(event::texts_of(expired@) =~= event::texts_of(before).push(name@));
        }
        i = i + 1;
    }
    assert(views.take(names@.len() as int) =~= views);
    proof {
        assert forall|d: Date|
            d.valid() && views.contains(#[trigger] archive_of(d)) implies (views.filter(
            gone,
        ).contains(archive_of(d)) <==> today.number() - d.number() > RETENTION_DAYS) by {
            let j = choose|j: int| 0 <= j < views.len() && views[j] == archive_of(d);
            assert(gone(views[j]) == (today.number() - d.number() > RETENTION_DAYS));
            if gone(views[j]) {
                views.lemma_filter_contains(gone, j);
            } else if views.filter(gone).contains(archive_of(d)) {
                let k = choose|k: int|
                    0 <= k < views.filter(gone).len() && views.filter(gone)[k] == archive_of(d);
                views.lemma_filter_pred(gone, k);
            }
        }
    }
    expired
}

/// The text with spaces behind it up to `width` characters.
pub open spec fn padded(s: Seq<char>, width: nat) -> Seq<char> {
    if s.len() < width {
        s + Seq::new((width - s.len()) as nat, |i: int| ' ')
    } else {
        s
    }
}

/// A line of the log of the server.
pub fn log_line(timestamp: &str, level: &str, message: &str) -> (line: String)
    ensures
        line@ == "["@ + timestamp@ + "] "@ + padded(level@, 5) + " "@ + message@ + "\n"@,
{
    let mut shown = level.to_owned();
    let mut n: usize = level.unicode_len();
    proof {
        reveal_strlit(" ");
    }
    assert(shown@ =~= padded(level@, level@.len()));
    while n < 5
        invariant
            level@.len() <= n,
            n <= 5 || n == level@.len(),
            " "@ =~= seq![' '],
            shown@ == padded(level@, n as nat),
        decreases 5 - n,
    {
        shown.append(" ");
        n = n + 1;
        assert(shown@ =~= padded(level@, n as nat));
    }
    let start = text::concat4("[", timestamp, "] ", shown.as_str());
    text::concat4(start.as_str(), " ", message, "\n")
}

/// The line that stands for entries that came too fast to be written.
pub fn lag_line(missed: u64) -> (line: String)
    ensures
        line@ == "[WARN ] 日志追赶：跳过 "@ + text::numeral(missed as nat) + " 条\n"@,
{
    text::concat3("[WARN ] 日志追赶：跳过 ", text::decimal(missed).as_str(), " 条\n")
}

/// What is deleted is among the files, and is a log of the agent protocol that was put
/// aside: the name starts with that of the log and a full stop. The log that is being
/// written is never deleted.
pub proof fn law_only_archives_are_swept(names: Seq<Seq<char>>, today: Date)
    ensures
        forall|k: int|
            0 <= k < expired_names(names, today).len() ==> names.contains(
                #[trigger] expired_names(names, today)[k],
            ) && "acp-events.log."@.is_prefix_of(expired_names(names, today)[k]),
        !expired_names(names, today).contains("acp-events.log"@),
{
    let gone = |name: Seq<char>| outdated(day_of_name(name), today);
    let expired = expired_names(names, today);
    assert forall|k: int| 0 <= k < expired.len() implies names.contains(#[trigger] expired[k])
        && "acp-events.log."@.is_prefix_of(expired[k]) by {
        names.lemma_filter_pred(gone, k);
        assert(names.filter(gone).contains(expired[k]));
        names.lemma_filter_contains_rev(gone, expired[k]);
    }
    reveal_strlit("acp-events.log");
    reveal_strlit("acp-events.log.");
    assert("acp-events.log"@.len() < "acp-events.log."@.len());
}

/// A log of yesterday is not deleted today, one that is deleted today is deleted on
/// every later day too, and a file whose name gives no day is never deleted.
pub proof fn law_retention(day: Date, today: Date, later: Date)
    requires
        day.valid(),
        today.valid(),
        later.valid(),
        today.number() <= later.number(),
    ensures
        day.number() == today.number() - 1 ==> !outdated(Some(day), today),
        outdated(Some(day), today) ==> outdated(Some(day), later),
        !outdated(None, today),
{
}

/// A log is put aside under its own name, a full stop and the day it was last written, and
/// the name gives that day back to the sweep.
pub proof fn law_archives_carry_their_day(day: Date)
    ensures
        archive_of(day) == "acp-events.log"@ + "."@ + day.text(),
        day_of_name(archive_of(day)) == clock::parsed_date(day.text(), "%Y-%m-%d"@),
{
    lemma_archive_gives_its_day(day);
    reveal_strlit("acp-events.log.");
    reveal_strlit("acp-events.log");
    reveal_strlit(".");
    assert("acp-events.log."@ =~= "acp-events.log"@ + "."@);
}

/// A log is kept for fifteen days and deleted on the sixteenth.
pub proof fn law_fifteen_days(day: Date, today: Date)
    ensures
        outdated(Some(day), today) <==> today.number() - day.number() >= 16,
        !outdated(None, today),
{
}

/// Sweeping goes file by file and in their order: what is swept of two lots of files is what
/// is swept of the first and then of the second, and a single file is swept if and only if
/// its name is that of a log that was put aside on a day more than fifteen days back.
pub proof fn law_sweep_goes_file_by_file(
    first: Seq<Seq<char>>,
    second: Seq<Seq<char>>,
    name: Seq<char>,
    today: Date,
)
    ensures
        expired_names(first + second, today) == expired_names(first, today) + expired_names(
            second,
            today,
        ),
        ({
            let day = clock::parsed_date(name.skip("acp-events.log."@.len() as int), "%Y-%m-%d"@);
            expired_names(seq![name], today) == if "acp-events.log."@.is_prefix_of(name)
                && day is Some && today.number() - day->0.number() > 15 {
                seq![name]
            } else {
                Seq::empty()
            }
        }),
{
    let gone = |name: Seq<char>| outdated(day_of_name(name), today);
    Seq::filter_distributes_over_add(first, second, gone);
    reveal_with_fuel(Seq::filter, 2);
    assert(seq![name].drop_last() =~= Seq::empty());
    assert(Seq::<Seq<char>>::empty().push(name) =~= seq![name]);
}

/// Padding keeps the text at the start, adds spaces alone, and only as many as are missing.
pub proof fn law_padding_adds_spaces(s: Seq<char>, width: nat)
    ensures
        s.is_prefix_of(padded(s, width)),
        padded(s, width).len() == if s.len() < width {
            width
        } else {
            s.len()
        },
        forall|i: int| s.len() <= i < padded(s, width).len() ==> #[trigger] padded(s, width)[i]
            == ' ',
{
}

/// Local time can be had of every moment but those of the first and of the last day of the
/// calendar.
pub proof fn law_local_time_can_be_had(at: Timestamp)
    ensures
        locatable(at.secs as int) <==> clock::representable(at.secs - 86400)
            && clock::representable(at.secs + 86400),
{
}

}
