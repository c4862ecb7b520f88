//! Market events, and what the pollers that produce them have in common.

use vstd::prelude::*;

use crate::clock::Timestamp;
use crate::json::Json;
use crate::json::JsonView;

verus! {

/// How urgent an event is.
#[derive(Clone, Copy, Debug, PartialEq, Eq, Structural)]
pub enum Severity {
    Low,
    Medium,
    High,
}

/// What an event is about.
#[derive(Debug)]
pub enum EventKind {
    Split,
    Dividend,
    SecFiling { form: String },
    EarningsReleased,
}

/// Something that happened to the symbols of a market.
#[derive(Debug)]
pub struct MarketEvent {
    pub id: String,
    pub kind: EventKind,
    pub severity: Severity,
    pub symbols: Vec<String>,
    pub occurred_at: Timestamp,
    pub title: String,
    pub summary: String,
    pub url: Option<String>,
    pub source: String,
    pub payload: Json,
}

/// What an [`EventKind`] says.
#[verifier::ext_equal]
pub enum KindView {
    Split,
    Dividend,
    SecFiling { form: Seq<char> },
    EarningsReleased,
}

/// What a [`MarketEvent`] says.
#[verifier::ext_equal]
pub struct EventView {
    pub id: Seq<char>,
    pub kind: KindView,
    pub severity: Severity,
    pub symbols: Seq<Seq<char>>,
    pub occurred_at: Timestamp,
    pub title: Seq<char>,
    pub summary: Seq<char>,
    pub url: Option<Seq<char>>,
    pub source: Seq<char>,
    pub payload: JsonView,
}

/// What each of the texts says.
pub open spec fn texts_of(texts: Seq<String>) -> Seq<Seq<char>> {
    texts.map_values(|s: String| s@)
}

/// What an optional text says.
pub open spec fn option_text(text: Option<String>) -> Option<Seq<char>> {
    match text {
        Some(s) => Some(s@),
        None => None,
    }
}

/// What each of the events says.
pub open spec fn events_of(events: Seq<MarketEvent>) -> Seq<EventView> {
    events.map_values(|e: MarketEvent| e@)
}

impl EventKind {
    pub open spec fn view(&self) -> KindView {
        match self {
            EventKind::Split => KindView::Split,
            EventKind::Dividend => KindView::Dividend,
            EventKind::SecFiling { form } => KindView::SecFiling { form: form@ },
            EventKind::EarningsReleased => KindView::EarningsReleased,
        }
    }
}

impl MarketEvent {
    pub open spec fn view(&self) -> EventView {
        EventView {
            id: self.id@,
            kind: self.kind@,
            severity: self.severity,
            symbols: texts_of(self.symbols@),
            occurred_at: self.occurred_at,
            title: self.title@,
            summary: self.summary@,
            url: option_text(self.url),
            source: self.source@,
            payload: self.payload@,
        }
    }
}

/// What `found` gives for the places 0 up to `n`, in that order, without the places
/// for which it gives nothing.
pub open spec fn kept<T>(n: nat, found: spec_fn(int) -> Option<T>) -> Seq<T>
    decreases n,
{
    if n == 0 {
        Seq::empty()
    } else {
        let before = kept((n - 1) as nat, found);
        match found(n - 1) {
            Some(x) => before.push(x),
            None => before,
        }
    }
}

/// All of `parts` one behind the other.
pub open spec fn joined<T>(parts: Seq<Seq<T>>) -> Seq<T>
    decreases parts.len(),
{
    if parts.len() == 0 {
        Seq::empty()
    } else {
        joined(parts.drop_last()) + parts.last()
    }
}

/// What is kept has a place that it was found for, and what was found for a place is
/// kept.
pub proof fn law_kept_is_what_was_found<T>(n: nat, found: spec_fn(int) -> Option<T>)
    ensures
        kept(n, found).len() <= n,
        forall|x: T| #[trigger]
            kept(n, found).contains(x) <==> exists|i: int|
                0 <= i < n && #[trigger] found(i) == Some(x),
    decreases n,
{
    if n > 0 {
        let m = (n - 1) as nat;
        let before = kept(m, found);
        let all = kept(n, found);
        law_kept_is_what_was_found(m, found);
        assert forall|x: T| #[trigger] all.contains(x) implies exists|i: int|
            0 <= i < n && #[trigger] found(i) == Some(x) by {
            let k = choose|k: int| 0 <= k < all.len() && all[k] == x;
            if k < before.len() {
                assert(before[k] == x);
                assert(before.contains(x));
            } else {
                assert(found(n - 1) == Some(x));
            }
        }
        assert forall|x: T|
            (exists|i: int| 0 <= i < n && #[trigger] found(i) == Some(x)) implies #[trigger] all.contains(
            x,
        ) by {
            let i = choose|i: int| 0 <= i < n && #[trigger] found(i) == Some(x);
            if i < m {
                assert(before.contains(x));
                let k = choose|k: int| 0 <= k < before.len() && before[k] == x;
                assert(all[k] == x);
            } else {
                assert(all.last() == x);
            }
        }
    }
}

/// What is kept depends on what is found for the places alone.
pub proof fn lemma_kept_of_same<T>(
    n: nat,
    found: spec_fn(int) -> Option<T>,
    again: spec_fn(int) -> Option<T>,
)
    requires
        forall|i: int| 0 <= i < n ==> #[trigger] found(i) == again(i),
    ensures
        kept(n, found) == kept(n, again),
    decreases n,
{
    if n > 0 {
        lemma_kept_of_same((n - 1) as nat, found, again);
        assert(found(n - 1) == again(n - 1));
    }
}

/// Whether the two give an event or none together, and where they give one, it has the
/// same id and is of the same kind and severity.
pub open spec fn alike(a: Option<EventView>, b: Option<EventView>) -> bool {
    match (a, b) {
        (Some(x), Some(y)) => x.id == y.id && x.kind == y.kind && x.severity == y.severity,
        (None, None) => true,
        _ => false,
    }
}

/// Where events are alike place by place, so are those that are kept.
pub proof fn lemma_kept_of_alike(
    n: nat,
    found: spec_fn(int) -> Option<EventView>,
    again: spec_fn(int) -> Option<EventView>,
)
    requires
        forall|i: int| 0 <= i < n ==> alike(#[trigger] found(i), again(i)),
    ensures
        kept(n, found).len() == kept(n, again).len(),
        forall|k: int|
            0 <= k < kept(n, found).len() ==> alike(
                Some(#[trigger] kept(n, found)[k]),
                Some(kept(n, again)[k]),
            ),
    decreases n,
{
    if n > 0 {
        lemma_kept_of_alike((n - 1) as nat, found, again);
        assert(alike(found(n - 1), again(n - 1)));
    }
}

/// What is kept of the places up to `n` and of the `m` places behind them is what is kept of
/// the ones and then of the others.
pub proof fn lemma_kept_of_parts<T>(n: nat, m: nat, found: spec_fn(int) -> Option<T>)
    ensures
        kept(n + m, found) == kept(n, found) + kept(m, |i: int| found(n + i)),
    decreases m,
{
    let behind = |i: int| found(n + i);
    if m == 0 {
        assert(kept(n, found) + kept(0, behind) =~= kept(n, found));
    } else {
        lemma_kept_of_parts(n, (m - 1) as nat, found);
        assert(behind(m - 1) == found(n + m - 1));
        assert(kept(n + m, found) =~= kept(n, found) + kept(m, behind));
    }
}

/// What is kept of the places whose finds fulfil a condition is what is kept of all that
/// fulfils the condition.
pub proof fn lemma_kept_of_some<T>(
    n: nat,
    found: spec_fn(int) -> Option<T>,
    again: spec_fn(int) -> Option<T>,
    condition: spec_fn(T) -> bool,
)
    requires
        forall|i: int|
            0 <= i < n ==> #[trigger] again(i) == match found(i) {
                Some(x) => if condition(x) {
                    Some(x)
                } else {
                    None
                },
                None => None,
            },
    ensures
        kept(n, again) == kept(n, found).filter(condition),
    decreases n,
{
    if n == 0 {
        reveal(Seq::filter);
    } else {
        lemma_kept_of_some((n - 1) as nat, found, again, condition);
        assert(again(n - 1) is Some ==> again(n - 1) == found(n - 1));
        if let Some(x) = found(n - 1) {
            kept((n - 1) as nat, found).lemma_filter_push(x, condition);
        }
    }
}

/// How often a poller runs.
#[derive(Clone, Copy, Debug, PartialEq, Eq, Structural)]
pub enum SourceSchedule {
    /// Again and again after a time of so many seconds and nanoseconds.
    FixedInterval { secs: u64, nanos: u32 },
}

/// Where market data is asked for, and with which keys.
#[derive(Debug)]
pub struct FmpClient {
    pub api_key: String,
    pub api_keys: Vec<String>,
    pub base_url: String,
    pub timeout: u64,
}

/// Whether `places` are the places below `n` for which something is found, in their order,
/// and `items` is what is found for them, in the same order.
pub open spec fn found_at<T>(
    n: nat,
    found: spec_fn(int) -> Option<T>,
    items: Seq<T>,
    places: Seq<int>,
) -> bool {
    &&& places.len() == items.len()
    &&& forall|k: int| 0 <= k < places.len() ==> 0 <= #[trigger] places[k] < n
    &&& forall|k: int, l: int| 0 <= k < l < places.len() ==> places[k] < places[l]
    &&& forall|k: int| 0 <= k < places.len() ==> found(#[trigger] places[k]) == Some(items[k])
    &&& forall|i: int| 0 <= i < n && #[trigger] found(i) is Some ==> places.contains(i)
}

/// Whether `items` is what is found for the places below `n`, in their order.
pub open spec fn read_off<T>(n: nat, found: spec_fn(int) -> Option<T>, items: Seq<T>) -> bool {
    exists|places: Seq<int>| #[trigger] found_at(n, found, items, places)
}

/// What is kept is in the order of the places: it can be read off the places for which
/// something is found, one by one, and no place is passed over or comes twice.
pub proof fn law_kept_is_in_order<T>(n: nat, found: spec_fn(int) -> Option<T>)
    ensures
        read_off(n, found, kept(n, found)),
    decreases n,
{
    if n == 0 {
        assert(found_at(0, found, kept(0, found), Seq::empty()));
    } else {
        let m = (n - 1) as nat;
        law_kept_is_in_order(m, found);
        let before = choose|places: Seq<int>| #[trigger] found_at(m, found, kept(m, found), places);
        match found(n - 1) {
            Some(x) => {
                let places = before.push(n - 1);
                assert forall|i: int| 0 <= i < n && #[trigger] found(i) is Some implies places.contains(
                i) by {
                    if i < m {
                        let k = choose|k: int| 0 <= k < before.len() && before[k] == i;
                        assert(before.contains(i));
                        assert(places[k] == i);
                    } else {
                        assert(places[before.len() as int] == i);
                    }
                }
                assert(found_at(n, found, kept(n, found), places));
            },
            None => {
                assert(found_at(n, found, kept(n, found), before));
            },
        }
    }
}

/// Joining puts parts one behind the other: of two runs of parts the first goes first, a
/// single part is itself, and no parts are nothing.
pub proof fn law_joined<T>(first: Seq<Seq<T>>, second: Seq<Seq<T>>, part: Seq<T>)
    ensures
        joined(first + second) == joined(first) + joined(second),
        joined(seq![part]) == part,
        joined(Seq::<Seq<T>>::empty()) == Seq::<T>::empty(),
    decreases second.len(),
{
    reveal_with_fuel(joined, 2);
    assert(seq![part].drop_last() =~= Seq::empty());
    assert(joined(seq![part]) =~= part);
    if second.len() == 0 {
        assert(first + second =~= first);
        assert(joined(first) + joined(second) =~= joined(first));
    } else {
        law_joined(first, second.drop_last(), part);
        assert((first + second).drop_last() =~= first + second.drop_last());
        assert(joined(first + second) =~= joined(first) + joined(second));
    }
}

/// An event says what its fields say, and a list of events says what each says, in their
/// order.
pub proof fn law_events_say_what_they_hold(event: MarketEvent, events: Seq<MarketEvent>)
    ensures
        event@.id == event.id@,
        event@.severity == event.severity,
        event@.symbols.len() == event.symbols@.len(),
        forall|i: int|
            0 <= i < event.symbols@.len() ==> #[trigger] event@.symbols[i] == event.symbols@[i]@,
        event@.occurred_at == event.occurred_at,
        event@.title == event.title@,
        event@.summary == event.summary@,
        match event.url {
            Some(url) => event@.url == Some(url@),
            None => event@.url is None,
        },
        event@.source == event.source@,
        event@.payload == event.payload@,
        match event.kind {
            EventKind::Split => event@.kind is Split,
            EventKind::Dividend => event@.kind is Dividend,
            EventKind::SecFiling { form } => event@.kind == (KindView::SecFiling { form: form@ }),
            EventKind::EarningsReleased => event@.kind is EarningsReleased,
        },
        events_of(events).len() == events.len(),
        forall|i: int| 0 <= i < events.len() ==> #[trigger] events_of(events)[i] == events[i]@,
{
}

/// A list of texts says what each says, in their order, and an optional text what it says.
pub proof fn law_texts_say_what_they_hold(texts: Seq<String>, text: String)
    ensures
        texts_of(texts).len() == texts.len(),
        forall|i: int| 0 <= i < texts.len() ==> #[trigger] texts_of(texts)[i] == texts[i]@,
        option_text(Some(text)) == Some(text@),
        option_text(None) is None,
{
}

}
