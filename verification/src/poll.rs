//! A round of requests, one for each watched symbol.
//!
//! The caller asks for the symbol that is next, makes the request and hands back the
//! reply. A request that failed leaves the events of the others alone.

use vstd::prelude::*;

use crate::event;
use crate::event::EventView;
use crate::event::MarketEvent;

verus! {

/// The symbols that are watched.
#[derive(Debug)]
pub struct SharedRegistry {
    pub symbols: Vec<String>,
}

impl SharedRegistry {
    /// What each of the watched symbols says.
    pub open spec fn view(&self) -> Seq<Seq<char>> {
        event::texts_of(self.symbols@)
    }

    /// The watched symbols.
    pub fn watch_pool(&self) -> (symbols: Vec<String>)
        ensures
            event::texts_of(symbols@) == self@,
    {
        let mut symbols: Vec<String> = Vec::new();
        let mut i: usize = 0;
        while i < self.symbols.len()
            invariant
                i <= self.symbols@.len(),
                symbols@ =~= self.symbols@.take(i as int),
            decreases self.symbols@.len() - i,
        {
            symbols.push(self.symbols[i].clone());
            i = i + 1;
        }
        symbols
    }
}

/// A round of requests: the symbols, how many replies have come, and the events of those.
#[derive(Debug)]
pub struct SymbolPoll {
    pub symbols: Vec<String>,
    pub replies: usize,
    pub events: Vec<MarketEvent>,
}

/// What a [`SymbolPoll`] says.
#[verifier::ext_equal]
pub struct PollView {
    pub symbols: Seq<Seq<char>>,
    pub replies: nat,
    pub events: Seq<EventView>,
}

impl PollView {
    /// The round before its first request.
    pub open spec fn started(symbols: Seq<Seq<char>>) -> PollView {
        PollView { symbols, replies: 0, events: Seq::empty() }
    }

    /// The symbol to ask for next; none if every symbol has its reply.
    pub open spec fn pending(self) -> Option<Seq<char>> {
        if self.replies < self.symbols.len() {
            Some(self.symbols[self.replies as int])
        } else {
            None
        }
    }

    /// The round after one more reply: the events that it brought, or none if the
    /// request failed.
    pub open spec fn replied(self, reply: Option<Seq<EventView>>) -> PollView {
        PollView {
            symbols: self.symbols,
            replies: self.replies + 1,
            events: match reply {
                Some(events) => self.events + events,
                None => self.events,
            },
        }
    }

    /// The round after several replies.
    pub open spec fn after(self, replies: Seq<Option<Seq<EventView>>>) -> PollView
        decreases replies.len(),
    {
        if replies.len() == 0 {
            self
        } else {
            self.after(replies.drop_last()).replied(replies.last())
        }
    }
}

/// What a reply contributes to the round.
pub open spec fn contribution(reply: Option<Seq<EventView>>) -> Seq<EventView> {
    match reply {
        Some(events) => events,
        None => Seq::empty(),
    }
}

/// What an optional list of events says.
pub open spec fn reply_view(reply: Option<Vec<MarketEvent>>) -> Option<Seq<EventView>> {
    match reply {
        Some(events) => Some(event::events_of(events@)),
        None => None,
    }
}

impl SymbolPoll {
    pub open spec fn view(&self) -> PollView {
        PollView {
            symbols: event::texts_of(self.symbols@),
            replies: self.replies as nat,
            events: event::events_of(self.events@),
        }
    }

    /// A round over the symbols, before its first request.
    pub fn start(symbols: Vec<String>) -> (round: SymbolPoll)
        ensures
            round@ == PollView::started(event::texts_of(symbols@)),
    {
        let round = SymbolPoll { symbols, replies: 0, events: Vec::new() };
        assert(round@.events =~= Seq::empty());
        round
    }

    /// The symbol to ask for next; none if every symbol has its reply.
    pub fn next_symbol(&self) -> (symbol: Option<&str>)
        ensures
            match symbol {
                Some(s) => self@.pending() == Some(s@),
                None => self@.pending() is None,
            },
    {
        if self.replies < self.symbols.len() {
            assert(self@.symbols[self.replies as int] == self.symbols@[self.replies as int]@);
            Some(self.symbols[self.replies].as_str())
        } else {
            None
        }
    }

    /// Takes the reply to the request for the next symbol, which is none if the request
    /// failed.
    pub fn take_reply(&mut self, reply: Option<Vec<MarketEvent>>)
        requires
            old(self)@.pending() is Some,
        ensures
            final(self)@ == old(self)@.replied(reply_view(reply)),
    {
        let ghost before = self.events@;
        assert(self.replies < self.symbols.len());
        match reply {
            Some(events) => {
                let mut events = events;
                let ghost added = events@;
                self.events.append(&mut events);
                assert(event::events_of(self.events@) =~= event::events_of(before)
                    + event::events_of(added));
            },
            None => {},
        }
        self.replies = self.replies + 1;
    }

    /// The events of all replies so far, in the order of the symbols.
    pub fn finish(self) -> (events: Vec<MarketEvent>)
        ensures
            event::events_of(events@) == self@.events,
    {
        self.events
    }
}

/// The events of a round are those of its replies one behind the other; a request that
/// failed adds none and takes none away. The round asks for its symbols in their order.
pub proof fn law_round_joins_its_replies(
    symbols: Seq<Seq<char>>,
    replies: Seq<Option<Seq<EventView>>>,
)
    ensures
        ({
            let round = PollView::started(symbols).after(replies);
            &&& round.symbols == symbols
            &&& round.replies == replies.len()
            &&& round.events == event::joined(
                replies.map_values(|reply: Option<Seq<EventView>>| contribution(reply)),
            )
            &&& round.pending() is None <==> replies.len() >= symbols.len()
            &&& round.pending() matches Some(symbol) ==> symbol == symbols[replies.len() as int]
        }),
    decreases replies.len(),
{
    let parts = replies.map_values(|reply: Option<Seq<EventView>>| contribution(reply));
    if replies.len() > 0 {
        law_round_joins_its_replies(symbols, replies.drop_last());
        assert(parts.drop_last() =~= replies.drop_last().map_values(
            |reply: Option<Seq<EventView>>| contribution(reply),
        ));
        assert(event::joined(parts) =~= PollView::started(symbols).after(replies).events);
    } else {
        assert(parts =~= Seq::empty());
    }
}

/// A round over no symbols asks for nothing and has no events.
pub proof fn law_nothing_watched_nothing_asked()
    ensures
        PollView::started(Seq::empty()).pending() is None,
        PollView::started(Seq::empty()).events.len() == 0,
{
}

/// A reply adds its events behind those before it, all of them and in their order; a request
/// that failed adds none. Either way the round goes on to the next symbol.
pub proof fn law_reply_adds_its_events(round: PollView, events: Seq<EventView>)
    ensures
        round.replied(Some(events)).events == round.events + events,
        round.replied(None).events == round.events,
        round.replied(Some(events)).replies == round.replies + 1,
        round.replied(None).replies == round.replies + 1,
        round.replied(Some(events)).symbols == round.symbols,
        round.replied(None).symbols == round.symbols,
{
}

/// A round starts with the first symbol and asks for every symbol in its turn: after so many
/// replies for the one at that place, and for none once every symbol has its reply.
pub proof fn law_every_symbol_has_its_turn(symbols: Seq<Seq<char>>, round: PollView)
    ensures
        PollView::started(symbols).symbols == symbols,
        PollView::started(symbols).replies == 0,
        PollView::started(symbols).events.len() == 0,
        round.replies < round.symbols.len() ==> round.pending() == Some(
            round.symbols[round.replies as int],
        ),
        round.replies >= round.symbols.len() ==> round.pending() is None,
{
}

/// A registry, a round and a reply say what they hold.
pub proof fn law_rounds_say_what_they_hold(
    registry: SharedRegistry,
    round: SymbolPoll,
    reply: Vec<MarketEvent>,
)
    ensures
        registry@.len() == registry.symbols@.len(),
        forall|i: int|
            0 <= i < registry.symbols@.len() ==> #[trigger] registry@[i] == registry.symbols@[i]@,
        round@.symbols.len() == round.symbols@.len(),
        forall|i: int|
            0 <= i < round.symbols@.len() ==> #[trigger] round@.symbols[i] == round.symbols@[i]@,
        round@.replies == round.replies,
        round@.events.len() == round.events@.len(),
        forall|i: int|
            0 <= i < round.events@.len() ==> #[trigger] round@.events[i] == round.events@[i]@,
        reply_view(None) is None,
        reply_view(Some(reply)) matches Some(views) && views.len() == reply@.len() && (forall|i: int|

            0 <= i < reply@.len() ==> #[trigger] views[i] == reply@[i]@),
{
}

}
