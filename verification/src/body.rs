//! What the server writes as JSON: the data of a frame, the body of an answer.

use vstd::prelude::*;

use crate::event;

verus! {

/// A JSON value to be written.
#[derive(Debug)]
pub enum Body {
    Null,
    Flag(bool),
    Count(u64),
    Text(String),
    List(Vec<Body>),
    Record(Vec<(String, Body)>),
}

/// What a [`Body`] says.
#[verifier::ext_equal]
pub enum BodyView {
    Null,
    Flag(bool),
    Count(nat),
    Text(Seq<char>),
    List(Seq<BodyView>),
    Record(Seq<(Seq<char>, BodyView)>),
}

/// What each of the bodies says.
pub open spec fn bodies_of(bodies: Seq<Body>) -> Seq<BodyView> {
    bodies.map_values(|b: Body| b@)
}

/// What each of the members says.
pub open spec fn members_of(members: Seq<(String, Body)>) -> Seq<(Seq<char>, BodyView)> {
    members.map_values(|m: (String, Body)| (m.0@, m.1@))
}

/// The text, or null if there is none.
pub open spec fn text_or_null(text: Option<Seq<char>>) -> BodyView {
    match text {
        Some(s) => BodyView::Text(s),
        None => BodyView::Null,
    }
}

/// A list of the texts.
pub open spec fn text_list(texts: Seq<Seq<char>>) -> BodyView {
    BodyView::List(texts.map_values(|s: Seq<char>| BodyView::Text(s)))
}

impl Body {
    pub open spec fn view(&self) -> BodyView
        decreases self,
    {
        match self {
            Body::Null => BodyView::Null,
            Body::Flag(b) => BodyView::Flag(*b),
            Body::Count(n) => BodyView::Count(*n as nat),
            Body::Text(s) => BodyView::Text(s@),
            Body::List(items) => BodyView::List(
                Seq::new(
                    items@.len(),
                    |i: int|
                        if 0 <= i < items@.len() {
                            items@[i].view()
                        } else {
                            BodyView::Null
                        },
                ),
            ),
            Body::Record(members) => BodyView::Record(
                Seq::new(
                    members@.len(),
                    |i: int|
                        if 0 <= i < members@.len() {
                            (members@[i].0@, members@[i].1.view())
                        } else {
                            (Seq::empty(), BodyView::Null)
                        },
                ),
            ),
        }
    }

    /// The text.
    pub fn text(s: &str) -> (body: Body)
        ensures
            body@ == BodyView::Text(s@),
    {
        Body::Text(s.to_owned())
    }

    /// The text, or null if there is none.
    pub fn optional_text(text: &Option<String>) -> (body: Body)
        ensures
            body@ == text_or_null(event::option_text(*text)),
    {
        match text {
            Some(s) => Body::Text(s.clone()),
            None => Body::Null,
        }
    }

    /// A list of the texts.
    pub fn texts(texts: &Vec<String>) -> (body: Body)
        ensures
            body@ == text_list(event::texts_of(texts@)),
    {
        let mut items: Vec<Body> = Vec::new();
        let mut i: usize = 0;
        while i < texts.len()
            invariant
                i <= texts@.len(),
                items@.len() == i,
                forall|j: int| 0 <= j < i ==> (#[trigger] items@[j])@ == BodyView::Text(texts@[j]@),
            decreases texts@.len() - i,
        {
            items.push(Body::Text(texts[i].clone()));
            i = i + 1;
        }
        let body = Body::List(items);
        assert(body@->List_0 =~= text_list(event::texts_of(texts@))->List_0);
        body
    }

    /// A list of the bodies.
    pub fn list(items: Vec<Body>) -> (body: Body)
        ensures
            body@ == BodyView::List(bodies_of(items@)),
    {
        let body = Body::List(items);
        assert(body@->List_0 =~= bodies_of(items@));
        body
    }

    /// A record of the members.
    pub fn record(members: Vec<(String, Body)>) -> (body: Body)
        ensures
            body@ == BodyView::Record(members_of(members@)),
    {
        let body = Body::Record(members);
        assert(body@->Record_0 =~= members_of(members@));
        body
    }

    /// A record of one member.
    pub fn single(name: &str, value: Body) -> (body: Body)
        ensures
            body@ == BodyView::Record(seq![(name@, value@)]),
    {
        let members: Vec<(String, Body)> = vec![(name.to_owned(), value)];
        assert(members_of(members@) =~= seq![(name@, value@)]);
        Body::record(members)
    }
}

/// A body says what it is made of: its texts, its elements in their order, its members in
/// their order under their names.
pub proof fn law_body_says_what_it_holds(
    text: String,
    items: Vec<Body>,
    members: Vec<(String, Body)>,
    flag: bool,
    count: u64,
)
    ensures
        Body::Null@ == BodyView::Null,
        Body::Flag(flag)@ == BodyView::Flag(flag),
        Body::Count(count)@ == BodyView::Count(count as nat),
        Body::Text(text)@ == BodyView::Text(text@),
        Body::List(items)@ matches BodyView::List(views) && views.len() == items@.len() && (forall|
            i: int,
        |
            0 <= i < items@.len() ==> #[trigger] views[i] == items@[i]@),
        Body::Record(members)@ matches BodyView::Record(views) && views.len() == members@.len() && (
        forall|i: int|
            0 <= i < members@.len() ==> #[trigger] views[i] == (
                members@[i].0@,
                members@[i].1@,
            )),
        bodies_of(items@).len() == items@.len(),
        forall|i: int| 0 <= i < items@.len() ==> #[trigger] bodies_of(items@)[i] == items@[i]@,
        members_of(members@).len() == members@.len(),
        forall|i: int|
            0 <= i < members@.len() ==> #[trigger] members_of(members@)[i] == (
                members@[i].0@,
                members@[i].1@,
            ),
{
}

/// A list of texts has each of the texts in its place, and an optional text is that text or
/// null.
pub proof fn law_texts_are_listed(texts: Seq<Seq<char>>, text: Seq<char>)
    ensures
        text_list(texts) matches BodyView::List(items) && items.len() == texts.len() && (forall|
            i: int,
        |
            0 <= i < texts.len() ==> #[trigger] items[i] == BodyView::Text(texts[i])),
        text_or_null(Some(text)) == BodyView::Text(text),
        text_or_null(None) == BodyView::Null,
{
}

}
