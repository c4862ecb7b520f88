//! JSON documents as the pollers read them.

use vstd::prelude::*;

use crate::double::Double;
use crate::text;

verus! {

/// A number of a document, with what is read of it: the double that it stands for
/// and that double in decimal, in the shortest form that gives it back, with two
/// digits behind the point, and with four.
#[derive(Debug)]
pub struct JsonNumber {
    pub literal: String,
    pub value: Double,
    pub shortest: String,
    pub two_places: String,
    pub four_places: String,
}

/// A JSON value.
#[derive(Debug)]
pub enum Json {
    Null,
    Bool(bool),
    Number(JsonNumber),
    Text(String),
    Array(Vec<Json>),
    Object(Vec<(String, Json)>),
}

/// What a [`JsonNumber`] says.
#[verifier::ext_equal]
pub struct NumberView {
    pub literal: Seq<char>,
    pub value: Double,
    pub shortest: Seq<char>,
    pub two_places: Seq<char>,
    pub four_places: Seq<char>,
}

/// What a [`Json`] says.
#[verifier::ext_equal]
pub enum JsonView {
    Null,
    Bool(bool),
    Number(NumberView),
    Text(Seq<char>),
    Array(Seq<JsonView>),
    Object(Seq<(Seq<char>, JsonView)>),
}

/// The value of the first of `members` whose name is `key`.
pub open spec fn value_of(members: Seq<(Seq<char>, JsonView)>, key: Seq<char>) -> Option<JsonView>
    decreases members.len(),
{
    if members.len() == 0 {
        None
    } else if members.first().0 == key {
        Some(members.first().1)
    } else {
        value_of(members.drop_first(), key)
    }
}

impl JsonView {
    /// The elements, if the value is an array.
    pub open spec fn elements(self) -> Option<Seq<JsonView>> {
        match self {
            JsonView::Array(items) => Some(items),
            _ => None,
        }
    }

    /// The value of the member named `key`, if the value is an object that has one.
    pub open spec fn member(self, key: Seq<char>) -> Option<JsonView> {
        match self {
            JsonView::Object(members) => value_of(members, key),
            _ => None,
        }
    }

    /// The text of the member named `key`, if there is such a member and it is text.
    pub open spec fn text_member(self, key: Seq<char>) -> Option<Seq<char>> {
        match self.member(key) {
            Some(JsonView::Text(s)) => Some(s),
            _ => None,
        }
    }

    /// The member named `key`, if there is such a member and it is a number.
    pub open spec fn number_member(self, key: Seq<char>) -> Option<NumberView> {
        match self.member(key) {
            Some(JsonView::Number(n)) => Some(n),
            _ => None,
        }
    }
}

impl JsonNumber {
    pub open spec fn view(&self) -> NumberView {
        NumberView {
            literal: self.literal@,
            value: self.value,
            shortest: self.shortest@,
            two_places: self.two_places@,
            four_places: self.four_places@,
        }
    }

    /// A number that says the same.
    pub fn duplicate(&self) -> (copy: JsonNumber)
        ensures
            copy@ == self@,
    {
        JsonNumber {
            literal: self.literal.clone(),
            value: self.value,
            shortest: self.shortest.clone(),
            two_places: self.two_places.clone(),
            four_places: self.four_places.clone(),
        }
    }
}

impl Json {
    pub open spec fn view(&self) -> JsonView
        decreases self,
    {
        match self {
            Json::Null => JsonView::Null,
            Json::Bool(b) => JsonView::Bool(*b),
            Json::Number(n) => JsonView::Number(n@),
            Json::Text(s) => JsonView::Text(s@),
            Json::Array(items) => JsonView::Array(
                Seq::new(
                    items@.len(),
                    |i: int|
                        if 0 <= i < items@.len() {
                            items@[i].view()
                        } else {
                            JsonView::Null
                        },
                ),
            ),
            Json::Object(members) => JsonView::Object(
                Seq::new(
                    members@.len(),
                    |i: int|
                        if 0 <= i < members@.len() {
                            (members@[i].0@, members@[i].1.view())
                        } else {
                            (Seq::empty(), JsonView::Null)
                        },
                ),
            ),
        }
    }

    /// A value that says the same.
    pub fn duplicate(&self) -> (copy: Json)
        ensures
            copy@ == self@,
        decreases self,
    {
        match self {
            Json::Null => Json::Null,
            Json::Bool(b) => Json::Bool(*b),
            Json::Number(n) => Json::Number(n.duplicate()),
            Json::Text(s) => Json::Text(s.clone()),
            Json::Array(items) => {
                let mut copies: Vec<Json> = Vec::new();
                let mut i: usize = 0;
                while i < items.len()
                    invariant
                        self == Json::Array(*items),
                        i <= items@.len(),
                        copies@.len() == i,
                        forall|j: int| 0 <= j < i ==> (#[trigger] copies@[j])@ == items@[j]@,
                    decreases items@.len() - i,
                {
                    assert(decreases_to!(*self => self->Array_0));
                    assert(decreases_to!(*items => items[i as int]));
                    copies.push(items[i].duplicate());
                    i = i + 1;
                }
                let copy = Json::Array(copies);
                assert(copy@->Array_0 =~= self@->Array_0);
                copy
            },
            Json::Object(members) => {
                let mut copies: Vec<(String, Json)> = Vec::new();
                let mut i: usize = 0;
                while i < members.len()
                    invariant
                        self == Json::Object(*members),
                        i <= members@.len(),
                        copies@.len() == i,
                        forall|j: int|
                            0 <= j < i ==> (#[trigger] copies@[j]).0@ == members@[j].0@
                                && copies@[j].1@ == members@[j].1@,
                    decreases members@.len() - i,
                {
                    assert(decreases_to!(*self => self->Object_0));
                    assert(decreases_to!(*members => members[i as int]));
                    assert(decreases_to!(members[i as int] => members[i as int].1));
                    copies.push((members[i].0.clone(), members[i].1.duplicate()));
                    i = i + 1;
                }
                let copy = Json::Object(copies);
                assert(copy@->Object_0 =~= self@->Object_0);
                copy
            },
        }
    }

    /// The elements, if the value is an array.
    pub fn as_array(&self) -> (items: Option<&Vec<Json>>)
        ensures
            match items {
                Some(v) => {
                    &&& self@ is Array
                    &&& self@->Array_0.len() == v@.len()
                    &&& forall|i: int| 0 <= i < v@.len() ==> self@->Array_0[i] == (#[trigger] v@[i])@
                },
                None => self@.elements() is None,
            },
    {
        match self {
            Json::Array(items) => Some(items),
            _ => None,
        }
    }

    /// The value of the member named `key`, if the value is an object that has one.
    pub fn get(&self, key: &str) -> (value: Option<&Json>)
        ensures
            match value {
                Some(v) => self@.member(key@) == Some(v@),
                None => self@.member(key@) is None,
            },
    {
        match self {
            Json::Object(members) => {
                let ghost all = self@->Object_0;
                let mut i: usize = 0;
                assert(all.skip(0) =~= all);
                while i < members.len()
                    invariant
                        self == Json::Object(*members),
                        all == self@->Object_0,
                        self@ is Object,
                        all.len() == members@.len(),
                        i <= members@.len(),
                        value_of(all, key@) == value_of(all.skip(i as int), key@),
                    decreases members@.len() - i,
                {
                    assert(all[i as int] == (members@[i as int].0@, members@[i as int].1@));
                    if text::same_text(members[i].0.as_str(), key) {
                        return Some(&members[i].1);
                    }
                    assert(all.skip(i as int).drop_first() =~= all.skip(i + 1));
                    i = i + 1;
                }
                None
            },
            _ => None,
        }
    }

    /// The text of the member named `key`, if there is such a member and it is text.
    pub fn get_text(&self, key: &str) -> (text: Option<&str>)
        ensures
            match text {
                Some(s) => self@.text_member(key@) == Some(s@),
                None => self@.text_member(key@) is None,
            },
    {
        match self.get(key) {
            Some(Json::Text(s)) => Some(s.as_str()),
            _ => None,
        }
    }

    /// The member named `key`, if there is such a member and it is a number.
    pub fn get_number(&self, key: &str) -> (number: Option<&JsonNumber>)
        ensures
            match number {
                Some(n) => self@.number_member(key@) == Some(n@),
                None => self@.number_member(key@) is None,
            },
    {
        match self.get(key) {
            Some(Json::Number(n)) => Some(n),
            _ => None,
        }
    }
}

/// The value of a name is that of the first member with the name; there is none if no member
/// has it.
pub proof fn law_first_member(members: Seq<(Seq<char>, JsonView)>, key: Seq<char>)
    ensures
        match value_of(members, key) {
            Some(value) => exists|i: int|
                0 <= i < members.len() && #[trigger] members[i] == (key, value) && (forall|j: int|
                    0 <= j < i ==> (#[trigger] members[j]).0 != key),
            None => forall|j: int| 0 <= j < members.len() ==> (#[trigger] members[j]).0 != key,
        },
    decreases members.len(),
{
    if members.len() > 0 {
        let rest = members.drop_first();
        if members.first().0 == key {
            assert(members[0] == (key, members.first().1));
        } else {
            law_first_member(rest, key);
            match value_of(rest, key) {
                Some(value) => {
                    let i = choose|i: int|
                        0 <= i < rest.len() && #[trigger] rest[i] == (key, value) && (forall|j: int|
                            0 <= j < i ==> (#[trigger] rest[j]).0 != key);
                    assert(members[i + 1] == (key, value));
                    assert forall|j: int| 0 <= j < i + 1 implies (#[trigger] members[j]).0
                        != key by {
                        if j > 0 {
                            assert(rest[j - 1] == members[j]);
                        }
                    }
                },
                None => {
                    assert forall|j: int| 0 <= j < members.len() implies (#[trigger] members[j]).0
                        != key by {
                        if j > 0 {
                            assert(rest[j - 1] == members[j]);
                        }
                    }
                },
            }
        }
    }
}

/// Members are read by their type: only an array has elements, only an object has members,
/// a member is read as text or as a number only if it is one, and what is read is what it
/// says.
pub proof fn law_members_are_read_by_type(value: JsonView, key: Seq<char>)
    ensures
        match value {
            JsonView::Array(items) => value.elements() == Some(items),
            _ => value.elements() is None,
        },
        match value {
            JsonView::Object(members) => value.member(key) == value_of(members, key),
            _ => value.member(key) is None,
        },
        match value.member(key) {
            Some(JsonView::Text(s)) => value.text_member(key) == Some(s)
                && value.number_member(key) is None,
            Some(JsonView::Number(n)) => value.number_member(key) == Some(n)
                && value.text_member(key) is None,
            _ => value.text_member(key) is None && value.number_member(key) is None,
        },
{
}

/// A document says what it is made of: its numbers and texts, its elements in their order,
/// its members in their order under their names.
pub proof fn law_document_says_what_it_holds(
    number: JsonNumber,
    text: String,
    items: Vec<Json>,
    members: Vec<(String, Json)>,
)
    ensures
        number@.literal == number.literal@,
        number@.value == number.value,
        number@.shortest == number.shortest@,
        number@.two_places == number.two_places@,
        number@.four_places == number.four_places@,
        Json::Number(number)@ == JsonView::Number(number@),
        Json::Text(text)@ == JsonView::Text(text@),
        Json::Array(items)@ matches JsonView::Array(views) && views.len() == items@.len() && (
        forall|i: int| 0 <= i < items@.len() ==> #[trigger] views[i] == items@[i]@),
        Json::Object(members)@ matches JsonView::Object(views) && views.len() == members@.len() && (
        forall|i: int|
            0 <= i < members@.len() ==> #[trigger] views[i] == (
                members@[i].0@,
                members@[i].1@,
            )),
{
}

}
