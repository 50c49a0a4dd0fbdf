//! JSON values, as the codec of the configuration and of the messages sees
//! them.

use crate::text::same_text;
use vstd::prelude::*;

verus! {

/// A JSON value. A number that is no integer, or that does not fit in 64
/// bits with a sign, is kept as [`JsonValue::OtherNumber`]: no field of the
/// configuration takes one.
#[derive(Debug, PartialEq, Eq)]
pub enum JsonValue {
    Null,
    Bool(bool),
    Number(i64),
    OtherNumber,
    String(String),
    Array(Vec<JsonValue>),
    Object(Vec<(String, JsonValue)>),
}

/// The mathematical value of a [`JsonValue`].
pub enum JsonView {
    Null,
    Bool(bool),
    Number(int),
    OtherNumber,
    String(Seq<char>),
    Array(Seq<JsonView>),
    Object(Seq<(Seq<char>, JsonView)>),
}

/// The values of a list, each by its mathematical value.
pub open spec fn values_view(values: Seq<JsonValue>) -> Seq<JsonView>
    decreases values, 0nat,
{
    if values.len() == 0 {
        Seq::empty()
    } else {
        values_view(values.drop_last()).push(value_view(values.last()))
    }
}

/// The members of an object, each by its mathematical value.
pub open spec fn members_view(members: Seq<(String, JsonValue)>) -> Seq<(Seq<char>, JsonView)>
    decreases members, 0nat,
{
    if members.len() == 0 {
        Seq::empty()
    } else {
        members_view(members.drop_last()).push((members.last().0@, value_view(members.last().1)))
    }
}

/// The mathematical value of a JSON value.
pub open spec fn value_view(value: JsonValue) -> JsonView
    decreases value, 1nat,
{
    match value {
        JsonValue::Null => JsonView::Null,
        JsonValue::Bool(b) => JsonView::Bool(b),
        JsonValue::Number(n) => JsonView::Number(n as int),
        JsonValue::OtherNumber => JsonView::OtherNumber,
        JsonValue::String(s) => JsonView::String(s@),
        JsonValue::Array(values) => JsonView::Array(values_view(values@)),
        JsonValue::Object(members) => JsonView::Object(members_view(members@)),
    }
}

impl View for JsonValue {
    type V = JsonView;

    open spec fn view(&self) -> JsonView {
        value_view(*self)
    }
}

/// The view of a list of values has the view of each value in its place.
pub proof fn lemma_values_view(values: Seq<JsonValue>)
    ensures
        values_view(values).len() == values.len(),
        forall|i: int| 0 <= i < values.len() ==> #[trigger] values_view(values)[i] == values[i]@,
    decreases values.len(),
{
    if values.len() > 0 {
        lemma_values_view(values.drop_last());
    }
}

/// The view of the members of an object has the view of each member in its
/// place.
pub proof fn lemma_members_view(members: Seq<(String, JsonValue)>)
    ensures
        members_view(members).len() == members.len(),
        forall|i: int|
            0 <= i < members.len() ==> #[trigger] members_view(members)[i] == (
                members[i].0@,
                members[i].1@,
            ),
    decreases members.len(),
{
    if members.len() > 0 {
        lemma_members_view(members.drop_last());
    }
}

/// The value of the member `name` of an object: that of the last member of
/// that name, if there is one.
pub open spec fn member(members: Seq<(Seq<char>, JsonView)>, name: Seq<char>) -> Option<JsonView>
    decreases members.len(),
{
    if members.len() == 0 {
        None
    } else if members.last().0 == name {
        Some(members.last().1)
    } else {
        member(members.drop_last(), name)
    }
}

/// The member `name` of the object `value`; none where `value` is no object.
pub open spec fn field(value: JsonView, name: Seq<char>) -> Option<JsonView> {
    match value {
        JsonView::Object(members) => member(members, name),
        _ => None,
    }
}

/// The truth value that `value` is, if it is one.
pub open spec fn as_bool(value: JsonView) -> Option<bool> {
    match value {
        JsonView::Bool(b) => Some(b),
        _ => None,
    }
}

/// The integer that `value` is, if it is one between `low` and `high`.
pub open spec fn as_integer(value: JsonView, low: int, high: int) -> Option<int> {
    match value {
        JsonView::Number(n) => if low <= n <= high {
            Some(n)
        } else {
            None
        },
        _ => None,
    }
}

/// The text that `value` is, if it is one.
pub open spec fn as_text(value: JsonView) -> Option<Seq<char>> {
    match value {
        JsonView::String(s) => Some(s),
        _ => None,
    }
}

/// The elements of `value`, if it is an array.
pub open spec fn as_elements(value: JsonView) -> Option<Seq<JsonView>> {
    match value {
        JsonView::Array(values) => Some(values),
        _ => None,
    }
}

impl JsonValue {
    /// The member `name`, where this value is an object that has one.
    pub fn get(&self, name: &str) -> (r: Option<&JsonValue>)
        ensures
            match r {
                Some(v) => field(self@, name@) == Some(v@),
                None => field(self@, name@) is None,
            },
    {
        let members = match self {
            JsonValue::Object(members) => members,
            _ => {
                return None;
            },
        };
        let ghost all = members_view(members@);
        proof {
            lemma_members_view(members@);
        }
        let mut i: usize = members.len();
        assert(all.subrange(0, i as int) =~= all);
        while i > 0
            invariant
                i <= members.len(),
                self@ == JsonView::Object(all),
                all == members_view(members@),
                all.len() == members.len(),
                forall|j: int|
                    0 <= j < members.len() ==> #[trigger] all[j] == (
                        members@[j].0@,
                        members@[j].1@,
                    ),
                member(all, name@) == member(all.subrange(0, i as int), name@),
            decreases i,
        {
            let ghost prefix = all.subrange(0, i as int);
            i = i - 1;
            proof {
                assert(prefix.drop_last() =~= all.subrange(0, i as int));
            }
            if same_text(members[i].0.as_str(), name) {
                return Some(&members[i].1);
            }
        }
        None
    }

    /// The truth value this value is.
    pub fn as_bool(&self) -> (r: Option<bool>)
        ensures
            r == as_bool(self@),
    {
        match self {
            JsonValue::Bool(b) => Some(*b),
            _ => None,
        }
    }

    /// The integer this value is, if it lies between `low` and `high`.
    pub fn as_integer(&self, low: i64, high: i64) -> (r: Option<i64>)
        ensures
            match r {
                Some(n) => as_integer(self@, low as int, high as int) == Some(n as int),
                None => as_integer(self@, low as int, high as int) is None,
            },
    {
        match self {
            JsonValue::Number(n) => if low <= *n && *n <= high {
                Some(*n)
            } else {
                None
            },
            _ => None,
        }
    }

    /// The text this value is.
    pub fn as_text(&self) -> (r: Option<&str>)
        ensures
            match r {
                Some(s) => as_text(self@) == Some(s@),
                None => as_text(self@) is None,
            },
    {
        match self {
            JsonValue::String(s) => Some(s.as_str()),
            _ => None,
        }
    }

    /// The elements of this value, if it is an array.
    pub fn as_elements(&self) -> (r: Option<&Vec<JsonValue>>)
        ensures
            match r {
                Some(values) => as_elements(self@) == Some(values_view(values@)),
                None => as_elements(self@) is None,
            },
    {
        match self {
            JsonValue::Array(values) => Some(values),
            _ => None,
        }
    }
}

} // verus!
