//! Loosely typed record values as a tagged variant, with their mathematical
//! model.

use vstd::prelude::*;
use crate::table::Table;
use crate::text::{decimal_text, signed_decimal, signed_text};

verus! {

/// A number as it stands in a record: an integer that fits a machine word,
/// or the canonical decimal text of any other number.
#[derive(Debug)]
pub enum JsonNumber {
    Unsigned(u64),
    Signed(i64),
    Real(String),
}

/// A record value of any shape.
#[derive(Debug)]
pub enum JsonValue {
    Null,
    Bool(bool),
    Number(JsonNumber),
    Text(String),
    Array(Vec<JsonValue>),
    Object(Table<JsonValue>),
}

/// A keyed collection of values: a request body or a query record.
pub type JsonObject = Table<JsonValue>;

/// What a value is, apart from how it is stored. The two integer variants
/// of a number share one model, and the members of an object have no order.
pub enum JsonModel {
    Null,
    Bool(bool),
    Integer(int),
    Real(Seq<char>),
    Text(Seq<char>),
    Array(Seq<JsonModel>),
    Object(Map<Seq<char>, JsonModel>),
}

impl View for JsonValue {
    type V = JsonModel;

    open spec fn view(&self) -> JsonModel
        decreases self,
    {
        match self {
            JsonValue::Null => JsonModel::Null,
            JsonValue::Bool(b) => JsonModel::Bool(*b),
            JsonValue::Number(JsonNumber::Unsigned(n)) => JsonModel::Integer(*n as int),
            JsonValue::Number(JsonNumber::Signed(n)) => JsonModel::Integer(*n as int),
            JsonValue::Number(JsonNumber::Real(text)) => JsonModel::Real(text@),
            JsonValue::Text(text) => JsonModel::Text(text@),
            JsonValue::Array(items) => JsonModel::Array(
                Seq::new(
                    items@.len(),
                    |i: int|
                        if 0 <= i < items@.len() {
                            items@[i].view()
                        } else {
                            JsonModel::Null
                        },
                ),
            ),
            JsonValue::Object(members) => JsonModel::Object(
                Map::new(
                    |k: Seq<char>| members.keys().contains(k),
                    |k: Seq<char>|
                        if members.keys().contains(k) {
                            proof {
                                members.lemma_value_of_smaller(k);
                            }
                            members.value_of(k).view()
                        } else {
                            JsonModel::Null
                        },
                ),
            ),
        }
    }
}

/// The model of a keyed collection: each key with the model of its value.
pub open spec fn object_model(members: Table<JsonValue>) -> Map<Seq<char>, JsonModel> {
    Map::new(|k: Seq<char>| members@.contains_key(k), |k: Seq<char>| members@[k]@)
}

/// The model of an optional keyed collection.
pub open spec fn optional_object_model(members: Option<Table<JsonValue>>) -> Option<
    Map<Seq<char>, JsonModel>,
> {
    match members {
        Some(m) => Some(object_model(m)),
        None => None,
    }
}

/// The text that stands for a value inside a path: a string as it is, a
/// number in its canonical decimal form, and nothing for any other value.
pub open spec fn path_text(value: JsonModel) -> Seq<char> {
    match value {
        JsonModel::Text(text) => text,
        JsonModel::Integer(i) => signed_decimal(i),
        JsonModel::Real(text) => text,
        _ => Seq::empty(),
    }
}

impl JsonNumber {
    /// A copy of the number.
    pub fn duplicate(&self) -> (copy: JsonNumber)
        ensures
            copy == *self,
    {
        match self {
            JsonNumber::Unsigned(n) => JsonNumber::Unsigned(*n),
            JsonNumber::Signed(n) => JsonNumber::Signed(*n),
            JsonNumber::Real(text) => JsonNumber::Real(text.clone()),
        }
    }
}

impl JsonValue {
    /// A deep copy of the value.
    pub fn duplicate(&self) -> (copy: JsonValue)
        ensures
            copy@ == self@,
        decreases self, 1nat,
    {
        match self {
            JsonValue::Null => JsonValue::Null,
            JsonValue::Bool(b) => JsonValue::Bool(*b),
            JsonValue::Number(n) => JsonValue::Number(n.duplicate()),
            JsonValue::Text(text) => JsonValue::Text(text.clone()),
            JsonValue::Array(items) => {
                let copies = duplicate_items(items);
                proof {
                    let made = JsonValue::Array(copies)@;
                    assert(made is Array && self@ is Array);
                    assert(made->Array_0 =~= self@->Array_0);
                }
                JsonValue::Array(copies)
            },
            JsonValue::Object(members) => {
                let copies = duplicate_object(members);
                proof {
                    let made = JsonValue::Object(copies)@;
                    assert(made is Object && self@ is Object);
                    assert forall|k: Seq<char>| members.keys().contains(k) implies (
                    #[trigger] made->Object_0[k]) == self@->Object_0[k] by {
                        assert(object_model(copies)[k] == object_model(*members)[k]);
                    }
                    assert(made->Object_0 =~= self@->Object_0);
                }
                JsonValue::Object(copies)
            },
        }
    }

    /// The text that this value contributes to a path.
    pub fn path_text(&self) -> (text: String)
        ensures
            text@ == path_text(self@),
    {
        match self {
            JsonValue::Text(text) => text.clone(),
            JsonValue::Number(JsonNumber::Unsigned(n)) => decimal_text(*n),
            JsonValue::Number(JsonNumber::Signed(n)) => signed_text(*n),
            JsonValue::Number(JsonNumber::Real(text)) => text.clone(),
            _ => String::new(),
        }
    }
}

/// Deep copies of the items of an array, in order.
fn duplicate_items(items: &Vec<JsonValue>) -> (copies: Vec<JsonValue>)
    ensures
        copies@.len() == items@.len(),
        forall|j: int| 0 <= j < items@.len() ==> (#[trigger] copies@[j])@ == items@[j]@,
    decreases items, 0nat,
{
    let mut copies: Vec<JsonValue> = Vec::new();
    let mut i: usize = 0;
    while i < items.len()
        invariant
            i <= items.len(),
            copies@.len() == i,
            forall|j: int| 0 <= j < i ==> (#[trigger] copies@[j])@ == items@[j]@,
        decreases items.len() - i,
    {
        copies.push(items[i].duplicate());
        i = i + 1;
    }
    copies
}

/// A deep copy of a keyed collection: the same keys in the same order, each
/// with a copy of its value.
pub fn duplicate_object(members: &Table<JsonValue>) -> (copy: Table<JsonValue>)
    ensures
        copy.wf(),
        copy.keys() == members.keys(),
        object_model(copy) == object_model(*members),
    decreases members, 0nat,
{
    let n = members.len();
    let mut copy: Table<JsonValue> = Table::new();
    let mut i: usize = 0;
    while i < n
        invariant
            members.wf(),
            copy.wf(),
            n == members.keys().len(),
            n == members.values().len(),
            i <= n,
            copy.keys() == members.keys().take(i as int),
            copy.values().len() == i,
            forall|j: int| 0 <= j < i ==> (#[trigger] copy.values()[j])@ == members.values()[j]@,
        decreases n - i,
    {
        let key = members.key_at(i).clone();
        proof {
            members.lemma_entries();
            members.lemma_value_smaller(i as int);
            assert(!members.keys().take(i as int).contains(key@));
        }
        let value = members.value_at(i).duplicate();
        copy.insert_fresh(key, value);
        i = i + 1;
        assert(copy.keys() =~= members.keys().take(i as int));
    }
    proof {
        assert(copy.keys() =~= members.keys());
        copy.lemma_entries();
        members.lemma_entries();
        assert forall|k: Seq<char>| copy@.contains_key(k) implies copy@[k]@ == members@[k]@ by {
            let j = copy.keys().index_of(k);
            assert(copy.keys()[j] == k);
        }
        assert(object_model(copy) =~= object_model(*members));
    }
    copy
}

} // verus!
