use crate::message::{lemma_pair_views, lemma_views, Message, Msg};
use crate::wire::{
    array_value, contents_of, leaf_message, leaf_value, map_value, pair_contents_of, take_array,
    take_map, value_content,
};
use rmpv::Value;
use vstd::prelude::*;

verus! {

/// The items of `items`, last first.
fn reversed<T>(items: Vec<T>) -> (out: Vec<T>)
    ensures
        out@.len() == items@.len(),
        forall|i: int| 0 <= i < out@.len() ==> out@[i] == items@[items@.len() - 1 - i],
{
    let ghost all = items@;
    let mut rest = items;
    let mut out: Vec<T> = Vec::new();
    while rest.len() > 0
        invariant
            rest@.len() + out@.len() == all.len(),
            rest@ == all.take(rest@.len() as int),
            forall|i: int| 0 <= i < out@.len() ==> out@[i] == all[all.len() - 1 - i],
        decreases rest@.len(),
    {
        let item = rest.pop().unwrap();
        out.push(item);
    }
    out
}

/// Converts each value of a row, keeping the order.
fn messages_from(items: Vec<Value>) -> (out: Vec<Message>)
    ensures
        out@.len() == items@.len(),
        forall|i: int| 0 <= i < out@.len() ==> (#[trigger] out@[i])@ == value_content(items@[i]),
        forall|i: int| 0 <= i < out@.len() ==> (#[trigger] out@[i]).canonical(),
    decreases contents_of(items@),
{
    let ghost all = items@;
    let mut rest = items;
    let mut back: Vec<Message> = Vec::new();
    while rest.len() > 0
        invariant
            all == items@,
            rest@.len() + back@.len() == all.len(),
            rest@ == all.take(rest@.len() as int),
            forall|j: int|
                0 <= j < back@.len() ==> (#[trigger] back@[j])@ == value_content(
                    all[all.len() - 1 - j],
                ),
            forall|j: int| 0 <= j < back@.len() ==> (#[trigger] back@[j]).canonical(),
        decreases rest@.len(),
    {
        let item = rest.pop().unwrap();
        assert(value_content(item) == contents_of(all)[rest@.len() as int]);
        assert(decreases_to!(contents_of(all) => contents_of(all)[rest@.len() as int]));
        back.push(Message::from_value(item));
    }
    reversed(back)
}

/// Converts each key and value of a row of pairs, keeping the order.
fn message_pairs_from(pairs: Vec<(Value, Value)>) -> (out: Vec<(Message, Message)>)
    ensures
        out@.len() == pairs@.len(),
        forall|i: int|
            0 <= i < out@.len() ==> {
                &&& (#[trigger] out@[i]).0@ == value_content(pairs@[i].0)
                &&& out@[i].1@ == value_content(pairs@[i].1)
            },
        forall|i: int|
            0 <= i < out@.len() ==> (#[trigger] out@[i]).0.canonical() && out@[i].1.canonical(),
    decreases pair_contents_of(pairs@),
{
    let ghost all = pairs@;
    let mut rest = pairs;
    let mut back: Vec<(Message, Message)> = Vec::new();
    while rest.len() > 0
        invariant
            all == pairs@,
            rest@.len() + back@.len() == all.len(),
            rest@ == all.take(rest@.len() as int),
            forall|j: int|
                0 <= j < back@.len() ==> {
                    &&& (#[trigger] back@[j]).0@ == value_content(all[all.len() - 1 - j].0)
                    &&& back@[j].1@ == value_content(all[all.len() - 1 - j].1)
                },
            forall|j: int|
                0 <= j < back@.len() ==> (#[trigger] back@[j]).0.canonical()
                    && back@[j].1.canonical(),
        decreases rest@.len(),
    {
        let (key, value) = rest.pop().unwrap();
        assert(value_content(key) == pair_contents_of(all)[rest@.len() as int].0);
        assert(value_content(value) == pair_contents_of(all)[rest@.len() as int].1);
        assert(decreases_to!(pair_contents_of(all) => pair_contents_of(all)[rest@.len() as int]));
        let key = Message::from_value(key);
        let value = Message::from_value(value);
        back.push((key, value));
    }
    reversed(back)
}

/// Converts each message of a row, keeping the order.
fn values_from(items: Vec<Message>) -> (out: Vec<Value>)
    ensures
        out@.len() == items@.len(),
        forall|i: int| 0 <= i < out@.len() ==> value_content(#[trigger] out@[i]) == items@[i]@,
    decreases items,
{
    let ghost all = items@;
    let mut rest = items;
    let mut back: Vec<Value> = Vec::new();
    while rest.len() > 0
        invariant
            all == items@,
            rest@.len() + back@.len() == all.len(),
            rest@ == all.take(rest@.len() as int),
            forall|j: int|
                0 <= j < back@.len() ==> value_content(#[trigger] back@[j]) == all[all.len() - 1
                    - j]@,
        decreases rest@.len(),
    {
        let item = rest.pop().unwrap();
        assert(item == items@[rest@.len() as int]);
        back.push(item.into_value());
    }
    reversed(back)
}

/// Converts each key and value of a row of pairs, keeping the order.
fn value_pairs_from(pairs: Vec<(Message, Message)>) -> (out: Vec<(Value, Value)>)
    ensures
        out@.len() == pairs@.len(),
        forall|i: int|
            0 <= i < out@.len() ==> {
                &&& value_content((#[trigger] out@[i]).0) == pairs@[i].0@
                &&& value_content(out@[i].1) == pairs@[i].1@
            },
    decreases pairs,
{
    let ghost all = pairs@;
    let mut rest = pairs;
    let mut back: Vec<(Value, Value)> = Vec::new();
    while rest.len() > 0
        invariant
            all == pairs@,
            rest@.len() + back@.len() == all.len(),
            rest@ == all.take(rest@.len() as int),
            forall|j: int|
                0 <= j < back@.len() ==> {
                    &&& value_content((#[trigger] back@[j]).0) == all[all.len() - 1 - j].0@
                    &&& value_content(back@[j].1) == all[all.len() - 1 - j].1@
                },
        decreases rest@.len(),
    {
        let (key, value) = rest.pop().unwrap();
        assert(key == pairs@[rest@.len() as int].0);
        assert(value == pairs@[rest@.len() as int].1);
        let key = key.into_value();
        let value = value.into_value();
        back.push((key, value));
    }
    reversed(back)
}

/// Puts an integer that is not negative into the form for such integers.
fn canonical_leaf(message: Message) -> (out: Message)
    requires
        !(message is Array),
        !(message is Mapping),
    ensures
        out@ == message@,
        out.canonical(),
{
    match message {
        Message::NegInt(n) => if n >= 0 {
            Message::PosInt(n as u64)
        } else {
            Message::NegInt(n)
        },
        other => other,
    }
}

impl Message {
    /// The message that a MessagePack value stands for, kind by kind, with
    /// every integer in its one form. A string that is not UTF-8 becomes
    /// binary data.
    pub fn from_value(value: Value) -> (message: Message)
        ensures
            message@ == value_content(value),
            message.canonical(),
        decreases value_content(value),
    {
        match take_array(value) {
            Ok(items) => {
                assert(decreases_to!(value_content(value) => value_content(value)->Array_0));
                let converted = messages_from(items);
                let message = Message::Array(converted);
                proof {
                    lemma_views(converted@);
                    assert(message@->Array_0 =~= contents_of(items@));
                }
                message
            },
            Err(value) => match take_map(value) {
                Ok(pairs) => {
                    assert(decreases_to!(value_content(value) => value_content(value)->Mapping_0));
                    let converted = message_pairs_from(pairs);
                    let message = Message::Mapping(converted);
                    proof {
                        lemma_pair_views(converted@);
                        assert(message@->Mapping_0 =~= pair_contents_of(pairs@));
                    }
                    message
                },
                Err(value) => canonical_leaf(leaf_message(value)),
            },
        }
    }

    /// The MessagePack value that stands for this message.
    pub fn into_value(self) -> (value: Value)
        ensures
            value_content(value) == self@,
        decreases self,
    {
        match self {
            Message::Array(items) => {
                let converted = values_from(items);
                proof {
                    lemma_views(items@);
                    assert(contents_of(converted@) =~= self@->Array_0);
                }
                array_value(converted)
            },
            Message::Mapping(pairs) => {
                let converted = value_pairs_from(pairs);
                proof {
                    lemma_pair_views(pairs@);
                    assert(pair_contents_of(converted@) =~= self@->Mapping_0);
                }
                map_value(converted)
            },
            leaf => leaf_value(leaf),
        }
    }
}

} // verus!
