use vstd::prelude::*;

verus! {

/// The mathematical value of a message: what two messages must agree on to
/// be the same message.
pub enum Msg {
    Nil,
    Boolean(bool),
    /// Any integer from `-(2^63)` up to `2^64 - 1`.
    Integer(int),
    /// A 32-bit float, by its bit pattern.
    F32(u32),
    /// A 64-bit float, by its bit pattern.
    F64(u64),
    String(Seq<char>),
    Binary(Seq<u8>),
    Array(Seq<Msg>),
    /// Key-value pairs in wire order. Keys may repeat.
    Mapping(Seq<(Msg, Msg)>),
    Ext(i8, Seq<u8>),
}

/// A self-describing structured value, the unit of exchange on the wire.
#[derive(Debug, PartialEq)]
pub enum Message {
    Nil,
    Boolean(bool),
    /// An integer that is not negative.
    PosInt(u64),
    /// A negative integer.
    NegInt(i64),
    /// A 32-bit float, held as its bit pattern.
    F32(u32),
    /// A 64-bit float, held as its bit pattern.
    F64(u64),
    String(String),
    Binary(Vec<u8>),
    Array(Vec<Message>),
    /// Key-value pairs in wire order.
    Mapping(Vec<(Message, Message)>),
    /// An application-defined type tag with its payload.
    Ext(i8, Vec<u8>),
}

impl View for Message {
    type V = Msg;

    open spec fn view(&self) -> Msg
        decreases self,
    {
        match self {
            Message::Nil => Msg::Nil,
            Message::Boolean(b) => Msg::Boolean(*b),
            Message::PosInt(n) => Msg::Integer(*n as int),
            Message::NegInt(n) => Msg::Integer(*n as int),
            Message::F32(bits) => Msg::F32(*bits),
            Message::F64(bits) => Msg::F64(*bits),
            Message::String(s) => Msg::String(s@),
            Message::Binary(b) => Msg::Binary(b@),
            Message::Array(items) => Msg::Array(views(items@)),
            Message::Mapping(pairs) => Msg::Mapping(pair_views(pairs@)),
            Message::Ext(tag, data) => Msg::Ext(*tag, data@),
        }
    }
}

/// The values of a row of messages, in the same order.
pub open spec fn views(items: Seq<Message>) -> Seq<Msg>
    decreases items,
{
    if items.len() == 0 {
        Seq::empty()
    } else {
        views(items.drop_last()).push(items.last().view())
    }
}

/// The values of a row of key-value pairs, in the same order.
pub open spec fn pair_views(pairs: Seq<(Message, Message)>) -> Seq<(Msg, Msg)>
    decreases pairs,
{
    if pairs.len() == 0 {
        Seq::empty()
    } else {
        pair_views(pairs.drop_last()).push((pairs.last().0.view(), pairs.last().1.view()))
    }
}

/// `views` converts item by item.
pub proof fn lemma_views(items: Seq<Message>)
    ensures
        views(items).len() == items.len(),
        forall|i: int| 0 <= i < items.len() ==> (#[trigger] views(items)[i]) == items[i]@,
    decreases items.len(),
{
    if items.len() > 0 {
        lemma_views(items.drop_last());
        assert(views(items) == views(items.drop_last()).push(items.last()@));
    } else {
        assert(views(items) == Seq::<Msg>::empty());
    }
}

/// `pair_views` converts pair by pair.
pub proof fn lemma_pair_views(pairs: Seq<(Message, Message)>)
    ensures
        pair_views(pairs).len() == pairs.len(),
        forall|i: int|
            0 <= i < pairs.len() ==> (#[trigger] pair_views(pairs)[i]) == (
                pairs[i].0@,
                pairs[i].1@,
            ),
    decreases pairs.len(),
{
    if pairs.len() > 0 {
        lemma_pair_views(pairs.drop_last());
        assert(pair_views(pairs) == pair_views(pairs.drop_last()).push(
            (pairs.last().0@, pairs.last().1@),
        ));
    } else {
        assert(pair_views(pairs) == Seq::<(Msg, Msg)>::empty());
    }
}

/// How deep a message nests: a value that holds no other has depth 0, an
/// array or a mapping is one deeper than the deepest thing it holds.
pub open spec fn nesting(m: Msg) -> nat
    decreases m,
{
    match m {
        Msg::Array(items) => 1 + deepest(items),
        Msg::Mapping(pairs) => 1 + deepest_pair(pairs),
        _ => 0,
    }
}

/// The depth of the deepest of `items`, 0 where there is none.
pub open spec fn deepest(items: Seq<Msg>) -> nat
    decreases items,
{
    if items.len() == 0 {
        0
    } else {
        let before = deepest(items.drop_last());
        let last = nesting(items.last());
        if before >= last {
            before
        } else {
            last
        }
    }
}

/// The depth of the deepest key or value of `pairs`, 0 where there is none.
pub open spec fn deepest_pair(pairs: Seq<(Msg, Msg)>) -> nat
    decreases pairs,
{
    if pairs.len() == 0 {
        0
    } else {
        let before = deepest_pair(pairs.drop_last());
        let key = nesting(pairs.last().0);
        let value = nesting(pairs.last().1);
        let last = if key >= value {
            key
        } else {
            value
        };
        if before >= last {
            before
        } else {
            last
        }
    }
}

/// A row is as deep as `limit` at most exactly when each of its items is.
pub proof fn lemma_deepest(items: Seq<Msg>, limit: nat)
    ensures
        deepest(items) <= limit <==> forall|i: int|
            0 <= i < items.len() ==> nesting(#[trigger] items[i]) <= limit,
    decreases items.len(),
{
    if items.len() > 0 {
        let before = items.drop_last();
        lemma_deepest(before, limit);
        assert(deepest(items) == if deepest(before) >= nesting(items.last()) {
            deepest(before)
        } else {
            nesting(items.last())
        });
        if deepest(items) <= limit {
            assert forall|i: int| 0 <= i < items.len() implies nesting(#[trigger] items[i])
                <= limit by {
                if i < items.len() - 1 {
                    assert(before[i] == items[i]);
                }
            }
        }
        if forall|i: int| 0 <= i < items.len() ==> nesting(#[trigger] items[i]) <= limit {
            assert forall|i: int| 0 <= i < before.len() implies nesting(#[trigger] before[i])
                <= limit by {
                assert(before[i] == items[i]);
            }
            assert(nesting(items[items.len() - 1]) <= limit);
        }
    } else {
        assert(deepest(items) == 0);
    }
}

/// A row of pairs is as deep as `limit` at most exactly when each of its keys
/// and values is.
pub proof fn lemma_deepest_pair(pairs: Seq<(Msg, Msg)>, limit: nat)
    ensures
        deepest_pair(pairs) <= limit <==> forall|i: int|
            0 <= i < pairs.len() ==> nesting((#[trigger] pairs[i]).0) <= limit && nesting(
                pairs[i].1,
            ) <= limit,
    decreases pairs.len(),
{
    if pairs.len() > 0 {
        let before = pairs.drop_last();
        lemma_deepest_pair(before, limit);
        let key = nesting(pairs.last().0);
        let value = nesting(pairs.last().1);
        let last = if key >= value {
            key
        } else {
            value
        };
        assert(deepest_pair(pairs) == if deepest_pair(before) >= last {
            deepest_pair(before)
        } else {
            last
        });
        if deepest_pair(pairs) <= limit {
            assert forall|i: int| 0 <= i < pairs.len() implies nesting((#[trigger] pairs[i]).0)
                <= limit && nesting(pairs[i].1) <= limit by {
                if i < pairs.len() - 1 {
                    assert(before[i] == pairs[i]);
                }
            }
        }
        if forall|i: int|
            0 <= i < pairs.len() ==> nesting((#[trigger] pairs[i]).0) <= limit && nesting(
                pairs[i].1,
            ) <= limit {
            assert forall|i: int| 0 <= i < before.len() implies nesting(
                (#[trigger] before[i]).0,
            ) <= limit && nesting(before[i].1) <= limit by {
                assert(before[i] == pairs[i]);
            }
            assert(nesting(pairs[pairs.len() - 1].0) <= limit);
        }
    } else {
        assert(deepest_pair(pairs) == 0);
    }
}

/// Nesting counts the containers of a chain: an array around one message is
/// one deeper than the message, and so is a mapping that holds the message
/// under a key that is no deeper.
pub proof fn lemma_wrapping_adds_a_level(inner: Msg, key: Msg)
    requires
        nesting(key) <= nesting(inner),
    ensures
        nesting(Msg::Array(seq![inner])) == nesting(inner) + 1,
        nesting(Msg::Mapping(seq![(key, inner)])) == nesting(inner) + 1,
{
    let items = seq![inner];
    assert(items.drop_last() =~= Seq::<Msg>::empty());
    assert(deepest(items.drop_last()) == 0);
    assert(items.last() == inner);
    assert(deepest(items) == nesting(inner));
    let pairs = seq![(key, inner)];
    assert(pairs.drop_last() =~= Seq::<(Msg, Msg)>::empty());
    assert(deepest_pair(pairs.drop_last()) == 0);
    assert(pairs.last() == (key, inner));
    assert(deepest_pair(pairs) == nesting(inner));
}

/// The value under the first key of `pairs` that is the string `key`.
pub open spec fn entry_in(pairs: Seq<(Msg, Msg)>, key: Seq<char>) -> Option<Msg>
    decreases pairs.len(),
{
    if pairs.len() == 0 {
        None
    } else if pairs[0].0 == Msg::String(key) {
        Some(pairs[0].1)
    } else {
        entry_in(pairs.drop_first(), key)
    }
}

impl Msg {
    /// The value that a mapping holds under the string `key`: that of the
    /// first such key. There is none where no key is that string, or where
    /// this is no mapping.
    pub open spec fn entry(self, key: Seq<char>) -> Option<Msg> {
        match self {
            Msg::Mapping(pairs) => entry_in(pairs, key),
            _ => None,
        }
    }

    /// The text of a string message; no other kind has one.
    pub open spec fn text(self) -> Option<Seq<char>> {
        match self {
            Msg::String(s) => Some(s),
            _ => None,
        }
    }

    /// The text under the string `key`, where this is a mapping that holds a
    /// string there.
    pub open spec fn text_at(self, key: Seq<char>) -> Option<Seq<char>> {
        match self.entry(key) {
            Some(value) => value.text(),
            None => None,
        }
    }

    /// A mapping with the single entry `key` to `value`, both strings.
    pub open spec fn single(key: Seq<char>, value: Seq<char>) -> Msg {
        Msg::Mapping(seq![(Msg::String(key), Msg::String(value))])
    }
}

impl Message {
    /// Whether every integer of the message is held in its one form: a
    /// `NegInt` holds a negative number, here and in all that the message
    /// holds.
    pub open spec fn canonical(&self) -> bool
        decreases self,
    {
        match self {
            Message::NegInt(n) => *n < 0,
            Message::Array(items) => forall|i: int|
                0 <= i < items@.len() ==> (#[trigger] items@[i]).canonical(),
            Message::Mapping(pairs) => forall|i: int|
                0 <= i < pairs@.len() ==> (#[trigger] pairs@[i]).0.canonical()
                    && pairs@[i].1.canonical(),
            _ => true,
        }
    }

    /// Whether the message nests no deeper than `limit`.
    pub fn nests_within(&self, limit: usize) -> (ok: bool)
        ensures
            ok == (nesting(self@) <= limit),
        decreases self,
    {
        match self {
            Message::Array(items) => {
                proof {
                    lemma_views(items@);
                    assert(nesting(self@) == 1 + deepest(views(items@)));
                }
                if limit == 0 {
                    return false;
                }
                proof {
                    lemma_deepest(views(items@), (limit - 1) as nat);
                }
                let mut i: usize = 0;
                while i < items.len()
                    invariant
                        i <= items@.len(),
                        limit > 0,
                        *self == Message::Array(*items),
                        nesting(self@) == 1 + deepest(views(items@)),
                        views(items@).len() == items@.len(),
                        forall|j: int|
                            0 <= j < items@.len() ==> (#[trigger] views(items@)[j]) == items@[j]@,
                        forall|j: int|
                            0 <= j < i ==> nesting(#[trigger] views(items@)[j]) <= limit - 1,
                    decreases items@.len() - i,
                {
                    assert(decreases_to!(*items => items[i as int]));
                    if !items[i].nests_within(limit - 1) {
                        proof {
                            lemma_deepest(views(items@), (limit - 1) as nat);
                            assert(nesting(views(items@)[i as int]) > limit - 1);
                        }
                        return false;
                    }
                    i += 1;
                }
                true
            },
            Message::Mapping(pairs) => {
                proof {
                    lemma_pair_views(pairs@);
                    assert(nesting(self@) == 1 + deepest_pair(pair_views(pairs@)));
                }
                if limit == 0 {
                    return false;
                }
                proof {
                    lemma_deepest_pair(pair_views(pairs@), (limit - 1) as nat);
                }
                let mut i: usize = 0;
                while i < pairs.len()
                    invariant
                        i <= pairs@.len(),
                        limit > 0,
                        *self == Message::Mapping(*pairs),
                        nesting(self@) == 1 + deepest_pair(pair_views(pairs@)),
                        pair_views(pairs@).len() == pairs@.len(),
                        forall|j: int|
                            0 <= j < pairs@.len() ==> (#[trigger] pair_views(pairs@)[j]) == (
                                pairs@[j].0@,
                                pairs@[j].1@,
                            ),
                        forall|j: int|
                            0 <= j < i ==> nesting((#[trigger] pair_views(pairs@)[j]).0) <= limit
                                - 1 && nesting(pair_views(pairs@)[j].1) <= limit - 1,
                    decreases pairs@.len() - i,
                {
                    assert(decreases_to!(*pairs => pairs[i as int]));
                    if !pairs[i].0.nests_within(limit - 1) {
                        proof {
                            lemma_deepest_pair(pair_views(pairs@), (limit - 1) as nat);
                            assert(nesting(pair_views(pairs@)[i as int].0) > limit - 1);
                        }
                        return false;
                    }
                    if !pairs[i].1.nests_within(limit - 1) {
                        proof {
                            lemma_deepest_pair(pair_views(pairs@), (limit - 1) as nat);
                            assert(nesting(pair_views(pairs@)[i as int].1) > limit - 1);
                        }
                        return false;
                    }
                    i += 1;
                }
                true
            },
            _ => true,
        }
    }

    /// A string message with the text `text`.
    pub fn text(text: &str) -> (message: Message)
        ensures
            message@ == Msg::String(text@),
    {
        Message::String(text.to_owned())
    }

    /// A mapping with the single entry `key` to `value`, both strings.
    pub fn single(key: &str, value: String) -> (message: Message)
        ensures
            message@ == Msg::single(key@, value@),
    {
        let mut pairs: Vec<(Message, Message)> = Vec::new();
        pairs.push((Message::text(key), Message::String(value)));
        proof {
            lemma_pair_views(pairs@);
            assert(pair_views(pairs@) =~= seq![(Msg::String(key@), Msg::String(value@))]);
        }
        Message::Mapping(pairs)
    }

    /// The text of a string message.
    pub fn as_str(&self) -> (text: Option<&str>)
        ensures
            match text {
                Some(s) => self@.text() == Some(s@),
                None => self@.text() is None,
            },
    {
        match self {
            Message::String(s) => Some(s.as_str()),
            _ => None,
        }
    }

    /// Looks `key` up in a mapping: the value under the first key that is
    /// the string `key`.
    pub fn get(&self, key: &str) -> (found: Option<&Message>)
        ensures
            match found {
                Some(value) => self@.entry(key@) == Some(value@),
                None => self@.entry(key@) is None,
            },
    {
        match self {
            Message::Mapping(pairs) => {
                let wanted = key.to_owned();
                let mut i: usize = 0;
                proof {
                    lemma_pair_views(pairs@);
                    assert(pair_views(pairs@).skip(0) =~= pair_views(pairs@));
                }
                while i < pairs.len()
                    invariant
                        i <= pairs@.len(),
                        wanted@ == key@,
                        self@.entry(key@) == entry_in(pair_views(pairs@), key@),
                        pair_views(pairs@).len() == pairs@.len(),
                        forall|j: int|
                            0 <= j < pairs@.len() ==> (#[trigger] pair_views(pairs@)[j]) == (
                                pairs@[j].0@,
                                pairs@[j].1@,
                            ),
                        entry_in(pair_views(pairs@), key@) == entry_in(
                            pair_views(pairs@).skip(i as int),
                            key@,
                        ),
                    decreases pairs@.len() - i,
                {
                    let ghost rest = pair_views(pairs@).skip(i as int);
                    assert(rest[0] == pair_views(pairs@)[i as int]);
                    assert(rest.drop_first() =~= pair_views(pairs@).skip(i + 1));
                    let is_key = match &pairs[i].0 {
                        Message::String(s) => *s == wanted,
                        _ => false,
                    };
                    if is_key {
                        assert(rest[0].0 == Msg::String(key@));
                        assert(entry_in(rest, key@) == Some(rest[0].1));
                        return Some(&pairs[i].1);
                    }
                    assert(rest[0].0 != Msg::String(key@));
                    assert(entry_in(rest, key@) == entry_in(rest.drop_first(), key@));
                    i += 1;
                }
                None
            },
            _ => None,
        }
    }

    /// The text that a mapping holds under `key`, if it holds a string there.
    pub fn text_at(&self, key: &str) -> (text: Option<&str>)
        ensures
            match text {
                Some(s) => self@.text_at(key@) == Some(s@),
                None => self@.text_at(key@) is None,
            },
    {
        match self.get(key) {
            Some(value) => value.as_str(),
            None => None,
        }
    }
}

} // verus!
