//! Free-form values that an event carries: a JSON-like tree whose maps keep
//! the order in which their entries were put in.

use crate::text::str_eq;
use vstd::prelude::*;

verus! {

/// What a [`Value`] stands for: strings are sequences of characters, numbers
/// are integers, and an object is the sequence of its entries.
pub enum ValueView {
    Null,
    Bool(bool),
    Number(int),
    String(Seq<char>),
    Array(Seq<ValueView>),
    Object(Seq<(Seq<char>, ValueView)>),
}

/// What an [`Object`] stands for: its entries, key and value, in order.
pub type Entries = Seq<(Seq<char>, ValueView)>;

/// A value of the free-form parts of an event. Numbers are whole.
#[derive(Debug, PartialEq, Eq)]
pub enum Value {
    Null,
    Bool(bool),
    Number(i64),
    String(String),
    Array(Vec<Value>),
    Object(Object),
}

/// An ordered mapping from string keys to values. No key occurs twice.
#[derive(Debug, PartialEq, Eq)]
pub struct Object {
    entries: Vec<(String, Value)>,
}

/// Whether some entry of `entries` has the key `key`.
pub open spec fn has_key(entries: Entries, key: Seq<char>) -> bool {
    exists|i: int| 0 <= i < entries.len() && (#[trigger] entries[i]).0 == key
}

/// Whether no key occurs twice among `entries`.
pub open spec fn distinct_keys(entries: Entries) -> bool {
    forall|i: int, j: int|
        0 <= i < j < entries.len() ==> (#[trigger] entries[i]).0 != (#[trigger] entries[j]).0
}

impl View for Value {
    type V = ValueView;

    open spec fn view(&self) -> ValueView
        decreases self,
    {
        match self {
            Value::Null => ValueView::Null,
            Value::Bool(b) => ValueView::Bool(*b),
            Value::Number(n) => ValueView::Number(*n as int),
            Value::String(s) => ValueView::String(s@),
            Value::Array(items) => ValueView::Array(
                Seq::new(
                    items@.len(),
                    |i: int|
                        if 0 <= i < items@.len() {
                            items@[i].view()
                        } else {
                            ValueView::Null
                        },
                ),
            ),
            Value::Object(object) => ValueView::Object(object.view()),
        }
    }
}

/// What a list of pairs stands for: the key and the value of each, in order.
pub open spec fn entries_view(pairs: Seq<(String, Value)>) -> Entries
    decreases pairs,
{
    Seq::new(
        pairs.len(),
        |i: int|
            if 0 <= i < pairs.len() {
                (pairs[i].0@, pairs[i].1.view())
            } else {
                (Seq::empty(), ValueView::Null)
            },
    )
}

impl View for Object {
    type V = Entries;

    closed spec fn view(&self) -> Entries
        decreases self,
    {
        entries_view(self.entries@)
    }
}

impl Object {
    #[verifier::type_invariant]
    spec fn keys_are_distinct(&self) -> bool {
        distinct_keys(self@)
    }

    /// The mapping without entries.
    pub fn new() -> (object: Object)
        ensures
            object@ == Seq::<(Seq<char>, ValueView)>::empty(),
    {
        Object { entries: Vec::new() }
    }

    /// The mapping that results from putting each pair of `pairs` in turn
    /// into the empty one. Where a key occurs more than once, its last value
    /// stands at the place of its first.
    pub fn from_entries(pairs: Vec<(String, Value)>) -> (object: Object)
        ensures
            object@ == object_of(entries_view(pairs@)),
    {
        let ghost all = entries_view(pairs@);
        let mut object = Object::new();
        for pair in it: pairs
            invariant
                it.seq() == pairs@,
                all == entries_view(pairs@),
                object@ == object_of(all.take(it.index() as int)),
        {
            let ghost before = all.take(it.index() as int);
            let ghost after = all.take(it.index() + 1);
            assert(after.drop_last() =~= before);
            assert(after.last() == all[it.index() as int]);
            object.insert(pair.0, pair.1);
        }
        assert(all.take(pairs@.len() as int) =~= all);
        object
    }

    /// The number of entries. No two of them share a key.
    pub fn len(&self) -> (n: usize)
        ensures
            n == self@.len(),
            distinct_keys(self@),
    {
        proof {
            use_type_invariant(self);
        }
        self.entries.len()
    }

    /// The entry at `index`, counted from 0 in the order of insertion, if
    /// there is one.
    pub fn entry(&self, index: usize) -> (entry: Option<(&String, &Value)>)
        ensures
            index >= self@.len() ==> entry is None,
            index < self@.len() ==> (entry matches Some((key, value)) && (key@, value@)
                == self@[index as int]),
    {
        if index < self.entries.len() {
            let pair = &self.entries[index];
            Some((&pair.0, &pair.1))
        } else {
            None
        }
    }

    /// Whether an entry has the key `key`.
    pub fn contains_key(&self, key: &str) -> (found: bool)
        ensures
            found == has_key(self@, key@),
    {
        self.position(key).is_some()
    }

    /// The value under `key`, if an entry has that key.
    pub fn get(&self, key: &str) -> (value: Option<&Value>)
        ensures
            value is Some == has_key(self@, key@),
            value matches Some(v) ==> (exists|i: int|
                0 <= i < self@.len() && #[trigger] self@[i] == (key@, v@)),
    {
        match self.position(key) {
            Some(i) => Some(&self.entries[i].1),
            None => None,
        }
    }

    /// Puts `value` under `key`: in place of the value that the key had, or
    /// as a new last entry.
    pub fn insert(&mut self, key: String, value: Value)
        ensures
            final(self)@ == put(old(self)@, key@, value@),
    {
        let mut taken = Object::new();
        core::mem::swap(self, &mut taken);
        proof {
            use_type_invariant(&taken);
            lemma_put_keeps_distinct(taken@, key@, value@);
        }
        let found = taken.position(key.as_str());
        let mut entries = taken.entries;
        match found {
            Some(i) => {
                proof {
                    lemma_key_position(old(self)@, key@, i as int);
                }
                entries.set(i, (key, value));
            },
            None => {
                entries.push((key, value));
            },
        }
        let ghost after = Object { entries };
        assert(after@ =~= put(old(self)@, key@, value@));
        *self = Object { entries };
    }

    fn position(&self, key: &str) -> (found: Option<usize>)
        ensures
            found is Some == has_key(self@, key@),
            found matches Some(i) ==> i < self@.len() && self@[i as int].0 == key@,
    {
        let mut i: usize = 0;
        while i < self.entries.len()
            invariant
                i <= self.entries.len(),
                forall|j: int| 0 <= j < i ==> (#[trigger] self@[j]).0 != key@,
            decreases self.entries.len() - i,
        {
            if str_eq(self.entries[i].0.as_str(), key) {
                assert(self@[i as int].0 == key@);
                return Some(i);
            }
            i += 1;
        }
        None
    }
}

impl Clone for Value {
    /// A copy of the whole tree.
    fn clone(&self) -> (copy: Value)
        ensures
            copy@ == self@,
        decreases self,
    {
        match self {
            Value::Null => Value::Null,
            Value::Bool(b) => Value::Bool(*b),
            Value::Number(n) => Value::Number(*n),
            Value::String(s) => Value::String(s.clone()),
            Value::Array(items) => {
                let mut copies: Vec<Value> = Vec::new();
                let mut i: usize = 0;
                while i < items.len()
                    invariant
                        i <= items.len(),
                        copies.len() == i,
                        *self == Value::Array(*items),
                        forall|j: int| 0 <= j < i ==> (#[trigger] copies@[j])@ == items@[j]@,
                    decreases items.len() - i,
                {
                    assert(decreases_to!(self => self->Array_0));
                    copies.push(items[i].clone());
                    i += 1;
                }
                let copy = Value::Array(copies);
                assert(copy@->Array_0 =~= self@->Array_0);
                copy
            },
            Value::Object(object) => Value::Object(object.clone()),
        }
    }
}

impl Clone for Object {
    /// A copy of the mapping and of every value in it.
    fn clone(&self) -> (copy: Object)
        ensures
            copy@ == self@,
        decreases self,
    {
        let mut entries: Vec<(String, Value)> = Vec::new();
        let mut i: usize = 0;
        while i < self.entries.len()
            invariant
                i <= self.entries.len(),
                entries.len() == i,
                forall|j: int|
                    0 <= j < i ==> (#[trigger] entries@[j]).0@ == self.entries@[j].0@
                        && entries@[j].1@ == self.entries@[j].1@,
            decreases self.entries.len() - i,
        {
            let pair = &self.entries[i];
            entries.push((pair.0.clone(), pair.1.clone()));
            i += 1;
        }
        proof {
            use_type_invariant(self);
            let ghost copy = Object { entries };
            assert(copy@ =~= self@);
        }
        Object { entries }
    }
}

/// The index of the entry of `entries` that has the key `key`.
pub open spec fn key_position(entries: Entries, key: Seq<char>) -> int {
    choose|i: int| 0 <= i < entries.len() && (#[trigger] entries[i]).0 == key
}

/// `entries` with `value` under `key`: in place of the value that the key
/// had, or as a new last entry.
pub open spec fn put(entries: Entries, key: Seq<char>, value: ValueView) -> Entries {
    if has_key(entries, key) {
        entries.update(key_position(entries, key), (key, value))
    } else {
        entries.push((key, value))
    }
}

/// The entries that result from putting each entry of `fields` in turn into
/// the empty mapping.
pub open spec fn object_of(fields: Entries) -> Entries
    decreases fields.len(),
{
    if fields.len() == 0 {
        Seq::empty()
    } else {
        put(object_of(fields.drop_last()), fields.last().0, fields.last().1)
    }
}

/// Entries with distinct keys make up the mapping that holds just them, in
/// their order.
pub proof fn lemma_object_of_distinct(fields: Entries)
    requires
        distinct_keys(fields),
    ensures
        object_of(fields) == fields,
    decreases fields.len(),
{
    if fields.len() == 0 {
        assert(fields =~= Seq::empty());
    } else {
        let rest = fields.drop_last();
        assert forall|i: int, j: int| 0 <= i < j < rest.len() implies (#[trigger] rest[i]).0
            != (#[trigger] rest[j]).0 by {
            assert(fields[i].0 != fields[j].0);
        }
        lemma_object_of_distinct(rest);
        assert(!has_key(rest, fields.last().0)) by {
            assert forall|i: int| 0 <= i < rest.len() implies (#[trigger] rest[i]).0
                != fields.last().0 by {
                assert(fields[i].0 != fields[fields.len() - 1].0);
            }
        }
        assert(rest.push(fields.last()) =~= fields);
    }
}

/// Among distinct keys, the entry that has a key is the one at its position.
pub proof fn lemma_key_position(entries: Entries, key: Seq<char>, i: int)
    requires
        distinct_keys(entries),
        0 <= i < entries.len(),
        entries[i].0 == key,
    ensures
        has_key(entries, key),
        key_position(entries, key) == i,
{
    let p = key_position(entries, key);
    assert(0 <= p < entries.len() && entries[p].0 == key);
    if p < i {
        assert(entries[p].0 != entries[i].0);
    } else if i < p {
        assert(entries[i].0 != entries[p].0);
    }
}

/// Putting a value under a key keeps the keys distinct.
pub proof fn lemma_put_keeps_distinct(entries: Entries, key: Seq<char>, value: ValueView)
    requires
        distinct_keys(entries),
    ensures
        distinct_keys(put(entries, key, value)),
{
    let after = put(entries, key, value);
    if has_key(entries, key) {
        let p = key_position(entries, key);
        assert forall|i: int, j: int| 0 <= i < j < after.len() implies (#[trigger] after[i]).0
            != (#[trigger] after[j]).0 by {
            assert(entries[i].0 != entries[j].0);
        }
    } else {
        assert forall|i: int, j: int| 0 <= i < j < after.len() implies (#[trigger] after[i]).0
            != (#[trigger] after[j]).0 by {
            if j < entries.len() {
                assert(entries[i].0 != entries[j].0);
            } else {
                assert(entries[i].0 != key);
            }
        }
    }
}

} // verus!
