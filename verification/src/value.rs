//! The value tree: the untyped intermediate form between the document model
//! and JSON text, together with its mathematical model.

use vstd::prelude::*;

verus! {

/// Mathematical model of a value tree.
///
/// A number is carried as the bit pattern of an IEEE-754 single-precision
/// value, which is the precision of the coordinates stored in a document.
/// An object is a sequence of members; a key is looked up by its first
/// occurrence, so the order of members never influences what is read back.
pub ghost enum Json {
    Null,
    Bool(bool),
    Number(u32),
    String(Seq<char>),
    Array(Seq<Json>),
    Object(Seq<(Seq<char>, Json)>),
}

/// Index of the first entry at or after `from` whose key is `key`, or the
/// number of entries when there is none.
pub open spec fn index_from<V>(entries: Seq<(Seq<char>, V)>, key: Seq<char>, from: int) -> int
    decreases entries.len() - from,
{
    if from < 0 || from >= entries.len() {
        entries.len() as int
    } else if entries[from].0 == key {
        from
    } else {
        index_from(entries, key, from + 1)
    }
}

/// Index of the first entry whose key is `key`, or the number of entries.
pub open spec fn index_of<V>(entries: Seq<(Seq<char>, V)>, key: Seq<char>) -> int {
    index_from(entries, key, 0)
}

/// The value stored under `key`, if any.
pub open spec fn find<V>(entries: Seq<(Seq<char>, V)>, key: Seq<char>) -> Option<V> {
    let i = index_of(entries, key);
    if i < entries.len() {
        Some(entries[i].1)
    } else {
        None
    }
}

/// The entries after storing `value` under `key`: an existing entry for the
/// key is overwritten in place, otherwise a new entry is appended.
pub open spec fn put<V>(entries: Seq<(Seq<char>, V)>, key: Seq<char>, value: V) -> Seq<
    (Seq<char>, V),
> {
    let i = index_of(entries, key);
    if i < entries.len() {
        entries.update(i, (key, value))
    } else {
        entries.push((key, value))
    }
}

/// No key occurs twice.
pub open spec fn distinct_keys<V>(entries: Seq<(Seq<char>, V)>) -> bool {
    forall|i: int, j: int|
        0 <= i < j < entries.len() ==> (#[trigger] entries[i]).0 != (#[trigger] entries[j]).0
}

/// `at` is where the first entry for `key` stands, or the length if none does.
pub open spec fn first_match<V>(entries: Seq<(Seq<char>, V)>, key: Seq<char>, at: int) -> bool {
    &&& 0 <= at <= entries.len()
    &&& at < entries.len() ==> entries[at].0 == key
    &&& forall|j: int| 0 <= j < at ==> (#[trigger] entries[j]).0 != key
}

/// Where the search from `from` ends: at the first entry for `key` behind
/// `from`, or at the end.
pub proof fn lemma_index_from<V>(entries: Seq<(Seq<char>, V)>, key: Seq<char>, from: int)
    requires
        0 <= from <= entries.len(),
    ensures
        from <= index_from(entries, key, from) <= entries.len(),
        index_from(entries, key, from) < entries.len() ==> entries[index_from(
            entries,
            key,
            from,
        )].0 == key,
        forall|j: int|
            from <= j < index_from(entries, key, from) ==> (#[trigger] entries[j]).0 != key,
    decreases entries.len() - from,
{
    if from < entries.len() && entries[from].0 != key {
        lemma_index_from(entries, key, from + 1);
    }
}

/// `index_of` is the first match, and nothing else is.
pub proof fn lemma_index_of<V>(entries: Seq<(Seq<char>, V)>, key: Seq<char>)
    ensures
        first_match(entries, key, index_of(entries, key)),
        forall|at: int| first_match(entries, key, at) ==> at == index_of(entries, key),
{
    lemma_index_from(entries, key, 0);
}

/// What was stored under a key is what is found under it.
pub proof fn lemma_find_put_same<V>(entries: Seq<(Seq<char>, V)>, key: Seq<char>, value: V)
    ensures
        find(put(entries, key, value), key) == Some(value),
        put(entries, key, value).len() >= entries.len(),
{
    lemma_index_of(entries, key);
    let i = index_of(entries, key);
    let after = put(entries, key, value);
    assert(first_match(after, key, i));
    lemma_index_of(after, key);
}

/// Storing under one key leaves every other key as it was.
pub proof fn lemma_find_put_other<V>(
    entries: Seq<(Seq<char>, V)>,
    key: Seq<char>,
    value: V,
    other: Seq<char>,
)
    requires
        other != key,
    ensures
        find(put(entries, key, value), other) == find(entries, other),
{
    lemma_index_of(entries, key);
    lemma_index_of(entries, other);
    let after = put(entries, key, value);
    let j = index_of(entries, other);
    if j < entries.len() {
        assert(first_match(after, other, j));
    } else {
        assert(first_match(after, other, after.len() as int));
    }
    lemma_index_of(after, other);
}

/// Storing keeps keys distinct.
pub proof fn lemma_put_distinct<V>(entries: Seq<(Seq<char>, V)>, key: Seq<char>, value: V)
    requires
        distinct_keys(entries),
    ensures
        distinct_keys(put(entries, key, value)),
{
    lemma_index_of(entries, key);
}

/// The order of entries does not matter: two runs of entries with distinct
/// keys that hold the same entries find the same under every key.
pub proof fn lemma_find_ignores_order<V>(
    left: Seq<(Seq<char>, V)>,
    right: Seq<(Seq<char>, V)>,
    key: Seq<char>,
)
    requires
        distinct_keys(left),
        distinct_keys(right),
        forall|i: int| 0 <= i < left.len() ==> right.contains(#[trigger] left[i]),
        forall|j: int| 0 <= j < right.len() ==> left.contains(#[trigger] right[j]),
    ensures
        find(left, key) == find(right, key),
{
    lemma_index_of(left, key);
    lemma_index_of(right, key);
    let i = index_of(left, key);
    let j = index_of(right, key);
    if i < left.len() {
        assert(right.contains(left[i]));
        let at = choose|at: int| 0 <= at < right.len() && right[at] == left[i];
        assert(right[at].0 == key);
        if j != at {
            assert(right[j].0 != right[at].0);
        }
    } else if j < right.len() {
        assert(left.contains(right[j]));
        let at = choose|at: int| 0 <= at < left.len() && left[at] == right[j];
        assert(left[at].0 == key);
    }
}

/// Storing a well-formed node in a well-formed node leaves it well-formed.
pub proof fn lemma_with_field_well_formed(node: Json, key: Seq<char>, value: Json)
    requires
        node.well_formed(),
        value.well_formed(),
    ensures
        node.with_field(key, value).well_formed(),
{
    let members = node.members();
    let after = put(members, key, value);
    assert(distinct_keys(members));
    lemma_put_distinct(members, key, value);
    lemma_index_of(members, key);
    assert forall|i: int| 0 <= i < after.len() implies (#[trigger] after[i]).1.well_formed() by {
        if after[i] != (key, value) {
            assert(after[i] == members[i]);
        }
    }
}

impl Json {
    /// The member stored under `key` when this is an object that has one.
    pub open spec fn field(self, key: Seq<char>) -> Option<Json> {
        match self {
            Json::Object(members) => find(members, key),
            _ => None,
        }
    }

    /// The members of an object; none for any other node.
    pub open spec fn members(self) -> Seq<(Seq<char>, Json)> {
        match self {
            Json::Object(members) => members,
            _ => Seq::empty(),
        }
    }

    /// No object of the tree has two members of one key.
    pub open spec fn well_formed(self) -> bool
        decreases self,
    {
        match self {
            Json::Array(items) => forall|i: int|
                0 <= i < items.len() ==> (#[trigger] items[i]).well_formed(),
            Json::Object(members) => distinct_keys(members) && forall|i: int|
                0 <= i < members.len() ==> (#[trigger] members[i]).1.well_formed(),
            _ => true,
        }
    }

    /// The node after storing `value` under `key`: a node that is not yet an
    /// object first becomes an empty one.
    pub open spec fn with_field(self, key: Seq<char>, value: Json) -> Json {
        Json::Object(put(self.members(), key, value))
    }
}

/// One node of a value tree.
#[derive(Debug, PartialEq)]
pub enum Value {
    Null,
    Bool(bool),
    Number(u32),
    String(String),
    Array(Vec<Value>),
    Object(Vec<(String, Value)>),
}

/// Model of a run of object members.
pub open spec fn members_json(members: Seq<(String, Value)>) -> Seq<(Seq<char>, Json)>
    decreases members,
{
    Seq::new(
        members.len(),
        |i: int|
            if 0 <= i < members.len() {
                (members[i].0@, members[i].1.json())
            } else {
                (Seq::empty(), Json::Null)
            },
    )
}

/// Model of a run of array items.
pub open spec fn items_json(items: Seq<Value>) -> Seq<Json>
    decreases items,
{
    Seq::new(
        items.len(),
        |i: int|
            if 0 <= i < items.len() {
                items[i].json()
            } else {
                Json::Null
            },
    )
}

impl Value {
    /// The mathematical tree that this node stands for.
    pub open spec fn json(self) -> Json
        decreases self,
    {
        match self {
            Value::Null => Json::Null,
            Value::Bool(b) => Json::Bool(b),
            Value::Number(n) => Json::Number(n),
            Value::String(s) => Json::String(s@),
            Value::Array(items) => Json::Array(items_json(items@)),
            Value::Object(members) => Json::Object(members_json(members@)),
        }
    }

    /// A node holding nothing.
    pub fn null() -> (value: Value)
        ensures
            value.json() == Json::Null,
    {
        Value::Null
    }

    /// A string leaf.
    pub fn string(text: &str) -> (value: Value)
        ensures
            value.json() == Json::String(text@),
    {
        Value::String(text.to_owned())
    }

    /// A number leaf from the bits of a single-precision value.
    pub fn number(bits: u32) -> (value: Value)
        ensures
            value.json() == Json::Number(bits),
    {
        Value::Number(bits)
    }

    /// Whether the node holds nothing.
    pub fn is_null(&self) -> (b: bool)
        ensures
            b == (self.json() == Json::Null),
    {
        match self {
            Value::Null => true,
            _ => false,
        }
    }

    /// The text of a string leaf.
    pub fn as_str(&self) -> (text: Option<&str>)
        ensures
            match text {
                Some(s) => self.json() == Json::String(s@),
                None => !(self.json() is String),
            },
    {
        match self {
            Value::String(s) => Some(s.as_str()),
            _ => None,
        }
    }

    /// The bits of a number leaf.
    pub fn as_number(&self) -> (bits: Option<u32>)
        ensures
            match bits {
                Some(n) => self.json() == Json::Number(n),
                None => !(self.json() is Number),
            },
    {
        match self {
            Value::Number(n) => Some(*n),
            _ => None,
        }
    }

    /// The items of an array node.
    pub fn as_array(&self) -> (items: Option<&Vec<Value>>)
        ensures
            match items {
                Some(v) => self.json() == Json::Array(items_json(v@)),
                None => !(self.json() is Array),
            },
    {
        match self {
            Value::Array(items) => Some(items),
            _ => None,
        }
    }

    /// The member stored under `key`, when this is an object that has one.
    pub fn get(&self, key: &str) -> (member: Option<&Value>)
        ensures
            match member {
                Some(v) => self.json().field(key@) == Some(v.json()),
                None => self.json().field(key@) is None,
            },
    {
        match self {
            Value::Object(members) => {
                let wanted = key.to_owned();
                let at = locate(members, &wanted);
                proof {
                    lemma_index_of(members_json(members@), key@);
                    assert(first_match(members_json(members@), key@, at as int));
                }
                if at < members.len() {
                    Some(&members[at].1)
                } else {
                    None
                }
            },
            _ => None,
        }
    }

    /// Stores `value` under `key`, first turning a node that is not an
    /// object into an empty one. An existing member of that key is replaced.
    pub fn insert(&mut self, key: &str, value: Value)
        ensures
            final(self).json() == old(self).json().with_field(key@, value.json()),
            distinct_keys(old(self).json().members()) ==> distinct_keys(
                final(self).json().members(),
            ),
    {
        let ghost before = self.json();
        proof {
            if distinct_keys(before.members()) {
                lemma_put_distinct(before.members(), key@, value.json());
            }
        }
        let mut members: Vec<(String, Value)> = Vec::new();
        if let Value::Object(_) = self {
            let mut taken = Value::Null;
            core::mem::swap(self, &mut taken);
            if let Value::Object(inner) = taken {
                members = inner;
            }
        }
        assert(members_json(members@) =~= before.members());
        let name = key.to_owned();
        let at = locate(&members, &name);
        proof {
            lemma_index_of(members_json(members@), key@);
            assert(first_match(members_json(members@), key@, at as int));
        }
        let ghost prior = members@;
        if at < members.len() {
            members.set(at, (name, value));
        } else {
            members.push((name, value));
        }
        assert(members_json(members@) =~= put(members_json(prior), key@, value.json()));
        *self = Value::Object(members);
    }

    /// A deep copy of the node.
    pub fn duplicate(&self) -> (copy: Value)
        ensures
            copy.json() == self.json(),
        decreases self,
    {
        match self {
            Value::Null => Value::Null,
            Value::Bool(b) => Value::Bool(*b),
            Value::Number(n) => Value::Number(*n),
            Value::String(s) => Value::String(s.clone()),
            Value::Array(items) => {
                let mut out: Vec<Value> = Vec::new();
                let mut i: usize = 0;
                while i < items.len()
                    invariant
                        *self == Value::Array(*items),
                        i <= items.len(),
                        out@.len() == i,
                        forall|j: int| 0 <= j < i ==> (#[trigger] out@[j]).json() == items@[j].json(),
                    decreases items.len() - i,
                {
                    proof {
                        vstd::std_specs::vec::axiom_vec_index_decreases(*items, i as int);
                        assert(decreases_to!(*self => self->Array_0));
                    }
                    let item = items[i].duplicate();
                    out.push(item);
                    i += 1;
                }
                assert(items_json(out@) =~= items_json(items@));
                Value::Array(out)
            },
            Value::Object(members) => {
                let mut out: Vec<(String, Value)> = Vec::new();
                let mut i: usize = 0;
                while i < members.len()
                    invariant
                        *self == Value::Object(*members),
                        i <= members.len(),
                        out@.len() == i,
                        forall|j: int|
                            0 <= j < i ==> (#[trigger] out@[j]).0@ == members@[j].0@
                                && out@[j].1.json() == members@[j].1.json(),
                    decreases members.len() - i,
                {
                    let name = members[i].0.clone();
                    proof {
                        vstd::std_specs::vec::axiom_vec_index_decreases(*members, i as int);
                        assert(decreases_to!(*self => self->Object_0));
                        assert(decreases_to!(members[i as int] => members[i as int].1));
                    }
                    let item = members[i].1.duplicate();
                    out.push((name, item));
                    i += 1;
                }
                assert(members_json(out@) =~= members_json(members@));
                Value::Object(out)
            },
        }
    }
}

/// Position of the first entry whose key is `key`; the length if none is.
pub fn locate<V>(entries: &Vec<(String, V)>, key: &String) -> (at: usize)
    ensures
        at <= entries@.len(),
        at < entries@.len() ==> entries@[at as int].0@ == key@,
        forall|j: int| 0 <= j < at ==> (#[trigger] entries@[j]).0@ != key@,
{
    let mut i: usize = 0;
    while i < entries.len()
        invariant
            i <= entries@.len(),
            forall|j: int| 0 <= j < i ==> (#[trigger] entries@[j]).0@ != key@,
        decreases entries@.len() - i,
    {
        if entries[i].0 == *key {
            return i;
        }
        i += 1;
    }
    i
}

} // verus!
