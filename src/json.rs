//! A JSON document model and keyed lookups over ordered key/value lists.
use vstd::prelude::*;

verus! {

/// A JSON value. Numbers keep their literal decimal text; objects keep their
/// members in order, and lookups take the first member with a given key.
#[derive(Debug)]
pub enum JsonValue {
    Null,
    Bool(bool),
    Number(String),
    Str(String),
    Array(Vec<JsonValue>),
    Object(Vec<(String, JsonValue)>),
}

/// Index of the first entry at or after `i` whose key is `key`, or the
/// length of `entries` if there is none.
pub open spec fn first_key_from<V>(entries: Seq<(String, V)>, key: Seq<char>, i: int) -> int
    decreases entries.len() - i,
{
    if i < 0 || i >= entries.len() {
        entries.len() as int
    } else if entries[i].0@ == key {
        i
    } else {
        first_key_from(entries, key, i + 1)
    }
}

/// Index of the first entry whose key is `key`, or the length if absent.
pub open spec fn first_key<V>(entries: Seq<(String, V)>, key: Seq<char>) -> int {
    first_key_from(entries, key, 0)
}

pub open spec fn has_key<V>(entries: Seq<(String, V)>, key: Seq<char>) -> bool {
    first_key(entries, key) < entries.len()
}

/// The value of the first entry with key `key`.
pub open spec fn lookup<V>(entries: Seq<(String, V)>, key: Seq<char>) -> Option<V> {
    if has_key(entries, key) {
        Some(entries[first_key(entries, key)].1)
    } else {
        None
    }
}

pub proof fn lemma_first_key_from_bounds<V>(entries: Seq<(String, V)>, key: Seq<char>, i: int)
    requires
        0 <= i <= entries.len(),
    ensures
        i <= first_key_from(entries, key, i) <= entries.len(),
        first_key_from(entries, key, i) < entries.len() ==> entries[first_key_from(
            entries,
            key,
            i,
        )].0@ == key,
        forall|j: int| i <= j < first_key_from(entries, key, i) ==> entries[j].0@ != key,
    decreases entries.len() - i,
{
    if i < entries.len() && entries[i].0@ != key {
        lemma_first_key_from_bounds(entries, key, i + 1);
    }
}

/// `has_key` holds exactly when some entry carries the key.
pub proof fn lemma_has_key_exists<V>(entries: Seq<(String, V)>, key: Seq<char>)
    ensures
        has_key(entries, key) <==> exists|j: int| 0 <= j < entries.len() && entries[j].0@ == key,
        has_key(entries, key) ==> entries[first_key(entries, key)].0@ == key,
        0 <= first_key(entries, key) <= entries.len(),
{
    lemma_first_key_from_bounds(entries, key, 0);
    if has_key(entries, key) {
        let j = first_key(entries, key);
        assert(0 <= j < entries.len() && entries[j].0@ == key);
    }
}

/// Appending an entry with a key that is absent leaves earlier lookups alone
/// and makes the new key resolve to the new entry.
pub proof fn lemma_push_fresh<V>(entries: Seq<(String, V)>, e: (String, V), key: Seq<char>)
    requires
        !has_key(entries, e.0@),
    ensures
        has_key(entries.push(e), key) <==> (has_key(entries, key) || key == e.0@),
        has_key(entries, key) ==> first_key(entries.push(e), key) == first_key(entries, key),
        key == e.0@ ==> first_key(entries.push(e), key) == entries.len(),
{
    let s = entries.push(e);
    lemma_has_key_exists(entries, key);
    lemma_has_key_exists(s, key);
    lemma_has_key_exists(entries, e.0@);
    lemma_first_key_from_bounds(entries, key, 0);
    lemma_first_key_from_bounds(s, key, 0);
    let a = first_key(entries, key);
    let b = first_key(s, key);
    if has_key(entries, key) {
        assert(s[a].0@ == key);
        assert(b <= a);
        if b < a {
            assert(entries[b].0@ == key);
        }
    }
    if key == e.0@ {
        assert(s[entries.len() as int].0@ == key);
        if b < entries.len() {
            assert(entries[b].0@ == key);
        }
    }
}

/// Position of the first entry whose key equals `key`.
pub fn find_key<V>(entries: &Vec<(String, V)>, key: &str) -> (r: Option<usize>)
    ensures
        match r {
            Some(i) => i == first_key(entries@, key@) && i < entries@.len(),
            None => !has_key(entries@, key@),
        },
{
    let k = key.to_string();
    let mut i: usize = 0;
    while i < entries.len()
        invariant
            i <= entries@.len(),
            k@ == key@,
            first_key(entries@, key@) == first_key_from(entries@, key@, i as int),
        decreases entries@.len() - i,
    {
        if entries[i].0 == k {
            return Some(i);
        }
        i = i + 1;
    }
    None
}

/// The value of the first member with key `key`.
pub fn get_member<'a>(entries: &'a Vec<(String, JsonValue)>, key: &str) -> (r: Option<
    &'a JsonValue,
>)
    ensures
        match r {
            Some(v) => lookup(entries@, key@) == Some(*v),
            None => lookup(entries@, key@) is None,
        },
{
    match find_key(entries, key) {
        Some(i) => Some(&entries[i].1),
        None => None,
    }
}

impl JsonValue {
    pub open spec fn is_str(&self) -> bool {
        self is Str
    }

    pub open spec fn is_bool(&self) -> bool {
        self is Bool
    }

    pub fn as_str(&self) -> (r: Option<&String>)
        ensures
            match self {
                JsonValue::Str(s) => r == Some(s),
                _ => r is None,
            },
    {
        match self {
            JsonValue::Str(s) => Some(s),
            _ => None,
        }
    }

    pub fn as_bool(&self) -> (r: Option<bool>)
        ensures
            match self {
                JsonValue::Bool(b) => r == Some(*b),
                _ => r is None,
            },
    {
        match self {
            JsonValue::Bool(b) => Some(*b),
            _ => None,
        }
    }

    pub fn is_object(&self) -> (r: bool)
        ensures
            r == (self is Object),
    {
        match self {
            JsonValue::Object(_) => true,
            _ => false,
        }
    }

    pub fn is_string(&self) -> (r: bool)
        ensures
            r == self.is_str(),
    {
        match self {
            JsonValue::Str(_) => true,
            _ => false,
        }
    }

    pub fn is_boolean(&self) -> (r: bool)
        ensures
            r == self.is_bool(),
    {
        match self {
            JsonValue::Bool(_) => true,
            _ => false,
        }
    }

    /// An object with no members.
    pub fn empty_object() -> (r: JsonValue)
        ensures
            r matches JsonValue::Object(m) && m@.len() == 0,
    {
        JsonValue::Object(Vec::new())
    }
}

} // verus!
