//! JSON values as the platform exchanges them: call arguments, parameter
//! defaults, generated schemas and MCP messages.
use vstd::prelude::*;

use crate::float::Number64;
use crate::text::str_eq;

verus! {

/// A JSON number: a non-negative integer, a negative integer, or a
/// double.
#[derive(Debug, Clone)]
pub enum JsonNumber {
    PosInt(u64),
    NegInt(i64),
    Float(Number64),
}

/// A JSON value.  An object is a list of entries; when a key occurs more
/// than once the last entry counts.
#[derive(Debug)]
pub enum JsonValue {
    Null,
    Bool(bool),
    Number(JsonNumber),
    String(String),
    Array(Vec<JsonValue>),
    Object(JsonObject),
}

/// The entries of a JSON object, in insertion order.
#[derive(Debug)]
pub struct JsonObject {
    pub entries: Vec<(String, JsonValue)>,
}

/// The mathematical meaning of a JSON value.
pub enum JsonView {
    Null,
    Bool(bool),
    Int(int),
    /// A double by its bit pattern, with its text as a JSON number.
    Float(u64, Seq<char>),
    Str(Seq<char>),
    Array(Seq<JsonView>),
    Object(Map<Seq<char>, JsonView>),
}

/// The map that a list of entries stands for: later entries override
/// earlier ones.
pub open spec fn entries_map(s: Seq<(Seq<char>, JsonView)>) -> Map<Seq<char>, JsonView>
    decreases s.len(),
{
    if s.len() == 0 {
        Map::empty()
    } else {
        entries_map(s.drop_last()).insert(s.last().0, s.last().1)
    }
}

/// The meaning of a number.
pub open spec fn number_view(n: JsonNumber) -> JsonView {
    match n {
        JsonNumber::PosInt(u) => JsonView::Int(u as int),
        JsonNumber::NegInt(i) => JsonView::Int(i as int),
        JsonNumber::Float(f) => JsonView::Float(f.bits, f.json_text@),
    }
}

/// The items of an array, each by its meaning.
pub open spec fn array_views(items: Seq<JsonValue>) -> Seq<JsonView>
    decreases items,
{
    Seq::new(
        items.len(),
        |i: int|
            if 0 <= i < items.len() {
                json_view(items[i])
            } else {
                JsonView::Null
            },
    )
}

/// The entries of an object, each key and value by its meaning.
pub open spec fn entry_views(entries: Seq<(String, JsonValue)>) -> Seq<(Seq<char>, JsonView)>
    decreases entries,
{
    Seq::new(
        entries.len(),
        |i: int|
            if 0 <= i < entries.len() {
                (entries[i].0@, json_view(entries[i].1))
            } else {
                (Seq::empty(), JsonView::Null)
            },
    )
}

/// The meaning of a JSON value.
pub open spec fn json_view(v: JsonValue) -> JsonView
    decreases v,
{
    match v {
        JsonValue::Null => JsonView::Null,
        JsonValue::Bool(b) => JsonView::Bool(b),
        JsonValue::Number(n) => number_view(n),
        JsonValue::String(s) => JsonView::Str(s@),
        JsonValue::Array(items) => JsonView::Array(array_views(items@)),
        JsonValue::Object(o) => JsonView::Object(entries_map(entry_views(o.entries@))),
    }
}


/// The map that an object stands for.
pub open spec fn object_map(o: JsonObject) -> Map<Seq<char>, JsonView> {
    entries_map(entry_views(o.entries@))
}

/// The view of an object is the map of its entries.
pub proof fn lemma_object_view(o: JsonObject)
    ensures
        json_view(JsonValue::Object(o)) == JsonView::Object(object_map(o)),
{
}

/// In the map of `s`, key `k` holds the value of its last entry, and is
/// absent when no entry has it.
pub proof fn lemma_entries_map_lookup(s: Seq<(Seq<char>, JsonView)>, k: Seq<char>)
    ensures
        (exists|i: int| 0 <= i < s.len() && s[i].0 == k) <==> entries_map(s).contains_key(k),
        forall|j: int|
            0 <= j < s.len() && s[j].0 == k && (forall|i: int| j < i < s.len() ==> s[i].0 != k)
                ==> entries_map(s)[k] == s[j].1,
    decreases s.len(),
{
    if s.len() > 0 {
        let d = s.drop_last();
        lemma_entries_map_lookup(d, k);
        assert forall|j: int|
            0 <= j < s.len() && s[j].0 == k && (forall|i: int| j < i < s.len() ==> s[i].0 != k)
                implies entries_map(s)[k] == s[j].1 by {
            if j < s.len() - 1 {
                assert(s[s.len() - 1].0 != k);
                assert(d[j] == s[j]);
                assert forall|i: int| j < i < d.len() implies d[i].0 != k by {
                    assert(d[i] == s[i]);
                }
            }
        }
        if exists|i: int| 0 <= i < s.len() && s[i].0 == k {
            let i = choose|i: int| 0 <= i < s.len() && s[i].0 == k;
            if i < s.len() - 1 {
                assert(d[i] == s[i]);
            }
        }
        if entries_map(s).contains_key(k) && s.last().0 != k {
            let i = choose|i: int| 0 <= i < d.len() && d[i].0 == k;
            assert(s[i] == d[i]);
        }
    }
}

/// Replacing the value of the last entry with key `k` updates the map at
/// `k`.
pub proof fn lemma_entries_map_update_last(
    s: Seq<(Seq<char>, JsonView)>,
    j: int,
    k: Seq<char>,
    v: JsonView,
)
    requires
        0 <= j < s.len(),
        s[j].0 == k,
        forall|i: int| j < i < s.len() ==> s[i].0 != k,
    ensures
        entries_map(s.update(j, (k, v))) == entries_map(s).insert(k, v),
    decreases s.len(),
{
    let t = s.update(j, (k, v));
    if j == s.len() - 1 {
        assert(t.drop_last() =~= s.drop_last());
        assert(entries_map(t) =~= entries_map(s).insert(k, v));
    } else {
        assert(t.drop_last() =~= s.drop_last().update(j, (k, v)));
        lemma_entries_map_update_last(s.drop_last(), j, k, v);
        assert(s.last().0 != k);
        assert(entries_map(t) =~= entries_map(s).insert(k, v));
    }
}

/// Dropping an entry with key `k` leaves the map without `k` unchanged.
pub proof fn lemma_entries_map_drop_key(s: Seq<(Seq<char>, JsonView)>, j: int, k: Seq<char>)
    requires
        0 <= j < s.len(),
        s[j].0 == k,
    ensures
        entries_map(s.remove(j)).remove(k) == entries_map(s).remove(k),
    decreases s.len(),
{
    let t = s.remove(j);
    if j == s.len() - 1 {
        assert(t =~= s.drop_last());
        assert(entries_map(s).remove(k) =~= entries_map(s.drop_last()).remove(k));
    } else {
        assert(t.drop_last() =~= s.drop_last().remove(j));
        assert(t.last() == s.last());
        lemma_entries_map_drop_key(s.drop_last(), j, k);
        let e = s.last();
        if e.0 == k {
            assert(entries_map(t).remove(k) =~= entries_map(t.drop_last()).remove(k));
            assert(entries_map(s).remove(k) =~= entries_map(s.drop_last()).remove(k));
        } else {
            assert(entries_map(t).remove(k) =~= entries_map(t.drop_last()).remove(k).insert(e.0, e.1));
            assert(entries_map(s).remove(k) =~= entries_map(s.drop_last()).remove(k).insert(e.0, e.1));
        }
    }
}

impl Number64 {
    /// A copy of the number.
    pub fn duplicate(&self) -> (r: Number64)
        ensures
            r.bits == self.bits,
            r.text@ == self.text@,
            r.json_text@ == self.json_text@,
    {
        Number64 { bits: self.bits, text: self.text.clone(), json_text: self.json_text.clone() }
    }
}

impl JsonNumber {
    /// A copy of the number.
    pub fn duplicate(&self) -> (r: JsonNumber)
        ensures
            number_view(r) == number_view(*self),
    {
        match self {
            JsonNumber::PosInt(u) => JsonNumber::PosInt(*u),
            JsonNumber::NegInt(i) => JsonNumber::NegInt(*i),
            JsonNumber::Float(f) => JsonNumber::Float(f.duplicate()),
        }
    }
}

impl JsonValue {
    /// A deep copy of the value.
    pub fn duplicate(&self) -> (r: JsonValue)
        ensures
            json_view(r) == json_view(*self),
        decreases self,
    {
        match self {
            JsonValue::Null => JsonValue::Null,
            JsonValue::Bool(b) => JsonValue::Bool(*b),
            JsonValue::Number(n) => JsonValue::Number(n.duplicate()),
            JsonValue::String(s) => JsonValue::String(s.clone()),
            JsonValue::Array(items) => {
                let mut out: Vec<JsonValue> = Vec::new();
                let mut i: usize = 0;
                while i < items.len()
                    invariant
                        *self == JsonValue::Array(*items),
                        i <= items@.len(),
                        out@.len() == i,
                        forall|k: int| 0 <= k < i ==> json_view(#[trigger] out@[k]) == json_view(items@[k]),
                    decreases items@.len() - i,
                {
                    proof {
                        broadcast use vstd::std_specs::vec::axiom_vec_index_decreases;
                        assert(decreases_to!(*self => (*self)->Array_0));
                        assert((*self)->Array_0 == *items);
                        assert(decreases_to!(*items => items[i as int]));
                        assert(decreases_to!(*self => items[i as int]));
                    }
                    out.push(items[i].duplicate());
                    i = i + 1;
                }
                let r = JsonValue::Array(out);
                assert(array_views(out@) =~= array_views(items@));
                r
            },
            JsonValue::Object(o) => {
                let mut out: Vec<(String, JsonValue)> = Vec::new();
                let mut i: usize = 0;
                while i < o.entries.len()
                    invariant
                        *self == JsonValue::Object(*o),
                        i <= o.entries@.len(),
                        out@.len() == i,
                        forall|k: int| 0 <= k < i ==> (#[trigger] out@[k]).0@ == o.entries@[k].0@ && json_view(out@[k].1) == json_view(o.entries@[k].1),
                    decreases o.entries@.len() - i,
                {
                    proof {
                        broadcast use vstd::std_specs::vec::axiom_vec_index_decreases;
                        assert(decreases_to!(*self => (*self)->Object_0));
                        assert((*self)->Object_0 == *o);
                        assert(decreases_to!(*o => o.entries));
                        assert(decreases_to!(o.entries => o.entries[i as int]));
                        assert(decreases_to!(o.entries[i as int] => o.entries[i as int].1));
                        assert(decreases_to!(*self => o.entries[i as int].1));
                    }
                    let v = o.entries[i].1.duplicate();
                    out.push((o.entries[i].0.clone(), v));
                    i = i + 1;
                }
                let copy = JsonObject { entries: out };
                proof {
                    lemma_object_view(copy);
                    lemma_object_view(*o);
                    assert(entry_views(copy.entries@) =~= entry_views(o.entries@));
                }
                JsonValue::Object(copy)
            },
        }
    }

    /// The text of a string value (`Value::as_str`).
    pub fn as_str(&self) -> (r: Option<&str>)
        ensures
            match r {
                Some(s) => json_view(*self) == JsonView::Str(s@),
                None => !(json_view(*self) is Str),
            },
    {
        match self {
            JsonValue::String(s) => Some(s.as_str()),
            JsonValue::Array(_) => None,
            JsonValue::Object(o) => {
                proof {
                    lemma_object_view(*o);
                }
                None
            },
            _ => None,
        }
    }

    /// The truth value of a boolean (`Value::as_bool`).
    pub fn as_bool(&self) -> (r: Option<bool>)
        ensures
            match r {
                Some(b) => json_view(*self) == JsonView::Bool(b),
                None => !(json_view(*self) is Bool),
            },
    {
        match self {
            JsonValue::Bool(b) => Some(*b),
            JsonValue::Object(o) => {
                proof {
                    lemma_object_view(*o);
                }
                None
            },
            _ => None,
        }
    }

    /// Whether the value is `null`.
    pub fn is_null(&self) -> (r: bool)
        ensures
            r == (json_view(*self) is Null),
    {
        match self {
            JsonValue::Null => true,
            JsonValue::Object(o) => {
                proof {
                    lemma_object_view(*o);
                }
                false
            },
            _ => false,
        }
    }

    /// A string value.
    pub fn text(s: &str) -> (r: JsonValue)
        ensures
            json_view(r) == JsonView::Str(s@),
    {
        JsonValue::String(String::from_str(s))
    }
}

impl JsonObject {
    /// An object without entries.
    pub fn new() -> (r: JsonObject)
        ensures
            object_map(r) == Map::<Seq<char>, JsonView>::empty(),
    {
        let r = JsonObject { entries: Vec::new() };
        assert(entry_views(r.entries@) =~= Seq::<(Seq<char>, JsonView)>::empty());
        r
    }

    fn last_index_of(&self, key: &str) -> (r: Option<usize>)
        ensures
            match r {
                Some(j) => j < self.entries@.len() && self.entries@[j as int].0@ == key@ && forall|
                    i: int,
                | j < i < self.entries@.len() ==> self.entries@[i].0@ != key@,
                None => forall|i: int| 0 <= i < self.entries@.len() ==> self.entries@[i].0@ != key@,
            },
    {
        let mut j = self.entries.len();
        while j > 0
            invariant
                j <= self.entries@.len(),
                forall|i: int| j <= i < self.entries@.len() ==> self.entries@[i].0@ != key@,
            decreases j,
        {
            if str_eq(self.entries[j - 1].0.as_str(), key) {
                return Some(j - 1);
            }
            j = j - 1;
        }
        None
    }

    /// The value under `key` (`Map::get`).
    pub fn get(&self, key: &str) -> (r: Option<&JsonValue>)
        ensures
            match r {
                Some(v) => object_map(*self).contains_key(key@) && object_map(*self)[key@]
                    == json_view(*v),
                None => !object_map(*self).contains_key(key@),
            },
    {
        let ghost s = entry_views(self.entries@);
        proof {
            lemma_entries_map_lookup(s, key@);
        }
        match self.last_index_of(key) {
            Some(j) => {
                assert(s[j as int].0 == key@);
                assert forall|i: int| j < i < s.len() implies s[i].0 != key@ by {}
                Some(&self.entries[j].1)
            },
            None => {
                assert forall|i: int| 0 <= i < s.len() implies s[i].0 != key@ by {}
                None
            },
        }
    }

    /// Whether `key` has a value.
    pub fn contains_key(&self, key: &str) -> (r: bool)
        ensures
            r == object_map(*self).contains_key(key@),
    {
        self.get(key).is_some()
    }

    /// Sets the value under `key` (`Map::insert`).
    pub fn insert(&mut self, key: String, value: JsonValue)
        ensures
            object_map(*final(self)) == object_map(*old(self)).insert(key@, json_view(value)),
    {
        let ghost s = entry_views(self.entries@);
        let ghost k = key@;
        let ghost v = json_view(value);
        match self.last_index_of(key.as_str()) {
            Some(j) => {
                self.entries.set(j, (key, value));
                proof {
                    assert forall|i: int| j < i < s.len() implies s[i].0 != k by {}
                    lemma_entries_map_update_last(s, j as int, k, v);
                    assert(entry_views(self.entries@) =~= s.update(j as int, (k, v)));
                }
            },
            None => {
                self.entries.push((key, value));
                proof {
                    assert(entry_views(self.entries@).drop_last() =~= s);
                }
            },
        }
    }

    /// Drops the value under `key` (`Map::remove`).
    pub fn remove(&mut self, key: &str)
        ensures
            object_map(*final(self)) == object_map(*old(self)).remove(key@),
    {
        let ghost orig = object_map(*self);
        let mut found = self.last_index_of(key);
        while found.is_some()
            invariant
                object_map(*self).remove(key@) == orig.remove(key@),
                match found {
                    Some(j) => j < self.entries@.len() && self.entries@[j as int].0@ == key@,
                    None => forall|i: int|
                        0 <= i < self.entries@.len() ==> self.entries@[i].0@ != key@,
                },
            decreases self.entries@.len(),
        {
            let j = found.unwrap();
            let ghost s = entry_views(self.entries@);
            self.entries.remove(j);
            proof {
                lemma_entries_map_drop_key(s, j as int, key@);
                assert(entry_views(self.entries@) =~= s.remove(j as int));
            }
            found = self.last_index_of(key);
        }
        proof {
            let s = entry_views(self.entries@);
            lemma_entries_map_lookup(s, key@);
            assert forall|i: int| 0 <= i < s.len() implies s[i].0 != key@ by {}
            assert(object_map(*self) =~= object_map(*self).remove(key@));
        }
    }

    /// A deep copy of the object.
    pub fn duplicate(&self) -> (r: JsonObject)
        ensures
            object_map(r) == object_map(*self),
    {
        let mut out: Vec<(String, JsonValue)> = Vec::new();
        let mut i: usize = 0;
        while i < self.entries.len()
            invariant
                i <= self.entries@.len(),
                out@.len() == i,
                forall|k: int|
                    0 <= k < i ==> (#[trigger] out@[k]).0@ == self.entries@[k].0@ && json_view(
                        out@[k].1,
                    ) == json_view(self.entries@[k].1),
            decreases self.entries@.len() - i,
        {
            let v = self.entries[i].1.duplicate();
            out.push((self.entries[i].0.clone(), v));
            i = i + 1;
        }
        let copy = JsonObject { entries: out };
        assert(entry_views(copy.entries@) =~= entry_views(self.entries@));
        copy
    }
}

} // verus!
