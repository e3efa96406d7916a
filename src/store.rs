use vstd::prelude::*;
use crate::text::{lower_of, lowercase, same_text};

verus! {

/// A value held in a configuration store: text as supplied, or a switch.
#[derive(Debug)]
pub enum Value {
    Text(String),
    Int(i64),
    Flag(bool),
}

/// What a `Value` stands for.
pub enum Scalar {
    Text(Seq<char>),
    Int(i64),
    Flag(bool),
}

impl View for Value {
    type V = Scalar;

    open spec fn view(&self) -> Scalar {
        match self {
            Value::Text(s) => Scalar::Text(s@),
            Value::Int(i) => Scalar::Int(*i),
            Value::Flag(b) => Scalar::Flag(*b),
        }
    }
}

impl Value {
    /// A copy of this value.
    pub fn duplicate(&self) -> (r: Value)
        ensures
            r@ == self@,
    {
        match self {
            Value::Text(s) => Value::Text(s.clone()),
            Value::Int(i) => Value::Int(*i),
            Value::Flag(b) => Value::Flag(*b),
        }
    }
}

/// The boolean reading of lower-case text: `1`, `true`, `on`, `yes` are true;
/// `0`, `false`, `off`, `no` are false; anything else is no boolean.
pub open spec fn text_flag(l: Seq<char>) -> Option<bool> {
    if l == "1"@ || l == "true"@ || l == "on"@ || l == "yes"@ {
        Some(true)
    } else if l == "0"@ || l == "false"@ || l == "off"@ || l == "no"@ {
        Some(false)
    } else {
        None
    }
}

/// The boolean reading of a scalar: a switch as it is, an integer by whether it
/// is non-zero, text by its lower-case form.
pub open spec fn flag_of(s: Scalar) -> Option<bool> {
    match s {
        Scalar::Flag(b) => Some(b),
        Scalar::Int(i) => Some(i != 0),
        Scalar::Text(t) => text_flag(lower_of(t)),
    }
}

/// The map that a sequence of (key, value) entries lays over `m`: a later entry
/// for a key replaces an earlier one.
pub open spec fn overlay<V>(m: Map<Seq<char>, V>, s: Seq<(Seq<char>, V)>) -> Map<Seq<char>, V>
    decreases s.len(),
{
    if s.len() == 0 {
        m
    } else {
        overlay(m, s.drop_last()).insert(s.last().0, s.last().1)
    }
}

/// The map made by a sequence of entries alone.
pub open spec fn entries_map<V>(s: Seq<(Seq<char>, V)>) -> Map<Seq<char>, V> {
    overlay(Map::empty(), s)
}

/// Entries after position `n` that never name `k` do not change what `k` maps to.
pub proof fn lemma_overlay_tail<V>(m: Map<Seq<char>, V>, s: Seq<(Seq<char>, V)>, n: int, k: Seq<char>)
    requires
        0 <= n <= s.len(),
        forall|j: int| n <= j < s.len() ==> s[j].0 != k,
    ensures
        overlay(m, s).contains_key(k) == overlay(m, s.take(n)).contains_key(k),
        overlay(m, s).contains_key(k) ==> overlay(m, s)[k] == overlay(m, s.take(n))[k],
    decreases s.len(),
{
    if s.len() == n {
        assert(s.take(n) =~= s);
    } else {
        assert(s.drop_last().take(n) =~= s.take(n));
        lemma_overlay_tail(m, s.drop_last(), n, k);
    }
}

/// The key and model of one entry.
pub open spec fn entry_view(e: (String, Value)) -> (Seq<char>, Scalar) {
    (e.0@, e.1@)
}

/// A configuration store: dotted keys to values. Keys are taken in lower case,
/// so `Port` and `port` name one key. It keeps every entry it was given, in
/// order; the latest entry for a key is the one in force.
pub struct Store {
    entries: Vec<(String, Value)>,
}

impl View for Store {
    type V = Map<Seq<char>, Scalar>;

    closed spec fn view(&self) -> Map<Seq<char>, Scalar> {
        entries_map(self.entries@.map_values(|e: (String, Value)| entry_view(e)))
    }
}

impl Store {
    /// A store with no keys.
    pub fn new() -> (r: Store)
        ensures
            r@ == Map::<Seq<char>, Scalar>::empty(),
    {
        let r = Store { entries: Vec::new() };
        assert(r.entries@.map_values(|e: (String, Value)| entry_view(e)) =~= Seq::empty());
        r
    }

    /// Sets `key` (in lower case) to `value`, replacing what it held.
    pub fn set(&mut self, key: &str, value: Value)
        ensures
            final(self)@ == old(self)@.insert(lower_of(key@), value@),
    {
        let ghost before = self.entries@.map_values(|e: (String, Value)| entry_view(e));
        let k = lowercase(key);
        self.entries.push((k, value));
        let ghost after = self.entries@.map_values(|e: (String, Value)| entry_view(e));
        assert(after.drop_last() =~= before);
    }

    /// The position of the entry in force for `key` (in lower case), if any.
    fn find(&self, name: &str) -> (r: Option<usize>)
        ensures
            r is None ==> !self@.contains_key(lower_of(name@)),
            r matches Some(i) ==> i < self.entries@.len() && self@.contains_key(lower_of(name@))
                && self@[lower_of(name@)] == self.entries@[i as int].1@,
    {
        let lk = lowercase(name);
        let key = lk.as_str();
        let ghost s = self.entries@.map_values(|e: (String, Value)| entry_view(e));
        let mut i: usize = self.entries.len();
        while i > 0
            invariant
                i <= self.entries@.len(),
                key@ == lower_of(name@),
                s == self.entries@.map_values(|e: (String, Value)| entry_view(e)),
                forall|j: int| i <= j < s.len() ==> s[j].0 != key@,
            decreases i,
        {
            i = i - 1;
            if same_text(self.entries[i].0.as_str(), key) {
                proof {
                    lemma_overlay_tail(Map::empty(), s, i + 1, key@);
                    assert(s.take(i + 1).drop_last() =~= s.take(i as int));
                }
                return Some(i);
            }
        }
        proof {
            lemma_overlay_tail(Map::empty(), s, 0, key@);
            assert(s.take(0) =~= Seq::<(Seq<char>, Scalar)>::empty());
        }
        None
    }

    /// Whether `key` holds a value.
    pub fn has(&self, key: &str) -> (r: bool)
        ensures
            r == self@.contains_key(lower_of(key@)),
    {
        self.find(key).is_some()
    }

    /// The value at `key`, if any.
    pub fn get(&self, key: &str) -> (r: Option<Value>)
        ensures
            r is None <==> !self@.contains_key(lower_of(key@)),
            r matches Some(v) ==> self@.contains_key(lower_of(key@)) && v@ == self@[lower_of(key@)],
    {
        match self.find(key) {
            Some(i) => Some(self.entries[i].1.duplicate()),
            None => None,
        }
    }

    /// The value at `key` read as a boolean.
    pub fn get_bool(&self, key: &str) -> (r: Option<bool>)
        ensures
            r == (if self@.contains_key(lower_of(key@)) { flag_of(self@[lower_of(key@)]) } else { None }),
    {
        match self.find(key) {
            Some(i) => match &self.entries[i].1 {
                Value::Flag(b) => Some(*b),
                Value::Int(n) => Some(*n != 0),
                Value::Text(t) => {
                    let l = lowercase(t.as_str());
                    let l = l.as_str();
                    if same_text(l, "1") || same_text(l, "true") || same_text(l, "on") || same_text(l, "yes") {
                        Some(true)
                    } else if same_text(l, "0") || same_text(l, "false") || same_text(l, "off")
                        || same_text(l, "no") {
                        Some(false)
                    } else {
                        None
                    }
                },
            },
            None => None,
        }
    }

    /// The store's entries, keys in lower case: the map they make is the store.
    pub fn to_layer(&self) -> (r: Vec<(String, Value)>)
        ensures
            entries_map(r@.map_values(|e: (String, Value)| entry_view(e))) == self@,
    {
        let mut r: Vec<(String, Value)> = Vec::new();
        let mut i: usize = 0;
        while i < self.entries.len()
            invariant
                i <= self.entries@.len(),
                r@.map_values(|e: (String, Value)| entry_view(e))
                    == self.entries@.take(i as int).map_values(|e: (String, Value)| entry_view(e)),
            decreases self.entries@.len() - i,
        {
            let ghost prev = r@;
            r.push((self.entries[i].0.clone(), self.entries[i].1.duplicate()));
            proof {
                assert(r@.map_values(|e: (String, Value)| entry_view(e)) =~= prev.map_values(
                    |e: (String, Value)| entry_view(e),
                ).push(entry_view(self.entries@[i as int])));
                assert(self.entries@.take(i + 1).map_values(|e: (String, Value)| entry_view(e))
                    =~= self.entries@.take(i as int).map_values(|e: (String, Value)| entry_view(e)).push(
                    entry_view(self.entries@[i as int]),
                ));
            }
            i = i + 1;
        }
        assert(self.entries@.take(i as int) =~= self.entries@);
        r
    }

    /// Lays a layer of entries over the store; a later entry of the layer wins
    /// over an earlier one, and the layer wins over the store.
    pub fn merge_layer(&mut self, layer: &Vec<(String, Value)>)
        ensures
            final(self)@ == old(self)@.union_prefer_right(layer_map(layer@)),
    {
        let ghost m0 = self@;
        let mut i: usize = 0;
        while i < layer.len()
            invariant
                i <= layer@.len(),
                self@ == m0.union_prefer_right(layer_map(layer@.take(i as int))),
            decreases layer@.len() - i,
        {
            let ghost prev = self@;
            self.set(layer[i].0.as_str(), layer[i].1.duplicate());
            proof {
                let t = layer@.take(i as int).map_values(|e: (String, Value)| layer_entry_view(e));
                let t1 = layer@.take(i + 1).map_values(|e: (String, Value)| layer_entry_view(e));
                assert(t1.drop_last() =~= t);
                assert(self@ =~= m0.union_prefer_right(layer_map(layer@.take(i + 1))));
            }
            i = i + 1;
        }
        assert(layer@.take(i as int) =~= layer@);
    }
}

/// The key, in lower case, and model of one entry of a layer.
pub open spec fn layer_entry_view(e: (String, Value)) -> (Seq<char>, Scalar) {
    (lower_of(e.0@), e.1@)
}

/// The map that a layer of entries stands for, keys in lower case.
pub open spec fn layer_map(layer: Seq<(String, Value)>) -> Map<Seq<char>, Scalar> {
    entries_map(layer.map_values(|e: (String, Value)| layer_entry_view(e)))
}

/// Merging the same layer a second time changes nothing.
pub proof fn lemma_merge_idempotent(m: Map<Seq<char>, Scalar>, layer: Seq<(String, Value)>)
    ensures
        m.union_prefer_right(layer_map(layer)).union_prefer_right(layer_map(layer))
            == m.union_prefer_right(layer_map(layer)),
{
    assert(m.union_prefer_right(layer_map(layer)).union_prefer_right(layer_map(layer))
        =~= m.union_prefer_right(layer_map(layer)));
}

} // verus!
