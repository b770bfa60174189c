//! The value tree: null, booleans, numbers, strings, arrays and objects
//! whose keys are unique and kept in ascending order.
use vstd::prelude::*;
use std::cmp::Ordering;

use crate::index::Index;
use crate::number::{int_order, number_order, Number, NumberView};
use crate::text::{compare_text, text_order, lemma_bytes_order_reverse, lemma_bytes_order_transitive};
use vstd::std_specs::cmp::PartialEqSpec;
use vstd::utf8::encode_utf8;

verus! {

/// What a `Value` stands for.
pub enum ValueView {
    Null,
    Bool(bool),
    Number(NumberView),
    String(Seq<char>),
    Array(Seq<ValueView>),
    /// Key and value of each entry, keys ascending.
    Object(Seq<(Seq<char>, ValueView)>),
}

/// A value of a configuration document.
#[derive(Debug)]
pub enum Value {
    /// A null value.
    Null,
    /// A boolean.
    Bool(bool),
    /// A number, integer or float.
    Number(Number),
    /// A string.
    String(String),
    /// An ordered sequence of values.
    Array(Vec<Value>),
    /// A map from string keys to values.
    Object(Object),
}

/// A map from string keys to values; each key occurs once and the entries
/// stand in ascending order of their keys.
#[derive(Debug)]
pub struct Object {
    keys: Vec<String>,
    values: Vec<Value>,
}

/// The view of a value.
pub open spec fn value_view(v: Value) -> ValueView
    decreases v,
{
    match v {
        Value::Null => ValueView::Null,
        Value::Bool(b) => ValueView::Bool(b),
        Value::Number(n) => ValueView::Number(n@),
        Value::String(s) => ValueView::String(s@),
        Value::Array(a) => ValueView::Array(values_view(a@)),
        Value::Object(o) => ValueView::Object(object_view(o)),
    }
}

/// The views of a sequence of values.
pub open spec fn values_view(s: Seq<Value>) -> Seq<ValueView>
    decreases s,
{
    if s.len() == 0 {
        Seq::empty()
    } else {
        values_view(s.drop_last()).push(value_view(s.last()))
    }
}

/// The view of an object: its entries' keys and values' views.
pub closed spec fn object_view(o: Object) -> Seq<(Seq<char>, ValueView)>
    decreases o,
{
    pairs_view(o.keys@, o.values@)
}

/// The keys' texts paired, position by position, with the values' views.
pub open spec fn pairs_view(keys: Seq<String>, values: Seq<Value>) -> Seq<(Seq<char>, ValueView)>
    decreases values,
{
    if values.len() == 0 {
        Seq::empty()
    } else {
        pairs_view(keys, values.drop_last()).push((keys[values.len() - 1]@, value_view(values.last())))
    }
}

impl View for Value {
    type V = ValueView;

    open spec fn view(&self) -> ValueView {
        value_view(*self)
    }
}

impl View for Object {
    type V = Seq<(Seq<char>, ValueView)>;

    open spec fn view(&self) -> Seq<(Seq<char>, ValueView)> {
        object_view(*self)
    }
}

/// Keys in strictly ascending order, each pair of entries compared.
pub open spec fn keys_ascending(es: Seq<(Seq<char>, ValueView)>) -> bool {
    forall|i: int, j: int|
        0 <= i < j < es.len() ==> #[trigger] text_order(es[i].0, es[j].0) == Ordering::Less
}

/// Texts in strictly ascending order, each pair compared.
pub open spec fn texts_ascending(ks: Seq<String>) -> bool {
    forall|i: int, j: int| 0 <= i < j < ks.len() ==> #[trigger] text_order(ks[i]@, ks[j]@) == Ordering::Less
}

/// The entries with the value of `key` replaced by `child`.
pub open spec fn entries_put(es: Seq<(Seq<char>, ValueView)>, key: Seq<char>, child: ValueView) -> Seq<
    (Seq<char>, ValueView),
> {
    es.map_values(|e: (Seq<char>, ValueView)| if e.0 == key { (e.0, child) } else { e })
}

/// The value that the entries give to `key`, if any.
pub open spec fn entries_get(es: Seq<(Seq<char>, ValueView)>, key: Seq<char>) -> Option<ValueView>
    decreases es.len(),
{
    if es.len() == 0 {
        None
    } else if es[0].0 == key {
        Some(es[0].1)
    } else {
        entries_get(es.drop_first(), key)
    }
}

/// The paired views stand index by index for the keys and values.
pub proof fn lemma_pairs_view_index(keys: Seq<String>, values: Seq<Value>)
    ensures
        pairs_view(keys, values).len() == values.len(),
        forall|i: int|
            0 <= i < values.len() ==> #[trigger] pairs_view(keys, values)[i] == (keys[i]@, value_view(values[i])),
    decreases values.len(),
{
    if values.len() > 0 {
        lemma_pairs_view_index(keys, values.drop_last());
    }
}

/// An object's view pairs its keys with its values, keys ascending.
proof fn lemma_object_view(o: Object)
    requires
        o.keys@.len() == o.values@.len(),
        texts_ascending(o.keys@),
    ensures
        o@.len() == o.keys@.len(),
        forall|i: int| 0 <= i < o.keys@.len() ==> #[trigger] o@[i] == (o.keys@[i]@, value_view(o.values@[i])),
        keys_ascending(o@),
{
    lemma_pairs_view_index(o.keys@, o.values@);
    assert forall|i: int, j: int| 0 <= i < j < o@.len() implies #[trigger] text_order(o@[i].0, o@[j].0)
        == Ordering::Less by {
        assert(text_order(o.keys@[i]@, o.keys@[j]@) == Ordering::Less);
    }
}

/// The values' views stand index by index for the values.
pub proof fn lemma_values_view_index(s: Seq<Value>)
    ensures
        values_view(s).len() == s.len(),
        forall|i: int| 0 <= i < s.len() ==> #[trigger] values_view(s)[i] == value_view(s[i]),
    decreases s.len(),
{
    if s.len() > 0 {
        lemma_values_view_index(s.drop_last());
    }
}

/// In entries with ascending keys, a key finds the entry that holds it, and
/// a key that no entry holds finds nothing.
pub proof fn lemma_entries_get(es: Seq<(Seq<char>, ValueView)>, key: Seq<char>)
    requires
        keys_ascending(es),
    ensures
        forall|i: int| 0 <= i < es.len() && es[i].0 == key ==> entries_get(es, key) == Some(es[i].1),
        (forall|i: int| 0 <= i < es.len() ==> es[i].0 != key) ==> entries_get(es, key) is None,
    decreases es.len(),
{
    if es.len() > 0 {
        let rest = es.drop_first();
        assert(keys_ascending(rest)) by {
            assert forall|i: int, j: int| 0 <= i < j < rest.len() implies #[trigger] text_order(
                rest[i].0,
                rest[j].0,
            ) == Ordering::Less by {
                assert(text_order(es[i + 1].0, es[j + 1].0) == Ordering::Less);
            }
        }
        lemma_entries_get(rest, key);
        assert forall|i: int| 0 <= i < es.len() && es[i].0 == key implies entries_get(es, key)
            == Some(es[i].1) by {
            if i > 0 {
                assert(text_order(es[0].0, es[i].0) == Ordering::Less);
                crate::text::lemma_bytes_order_equal(encode_utf8(es[0].0), encode_utf8(es[i].0));
                assert(rest[i - 1] == es[i]);
            }
        }
        if forall|i: int| 0 <= i < es.len() ==> es[i].0 != key {
            assert forall|i: int| 0 <= i < rest.len() implies rest[i].0 != key by {
                assert(rest[i] == es[i + 1]);
            }
        }
    }
}

impl Object {
    #[verifier::type_invariant]
    spec fn inv(&self) -> bool {
        &&& self.keys@.len() == self.values@.len()
        &&& texts_ascending(self.keys@)
    }

    /// An object without entries.
    pub fn new() -> (r: Object)
        ensures
            r@ == Seq::<(Seq<char>, ValueView)>::empty(),
    {
        let r = Object { keys: Vec::new(), values: Vec::new() };
        assert(r@ =~= Seq::<(Seq<char>, ValueView)>::empty()) by {
            lemma_pairs_view_index(r.keys@, r.values@);
        }
        r
    }

    /// The number of entries.
    pub fn len(&self) -> (r: usize)
        ensures
            r == self@.len(),
    {
        proof {
            use_type_invariant(self);
            lemma_object_view(*self);
        }
        self.keys.len()
    }

    /// Whether the object has no entries.
    pub fn is_empty(&self) -> (r: bool)
        ensures
            r == (self@.len() == 0),
    {
        proof {
            use_type_invariant(self);
            lemma_object_view(*self);
        }
        self.keys.len() == 0
    }

    /// The key and value of the entry at position `i`, in ascending key order.
    pub fn entry(&self, i: usize) -> (r: (&str, &Value))
        requires
            i < self@.len(),
        ensures
            (r.0@, r.1@) == self@[i as int],
    {
        proof {
            use_type_invariant(self);
            lemma_object_view(*self);
        }
        (self.keys[i].as_str(), &self.values[i])
    }

    /// Where the entry with the given key stands, if there is one.
    fn position(&self, key: &str) -> (r: Option<usize>)
        ensures
            r matches Some(i) ==> i < self@.len() && self@[i as int].0 == key@,
            r is None ==> forall|i: int| 0 <= i < self@.len() ==> self@[i].0 != key@,
    {
        proof {
            use_type_invariant(self);
            lemma_object_view(*self);
        }
        let mut i: usize = 0;
        while i < self.keys.len()
            invariant
                i <= self.keys@.len(),
                self@.len() == self.keys@.len(),
                forall|k: int|
                    0 <= k < self.keys@.len() ==> #[trigger] self@[k] == (
                        self.keys@[k]@,
                        value_view(self.values@[k]),
                    ),
                forall|k: int| 0 <= k < i ==> self@[k].0 != key@,
            decreases self.keys@.len() - i,
        {
            if let Ordering::Equal = compare_text(self.keys[i].as_str(), key) {
                return Some(i);
            }
            i = i + 1;
        }
        None
    }

    /// Gives `key` the value `value`: the entry with that key, if any, is
    /// replaced and its value returned; otherwise a new entry is added in
    /// key order.
    pub fn insert(&mut self, key: String, value: Value) -> (r: Option<Value>)
        ensures
            forall|k: Seq<char>|
                #[trigger] entries_get(final(self)@, k) == if k == key@ {
                    Some(value@)
                } else {
                    entries_get(old(self)@, k)
                },
            r matches Some(v) ==> entries_get(old(self)@, key@) == Some(v@),
            r is None ==> entries_get(old(self)@, key@) is None,
    {
        proof {
            use_type_invariant(&*self);
            lemma_object_view(*self);
        }
        let ghost old_view = self@;
        let mut taken = Object { keys: Vec::new(), values: Vec::new() };
        std::mem::swap(self, &mut taken);
        let Object { keys: mut ks, values: mut vs } = taken;
        proof {
            lemma_pairs_view_index(ks@, vs@);
            lemma_entries_get(old_view, key@);
        }
        let n = ks.len();
        let mut i: usize = 0;
        let mut searching = true;
        while searching && i < n
            invariant
                n == ks@.len(),
                n == vs@.len(),
                i <= n,
                old_view.len() == n,
                keys_ascending(old_view),
                forall|j: int| 0 <= j < n ==> #[trigger] old_view[j] == (ks@[j]@, value_view(vs@[j])),
                forall|j: int| 0 <= j < i ==> #[trigger] text_order(old_view[j].0, key@) == Ordering::Less,
                !searching ==> i < n && text_order(old_view[i as int].0, key@) != Ordering::Less,
            decreases n - i, if searching { 1int } else { 0int },
        {
            match compare_text(ks[i].as_str(), key.as_str()) {
                Ordering::Less => {
                    i = i + 1;
                },
                _ => {
                    searching = false;
                },
            }
        }
        let c = if i < n {
            compare_text(ks[i].as_str(), key.as_str())
        } else {
            Ordering::Less
        };
        let found = match c {
            Ordering::Equal => true,
            _ => false,
        };
        assert(i < n ==> c == text_order(old_view[i as int].0, key@));
        let r;
        if found {
            let old_value = vs.remove(i);
            vs.insert(i, value);
            r = Some(old_value);
        } else {
            ks.insert(i, key);
            vs.insert(i, value);
            r = None;
        }
        proof {
            let nv = pairs_view(ks@, vs@);
            lemma_pairs_view_index(ks@, vs@);
            crate::text::lemma_bytes_order_equal(encode_utf8(key@), encode_utf8(key@));
            if found {
                assert(old_view[i as int].0 == key@);
                assert forall|j: int| 0 <= j < n implies #[trigger] nv[j] == if j == i {
                    (key@, value@)
                } else {
                    old_view[j]
                } by {}
                assert forall|j: int| 0 <= j < n implies #[trigger] nv[j].0 == old_view[j].0 by {}
                assert(keys_ascending(nv)) by {
                    assert forall|a: int, b: int| 0 <= a < b < nv.len() implies #[trigger] text_order(
                        nv[a].0,
                        nv[b].0,
                    ) == Ordering::Less by {
                        assert(text_order(old_view[a].0, old_view[b].0) == Ordering::Less);
                    }
                }
                assert forall|k: Seq<char>| #[trigger]
                    entries_get(nv, k) == if k == key@ {
                        Some(value@)
                    } else {
                        entries_get(old_view, k)
                    } by {
                    lemma_entries_get(nv, k);
                    lemma_entries_get(old_view, k);
                    if k == key@ {
                        assert(nv[i as int].0 == k);
                    } else {
                        assert forall|j: int| 0 <= j < n && old_view[j].0 == k implies entries_get(
                            nv,
                            k,
                        ) == Some(old_view[j].1) by {
                            assert(nv[j] == old_view[j]);
                        }
                        if forall|j: int| 0 <= j < n ==> old_view[j].0 != k {
                            assert forall|j: int| 0 <= j < nv.len() implies nv[j].0 != k by {
                                assert(nv[j].0 == old_view[j].0);
                            }
                        }
                    }
                }
            } else {
                if i < n {
                    assert(c == Ordering::Greater);
                    lemma_bytes_order_reverse(
                        encode_utf8(key@),
                        encode_utf8(old_view[i as int].0),
                    );
                    crate::text::lemma_bytes_order_equal(
                        encode_utf8(old_view[i as int].0),
                        encode_utf8(key@),
                    );
                }
                assert forall|j: int| 0 <= j < n implies old_view[j].0 != key@ by {
                    if j < i {
                        assert(text_order(old_view[j].0, key@) == Ordering::Less);
                    } else if j > i {
                        assert(text_order(old_view[i as int].0, old_view[j].0) == Ordering::Less);
                    }
                }
                assert forall|j: int| 0 <= j < nv.len() implies #[trigger] nv[j] == if j < i {
                    old_view[j]
                } else if j == i {
                    (key@, value@)
                } else {
                    old_view[j - 1]
                } by {}
                assert(keys_ascending(nv)) by {
                    assert forall|a: int, b: int| 0 <= a < b < nv.len() implies #[trigger] text_order(
                        nv[a].0,
                        nv[b].0,
                    ) == Ordering::Less by {
                        if b < i {
                            assert(text_order(old_view[a].0, old_view[b].0) == Ordering::Less);
                        } else if b == i {
                            assert(text_order(old_view[a].0, key@) == Ordering::Less);
                        } else if a < i {
                            assert(text_order(old_view[a].0, old_view[b - 1].0) == Ordering::Less);
                        } else if a == i {
                            if b - 1 > i {
                                assert(text_order(old_view[i as int].0, old_view[b - 1].0)
                                    == Ordering::Less);
                                lemma_bytes_order_transitive(
                                    encode_utf8(key@),
                                    encode_utf8(old_view[i as int].0),
                                    encode_utf8(old_view[b - 1].0),
                                );
                            }
                        } else {
                            assert(text_order(old_view[a - 1].0, old_view[b - 1].0)
                                == Ordering::Less);
                        }
                    }
                }
                assert forall|k: Seq<char>| #[trigger]
                    entries_get(nv, k) == if k == key@ {
                        Some(value@)
                    } else {
                        entries_get(old_view, k)
                    } by {
                    lemma_entries_get(nv, k);
                    lemma_entries_get(old_view, k);
                    if k == key@ {
                        assert(nv[i as int].0 == k);
                    } else {
                        assert forall|j: int| 0 <= j < n && old_view[j].0 == k implies entries_get(
                            nv,
                            k,
                        ) == Some(old_view[j].1) by {
                            if j < i {
                                assert(nv[j] == old_view[j]);
                            } else {
                                assert(nv[j + 1] == old_view[j]);
                            }
                        }
                        if forall|j: int| 0 <= j < n ==> old_view[j].0 != k {
                            assert forall|j: int| 0 <= j < nv.len() implies nv[j].0 != k by {
                                if j > i {
                                    assert(nv[j] == old_view[j - 1]);
                                }
                            }
                        }
                    }
                }
            }
            assert(texts_ascending(ks@)) by {
                assert forall|a: int, b: int| 0 <= a < b < ks@.len() implies #[trigger] text_order(
                    ks@[a]@,
                    ks@[b]@,
                ) == Ordering::Less by {
                    assert(text_order(nv[a].0, nv[b].0) == Ordering::Less);
                }
            }
        }
        *self = Object { keys: ks, values: vs };
        r
    }

    /// The value of the entry with the given key, mutably: what is written
    /// through it becomes that entry's value.
    pub fn get_mut(&mut self, key: &str) -> (r: Option<&mut Value>)
        ensures
            r matches Some(x) ==> entries_get(old(self)@, key@) == Some((*x)@) && final(self)@
                == entries_put(old(self)@, key@, (*final(x))@),
            r is None ==> entries_get(old(self)@, key@) is None && *final(self) == *old(self),
    {
        proof {
            use_type_invariant(&*self);
            lemma_object_view(*self);
            lemma_entries_get(self@, key@);
        }
        match self.position(key) {
            Some(i) => {
                proof {
                    let es = self@;
                    crate::text::lemma_bytes_order_equal(encode_utf8(key@), encode_utf8(key@));
                    assert forall|j: int| 0 <= j < es.len() && j != i implies es[j].0 != key@ by {
                        if j < i {
                            assert(text_order(self.keys@[j]@, self.keys@[i as int]@) == Ordering::Less);
                        } else {
                            assert(text_order(self.keys@[i as int]@, self.keys@[j]@) == Ordering::Less);
                        }
                    }
                    assert forall|c: Value|
                        pairs_view(self.keys@, self.values@.update(i as int, c)) == #[trigger] entries_put(
                            es,
                            key@,
                            c@,
                        ) by {
                        lemma_pairs_view_index(self.keys@, self.values@.update(i as int, c));
                        assert(pairs_view(self.keys@, self.values@.update(i as int, c)) =~= entries_put(
                            es,
                            key@,
                            c@,
                        ));
                    }
                }
                Some(&mut self.values[i])
            },
            None => None,
        }
    }

    /// The value of the entry with the given key.
    pub fn get(&self, key: &str) -> (r: Option<&Value>)
        ensures
            r matches Some(v) ==> entries_get(self@, key@) == Some(v@),
            r is None ==> entries_get(self@, key@) is None,
    {
        proof {
            use_type_invariant(self);
            lemma_object_view(*self);
            lemma_entries_get(self@, key@);
        }
        match self.position(key) {
            Some(i) => Some(&self.values[i]),
            None => None,
        }
    }
}

/// A copy of a value, the same tree all through.
fn clone_value(v: &Value) -> (r: Value)
    ensures
        r@ == v@,
    decreases v,
{
    match v {
        Value::Null => Value::Null,
        Value::Bool(b) => Value::Bool(*b),
        Value::Number(n) => Value::Number(n.clone()),
        Value::String(s) => Value::String(s.clone()),
        Value::Array(a) => Value::Array(clone_values(a)),
        Value::Object(o) => Value::Object(clone_object(o)),
    }
}

/// A copy of a sequence of values, element by element.
fn clone_values(a: &Vec<Value>) -> (r: Vec<Value>)
    ensures
        values_view(r@) == values_view(a@),
    decreases a,
{
    let mut out: Vec<Value> = Vec::new();
    let mut i: usize = 0;
    proof {
        lemma_values_view_index(a@);
    }
    while i < a.len()
        invariant
            i <= a@.len(),
            out@.len() == i,
            values_view(a@).len() == a@.len(),
            forall|j: int| 0 <= j < a@.len() ==> #[trigger] values_view(a@)[j] == value_view(a@[j]),
            forall|j: int| 0 <= j < i ==> #[trigger] value_view(out@[j]) == value_view(a@[j]),
        decreases a@.len() - i,
    {
        assert(decreases_to!(*a => a[i as int]));
        let c = clone_value(&a[i]);
        out.push(c);
        i = i + 1;
    }
    proof {
        lemma_values_view_index(out@);
        assert(values_view(out@) =~= values_view(a@));
    }
    out
}

/// A copy of an object, entry by entry.
fn clone_object(o: &Object) -> (r: Object)
    ensures
        r@ == o@,
    decreases o,
{
    proof {
        use_type_invariant(o);
        lemma_object_view(*o);
    }
    let mut ks: Vec<String> = Vec::new();
    let mut vs: Vec<Value> = Vec::new();
    let mut i: usize = 0;
    while i < o.keys.len()
        invariant
            o.keys@.len() == o.values@.len(),
            texts_ascending(o.keys@),
            i <= o.keys@.len(),
            ks@.len() == i,
            vs@.len() == i,
            forall|j: int| 0 <= j < i ==> (#[trigger] ks@[j])@ == o.keys@[j]@,
            forall|j: int| 0 <= j < i ==> value_view(#[trigger] vs@[j]) == value_view(o.values@[j]),
        decreases o.keys@.len() - i,
    {
        assert(decreases_to!(*o => o.values@[i as int]));
        ks.push(o.keys[i].clone());
        vs.push(clone_value(&o.values[i]));
        i = i + 1;
    }
    proof {
        lemma_pairs_view_index(ks@, vs@);
        lemma_pairs_view_index(o.keys@, o.values@);
        assert(pairs_view(ks@, vs@) =~= pairs_view(o.keys@, o.values@));
        assert forall|a: int, b: int| 0 <= a < b < ks@.len() implies #[trigger] text_order(
            ks@[a]@,
            ks@[b]@,
        ) == Ordering::Less by {
            assert(text_order(o.keys@[a]@, o.keys@[b]@) == Ordering::Less);
        }
    }
    Object { keys: ks, values: vs }
}

impl Clone for Value {
    fn clone(&self) -> (r: Value)
        ensures
            r@ == self@,
    {
        clone_value(self)
    }
}

impl Clone for Object {
    fn clone(&self) -> (r: Object)
        ensures
            r@ == self@,
    {
        clone_object(self)
    }
}

impl Default for Value {
    /// The default value is `Null`.
    fn default() -> (r: Value)
        ensures
            r == Value::Null,
    {
        Value::Null
    }
}

impl Value {
    /// The child that `index` selects: an object's entry for a string key, an
    /// array's element for a position. Nothing where the value is of another
    /// kind than the index asks for, or the key or position is absent.
    pub fn get<I: Index>(&self, index: I) -> (r: Option<&Value>)
        ensures
            r matches Some(x) ==> index.select(self@) == Some(x@),
            r is None ==> index.select(self@) is None,
    {
        index.index_into(self)
    }

    /// The child that `index` selects, mutably: what is written through it
    /// becomes that child. Nothing where `get` finds nothing.
    pub fn get_mut<I: Index>(&mut self, index: I) -> (r: Option<&mut Value>)
        ensures
            r matches Some(x) ==> index.select(old(self)@) == Some((*x)@) && final(self)@ == index.put(
                old(self)@,
                (*final(x))@,
            ),
            r is None ==> index.select(old(self)@) is None && *final(self) == *old(self),
    {
        index.index_into_mut(self)
    }

    /// Whether the value is an object.
    pub fn is_object(&self) -> (r: bool)
        ensures
            r == self@ is Object,
    {
        self.as_object().is_some()
    }

    /// The object, where the value is one.
    pub fn as_object(&self) -> (r: Option<&Object>)
        ensures
            r is Some <==> self@ is Object,
            r matches Some(o) ==> self@ == ValueView::Object(o@),
    {
        match self {
            Value::Object(o) => Some(o),
            _ => None,
        }
    }

    /// The object, mutably, where the value is one.
    pub fn as_object_mut(&mut self) -> (r: Option<&mut Object>)
        ensures
            r is Some <==> old(self)@ is Object,
            r matches Some(o) ==> ValueView::Object((*o)@) == old(self)@ && *final(self) == Value::Object(
                *final(o),
            ),
            r is None ==> *final(self) == *old(self),
    {
        match self {
            Value::Object(o) => Some(o),
            _ => None,
        }
    }

    /// Whether the value is an array.
    pub fn is_array(&self) -> (r: bool)
        ensures
            r == self@ is Array,
    {
        self.as_array().is_some()
    }

    /// The elements, where the value is an array.
    pub fn as_array(&self) -> (r: Option<&Vec<Value>>)
        ensures
            r is Some <==> self@ is Array,
            r matches Some(a) ==> self@ == ValueView::Array(values_view(a@)),
    {
        match self {
            Value::Array(a) => Some(a),
            _ => None,
        }
    }

    /// The elements, mutably, where the value is an array.
    pub fn as_array_mut(&mut self) -> (r: Option<&mut Vec<Value>>)
        ensures
            r is Some <==> old(self)@ is Array,
            r matches Some(a) ==> ValueView::Array(values_view((*a)@)) == old(self)@ && *final(self)
                == Value::Array(*final(a)),
            r is None ==> *final(self) == *old(self),
    {
        match self {
            Value::Array(a) => Some(a),
            _ => None,
        }
    }

    /// Whether the value is a string.
    pub fn is_string(&self) -> (r: bool)
        ensures
            r == self@ is String,
    {
        self.as_str().is_some()
    }

    /// The text, where the value is a string.
    pub fn as_str(&self) -> (r: Option<&str>)
        ensures
            r is Some <==> self@ is String,
            r matches Some(t) ==> self@ == ValueView::String(t@),
    {
        match self {
            Value::String(s) => Some(s.as_str()),
            _ => None,
        }
    }

    /// Whether the value is a number.
    pub fn is_number(&self) -> (r: bool)
        ensures
            r == self@ is Number,
    {
        match self {
            Value::Number(_) => true,
            _ => false,
        }
    }

    /// Whether the value is an integer within `i64`.
    pub fn is_i64(&self) -> (r: bool)
        ensures
            r == match self@ {
                ValueView::Number(NumberView::PosInt(u)) => u <= i64::MAX,
                ValueView::Number(NumberView::NegInt(_)) => true,
                _ => false,
            },
    {
        match self {
            Value::Number(n) => n.is_i64(),
            _ => false,
        }
    }

    /// Whether the value is a non-negative integer.
    pub fn is_u64(&self) -> (r: bool)
        ensures
            r == self@ matches ValueView::Number(NumberView::PosInt(_)),
    {
        match self {
            Value::Number(n) => n.is_u64(),
            _ => false,
        }
    }

    /// Whether the value is a finite float.
    pub fn is_f64(&self) -> (r: bool)
        ensures
            r == self@ matches ValueView::Number(NumberView::Float(_)),
    {
        match self {
            Value::Number(n) => n.is_f64(),
            _ => false,
        }
    }

    /// The value as an `i64`, where it is an integer within `i64`.
    pub fn as_i64(&self) -> (r: Option<i64>)
        ensures
            match self@ {
                ValueView::Number(NumberView::PosInt(u)) => if u <= i64::MAX {
                    r == Some(u as i64)
                } else {
                    r is None
                },
                ValueView::Number(NumberView::NegInt(i)) => r == Some(i as i64),
                _ => r is None,
            },
    {
        match self {
            Value::Number(n) => n.as_i64(),
            _ => None,
        }
    }

    /// The value as a `u64`, where it is a non-negative integer.
    pub fn as_u64(&self) -> (r: Option<u64>)
        ensures
            match self@ {
                ValueView::Number(NumberView::PosInt(u)) => r == Some(u as u64),
                _ => r is None,
            },
    {
        match self {
            Value::Number(n) => n.as_u64(),
            _ => None,
        }
    }

    /// The scientific rendering, where the value is a float.
    pub fn as_float_text(&self) -> (r: Option<&str>)
        ensures
            match self@ {
                ValueView::Number(NumberView::Float(s)) => r matches Some(t) && t@ == s,
                _ => r is None,
            },
    {
        match self {
            Value::Number(n) => n.as_float_text(),
            _ => None,
        }
    }

    /// Whether the value is a boolean.
    pub fn is_boolean(&self) -> (r: bool)
        ensures
            r == self@ is Bool,
    {
        self.as_bool().is_some()
    }

    /// The boolean, where the value is one.
    pub fn as_bool(&self) -> (r: Option<bool>)
        ensures
            match self@ {
                ValueView::Bool(b) => r == Some(b),
                _ => r is None,
            },
    {
        match self {
            Value::Bool(b) => Some(*b),
            _ => None,
        }
    }

    /// Whether the value is null.
    pub fn is_null(&self) -> (r: bool)
        ensures
            r == self@ is Null,
    {
        self.as_null().is_some()
    }

    /// `()`, where the value is null.
    pub fn as_null(&self) -> (r: Option<()>)
        ensures
            r is Some <==> self@ is Null,
    {
        match self {
            Value::Null => Some(()),
            _ => None,
        }
    }

    /// Takes the value out, leaving null in its place.
    pub fn take(&mut self) -> (r: Value)
        ensures
            r == *old(self),
            *final(self) == Value::Null,
    {
        let mut r = Value::Null;
        std::mem::swap(self, &mut r);
        r
    }
}

/// Whether two values are the same tree.
fn eq_value(a: &Value, b: &Value) -> (r: bool)
    ensures
        r == (a@ == b@),
    decreases a,
{
    match (a, b) {
        (Value::Null, Value::Null) => true,
        (Value::Bool(x), Value::Bool(y)) => *x == *y,
        (Value::Number(x), Value::Number(y)) => x.eq(y),
        (Value::String(x), Value::String(y)) => x.eq(y),
        (Value::Array(x), Value::Array(y)) => eq_values(x, y),
        (Value::Object(x), Value::Object(y)) => eq_objects(x, y),
        _ => false,
    }
}

/// Whether two sequences of values are the same, element by element.
fn eq_values(a: &Vec<Value>, b: &Vec<Value>) -> (r: bool)
    ensures
        r == (values_view(a@) == values_view(b@)),
    decreases a,
{
    proof {
        lemma_values_view_index(a@);
        lemma_values_view_index(b@);
    }
    if a.len() != b.len() {
        return false;
    }
    let mut i: usize = 0;
    while i < a.len()
        invariant
            a@.len() == b@.len(),
            i <= a@.len(),
            values_view(a@).len() == a@.len(),
            values_view(b@).len() == b@.len(),
            forall|j: int| 0 <= j < a@.len() ==> #[trigger] values_view(a@)[j] == value_view(a@[j]),
            forall|j: int| 0 <= j < b@.len() ==> #[trigger] values_view(b@)[j] == value_view(b@[j]),
            forall|j: int| 0 <= j < i ==> value_view(#[trigger] a@[j]) == value_view(b@[j]),
        decreases a@.len() - i,
    {
        assert(decreases_to!(*a => a[i as int]));
        if !eq_value(&a[i], &b[i]) {
            assert(values_view(a@)[i as int] != values_view(b@)[i as int]);
            return false;
        }
        i = i + 1;
    }
    assert(values_view(a@) =~= values_view(b@));
    true
}

/// Whether two objects have the same entries.
fn eq_objects(a: &Object, b: &Object) -> (r: bool)
    ensures
        r == (a@ == b@),
    decreases a,
{
    proof {
        use_type_invariant(a);
        use_type_invariant(b);
        lemma_object_view(*a);
        lemma_object_view(*b);
    }
    if a.keys.len() != b.keys.len() {
        return false;
    }
    let mut i: usize = 0;
    while i < a.keys.len()
        invariant
            a.keys@.len() == b.keys@.len(),
            a.keys@.len() == a.values@.len(),
            b.keys@.len() == b.values@.len(),
            i <= a.keys@.len(),
            a@.len() == a.keys@.len(),
            b@.len() == b.keys@.len(),
            forall|j: int| 0 <= j < a.keys@.len() ==> #[trigger] a@[j] == (a.keys@[j]@, value_view(a.values@[j])),
            forall|j: int| 0 <= j < b.keys@.len() ==> #[trigger] b@[j] == (b.keys@[j]@, value_view(b.values@[j])),
            forall|j: int| 0 <= j < i ==> #[trigger] a@[j] == b@[j],
        decreases a.keys@.len() - i,
    {
        let same_key = match compare_text(a.keys[i].as_str(), b.keys[i].as_str()) {
            Ordering::Equal => true,
            _ => false,
        };
        if !same_key {
            assert(a@[i as int] != b@[i as int]);
            return false;
        }
        assert(decreases_to!(*a => a.values@[i as int]));
        if !eq_value(&a.values[i], &b.values[i]) {
            assert(a@[i as int] != b@[i as int]);
            return false;
        }
        i = i + 1;
    }
    assert(a@ =~= b@);
    true
}

impl PartialEq for Value {
    fn eq(&self, other: &Value) -> (r: bool) {
        eq_value(self, other)
    }
}

impl vstd::std_specs::cmp::PartialEqSpecImpl for Value {
    open spec fn obeys_eq_spec() -> bool {
        true
    }

    open spec fn eq_spec(&self, other: &Value) -> bool {
        self@ == other@
    }
}

impl PartialEq for Object {
    fn eq(&self, other: &Object) -> (r: bool) {
        eq_objects(self, other)
    }
}

impl vstd::std_specs::cmp::PartialEqSpecImpl for Object {
    open spec fn obeys_eq_spec() -> bool {
        true
    }

    open spec fn eq_spec(&self, other: &Object) -> bool {
        self@ == other@
    }
}

/// Equality of values is equality of the trees they stand for: every value
/// equals itself and its copies, the relation is symmetric and transitive,
/// and the default value, null, equals `Value::Null`.
pub proof fn lemma_value_equality(a: Value, b: Value, c: Value)
    ensures
        a.eq_spec(&a),
        a.eq_spec(&b) == b.eq_spec(&a),
        a.eq_spec(&b) && b.eq_spec(&c) ==> a.eq_spec(&c),
        Value::Null.eq_spec(&Value::Null),
        a@ is Null <==> a.eq_spec(&Value::Null),
{
}

/// The kind's place in the order of values: null, booleans, numbers,
/// strings, arrays, objects.
pub open spec fn value_rank(v: ValueView) -> int {
    match v {
        ValueView::Null => 0,
        ValueView::Bool(_) => 1,
        ValueView::Number(_) => 2,
        ValueView::String(_) => 3,
        ValueView::Array(_) => 4,
        ValueView::Object(_) => 5,
    }
}

/// The order of booleans: false before true.
pub open spec fn bool_order(a: bool, b: bool) -> Ordering {
    if a == b {
        Ordering::Equal
    } else if !a {
        Ordering::Less
    } else {
        Ordering::Greater
    }
}

/// The order of values: by kind first; within a kind, booleans false first,
/// numbers by the order of numbers, strings by their bytes, arrays element by
/// element, objects entry by entry (key, then value), a prefix first.
pub open spec fn value_order(a: ValueView, b: ValueView) -> Ordering
    decreases a,
{
    if value_rank(a) != value_rank(b) {
        int_order(value_rank(a), value_rank(b))
    } else {
        match (a, b) {
            (ValueView::Bool(x), ValueView::Bool(y)) => bool_order(x, y),
            (ValueView::Number(x), ValueView::Number(y)) => number_order(x, y),
            (ValueView::String(x), ValueView::String(y)) => text_order(x, y),
            (ValueView::Array(x), ValueView::Array(y)) => values_order(x, y),
            (ValueView::Object(x), ValueView::Object(y)) => entries_order(x, y),
            _ => Ordering::Equal,
        }
    }
}

/// Sequences of values in lexicographic order.
pub open spec fn values_order(s: Seq<ValueView>, t: Seq<ValueView>) -> Ordering
    decreases s,
{
    if s.len() == 0 {
        if t.len() == 0 {
            Ordering::Equal
        } else {
            Ordering::Less
        }
    } else if t.len() == 0 {
        Ordering::Greater
    } else {
        match value_order(s[0], t[0]) {
            Ordering::Equal => values_order(s.drop_first(), t.drop_first()),
            o => o,
        }
    }
}

/// Sequences of entries in lexicographic order, an entry by key then value.
pub open spec fn entries_order(s: Seq<(Seq<char>, ValueView)>, t: Seq<(Seq<char>, ValueView)>) -> Ordering
    decreases s,
{
    if s.len() == 0 {
        if t.len() == 0 {
            Ordering::Equal
        } else {
            Ordering::Less
        }
    } else if t.len() == 0 {
        Ordering::Greater
    } else {
        match text_order(s[0].0, t[0].0) {
            Ordering::Equal => match value_order(s[0].1, t[0].1) {
                Ordering::Equal => entries_order(s.drop_first(), t.drop_first()),
                o => o,
            },
            o => o,
        }
    }
}

fn rank(v: &Value) -> (r: u8)
    ensures
        r as int == value_rank(v@),
{
    match v {
        Value::Null => 0,
        Value::Bool(_) => 1,
        Value::Number(_) => 2,
        Value::String(_) => 3,
        Value::Array(_) => 4,
        Value::Object(_) => 5,
    }
}

/// Compares two values by the order of values.
fn cmp_value(a: &Value, b: &Value) -> (r: Ordering)
    ensures
        r == value_order(a@, b@),
    decreases a,
{
    match (a, b) {
        (Value::Bool(x), Value::Bool(y)) => if *x == *y {
            Ordering::Equal
        } else if !*x {
            Ordering::Less
        } else {
            Ordering::Greater
        },
        (Value::Number(x), Value::Number(y)) => x.cmp(y),
        (Value::String(x), Value::String(y)) => compare_text(x.as_str(), y.as_str()),
        (Value::Array(x), Value::Array(y)) => cmp_values(x, y),
        (Value::Object(x), Value::Object(y)) => cmp_objects(x, y),
        _ => {
            let p = rank(a);
            let q = rank(b);
            if p < q {
                Ordering::Less
            } else if p > q {
                Ordering::Greater
            } else {
                Ordering::Equal
            }
        },
    }
}

/// Compares two sequences of values lexicographically.
fn cmp_values(a: &Vec<Value>, b: &Vec<Value>) -> (r: Ordering)
    ensures
        r == values_order(values_view(a@), values_view(b@)),
    decreases a,
{
    let ghost va = values_view(a@);
    let ghost vb = values_view(b@);
    proof {
        lemma_values_view_index(a@);
        lemma_values_view_index(b@);
        assert(va.subrange(0, va.len() as int) =~= va);
        assert(vb.subrange(0, vb.len() as int) =~= vb);
    }
    let mut i: usize = 0;
    while i < a.len() && i < b.len()
        invariant
            va == values_view(a@),
            vb == values_view(b@),
            va.len() == a@.len(),
            vb.len() == b@.len(),
            forall|j: int| 0 <= j < a@.len() ==> #[trigger] va[j] == value_view(a@[j]),
            forall|j: int| 0 <= j < b@.len() ==> #[trigger] vb[j] == value_view(b@[j]),
            i <= a@.len(),
            i <= b@.len(),
            values_order(va, vb) == values_order(
                va.subrange(i as int, va.len() as int),
                vb.subrange(i as int, vb.len() as int),
            ),
        decreases a@.len() - i,
    {
        assert(decreases_to!(*a => a[i as int]));
        let c = cmp_value(&a[i], &b[i]);
        assert(va.subrange(i as int, va.len() as int)[0] == va[i as int]);
        assert(vb.subrange(i as int, vb.len() as int)[0] == vb[i as int]);
        match c {
            Ordering::Equal => {},
            _ => {
                return c;
            },
        }
        assert(va.subrange(i as int, va.len() as int).drop_first() =~= va.subrange(i + 1, va.len() as int));
        assert(vb.subrange(i as int, vb.len() as int).drop_first() =~= vb.subrange(i + 1, vb.len() as int));
        i = i + 1;
    }
    if i < b.len() {
        Ordering::Less
    } else if i < a.len() {
        Ordering::Greater
    } else {
        Ordering::Equal
    }
}

/// Compares two objects entry by entry.
fn cmp_objects(a: &Object, b: &Object) -> (r: Ordering)
    ensures
        r == entries_order(a@, b@),
    decreases a,
{
    proof {
        use_type_invariant(a);
        use_type_invariant(b);
        lemma_object_view(*a);
        lemma_object_view(*b);
        assert(a@.subrange(0, a@.len() as int) =~= a@);
        assert(b@.subrange(0, b@.len() as int) =~= b@);
    }
    let mut i: usize = 0;
    while i < a.keys.len() && i < b.keys.len()
        invariant
            a.keys@.len() == a.values@.len(),
            b.keys@.len() == b.values@.len(),
            a@.len() == a.keys@.len(),
            b@.len() == b.keys@.len(),
            forall|j: int| 0 <= j < a.keys@.len() ==> #[trigger] a@[j] == (a.keys@[j]@, value_view(a.values@[j])),
            forall|j: int| 0 <= j < b.keys@.len() ==> #[trigger] b@[j] == (b.keys@[j]@, value_view(b.values@[j])),
            i <= a@.len(),
            i <= b@.len(),
            entries_order(a@, b@) == entries_order(
                a@.subrange(i as int, a@.len() as int),
                b@.subrange(i as int, b@.len() as int),
            ),
        decreases a@.len() - i,
    {
        assert(a@.subrange(i as int, a@.len() as int)[0] == a@[i as int]);
        assert(b@.subrange(i as int, b@.len() as int)[0] == b@[i as int]);
        let k = compare_text(a.keys[i].as_str(), b.keys[i].as_str());
        match k {
            Ordering::Equal => {},
            _ => {
                return k;
            },
        }
        assert(decreases_to!(*a => a.values@[i as int]));
        let c = cmp_value(&a.values[i], &b.values[i]);
        match c {
            Ordering::Equal => {},
            _ => {
                return c;
            },
        }
        assert(a@.subrange(i as int, a@.len() as int).drop_first() =~= a@.subrange(i + 1, a@.len() as int));
        assert(b@.subrange(i as int, b@.len() as int).drop_first() =~= b@.subrange(i + 1, b@.len() as int));
        i = i + 1;
    }
    if i < b.keys.len() {
        Ordering::Less
    } else if i < a.keys.len() {
        Ordering::Greater
    } else {
        Ordering::Equal
    }
}

impl PartialOrd for Value {
    fn partial_cmp(&self, other: &Value) -> (r: Option<Ordering>) {
        Some(cmp_value(self, other))
    }
}

impl vstd::std_specs::cmp::PartialOrdSpecImpl for Value {
    open spec fn obeys_partial_cmp_spec() -> bool {
        true
    }

    open spec fn partial_cmp_spec(&self, other: &Value) -> Option<Ordering> {
        Some(value_order(self@, other@))
    }
}

} // verus!
