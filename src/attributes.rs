//! Attribute values and attribute collections.
use vstd::prelude::*;
use crate::text::same_text;

verus! {

/// An attribute value. A floating-point value is held as its IEEE-754 bit
/// pattern (`f64::to_bits`).
#[derive(Debug)]
pub enum AttributeValue {
    String(String),
    Int(i64),
    Double(u64),
    Bool(bool),
    Bytes(Vec<u8>),
    Array(Vec<AttributeValue>),
}

/// The mathematical content of an attribute value.
pub enum ValueView {
    Str(Seq<char>),
    Int(i64),
    Double(u64),
    Bool(bool),
    Bytes(Seq<u8>),
    Array(Seq<ValueView>),
}

pub open spec fn value_view(v: AttributeValue) -> ValueView
    decreases v,
{
    match v {
        AttributeValue::String(s) => ValueView::Str(s@),
        AttributeValue::Int(i) => ValueView::Int(i),
        AttributeValue::Double(d) => ValueView::Double(d),
        AttributeValue::Bool(b) => ValueView::Bool(b),
        AttributeValue::Bytes(b) => ValueView::Bytes(b@),
        AttributeValue::Array(items) => ValueView::Array(values_view(items@)),
    }
}

pub open spec fn values_view(s: Seq<AttributeValue>) -> Seq<ValueView>
    decreases s,
{
    if s.len() == 0 {
        Seq::empty()
    } else {
        values_view(s.drop_last()).push(value_view(s.last()))
    }
}

impl View for AttributeValue {
    type V = ValueView;

    open spec fn view(&self) -> ValueView {
        value_view(*self)
    }
}

/// A deep copy of a value.
pub fn copy_value(v: &AttributeValue) -> (r: AttributeValue)
    ensures
        r@ == v@,
    decreases v,
{
    match v {
        AttributeValue::String(s) => AttributeValue::String(s.clone()),
        AttributeValue::Int(i) => AttributeValue::Int(*i),
        AttributeValue::Double(d) => AttributeValue::Double(*d),
        AttributeValue::Bool(b) => AttributeValue::Bool(*b),
        AttributeValue::Bytes(b) => {
            let mut out: Vec<u8> = Vec::new();
            let mut i: usize = 0;
            while i < b.len()
                invariant
                    i <= b@.len(),
                    out@ == b@.subrange(0, i as int),
                decreases b@.len() - i,
            {
                out.push(b[i]);
                assert(out@ =~= b@.subrange(0, i + 1));
                i = i + 1;
            }
            assert(out@ =~= b@);
            AttributeValue::Bytes(out)
        },
        AttributeValue::Array(items) => {
            let mut out: Vec<AttributeValue> = Vec::new();
            let mut i: usize = 0;
            while i < items.len()
                invariant
                    *v == AttributeValue::Array(*items),
                    i <= items@.len(),
                    values_view(out@) == values_view(items@.subrange(0, i as int)),
                decreases items@.len() - i,
            {
                proof {
                    broadcast use vstd::std_specs::vec::axiom_vec_index_decreases;
                    assert(*v == AttributeValue::Array(*items));
                    assert(decreases_to!(*v => (*v)->Array_0));
                    assert(decreases_to!(*items => items[i as int]));
                }
                let c = copy_value(&items[i]);
                let ghost before = out@;
                out.push(c);
                assert(out@.drop_last() =~= before);
                assert(items@.subrange(0, i + 1).drop_last() =~= items@.subrange(0, i as int));
                i = i + 1;
            }
            assert(items@.subrange(0, items@.len() as int) =~= items@);
            AttributeValue::Array(out)
        },
    }
}

/// Whether two values are equal.
pub fn value_eq(a: &AttributeValue, b: &AttributeValue) -> (r: bool)
    ensures
        r == (a@ == b@),
    decreases a,
{
    proof {
        reveal_with_fuel(value_view, 1);
    }
    match (a, b) {
        (AttributeValue::String(x), AttributeValue::String(y)) => same_text(x.as_str(), y.as_str()),
        (AttributeValue::Int(x), AttributeValue::Int(y)) => *x == *y,
        (AttributeValue::Double(x), AttributeValue::Double(y)) => *x == *y,
        (AttributeValue::Bool(x), AttributeValue::Bool(y)) => *x == *y,
        (AttributeValue::Bytes(x), AttributeValue::Bytes(y)) => {
            if x.len() != y.len() {
                return false;
            }
            let mut i: usize = 0;
            while i < x.len()
                invariant
                    *a == AttributeValue::Bytes(*x),
                    *b == AttributeValue::Bytes(*y),
                    x@.len() == y@.len(),
                    i <= x@.len(),
                    forall|j: int| 0 <= j < i ==> x@[j] == y@[j],
                decreases x@.len() - i,
            {
                if x[i] != y[i] {
                    assert(x@[i as int] != y@[i as int]);
                    assert(x@ != y@);
                    return false;
                }
                i = i + 1;
            }
            assert(x@ =~= y@);
            true
        },
        (AttributeValue::Array(x), AttributeValue::Array(y)) => {
            if x.len() != y.len() {
                proof {
                    lemma_values_view_len(x@);
                    lemma_values_view_len(y@);
                }
                return false;
            }
            let mut i: usize = 0;
            while i < x.len()
                invariant
                    *a == AttributeValue::Array(*x),
                    *b == AttributeValue::Array(*y),
                    x@.len() == y@.len(),
                    i <= x@.len(),
                    values_view(x@.subrange(0, i as int)) == values_view(y@.subrange(0, i as int)),
                decreases x@.len() - i,
            {
                proof {
                    broadcast use vstd::std_specs::vec::axiom_vec_index_decreases;
                    assert(*a == AttributeValue::Array(*x));
                    assert(decreases_to!(*a => (*a)->Array_0));
                    assert(decreases_to!(*x => x[i as int]));
                }
                let same = value_eq(&x[i], &y[i]);
                assert(x@.subrange(0, i + 1).drop_last() =~= x@.subrange(0, i as int));
                assert(y@.subrange(0, i + 1).drop_last() =~= y@.subrange(0, i as int));
                if !same {
                    proof {
                        lemma_values_view_index(x@.subrange(0, i + 1), i as int);
                        lemma_values_view_index(y@.subrange(0, i + 1), i as int);
                        lemma_values_view_index(x@, i as int);
                        lemma_values_view_index(y@, i as int);
                        lemma_values_view_len(x@);
                        lemma_values_view_len(y@);
                    }
                    return false;
                }
                i = i + 1;
            }
            assert(x@.subrange(0, x@.len() as int) =~= x@);
            assert(y@.subrange(0, y@.len() as int) =~= y@);
            true
        },
        _ => {
            assert(a@ != b@) by {
                match a {
                    AttributeValue::String(_) => assert(a@ is Str),
                    AttributeValue::Int(_) => assert(a@ is Int),
                    AttributeValue::Double(_) => assert(a@ is Double),
                    AttributeValue::Bool(_) => assert(a@ is Bool),
                    AttributeValue::Bytes(_) => assert(a@ is Bytes),
                    AttributeValue::Array(_) => assert(a@ is Array),
                }
                match b {
                    AttributeValue::String(_) => assert(b@ is Str),
                    AttributeValue::Int(_) => assert(b@ is Int),
                    AttributeValue::Double(_) => assert(b@ is Double),
                    AttributeValue::Bool(_) => assert(b@ is Bool),
                    AttributeValue::Bytes(_) => assert(b@ is Bytes),
                    AttributeValue::Array(_) => assert(b@ is Array),
                }
            }
            false
        },
    }
}

pub proof fn lemma_values_view_len(s: Seq<AttributeValue>)
    ensures
        values_view(s).len() == s.len(),
    decreases s.len(),
{
    if s.len() > 0 {
        lemma_values_view_len(s.drop_last());
    }
}

pub proof fn lemma_values_view_index(s: Seq<AttributeValue>, i: int)
    requires
        0 <= i < s.len(),
    ensures
        values_view(s)[i] == value_view(s[i]),
    decreases s.len(),
{
    lemma_values_view_len(s.drop_last());
    if i < s.len() - 1 {
        lemma_values_view_index(s.drop_last(), i);
    }
}

impl Clone for Attributes {
    fn clone(&self) -> Self {
        self.copy()
    }
}

impl From<String> for AttributeValue {
    fn from(s: String) -> Self {
        AttributeValue::String(s)
    }
}

impl vstd::std_specs::convert::FromSpecImpl<String> for AttributeValue {
    open spec fn obeys_from_spec() -> bool {
        true
    }

    open spec fn from_spec(s: String) -> Self {
        AttributeValue::String(s)
    }
}

impl From<i64> for AttributeValue {
    fn from(i: i64) -> Self {
        AttributeValue::Int(i)
    }
}

impl vstd::std_specs::convert::FromSpecImpl<i64> for AttributeValue {
    open spec fn obeys_from_spec() -> bool {
        true
    }

    open spec fn from_spec(i: i64) -> Self {
        AttributeValue::Int(i)
    }
}

impl From<bool> for AttributeValue {
    fn from(b: bool) -> Self {
        AttributeValue::Bool(b)
    }
}

impl vstd::std_specs::convert::FromSpecImpl<bool> for AttributeValue {
    open spec fn obeys_from_spec() -> bool {
        true
    }

    open spec fn from_spec(b: bool) -> Self {
        AttributeValue::Bool(b)
    }
}

impl Clone for AttributeValue {
    fn clone(&self) -> Self {
        copy_value(self)
    }
}

impl PartialEq for AttributeValue {
    fn eq(&self, other: &Self) -> (r: bool) {
        value_eq(self, other)
    }
}

impl vstd::std_specs::cmp::PartialEqSpecImpl for AttributeValue {
    open spec fn obeys_eq_spec() -> bool {
        true
    }

    open spec fn eq_spec(&self, other: &Self) -> bool {
        self@ == other@
    }
}

/// Entries as (key, value) views, in storage order.
pub type EntriesView = Seq<(Seq<char>, ValueView)>;

/// No two entries share a key.
pub open spec fn keys_unique(e: EntriesView) -> bool {
    forall|i: int, j: int| 0 <= i < e.len() && 0 <= j < e.len() && i != j ==> e[i].0 != e[j].0
}

/// Whether some entry has the key.
pub open spec fn has_key(e: EntriesView, k: Seq<char>) -> bool {
    exists|i: int| 0 <= i < e.len() && e[i].0 == k
}

/// Last-writer-wins insertion: the entry with the key is replaced in place,
/// otherwise the pair is appended.
pub open spec fn upsert(e: EntriesView, k: Seq<char>, v: ValueView) -> EntriesView {
    if has_key(e, k) {
        let i = choose|i: int| 0 <= i < e.len() && e[i].0 == k;
        e.update(i, (k, v))
    } else {
        e.push((k, v))
    }
}

/// The value stored under a key, if any.
pub open spec fn lookup(e: EntriesView, k: Seq<char>) -> Option<ValueView> {
    if has_key(e, k) {
        let i = choose|i: int| 0 <= i < e.len() && e[i].0 == k;
        Some(e[i].1)
    } else {
        None
    }
}

pub proof fn lemma_upsert_keeps_unique(e: EntriesView, k: Seq<char>, v: ValueView)
    requires
        keys_unique(e),
    ensures
        keys_unique(upsert(e, k, v)),
{
}

/// A collection of attributes keyed by string; keys are unique and a later
/// insertion under an existing key replaces its value.
#[derive(Debug, PartialEq)]
pub struct Attributes {
    entries: Vec<(String, AttributeValue)>,
}

spec fn entries_view(e: Seq<(String, AttributeValue)>) -> EntriesView {
    e.map_values(|p: (String, AttributeValue)| (p.0@, p.1@))
}

impl View for Attributes {
    type V = EntriesView;

    closed spec fn view(&self) -> EntriesView {
        entries_view(self.entries@)
    }
}

impl Attributes {
    /// No two entries share a key.
    #[verifier::type_invariant]
    spec fn wf(&self) -> bool {
        keys_unique(entries_view(self.entries@))
    }

    pub fn new() -> (r: Self)
        ensures
            r@ == Seq::<(Seq<char>, ValueView)>::empty(),
    {
        Attributes { entries: Vec::new() }
    }

    fn position(&self, key: &str) -> (r: Option<usize>)
        ensures
            match r {
                Some(i) => i < self@.len() && self@[i as int].0 == key@,
                None => !has_key(self@, key@),
            },
    {
        let mut i: usize = 0;
        while i < self.entries.len()
            invariant
                i <= self@.len(),
                self@.len() == self.entries@.len(),
                forall|j: int| 0 <= j < i ==> self@[j].0 != key@,
            decreases self.entries@.len() - i,
        {
            if same_text(self.entries[i].0.as_str(), key) {
                return Some(i);
            }
            i = i + 1;
        }
        None
    }

    /// Sets the value under a key, replacing an earlier value.
    pub fn insert(&mut self, key: String, value: AttributeValue)
        ensures
            final(self)@ == upsert(old(self)@, key@, value@),
    {
        proof {
            use_type_invariant(&*self);
            lemma_upsert_keeps_unique(self@, key@, value@);
        }
        let ghost before = self@;
        let found = self.position(key.as_str());
        let mut entries: Vec<(String, AttributeValue)> = Vec::new();
        std::mem::swap(&mut entries, &mut self.entries);
        assert(entries_view(entries@) == before);
        match found {
            Some(i) => {
                proof {
                    let c = choose|c: int| 0 <= c < before.len() && before[c].0 == key@;
                    assert(c == i as int);
                }
                entries.set(i, (key, value));
            },
            None => {
                entries.push((key, value));
            },
        }
        assert(entries_view(entries@) =~= upsert(before, key@, value@));
        self.entries = entries;
    }

    /// The value stored under a key.
    pub fn get(&self, key: &str) -> (r: Option<&AttributeValue>)
        ensures
            match r {
                Some(v) => lookup(self@, key@) == Some(v@),
                None => lookup(self@, key@) is None,
            },
    {
        proof {
            use_type_invariant(self);
        }
        match self.position(key) {
            Some(i) => {
                proof {
                    let c = choose|c: int| 0 <= c < self@.len() && self@[c].0 == key@;
                    assert(c == i as int);
                }
                Some(&self.entries[i].1)
            },
            None => None,
        }
    }

    /// A deep copy.
    pub fn copy(&self) -> (r: Self)
        ensures
            r@ == self@,
    {
        proof {
            use_type_invariant(self);
        }
        let mut out: Vec<(String, AttributeValue)> = Vec::new();
        let mut i: usize = 0;
        while i < self.entries.len()
            invariant
                i <= self.entries@.len(),
                entries_view(out@) == entries_view(self.entries@).subrange(0, i as int),
            decreases self.entries@.len() - i,
        {
            let e = &self.entries[i];
            let k = e.0.clone();
            let v = copy_value(&e.1);
            let ghost before = out@;
            out.push((k, v));
            assert(out@ == before.push((k, v)));
            assert(entries_view(self.entries@)[i as int] == (e.0@, e.1@));
            assert(entries_view(out@) =~= entries_view(before).push((k@, v@)));
            assert(entries_view(out@) =~= entries_view(self.entries@).subrange(0, i + 1));
            i = i + 1;
        }
        assert(entries_view(out@) =~= entries_view(self.entries@));
        Attributes { entries: out }
    }

    /// The number of keys.
    pub fn len(&self) -> (r: usize)
        ensures
            r == self@.len(),
    {
        self.entries.len()
    }

    pub fn is_empty(&self) -> (r: bool)
        ensures
            r == (self@.len() == 0),
    {
        self.entries.len() == 0
    }

    /// The entry at a position in storage order.
    pub fn entry(&self, i: usize) -> (r: (&String, &AttributeValue))
        requires
            i < self@.len(),
        ensures
            r.0@ == self@[i as int].0,
            r.1@ == self@[i as int].1,
    {
        let e = &self.entries[i];
        (&e.0, &e.1)
    }

    /// The string stored under a key, when the value there is a string.
    pub fn get_string(&self, key: &str) -> (r: Option<&str>)
        ensures
            match r {
                Some(s) => lookup(self@, key@) == Some(ValueView::Str(s@)),
                None => !(lookup(self@, key@) matches Some(ValueView::Str(_))),
            },
    {
        match self.get(key) {
            Some(AttributeValue::String(s)) => Some(s.as_str()),
            _ => None,
        }
    }

    /// The integer stored under a key, when the value there is an integer.
    pub fn get_int(&self, key: &str) -> (r: Option<i64>)
        ensures
            match r {
                Some(i) => lookup(self@, key@) == Some(ValueView::Int(i)),
                None => !(lookup(self@, key@) matches Some(ValueView::Int(_))),
            },
    {
        match self.get(key) {
            Some(AttributeValue::Int(i)) => Some(*i),
            _ => None,
        }
    }

    /// The boolean stored under a key, when the value there is a boolean.
    pub fn get_bool(&self, key: &str) -> (r: Option<bool>)
        ensures
            match r {
                Some(b) => lookup(self@, key@) == Some(ValueView::Bool(b)),
                None => !(lookup(self@, key@) matches Some(ValueView::Bool(_))),
            },
    {
        match self.get(key) {
            Some(AttributeValue::Bool(b)) => Some(*b),
            _ => None,
        }
    }

    /// The bit pattern of the floating-point value stored under a key, when
    /// the value there is floating-point.
    pub fn get_double(&self, key: &str) -> (r: Option<u64>)
        ensures
            match r {
                Some(d) => lookup(self@, key@) == Some(ValueView::Double(d)),
                None => !(lookup(self@, key@) matches Some(ValueView::Double(_))),
            },
    {
        match self.get(key) {
            Some(AttributeValue::Double(d)) => Some(*d),
            _ => None,
        }
    }
}

} // verus!
