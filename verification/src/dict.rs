//! The dictionary that a value of kind `Dict` holds: string keys, each at most
//! once, kept in ascending order.
use vstd::prelude::*;

use crate::model::{Value, ValueView};
use crate::ordering::{lemma_lex_order_chain, lemma_lex_order_flip, lemma_text_order_equal, order_text, text_order, Order};

verus! {

/// The model of a dictionary: its entries, in ascending order of their keys.
pub type Entries = Seq<(Seq<char>, ValueView)>;

/// Whether the keys of `d` are strictly ascending, so that none occurs twice.
pub open spec fn dict_sorted(d: Entries) -> bool {
    forall|i: int, j: int| 0 <= i < j < d.len() ==> text_order(d[i].0, d[j].0) == Order::Less
}

/// The index, from `i` on, of the first entry of `d` whose key is not less
/// than `key`; the length of `d` if there is none.
pub open spec fn dict_slot_from(d: Entries, key: Seq<char>, i: int) -> int
    decreases d.len() - i,
{
    if 0 <= i < d.len() && text_order(d[i].0, key) == Order::Less {
        dict_slot_from(d, key, i + 1)
    } else {
        i
    }
}

/// The index at which `key` stands in `d`, or would be put.
pub open spec fn dict_slot(d: Entries, key: Seq<char>) -> int {
    dict_slot_from(d, key, 0)
}

/// Whether `d` has an entry for `key`.
pub open spec fn dict_has(d: Entries, key: Seq<char>) -> bool {
    0 <= dict_slot(d, key) < d.len() && d[dict_slot(d, key)].0 == key
}

/// The value that `d` holds for `key`, if any.
pub open spec fn dict_get(d: Entries, key: Seq<char>) -> Option<ValueView> {
    if dict_has(d, key) {
        Some(d[dict_slot(d, key)].1)
    } else {
        None
    }
}

/// `d` with `key` set to `value`: in place of the entry that `d` has for
/// `key`, or else as a new entry where the order of keys puts it.
pub open spec fn dict_insert(d: Entries, key: Seq<char>, value: ValueView) -> Entries {
    if dict_has(d, key) {
        d.update(dict_slot(d, key), (key, value))
    } else {
        d.insert(dict_slot(d, key), (key, value))
    }
}

proof fn lemma_slot_from(d: Entries, key: Seq<char>, i: int)
    requires
        0 <= i <= d.len(),
        dict_sorted(d),
    ensures
        i <= dict_slot_from(d, key, i) <= d.len(),
        forall|j: int| i <= j < dict_slot_from(d, key, i) ==> text_order(d[j].0, key) == Order::Less,
        dict_slot_from(d, key, i) < d.len() ==> text_order(d[dict_slot_from(d, key, i)].0, key)
            != Order::Less,
    decreases d.len() - i,
{
    if i < d.len() && text_order(d[i].0, key) == Order::Less {
        lemma_slot_from(d, key, i + 1);
    }
}

/// In a sorted dictionary, the entries before the slot of a key are less than
/// the key and those from the slot on are not.
pub proof fn lemma_dict_slot(d: Entries, key: Seq<char>)
    requires
        dict_sorted(d),
    ensures
        0 <= dict_slot(d, key) <= d.len(),
        forall|j: int| 0 <= j < dict_slot(d, key) ==> text_order(d[j].0, key) == Order::Less,
        forall|j: int|
            dict_slot(d, key) <= j < d.len() ==> text_order(d[j].0, key) != Order::Less,
{
    lemma_slot_from(d, key, 0);
    let p = dict_slot(d, key);
    assert forall|j: int| p <= j < d.len() implies text_order(d[j].0, key) != Order::Less by {
        if j > p && text_order(d[j].0, key) == Order::Less {
            assert(text_order(d[p].0, d[j].0) == Order::Less);
            lemma_lex_order_chain(
                vstd::utf8::encode_utf8(d[p].0),
                vstd::utf8::encode_utf8(d[j].0),
                vstd::utf8::encode_utf8(key),
            );
        }
    }
}

/// A sorted dictionary has an entry for a key exactly when one of its entries
/// carries that key, and then holds that entry's value for it.
pub proof fn lemma_dict_get(d: Entries, key: Seq<char>)
    requires
        dict_sorted(d),
    ensures
        dict_has(d, key) <==> exists|i: int| 0 <= i < d.len() && d[i].0 == key,
        forall|i: int| 0 <= i < d.len() && d[i].0 == key ==> dict_get(d, key) == Some(d[i].1),
{
    lemma_dict_slot(d, key);
    let p = dict_slot(d, key);
    assert forall|i: int| 0 <= i < d.len() && d[i].0 == key implies i == p by {
        lemma_text_order_equal(d[i].0, key);
        if p < i {
            lemma_text_order_equal(d[p].0, key);
            lemma_lex_order_flip(
                vstd::utf8::encode_utf8(d[p].0),
                vstd::utf8::encode_utf8(d[i].0),
            );
        }
    }
}

/// Setting a key keeps a sorted dictionary sorted.
pub proof fn lemma_dict_insert_sorted(d: Entries, key: Seq<char>, value: ValueView)
    requires
        dict_sorted(d),
    ensures
        dict_sorted(dict_insert(d, key, value)),
{
    lemma_dict_slot(d, key);
    let p = dict_slot(d, key);
    let r = dict_insert(d, key, value);
    if dict_has(d, key) {
        assert forall|i: int, j: int| 0 <= i < j < r.len() implies text_order(r[i].0, r[j].0)
            == Order::Less by {
            assert(text_order(d[i].0, d[j].0) == Order::Less);
        }
    } else {
        assert forall|i: int, j: int| 0 <= i < j < r.len() implies text_order(r[i].0, r[j].0)
            == Order::Less by {
            if j == p {
                assert(r[i] == d[i]);
            } else if i == p {
                let next = d[p].0;
                let other = d[j - 1].0;
                assert(r[j] == d[j - 1]);
                lemma_text_order_equal(next, key);
                lemma_lex_order_flip(vstd::utf8::encode_utf8(key), vstd::utf8::encode_utf8(next));
                lemma_lex_order_flip(vstd::utf8::encode_utf8(next), vstd::utf8::encode_utf8(key));
                assert(text_order(key, next) == Order::Less);
                if j - 1 > p {
                    assert(text_order(d[p].0, d[j - 1].0) == Order::Less);
                    lemma_lex_order_chain(
                        vstd::utf8::encode_utf8(key),
                        vstd::utf8::encode_utf8(next),
                        vstd::utf8::encode_utf8(other),
                    );
                }
            } else {
                let i0 = if i < p { i } else { i - 1 };
                let j0 = if j < p { j } else { j - 1 };
                assert(r[i] == d[i0]);
                assert(r[j] == d[j0]);
                assert(text_order(d[i0].0, d[j0].0) == Order::Less);
            }
        }
    }
}

/// A dictionary of values under string keys. Each key occurs at most once, and
/// the entries are kept in ascending order of their keys, so that two
/// dictionaries with the same entries are the same sequence.
#[derive(Debug)]
pub struct ValueMap {
    entries: Vec<(String, Value)>,
}

impl View for ValueMap {
    type V = Entries;

    closed spec fn view(&self) -> Entries
        decreases self,
    {
        Seq::new(
            self.entries.len() as nat,
            |i: int|
                if 0 <= i < self.entries.len() {
                    (self.entries[i].0@, self.entries[i].1@)
                } else {
                    (Seq::empty(), ValueView::Null)
                },
        )
    }
}

impl ValueMap {
    #[verifier::type_invariant]
    spec fn ascending(&self) -> bool {
        dict_sorted(self@)
    }

    /// The empty dictionary.
    pub fn new() -> (m: ValueMap)
        ensures
            m@ == Seq::<(Seq<char>, ValueView)>::empty(),
    {
        let m = ValueMap { entries: Vec::new() };
        assert(m@ =~= Seq::<(Seq<char>, ValueView)>::empty());
        m
    }

    /// The number of entries.
    pub fn len(&self) -> (n: usize)
        ensures
            n == self@.len(),
            dict_sorted(self@),
    {
        proof {
            use_type_invariant(self);
        }
        self.entries.len()
    }

    /// The key of the entry at index `i`, counting in ascending order of keys.
    pub fn key_at(&self, i: usize) -> (key: &String)
        requires
            i < self@.len(),
        ensures
            key@ == self@[i as int].0,
    {
        &self.entries[i].0
    }

    /// The value of the entry at index `i`, counting in ascending order of
    /// keys.
    pub fn value_at(&self, i: usize) -> (value: &Value)
        requires
            i < self@.len(),
        ensures
            value@ == self@[i as int].1,
            decreases_to!(self => value),
    {
        &self.entries[i].1
    }

    /// The index at which `key` stands, or would be put.
    fn slot(&self, key: &str) -> (i: usize)
        ensures
            i == dict_slot(self@, key@),
            i <= self@.len(),
            i < self@.len() ==> text_order(self@[i as int].0, key@) != Order::Less,
    {
        let mut i: usize = 0;
        while i < self.entries.len()
            invariant
                i <= self.entries.len(),
                dict_slot(self@, key@) == dict_slot_from(self@, key@, i as int),
            decreases self.entries.len() - i,
        {
            match order_text(self.entries[i].0.as_str(), key) {
                Order::Less => {
                    i += 1;
                },
                _ => {
                    return i;
                },
            }
        }
        i
    }

    /// The value held for `key`, if any.
    pub fn get(&self, key: &str) -> (found: Option<&Value>)
        ensures
            match found {
                Some(value) => dict_get(self@, key@) == Some(value@),
                None => dict_get(self@, key@).is_none(),
            },
    {
        let i = self.slot(key);
        if i < self.entries.len() {
            proof {
                lemma_text_order_equal(self@[i as int].0, key@);
            }
            match order_text(self.entries[i].0.as_str(), key) {
                Order::Equal => Some(&self.entries[i].1),
                _ => None,
            }
        } else {
            None
        }
    }

    /// Sets `key` to `value` and hands back the value that `key` had before,
    /// if any.
    pub fn insert(&mut self, key: String, value: Value) -> (previous: Option<Value>)
        ensures
            final(self)@ == dict_insert(old(self)@, key@, value@),
            match previous {
                Some(was) => dict_get(old(self)@, key@) == Some(was@),
                None => dict_get(old(self)@, key@).is_none(),
            },
    {
        let ghost before = self@;
        let ghost after = dict_insert(before, key@, value@);
        proof {
            use_type_invariant(&*self);
            lemma_dict_insert_sorted(before, key@, value@);
        }
        let i = self.slot(key.as_str());
        let mut present = false;
        if i < self.entries.len() {
            proof {
                lemma_text_order_equal(before[i as int].0, key@);
            }
            match order_text(self.entries[i].0.as_str(), key.as_str()) {
                Order::Equal => {
                    present = true;
                },
                _ => {},
            }
        }
        let mut taken: Vec<(String, Value)> = Vec::new();
        std::mem::swap(&mut self.entries, &mut taken);
        let previous = if present {
            let was = taken.remove(i);
            Some(was.1)
        } else {
            None
        };
        taken.insert(i, (key, value));
        proof {
            let built = ValueMap { entries: taken };
            assert(built@ =~= after);
        }
        self.entries = taken;
        previous
    }
}

impl Clone for ValueMap {
    fn clone(&self) -> (res: ValueMap)
        ensures
            res@ == self@,
        decreases self,
    {
        proof {
            use_type_invariant(self);
        }
        let mut entries: Vec<(String, Value)> = Vec::new();
        let mut i: usize = 0;
        while i < self.entries.len()
            invariant
                i <= self.entries.len(),
                entries.len() == i,
                forall|j: int|
                    0 <= j < i ==> entries[j].0@ == self.entries[j].0@ && entries[j].1@
                        == self.entries[j].1@,
            decreases self.entries.len() - i,
        {
            entries.push((self.entries[i].0.clone(), self.entries[i].1.clone()));
            i += 1;
        }
        proof {
            let built = ValueMap { entries };
            assert(built@ =~= self@);
        }
        ValueMap { entries }
    }
}

} // verus!
