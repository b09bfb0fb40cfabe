use vstd::prelude::*;
use crate::json::{FieldValue, JsonValue};
use crate::text::{compare_keys, key_lt, lemma_key_lt_asymmetric, lemma_key_lt_irreflexive,
    lemma_key_lt_total, lemma_key_lt_transitive};

verus! {

/// Extension fields: names with values, kept in ascending order of name.
#[derive(Debug, Clone)]
pub struct FieldBag {
    entries: Vec<(String, FieldValue)>,
}

pub type Entries = Seq<(Seq<char>, JsonValue)>;

pub open spec fn entry_view(e: (String, FieldValue)) -> (Seq<char>, JsonValue) {
    (e.0@, e.1@)
}

/// Names strictly ascending, hence distinct.
pub open spec fn sorted(es: Entries) -> bool {
    forall|i: int, j: int| 0 <= i < j < es.len() ==> key_lt(#[trigger] es[i].0, #[trigger] es[j].0)
}

/// The entries after setting `k` to `v`: replaced in place, or inserted before
/// the first greater name.
pub open spec fn bag_insert(es: Entries, k: Seq<char>, v: JsonValue) -> Entries
    decreases es.len(),
{
    if es.len() == 0 {
        seq![(k, v)]
    } else if es[0].0 == k {
        seq![(k, v)] + es.drop_first()
    } else if key_lt(k, es[0].0) {
        seq![(k, v)] + es
    } else {
        seq![es[0]] + bag_insert(es.drop_first(), k, v)
    }
}

/// The value held under a name.
pub open spec fn bag_get(es: Entries, k: Seq<char>) -> Option<JsonValue>
    decreases es.len(),
{
    if es.len() == 0 {
        None
    } else if es[0].0 == k {
        Some(es[0].1)
    } else {
        bag_get(es.drop_first(), k)
    }
}

pub proof fn lemma_bag_get_absent(es: Entries, k: Seq<char>)
    requires
        forall|i: int| 0 <= i < es.len() ==> (#[trigger] es[i]).0 != k,
    ensures
        bag_get(es, k) is None,
    decreases es.len(),
{
    if es.len() > 0 {
        assert(es[0].0 != k);
        assert forall|i: int| 0 <= i < es.drop_first().len() implies (#[trigger] es.drop_first()[i]).0 != k by {
            assert(es.drop_first()[i] == es[i + 1]);
        }
        lemma_bag_get_absent(es.drop_first(), k);
    }
}

proof fn lemma_bag_get_at(es: Entries, k: Seq<char>, i: int)
    requires
        0 <= i <= es.len(),
        forall|j: int| 0 <= j < i ==> (#[trigger] es[j]).0 != k,
    ensures
        bag_get(es, k) == bag_get(es.skip(i), k),
    decreases i,
{
    if i > 0 {
        assert(es[0].0 != k);
        assert forall|j: int| 0 <= j < i - 1 implies (#[trigger] es.drop_first()[j]).0 != k by {
            assert(es.drop_first()[j] == es[j + 1]);
        }
        lemma_bag_get_at(es.drop_first(), k, i - 1);
        assert(es.drop_first().skip(i - 1) == es.skip(i));
    } else {
        assert(es.skip(0) == es);
    }
}

proof fn lemma_bag_insert_at(es: Entries, k: Seq<char>, v: JsonValue, i: int)
    requires
        0 <= i <= es.len(),
        forall|j: int| 0 <= j < i ==> key_lt((#[trigger] es[j]).0, k),
        i == es.len() || !key_lt(es[i].0, k),
    ensures
        i < es.len() && es[i].0 == k ==> bag_insert(es, k, v) == es.take(i) + seq![(k, v)] + es.skip(i + 1),
        !(i < es.len() && es[i].0 == k) ==> bag_insert(es, k, v) == es.take(i) + seq![(k, v)] + es.skip(i),
    decreases i,
{
    if i > 0 {
        let e0 = es[0];
        assert(key_lt(e0.0, k));
        lemma_key_lt_irreflexive(k);
        lemma_key_lt_asymmetric(e0.0, k);
        assert forall|j: int| 0 <= j < i - 1 implies key_lt((#[trigger] es.drop_first()[j]).0, k) by {
            assert(es.drop_first()[j] == es[j + 1]);
        }
        lemma_bag_insert_at(es.drop_first(), k, v, i - 1);
        let rest = es.drop_first();
        assert(es.take(i) == seq![e0] + rest.take(i - 1));
        assert(es.skip(i) == rest.skip(i - 1));
        if i < es.len() && es[i].0 == k {
            assert(es.skip(i + 1) == rest.skip(i));
            assert(seq![e0] + (rest.take(i - 1) + seq![(k, v)] + rest.skip(i)) == es.take(i) + seq![(k, v)] + es.skip(i + 1));
        } else {
            assert(seq![e0] + (rest.take(i - 1) + seq![(k, v)] + rest.skip(i - 1)) == es.take(i) + seq![(k, v)] + es.skip(i));
        }
    } else {
        if es.len() > 0 {
            assert(es.take(0) + seq![(k, v)] + es.skip(1) == seq![(k, v)] + es.drop_first());
        }
        assert(es.take(0) + seq![(k, v)] + es.skip(0) == seq![(k, v)] + es);
        if es.len() > 0 && es[0].0 != k {
            lemma_key_lt_total(k, es[0].0);
        }
    }
}

pub proof fn lemma_bag_insert_sorted(es: Entries, k: Seq<char>, v: JsonValue)
    requires
        sorted(es),
    ensures
        sorted(bag_insert(es, k, v)),
        forall|i: int| 0 <= i < bag_insert(es, k, v).len() ==>
            (#[trigger] bag_insert(es, k, v)[i]).0 == k || exists|j: int| 0 <= j < es.len() && es[j].0 == bag_insert(es, k, v)[i].0,
    decreases es.len(),
{
    let r = bag_insert(es, k, v);
    if es.len() == 0 {
    } else if es[0].0 == k {
        assert forall|i: int, j: int| 0 <= i < j < r.len() implies key_lt(#[trigger] r[i].0, #[trigger] r[j].0) by {
            assert(r[j] == es[j]);
            if i > 0 {
                assert(r[i] == es[i]);
            }
        }
        assert forall|i: int| 0 <= i < r.len() implies (#[trigger] r[i]).0 == k || exists|j: int| 0 <= j < es.len() && es[j].0 == r[i].0 by {
            if i > 0 {
                assert(r[i] == es[i]);
            }
        }
    } else if key_lt(k, es[0].0) {
        assert forall|i: int, j: int| 0 <= i < j < r.len() implies key_lt(#[trigger] r[i].0, #[trigger] r[j].0) by {
            assert(r[j] == es[j - 1]);
            if i > 0 {
                assert(r[i] == es[i - 1]);
            } else if j > 1 {
                lemma_key_lt_transitive(k, es[0].0, es[j - 1].0);
            }
        }
        assert forall|i: int| 0 <= i < r.len() implies (#[trigger] r[i]).0 == k || exists|j: int| 0 <= j < es.len() && es[j].0 == r[i].0 by {
            if i > 0 {
                assert(r[i] == es[i - 1]);
            }
        }
    } else {
        let rest = es.drop_first();
        assert(sorted(rest)) by {
            assert forall|i: int, j: int| 0 <= i < j < rest.len() implies key_lt(#[trigger] rest[i].0, #[trigger] rest[j].0) by {
                assert(rest[i] == es[i + 1] && rest[j] == es[j + 1]);
            }
        }
        lemma_bag_insert_sorted(rest, k, v);
        let t = bag_insert(rest, k, v);
        lemma_key_lt_total(k, es[0].0);
        assert forall|i: int| 0 <= i < t.len() implies key_lt(es[0].0, (#[trigger] t[i]).0) by {
            if t[i].0 != k {
                let j = choose|j: int| 0 <= j < rest.len() && rest[j].0 == t[i].0;
                assert(rest[j] == es[j + 1]);
            }
        }
        assert forall|i: int, j: int| 0 <= i < j < r.len() implies key_lt(#[trigger] r[i].0, #[trigger] r[j].0) by {
            assert(r[j] == t[j - 1]);
            if i > 0 {
                assert(r[i] == t[i - 1]);
            }
        }
        assert forall|i: int| 0 <= i < r.len() implies (#[trigger] r[i]).0 == k || exists|j: int| 0 <= j < es.len() && es[j].0 == r[i].0 by {
            if i > 0 {
                assert(r[i] == t[i - 1]);
                if t[i - 1].0 != k {
                    let j = choose|j: int| 0 <= j < rest.len() && rest[j].0 == t[i - 1].0;
                    assert(rest[j] == es[j + 1]);
                }
            } else {
                assert(es[0].0 == r[0].0);
            }
        }
    }
}

/// Inserting the next name of a sorted list appends it.
pub proof fn lemma_bag_insert_append(es: Entries, i: int)
    requires
        sorted(es),
        0 <= i < es.len(),
    ensures
        bag_insert(es.take(i), es[i].0, es[i].1) == es.take(i + 1),
    decreases i,
{
    let t = es.take(i);
    if i == 0 {
        assert(es.take(1) == seq![es[0]]);
    } else {
        assert(key_lt(es[0].0, es[i].0));
        lemma_key_lt_asymmetric(es[0].0, es[i].0);
        lemma_key_lt_irreflexive(es[i].0);
        let rest = es.drop_first();
        assert(sorted(rest)) by {
            assert forall|a: int, b: int| 0 <= a < b < rest.len() implies key_lt(#[trigger] rest[a].0, #[trigger] rest[b].0) by {
                assert(rest[a] == es[a + 1] && rest[b] == es[b + 1]);
            }
        }
        lemma_bag_insert_append(rest, i - 1);
        assert(t.drop_first() == rest.take(i - 1));
        assert(rest[i - 1] == es[i]);
        assert(es.take(i + 1) == seq![es[0]] + rest.take(i));
    }
}

proof fn lemma_bag_get_some(es: Entries, k: Seq<char>)
    requires
        bag_get(es, k) is Some,
    ensures
        exists|i: int| 0 <= i < es.len() && es[i].0 == k && es[i].1 == bag_get(es, k)->0,
    decreases es.len(),
{
    if es[0].0 != k {
        lemma_bag_get_some(es.drop_first(), k);
        let i = choose|i: int| 0 <= i < es.drop_first().len() && es.drop_first()[i].0 == k && es.drop_first()[i].1 == bag_get(es, k)->0;
        assert(es[i + 1] == es.drop_first()[i]);
    }
}

/// Two sorted entry lists that hold the same value under every name are the
/// same list: the order of the fields depends on their content alone.
pub proof fn lemma_sorted_canonical(e1: Entries, e2: Entries)
    requires
        sorted(e1),
        sorted(e2),
        forall|k: Seq<char>| bag_get(e1, k) == bag_get(e2, k),
    ensures
        e1 == e2,
    decreases e1.len() + e2.len(),
{
    if e1.len() == 0 && e2.len() == 0 {
        return;
    }
    if e1.len() == 0 {
        assert(bag_get(e2, e2[0].0) is Some);
        assert(bag_get(e1, e2[0].0) is None);
        return;
    }
    if e2.len() == 0 {
        assert(bag_get(e1, e1[0].0) is Some);
        assert(bag_get(e2, e1[0].0) is None);
        return;
    }
    let k1 = e1[0].0;
    let k2 = e2[0].0;
    assert(bag_get(e1, k1) == Some(e1[0].1));
    assert(bag_get(e2, k2) == Some(e2[0].1));
    lemma_bag_get_some(e2, k1);
    lemma_bag_get_some(e1, k2);
    let j2 = choose|i: int| 0 <= i < e2.len() && e2[i].0 == k1 && e2[i].1 == bag_get(e2, k1)->0;
    let j1 = choose|i: int| 0 <= i < e1.len() && e1[i].0 == k2 && e1[i].1 == bag_get(e1, k2)->0;
    if k1 != k2 {
        assert(j1 > 0 && j2 > 0);
        assert(key_lt(k1, k2));
        assert(key_lt(k2, k1));
        lemma_key_lt_asymmetric(k1, k2);
    }
    assert(e1[0] == e2[0]);
    let r1 = e1.drop_first();
    let r2 = e2.drop_first();
    assert(sorted(r1)) by {
        assert forall|a: int, b: int| 0 <= a < b < r1.len() implies key_lt(#[trigger] r1[a].0, #[trigger] r1[b].0) by {
            assert(r1[a] == e1[a + 1] && r1[b] == e1[b + 1]);
        }
    }
    assert(sorted(r2)) by {
        assert forall|a: int, b: int| 0 <= a < b < r2.len() implies key_lt(#[trigger] r2[a].0, #[trigger] r2[b].0) by {
            assert(r2[a] == e2[a + 1] && r2[b] == e2[b + 1]);
        }
    }
    assert forall|k: Seq<char>| bag_get(r1, k) == bag_get(r2, k) by {
        if k == k1 {
            assert forall|i: int| 0 <= i < r1.len() implies (#[trigger] r1[i]).0 != k by {
                assert(r1[i] == e1[i + 1]);
                assert(key_lt(k1, e1[i + 1].0));
                lemma_key_lt_irreflexive(k1);
            }
            assert forall|i: int| 0 <= i < r2.len() implies (#[trigger] r2[i]).0 != k by {
                assert(r2[i] == e2[i + 1]);
                assert(key_lt(k2, e2[i + 1].0));
                lemma_key_lt_irreflexive(k2);
            }
            lemma_bag_get_absent(r1, k);
            lemma_bag_get_absent(r2, k);
        } else {
            assert(bag_get(e1, k) == bag_get(r1, k));
            assert(bag_get(e2, k) == bag_get(r2, k));
        }
    }
    lemma_sorted_canonical(r1, r2);
    assert(e1 == seq![e1[0]] + r1);
    assert(e2 == seq![e2[0]] + r2);
}

/// Reading a name after setting it gives the value set; other names keep their values.
pub proof fn lemma_insert_then_get(es: Entries, k: Seq<char>, v: JsonValue, other: Seq<char>)
    ensures
        bag_get(bag_insert(es, k, v), k) == Some(v),
        other != k ==> bag_get(bag_insert(es, k, v), other) == bag_get(es, other),
    decreases es.len(),
{
    if es.len() == 0 {
        let r = seq![(k, v)];
        assert(r[0] == (k, v));
        assert(r.drop_first() == Seq::<(Seq<char>, JsonValue)>::empty());
        assert(bag_get(r.drop_first(), other) is None);
        assert(other != k ==> bag_get(r, other) == bag_get(r.drop_first(), other));
    } else if es[0].0 == k {
        let r = seq![(k, v)] + es.drop_first();
        assert(r[0] == (k, v));
        assert(r.drop_first() == es.drop_first());
        assert(other != k ==> bag_get(r, other) == bag_get(r.drop_first(), other));
        assert(other != k ==> bag_get(es, other) == bag_get(es.drop_first(), other));
    } else if key_lt(k, es[0].0) {
        let r = seq![(k, v)] + es;
        assert(r[0] == (k, v));
        assert(r.drop_first() == es);
        assert(other != k ==> bag_get(r, other) == bag_get(r.drop_first(), other));
    } else {
        lemma_insert_then_get(es.drop_first(), k, v, other);
        let r = seq![es[0]] + bag_insert(es.drop_first(), k, v);
        assert(r[0] == es[0]);
        assert(r.drop_first() == bag_insert(es.drop_first(), k, v));
        if other != es[0].0 {
            assert(bag_get(r, other) == bag_get(r.drop_first(), other));
            assert(bag_get(es, other) == bag_get(es.drop_first(), other));
        }
    }
}

impl View for FieldBag {
    type V = Entries;

    closed spec fn view(&self) -> Entries {
        self.entries@.map_values(|e: (String, FieldValue)| entry_view(e))
    }
}

impl FieldBag {
    pub open spec fn wf(&self) -> bool {
        sorted(self@)
    }

    /// An empty bag.
    pub fn new() -> (r: FieldBag)
        ensures
            r@ == Seq::<(Seq<char>, JsonValue)>::empty(),
            r.wf(),
    {
        FieldBag { entries: Vec::new() }
    }

    /// Number of extension fields.
    pub fn len(&self) -> (r: usize)
        ensures
            r == self@.len(),
    {
        self.entries.len()
    }

    /// The name and value of the `i`-th field in ascending order of name.
    pub fn entry(&self, i: usize) -> (r: (&str, &FieldValue))
        requires
            i < self@.len(),
        ensures
            r.0@ == self@[i as int].0,
            r.1@ == self@[i as int].1,
    {
        let e = &self.entries[i];
        (e.0.as_str(), &e.1)
    }

    /// Sets `key` to `value`, in place of any value it had.
    pub fn insert(&mut self, key: &str, value: FieldValue)
        requires
            old(self).wf(),
        ensures
            final(self)@ == bag_insert(old(self)@, key@, value@),
            final(self).wf(),
    {
        let ghost es = self@;
        let n = self.entries.len();
        let mut i: usize = 0;
        let mut stop = false;
        while i < n && !stop
            invariant
                n == self.entries@.len(),
                es == self@,
                i <= n,
                forall|j: int| 0 <= j < i ==> key_lt((#[trigger] es[j]).0, key@),
                stop ==> i < n && !key_lt(es[i as int].0, key@),
            decreases n - i + (if stop { 0int } else { 1int }),
        {
            let c = compare_keys(self.entries[i].0.as_str(), key);
            assert(es[i as int].0 == self.entries@[i as int].0@);
            if c >= 0 {
                stop = true;
            } else {
                i = i + 1;
            }
        }
        proof {
            lemma_bag_insert_at(es, key@, value@, i as int);
            lemma_bag_insert_sorted(es, key@, value@);
        }
        let ghost v = value@;
        if i < n && compare_keys(self.entries[i].0.as_str(), key) == 0 {
            self.entries.set(i, (key.to_owned(), value));
            assert(self@ == es.take(i as int) + seq![(key@, v)] + es.skip(i + 1));
        } else {
            self.entries.insert(i, (key.to_owned(), value));
            assert(self@ == es.take(i as int) + seq![(key@, v)] + es.skip(i as int));
        }
    }

    /// The value held under `key`.
    pub fn get(&self, key: &str) -> (r: Option<&FieldValue>)
        ensures
            r is Some <==> bag_get(self@, key@) is Some,
            r is Some ==> r->0@ == bag_get(self@, key@)->0,
    {
        let n = self.entries.len();
        let mut i: usize = 0;
        while i < n
            invariant
                n == self@.len(),
                i <= n,
                forall|j: int| 0 <= j < i ==> (#[trigger] self@[j]).0 != key@,
            decreases n - i,
        {
            if compare_keys(self.entries[i].0.as_str(), key) == 0 {
                proof {
                    lemma_bag_get_at(self@, key@, i as int);
                }
                return Some(&self.entries[i].1);
            }
            i = i + 1;
        }
        proof {
            lemma_bag_get_absent(self@, key@);
        }
        None
    }
}

} // verus!
