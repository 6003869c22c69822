//! A list of values keyed by text, in insertion order, with at most one
//! value per key: the store behind the application's events, tag labels,
//! live match updates and the tags being loaded.

use crate::text::same_text;
use vstd::prelude::*;

verus! {

/// Values keyed by text, in insertion order, each key at most once.
pub struct KeyedList<V> {
    keys: Vec<String>,
    values: Vec<V>,
}

/// The value a key has in parallel key and value sequences.
pub open spec fn lookup_in<V>(keys: Seq<Seq<char>>, values: Seq<V>, k: Seq<char>) -> Option<V> {
    if keys.contains(k) {
        Some(values[keys.index_of(k)])
    } else {
        None
    }
}

/// The values after setting key `k` to `v`: in place when the key is
/// present, else appended.
pub open spec fn upserted_values<V>(keys: Seq<Seq<char>>, values: Seq<V>, k: Seq<char>, v: V) -> Seq<V> {
    if keys.contains(k) {
        values.update(keys.index_of(k), v)
    } else {
        values.push(v)
    }
}

/// The keys after setting key `k`: unchanged when present, else appended.
pub open spec fn upserted_keys(keys: Seq<Seq<char>>, k: Seq<char>) -> Seq<Seq<char>> {
    if keys.contains(k) {
        keys
    } else {
        keys.push(k)
    }
}

/// A batch of items as key text and optional value.
pub open spec fn item_view<V>(items: Seq<(String, Option<V>)>) -> Seq<(Seq<char>, Option<V>)> {
    items.map_values(|p: (String, Option<V>)| (p.0@, p.1))
}

/// Keys and values after setting, in order, each item of a batch that has
/// a value.
pub open spec fn upserts<V>(
    keys: Seq<Seq<char>>,
    values: Seq<V>,
    items: Seq<(Seq<char>, Option<V>)>,
) -> (Seq<Seq<char>>, Seq<V>)
    decreases items.len(),
{
    if items.len() == 0 {
        (keys, values)
    } else {
        let before = upserts(keys, values, items.drop_last());
        match items.last().1 {
            Some(v) => (
                upserted_keys(before.0, items.last().0),
                upserted_values(before.0, before.1, items.last().0, v),
            ),
            None => before,
        }
    }
}

/// Position of the first item of the batch with key `k` and a value.
pub open spec fn first_present<V>(items: Seq<(Seq<char>, Option<V>)>, k: Seq<char>) -> Option<int>
    decreases items.len(),
{
    if items.len() == 0 {
        None
    } else {
        match first_present(items.drop_last(), k) {
            Some(p) => Some(p),
            None => if items.last().0 == k && items.last().1 is Some {
                Some(items.len() - 1)
            } else {
                None
            },
        }
    }
}

/// Value of the last item of the batch with key `k` and a value.
pub open spec fn last_present<V>(items: Seq<(Seq<char>, Option<V>)>, k: Seq<char>) -> Option<V>
    decreases items.len(),
{
    if items.len() == 0 {
        None
    } else if items.last().0 == k && items.last().1 is Some {
        items.last().1
    } else {
        last_present(items.drop_last(), k)
    }
}

impl<V> KeyedList<V> {
    /// The keys, in order.
    pub closed spec fn key_seq(&self) -> Seq<Seq<char>> {
        self.keys@.map_values(|k: String| k@)
    }

    /// The values, in the order of their keys.
    pub closed spec fn value_seq(&self) -> Seq<V> {
        self.values@
    }

    /// One value per key, and no key twice.
    #[verifier::type_invariant]
    closed spec fn well_formed(self) -> bool {
        &&& self.keys@.len() == self.values@.len()
        &&& self.key_seq().no_duplicates()
    }

    /// The value of key `k`, if it has one.
    pub open spec fn lookup(&self, k: Seq<char>) -> Option<V> {
        lookup_in(self.key_seq(), self.value_seq(), k)
    }

    /// An empty list.
    pub fn new() -> (l: Self)
        ensures
            l.key_seq() == Seq::<Seq<char>>::empty(),
            l.value_seq() == Seq::<V>::empty(),
    {
        let keys: Vec<String> = Vec::new();
        assert(keys@.map_values(|k: String| k@) =~= Seq::<Seq<char>>::empty());
        KeyedList { keys, values: Vec::new() }
    }

    /// The number of keys.
    pub fn len(&self) -> (n: usize)
        ensures
            n == self.key_seq().len(),
            n == self.value_seq().len(),
    {
        proof {
            use_type_invariant(self);
        }
        self.keys.len()
    }

    /// Where key `k` stands, if present.
    fn position(&self, k: &str) -> (r: Option<usize>)
        ensures
            r is Some ==> r->0 < self.key_seq().len() && self.key_seq().contains(k@)
                && r->0 == self.key_seq().index_of(k@),
            r is None ==> !self.key_seq().contains(k@),
    {
        proof {
            use_type_invariant(self);
        }
        let n: usize = self.keys.len();
        let mut i: usize = 0;
        while i < n
            invariant
                n == self.keys.len(),
                n == self.key_seq().len(),
                i <= n,
                self.key_seq().no_duplicates(),
                forall|j: int| 0 <= j < i ==> self.key_seq()[j] != k@,
            decreases n - i,
        {
            if same_text(self.keys[i].as_str(), k) {
                assert(self.key_seq()[i as int] == k@);
                proof {
                    lemma_index_of_unique(self.key_seq(), k@, i as int);
                }
                return Some(i);
            }
            i = i + 1;
        }
        None
    }

    /// Whether key `k` is present.
    pub fn contains_key(&self, k: &str) -> (b: bool)
        ensures
            b == self.key_seq().contains(k@),
    {
        self.position(k).is_some()
    }

    /// The value of key `k`, if it has one.
    pub fn get(&self, k: &str) -> (r: Option<&V>)
        ensures
            r is Some <==> self.lookup(k@) is Some,
            r is Some ==> self.lookup(k@) == Some(*r->0),
    {
        proof {
            use_type_invariant(self);
        }
        match self.position(k) {
            Some(i) => Some(&self.values[i]),
            None => None,
        }
    }

    /// Sets key `k` to `v`: the value is replaced in place when the key is
    /// present, else the key and value are appended.
    pub fn upsert(&mut self, k: String, v: V)
        ensures
            final(self).key_seq() == upserted_keys(old(self).key_seq(), k@),
            final(self).value_seq() == upserted_values(old(self).key_seq(), old(self).value_seq(), k@, v),
            final(self).key_seq().no_duplicates(),
    {
        proof {
            use_type_invariant(&*self);
        }
        let pos: Option<usize> = self.position(k.as_str());
        let mut taken: KeyedList<V> = KeyedList::new();
        std::mem::swap(&mut taken, self);
        proof {
            use_type_invariant(&taken);
        }
        let ghost old_keys = taken.key_seq();
        let ghost old_values = taken.value_seq();
        let KeyedList { mut keys, mut values } = taken;
        match pos {
            Some(i) => {
                values.set(i, v);
            },
            None => {
                let ghost kv = k@;
                keys.push(k);
                values.push(v);
                assert(keys@.map_values(|s: String| s@) =~= old_keys.push(kv));
                proof {
                    lemma_push_new_key(old_keys, kv);
                }
            },
        }
        *self = KeyedList { keys, values };
    }

    /// Sets each present key of `items` to its value, in order; an item
    /// without a value changes nothing.
    pub fn upsert_all(&mut self, items: Vec<(String, Option<V>)>)
        ensures
            (final(self).key_seq(), final(self).value_seq()) == upserts(
                old(self).key_seq(),
                old(self).value_seq(),
                item_view(items@),
            ),
            final(self).key_seq().no_duplicates(),
    {
        let ghost all = item_view(items@);
        let ghost start = (self.key_seq(), self.value_seq());
        let mut rest: Vec<(String, Option<V>)> = items;
        let n: usize = rest.len();
        let mut done: usize = 0;
        while rest.len() > 0
            invariant
                done <= n,
                rest@.len() == n - done,
                all.len() == n,
                item_view(rest@) == all.subrange(done as int, n as int),
                start == (old(self).key_seq(), old(self).value_seq()),
                (self.key_seq(), self.value_seq()) == upserts(
                    start.0,
                    start.1,
                    all.subrange(0, done as int),
                ),
            decreases rest@.len(),
        {
            let ghost before = rest@;
            let item: (String, Option<V>) = rest.remove(0);
            proof {
                assert(item_view(before)[0] == all[done as int]);
                assert(item_view(rest@) =~= all.subrange(done + 1, n as int)) by {
                    assert forall|j: int| 0 <= j < rest@.len() implies #[trigger] item_view(rest@)[j]
                        == all.subrange(done + 1, n as int)[j] by {
                        assert(rest@[j] == before[j + 1]);
                        assert(item_view(before)[j + 1] == all[done + 1 + j]);
                    }
                }
                assert(all.subrange(0, done + 1).drop_last() =~= all.subrange(0, done as int));
            }
            let (k, o) = item;
            match o {
                Some(v) => {
                    self.upsert(k, v);
                },
                None => {},
            }
            done = done + 1;
        }
        proof {
            assert(all.subrange(0, n as int) =~= all);
            use_type_invariant(&*self);
        }
    }

    /// Removes key `k` and its value, if present.
    pub fn remove(&mut self, k: &str)
        ensures
            final(self).key_seq().no_duplicates(),
            !final(self).key_seq().contains(k@),
            old(self).key_seq().contains(k@) ==> final(self).key_seq() == old(self).key_seq().remove(
                old(self).key_seq().index_of(k@),
            ) && final(self).value_seq() == old(self).value_seq().remove(
                old(self).key_seq().index_of(k@),
            ),
            !old(self).key_seq().contains(k@) ==> final(self).key_seq() == old(self).key_seq()
                && final(self).value_seq() == old(self).value_seq(),
    {
        proof {
            use_type_invariant(&*self);
        }
        match self.position(k) {
            Some(i) => {
                let mut taken: KeyedList<V> = KeyedList::new();
                std::mem::swap(&mut taken, self);
                proof {
                    use_type_invariant(&taken);
                }
                let ghost old_keys = taken.key_seq();
                let KeyedList { mut keys, mut values } = taken;
                keys.remove(i);
                values.remove(i);
                let ghost new_keys = keys@.map_values(|s: String| s@);
                assert(new_keys =~= old_keys.remove(i as int));
                assert(new_keys.no_duplicates()) by {
                    assert forall|a: int, b: int|
                        0 <= a < new_keys.len() && 0 <= b < new_keys.len() && a != b
                        implies new_keys[a] != new_keys[b] by {
                        let a2 = if a < i { a } else { a + 1 };
                        let b2 = if b < i { b } else { b + 1 };
                        assert(new_keys[a] == old_keys[a2]);
                        assert(new_keys[b] == old_keys[b2]);
                    }
                }
                assert(!new_keys.contains(k@)) by {
                    if new_keys.contains(k@) {
                        let a = choose|a: int| 0 <= a < new_keys.len() && new_keys[a] == k@;
                        let a2 = if a < i { a } else { a + 1 };
                        assert(old_keys[a2] == k@);
                        assert(old_keys[i as int] == k@);
                    }
                }
                *self = KeyedList { keys, values };
            },
            None => {},
        }
        proof {
            use_type_invariant(&*self);
        }
    }

    /// The values, in the order of their keys.
    pub fn values(&self) -> (r: &Vec<V>)
        ensures
            r@ == self.value_seq(),
    {
        &self.values
    }

    /// The keys, in order.
    pub fn keys(&self) -> (r: &Vec<String>)
        ensures
            r@.map_values(|k: String| k@) == self.key_seq(),
    {
        &self.keys
    }
}

/// Appending a key that is not present keeps the keys distinct.
pub proof fn lemma_push_new_key(keys: Seq<Seq<char>>, k: Seq<char>)
    requires
        keys.no_duplicates(),
        !keys.contains(k),
    ensures
        keys.push(k).no_duplicates(),
{
    let nk = keys.push(k);
    assert forall|a: int, b: int| 0 <= a < nk.len() && 0 <= b < nk.len() && a != b implies nk[a]
        != nk[b] by {
        if a == keys.len() as int {
            assert(keys[b] == nk[b]);
        } else if b == keys.len() as int {
            assert(keys[a] == nk[a]);
        } else {
            assert(keys[a] == nk[a] && keys[b] == nk[b]);
        }
    }
}

/// The position of an element that occurs at exactly one place is that
/// place.
pub proof fn lemma_index_of_unique(s: Seq<Seq<char>>, x: Seq<char>, i: int)
    requires
        0 <= i < s.len(),
        s[i] == x,
        forall|j: int| 0 <= j < s.len() && s[j] == x ==> j == i,
    ensures
        s.contains(x),
        s.index_of(x) == i,
{
    assert(s.contains(x));
}

/// Law: after setting a key, looking it up gives the value set.
pub proof fn law_lookup_after_upsert<V>(keys: Seq<Seq<char>>, values: Seq<V>, k: Seq<char>, v: V)
    requires
        keys.len() == values.len(),
        keys.no_duplicates(),
    ensures
        lookup_in(upserted_keys(keys, k), upserted_values(keys, values, k, v), k) == Some(v),
{
    if !keys.contains(k) {
        let nk = keys.push(k);
        assert(nk[keys.len() as int] == k);
        assert(nk.contains(k));
        assert forall|j: int| 0 <= j < keys.len() implies nk[j] != k by {
            assert(keys[j] == nk[j]);
            if nk[j] == k {
                assert(keys.contains(k));
            }
        }
        lemma_index_of_unique(nk, k, keys.len() as int);
    } else {
        lemma_index_of_unique(keys, k, keys.index_of(k));
    }
}

/// Law: setting one key leaves the value of every other key as it was.
pub proof fn law_upsert_keeps_other_keys<V>(
    keys: Seq<Seq<char>>,
    values: Seq<V>,
    k: Seq<char>,
    v: V,
    other: Seq<char>,
)
    requires
        keys.len() == values.len(),
        keys.no_duplicates(),
        other != k,
    ensures
        lookup_in(upserted_keys(keys, k), upserted_values(keys, values, k, v), other) == lookup_in(
            keys,
            values,
            other,
        ),
{
    let nk = upserted_keys(keys, k);
    if keys.contains(other) {
        let i = keys.index_of(other);
        lemma_index_of_unique(keys, other, i);
        assert(nk[i] == other);
        assert(nk.contains(other));
        if keys.contains(k) {
            lemma_index_of_unique(nk, other, i);
        } else {
            assert forall|j: int| 0 <= j < nk.len() && nk[j] == other implies j == i by {
                if j < keys.len() {
                    assert(keys[j] == other);
                }
            }
            lemma_index_of_unique(nk, other, i);
        }
    } else {
        assert(!nk.contains(other)) by {
            if nk.contains(other) {
                let j = choose|j: int| 0 <= j < nk.len() && nk[j] == other;
                if j < keys.len() {
                    assert(keys[j] == other);
                }
            }
        }
    }
}

/// Setting a key keeps the number of keys equal to the number of values,
/// the keys distinct, and the keys before it in place.
pub proof fn lemma_upsert_shape<V>(keys: Seq<Seq<char>>, values: Seq<V>, k: Seq<char>, v: V)
    requires
        keys.len() == values.len(),
        keys.no_duplicates(),
    ensures
        upserted_keys(keys, k).len() == upserted_values(keys, values, k, v).len(),
        upserted_keys(keys, k).no_duplicates(),
        upserted_keys(keys, k).len() >= keys.len(),
        forall|i: int| 0 <= i < keys.len() ==> #[trigger] upserted_keys(keys, k)[i] == keys[i],
        upserted_keys(keys, k).contains(k),
        forall|x: Seq<char>| #[trigger] upserted_keys(keys, k).contains(x) <==> (keys.contains(x) || x == k),
{
    if !keys.contains(k) {
        lemma_push_new_key(keys, k);
        let nk = keys.push(k);
        assert(nk[keys.len() as int] == k);
        assert forall|x: Seq<char>| #[trigger] nk.contains(x) <==> (keys.contains(x) || x == k) by {
            if nk.contains(x) {
                let j = choose|j: int| 0 <= j < nk.len() && nk[j] == x;
                if j < keys.len() {
                    assert(keys[j] == x);
                }
            }
            if keys.contains(x) {
                let j = choose|j: int| 0 <= j < keys.len() && keys[j] == x;
                assert(nk[j] == x);
            }
        }
    }
}

/// A first item with a value exists at a position holding that key and a
/// value.
pub proof fn lemma_first_present<V>(items: Seq<(Seq<char>, Option<V>)>, k: Seq<char>)
    ensures
        first_present(items, k) is Some ==> ({
            let p = first_present(items, k)->0;
            0 <= p < items.len() && items[p].0 == k && items[p].1 is Some
        }),
        first_present(items, k) is None ==> last_present(items, k) is None,
        first_present(items, k) is Some ==> last_present(items, k) is Some,
    decreases items.len(),
{
    if items.len() > 0 {
        lemma_first_present(items.drop_last(), k);
        if first_present(items.drop_last(), k) is Some {
            let p = first_present(items.drop_last(), k)->0;
            assert(items[p] == items.drop_last()[p]);
        }
    }
}

/// The keys begin with the old keys, in their old places.
pub open spec fn keeps_old_keys(result: Seq<Seq<char>>, keys: Seq<Seq<char>>) -> bool {
    &&& result.len() >= keys.len()
    &&& forall|i: int| 0 <= i < keys.len() ==> #[trigger] result[i] == keys[i]
}

/// Every key after the old ones is new and has an item with a value, and
/// every key with an item with a value is among the keys.
pub open spec fn appends_new_keys<V>(
    result: Seq<Seq<char>>,
    keys: Seq<Seq<char>>,
    items: Seq<(Seq<char>, Option<V>)>,
) -> bool {
    &&& forall|j: int|
        keys.len() <= j < result.len() ==> !keys.contains(#[trigger] result[j]) && first_present(
            items,
            result[j],
        ) is Some
    &&& forall|x: Seq<char>| #[trigger] first_present(items, x) is Some ==> result.contains(x)
}

/// The new keys come in the order of their first item with a value.
pub open spec fn in_first_order<V>(
    result: Seq<Seq<char>>,
    keys: Seq<Seq<char>>,
    items: Seq<(Seq<char>, Option<V>)>,
) -> bool {
    forall|j1: int, j2: int|
        keys.len() <= j1 < j2 < result.len() ==> first_present(items, #[trigger] result[j1])->0
            < first_present(items, #[trigger] result[j2])->0
}

/// Each key has the value of its last item with a value, and a key without
/// such an item keeps its old value (or stays absent).
pub open spec fn last_value_wins<V>(
    result: (Seq<Seq<char>>, Seq<V>),
    keys: Seq<Seq<char>>,
    values: Seq<V>,
    items: Seq<(Seq<char>, Option<V>)>,
) -> bool {
    forall|x: Seq<char>|
        #[trigger] lookup_in(result.0, result.1, x) == match last_present(items, x) {
            Some(v) => Some(v),
            None => lookup_in(keys, values, x),
        }
}

/// Law: setting a batch of items keeps the keys distinct; every key ends
/// with the value of its last item in the batch, other keys keep theirs;
/// keys already present keep their places; and new keys are appended in
/// the order in which they first occur in the batch.
pub proof fn law_batch_upsert<V>(
    keys: Seq<Seq<char>>,
    values: Seq<V>,
    items: Seq<(Seq<char>, Option<V>)>,
)
    requires
        keys.len() == values.len(),
        keys.no_duplicates(),
    ensures
        upserts(keys, values, items).0.len() == upserts(keys, values, items).1.len(),
        upserts(keys, values, items).0.no_duplicates(),
        keeps_old_keys(upserts(keys, values, items).0, keys),
        appends_new_keys(upserts(keys, values, items).0, keys, items),
        in_first_order(upserts(keys, values, items).0, keys, items),
        last_value_wins(upserts(keys, values, items), keys, values, items),
    decreases items.len(),
{
    let r = upserts(keys, values, items);
    if items.len() == 0 {
        assert forall|x: Seq<char>| #[trigger] first_present(items, x) is Some implies r.0.contains(x) by {}
        return;
    }
    let init = items.drop_last();
    let last = items.last();
    let k = last.0;
    law_batch_upsert(keys, values, init);
    let r0 = upserts(keys, values, init);
    assert forall|x: Seq<char>| x != k implies #[trigger] first_present(items, x) == first_present(init, x) by {}
    assert forall|x: Seq<char>| x != k implies #[trigger] last_present(items, x) == last_present(init, x) by {}
    match last.1 {
        None => {
            assert(r == r0);
            assert forall|x: Seq<char>| #[trigger] first_present(items, x) == first_present(init, x) by {}
            assert forall|x: Seq<char>| #[trigger] last_present(items, x) == last_present(init, x) by {}
        },
        Some(v) => {
            lemma_upsert_shape(r0.0, r0.1, k, v);
            assert(last_present(items, k) == Some(v));
            assert forall|x: Seq<char>|
                #[trigger] lookup_in(r.0, r.1, x) == match last_present(items, x) {
                    Some(w) => Some(w),
                    None => lookup_in(keys, values, x),
                } by {
                if x == k {
                    law_lookup_after_upsert(r0.0, r0.1, k, v);
                } else {
                    law_upsert_keeps_other_keys(r0.0, r0.1, k, v, x);
                    assert(lookup_in(r0.0, r0.1, x) == match last_present(init, x) {
                        Some(w) => Some(w),
                        None => lookup_in(keys, values, x),
                    });
                }
            }
            lemma_first_present(items, k);
            if r0.0.contains(k) {
                assert(r.0 == r0.0);
                assert forall|x: Seq<char>| first_present(init, x) is Some implies #[trigger] first_present(items, x)
                    == first_present(init, x) by {}
                assert forall|j: int| keys.len() <= j < r0.0.len() implies first_present(init, #[trigger] r0.0[j]) is Some by {}
                assert forall|j: int| keys.len() <= j < r.0.len() implies !keys.contains(
                    #[trigger] r.0[j],
                ) && first_present(items, r.0[j]) is Some by {
                    assert(r.0[j] == r0.0[j]);
                    assert(first_present(init, r0.0[j]) is Some);
                }
                assert forall|x: Seq<char>| #[trigger] first_present(items, x) is Some implies r.0.contains(x) by {
                }
                assert forall|j1: int, j2: int|
                    keys.len() <= j1 < j2 < r.0.len() implies first_present(items, #[trigger] r.0[j1])->0
                    < first_present(items, #[trigger] r.0[j2])->0 by {
                    assert(r.0[j1] == r0.0[j1]);
                    assert(r.0[j2] == r0.0[j2]);
                    assert(first_present(init, r0.0[j1]) is Some);
                    assert(first_present(init, r0.0[j2]) is Some);
                }
            } else {
                assert(r.0 == r0.0.push(k));
                assert(!keys.contains(k)) by {
                    if keys.contains(k) {
                        let j = choose|j: int| 0 <= j < keys.len() && keys[j] == k;
                        assert(r0.0[j] == k);
                    }
                }
                assert(first_present(init, k) is None);
                assert(first_present(items, k) == Some(items.len() - 1));
                assert forall|j: int| keys.len() <= j < r.0.len() implies !keys.contains(
                    #[trigger] r.0[j],
                ) && first_present(items, r.0[j]) is Some by {
                    if j < r0.0.len() {
                        assert(r.0[j] == r0.0[j]);
                        assert(first_present(init, r0.0[j]) is Some);
                    }
                }
                assert forall|x: Seq<char>| #[trigger] first_present(items, x) is Some implies r.0.contains(x) by {
                }
                assert forall|j1: int, j2: int|
                    keys.len() <= j1 < j2 < r.0.len() implies first_present(items, #[trigger] r.0[j1])->0
                    < first_present(items, #[trigger] r.0[j2])->0 by {
                    assert(j1 < r0.0.len());
                    assert(r.0[j1] == r0.0[j1]);
                    assert(r0.0[j1] != k);
                    lemma_first_present(init, r0.0[j1]);
                    assert(first_present(init, r0.0[j1]) is Some);
                    if j2 < r0.0.len() {
                        assert(r.0[j2] == r0.0[j2]);
                        assert(r0.0[j2] != k);
                    }
                }
            }
        },
    }
}

} // verus!
