//! Lists of keys and keyed tables.

use vstd::prelude::*;

verus! {

/// Values that can be copied, the copy having the same view.
pub trait Dup: View + Sized {
    fn dup(&self) -> (r: Self)
        ensures
            r@ == self@,
    ;
}

/// Values that serve as keys: two of them are the same key exactly when
/// their views are equal.
pub trait Key: Dup {
    fn same(&self, other: &Self) -> (b: bool)
        ensures
            b == (self@ == other@),
    ;
}

impl Dup for String {
    fn dup(&self) -> (r: String) {
        self.clone()
    }
}

impl Key for String {
    fn same(&self, other: &String) -> (b: bool) {
        *self == *other
    }
}

/// The views of a sequence of values.
pub open spec fn views<T: View>(s: Seq<T>) -> Seq<T::V> {
    Seq::new(s.len(), |i: int| s[i]@)
}

/// `s` without `x`, where `x` stands in it at most once.
pub open spec fn without<T>(s: Seq<T>, x: T) -> Seq<T> {
    if s.contains(x) {
        s.remove(s.index_of(x))
    } else {
        s
    }
}

/// Taking `x` out of a list that holds it once, at `i`, leaves the list
/// without `x`.
pub proof fn lemma_without<T>(s: Seq<T>, x: T, i: int)
    requires
        s.no_duplicates(),
        0 <= i < s.len(),
        s[i] == x,
    ensures
        without(s, x) == s.remove(i),
        s.remove(i).no_duplicates(),
        !s.remove(i).contains(x),
        forall|y: T| y != x ==> (s.remove(i).contains(y) <==> s.contains(y)),
{
    let j = s.index_of(x);
    assert(s[j] == x);
    let r = s.remove(i);
    assert forall|y: T| y != x && s.contains(y) implies r.contains(y) by {
        let k = s.index_of(y);
        assert(s[k] == y);
        if k < i {
            assert(r[k] == y);
        } else {
            assert(r[k - 1] == y);
        }
    }
    assert forall|y: T| r.contains(y) implies s.contains(y) && y != x by {
        let k = r.index_of(y);
        assert(r[k] == y);
        if k < i {
            assert(s[k] == y);
        } else {
            assert(s[k + 1] == y);
        }
    }
}

/// Appending a value that a list lacks keeps the list free of repeats.
pub proof fn lemma_push<T>(s: Seq<T>, x: T)
    ensures
        forall|y: T| s.push(x).contains(y) <==> (s.contains(y) || y == x),
        s.no_duplicates() && !s.contains(x) ==> s.push(x).no_duplicates(),
{
    let p = s.push(x);
    assert(p[s.len() as int] == x);
    assert forall|y: T| s.contains(y) implies p.contains(y) by {
        let k = s.index_of(y);
        assert(p[k] == y);
    }
    assert forall|y: T| p.contains(y) implies (s.contains(y) || y == x) by {
        let k = p.index_of(y);
        assert(p[k] == y);
        if k < s.len() {
            assert(s[k] == y);
        }
    }
}

/// The list under `k`, empty where the map has none.
pub open spec fn list_of<A, B>(m: Map<A, Seq<B>>, k: A) -> Seq<B> {
    if m.dom().contains(k) {
        m[k]
    } else {
        Seq::empty()
    }
}

/// The records that `m` has under the keys `ids`, in the order of `ids`; a
/// key without a record is passed over.
pub open spec fn found<A, B>(m: Map<A, B>, ids: Seq<A>) -> Seq<B>
    decreases ids.len(),
{
    if ids.len() == 0 {
        Seq::empty()
    } else if m.dom().contains(ids.last()) {
        found(m, ids.drop_last()).push(m[ids.last()])
    } else {
        found(m, ids.drop_last())
    }
}

/// Whether no key stands twice in `items`.
pub fn all_distinct<K: Key>(items: &Vec<K>) -> (b: bool)
    ensures
        b == views(items@).no_duplicates(),
{
    let ghost s = views(items@);
    let n = items.len();
    let mut i: usize = 0;
    while i < n
        invariant
            i <= n,
            n == items@.len(),
            s == views(items@),
            forall|a: int, c: int| 0 <= a < c < i ==> s[a] != s[c],
        decreases n - i,
    {
        let mut j: usize = 0;
        while j < i
            invariant
                j <= i < n,
                n == items@.len(),
                s == views(items@),
                forall|a: int| 0 <= a < j ==> s[a] != s[i as int],
            decreases i - j,
        {
            if items[j].same(&items[i]) {
                assert(s[j as int] == s[i as int]);
                return false;
            }
            j += 1;
        }
        i += 1;
    }
    assert forall|a: int, c: int| 0 <= a < s.len() && 0 <= c < s.len() && a != c implies s[a]
        != s[c] by {
        if a < c {
            assert(s[a] != s[c]);
        } else {
            assert(s[c] != s[a]);
        }
    }
    true
}

/// An ordered list of keys. Its view is the sequence of their views.
#[derive(Debug)]
pub struct List<K> {
    items: Vec<K>,
}

impl<K: Key> View for List<K> {
    type V = Seq<K::V>;

    closed spec fn view(&self) -> Seq<K::V> {
        views(self.items@)
    }
}

impl<K: Key> List<K> {
    /// The empty list.
    pub fn new() -> (r: Self)
        ensures
            r@ == Seq::<K::V>::empty(),
    {
        let r = List { items: Vec::new() };
        assert(r@ =~= Seq::<K::V>::empty());
        r
    }

    /// The number of keys.
    pub fn len(&self) -> (n: usize)
        ensures
            n == self@.len(),
    {
        self.items.len()
    }

    /// The key at `i`.
    pub fn get(&self, i: usize) -> (k: &K)
        requires
            i < self@.len(),
        ensures
            k@ == self@[i as int],
    {
        &self.items[i]
    }

    /// The first position at which `key` stands, if it stands anywhere.
    pub fn position(&self, key: &K) -> (r: Option<usize>)
        ensures
            match r {
                Some(i) => i < self@.len() && self@[i as int] == key@ && forall|j: int|
                    0 <= j < i ==> self@[j] != key@,
                None => !self@.contains(key@),
            },
    {
        let mut i: usize = 0;
        while i < self.items.len()
            invariant
                i <= self.items.len(),
                forall|j: int| 0 <= j < i ==> self@[j] != key@,
            decreases self.items.len() - i,
        {
            if self.items[i].same(key) {
                return Some(i);
            }
            i += 1;
        }
        None
    }

    /// Whether `key` stands in the list.
    pub fn contains(&self, key: &K) -> (b: bool)
        ensures
            b == self@.contains(key@),
    {
        self.position(key).is_some()
    }

    /// Appends `key`.
    pub fn push(&mut self, key: K)
        ensures
            final(self)@ == old(self)@.push(key@),
    {
        self.items.push(key);
        assert(self@ =~= old(self)@.push(key@));
    }

    /// Takes out the key at `i`; the others keep their order.
    pub fn remove(&mut self, i: usize) -> (k: K)
        requires
            i < old(self)@.len(),
        ensures
            k@ == old(self)@[i as int],
            final(self)@ == old(self)@.remove(i as int),
    {
        let k = self.items.remove(i);
        assert(self@ =~= old(self)@.remove(i as int));
        k
    }
}

impl<K: Key> List<K> {
    /// Takes out every key equal to `key`; the others keep their order.
    pub fn retain_other(&mut self, key: &K)
        ensures
            final(self)@ == old(self)@.filter(|k: K::V| k != key@),
    {
        let ghost keep = |k: K::V| k != key@;
        let mut kept: Vec<K> = Vec::new();
        let mut rest: Vec<K> = Vec::new();
        std::mem::swap(&mut self.items, &mut rest);
        let ghost all = views(rest@);
        let n = rest.len();
        let mut i: usize = 0;
        while i < n
            invariant
                i <= n,
                n == rest@.len(),
                all == views(rest@),
                keep == (|k: K::V| k != key@),
                views(kept@) == all.take(i as int).filter(keep),
            decreases n - i,
        {
            let ghost prev = kept@;
            let k = rest[i].dup();
            proof {
                assert(all.take(i + 1).drop_last() =~= all.take(i as int));
                assert(all.take(i + 1).last() == all[i as int]);
                reveal(Seq::filter);
            }
            if !k.same(key) {
                kept.push(k);
                assert(views(kept@) =~= views(prev).push(k@));
            }
            i += 1;
        }
        assert(all.take(n as int) =~= all);
        self.items = kept;
    }
}

impl<K: Key> List<K> {
    /// Whether no key stands twice in the list.
    pub fn has_no_repeats(&self) -> (b: bool)
        ensures
            b == self@.no_duplicates(),
    {
        all_distinct(&self.items)
    }

    /// Copies of the keys, in order.
    pub fn to_vec(&self) -> (items: Vec<K>)
        ensures
            views(items@) == self@,
    {
        let mut items: Vec<K> = Vec::new();
        let mut i: usize = 0;
        while i < self.items.len()
            invariant
                i <= self.items.len(),
                items@.len() == i,
                self@.len() == self.items.len(),
                views(items@) == self@.take(i as int),
            decreases self.items.len() - i,
        {
            let ghost prev = items@;
            let k = self.items[i].dup();
            items.push(k);
            i += 1;
            assert forall|j: int| 0 <= j < i implies views(items@)[j] == self@[j] by {
                if j < i - 1 {
                    assert(views(prev)[j] == self@.take(i - 1)[j]);
                }
            }
            assert(views(items@) =~= self@.take(i as int));
        }
        assert(views(items@) =~= self@);
        items
    }
}

impl<K: Key> Dup for List<K> {
    fn dup(&self) -> (r: Self) {
        List { items: self.to_vec() }
    }
}

/// A table of records by key, scanned in the order of its rows. Its view is
/// the map from each key to its record.
#[derive(Debug)]
pub struct Table<K, V> {
    keys: Vec<K>,
    vals: Vec<V>,
}

impl<K: Key, V: Dup> View for Table<K, V> {
    type V = Map<K::V, V::V>;

    open spec fn view(&self) -> Map<K::V, V::V> {
        entries(self.keys(), self.vals())
    }
}

/// The map that rows of keys and records stand for.
pub open spec fn entries<A, B>(keys: Seq<A>, vals: Seq<B>) -> Map<A, B> {
    Map::new(|k: A| keys.contains(k), |k: A| vals[keys.index_of(k)])
}

/// A new record in row `i` is a new record under the key of that row.
pub proof fn lemma_entries_update<A, B>(keys: Seq<A>, vals: Seq<B>, i: int, y: B)
    requires
        keys.no_duplicates(),
        keys.len() == vals.len(),
        0 <= i < keys.len(),
    ensures
        entries(keys, vals.update(i, y)) == entries(keys, vals).insert(keys[i], y),
{
    let after = entries(keys, vals.update(i, y));
    let expected = entries(keys, vals).insert(keys[i], y);
    assert forall|k: A| #[trigger] after.dom().contains(k) implies after[k] == expected[k] by {
        let j = keys.index_of(k);
        assert(keys[j] == k);
    }
    assert(after =~= expected);
}

impl<K: Key, V: Dup> Table<K, V> {
    /// The keys of the rows, in scan order.
    pub closed spec fn keys(&self) -> Seq<K::V> {
        views(self.keys@)
    }

    /// The records of the rows, in scan order.
    pub closed spec fn vals(&self) -> Seq<V::V> {
        views(self.vals@)
    }

    /// Every row has a key and a record, and no key stands twice.
    pub open spec fn wf(&self) -> bool {
        &&& self.keys().len() == self.vals().len()
        &&& self.keys().no_duplicates()
    }

    /// The record under `k`, if there is one.
    pub open spec fn lookup(&self, k: K::V) -> Option<V::V> {
        if self@.dom().contains(k) {
            Some(self@[k])
        } else {
            None
        }
    }

    /// `self` is `before` with `v` under `k`: in the row that held `k`, or
    /// else in a new last row.
    pub open spec fn is_put(&self, before: &Self, k: K::V, v: V::V) -> bool {
        &&& self@ == before@.insert(k, v)
        &&& if before@.dom().contains(k) {
            &&& self.keys() == before.keys()
            &&& self.vals() == before.vals().update(before.keys().index_of(k), v)
        } else {
            &&& self.keys() == before.keys().push(k)
            &&& self.vals() == before.vals().push(v)
        }
    }

    /// `self` is `before` without the row of `k`.
    pub open spec fn is_cut(&self, before: &Self, k: K::V) -> bool {
        &&& self@ == before@.remove(k)
        &&& if before@.dom().contains(k) {
            &&& self.keys() == before.keys().remove(before.keys().index_of(k))
            &&& self.vals() == before.vals().remove(before.keys().index_of(k))
        } else {
            &&& self.keys() == before.keys()
            &&& self.vals() == before.vals()
        }
    }

    /// The rows are exactly the entries of the map.
    pub proof fn rows_are_entries(&self)
        requires
            self.wf(),
        ensures
            self@.dom().finite(),
            self@.dom().len() == self.keys().len(),
            forall|k: K::V| self@.dom().contains(k) <==> self.keys().contains(k),
            forall|i: int|
                0 <= i < self.keys().len() ==> self@.dom().contains(#[trigger] self.keys()[i])
                    && self@[self.keys()[i]] == self.vals()[i],
    {
        assert(self@.dom() =~= self.keys().to_set());
        self.keys().unique_seq_to_set();
        vstd::seq_lib::seq_to_set_is_finite(self.keys());
    }

    /// Whether every row has a key and a record and no key stands twice.
    pub fn is_wf(&self) -> (b: bool)
        ensures
            b == self.wf(),
    {
        self.keys.len() == self.vals.len() && all_distinct(&self.keys)
    }

    /// The empty table.
    pub fn new() -> (r: Self)
        ensures
            r.wf(),
            r@ == Map::<K::V, V::V>::empty(),
            r.keys().len() == 0,
    {
        let r = Table { keys: Vec::new(), vals: Vec::new() };
        assert(r@ =~= Map::<K::V, V::V>::empty());
        r
    }

    /// The number of rows.
    pub fn len(&self) -> (n: usize)
        ensures
            n == self.keys().len(),
    {
        self.keys.len()
    }

    /// The key of row `i`.
    pub fn key_at(&self, i: usize) -> (k: &K)
        requires
            i < self.keys().len(),
        ensures
            k@ == self.keys()[i as int],
    {
        &self.keys[i]
    }

    /// The record of row `i`.
    pub fn value_at(&self, i: usize) -> (v: &V)
        requires
            i < self.vals().len(),
        ensures
            v@ == self.vals()[i as int],
    {
        &self.vals[i]
    }

    /// The row that holds `key`, if one does.
    pub fn find(&self, key: &K) -> (r: Option<usize>)
        requires
            self.wf(),
        ensures
            match r {
                Some(i) => i < self.keys().len() && self.keys()[i as int] == key@
                    && self@.dom().contains(key@) && self@[key@] == self.vals()[i as int],
                None => !self@.dom().contains(key@),
            },
    {
        let mut i: usize = 0;
        while i < self.keys.len()
            invariant
                self.wf(),
                i <= self.keys.len(),
                self.keys().len() == self.keys.len(),
                forall|j: int| 0 <= j < i ==> self.keys()[j] != key@,
            decreases self.keys.len() - i,
        {
            if self.keys[i].same(key) {
                proof {
                    self.rows_are_entries();
                    assert(self.keys()[i as int] == key@);
                }
                return Some(i);
            }
            i += 1;
        }
        proof {
            self.rows_are_entries();
        }
        None
    }

    /// Whether a record stands under `key`.
    pub fn contains_key(&self, key: &K) -> (b: bool)
        requires
            self.wf(),
        ensures
            b == self@.dom().contains(key@),
    {
        self.find(key).is_some()
    }

    /// The record under `key`, if there is one.
    pub fn get(&self, key: &K) -> (r: Option<&V>)
        requires
            self.wf(),
        ensures
            match r {
                Some(v) => self.lookup(key@) == Some(v@),
                None => self.lookup(key@) is None,
            },
    {
        match self.find(key) {
            Some(i) => Some(&self.vals[i]),
            None => None,
        }
    }

    /// Puts `value` in row `i`, under the key that the row has.
    pub fn set_at(&mut self, i: usize, value: V)
        requires
            old(self).wf(),
            i < old(self).keys().len(),
        ensures
            final(self).wf(),
            final(self).keys() == old(self).keys(),
            final(self).vals() == old(self).vals().update(i as int, value@),
            final(self)@ == old(self)@.insert(old(self).keys()[i as int], value@),
    {
        proof {
            old(self).rows_are_entries();
        }
        self.vals.set(i, value);
        assert(self.vals() =~= old(self).vals().update(i as int, value@));
        proof {
            self.rows_are_entries();
            assert(self@ =~= old(self)@.insert(old(self).keys()[i as int], value@));
        }
    }

    /// The record of row `i`, to be changed in place.
    pub fn value_at_mut(&mut self, i: usize) -> (v: &mut V)
        requires
            old(self).wf(),
            i < old(self).keys().len(),
        ensures
            v@ == old(self).vals()[i as int],
            final(self).wf(),
            final(self).keys() == old(self).keys(),
            final(self).vals() == old(self).vals().update(i as int, final(v)@),
            final(self)@ == old(self)@.insert(old(self).keys()[i as int], final(v)@),
    {
        proof {
            let keys = self.keys();
            let vals = self.vals();
            assert forall|x: V| #[trigger]
                views(self.vals@.update(i as int, x)) == vals.update(i as int, x@) by {
                assert(views(self.vals@.update(i as int, x)) =~= vals.update(i as int, x@));
            }
            assert forall|y: V::V| #[trigger]
                entries(keys, vals.update(i as int, y)) == entries(keys, vals).insert(
                    keys[i as int],
                    y,
                ) by {
                lemma_entries_update(keys, vals, i as int, y);
            }
        }
        &mut self.vals[i]
    }

    /// Puts `value` under `key`: in the row that holds the key, or else in a
    /// new last row.
    pub fn insert(&mut self, key: K, value: V)
        requires
            old(self).wf(),
        ensures
            final(self).wf(),
            final(self).is_put(old(self), key@, value@),
    {
        match self.find(&key) {
            Some(i) => {
                proof {
                    self.rows_are_entries();
                }
                self.set_at(i, value);
            },
            None => {
                proof {
                    self.rows_are_entries();
                }
                self.keys.push(key);
                self.vals.push(value);
                assert(self.keys() =~= old(self).keys().push(key@));
                assert(self.vals() =~= old(self).vals().push(value@));
                proof {
                    let n = old(self).keys().len() as int;
                    let before = old(self)@;
                    let after = before.insert(key@, value@);
                    assert(self.keys()[n] == key@);
                    self.rows_are_entries();
                    assert forall|k: K::V| #[trigger] self@.dom().contains(k) implies after.dom().contains(k)
                        && self@[k] == after[k] by {
                        let i = self.keys().index_of(k);
                        assert(self.keys()[i] == k);
                        if i < n {
                            assert(old(self).keys()[i] == k);
                        }
                    }
                    assert forall|k: K::V| #[trigger] after.dom().contains(k) implies self@.dom().contains(k) by {
                        if k != key@ {
                            let i = old(self).keys().index_of(k);
                            assert(self.keys()[i] == k);
                        }
                    }
                    assert(self@ =~= after);
                }
            },
        }
    }

    /// Takes out the record under `key`, if there is one; the other rows
    /// keep their order.
    pub fn remove(&mut self, key: &K) -> (r: Option<V>)
        requires
            old(self).wf(),
        ensures
            final(self).wf(),
            final(self).is_cut(old(self), key@),
            match r {
                Some(v) => old(self).lookup(key@) == Some(v@),
                None => old(self).lookup(key@) is None && *final(self) == *old(self),
            },
    {
        match self.find(key) {
            Some(i) => {
                proof {
                    self.rows_are_entries();
                }
                let _k = self.keys.remove(i);
                let v = self.vals.remove(i);
                assert(self.keys() =~= old(self).keys().remove(i as int));
                assert(self.vals() =~= old(self).vals().remove(i as int));
                proof {
                    let before = old(self)@;
                    let after = before.remove(key@);
                    let at = i as int;
                    assert(old(self).keys()[at] == key@);
                    assert(old(self).keys().index_of(key@) == at);
                    assert forall|a: int, b: int|
                        0 <= a < self.keys().len() && 0 <= b < self.keys().len() && a != b implies self.keys()[a]
                        != self.keys()[b] by {
                        let a0 = if a < at { a } else { a + 1 };
                        let b0 = if b < at { b } else { b + 1 };
                        assert(old(self).keys()[a0] != old(self).keys()[b0]);
                    }
                    self.rows_are_entries();
                    assert forall|k: K::V| #[trigger] self@.dom().contains(k) implies after.dom().contains(k)
                        && self@[k] == after[k] by {
                        let j = self.keys().index_of(k);
                        assert(self.keys()[j] == k);
                        let j0 = if j < at { j } else { j + 1 };
                        assert(old(self).keys()[j0] == k);
                    }
                    assert forall|k: K::V| #[trigger] after.dom().contains(k) implies self@.dom().contains(k) by {
                        let j0 = old(self).keys().index_of(k);
                        assert(old(self).keys()[j0] == k);
                        let j = if j0 < at { j0 } else { j0 - 1 };
                        assert(self.keys()[j] == k);
                    }
                    assert(self@ =~= after);
                }
                Some(v)
            },
            None => {
                assert(self@ =~= old(self)@.remove(key@));
                None
            },
        }
    }
}

impl<K: Key, V: Dup> Table<K, V> {
    /// A copy with the same rows.
    pub fn copy(&self) -> (r: Self)
        ensures
            r.keys() == self.keys(),
            r.vals() == self.vals(),
            r@ == self@,
    {
        let mut keys: Vec<K> = Vec::new();
        let mut vals: Vec<V> = Vec::new();
        let mut i: usize = 0;
        while i < self.keys.len()
            invariant
                i <= self.keys.len(),
                keys@.len() == i,
                views(keys@) == views(self.keys@).take(i as int),
            decreases self.keys.len() - i,
        {
            let ghost prev = keys@;
            let k = self.keys[i].dup();
            keys.push(k);
            i += 1;
            assert forall|j: int| 0 <= j < i implies views(keys@)[j] == views(self.keys@)[j] by {
                if j < i - 1 {
                    assert(views(prev)[j] == views(self.keys@).take(i - 1)[j]);
                }
            }
            assert(views(keys@) =~= views(self.keys@).take(i as int));
        }
        assert(views(keys@) =~= views(self.keys@));
        let mut j: usize = 0;
        while j < self.vals.len()
            invariant
                j <= self.vals.len(),
                vals@.len() == j,
                views(vals@) == views(self.vals@).take(j as int),
            decreases self.vals.len() - j,
        {
            let ghost prev = vals@;
            let v = self.vals[j].dup();
            vals.push(v);
            j += 1;
            assert forall|m: int| 0 <= m < j implies views(vals@)[m] == views(self.vals@)[m] by {
                if m < j - 1 {
                    assert(views(prev)[m] == views(self.vals@).take(j - 1)[m]);
                }
            }
            assert(views(vals@) =~= views(self.vals@).take(j as int));
        }
        assert(views(vals@) =~= views(self.vals@));
        Table { keys, vals }
    }
}

impl<K: Key, V: Dup> Table<K, V> {
    /// Appends to `out` copies of the records under the keys `ids`, in the
    /// order of `ids`; a key without a record is passed over.
    pub fn collect(&self, ids: &List<K>, out: &mut Vec<V>)
        requires
            self.wf(),
        ensures
            views(final(out)@) == views(old(out)@) + found(self@, ids@),
    {
        let n = ids.len();
        let mut i: usize = 0;
        assert(views(out@) =~= views(old(out)@) + found(self@, ids@.take(0)));
        while i < n
            invariant
                i <= n,
                n == ids@.len(),
                self.wf(),
                views(out@) == views(old(out)@) + found(self@, ids@.take(i as int)),
            decreases n - i,
        {
            let ghost prev = out@;
            proof {
                assert(ids@.take(i + 1).drop_last() =~= ids@.take(i as int));
                assert(ids@.take(i + 1).last() == ids@[i as int]);
            }
            match self.get(ids.get(i)) {
                Some(v) => {
                    let copy = v.dup();
                    out.push(copy);
                    assert(views(out@) =~= views(prev).push(copy@));
                    assert(views(out@) =~= views(old(out)@) + found(self@, ids@.take(i + 1)));
                },
                None => {},
            }
            i += 1;
        }
        assert(ids@.take(n as int) =~= ids@);
    }

    /// The keys of `self` after a record is put under `k`.
    pub open spec fn keys_with(&self, k: K::V) -> Seq<K::V> {
        if self@.dom().contains(k) {
            self.keys()
        } else {
            self.keys().push(k)
        }
    }
}

impl<K: Key, V: Dup> Dup for Table<K, V> {
    fn dup(&self) -> (r: Self) {
        self.copy()
    }
}

impl<K: Key, E: Key> Table<K, List<E>> {
    /// Appends `item` to the list under `key`, which starts empty where the
    /// table has none.
    /// Returns the length of the list after that.
    pub fn append_to(&mut self, key: K, item: E) -> (n: usize)
        requires
            old(self).wf(),
        ensures
            final(self).wf(),
            final(self).is_put(old(self), key@, list_of(old(self)@, key@).push(item@)),
            n == list_of(old(self)@, key@).len() + 1,
    {
        match self.find(&key) {
            Some(i) => {
                proof {
                    self.rows_are_entries();
                }
                let list = self.value_at_mut(i);
                list.push(item);
                list.len()
            },
            None => {
                let mut list: List<E> = List::new();
                list.push(item);
                let n = list.len();
                self.insert(key, list);
                n
            },
        }
    }
}

} // verus!
