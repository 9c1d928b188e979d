//! Keyed collections of the contract state.
//!
//! `Table` is an insertion-ordered map from account or task identifiers to
//! values: a new key goes to the end, an existing key keeps its place and
//! has its value replaced, and a removed key is replaced by the last entry.
//! `KeySet` is the same discipline for a set of identifiers.
use vstd::prelude::*;

verus! {

/// No key occurs twice among the entries.
pub open spec fn keys_distinct<A>(s: Seq<(Seq<char>, A)>) -> bool {
    forall|i: int, j: int|
        0 <= i < s.len() && 0 <= j < s.len() && i != j ==> #[trigger] s[i].0 != #[trigger] s[j].0
}

/// Some entry has key `k`.
pub open spec fn has_key<A>(s: Seq<(Seq<char>, A)>, k: Seq<char>) -> bool {
    exists|i: int| 0 <= i < s.len() && #[trigger] s[i].0 == k
}

/// The position of the entry with key `k`, where there is one.
pub open spec fn key_position<A>(s: Seq<(Seq<char>, A)>, k: Seq<char>) -> int {
    choose|i: int| 0 <= i < s.len() && #[trigger] s[i].0 == k
}

/// The value stored under `k`.
pub open spec fn lookup<A>(s: Seq<(Seq<char>, A)>, k: Seq<char>) -> Option<A> {
    if has_key(s, k) {
        Some(s[key_position(s, k)].1)
    } else {
        None
    }
}

/// The entries after storing `v` under `k`.
pub open spec fn put<A>(s: Seq<(Seq<char>, A)>, k: Seq<char>, v: A) -> Seq<(Seq<char>, A)> {
    if has_key(s, k) {
        s.update(key_position(s, k), (k, v))
    } else {
        s.push((k, v))
    }
}

/// The entries after removing `k`: its place is taken by the last entry.
pub open spec fn delete<A>(s: Seq<(Seq<char>, A)>, k: Seq<char>) -> Seq<(Seq<char>, A)> {
    if has_key(s, k) {
        s.update(key_position(s, k), s.last()).drop_last()
    } else {
        s
    }
}

/// The keys of the entries, in order.
pub open spec fn keys_of<A>(s: Seq<(Seq<char>, A)>) -> Seq<Seq<char>> {
    s.map_values(|e: (Seq<char>, A)| e.0)
}

/// With distinct keys, the entry at `i` is the one found for its key.
pub proof fn lemma_position<A>(s: Seq<(Seq<char>, A)>, i: int)
    requires
        keys_distinct(s),
        0 <= i < s.len(),
    ensures
        has_key(s, s[i].0),
        key_position(s, s[i].0) == i,
        lookup(s, s[i].0) == Some(s[i].1),
{
    assert(s[i].0 == s[i].0);
}

/// Storing under a key keeps the keys distinct.
pub proof fn lemma_put_distinct<A>(s: Seq<(Seq<char>, A)>, k: Seq<char>, v: A)
    requires
        keys_distinct(s),
    ensures
        keys_distinct(put(s, k, v)),
        lookup(put(s, k, v), k) == Some(v),
        put(s, k, v).len() == if has_key(s, k) { s.len() } else { s.len() + 1 },
        forall|k2: Seq<char>| k2 != k ==> lookup(put(s, k, v), k2) == lookup(s, k2),
{
    let t = put(s, k, v);
    if has_key(s, k) {
        let p = key_position(s, k);
        assert forall|i: int, j: int|
            0 <= i < t.len() && 0 <= j < t.len() && i != j implies #[trigger] t[i].0
            != #[trigger] t[j].0 by {
            assert(s[i].0 != s[j].0);
        }
    } else {
        assert forall|i: int, j: int|
            0 <= i < t.len() && 0 <= j < t.len() && i != j implies #[trigger] t[i].0
            != #[trigger] t[j].0 by {
            if i < s.len() && j < s.len() {
                assert(s[i].0 != s[j].0);
            } else if i < s.len() {
                assert(s[i].0 == s[i].0);
            } else {
                assert(s[j].0 == s[j].0);
            }
        }
    }
    let pk = if has_key(s, k) { key_position(s, k) } else { s.len() as int };
    assert(t[pk].0 == k);
    lemma_position(t, pk);
    assert forall|k2: Seq<char>| k2 != k implies lookup(t, k2) == lookup(s, k2) by {
        if has_key(s, k2) {
            let q = key_position(s, k2);
            lemma_position(s, q);
            assert(t[q].0 == k2);
            lemma_position(t, q);
        } else if has_key(t, k2) {
            let q = key_position(t, k2);
            assert(s[q].0 == k2);
        }
    }
}

/// Removing a key keeps the keys distinct and leaves the other keys' values alone.
pub proof fn lemma_delete_distinct<A>(s: Seq<(Seq<char>, A)>, k: Seq<char>)
    requires
        keys_distinct(s),
    ensures
        keys_distinct(delete(s, k)),
        lookup(delete(s, k), k) is None,
        forall|k2: Seq<char>| k2 != k ==> lookup(delete(s, k), k2) == lookup(s, k2),
{
    let t = delete(s, k);
    if has_key(s, k) {
        let p = key_position(s, k);
        let n = s.len() - 1;
        assert forall|i: int, j: int|
            0 <= i < t.len() && 0 <= j < t.len() && i != j implies #[trigger] t[i].0
            != #[trigger] t[j].0 by {
            let si = if i == p { n } else { i };
            let sj = if j == p { n } else { j };
            assert(t[i] == s[si]);
            assert(t[j] == s[sj]);
            assert(s[si].0 != s[sj].0);
        }
        assert forall|k2: Seq<char>| k2 != k implies lookup(t, k2) == lookup(s, k2) by {
            if has_key(s, k2) {
                let q = key_position(s, k2);
                lemma_position(s, q);
                let tq = if q == n { p } else { q };
                assert(q != p);
                assert(t[tq] == s[q]);
                lemma_position(t, tq);
            } else if has_key(t, k2) {
                let q = key_position(t, k2);
                let sq = if q == p { n } else { q };
                assert(t[q] == s[sq]);
            }
        }
        if has_key(t, k) {
            let q = key_position(t, k);
            let sq = if q == p { n } else { q };
            assert(t[q] == s[sq]);
            assert(s[p].0 == k);
        }
    }
}

/// An insertion-ordered map from identifiers to values.
pub struct Table<V> {
    entries: Vec<(String, V)>,
}

/// A value that can be copied so that the copy has the same model.
pub trait Snapshot: View + Sized {
    fn snapshot(&self) -> (r: Self)
        ensures
            r@ == self@,
    ;
}

impl Snapshot for String {
    fn snapshot(&self) -> (r: String) {
        self.clone()
    }
}

impl<V: View> View for Table<V> {
    type V = Seq<(Seq<char>, V::V)>;

    closed spec fn view(&self) -> Seq<(Seq<char>, V::V)> {
        self.entries@.map_values(|e: (String, V)| (e.0@, e.1@))
    }
}

impl<V: View + Snapshot> Table<V> {
    /// The table holds no key twice.
    pub open spec fn wf(&self) -> bool {
        keys_distinct(self@)
    }

    pub fn new() -> (t: Self)
        ensures
            t@ == Seq::<(Seq<char>, V::V)>::empty(),
            t.wf(),
    {
        Table { entries: Vec::new() }
    }

    pub fn len(&self) -> (n: usize)
        ensures
            n == self@.len(),
    {
        self.entries.len()
    }

    /// The position of `key`, where it is present.
    pub fn find(&self, key: &String) -> (r: Option<usize>)
        requires
            self.wf(),
        ensures
            match r {
                Some(i) => i < self@.len() && self@[i as int].0 == key@ && has_key(self@, key@)
                    && key_position(self@, key@) == i,
                None => !has_key(self@, key@),
            },
    {
        let n = self.entries.len();
        let mut i: usize = 0;
        while i < n
            invariant
                n == self.entries@.len(),
                i <= n,
                self.wf(),
                forall|j: int| 0 <= j < i ==> self@[j].0 != key@,
            decreases n - i,
        {
            if self.entries[i].0 == *key {
                proof {
                    lemma_position(self@, i as int);
                }
                return Some(i);
            }
            i = i + 1;
        }
        None
    }

    /// The key of the entry at `i`.
    pub fn key_at(&self, i: usize) -> (k: &String)
        requires
            i < self@.len(),
        ensures
            k@ == self@[i as int].0,
    {
        &self.entries[i].0
    }

    /// The value of the entry at `i`.
    pub fn value_at(&self, i: usize) -> (v: &V)
        requires
            i < self@.len(),
        ensures
            v@ == self@[i as int].1,
    {
        &self.entries[i].1
    }

    /// A copy of the value stored under `key`.
    pub fn get(&self, key: &String) -> (r: Option<V>)
        requires
            self.wf(),
        ensures
            match r {
                Some(v) => lookup(self@, key@) == Some(v@),
                None => lookup(self@, key@) is None,
            },
    {
        match self.find(key) {
            Some(i) => Some(self.entries[i].1.snapshot()),
            None => None,
        }
    }

    /// Whether `key` is present.
    pub fn contains_key(&self, key: &String) -> (b: bool)
        requires
            self.wf(),
        ensures
            b == has_key(self@, key@),
    {
        self.find(key).is_some()
    }

    /// Stores `value` under `key`.
    pub fn insert(&mut self, key: String, value: V)
        requires
            old(self).wf(),
        ensures
            final(self).wf(),
            final(self)@ == put(old(self)@, key@, value@),
    {
        let ghost kv = key@;
        let ghost vv = value@;
        match self.find(&key) {
            Some(i) => {
                self.entries.set(i, (key, value));
                proof {
                    assert(self@ =~= put(old(self)@, kv, vv));
                }
            },
            None => {
                self.entries.push((key, value));
                proof {
                    assert(self@ =~= put(old(self)@, kv, vv));
                }
            },
        }
        proof {
            lemma_put_distinct(old(self)@, kv, vv);
        }
    }

    /// Removes `key`, moving the last entry into its place.
    pub fn remove(&mut self, key: &String)
        requires
            old(self).wf(),
        ensures
            final(self).wf(),
            final(self)@ == delete(old(self)@, key@),
    {
        match self.find(key) {
            Some(i) => {
                let ghost s = self@;
                self.entries.swap_remove(i);
                proof {
                    assert(self@ =~= delete(s, key@));
                }
            },
            None => {},
        }
        proof {
            lemma_delete_distinct(old(self)@, key@);
        }
    }
}

/// Entries as their model.
pub open spec fn entries_view<V: View>(v: Seq<(String, V)>) -> Seq<(Seq<char>, V::V)> {
    v.map_values(|e: (String, V)| (e.0@, e.1@))
}

impl<V: View + Snapshot> Table<V> {
    /// Whether no key occurs twice.
    pub fn has_distinct_keys(&self) -> (b: bool)
        ensures
            b == self.wf(),
    {
        let n = self.entries.len();
        for i in 0..n
            invariant
                n == self@.len(),
                forall|a: int, b: int|
                    0 <= a < i && 0 <= b < n && a != b ==> #[trigger] self@[a].0 != #[trigger] self@[b].0,
        {
            for j in 0..n
                invariant
                    n == self@.len(),
                    i < n,
                    forall|a: int, b: int|
                        0 <= a < i && 0 <= b < n && a != b ==> #[trigger] self@[a].0 != #[trigger] self@[b].0,
                    forall|b: int| 0 <= b < j && b != i ==> self@[i as int].0 != #[trigger] self@[b].0,
            {
                if i != j && self.entries[i].0 == self.entries[j].0 {
                    assert(self@[i as int].0 == self@[j as int].0);
                    return false;
                }
            }
        }
        true
    }

    /// A table holding `entries` in order; none where a key occurs twice.
    pub fn from_entries(entries: Vec<(String, V)>) -> (r: Option<Table<V>>)
        ensures
            match r {
                Some(t) => t.wf() && t@ == entries_view(entries@),
                None => !keys_distinct(entries_view(entries@)),
            },
    {
        let t = Table { entries };
        if t.has_distinct_keys() {
            Some(t)
        } else {
            None
        }
    }

    /// A copy of the entries, in order.
    pub fn to_entries(&self) -> (v: Vec<(String, V)>)
        ensures
            entries_view(v@) == self@,
    {
        self.snapshot().entries
    }
}

impl<V: View + Snapshot> Snapshot for Table<V> {
    fn snapshot(&self) -> (r: Self) {
        let mut entries: Vec<(String, V)> = Vec::new();
        let n = self.entries.len();
        for i in 0..n
            invariant
                n == self.entries@.len(),
                entries@.len() == i,
                forall|j: int|
                    0 <= j < i ==> (#[trigger] entries@[j]).0@ == self.entries@[j].0@
                        && entries@[j].1@ == self.entries@[j].1@,
        {
            let k = self.entries[i].0.clone();
            let v = self.entries[i].1.snapshot();
            entries.push((k, v));
        }
        let r = Table { entries };
        proof {
            assert(r@ =~= self@);
        }
        r
    }
}

/// A set of identifiers kept in the order in which they were added; a removed
/// identifier is replaced by the last one.
pub struct KeySet {
    items: Vec<String>,
}

/// The identifiers after adding `x`.
pub open spec fn set_add(s: Seq<Seq<char>>, x: Seq<char>) -> Seq<Seq<char>> {
    if s.contains(x) {
        s
    } else {
        s.push(x)
    }
}

/// The identifiers after removing `x`: its place is taken by the last one.
pub open spec fn set_drop(s: Seq<Seq<char>>, x: Seq<char>) -> Seq<Seq<char>> {
    if s.contains(x) {
        s.update(s.index_of(x), s.last()).drop_last()
    } else {
        s
    }
}

/// Adding an identifier keeps the identifiers distinct.
pub proof fn lemma_set_add_distinct(s: Seq<Seq<char>>, x: Seq<char>)
    requires
        s.no_duplicates(),
    ensures
        set_add(s, x).no_duplicates(),
        set_add(s, x).contains(x),
{
    if !s.contains(x) {
        let t = s.push(x);
        assert(t[s.len() as int] == x);
        assert forall|i: int, j: int|
            0 <= i < t.len() && 0 <= j < t.len() && i != j implies t[i] != t[j] by {
            if i < s.len() && j < s.len() {
                assert(t[i] == s[i] && t[j] == s[j]);
            } else if i < s.len() {
                assert(t[i] == s[i]);
            } else {
                assert(t[j] == s[j]);
            }
        }
    }
}

/// Removing an identifier keeps the identifiers distinct.
pub proof fn lemma_set_drop_distinct(s: Seq<Seq<char>>, x: Seq<char>)
    requires
        s.no_duplicates(),
    ensures
        set_drop(s, x).no_duplicates(),
        !set_drop(s, x).contains(x),
{
    let t = set_drop(s, x);
    if s.contains(x) {
        let p = s.index_of(x);
        let n = s.len() - 1;
        assert(s[p] == x);
        assert forall|a: int, b: int|
            0 <= a < t.len() && 0 <= b < t.len() && a != b implies t[a] != t[b] by {
            let sa = if a == p { n } else { a };
            let sb = if b == p { n } else { b };
            assert(t[a] == s[sa]);
            assert(t[b] == s[sb]);
        }
        if t.contains(x) {
            let q = t.index_of(x);
            let sq = if q == p { n } else { q };
            assert(t[q] == s[sq]);
        }
    }
}

impl View for KeySet {
    type V = Seq<Seq<char>>;

    closed spec fn view(&self) -> Seq<Seq<char>> {
        self.items@.map_values(|s: String| s@)
    }
}

impl KeySet {
    /// No identifier occurs twice.
    pub open spec fn wf(&self) -> bool {
        self@.no_duplicates()
    }

    pub fn new() -> (s: Self)
        ensures
            s@ == Seq::<Seq<char>>::empty(),
            s.wf(),
    {
        KeySet { items: Vec::new() }
    }

    pub fn len(&self) -> (n: usize)
        ensures
            n == self@.len(),
    {
        self.items.len()
    }

    /// The identifier at position `i`.
    pub fn at(&self, i: usize) -> (k: &String)
        requires
            i < self@.len(),
        ensures
            k@ == self@[i as int],
    {
        &self.items[i]
    }

    fn position(&self, x: &String) -> (r: Option<usize>)
        requires
            self.wf(),
        ensures
            match r {
                Some(i) => i < self@.len() && self@.contains(x@) && self@.index_of(x@) == i,
                None => !self@.contains(x@),
            },
    {
        let n = self.items.len();
        let mut i: usize = 0;
        while i < n
            invariant
                n == self.items@.len(),
                i <= n,
                self.wf(),
                forall|j: int| 0 <= j < i ==> self@[j] != x@,
            decreases n - i,
        {
            if self.items[i] == *x {
                assert(self@[i as int] == x@);
                assert(self@.contains(x@));
                let ghost p = self@.index_of(x@);
                assert(self@[p] == x@);
                return Some(i);
            }
            i = i + 1;
        }
        None
    }

    /// Whether `x` is in the set.
    pub fn contains(&self, x: &String) -> (b: bool)
        requires
            self.wf(),
        ensures
            b == self@.contains(x@),
    {
        self.position(x).is_some()
    }

    /// Adds `x` at the end, unless it is there already.
    pub fn insert(&mut self, x: String)
        requires
            old(self).wf(),
        ensures
            final(self).wf(),
            final(self)@ == set_add(old(self)@, x@),
    {
        let ghost xv = x@;
        if self.position(&x).is_none() {
            self.items.push(x);
            proof {
                assert(self@ =~= old(self)@.push(xv));
                assert forall|i: int, j: int|
                    0 <= i < self@.len() && 0 <= j < self@.len() && i != j implies self@[i]
                    != self@[j] by {
                    if i < old(self)@.len() && j < old(self)@.len() {
                    } else if i < old(self)@.len() {
                        assert(old(self)@[i] == self@[i]);
                    } else {
                        assert(old(self)@[j] == self@[j]);
                    }
                }
            }
        }
    }

    /// Removes `x`, moving the last identifier into its place.
    pub fn remove(&mut self, x: &String)
        requires
            old(self).wf(),
        ensures
            final(self).wf(),
            final(self)@ == set_drop(old(self)@, x@),
    {
        match self.position(x) {
            Some(i) => {
                let ghost s = self@;
                let ghost n = s.len() - 1;
                self.items.swap_remove(i);
                proof {
                    assert(self@ =~= set_drop(s, x@));
                    assert forall|a: int, b: int|
                        0 <= a < self@.len() && 0 <= b < self@.len() && a != b implies self@[a]
                        != self@[b] by {
                        let sa = if a == i { n } else { a };
                        let sb = if b == i { n } else { b };
                        assert(self@[a] == s[sa]);
                        assert(self@[b] == s[sb]);
                    }
                }
            },
            None => {},
        }
    }

    /// A copy of the identifiers, in order.
    pub fn to_vec(&self) -> (v: Vec<String>)
        ensures
            v@.map_values(|s: String| s@) == self@,
    {
        let mut v: Vec<String> = Vec::new();
        let n = self.items.len();
        for i in 0..n
            invariant
                n == self.items@.len(),
                v@.len() == i,
                forall|j: int| 0 <= j < i ==> (#[trigger] v@[j])@ == self.items@[j]@,
        {
            v.push(self.items[i].clone());
        }
        proof {
            assert(v@.map_values(|s: String| s@) =~= self@);
        }
        v
    }
}

impl KeySet {
    /// Whether no identifier occurs twice.
    pub fn has_distinct_items(&self) -> (b: bool)
        ensures
            b == self.wf(),
    {
        let n = self.items.len();
        for i in 0..n
            invariant
                n == self@.len(),
                forall|a: int, b: int|
                    0 <= a < i && 0 <= b < n && a != b ==> #[trigger] self@[a] != #[trigger] self@[b],
        {
            for j in 0..n
                invariant
                    n == self@.len(),
                    i < n,
                    forall|a: int, b: int|
                        0 <= a < i && 0 <= b < n && a != b ==> #[trigger] self@[a] != #[trigger] self@[b],
                    forall|b: int| 0 <= b < j && b != i ==> self@[i as int] != #[trigger] self@[b],
            {
                if i != j && self.items[i] == self.items[j] {
                    assert(self@[i as int] == self@[j as int]);
                    return false;
                }
            }
        }
        true
    }

    /// A set holding `items` in order; none where an identifier occurs twice.
    pub fn from_vec(items: Vec<String>) -> (r: Option<KeySet>)
        ensures
            match r {
                Some(s) => s.wf() && s@ == items@.map_values(|x: String| x@),
                None => !items@.map_values(|x: String| x@).no_duplicates(),
            },
    {
        let s = KeySet { items };
        if s.has_distinct_items() {
            Some(s)
        } else {
            None
        }
    }
}

impl Snapshot for KeySet {
    fn snapshot(&self) -> (r: Self) {
        let items = self.to_vec();
        KeySet { items }
    }
}

} // verus!
