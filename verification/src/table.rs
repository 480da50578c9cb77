//! Ordered tables: records by a textual key, kept in key order, each key at
//! most once.

use vstd::prelude::*;

use crate::search::{first, first_from, found, matching, matching_upto, positions};
use crate::text::{less, parts_less, same, texts};
use crate::text::{lemma_parts_irreflexive, lemma_parts_total, lemma_parts_transitive};
use crate::text::{lemma_text_irreflexive, text_less};

verus! {

/// A key made of one or more strings, ordered part by part.
pub trait MapKey: Sized {
    spec fn parts(&self) -> Seq<Seq<char>>;

    fn precedes(&self, other: &Self) -> (r: bool)
        ensures
            r == parts_less(self.parts(), other.parts()),
    ;

    fn matches(&self, other: &Self) -> (r: bool)
        ensures
            r == (self.parts() == other.parts()),
    ;
}

pub open spec fn key1(a: Seq<char>) -> Seq<Seq<char>> {
    seq![a]
}

pub open spec fn key2(a: Seq<char>, b: Seq<char>) -> Seq<Seq<char>> {
    seq![a, b]
}

pub open spec fn key3(a: Seq<char>, b: Seq<char>, c: Seq<char>) -> Seq<Seq<char>> {
    seq![a, b, c]
}

pub open spec fn key4(a: Seq<char>, b: Seq<char>, c: Seq<char>, d: Seq<char>) -> Seq<Seq<char>> {
    seq![a, b, c, d]
}

pub proof fn lemma_less1(a: Seq<char>, b: Seq<char>)
    ensures
        parts_less(key1(a), key1(b)) == text_less(a, b),
{
    lemma_text_irreflexive(a);
    assert(!parts_less(key1(a).drop_first(), key1(b).drop_first()));
}

proof fn lemma_less2(a: Seq<char>, b: Seq<char>, x: Seq<char>, y: Seq<char>)
    ensures
        parts_less(key2(a, b), key2(x, y)) == (if a != x {
            text_less(a, x)
        } else {
            text_less(b, y)
        }),
{
    lemma_less1(b, y);
    assert(key2(a, b).drop_first() =~= key1(b));
    assert(key2(x, y).drop_first() =~= key1(y));
}

proof fn lemma_less3(
    a: Seq<char>,
    b: Seq<char>,
    c: Seq<char>,
    x: Seq<char>,
    y: Seq<char>,
    z: Seq<char>,
)
    ensures
        parts_less(key3(a, b, c), key3(x, y, z)) == (if a != x {
            text_less(a, x)
        } else if b != y {
            text_less(b, y)
        } else {
            text_less(c, z)
        }),
{
    lemma_less2(b, c, y, z);
    assert(key3(a, b, c).drop_first() =~= key2(b, c));
    assert(key3(x, y, z).drop_first() =~= key2(y, z));
}

pub proof fn lemma_less4(
    a: Seq<char>,
    b: Seq<char>,
    c: Seq<char>,
    d: Seq<char>,
    x: Seq<char>,
    y: Seq<char>,
    z: Seq<char>,
    w: Seq<char>,
)
    ensures
        parts_less(key4(a, b, c, d), key4(x, y, z, w)) == (if a != x {
            text_less(a, x)
        } else if b != y {
            text_less(b, y)
        } else if c != z {
            text_less(c, z)
        } else {
            text_less(d, w)
        }),
{
    lemma_less3(b, c, d, y, z, w);
    assert(key4(a, b, c, d).drop_first() =~= key3(b, c, d));
    assert(key4(x, y, z, w).drop_first() =~= key3(y, z, w));
}

impl MapKey for String {
    open spec fn parts(&self) -> Seq<Seq<char>> {
        key1(self@)
    }

    fn precedes(&self, other: &Self) -> (r: bool) {
        proof {
            lemma_less1(self@, other@);
        }
        less(self, other)
    }

    fn matches(&self, other: &Self) -> (r: bool) {
        proof {
            assert(key1(self@)[0] == self@);
            assert(key1(other@)[0] == other@);
        }
        same(self, other)
    }
}

impl MapKey for (String, String) {
    open spec fn parts(&self) -> Seq<Seq<char>> {
        key2(self.0@, self.1@)
    }

    fn precedes(&self, other: &Self) -> (r: bool) {
        proof {
            lemma_less2(self.0@, self.1@, other.0@, other.1@);
        }
        if !same(&self.0, &other.0) {
            less(&self.0, &other.0)
        } else {
            less(&self.1, &other.1)
        }
    }

    fn matches(&self, other: &Self) -> (r: bool) {
        proof {
            assert(self.parts()[0] == self.0@ && self.parts()[1] == self.1@);
            assert(other.parts()[0] == other.0@ && other.parts()[1] == other.1@);
        }
        same(&self.0, &other.0) && same(&self.1, &other.1)
    }
}

impl MapKey for (String, String, String) {
    open spec fn parts(&self) -> Seq<Seq<char>> {
        key3(self.0@, self.1@, self.2@)
    }

    fn precedes(&self, other: &Self) -> (r: bool) {
        proof {
            lemma_less3(self.0@, self.1@, self.2@, other.0@, other.1@, other.2@);
        }
        if !same(&self.0, &other.0) {
            less(&self.0, &other.0)
        } else if !same(&self.1, &other.1) {
            less(&self.1, &other.1)
        } else {
            less(&self.2, &other.2)
        }
    }

    fn matches(&self, other: &Self) -> (r: bool) {
        proof {
            assert(self.parts()[0] == self.0@ && self.parts()[1] == self.1@ && self.parts()[2]
                == self.2@);
            assert(other.parts()[0] == other.0@ && other.parts()[1] == other.1@
                && other.parts()[2] == other.2@);
        }
        same(&self.0, &other.0) && same(&self.1, &other.1) && same(&self.2, &other.2)
    }
}

/// Records by key, in key order.
#[derive(Debug)]
pub struct Table<K: MapKey, V> {
    entries: Vec<(K, V)>,
}

/// Whether rows are in strictly ascending key order.
pub open spec fn ascending<K: MapKey, V>(rows: Seq<(K, V)>) -> bool {
    forall|i: int, j: int|
        #![trigger rows[i], rows[j]]
        0 <= i < j < rows.len() ==> parts_less(rows[i].0.parts(), rows[j].0.parts())
}

/// Whether some row has the key.
pub open spec fn has_key<K: MapKey, V>(rows: Seq<(K, V)>, key: Seq<Seq<char>>) -> bool {
    exists|i: int| 0 <= i < rows.len() && (#[trigger] rows[i]).0.parts() == key
}

/// The position of a row with the key.
pub open spec fn row_of<K: MapKey, V>(rows: Seq<(K, V)>, key: Seq<Seq<char>>) -> int {
    choose|i: int| 0 <= i < rows.len() && (#[trigger] rows[i]).0.parts() == key
}

/// The mapping rows describe.
pub open spec fn map_of<K: MapKey, V>(rows: Seq<(K, V)>) -> Map<Seq<Seq<char>>, V> {
    Map::new(|key: Seq<Seq<char>>| has_key(rows, key), |key: Seq<Seq<char>>| rows[row_of(rows, key)].1)
}

proof fn lemma_row<K: MapKey, V>(rows: Seq<(K, V)>, i: int)
    requires
        ascending(rows),
        0 <= i < rows.len(),
    ensures
        has_key(rows, rows[i].0.parts()),
        row_of(rows, rows[i].0.parts()) == i,
        map_of(rows).contains_key(rows[i].0.parts()),
        map_of(rows)[rows[i].0.parts()] == rows[i].1,
{
    let key = rows[i].0.parts();
    let j = row_of(rows, key);
    assert(rows[i].0.parts() == key);
    assert(0 <= j < rows.len() && rows[j].0.parts() == key);
    lemma_parts_irreflexive(key);
}

impl<K: MapKey, V> Table<K, V> {
    /// The rows, in key order.
    pub closed spec fn rows(self) -> Seq<(K, V)> {
        self.entries@
    }

    /// The values, in key order.
    pub open spec fn values(self) -> Seq<V> {
        self.rows().map_values(|row: (K, V)| row.1)
    }

    /// Rows are in ascending key order, so no key occurs twice.
    #[verifier::type_invariant]
    pub closed spec fn wf(self) -> bool {
        ascending(self.entries@)
    }

    /// A table holds at most one row per key, in key order.
    pub proof fn lemma_ascending(self)
        requires
            self.wf(),
        ensures
            ascending(self.rows()),
    {
    }

    /// The value at position `i` is the one its key maps to.
    pub proof fn lemma_value(self, i: int)
        requires
            self.wf(),
            0 <= i < self.rows().len(),
        ensures
            self@.contains_key(self.rows()[i].0.parts()),
            self@[self.rows()[i].0.parts()] == self.rows()[i].1,
            self.values().len() == self.rows().len(),
            self.values()[i] == self.rows()[i].1,
    {
        lemma_row(self.rows(), i);
    }

    pub fn new() -> (r: Self)
        ensures
            r.wf(),
            r.rows() == Seq::<(K, V)>::empty(),
            r@ == Map::<Seq<Seq<char>>, V>::empty(),
    {
        let r = Table { entries: Vec::new() };
        proof {
            assert(r@ =~= Map::<Seq<Seq<char>>, V>::empty());
        }
        r
    }

    pub fn len(&self) -> (r: usize)
        ensures
            r == self.rows().len(),
            r == self.values().len(),
    {
        self.entries.len()
    }

    pub fn is_empty(&self) -> (r: bool)
        ensures
            r == (self.rows().len() == 0),
            r == (self.values().len() == 0),
    {
        self.entries.len() == 0
    }

    pub fn key_at(&self, i: usize) -> (r: &K)
        requires
            i < self.rows().len(),
        ensures
            *r == self.rows()[i as int].0,
    {
        &self.entries[i].0
    }

    pub fn value_at(&self, i: usize) -> (r: &V)
        requires
            i < self.values().len(),
        ensures
            *r == self.values()[i as int],
            *r == self.rows()[i as int].1,
    {
        &self.entries[i].1
    }

    pub fn row_at(&self, i: usize) -> (r: &(K, V))
        requires
            i < self.rows().len(),
        ensures
            *r == self.rows()[i as int],
    {
        &self.entries[i]
    }

    /// The first position whose key does not sort before `key`.
    fn position(&self, key: &K) -> (r: usize)
        ensures
            r <= self.entries@.len(),
            forall|i: int| 0 <= i < r ==> parts_less((#[trigger] self.entries@[i]).0.parts(), key.parts()),
            r < self.entries@.len() ==> !parts_less(self.entries@[r as int].0.parts(), key.parts()),
            has_key(self.entries@, key.parts()) <==> r < self.entries@.len()
                && self.entries@[r as int].0.parts() == key.parts(),
    {
        proof {
            use_type_invariant(self);
        }
        let mut i: usize = 0;
        while i < self.entries.len() && self.entries[i].0.precedes(key)
            invariant
                i <= self.entries@.len(),
                forall|j: int| 0 <= j < i ==> parts_less((#[trigger] self.entries@[j]).0.parts(), key.parts()),
            decreases self.entries@.len() - i,
        {
            i += 1;
        }
        proof {
            let rows = self.entries@;
            if has_key(rows, key.parts()) {
                let j = row_of(rows, key.parts());
                lemma_parts_irreflexive(key.parts());
                if i < j {
                    assert(parts_less(rows[i as int].0.parts(), rows[j].0.parts()));
                }
                assert(j == i);
            }
        }
        i
    }

    pub fn get(&self, key: &K) -> (r: Option<&V>)
        ensures
            match r {
                Some(value) => self@.contains_key(key.parts()) && *value == self@[key.parts()],
                None => !self@.contains_key(key.parts()),
            },
    {
        proof {
            use_type_invariant(self);
        }
        let i: usize = self.position(key);
        if i < self.entries.len() && self.entries[i].0.matches(key) {
            proof {
                lemma_row(self.entries@, i as int);
            }
            Some(&self.entries[i].1)
        } else {
            None
        }
    }

    pub fn contains_key(&self, key: &K) -> (r: bool)
        ensures
            r == self@.contains_key(key.parts()),
    {
        self.get(key).is_some()
    }

    /// Map `key` to `value`; returns what it mapped to before.
    pub fn insert(&mut self, key: K, value: V) -> (r: Option<V>)
        ensures
            final(self)@ == old(self)@.insert(key.parts(), value),
            r == (if old(self)@.contains_key(key.parts()) {
                Some(old(self)@[key.parts()])
            } else {
                None
            }),
    {
        proof {
            use_type_invariant(&*self);
        }
        let i: usize = self.position(&key);
        let ghost before = self.entries@;
        let mut entries: Vec<(K, V)> = Vec::new();
        std::mem::swap(&mut entries, &mut self.entries);
        let replaced: Option<V> = if i < entries.len() && entries[i].0.matches(&key) {
            proof {
                lemma_row(before, i as int);
            }
            let row = entries.remove(i);
            Some(row.1)
        } else {
            None
        };
        let ghost rest = entries@;
        entries.insert(i, (key, value));
        proof {
            let rows = entries@;
            assert(rows == rest.insert(i as int, (key, value)));
            assert forall|a: int| 0 <= a < i implies rows[a] == before[a] by {}
            assert forall|a: int| i < a < rows.len() implies parts_less(
                key.parts(),
                (#[trigger] rows[a]).0.parts(),
            ) by {
                let b = if replaced.is_some() {
                    a
                } else {
                    a - 1
                };
                assert(rows[a] == before[b]);
                if replaced.is_some() {
                    assert(parts_less(before[i as int].0.parts(), before[b].0.parts()));
                } else {
                    lemma_parts_total(key.parts(), before[i as int].0.parts());
                    assert(before[i as int].0.parts() != key.parts());
                    if b > i {
                        assert(parts_less(before[i as int].0.parts(), before[b].0.parts()));
                        lemma_parts_transitive(
                            key.parts(),
                            before[i as int].0.parts(),
                            before[b].0.parts(),
                        );
                    }
                }
            }
            assert forall|a: int, b: int|
                #![trigger rows[a], rows[b]]
                0 <= a < b < rows.len() implies parts_less(rows[a].0.parts(), rows[b].0.parts()) by {
                let shift = if replaced.is_some() {
                    0int
                } else {
                    1int
                };
                if b < i {
                    assert(rows[a] == before[a] && rows[b] == before[b]);
                } else if a > i {
                    assert(rows[a] == before[a - shift] && rows[b] == before[b - shift]);
                } else if a < i && b > i {
                    lemma_parts_transitive(rows[a].0.parts(), key.parts(), rows[b].0.parts());
                }
            }
            assert(map_of(rows) =~= map_of(before).insert(key.parts(), value)) by {
                assert forall|k: Seq<Seq<char>>| #[trigger]
                    map_of(rows).contains_key(k) <==> map_of(before).insert(
                        key.parts(),
                        value,
                    ).contains_key(k) by {
                    if has_key(rows, k) {
                        let a = row_of(rows, k);
                        if a != i {
                            let b = if a < i || replaced.is_some() {
                                a
                            } else {
                                a - 1
                            };
                            assert(before[b] == rows[a]);
                        }
                    }
                    if k == key.parts() {
                        assert(rows[i as int].0.parts() == k);
                    } else if has_key(before, k) {
                        let b = row_of(before, k);
                        let a = if b < i || replaced.is_some() {
                            b
                        } else {
                            b + 1
                        };
                        assert(rows[a] == before[b]);
                    }
                }
                assert forall|k: Seq<Seq<char>>| #[trigger]
                    map_of(rows).contains_key(k) implies map_of(rows)[k] == map_of(
                    before,
                ).insert(key.parts(), value)[k] by {
                    let a = row_of(rows, k);
                    if a == i {
                        assert(k == key.parts());
                    } else {
                        let b = if a < i || replaced.is_some() {
                            a
                        } else {
                            a - 1
                        };
                        assert(before[b] == rows[a]);
                        lemma_row(before, b);
                        lemma_parts_irreflexive(k);
                        assert(k != key.parts());
                    }
                }
            }
        }
        self.entries = entries;
        replaced
    }

    /// Forget the first row, in key order.
    pub fn remove_first(&mut self)
        requires
            old(self).rows().len() > 0,
        ensures
            final(self).rows() == old(self).rows().skip(1),
    {
        proof {
            use_type_invariant(&*self);
        }
        let ghost before = self.entries@;
        let mut entries: Vec<(K, V)> = Vec::new();
        std::mem::swap(&mut entries, &mut self.entries);
        entries.remove(0);
        proof {
            assert(entries@ =~= before.skip(1));
        }
        self.entries = entries;
    }

    /// Forget `key`; returns what it mapped to.
    pub fn remove(&mut self, key: &K) -> (r: Option<V>)
        ensures
            final(self)@ == old(self)@.remove(key.parts()),
            r == (if old(self)@.contains_key(key.parts()) {
                Some(old(self)@[key.parts()])
            } else {
                None
            }),
    {
        proof {
            use_type_invariant(&*self);
        }
        let i: usize = self.position(key);
        let ghost before = self.entries@;
        if i < self.entries.len() && self.entries[i].0.matches(key) {
            let mut entries: Vec<(K, V)> = Vec::new();
            std::mem::swap(&mut entries, &mut self.entries);
            proof {
                lemma_row(before, i as int);
            }
            let row = entries.remove(i);
            proof {
                let rows = entries@;
                assert(rows == before.remove(i as int));
                assert(map_of(rows) =~= map_of(before).remove(key.parts())) by {
                    assert forall|k: Seq<Seq<char>>| #[trigger]
                        map_of(rows).contains_key(k) <==> map_of(before).remove(
                            key.parts(),
                        ).contains_key(k) by {
                        if has_key(rows, k) {
                            let a = row_of(rows, k);
                            let b = if a < i {
                                a
                            } else {
                                a + 1
                            };
                            assert(before[b] == rows[a]);
                            lemma_parts_irreflexive(k);
                            assert(k != key.parts());
                        }
                        if has_key(before, k) && k != key.parts() {
                            let b = row_of(before, k);
                            let a = if b < i {
                                b
                            } else {
                                b - 1
                            };
                            assert(rows[a] == before[b]);
                        }
                    }
                    assert forall|k: Seq<Seq<char>>| #[trigger]
                        map_of(rows).contains_key(k) implies map_of(rows)[k] == map_of(
                        before,
                    ).remove(key.parts())[k] by {
                        let a = row_of(rows, k);
                        let b = if a < i {
                            a
                        } else {
                            a + 1
                        };
                        assert(before[b] == rows[a]);
                        lemma_row(before, b);
                    }
                }
            }
            self.entries = entries;
            Some(row.1)
        } else {
            proof {
                assert(map_of(before).remove(key.parts()) =~= map_of(before));
            }
            None
        }
    }
}

/// Which rows of a table are kept.
pub trait Keep<K: MapKey, V> {
    spec fn keeps(&self, key: Seq<Seq<char>>, value: V) -> bool;

    fn keep(&self, key: &K, value: &V) -> (r: bool)
        ensures
            r == self.keeps(key.parts(), *value),
    ;
}

/// The rows among the first `n` that are kept.
spec fn kept_rows<K: MapKey, V, P: Keep<K, V>>(rows: Seq<(K, V)>, keep: P, n: nat) -> Seq<(K, V)>
    decreases n,
{
    if n == 0 {
        Seq::empty()
    } else {
        let before = kept_rows(rows, keep, (n - 1) as nat);
        if keep.keeps(rows[n - 1].0.parts(), rows[n - 1].1) {
            before.push(rows[n - 1])
        } else {
            before
        }
    }
}

/// Whether a row is one of the first `n` that are kept.
spec fn is_kept<K: MapKey, V, P: Keep<K, V>>(rows: Seq<(K, V)>, keep: P, n: nat, row: (K, V)) -> bool {
    exists|i: int|
        0 <= i < n && (#[trigger] rows[i]) == row && keep.keeps(rows[i].0.parts(), rows[i].1)
}

proof fn lemma_kept<K: MapKey, V, P: Keep<K, V>>(rows: Seq<(K, V)>, keep: P, n: nat)
    requires
        ascending(rows),
        n <= rows.len(),
    ensures
        ascending(kept_rows(rows, keep, n)),
        forall|a: int|
            0 <= a < kept_rows(rows, keep, n).len() ==> is_kept(
                rows,
                keep,
                n,
                #[trigger] kept_rows(rows, keep, n)[a],
            ),
        forall|i: int|
            0 <= i < n && keep.keeps((#[trigger] rows[i]).0.parts(), rows[i].1) ==> exists|a: int|
                0 <= a < kept_rows(rows, keep, n).len() && (#[trigger] kept_rows(rows, keep, n)[a])
                    == rows[i],
    decreases n,
{
    if n > 0 {
        lemma_kept(rows, keep, (n - 1) as nat);
        let before = kept_rows(rows, keep, (n - 1) as nat);
        let after = kept_rows(rows, keep, n);
        assert forall|a: int| 0 <= a < after.len() implies is_kept(
            rows,
            keep,
            n,
            #[trigger] after[a],
        ) by {
            if a < before.len() {
                assert(after[a] == before[a]);
                assert(is_kept(rows, keep, (n - 1) as nat, before[a]));
                let i = choose|i: int|
                    0 <= i < n - 1 && (#[trigger] rows[i]) == before[a] && keep.keeps(
                        rows[i].0.parts(),
                        rows[i].1,
                    );
                assert(rows[i] == after[a]);
            } else {
                assert(after[a] == rows[n - 1]);
            }
        }
        assert forall|i: int|
            0 <= i < n && keep.keeps((#[trigger] rows[i]).0.parts(), rows[i].1) implies exists|
            a: int,
        |
            0 <= a < after.len() && (#[trigger] after[a]) == rows[i] by {
            if i == n - 1 {
                assert(after[after.len() - 1] == rows[i]);
            } else {
                let a = choose|a: int| 0 <= a < before.len() && (#[trigger] before[a]) == rows[i];
                assert(after[a] == rows[i]);
            }
        }
        assert forall|a: int, b: int|
            #![trigger after[a], after[b]]
            0 <= a < b < after.len() implies parts_less(after[a].0.parts(), after[b].0.parts()) by {
            if b < before.len() {
                assert(after[a] == before[a] && after[b] == before[b]);
            } else {
                assert(after[a] == before[a]);
                assert(is_kept(rows, keep, (n - 1) as nat, before[a]));
                let i = choose|i: int|
                    0 <= i < n - 1 && (#[trigger] rows[i]) == before[a] && keep.keeps(
                        rows[i].0.parts(),
                        rows[i].1,
                    );
                assert(after[b] == rows[n - 1]);
            }
        }
    }
}

impl<K: MapKey, V> Table<K, V> {
    /// Keep only the rows that meet a test.
    pub fn retain<P: Keep<K, V>>(&mut self, keep: &P)
        ensures
            forall|key: Seq<Seq<char>>| #[trigger]
                final(self)@.contains_key(key) <==> old(self)@.contains_key(key) && keep.keeps(
                    key,
                    old(self)@[key],
                ),
            forall|key: Seq<Seq<char>>| #[trigger]
                final(self)@.contains_key(key) ==> final(self)@[key] == old(self)@[key],
    {
        proof {
            use_type_invariant(&*self);
        }
        let ghost rows = self.entries@;
        let mut entries: Vec<(K, V)> = Vec::new();
        std::mem::swap(&mut entries, &mut self.entries);
        let mut turned: Vec<(K, V)> = Vec::new();
        while entries.len() > 0
            invariant
                entries@.len() + turned@.len() == rows.len(),
                entries@ == rows.take(entries@.len() as int),
                forall|k: int|
                    0 <= k < turned@.len() ==> (#[trigger] turned@[k]) == rows[rows.len() - 1 - k],
            decreases entries@.len(),
        {
            if let Some(row) = entries.pop() {
                proof {
                    assert(entries@ =~= rows.take(entries@.len() as int));
                }
                turned.push(row);
            }
        }
        let mut kept: Vec<(K, V)> = Vec::new();
        while turned.len() > 0
            invariant
                turned@.len() <= rows.len(),
                forall|k: int|
                    0 <= k < turned@.len() ==> (#[trigger] turned@[k]) == rows[rows.len() - 1 - k],
                kept@ == kept_rows(rows, *keep, (rows.len() - turned@.len()) as nat),
            decreases turned@.len(),
        {
            if let Some(row) = turned.pop() {
                if keep.keep(&row.0, &row.1) {
                    kept.push(row);
                }
            }
        }
        proof {
            lemma_kept(rows, *keep, rows.len());
            let after = kept@;
            assert forall|key: Seq<Seq<char>>| #[trigger]
                map_of(after).contains_key(key) <==> map_of(rows).contains_key(key) && keep.keeps(
                    key,
                    map_of(rows)[key],
                ) by {
                if has_key(after, key) {
                    let a = row_of(after, key);
                    assert(is_kept(rows, *keep, rows.len(), after[a]));
                    let i = choose|i: int|
                        0 <= i < rows.len() && (#[trigger] rows[i]) == after[a] && keep.keeps(
                            rows[i].0.parts(),
                            rows[i].1,
                        );
                    lemma_row(rows, i);
                }
                if has_key(rows, key) && keep.keeps(key, map_of(rows)[key]) {
                    let i = row_of(rows, key);
                    lemma_row(rows, i);
                    let a = choose|a: int| 0 <= a < after.len() && (#[trigger] after[a]) == rows[i];
                    assert(after[a].0.parts() == key);
                }
            }
            assert forall|key: Seq<Seq<char>>| #[trigger]
                map_of(after).contains_key(key) implies map_of(after)[key] == map_of(rows)[key] by {
                let a = row_of(after, key);
                assert(is_kept(rows, *keep, rows.len(), after[a]));
                let i = choose|i: int|
                    0 <= i < rows.len() && (#[trigger] rows[i]) == after[a] && keep.keeps(
                        rows[i].0.parts(),
                        rows[i].1,
                    );
                lemma_row(rows, i);
                lemma_row(after, a);
            }
        }
        self.entries = kept;
    }
}

impl<K: MapKey, V> View for Table<K, V> {
    type V = Map<Seq<Seq<char>>, V>;

    open spec fn view(&self) -> Map<Seq<Seq<char>>, V> {
        map_of(self.rows())
    }
}

impl<V> Table<String, V> {
    /// The value of a one-part key.
    pub fn at(&self, key: &str) -> (r: Option<&V>)
        ensures
            match r {
                Some(value) => self@.contains_key(key1(key@)) && *value == self@[key1(key@)],
                None => !self@.contains_key(key1(key@)),
            },
    {
        self.get(&key.to_owned())
    }
}

/// Whether names are in strictly ascending order, so none occurs twice.
pub open spec fn in_order(names: Seq<String>) -> bool {
    forall|i: int, j: int|
        0 <= i < j < names.len() ==> text_less((#[trigger] names[i])@, (#[trigger] names[j])@)
}

impl Table<String, bool> {
    /// The keys of a table that serves as a set of names, in order.
    pub fn names(&self) -> (r: Vec<String>)
        ensures
            forall|name: Seq<char>| #[trigger]
                texts(r@).contains(name) <==> self@.contains_key(key1(name)),
            in_order(r@),
    {
        proof {
            use_type_invariant(self);
        }
        let ghost rows = self.entries@;
        let mut r: Vec<String> = Vec::new();
        let mut i: usize = 0;
        while i < self.entries.len()
            invariant
                i <= rows.len(),
                r@.len() == i,
                forall|j: int| 0 <= j < i ==> (#[trigger] r@[j])@ == rows[j].0@,
            decreases rows.len() - i,
        {
            r.push(self.entries[i].0.clone());
            i += 1;
        }
        proof {
            assert forall|a: int, b: int| 0 <= a < b < r@.len() implies text_less(
                (#[trigger] r@[a])@,
                (#[trigger] r@[b])@,
            ) by {
                assert(parts_less(rows[a].0.parts(), rows[b].0.parts()));
                lemma_less1(rows[a].0@, rows[b].0@);
            }
            assert forall|name: Seq<char>| #[trigger]
                texts(r@).contains(name) <==> self@.contains_key(key1(name)) by {
                assert(key1(name)[0] == name);
                if texts(r@).contains(name) {
                    let k = choose|k: int| 0 <= k < texts(r@).len() && texts(r@)[k] == name;
                    assert(r@[k]@ == name);
                    assert(rows[k].0.parts() == key1(name));
                }
                if has_key(rows, key1(name)) {
                    let k = row_of(rows, key1(name));
                    assert(rows[k].0.parts()[0] == key1(name)[0]);
                    assert(texts(r@)[k] == name);
                }
            }
        }
        r
    }
}

/// A value that can be copied as it is.
pub trait Duplicate: Sized {
    fn duplicate(&self) -> (r: Self)
        ensures
            r == *self,
    ;
}

impl Duplicate for String {
    fn duplicate(&self) -> (r: Self) {
        self.clone()
    }
}

impl<V: Duplicate> Table<String, V> {
    pub fn copy(&self) -> (r: Self)
        ensures
            r.rows() == self.rows(),
            r@ == self@,
            r.wf(),
    {
        proof {
            use_type_invariant(self);
        }
        let mut entries: Vec<(String, V)> = Vec::new();
        let mut i: usize = 0;
        while i < self.entries.len()
            invariant
                i <= self.entries@.len(),
                entries@ == self.entries@.take(i as int),
            decreases self.entries@.len() - i,
        {
            entries.push((self.entries[i].0.clone(), self.entries[i].1.duplicate()));
            proof {
                assert(self.entries@.take(i + 1) =~= self.entries@.take(i as int).push(
                    self.entries@[i as int],
                ));
            }
            i += 1;
        }
        proof {
            assert(self.entries@.take(i as int) =~= self.entries@);
        }
        Table { entries }
    }
}

// ---- Searching --------------------------------------------------------------

/// A test on items, with the predicate it decides.
pub trait Test<T> {
    spec fn pred(&self) -> spec_fn(T) -> bool;

    fn test(&self, item: &T) -> (r: bool)
        ensures
            r == (self.pred())(*item),
    ;
}

/// The position of the first value, in key order, that meets a test.
pub fn find<K: MapKey, V, P: Test<V>>(table: &Table<K, V>, test: &P) -> (r: Option<usize>)
    ensures
        match r {
            Some(i) => i < table.values().len() && first(table.values(), test.pred()) == Some(i as int)
                && (test.pred())(table.values()[i as int]),
            None => first(table.values(), test.pred()) is None,
        },
{
    let mut i: usize = 0;
    while i < table.len()
        invariant
            i <= table.values().len(),
            first(table.values(), test.pred()) == first_from(table.values(), test.pred(), i as int),
        decreases table.values().len() - i,
    {
        if test.test(table.value_at(i)) {
            return Some(i);
        }
        i += 1;
    }
    None
}

/// The first value, in key order, that meets a test.
pub fn find_value<'a, K: MapKey, V, P: Test<V>>(table: &'a Table<K, V>, test: &P) -> (r: Option<
    &'a V,
>)
    ensures
        match r {
            Some(value) => found(table.values(), test.pred()) == Some(*value),
            None => found(table.values(), test.pred()) is None,
        },
{
    match find(table, test) {
        Some(i) => Some(table.value_at(i)),
        None => None,
    }
}

/// The position of the first item that meets a test.
pub fn find_in<T, P: Test<T>>(items: &Vec<T>, test: &P) -> (r: Option<usize>)
    ensures
        match r {
            Some(i) => i < items@.len() && first(items@, test.pred()) == Some(i as int)
                && (test.pred())(items@[i as int]),
            None => first(items@, test.pred()) is None,
        },
{
    let mut i: usize = 0;
    while i < items.len()
        invariant
            i <= items@.len(),
            first(items@, test.pred()) == first_from(items@, test.pred(), i as int),
        decreases items@.len() - i,
    {
        if test.test(&items[i]) {
            return Some(i);
        }
        i += 1;
    }
    None
}

/// The first item that meets a test.
pub fn find_item<'a, T, P: Test<T>>(items: &'a Vec<T>, test: &P) -> (r: Option<&'a T>)
    ensures
        match r {
            Some(item) => found(items@, test.pred()) == Some(*item),
            None => found(items@, test.pred()) is None,
        },
{
    match find_in(items, test) {
        Some(i) => Some(&items[i]),
        None => None,
    }
}

/// The positions of every value, in key order, that meets a test.
pub fn select<K: MapKey, V, P: Test<V>>(table: &Table<K, V>, test: &P) -> (r: Vec<usize>)
    ensures
        positions(r@) == matching(table.values(), test.pred()),
        forall|i: int|
            0 <= i < r@.len() ==> (#[trigger] r@[i]) < table.values().len() && (test.pred())(
                table.values()[r@[i] as int],
            ),
{
    let mut r: Vec<usize> = Vec::new();
    let mut i: usize = 0;
    proof {
        assert(positions(r@) =~= matching_upto(table.values(), test.pred(), 0));
    }
    while i < table.len()
        invariant
            i <= table.values().len(),
            positions(r@) == matching_upto(table.values(), test.pred(), i as nat),
            forall|j: int|
                0 <= j < r@.len() ==> (#[trigger] r@[j]) < table.values().len() && (test.pred())(
                    table.values()[r@[j] as int],
                ),
        decreases table.values().len() - i,
    {
        if test.test(table.value_at(i)) {
            let ghost before = r@;
            r.push(i);
            proof {
                assert(positions(r@) =~= positions(before).push(i as int));
            }
        }
        i += 1;
    }
    r
}

/// The positions of every row, in key order, that meets a test.
pub fn select_rows<K: MapKey, V, P: Test<(K, V)>>(table: &Table<K, V>, test: &P) -> (r: Vec<usize>)
    ensures
        positions(r@) == matching(table.rows(), test.pred()),
        forall|i: int|
            0 <= i < r@.len() ==> (#[trigger] r@[i]) < table.rows().len() && (test.pred())(
                table.rows()[r@[i] as int],
            ),
{
    let mut r: Vec<usize> = Vec::new();
    let mut i: usize = 0;
    proof {
        assert(positions(r@) =~= matching_upto(table.rows(), test.pred(), 0));
    }
    while i < table.len()
        invariant
            i <= table.rows().len(),
            positions(r@) == matching_upto(table.rows(), test.pred(), i as nat),
            forall|j: int|
                0 <= j < r@.len() ==> (#[trigger] r@[j]) < table.rows().len() && (test.pred())(
                    table.rows()[r@[j] as int],
                ),
        decreases table.rows().len() - i,
    {
        if test.test(table.row_at(i)) {
            let ghost before = r@;
            r.push(i);
            proof {
                assert(positions(r@) =~= positions(before).push(i as int));
            }
        }
        i += 1;
    }
    r
}

} // verus!
