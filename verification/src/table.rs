//! Tables of rows under unique keys, in the order in which the keys first came.
use crate::text::same;
use vstd::prelude::*;
use vstd::string::*;

verus! {

/// The first place, from `i` on, of a key; the length where there is none.
pub open spec fn place_from<K, R>(rows: Seq<(K, R)>, key: K, i: int) -> int
    decreases rows.len() - i,
{
    if i >= rows.len() {
        rows.len() as int
    } else if rows[i].0 == key {
        i
    } else {
        place_from(rows, key, i + 1)
    }
}

/// The place of a key; the number of rows where there is none.
pub open spec fn place<K, R>(rows: Seq<(K, R)>, key: K) -> int {
    place_from(rows, key, 0)
}

/// The row under a key.
pub open spec fn lookup<K, R>(rows: Seq<(K, R)>, key: K) -> Option<R> {
    if place(rows, key) < rows.len() {
        Some(rows[place(rows, key)].1)
    } else {
        None
    }
}

/// The rows after the row under a key is replaced, or added at the end.
pub open spec fn upsert<K, R>(rows: Seq<(K, R)>, key: K, row: R) -> Seq<(K, R)> {
    if place(rows, key) < rows.len() {
        rows.update(place(rows, key), (key, row))
    } else {
        rows.push((key, row))
    }
}

/// The rows without the row under a key.
pub open spec fn without<K, R>(rows: Seq<(K, R)>, key: K) -> Seq<(K, R)> {
    if place(rows, key) < rows.len() {
        rows.remove(place(rows, key))
    } else {
        rows
    }
}

/// Whether no key occurs twice.
pub open spec fn unique<K, R>(rows: Seq<(K, R)>) -> bool {
    forall|i: int, j: int|
        0 <= i < j < rows.len() ==> (#[trigger] rows[i]).0 != (#[trigger] rows[j]).0
}

/// What `place_from` finds.
pub proof fn place_from_rule<K, R>(rows: Seq<(K, R)>, key: K, i: int)
    requires
        0 <= i <= rows.len(),
    ensures
        i <= place_from(rows, key, i) <= rows.len(),
        forall|k: int| i <= k < place_from(rows, key, i) ==> (#[trigger] rows[k]).0 != key,
        place_from(rows, key, i) < rows.len() ==> rows[place_from(rows, key, i)].0 == key,
    decreases rows.len() - i,
{
    if i < rows.len() && rows[i].0 != key {
        place_from_rule(rows, key, i + 1);
    }
}

/// A place that holds a key, with no earlier one that does, is the place of the key.
pub proof fn place_is<K, R>(rows: Seq<(K, R)>, key: K, at: int)
    requires
        0 <= at <= rows.len(),
        forall|k: int| 0 <= k < at ==> (#[trigger] rows[k]).0 != key,
        at < rows.len() ==> rows[at].0 == key,
    ensures
        place(rows, key) == at,
{
    place_from_rule(rows, key, 0);
    let p = place(rows, key);
    if p < at {
        assert(rows[p].0 != key);
    } else if at < p {
        assert(rows[at].0 != key);
    }
}

/// A row that is written is read back, and every other row is as it was; keys stay unique.
pub proof fn read_after_write<K, R>(rows: Seq<(K, R)>, key: K, row: R, other: K)
    ensures
        lookup(upsert(rows, key, row), key) == Some(row),
        other != key ==> lookup(upsert(rows, key, row), other) == lookup(rows, other),
        unique(rows) ==> unique(upsert(rows, key, row)),
        upsert(rows, key, row).len() == rows.len() + if lookup(rows, key) is Some {
            0int
        } else {
            1
        },
{
    let new = upsert(rows, key, row);
    let p = place(rows, key);
    place_from_rule(rows, key, 0);
    place_from_rule(rows, other, 0);
    assert forall|k: int| 0 <= k < p implies (#[trigger] new[k]).0 != key by {
        assert(rows[k].0 != key);
    }
    place_is(new, key, p);
    if other != key {
        let q = place(rows, other);
        let r = if q < rows.len() { q } else { new.len() as int };
        assert forall|k: int| 0 <= k < r implies (#[trigger] new[k]).0 != other by {
            if k < rows.len() {
                assert(rows[k].0 != other || k == p);
                if k != p {
                    assert(new[k] == rows[k]);
                }
            }
        }
        if q < rows.len() {
            assert(q != p);
            assert(new[q] == rows[q]);
        }
        place_is(new, other, r);
    }
    if unique(rows) {
        assert forall|i: int, j: int| 0 <= i < j < new.len() implies (#[trigger] new[i]).0 != (
        #[trigger] new[j]).0 by {
            if j < rows.len() {
                assert(new[i].0 == rows[i].0 && new[j].0 == rows[j].0);
            } else {
                assert(rows[i].0 != key);
            }
        }
    }
}

/// In a table with unique keys a removed row is gone, and every other row is as it was.
pub proof fn read_after_removal<K, R>(rows: Seq<(K, R)>, key: K, other: K)
    requires
        unique(rows),
    ensures
        lookup(without(rows, key), key) is None,
        other != key ==> lookup(without(rows, key), other) == lookup(rows, other),
        unique(without(rows, key)),
{
    let new = without(rows, key);
    let p = place(rows, key);
    place_from_rule(rows, key, 0);
    place_from_rule(rows, other, 0);
    if p < rows.len() {
        assert forall|k: int| 0 <= k < new.len() implies #[trigger] new[k] == (if k < p {
            rows[k]
        } else {
            rows[k + 1]
        }) by {}
        assert forall|k: int| 0 <= k < new.len() implies (#[trigger] new[k]).0 != key by {
            if k < p {
                assert(rows[k].0 != rows[p].0);
            } else {
                assert(rows[p].0 != rows[k + 1].0);
            }
        }
        place_is(new, key, new.len() as int);
        if other != key {
            let q = place(rows, other);
            let t = if q == rows.len() {
                new.len() as int
            } else if q < p {
                q
            } else {
                q - 1
            };
            assert forall|k: int| 0 <= k < t implies (#[trigger] new[k]).0 != other by {
                if k < p {
                    assert(rows[k].0 != other);
                } else {
                    assert(rows[k + 1].0 != other);
                }
            }
            place_is(new, other, t);
        }
        assert forall|i: int, j: int| 0 <= i < j < new.len() implies (#[trigger] new[i]).0 != (
        #[trigger] new[j]).0 by {
            let a = if i < p { i } else { i + 1 };
            let b = if j < p { j } else { j + 1 };
            assert(rows[a].0 != rows[b].0);
        }
    }
}

/// In a table with unique keys every row is the one under its key.
pub proof fn lookup_at<K, R>(rows: Seq<(K, R)>, i: int)
    requires
        unique(rows),
        0 <= i < rows.len(),
    ensures
        lookup(rows, rows[i].0) == Some(rows[i].1),
{
    assert forall|k: int| 0 <= k < i implies (#[trigger] rows[k]).0 != rows[i].0 by {}
    place_is(rows, rows[i].0, i);
}

/// Rows under unique text keys.
#[derive(Debug)]
pub struct Table<R> {
    rows: Vec<(String, R)>,
}

impl<R> Table<R> {
    #[verifier::type_invariant]
    spec fn keyed(self) -> bool {
        forall|i: int, j: int|
            0 <= i < j < self.rows@.len() ==> (#[trigger] self.rows@[i]).0@ != (
            #[trigger] self.rows@[j]).0@
    }
}

impl<R: View> View for Table<R> {
    type V = Seq<(Seq<char>, R::V)>;

    closed spec fn view(&self) -> Seq<(Seq<char>, R::V)> {
        self.rows@.map_values(|p: (String, R)| (p.0@, p.1@))
    }
}

impl<R: View> Table<R> {
    /// A table with no rows.
    pub fn new() -> (r: Self)
        ensures
            r@ == Seq::<(Seq<char>, R::V)>::empty(),
    {
        let r = Table { rows: Vec::new() };
        proof {
            assert(r@ =~= Seq::<(Seq<char>, R::V)>::empty());
        }
        r
    }

    /// How many rows there are. No key occurs twice.
    pub fn len(&self) -> (r: usize)
        ensures
            r == self@.len(),
            unique(self@),
    {
        proof {
            use_type_invariant(self);
            assert forall|i: int, j: int| 0 <= i < j < self@.len() implies (#[trigger] self@[i]).0
                != (#[trigger] self@[j]).0 by {
                assert(self.rows@[i].0@ != self.rows@[j].0@);
            }
        }
        self.rows.len()
    }

    /// The key of the row at a place.
    pub fn key_at(&self, i: usize) -> (r: &String)
        requires
            i < self@.len(),
        ensures
            r@ == self@[i as int].0,
    {
        &self.rows[i].0
    }

    /// The row at a place.
    pub fn row_at(&self, i: usize) -> (r: &R)
        requires
            i < self@.len(),
        ensures
            r@ == self@[i as int].1,
    {
        &self.rows[i].1
    }

    fn find(&self, key: &str) -> (r: usize)
        ensures
            r == place(self@, key@),
            r <= self@.len(),
    {
        let mut i: usize = 0;
        while i < self.rows.len()
            invariant
                i <= self.rows.len(),
                self@.len() == self.rows.len(),
                forall|k: int| 0 <= k < i ==> (#[trigger] self@[k]).0 != key@,
            decreases self.rows.len() - i,
        {
            proof {
                assert(self@[i as int].0 == self.rows@[i as int].0@);
            }
            if same(&self.rows[i].0, key) {
                proof {
                    place_is(self@, key@, i as int);
                }
                return i;
            }
            i += 1;
        }
        proof {
            place_is(self@, key@, i as int);
        }
        i
    }

    /// Whether there is a row under a key.
    pub fn has(&self, key: &str) -> (r: bool)
        ensures
            r == (lookup(self@, key@) is Some),
    {
        self.find(key) < self.rows.len()
    }

    /// The row under a key.
    pub fn get(&self, key: &str) -> (r: Option<&R>)
        ensures
            match r {
                Some(row) => lookup(self@, key@) == Some(row@),
                None => lookup(self@, key@) is None,
            },
    {
        let i = self.find(key);
        if i < self.rows.len() {
            Some(&self.rows[i].1)
        } else {
            None
        }
    }

    /// Replaces the row under a key, or adds one at the end.
    pub fn set(&mut self, key: &str, row: R)
        ensures
            final(self)@ == upsert(old(self)@, key@, row@),
    {
        let i = self.find(key);
        let ghost before = self@;
        let ghost held = self.rows@;
        proof {
            use_type_invariant(&*self);
            place_from_rule(before, key@, 0);
            assert forall|k: int| 0 <= k < i implies (#[trigger] held[k]).0@ != key@ by {
                assert(before[k].0 != key@);
            }
            if i < before.len() {
                assert(before[i as int].0 == held[i as int].0@);
            }
        }
        let mut rows: Vec<(String, R)> = Vec::new();
        std::mem::swap(&mut self.rows, &mut rows);
        if i < rows.len() {
            rows.set(i, (key.to_owned(), row));
        } else {
            rows.push((key.to_owned(), row));
        }
        self.rows = rows;
        proof {
            assert(self@ =~= upsert(before, key@, row@));
        }
    }

    /// Takes the row under a key out.
    pub fn remove(&mut self, key: &str) -> (r: Option<R>)
        ensures
            final(self)@ == without(old(self)@, key@),
            match r {
                Some(row) => lookup(old(self)@, key@) == Some(row@),
                None => lookup(old(self)@, key@) is None,
            },
    {
        let i = self.find(key);
        if i == self.rows.len() {
            return None;
        }
        let ghost before = self@;
        let ghost held = self.rows@;
        proof {
            use_type_invariant(&*self);
            assert forall|k: int, j: int| 0 <= k < j < held.len() - 1 implies (
            #[trigger] held.remove(i as int)[k]).0@ != (#[trigger] held.remove(i as int)[j]).0@ by {
                let a = if k < i { k } else { k + 1 };
                let b = if j < i { j } else { j + 1 };
                assert(held[a].0@ != held[b].0@);
            }
        }
        let mut rows: Vec<(String, R)> = Vec::new();
        std::mem::swap(&mut self.rows, &mut rows);
        let (_, row) = rows.remove(i);
        self.rows = rows;
        proof {
            assert(self@ =~= before.remove(i as int));
        }
        Some(row)
    }
}

/// Rows under unique numbers.
#[derive(Debug)]
pub struct IdTable<R> {
    rows: Vec<(u64, R)>,
}

impl<R> IdTable<R> {
    #[verifier::type_invariant]
    spec fn keyed(self) -> bool {
        forall|i: int, j: int|
            0 <= i < j < self.rows@.len() ==> (#[trigger] self.rows@[i]).0 != (
            #[trigger] self.rows@[j]).0
    }
}

impl<R: View> View for IdTable<R> {
    type V = Seq<(u64, R::V)>;

    closed spec fn view(&self) -> Seq<(u64, R::V)> {
        self.rows@.map_values(|p: (u64, R)| (p.0, p.1@))
    }
}

impl<R: View> IdTable<R> {
    /// A table with no rows.
    pub fn new() -> (r: Self)
        ensures
            r@ == Seq::<(u64, R::V)>::empty(),
    {
        let r = IdTable { rows: Vec::new() };
        proof {
            assert(r@ =~= Seq::<(u64, R::V)>::empty());
        }
        r
    }

    /// How many rows there are. No key occurs twice.
    pub fn len(&self) -> (r: usize)
        ensures
            r == self@.len(),
            unique(self@),
    {
        proof {
            use_type_invariant(self);
            assert forall|i: int, j: int| 0 <= i < j < self@.len() implies (#[trigger] self@[i]).0
                != (#[trigger] self@[j]).0 by {
                assert(self.rows@[i].0 != self.rows@[j].0);
            }
        }
        self.rows.len()
    }

    /// The key of the row at a place.
    pub fn key_at(&self, i: usize) -> (r: u64)
        requires
            i < self@.len(),
        ensures
            r == self@[i as int].0,
    {
        self.rows[i].0
    }

    /// The row at a place.
    pub fn row_at(&self, i: usize) -> (r: &R)
        requires
            i < self@.len(),
        ensures
            r@ == self@[i as int].1,
    {
        &self.rows[i].1
    }

    fn find(&self, key: u64) -> (r: usize)
        ensures
            r == place(self@, key),
            r <= self@.len(),
    {
        let mut i: usize = 0;
        while i < self.rows.len()
            invariant
                i <= self.rows.len(),
                self@.len() == self.rows.len(),
                forall|k: int| 0 <= k < i ==> (#[trigger] self@[k]).0 != key,
            decreases self.rows.len() - i,
        {
            proof {
                assert(self@[i as int].0 == self.rows@[i as int].0);
            }
            if self.rows[i].0 == key {
                proof {
                    place_is(self@, key, i as int);
                }
                return i;
            }
            i += 1;
        }
        proof {
            place_is(self@, key, i as int);
        }
        i
    }

    /// Whether there is a row under a key.
    pub fn has(&self, key: u64) -> (r: bool)
        ensures
            r == (lookup(self@, key) is Some),
    {
        self.find(key) < self.rows.len()
    }

    /// The row under a key.
    pub fn get(&self, key: u64) -> (r: Option<&R>)
        ensures
            match r {
                Some(row) => lookup(self@, key) == Some(row@),
                None => lookup(self@, key) is None,
            },
    {
        let i = self.find(key);
        if i < self.rows.len() {
            Some(&self.rows[i].1)
        } else {
            None
        }
    }

    /// Replaces the row under a key, or adds one at the end.
    pub fn set(&mut self, key: u64, row: R)
        ensures
            final(self)@ == upsert(old(self)@, key, row@),
    {
        let i = self.find(key);
        let ghost before = self@;
        let ghost held = self.rows@;
        proof {
            use_type_invariant(&*self);
            place_from_rule(before, key, 0);
            assert forall|k: int| 0 <= k < i implies (#[trigger] held[k]).0 != key by {
                assert(before[k].0 != key);
            }
            if i < before.len() {
                assert(before[i as int].0 == held[i as int].0);
            }
        }
        let mut rows: Vec<(u64, R)> = Vec::new();
        std::mem::swap(&mut self.rows, &mut rows);
        if i < rows.len() {
            rows.set(i, (key, row));
        } else {
            rows.push((key, row));
        }
        self.rows = rows;
        proof {
            assert(self@ =~= upsert(before, key, row@));
        }
    }
}

} // verus!
