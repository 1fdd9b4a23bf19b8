//! A small map from numbers to values that keeps its rows in the order they came.
use vstd::prelude::*;

verus! {

/// Rows of a number and a value; no number has two.
#[derive(Debug)]
pub struct Table<V> {
    pub rows: Vec<(u64, V)>,
}

/// Row `i` is the row of `k`.
pub open spec fn row_of<V>(rows: Seq<(u64, V)>, k: u64, i: int) -> bool {
    0 <= i < rows.len() && rows[i].0 == k
}

/// The numbers that have a row.
pub open spec fn has_row<V>(rows: Seq<(u64, V)>, k: u64) -> bool {
    exists|i: int| #[trigger] row_of(rows, k, i)
}

/// No number has two rows.
pub open spec fn unique_rows<V>(rows: Seq<(u64, V)>) -> bool {
    forall|i: int, j: int|
        0 <= i < rows.len() && 0 <= j < rows.len() && i != j ==> (#[trigger] rows[i]).0 != (
        #[trigger] rows[j]).0
}

/// Rows as a map.
pub open spec fn rows_map<V>(rows: Seq<(u64, V)>) -> Map<u64, V> {
    Map::new(
        |k: u64| has_row(rows, k),
        |k: u64| rows[choose|i: int| #[trigger] row_of(rows, k, i)].1,
    )
}

impl<V> View for Table<V> {
    type V = Map<u64, V>;

    open spec fn view(&self) -> Map<u64, V> {
        rows_map(self.rows@)
    }
}

/// `k` was given a value with the view `v`, and no other row changed.
pub open spec fn put<V: View>(before: Map<u64, V>, after: Map<u64, V>, k: u64, v: V::V) -> bool {
    &&& after.contains_key(k)
    &&& after[k]@ == v
    &&& after.remove(k) == before.remove(k)
}

pub broadcast proof fn lemma_put<V: View>(before: Map<u64, V>, k: u64, v: V)
    ensures
        put(before, #[trigger] before.insert(k, v), k, v@),
{
    assert(before.insert(k, v).remove(k) =~= before.remove(k));
}

pub proof fn lemma_row<V>(rows: Seq<(u64, V)>, k: u64, i: int)
    requires
        unique_rows(rows),
        row_of(rows, k, i),
    ensures
        rows_map(rows).contains_key(k),
        rows_map(rows)[k] == rows[i].1,
{
    assert(has_row(rows, k));
    let j = choose|j: int| #[trigger] row_of(rows, k, j);
    assert(row_of(rows, k, j));
    if i != j {
        assert(rows[i].0 != rows[j].0);
    }
}

impl<V> Table<V> {
    /// No number has two rows.
    pub open spec fn wf(&self) -> bool {
        unique_rows(self.rows@)
    }

    /// An empty table.
    pub fn new() -> (r: Table<V>)
        ensures
            r.wf(),
            r@ == Map::<u64, V>::empty(),
            r.rows@ == Seq::<(u64, V)>::empty(),
    {
        let r = Table { rows: Vec::new() };
        assert(r@ =~= Map::<u64, V>::empty());
        r
    }

    /// Where the row of `k` is.
    pub fn find(&self, k: u64) -> (r: Option<usize>)
        requires
            self.wf(),
        ensures
            match r {
                Some(i) => row_of(self.rows@, k, i as int) && self@.contains_key(k) && self@[k]
                    == self.rows@[i as int].1,
                None => !self@.contains_key(k),
            },
    {
        let mut i: usize = 0;
        while i < self.rows.len()
            invariant
                i <= self.rows@.len(),
                self.wf(),
                forall|j: int| 0 <= j < i ==> !#[trigger] row_of(self.rows@, k, j),
            decreases self.rows@.len() - i,
        {
            if self.rows[i].0 == k {
                proof {
                    lemma_row(self.rows@, k, i as int);
                }
                return Some(i);
            }
            i = i + 1;
        }
        None
    }

    /// Whether `k` has a row.
    pub fn contains(&self, k: u64) -> (r: bool)
        requires
            self.wf(),
        ensures
            r == self@.contains_key(k),
    {
        match self.find(k) {
            Some(_) => true,
            None => false,
        }
    }

    /// The value of `k`.
    pub fn get(&self, k: u64) -> (r: Option<&V>)
        requires
            self.wf(),
        ensures
            match r {
                Some(v) => self@.contains_key(k) && self@[k] == *v,
                None => !self@.contains_key(k),
            },
    {
        match self.find(k) {
            Some(i) => Some(&self.rows[i].1),
            None => None,
        }
    }

    /// Gives `k` the value `v`: in its row where it has one, else in a new last row.
    pub fn insert(&mut self, k: u64, v: V)
        requires
            old(self).wf(),
        ensures
            final(self).wf(),
            final(self)@ == old(self)@.insert(k, v),
            !old(self)@.contains_key(k) ==> final(self).rows@ == old(self).rows@.push((k, v)),
            old(self)@.contains_key(k) ==> final(self).rows@.len() == old(self).rows@.len(),
    {
        let ghost before = self.rows@;
        match self.find(k) {
            Some(i) => {
                self.rows[i] = (k, v);
                proof {
                    lemma_update(before, i as int, k, v);
                }
            },
            None => {
                self.rows.push((k, v));
                proof {
                    lemma_push(before, k, v);
                }
            },
        }
    }

    /// Takes the row of `k` away.
    pub fn remove(&mut self, k: u64) -> (r: Option<V>)
        requires
            old(self).wf(),
        ensures
            final(self).wf(),
            final(self)@ == old(self)@.remove(k),
            match r {
                Some(v) => old(self)@.contains_key(k) && old(self)@[k] == v,
                None => !old(self)@.contains_key(k) && *final(self) == *old(self),
            },
    {
        let ghost before = self.rows@;
        match self.find(k) {
            Some(i) => {
                let (_, v) = self.rows.remove(i);
                proof {
                    lemma_removed(before, i as int, k);
                }
                Some(v)
            },
            None => {
                assert(self@.remove(k) =~= self@);
                None
            },
        }
    }
}

proof fn lemma_update<V>(rows: Seq<(u64, V)>, i: int, k: u64, v: V)
    requires
        unique_rows(rows),
        row_of(rows, k, i),
    ensures
        unique_rows(rows.update(i, (k, v))),
        rows_map(rows.update(i, (k, v))) == rows_map(rows).insert(k, v),
{
    let new = rows.update(i, (k, v));
    assert forall|a: int, b: int| 0 <= a < new.len() && 0 <= b < new.len() && a != b implies (
    #[trigger] new[a]).0 != (#[trigger] new[b]).0 by {
        assert(rows[a].0 != rows[b].0);
    }
    assert forall|x: u64| rows_map(new).contains_key(x) == #[trigger] rows_map(rows).insert(
        k,
        v,
    ).contains_key(x) by {
        if has_row(new, x) {
            let j = choose|j: int| #[trigger] row_of(new, x, j);
            assert(row_of(rows, x, j));
        }
        if has_row(rows, x) {
            let j = choose|j: int| #[trigger] row_of(rows, x, j);
            assert(row_of(new, x, j));
        }
        if x == k {
            assert(row_of(new, x, i));
        }
    }
    assert forall|x: u64| rows_map(new).contains_key(x) implies #[trigger] rows_map(new)[x]
        == rows_map(rows).insert(k, v)[x] by {
        let j = choose|j: int| #[trigger] row_of(new, x, j);
        lemma_row(new, x, j);
        assert(row_of(rows, x, j));
        lemma_row(rows, x, j);
        if x == k && j != i {
            assert(rows[i].0 != rows[j].0);
        }
    }
    assert(rows_map(new) =~= rows_map(rows).insert(k, v));
}

proof fn lemma_push<V>(rows: Seq<(u64, V)>, k: u64, v: V)
    requires
        unique_rows(rows),
        !rows_map(rows).contains_key(k),
    ensures
        unique_rows(rows.push((k, v))),
        rows_map(rows.push((k, v))) == rows_map(rows).insert(k, v),
{
    let new = rows.push((k, v));
    let n = rows.len() as int;
    assert forall|a: int, b: int| 0 <= a < new.len() && 0 <= b < new.len() && a != b implies (
    #[trigger] new[a]).0 != (#[trigger] new[b]).0 by {
        if a == n {
            assert(!row_of(rows, k, b));
        } else if b == n {
            assert(!row_of(rows, k, a));
        } else {
            assert(rows[a].0 != rows[b].0);
        }
    }
    assert forall|x: u64| rows_map(new).contains_key(x) == #[trigger] rows_map(rows).insert(
        k,
        v,
    ).contains_key(x) by {
        if has_row(new, x) {
            let j = choose|j: int| #[trigger] row_of(new, x, j);
            if j < n {
                assert(row_of(rows, x, j));
            }
        }
        if has_row(rows, x) {
            let j = choose|j: int| #[trigger] row_of(rows, x, j);
            assert(row_of(new, x, j));
        }
        if x == k {
            assert(row_of(new, x, n));
        }
    }
    assert forall|x: u64| rows_map(new).contains_key(x) implies #[trigger] rows_map(new)[x]
        == rows_map(rows).insert(k, v)[x] by {
        let j = choose|j: int| #[trigger] row_of(new, x, j);
        lemma_row(new, x, j);
        if j < n {
            assert(row_of(rows, x, j));
            lemma_row(rows, x, j);
        }
    }
    assert(rows_map(new) =~= rows_map(rows).insert(k, v));
}

proof fn lemma_removed<V>(rows: Seq<(u64, V)>, i: int, k: u64)
    requires
        unique_rows(rows),
        row_of(rows, k, i),
    ensures
        unique_rows(rows.remove(i)),
        rows_map(rows.remove(i)) == rows_map(rows).remove(k),
{
    let new = rows.remove(i);
    assert forall|a: int, b: int| 0 <= a < new.len() && 0 <= b < new.len() && a != b implies (
    #[trigger] new[a]).0 != (#[trigger] new[b]).0 by {
        let x = if a < i { a } else { a + 1 };
        let y = if b < i { b } else { b + 1 };
        assert(new[a] == rows[x] && new[b] == rows[y]);
        assert(rows[x].0 != rows[y].0);
    }
    assert forall|x: u64| rows_map(new).contains_key(x) == #[trigger] rows_map(rows).remove(
        k,
    ).contains_key(x) by {
        if has_row(new, x) {
            let j = choose|j: int| #[trigger] row_of(new, x, j);
            let o = if j < i { j } else { j + 1 };
            assert(row_of(rows, x, o));
            assert(rows[o].0 != rows[i].0);
        }
        if has_row(rows, x) && x != k {
            let j = choose|j: int| #[trigger] row_of(rows, x, j);
            let o = if j < i { j } else { j - 1 };
            assert(row_of(new, x, o));
        }
    }
    assert forall|x: u64| rows_map(new).contains_key(x) implies #[trigger] rows_map(new)[x]
        == rows_map(rows).remove(k)[x] by {
        let j = choose|j: int| #[trigger] row_of(new, x, j);
        lemma_row(new, x, j);
        let o = if j < i { j } else { j + 1 };
        assert(row_of(rows, x, o));
        lemma_row(rows, x, o);
    }
    assert(rows_map(new) =~= rows_map(rows).remove(k));
}

} // verus!
