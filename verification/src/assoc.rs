//! Rows of keys and values, in the order they came: finding, putting and taking away.
use vstd::prelude::*;

use crate::text::same_text;
use crate::views::{group_views, views};

verus! {

/// A key: two of them can be compared.
pub trait Key: View {
    fn same(&self, other: &Self) -> (r: bool)
        ensures
            r == (self@ == other@),
    ;
}

impl Key for u64 {
    fn same(&self, other: &Self) -> (r: bool) {
        *self == *other
    }
}

impl Key for (u64, u64) {
    fn same(&self, other: &Self) -> (r: bool) {
        self.0 == other.0 && self.1 == other.1
    }
}

impl Key for String {
    fn same(&self, other: &Self) -> (r: bool) {
        same_text(self.as_str(), other.as_str())
    }
}

/// Where the first row of a key is; past the end where there is none.
pub open spec fn at<K, V>(rows: Seq<(K, V)>, k: K) -> int
    decreases rows.len(),
{
    if rows.len() == 0 {
        0
    } else if rows[0].0 == k {
        0
    } else {
        1 + at(rows.skip(1), k)
    }
}

/// The key has a row.
pub open spec fn has_key<K, V>(rows: Seq<(K, V)>, k: K) -> bool {
    at(rows, k) < rows.len()
}

/// The value of a key.
pub open spec fn get<K, V>(rows: Seq<(K, V)>, k: K) -> Option<V> {
    if has_key(rows, k) {
        Some(rows[at(rows, k)].1)
    } else {
        None
    }
}

/// A key given a value: in its row where it has one, else in a new last row.
pub open spec fn put<K, V>(rows: Seq<(K, V)>, k: K, v: V) -> Seq<(K, V)> {
    if has_key(rows, k) {
        rows.update(at(rows, k), (k, v))
    } else {
        rows.push((k, v))
    }
}

/// The row of a key taken away.
pub open spec fn del<K, V>(rows: Seq<(K, V)>, k: K) -> Seq<(K, V)> {
    if has_key(rows, k) {
        rows.remove(at(rows, k))
    } else {
        rows
    }
}

pub proof fn lemma_at<K, V>(rows: Seq<(K, V)>, k: K)
    ensures
        0 <= at(rows, k) <= rows.len(),
        at(rows, k) < rows.len() ==> rows[at(rows, k)].0 == k,
        forall|j: int| 0 <= j < at(rows, k) ==> (#[trigger] rows[j]).0 != k,
    decreases rows.len(),
{
    if rows.len() > 0 && rows[0].0 != k {
        lemma_at(rows.skip(1), k);
        assert forall|j: int| 0 <= j < at(rows, k) implies (#[trigger] rows[j]).0 != k by {
            if j > 0 {
                assert(rows[j] == rows.skip(1)[j - 1]);
            }
        }
    }
}

pub proof fn lemma_at_is<K, V>(rows: Seq<(K, V)>, k: K, i: int)
    requires
        0 <= i <= rows.len(),
        i < rows.len() ==> rows[i].0 == k,
        forall|j: int| 0 <= j < i ==> (#[trigger] rows[j]).0 != k,
    ensures
        at(rows, k) == i,
{
    lemma_at(rows, k);
    let a = at(rows, k);
    if a < i {
        assert(rows[a].0 != k);
    } else if i < a {
        assert(rows[i].0 != k);
    }
}

/// What is put is what is there.
pub proof fn put_then_get<K, V>(rows: Seq<(K, V)>, k: K, v: V)
    ensures
        get(put(rows, k, v), k) == Some(v),
{
    lemma_at(rows, k);
    let new = put(rows, k, v);
    let i = at(rows, k);
    assert forall|j: int| 0 <= j < i implies (#[trigger] new[j]).0 != k by {
        assert(rows[j].0 != k);
    }
    lemma_at_is(new, k, i);
}

/// A key that is put leaves the others alone.
pub proof fn put_leaves_others<K, V>(rows: Seq<(K, V)>, k: K, v: V, other: K)
    requires
        other != k,
    ensures
        get(put(rows, k, v), other) == get(rows, other),
{
    lemma_at(rows, k);
    lemma_at(rows, other);
    let new = put(rows, k, v);
    let i = at(rows, other);
    assert forall|j: int| 0 <= j < i implies (#[trigger] new[j]).0 != other by {
        assert(rows[j].0 != other);
    }
    if i < rows.len() {
        lemma_at_is(new, other, i);
    } else {
        assert forall|j: int| 0 <= j < new.len() implies (#[trigger] new[j]).0 != other by {
            if j < rows.len() {
                assert(rows[j].0 != other);
            }
        }
        lemma_at_is(new, other, new.len() as int);
    }
}

/// No key has two rows.
pub open spec fn unique<K, V>(rows: Seq<(K, V)>) -> bool {
    forall|i: int, j: int|
        0 <= i < j < rows.len() ==> (#[trigger] rows[i]).0 != (#[trigger] rows[j]).0
}

/// Where no key has two rows, what is taken away is not there, and the others are left alone.
pub proof fn del_then_get<K, V>(rows: Seq<(K, V)>, k: K, other: K)
    requires
        unique(rows),
    ensures
        get(del(rows, k), k) is None,
        other != k ==> get(del(rows, k), other) == get(rows, other),
        unique(del(rows, k)),
{
    lemma_at(rows, k);
    lemma_at(rows, other);
    let new = del(rows, k);
    let i = at(rows, k);
    if i < rows.len() {
        assert forall|j: int| 0 <= j < new.len() implies (#[trigger] new[j]).0 != k by {
            if j < i {
                assert(rows[j].0 != k);
            } else {
                assert(rows[i].0 != rows[j + 1].0);
            }
        }
        lemma_at_is(new, k, new.len() as int);
        assert forall|a: int, b: int| 0 <= a < b < new.len() implies (#[trigger] new[a]).0 != (
        #[trigger] new[b]).0 by {
            let x = if a < i { a } else { a + 1 };
            let y = if b < i { b } else { b + 1 };
            assert(rows[x].0 != rows[y].0);
        }
        if other != k {
            let o = at(rows, other);
            let p = if o < i { o } else { o - 1 };
            assert forall|j: int| 0 <= j < p implies (#[trigger] new[j]).0 != other by {
                let x = if j < i { j } else { j + 1 };
                assert(rows[x].0 != other);
            }
            lemma_at_is(new, other, p);
        }
    }
}

/// Where no key has two rows, none has after a put.
pub proof fn put_keeps_unique<K, V>(rows: Seq<(K, V)>, k: K, v: V)
    requires
        unique(rows),
    ensures
        unique(put(rows, k, v)),
{
    lemma_at(rows, k);
    let new = put(rows, k, v);
    let i = at(rows, k);
    assert forall|a: int, b: int| 0 <= a < b < new.len() implies (#[trigger] new[a]).0 != (
    #[trigger] new[b]).0 by {
        if b < rows.len() {
            assert(rows[a].0 != rows[b].0);
        } else {
            assert(rows[a].0 != k);
        }
    }
}

/// Where the first row of a key is.
pub fn find<K: Key, E: View>(rows: &Vec<(K, E)>, k: &K) -> (r: usize)
    ensures
        r == at(views(rows@), k@),
        r <= rows@.len(),
        r < rows@.len() ==> rows@[r as int].0@ == k@,
        (r < rows@.len()) == has_key(views(rows@), k@),
{
    broadcast use group_views;

    let ghost all = views(rows@);
    let mut i: usize = 0;
    while i < rows.len()
        invariant
            i <= rows@.len(),
            all == views(rows@),
            forall|j: int| 0 <= j < i ==> (#[trigger] all[j]).0 != k@,
        decreases rows@.len() - i,
    {
        assert(all[i as int] == rows@[i as int]@);
        if rows[i].0.same(k) {
            proof {
                lemma_at_is(all, k@, i as int);
            }
            return i;
        }
        i = i + 1;
    }
    proof {
        lemma_at_is(all, k@, i as int);
    }
    i
}

/// Whether a key has a row.
pub fn holds<K: Key, E: View>(rows: &Vec<(K, E)>, k: &K) -> (r: bool)
    ensures
        r == has_key(views(rows@), k@),
{
    find(rows, k) < rows.len()
}

/// The value of a key.
pub fn value<'a, K: Key, E: View>(rows: &'a Vec<(K, E)>, k: &K) -> (r: Option<&'a E>)
    ensures
        match r {
            Some(e) => get(views(rows@), k@) == Some(e@),
            None => get(views(rows@), k@) is None,
        },
{
    broadcast use group_views;

    let i = find(rows, k);
    if i < rows.len() {
        assert(views(rows@)[i as int] == rows@[i as int]@);
        Some(&rows[i].1)
    } else {
        None
    }
}

/// Gives a key a value.
pub fn set_row<K: Key, E: View>(rows: &mut Vec<(K, E)>, k: K, e: E)
    ensures
        views(final(rows)@) == put(views(old(rows)@), k@, e@),
{
    broadcast use group_views;

    let i = find(rows, &k);
    if i < rows.len() {
        rows[i] = (k, e);
    } else {
        rows.push((k, e));
    }
}

/// Takes the row of a key away.
pub fn take_row<K: Key, E: View>(rows: &mut Vec<(K, E)>, k: &K) -> (r: Option<E>)
    ensures
        views(final(rows)@) == del(views(old(rows)@), k@),
        match r {
            Some(e) => get(views(old(rows)@), k@) == Some(e@),
            None => get(views(old(rows)@), k@) is None,
        },
{
    broadcast use group_views;

    let i = find(rows, k);
    if i < rows.len() {
        assert(views(rows@)[i as int] == rows@[i as int]@);
        let (_, e) = rows.remove(i);
        Some(e)
    } else {
        None
    }
}

} // verus!
