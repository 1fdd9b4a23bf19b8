//! Ordering text: character by character, and putting a list in order.
use vstd::prelude::*;

use crate::text::chars_of;
use crate::views::{group_views, views};

verus! {

/// `a` stands before `b`: at the first place where they differ `a` has the smaller character,
/// or `a` ends there.
pub open spec fn text_before(a: Seq<char>, b: Seq<char>) -> bool
    decreases a.len(),
{
    if b.len() == 0 {
        false
    } else if a.len() == 0 {
        true
    } else if a[0] != b[0] {
        a[0] < b[0]
    } else {
        text_before(a.skip(1), b.skip(1))
    }
}

/// A sort key: a rank first, then text.
pub type Key = (u8, Vec<char>);

/// The key `a` stands before the key `b`.
pub open spec fn key_before(a: Key, b: Key) -> bool {
    a.0 < b.0 || (a.0 == b.0 && text_before(a.1@, b.1@))
}

/// The item `i` comes before the item `j`: by their keys, and by where they stood where the
/// keys are equal.
pub open spec fn comes_before(keys: Seq<Key>, i: int, j: int) -> bool {
    key_before(keys[i], keys[j]) || (!key_before(keys[j], keys[i]) && i < j)
}

/// `order` lists every index below `n` once.
pub open spec fn lists_all(order: Seq<usize>, n: int) -> bool {
    &&& order.len() == n
    &&& order.no_duplicates()
    &&& forall|k: int| 0 <= k < order.len() ==> (#[trigger] order[k]) < n
}

/// `order` lists the indices of `keys` by their keys; equal keys keep their places.
pub open spec fn is_order(order: Seq<usize>, keys: Seq<Key>) -> bool {
    &&& lists_all(order, keys.len() as int)
    &&& forall|a: int, b: int|
        0 <= a < b < order.len() ==> comes_before(
            keys,
            #[trigger] order[a] as int,
            #[trigger] order[b] as int,
        )
}

proof fn lemma_text_irreflexive(a: Seq<char>)
    ensures
        !text_before(a, a),
    decreases a.len(),
{
    if a.len() > 0 {
        lemma_text_irreflexive(a.skip(1));
    }
}

/// What stands before what stands before a third stands before the third.
pub proof fn text_order_carries(a: Seq<char>, b: Seq<char>, c: Seq<char>)
    requires
        text_before(a, b),
        text_before(b, c),
    ensures
        text_before(a, c),
    decreases a.len(),
{
    if a.len() > 0 && a[0] == b[0] && b[0] == c[0] {
        text_order_carries(a.skip(1), b.skip(1), c.skip(1));
    }
}

proof fn lemma_text_total(a: Seq<char>, b: Seq<char>)
    ensures
        text_before(a, b) || text_before(b, a) || a == b,
    decreases a.len(),
{
    if a.len() > 0 && b.len() > 0 && a[0] == b[0] {
        lemma_text_total(a.skip(1), b.skip(1));
        if a.skip(1) == b.skip(1) {
            assert(a.skip(1).len() == b.skip(1).len());
            assert(a =~= b) by {
                assert forall|i: int| 0 <= i < a.len() implies a[i] == b[i] by {
                    if i > 0 {
                        assert(a[i] == a.skip(1)[i - 1]);
                        assert(b[i] == b.skip(1)[i - 1]);
                    }
                }
                assert(a.len() == a.skip(1).len() + 1);
                assert(b.len() == b.skip(1).len() + 1);
            }
        }
    } else if a.len() == 0 && b.len() == 0 {
        assert(a =~= b);
    }
}

/// Text is in a strict total order: of two texts exactly one comes first, or they are equal.
pub proof fn text_order_is_total(a: Seq<char>, b: Seq<char>)
    ensures
        text_before(a, b) || text_before(b, a) || a == b,
        !(text_before(a, b) && text_before(b, a)),
        !text_before(a, a),
{
    lemma_text_total(a, b);
    lemma_text_irreflexive(a);
    if text_before(a, b) && text_before(b, a) {
        text_order_carries(a, b, a);
    }
}

proof fn lemma_key_transitive(a: Key, b: Key, c: Key)
    requires
        !key_before(b, a),
        !key_before(c, b),
    ensures
        !key_before(c, a),
        key_before(a, b) || key_before(b, c) ==> key_before(a, c),
{
    text_order_is_total(a.1@, b.1@);
    text_order_is_total(b.1@, c.1@);
    text_order_is_total(a.1@, c.1@);
    if text_before(a.1@, b.1@) && text_before(b.1@, c.1@) {
        text_order_carries(a.1@, b.1@, c.1@);
    }
}

/// Whether `a` stands before `b`.
pub fn is_before(a: &Vec<char>, b: &Vec<char>) -> (r: bool)
    ensures
        r == text_before(a@, b@),
{
    let mut i: usize = 0;
    assert(a@.skip(0) =~= a@);
    assert(b@.skip(0) =~= b@);
    while i < a.len() && i < b.len()
        invariant
            i <= a@.len(),
            i <= b@.len(),
            text_before(a@, b@) == text_before(a@.skip(i as int), b@.skip(i as int)),
        decreases a@.len() - i,
    {
        if a[i] != b[i] {
            return a[i] < b[i];
        }
        assert(a@.skip(i as int).skip(1) =~= a@.skip(i + 1));
        assert(b@.skip(i as int).skip(1) =~= b@.skip(i + 1));
        i = i + 1;
    }
    i < b.len()
}

fn key_is_before(a: &Key, b: &Key) -> (r: bool)
    ensures
        r == key_before(*a, *b),
{
    a.0 < b.0 || (a.0 == b.0 && is_before(&a.1, &b.1))
}

proof fn lemma_order_insert(order: Seq<usize>, keys: Seq<Key>, n: int, pos: int)
    requires
        0 <= n < keys.len(),
        n <= usize::MAX,
        is_order(order, keys.take(n)),
        0 <= pos <= order.len(),
        forall|k: int| pos <= k < order.len() ==> key_before(keys[n], keys[#[trigger] order[k] as int]),
        pos > 0 ==> !key_before(keys[n], keys[order[pos - 1] as int]),
    ensures
        is_order(order.insert(pos, n as usize), keys.take(n + 1)),
{
    let new = order.insert(pos, n as usize);
    let small = keys.take(n);
    let large = keys.take(n + 1);
    assert forall|k: int| 0 <= k < new.len() implies (#[trigger] new[k]) < n + 1 by {
        if k < pos {
            assert(new[k] == order[k]);
        } else if k > pos {
            assert(new[k] == order[k - 1]);
        }
    }
    assert forall|a: int, b: int| 0 <= a < new.len() && 0 <= b < new.len() && a != b implies new[a]
        != new[b] by {
        let x = if a < pos { a } else { a - 1 };
        let y = if b < pos { b } else { b - 1 };
        if a != pos {
            assert(new[a] == order[x]);
        }
        if b != pos {
            assert(new[b] == order[y]);
        }
    }
    assert forall|a: int, b: int| 0 <= a < b < new.len() implies comes_before(
        large,
        #[trigger] new[a] as int,
        #[trigger] new[b] as int,
    ) by {
        let x = if a < pos { a } else { a - 1 };
        let y = if b < pos { b } else { b - 1 };
        if a != pos {
            assert(new[a] == order[x]);
            assert(small[order[x] as int] == large[order[x] as int]);
        }
        if b != pos {
            assert(new[b] == order[y]);
            assert(small[order[y] as int] == large[order[y] as int]);
        }
        if a != pos && b != pos {
            assert(comes_before(small, order[x] as int, order[y] as int));
        } else if b == pos {
            // Everything in front of `pos` is not behind the new item.
            if a < pos - 1 {
                assert(comes_before(small, order[a] as int, order[pos - 1] as int));
                assert(small[order[pos - 1] as int] == large[order[pos - 1] as int]);
                let p = keys[order[pos - 1] as int];
                let q = keys[order[a] as int];
                if key_before(q, p) {
                    lemma_key_transitive_front(q, p, keys[n]);
                } else {
                    lemma_key_transitive(q, p, keys[n]);
                }
            }
        }
    }
}

proof fn lemma_key_transitive_front(a: Key, b: Key, c: Key)
    requires
        key_before(a, b),
        !key_before(c, b),
    ensures
        !key_before(c, a),
{
    text_order_is_total(a.1@, b.1@);
    lemma_key_transitive(a, b, c);
}

/// Lists the indices of `keys` by their keys; equal keys keep their places.
pub fn order_of(keys: &Vec<Key>) -> (r: Vec<usize>)
    ensures
        is_order(r@, keys@),
{
    let mut order: Vec<usize> = Vec::new();
    let mut i: usize = 0;
    while i < keys.len()
        invariant
            i <= keys@.len(),
            is_order(order@, keys@.take(i as int)),
        decreases keys@.len() - i,
    {
        let mut pos: usize = order.len();
        while pos > 0 && key_is_before(&keys[i], &keys[order[pos - 1]])
            invariant
                pos <= order@.len(),
                i < keys@.len(),
                is_order(order@, keys@.take(i as int)),
                forall|k: int|
                    pos <= k < order@.len() ==> key_before(
                        keys@[i as int],
                        keys@[#[trigger] order@[k] as int],
                    ),
            decreases pos,
        {
            pos = pos - 1;
        }
        proof {
            lemma_order_insert(order@, keys@, i as int, pos as int);
        }
        order.insert(pos, i);
        i = i + 1;
    }
    assert(keys@.take(i as int) =~= keys@);
    order
}

/// `a` holds what `b` holds at the places `order` lists.
pub open spec fn picked<T>(a: Seq<T>, b: Seq<T>, order: Seq<usize>) -> bool {
    &&& a.len() == order.len()
    &&& forall|k: int| 0 <= k < a.len() ==> #[trigger] a[k] == b[order[k] as int]
}

/// `a` is `b` in another order.
pub open spec fn rearranged<T>(a: Seq<T>, b: Seq<T>) -> bool {
    exists|order: Seq<usize>| lists_all(order, b.len() as int) && #[trigger] picked(a, b, order)
}

/// No text stands behind one that it comes before.
pub open spec fn texts_in_order(s: Seq<Seq<char>>) -> bool {
    forall|a: int, b: int|
        0 <= a < b < s.len() ==> !text_before(#[trigger] s[b], #[trigger] s[a])
}

/// Puts texts in order.
pub fn sorted_texts(list: &Vec<String>) -> (r: Vec<String>)
    ensures
        rearranged(views(r@), views(list@)),
        texts_in_order(views(r@)),
{
    broadcast use group_views;

    let order = text_order(list);
    let mut out: Vec<String> = Vec::new();
    let mut i: usize = 0;
    while i < order.len()
        invariant
            i <= order@.len(),
            lists_all(order@, list@.len() as int),
            out@.len() == i,
            forall|k: int| 0 <= k < i ==> (#[trigger] out@[k])@ == list@[order@[k] as int]@,
        decreases order@.len() - i,
    {
        out.push(list[order[i]].clone());
        i = i + 1;
    }
    assert(picked(views(out@), views(list@), order@));
    assert forall|a: int, b: int| 0 <= a < b < out@.len() implies !text_before(
        #[trigger] views(out@)[b],
        #[trigger] views(out@)[a],
    ) by {
        assert(!text_before(list@[order@[b] as int]@, list@[order@[a] as int]@));
    }
    out
}

/// Lists the indices of texts in the texts' order; equal texts keep their places.
pub fn text_order(list: &Vec<String>) -> (r: Vec<usize>)
    ensures
        lists_all(r@, list@.len() as int),
        forall|a: int, b: int|
            0 <= a < b < r@.len() ==> {
                let x = list@[#[trigger] r@[a] as int]@;
                let y = list@[#[trigger] r@[b] as int]@;
                !text_before(y, x) && (x == y ==> r@[a] < r@[b])
            },
{
    let mut keys: Vec<Key> = Vec::new();
    let mut i: usize = 0;
    while i < list.len()
        invariant
            i <= list@.len(),
            keys@.len() == i,
            forall|k: int|
                0 <= k < i ==> (#[trigger] keys@[k]).0 == 0 && keys@[k].1@ == list@[k]@,
        decreases list@.len() - i,
    {
        keys.push((0, chars_of(list[i].as_str())));
        i = i + 1;
    }
    let order = order_of(&keys);
    assert forall|a: int, b: int| 0 <= a < b < order@.len() implies {
        let x = list@[#[trigger] order@[a] as int]@;
        let y = list@[#[trigger] order@[b] as int]@;
        !text_before(y, x) && (x == y ==> order@[a] < order@[b])
    } by {
        let x = list@[order@[a] as int]@;
        let y = list@[order@[b] as int]@;
        assert(comes_before(keys@, order@[a] as int, order@[b] as int));
        text_order_is_total(x, y);
    }
    order
}

/// Where two texts differ first decides which comes before; where neither does, the shorter.
pub proof fn the_first_difference_decides(a: Seq<char>, b: Seq<char>, k: int)
    requires
        0 <= k <= a.len(),
        k <= b.len(),
        forall|i: int| 0 <= i < k ==> a[i] == b[i],
        k < a.len() && k < b.len() ==> a[k] != b[k],
        k == a.len() || k == b.len() || a[k] != b[k],
    ensures
        text_before(a, b) <==> k < b.len() && (k == a.len() || a[k] < b[k]),
    decreases k,
{
    if k > 0 {
        assert(a[0] == b[0]);
        let x = a.skip(1);
        let y = b.skip(1);
        assert forall|i: int| 0 <= i < k - 1 implies x[i] == y[i] by {
            assert(a[i + 1] == b[i + 1]);
        }
        if k < a.len() && k < b.len() {
            assert(x[k - 1] == a[k] && y[k - 1] == b[k]);
        }
        the_first_difference_decides(x, y, k - 1);
    }
}

/// What is rearranged holds the same, as many times.
pub proof fn the_rearranged_holds_the_same<T>(a: Seq<T>, b: Seq<T>, x: T)
    requires
        rearranged(a, b),
        b.len() <= usize::MAX,
    ensures
        a.len() == b.len(),
        a.contains(x) <==> b.contains(x),
{
    let order = choose|order: Seq<usize>|
        lists_all(order, b.len() as int) && #[trigger] picked(a, b, order);
    if a.contains(x) {
        let k = choose|k: int| 0 <= k < a.len() && a[k] == x;
        assert(order[k] < b.len());
        assert(b[order[k] as int] == x);
    }
    if b.contains(x) {
        let j = choose|j: int| 0 <= j < b.len() && b[j] == x;
        lemma_lists_each(order, b.len() as int);
        assert(order.contains(j as usize));
        let k = choose|k: int| 0 <= k < order.len() && order[k] == j as usize;
        assert(a[k] == b[order[k] as int]);
    }
}

/// An order that lists every index once holds each of them.
pub proof fn lemma_lists_each(order: Seq<usize>, n: int)
    requires
        lists_all(order, n),
        n <= usize::MAX,
    ensures
        forall|i: usize| i < n ==> #[trigger] order.contains(i),
{
    let below = vstd::set_lib::set_int_range(0, n);
    let ints = order.map_values(|i: usize| i as int);
    assert(ints.no_duplicates());
    ints.unique_seq_to_set();
    vstd::set_lib::lemma_int_range(0, n);
    assert(ints.to_set().subset_of(below)) by {
        assert forall|x: int| ints.to_set().contains(x) implies below.contains(x) by {
            let k = choose|k: int| 0 <= k < ints.len() && ints[k] == x;
            assert(order[k] < n);
        }
    }
    vstd::set_lib::lemma_subset_equality(ints.to_set(), below);
    assert forall|i: usize| i < n implies #[trigger] order.contains(i) by {
        assert(below.contains(i as int));
        assert(ints.to_set().contains(i as int));
        let k = choose|k: int| 0 <= k < ints.len() && ints[k] == i as int;
        assert(order[k] == i);
    }
}

} // verus!
