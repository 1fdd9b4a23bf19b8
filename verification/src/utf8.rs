//! Lengths in UTF-8 bytes, and cutting text at a length.
use vstd::prelude::*;
use vstd::string::*;
use vstd::utf8::*;

use crate::text::chars_of;

verus! {

/// The bytes a character takes.
pub open spec fn width(c: char) -> nat {
    let u = c as u32;
    if u <= 0x7f {
        1
    } else if u <= 0x7ff {
        2
    } else if u <= 0xffff {
        3
    } else {
        4
    }
}

/// The bytes a text takes.
pub open spec fn byte_len(s: Seq<char>) -> nat
    decreases s.len(),
{
    if s.len() == 0 {
        0
    } else {
        byte_len(s.drop_last()) + width(s.last())
    }
}

fn width_of(c: char) -> (r: usize)
    ensures
        r == width(c),
{
    let u = c as u32;
    if u <= 0x7f {
        1
    } else if u <= 0x7ff {
        2
    } else if u <= 0xffff {
        3
    } else {
        4
    }
}

proof fn lemma_byte_len_front(s: Seq<char>)
    requires
        s.len() > 0,
    ensures
        byte_len(s) == width(s[0]) + byte_len(s.drop_first()),
    decreases s.len(),
{
    if s.len() == 1 {
        assert(s.drop_first() =~= Seq::empty());
        assert(s.drop_last() =~= Seq::empty());
        assert(byte_len(s.drop_last()) == 0);
    } else {
        lemma_byte_len_front(s.drop_last());
        assert(s.drop_first().drop_last() =~= s.drop_last().drop_first());
    }
}

/// What a text takes is what its encoding holds.
pub proof fn lemma_byte_len(s: Seq<char>)
    ensures
        byte_len(s) == encode_utf8(s).len(),
    decreases s.len(),
{
    if s.len() > 0 {
        lemma_byte_len_front(s);
        lemma_byte_len(s.drop_first());
        char_is_scalar(s[0]);
    }
}

pub proof fn lemma_byte_len_adds(a: Seq<char>, b: Seq<char>)
    ensures
        byte_len(a + b) == byte_len(a) + byte_len(b),
    decreases b.len(),
{
    if b.len() == 0 {
        assert(a + b =~= a);
    } else {
        lemma_byte_len_adds(a, b.drop_last());
        assert((a + b).drop_last() =~= a + b.drop_last());
    }
}

pub proof fn lemma_byte_len_grows(s: Seq<char>, k: int)
    requires
        0 <= k <= s.len(),
    ensures
        byte_len(s.take(k)) <= byte_len(s),
    decreases s.len() - k,
{
    if k == s.len() {
        assert(s.take(k) =~= s);
    } else {
        assert(s.take(k + 1).drop_last() =~= s.take(k));
        lemma_byte_len_grows(s, k + 1);
    }
}

/// The bytes of a text, where a machine can count them.
pub fn utf8_len(s: &str) -> (r: usize)
    ensures
        r == byte_len(s@),
{
    proof {
        lemma_byte_len(s@);
    }
    let bytes = s.as_bytes();
    bytes.len()
}

/// `k` is where `s` is cut to fit `max` bytes: as many characters as fit.
pub open spec fn cut_at(s: Seq<char>, max: nat, k: int) -> bool {
    &&& 0 <= k <= s.len()
    &&& byte_len(s.take(k)) <= max
    &&& k < s.len() ==> byte_len(s.take(k + 1)) > max
}

/// `s` cut to as many of its characters as fit in `max` bytes.
pub open spec fn clipped(s: Seq<char>, max: nat) -> Seq<char> {
    s.take(choose|k: int| cut_at(s, max, k))
}

proof fn lemma_cut_unique(s: Seq<char>, max: nat, j: int, k: int)
    requires
        cut_at(s, max, j),
        cut_at(s, max, k),
        j <= k,
    ensures
        j == k,
{
    if j < k {
        assert(s.take(k).take(j + 1) =~= s.take(j + 1));
        lemma_byte_len_grows(s.take(k), j + 1);
    }
}

pub proof fn lemma_clipped(s: Seq<char>, max: nat, k: int)
    requires
        cut_at(s, max, k),
    ensures
        clipped(s, max) == s.take(k),
{
    let j = choose|j: int| cut_at(s, max, j);
    assert(cut_at(s, max, j));
    if j <= k {
        lemma_cut_unique(s, max, j, k);
    } else {
        lemma_cut_unique(s, max, k, j);
    }
}

/// Cuts a text to as many of its characters as fit in `max` bytes.
pub fn clip_to(s: &str, max: usize) -> (r: &str)
    ensures
        r@ == clipped(s@, max as nat),
        r@.is_prefix_of(s@),
        byte_len(r@) <= max,
        byte_len(s@) <= max ==> r@ == s@,
{
    let cs = chars_of(s);
    let mut k: usize = 0;
    let mut len: usize = 0;
    assert(s@.take(0) =~= Seq::<char>::empty());
    while k < cs.len()
        invariant
            cs@ == s@,
            k <= cs@.len(),
            len == byte_len(s@.take(k as int)),
            len <= max,
        decreases cs@.len() - k,
    {
        let w = width_of(cs[k]);
        assert(s@.take(k + 1).drop_last() =~= s@.take(k as int));
        if w > max - len {
            proof {
                assert(cut_at(s@, max as nat, k as int));
                lemma_clipped(s@, max as nat, k as int);
                lemma_byte_len_grows(s@, k + 1);
            }
            return s.substring_char(0, k);
        }
        len = len + w;
        k = k + 1;
    }
    proof {
        assert(s@.take(k as int) =~= s@);
        assert(cut_at(s@, max as nat, k as int));
        lemma_clipped(s@, max as nat, k as int);
    }
    s
}

/// A text that is cut is a prefix of what it was, fits, and is the text itself where that
/// fits; one character more would not.
pub proof fn clipped_is_a_prefix(s: Seq<char>, max: nat)
    ensures
        clipped(s, max).len() < s.len() ==> byte_len(s.take(clipped(s, max).len() as int + 1)) > max,
        clipped(s, max).is_prefix_of(s),
        byte_len(clipped(s, max)) <= max,
        byte_len(s) <= max ==> clipped(s, max) == s,
        clipped(clipped(s, max), max) == clipped(s, max),
{
    let k = lemma_cut_exists(s, max, 0);
    lemma_clipped(s, max, k);
    let c = s.take(k);
    assert(c.take(k) =~= c);
    assert(cut_at(c, max, k));
    lemma_clipped(c, max, k);
    if byte_len(s) <= max && k < s.len() {
        lemma_byte_len_grows(s, k + 1);
    }
    if k == s.len() {
        assert(s.take(k) =~= s);
    }
}

proof fn lemma_cut_exists(s: Seq<char>, max: nat, j: int) -> (k: int)
    requires
        0 <= j <= s.len(),
        byte_len(s.take(j)) <= max,
    ensures
        cut_at(s, max, k),
    decreases s.len() - j,
{
    assert(s.take(0) =~= Seq::<char>::empty());
    if j < s.len() && byte_len(s.take(j + 1)) <= max {
        lemma_cut_exists(s, max, j + 1)
    } else {
        j
    }
}

} // verus!
