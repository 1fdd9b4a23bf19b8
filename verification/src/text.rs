//! Text as sequences of characters: numbers, splitting, trimming, filtering.
use vstd::prelude::*;
use vstd::string::*;

use crate::views::{group_views, views};

verus! {

/// `String::push` of std appends the character.
pub assume_specification[ String::push ](s: &mut String, c: char)
    ensures
        final(s)@ == old(s)@.push(c),
;

/// The characters `{:?}` writes for a string: quoted, with escapes.
pub uninterp spec fn quoted(s: Seq<char>) -> Seq<char>;

/// `format!("{:?}")` of std on a string: the quoted, escaped form of it, which depends on
/// the string alone.
#[verifier::external_body]
pub(crate) fn quote(s: &str) -> (r: String)
    ensures
        r@ == quoted(s@),
{
    format!("{s:?}")
}

/// The lowercase form of a string, by Unicode's tables.
pub uninterp spec fn lower(s: Seq<char>) -> Seq<char>;

/// `str::to_lowercase` of std: Unicode's lowercase, which depends on the string alone.
#[verifier::external_body]
pub(crate) fn lowercase(s: &str) -> (r: String)
    ensures
        r@ == lower(s@),
{
    s.to_lowercase()
}

/// What std says is wrong with a text that is no `u32`.
pub uninterp spec fn u32_fault(s: Seq<char>) -> Seq<char>;

/// `u32::from_str` of std: a decimal number with an optional plus sign, or an error whose text
/// depends on the string alone.
#[verifier::external_body]
pub(crate) fn parse_u32(s: &str) -> (r: Result<u32, String>)
    ensures
        match r {
            Ok(n) => unsigned(s@, u32::MAX as nat) == Some(n as nat),
            Err(e) => unsigned(s@, u32::MAX as nat) is None && e@ == u32_fault(s@),
        },
{
    s.parse::<u32>().map_err(|e| e.to_string())
}

/// What std says is wrong with a text that is no `u64`.
pub uninterp spec fn u64_fault(s: Seq<char>) -> Seq<char>;

/// `u64::from_str` of std: a decimal number with an optional plus sign, or an error whose text
/// depends on the string alone.
#[verifier::external_body]
pub(crate) fn parse_u64(s: &str) -> (r: Result<u64, String>)
    ensures
        match r {
            Ok(n) => unsigned(s@, u64::MAX as nat) == Some(n as nat),
            Err(e) => unsigned(s@, u64::MAX as nat) is None && e@ == u64_fault(s@),
        },
{
    s.parse::<u64>().map_err(|e| e.to_string())
}

/// The characters of a string, one by one.
pub fn chars_of(s: &str) -> (r: Vec<char>)
    ensures
        r@ == s@,
{
    let mut out: Vec<char> = Vec::new();
    for c in it: s.chars()
        invariant
            out@ == it.seq().take(it.index() as int),
            it.seq() == s@,
    {
        proof {
            s@.lemma_take_succ_push(it.index() as int);
        }
        out.push(c);
    }
    assert(s@.take(s@.len() as int) =~= s@);
    out
}

/// The characters from `from` up to `to`, as a string.
pub fn string_of(chars: &Vec<char>, from: usize, to: usize) -> (r: String)
    requires
        from <= to <= chars@.len(),
    ensures
        r@ == chars@.subrange(from as int, to as int),
{
    let mut out = String::new();
    let mut i: usize = from;
    while i < to
        invariant
            from <= i <= to <= chars@.len(),
            out@ == chars@.subrange(from as int, i as int),
        decreases to - i,
    {
        out.push(chars[i]);
        proof {
            assert(chars@.subrange(from as int, i as int).push(chars@[i as int])
                =~= chars@.subrange(from as int, i + 1));
        }
        i = i + 1;
    }
    out
}

/// The decimal digit of a number below ten.
pub open spec fn digit(d: nat) -> char {
    (48 + d) as char
}

/// A number in decimal, without leading zeros.
pub open spec fn decimal(n: nat) -> Seq<char>
    decreases n,
{
    if n < 10 {
        seq![digit(n)]
    } else {
        decimal(n / 10).push(digit(n % 10))
    }
}

/// A signed number in decimal.
pub open spec fn decimal_int(n: int) -> Seq<char> {
    if n < 0 {
        seq!['-'] + decimal((-n) as nat)
    } else {
        decimal(n as nat)
    }
}

/// Writes a number in decimal.
pub fn number(n: u64) -> (r: String)
    ensures
        r@ == decimal(n as nat),
    decreases n,
{
    let d: u8 = (n % 10) as u8;
    let c: char = (48 + d) as char;
    if n < 10 {
        let mut out = String::new();
        out.push(c);
        assert(out@ =~= seq![digit(n as nat)]);
        out
    } else {
        let mut out = number(n / 10);
        out.push(c);
        out
    }
}

/// Writes a signed number in decimal.
pub fn number_int(n: i64) -> (r: String)
    ensures
        r@ == decimal_int(n as int),
{
    if n < 0 {
        let mut out = String::new();
        out.push('-');
        let m: u64 = if n == i64::MIN { 9223372036854775808 } else { (-n) as u64 };
        let rest = number(m);
        out.append(rest.as_str());
        assert(Seq::<char>::empty().push('-') =~= seq!['-']);
        out
    } else {
        number(n as u64)
    }
}

/// A decimal digit.
pub open spec fn is_digit(c: char) -> bool {
    '0' <= c && c <= '9'
}

/// Decimal digits alone.
pub open spec fn all_digits(s: Seq<char>) -> bool {
    forall|i: int| 0 <= i < s.len() ==> is_digit(#[trigger] s[i])
}

/// The number that a row of decimal digits writes.
pub open spec fn value(s: Seq<char>) -> nat
    decreases s.len(),
{
    if s.len() == 0 {
        0
    } else {
        value(s.drop_last()) * 10 + (s.last() as nat - 48) as nat
    }
}

/// The digits behind an optional plus sign.
pub open spec fn unsigned_digits(s: Seq<char>) -> Seq<char> {
    if s.len() > 1 && s[0] == '+' {
        s.skip(1)
    } else {
        s
    }
}

/// A decimal number up to `max`, with an optional plus sign in front, as std reads one.
pub open spec fn unsigned(s: Seq<char>, max: nat) -> Option<nat> {
    let d = unsigned_digits(s);
    if d.len() > 0 && all_digits(d) && value(d) <= max {
        Some(value(d))
    } else {
        None
    }
}

proof fn lemma_value_grows(s: Seq<char>, k: int)
    requires
        0 <= k <= s.len(),
        forall|i: int| 0 <= i < s.len() ==> is_digit(#[trigger] s[i]),
    ensures
        value(s.take(k)) <= value(s),
    decreases s.len() - k,
{
    if k == s.len() {
        assert(s.take(k) =~= s);
    } else {
        lemma_value_grows(s, k + 1);
        assert(s.take(k + 1).drop_last() =~= s.take(k));
        assert(is_digit(s[k]));
    }
}

/// Reads a decimal number up to `max`.
pub fn read_unsigned(s: &Vec<char>, max: u64) -> (r: Option<u64>)
    ensures
        match r {
            Some(n) => unsigned(s@, max as nat) == Some(n as nat),
            None => unsigned(s@, max as nat) is None,
        },
{
    let start: usize = if s.len() > 1 && s[0] == '+' { 1 } else { 0 };
    let ghost d = unsigned_digits(s@);
    assert(d =~= s@.skip(start as int));
    if start == s.len() {
        return None;
    }
    let mut n: u64 = 0;
    let mut i: usize = start;
    while i < s.len()
        invariant
            start <= i <= s@.len(),
            start <= 1,
            d == s@.skip(start as int),
            d == unsigned_digits(s@),
            forall|j: int| 0 <= j < i - start ==> is_digit(#[trigger] d[j]),
            n == value(d.take(i - start)),
            n <= max,
        decreases s@.len() - i,
    {
        let c = s[i];
        assert(c == d[i - start]);
        if !('0' <= c && c <= '9') {
            assert(!is_digit(d[i - start]));
            return None;
        }
        let v: u64 = c as u64 - 48;
        proof {
            assert(d.take(i - start + 1).drop_last() =~= d.take(i - start));
        }
        if v > max || n > (max - v) / 10 {
            proof {
                assert(n * 10 + v > max);
                if all_digits(d) {
                    lemma_value_grows(d, i - start + 1);
                }
            }
            return None;
        }
        n = n * 10 + v;
        i = i + 1;
    }
    assert(d.take(d.len() as int) =~= d);
    Some(n)
}

pub proof fn lemma_decimal_digits(n: nat)
    ensures
        decimal(n).len() > 0,
        forall|i: int| 0 <= i < decimal(n).len() ==> is_digit(#[trigger] decimal(n)[i]),
        value(decimal(n)) == n,
    decreases n,
{
    if n >= 10 {
        lemma_decimal_digits(n / 10);
        assert(decimal(n).drop_last() =~= decimal(n / 10));
    } else {
        assert(decimal(n).drop_last() =~= Seq::<char>::empty());
        assert(value(Seq::<char>::empty()) == 0);
    }
}

/// What is written in decimal reads back as the same number.
pub proof fn decimal_reads_back(n: nat, max: nat)
    requires
        n <= max,
    ensures
        unsigned(decimal(n), max) == Some(n),
{
    lemma_decimal_digits(n);
    let s = decimal(n);
    assert(is_digit(s[0]));
    assert(unsigned_digits(s) == s);
}

/// The same characters.
pub fn same(a: &Vec<char>, b: &Vec<char>) -> (r: bool)
    ensures
        r == (a@ == b@),
{
    if a.len() != b.len() {
        return false;
    }
    let mut i: usize = 0;
    while i < a.len()
        invariant
            i <= a@.len() == b@.len(),
            forall|j: int| 0 <= j < i ==> a@[j] == b@[j],
        decreases a@.len() - i,
    {
        if a[i] != b[i] {
            return false;
        }
        i = i + 1;
    }
    assert(a@ =~= b@);
    true
}

/// The same text.
pub fn same_text(a: &str, b: &str) -> (r: bool)
    ensures
        r == (a@ == b@),
{
    same(&chars_of(a), &chars_of(b))
}

/// Whether `part` stands in `s` at `at`.
pub open spec fn stands_at(s: Seq<char>, part: Seq<char>, at: int) -> bool {
    0 <= at && at + part.len() <= s.len() && s.subrange(at, at + part.len()) == part
}

/// Whether `part` stands in `s` anywhere.
pub open spec fn has_part(s: Seq<char>, part: Seq<char>) -> bool {
    exists|at: int| #[trigger] stands_at(s, part, at)
}

/// A text has a part where some stretch of it, as long as the part, is the part.
pub proof fn a_part_is_a_stretch(s: Seq<char>, part: Seq<char>)
    ensures
        has_part(s, part) <==> exists|k: int|
            0 <= k <= s.len() - part.len() && #[trigger] s.subrange(k, k + part.len()) == part,
{
    if has_part(s, part) {
        let k = choose|k: int| #[trigger] stands_at(s, part, k);
        assert(s.subrange(k, k + part.len()) =~= part);
    }
    if exists|k: int|
        0 <= k <= s.len() - part.len() && #[trigger] s.subrange(k, k + part.len()) == part {
        let k = choose|k: int|
            0 <= k <= s.len() - part.len() && #[trigger] s.subrange(k, k + part.len()) == part;
        assert(stands_at(s, part, k));
    }
}

/// Looks for `part` in `s` at one place.
pub fn found_at(s: &Vec<char>, part: &Vec<char>, at: usize) -> (r: bool)
    ensures
        r == stands_at(s@, part@, at as int),
{
    if part.len() > s.len() || at > s.len() - part.len() {
        return false;
    }
    let n: usize = s.len();
    let mut i: usize = 0;
    while i < part.len()
        invariant
            i <= part@.len(),
            at + part@.len() <= s@.len() == n,
            forall|j: int| 0 <= j < i ==> s@[at + j] == part@[j],
        decreases part@.len() - i,
    {
        if s[at + i] != part[i] {
            assert(s@.subrange(at as int, at + part@.len())[i as int] != part@[i as int]);
            return false;
        }
        i = i + 1;
    }
    assert(s@.subrange(at as int, at + part@.len()) =~= part@);
    true
}

/// Looks for `part` in `s`.
pub fn find_part(s: &Vec<char>, part: &Vec<char>) -> (r: bool)
    ensures
        r == has_part(s@, part@),
{
    if part.len() > s.len() {
        return false;
    }
    let mut i: usize = 0;
    while i <= s.len() - part.len()
        invariant
            i <= s@.len() - part@.len() + 1,
            part@.len() <= s@.len(),
            forall|j: int| 0 <= j < i ==> !#[trigger] stands_at(s@, part@, j),
        decreases s@.len() - part@.len() + 1 - i,
    {
        if found_at(s, part, i) {
            return true;
        }
        if i == s.len() - part.len() {
            return false;
        }
        i = i + 1;
    }
    false
}

/// What follows `prefix` in `s`, if `s` starts with it.
pub open spec fn after_prefix(s: Seq<char>, prefix: Seq<char>) -> Option<Seq<char>> {
    if prefix.is_prefix_of(s) {
        Some(s.skip(prefix.len() as int))
    } else {
        None
    }
}

/// Takes `prefix` off the front of `s`.
pub fn strip_front(s: &Vec<char>, prefix: &str) -> (r: Option<Vec<char>>)
    ensures
        match r {
            Some(rest) => after_prefix(s@, prefix@) == Some(rest@),
            None => after_prefix(s@, prefix@) is None,
        },
{
    let p = chars_of(prefix);
    if !found_at(s, &p, 0) {
        assert(!prefix@.is_prefix_of(s@)) by {
            if prefix@.is_prefix_of(s@) {
                assert(s@.subrange(0, p@.len() as int) =~= p@);
            }
        }
        return None;
    }
    assert(prefix@.is_prefix_of(s@));
    let out = part_of(s, p.len(), s.len());
    assert(out@ =~= s@.skip(prefix@.len() as int));
    Some(out)
}

/// The characters from `from` up to `to`.
pub fn part_of(s: &Vec<char>, from: usize, to: usize) -> (r: Vec<char>)
    requires
        from <= to <= s@.len(),
    ensures
        r@ == s@.subrange(from as int, to as int),
{
    let mut out: Vec<char> = Vec::new();
    let mut i: usize = from;
    while i < to
        invariant
            from <= i <= to <= s@.len(),
            out@ == s@.subrange(from as int, i as int),
        decreases to - i,
    {
        out.push(s[i]);
        proof {
            assert(s@.subrange(from as int, i as int).push(s@[i as int])
                =~= s@.subrange(from as int, i + 1));
        }
        i = i + 1;
    }
    out
}

/// Where the first `c` stands in `s`.
pub open spec fn first_at(s: Seq<char>, c: char, at: int) -> bool {
    0 <= at < s.len() && s[at] == c && forall|j: int| 0 <= j < at ==> s[j] != c
}

/// Where the first `c` is.
pub fn find_char(s: &Vec<char>, c: char) -> (r: Option<usize>)
    ensures
        match r {
            Some(i) => first_at(s@, c, i as int),
            None => !s@.contains(c),
        },
{
    let mut i: usize = 0;
    while i < s.len()
        invariant
            i <= s@.len(),
            forall|j: int| 0 <= j < i ==> s@[j] != c,
        decreases s@.len() - i,
    {
        if s[i] == c {
            return Some(i);
        }
        i = i + 1;
    }
    None
}

/// `s` in front of the first `c`, and behind it.
pub open spec fn cut(s: Seq<char>, c: char) -> Option<(Seq<char>, Seq<char>)> {
    if s.contains(c) {
        let at = s.index_of_first(c)->0;
        Some((s.take(at), s.skip(at + 1)))
    } else {
        None
    }
}

pub proof fn lemma_first_at(s: Seq<char>, c: char, at: int)
    requires
        first_at(s, c, at),
    ensures
        s.contains(c),
        s.index_of_first(c) == Some(at),
        cut(s, c) == Some((s.take(at), s.skip(at + 1))),
{
    assert(s.contains(c)) by {
        assert(s[at] == c);
    }
    s.index_of_first_ensures(c);
}

/// Splits at the first `c`.
pub fn split_once(s: &Vec<char>, c: char) -> (r: Option<(Vec<char>, Vec<char>)>)
    ensures
        match r {
            Some((a, b)) => cut(s@, c) == Some((a@, b@)),
            None => cut(s@, c) is None,
        },
{
    match find_char(s, c) {
        None => None,
        Some(i) => {
            proof {
                lemma_first_at(s@, c, i as int);
            }
            let n: usize = s.len();
            let a = part_of(s, 0, i);
            let b = part_of(s, i + 1, n);
            assert(a@ =~= s@.take(i as int));
            assert(b@ =~= s@.skip(i + 1));
            Some((a, b))
        },
    }
}

/// A control character (Unicode's category Cc).
pub open spec fn is_control(c: char) -> bool {
    c as u32 <= 0x1f || (0x7f <= c as u32 && c as u32 <= 0x9f)
}

/// A control character.
pub fn control(c: char) -> (r: bool)
    ensures
        r == is_control(c),
{
    let u = c as u32;
    u <= 0x1f || (0x7f <= u && u <= 0x9f)
}

/// White space (Unicode's property White_Space).
pub open spec fn is_space(c: char) -> bool {
    let u = c as u32;
    (9 <= u && u <= 13) || u == 0x20 || u == 0x85 || u == 0xa0 || u == 0x1680 || (0x2000 <= u && u
        <= 0x200a) || u == 0x2028 || u == 0x2029 || u == 0x202f || u == 0x205f || u == 0x3000
}

/// White space.
pub fn space(c: char) -> (r: bool)
    ensures
        r == is_space(c),
{
    let u = c as u32;
    (9 <= u && u <= 13) || u == 0x20 || u == 0x85 || u == 0xa0 || u == 0x1680 || (0x2000 <= u && u
        <= 0x200a) || u == 0x2028 || u == 0x2029 || u == 0x202f || u == 0x205f || u == 0x3000
}

/// `s` without the white space in front.
pub open spec fn trimmed_front(s: Seq<char>) -> Seq<char>
    decreases s.len(),
{
    if s.len() > 0 && is_space(s[0]) {
        trimmed_front(s.skip(1))
    } else {
        s
    }
}

/// `s` without the white space at its end.
pub open spec fn trimmed_end(s: Seq<char>) -> Seq<char>
    decreases s.len(),
{
    if s.len() > 0 && is_space(s.last()) {
        trimmed_end(s.drop_last())
    } else {
        s
    }
}

/// `s` without white space around it.
pub open spec fn trimmed(s: Seq<char>) -> Seq<char> {
    trimmed_end(trimmed_front(s))
}

/// Takes the white space off both ends.
pub fn trim(s: &Vec<char>) -> (r: Vec<char>)
    ensures
        r@ == trimmed(s@),
{
    let mut i: usize = 0;
    assert(s@.skip(0) =~= s@);
    while i < s.len() && space(s[i])
        invariant
            i <= s@.len(),
            trimmed_front(s@.skip(i as int)) == trimmed_front(s@),
        decreases s@.len() - i,
    {
        assert(s@.skip(i as int).skip(1) =~= s@.skip(i + 1));
        i = i + 1;
    }
    assert(trimmed_front(s@) == s@.skip(i as int));
    let mut j: usize = s.len();
    assert(s@.skip(i as int) =~= s@.subrange(i as int, j as int));
    while j > i && space(s[j - 1])
        invariant
            i <= j <= s@.len(),
            trimmed_end(s@.subrange(i as int, j as int)) == trimmed(s@),
        decreases j,
    {
        assert(s@.subrange(i as int, j as int).drop_last() =~= s@.subrange(i as int, j - 1));
        assert(s@.subrange(i as int, j as int).last() == s@[j - 1]);
        j = j - 1;
    }
    if j > i {
        assert(s@.subrange(i as int, j as int).last() == s@[j - 1]);
    }
    part_of(s, i, j)
}

/// `s` taken apart at every `c`: one piece more than there are `c`s.
pub open spec fn pieces(s: Seq<char>, c: char) -> Seq<Seq<char>>
    decreases s.len(),
{
    if s.len() == 0 {
        seq![s]
    } else {
        let front = pieces(s.drop_last(), c);
        if s.last() == c {
            front.push(Seq::empty())
        } else {
            front.update(front.len() - 1, front.last().push(s.last()))
        }
    }
}

pub proof fn lemma_pieces_nonempty(s: Seq<char>, c: char)
    ensures
        pieces(s, c).len() > 0,
    decreases s.len(),
{
    if s.len() > 0 {
        lemma_pieces_nonempty(s.drop_last(), c);
    }
}

/// Splits at every `c`.
pub fn split(s: &Vec<char>, c: char) -> (r: Vec<Vec<char>>)
    ensures
        views(r@) == pieces(s@, c),
        r@.len() > 0,
{
    broadcast use group_views;

    let mut out: Vec<Vec<char>> = Vec::new();
    let mut piece: Vec<char> = Vec::new();
    let mut i: usize = 0;
    assert(s@.take(0) =~= Seq::<char>::empty());
    assert(views(out@).push(piece@) =~= seq![Seq::<char>::empty()]);
    while i < s.len()
        invariant
            i <= s@.len(),
            views(out@).push(piece@) == pieces(s@.take(i as int), c),
        decreases s@.len() - i,
    {
        let ghost before = pieces(s@.take(i as int), c);
        assert(s@.take(i + 1).drop_last() =~= s@.take(i as int));
        assert(before.last() == piece@);
        if s[i] == c {
            out.push(piece);
            piece = Vec::new();
            assert(views(out@) =~= before);
        } else {
            piece.push(s[i]);
            assert(views(out@).push(piece@) =~= before.update(before.len() - 1, piece@));
        }
        i = i + 1;
    }
    assert(s@.take(i as int) =~= s@);
    out.push(piece);
    out
}

/// A line without the carriage return that belongs to its end.
pub open spec fn without_return(line: Seq<char>) -> Seq<char> {
    if line.len() > 0 && line.last() == '\r' {
        line.drop_last()
    } else {
        line
    }
}

/// The lines of a text: ended by a newline, with or without a carriage return in front of it;
/// the last one may lack its end.
pub open spec fn lines(s: Seq<char>) -> Seq<Seq<char>> {
    let p = pieces(s, '\n');
    let ended = p.drop_last().map_values(|l: Seq<char>| without_return(l));
    if p.last().len() == 0 {
        ended
    } else {
        ended.push(p.last())
    }
}

/// Takes a text apart into its lines.
pub fn lines_of(s: &Vec<char>) -> (r: Vec<Vec<char>>)
    ensures
        views(r@) == lines(s@),
{
    broadcast use group_views;

    let parts = split(s, '\n');
    let ghost p = pieces(s@, '\n');
    let ghost ended = p.drop_last().map_values(|l: Seq<char>| without_return(l));
    let n: usize = parts.len() - 1;
    let mut out: Vec<Vec<char>> = Vec::new();
    let mut i: usize = 0;
    assert(views(out@) =~= ended.take(0));
    while i < n
        invariant
            i <= n,
            n == parts@.len() - 1,
            views(parts@) == p,
            ended == p.drop_last().map_values(|l: Seq<char>| without_return(l)),
            views(out@) == ended.take(i as int),
        decreases n - i,
    {
        let line = &parts[i];
        assert(p[i as int] == line@);
        assert(ended[i as int] == without_return(line@));
        let m: usize = line.len();
        if m > 0 && line[m - 1] == '\r' {
            let short = part_of(line, 0, m - 1);
            assert(short@ =~= line@.drop_last());
            out.push(short);
        } else {
            let whole = part_of(line, 0, m);
            assert(whole@ =~= line@);
            out.push(whole);
        }
        assert(ended.take(i + 1) =~= ended.take(i as int).push(ended[i as int]));
        i = i + 1;
    }
    assert(ended.take(n as int) =~= ended);
    assert(p.last() == parts@[n as int]@);
    let m: usize = parts[n].len();
    if m > 0 {
        let last = part_of(&parts[n], 0, m);
        assert(last@ =~= p.last());
        out.push(last);
    }
    out
}

/// The words of a text so far, and the one that is still growing.
pub open spec fn words_grown(s: Seq<char>) -> (Seq<Seq<char>>, Seq<char>)
    decreases s.len(),
{
    if s.len() == 0 {
        (Seq::empty(), Seq::empty())
    } else {
        let (done, word) = words_grown(s.drop_last());
        if !is_space(s.last()) {
            (done, word.push(s.last()))
        } else if word.len() > 0 {
            (done.push(word), Seq::empty())
        } else {
            (done, word)
        }
    }
}

/// The words of a text: what stands between white space.
pub open spec fn words(s: Seq<char>) -> Seq<Seq<char>> {
    let (done, word) = words_grown(s);
    if word.len() > 0 {
        done.push(word)
    } else {
        done
    }
}

/// Takes a text apart into its words.
pub fn words_of(s: &Vec<char>) -> (r: Vec<Vec<char>>)
    ensures
        views(r@) == words(s@),
{
    broadcast use group_views;

    let mut out: Vec<Vec<char>> = Vec::new();
    let mut word: Vec<char> = Vec::new();
    let mut i: usize = 0;
    while i < s.len()
        invariant
            i <= s@.len(),
            words_grown(s@.take(i as int)) == (views(out@), word@),
        decreases s@.len() - i,
    {
        assert(s@.take(i + 1).drop_last() =~= s@.take(i as int));
        if !space(s[i]) {
            word.push(s[i]);
        } else if word.len() > 0 {
            out.push(word);
            word = Vec::new();
        }
        i = i + 1;
    }
    assert(s@.take(i as int) =~= s@);
    if word.len() > 0 {
        out.push(word);
    }
    out
}

/// Parts put together with a separator between them.
pub open spec fn joined(parts: Seq<Seq<char>>, sep: Seq<char>) -> Seq<char>
    decreases parts.len(),
{
    if parts.len() == 0 {
        Seq::empty()
    } else if parts.len() == 1 {
        parts[0]
    } else {
        joined(parts.drop_last(), sep) + sep + parts.last()
    }
}

/// Puts parts together with a separator between them.
pub fn join(parts: &Vec<String>, sep: &str) -> (r: String)
    ensures
        r@ == joined(views(parts@), sep@),
{
    broadcast use group_views;

    let mut out = String::new();
    let mut i: usize = 0;
    while i < parts.len()
        invariant
            i <= parts@.len(),
            out@ == joined(views(parts@).take(i as int), sep@),
        decreases parts@.len() - i,
    {
        let ghost so_far = views(parts@).take(i + 1);
        assert(so_far.drop_last() =~= views(parts@).take(i as int));
        if i > 0 {
            out.append(sep);
        } else {
            assert(out@ + parts@[0]@ =~= parts@[0]@);
        }
        out.append(parts[i].as_str());
        i = i + 1;
    }
    assert(views(parts@).take(i as int) =~= views(parts@));
    out
}

proof fn lemma_pieces_plain(s: Seq<char>, c: char)
    requires
        !s.contains(c),
    ensures
        pieces(s, c) == seq![s],
    decreases s.len(),
{
    if s.len() > 0 {
        let t = s.drop_last();
        assert forall|x: char| t.contains(x) implies s.contains(x) by {
            let i = choose|i: int| 0 <= i < t.len() && t[i] == x;
            assert(s[i] == x);
        }
        lemma_pieces_plain(t, c);
        assert(s.contains(s.last()));
        assert(t.push(s.last()) =~= s);
        assert(pieces(s, c) =~= seq![s]);
    }
}

proof fn lemma_pieces_append(a: Seq<char>, b: Seq<char>, c: char)
    requires
        !b.contains(c),
    ensures
        pieces((a + seq![c]) + b, c) == pieces(a, c).push(b),
    decreases b.len(),
{
    let whole = (a + seq![c]) + b;
    if b.len() == 0 {
        assert(whole.drop_last() =~= a);
        assert(whole.last() == c);
        assert(b =~= Seq::empty());
    } else {
        let b2 = b.drop_last();
        assert forall|x: char| b2.contains(x) implies b.contains(x) by {
            let i = choose|i: int| 0 <= i < b2.len() && b2[i] == x;
            assert(b[i] == x);
        }
        lemma_pieces_append(a, b2, c);
        assert(whole.drop_last() =~= (a + seq![c]) + b2);
        assert(b.contains(b.last()));
        assert(b2.push(b.last()) =~= b);
        assert(pieces(whole, c) =~= pieces(a, c).push(b));
    }
}

/// What was put together with a separator that stands in no part comes apart into the same
/// parts.
pub proof fn joined_comes_apart(parts: Seq<Seq<char>>, c: char)
    requires
        parts.len() > 0,
        forall|i: int| 0 <= i < parts.len() ==> !(#[trigger] parts[i]).contains(c),
    ensures
        pieces(joined(parts, seq![c]), c) == parts,
    decreases parts.len(),
{
    if parts.len() == 1 {
        lemma_pieces_plain(parts[0], c);
        assert(parts =~= seq![parts[0]]);
    } else {
        let front = parts.drop_last();
        assert forall|i: int| 0 <= i < front.len() implies !(#[trigger] front[i]).contains(c) by {
            assert(front[i] == parts[i]);
        }
        joined_comes_apart(front, c);
        assert(!parts[parts.len() - 1].contains(c));
        lemma_pieces_append(joined(front, seq![c]), parts.last(), c);
        assert(front.push(parts.last()) =~= parts);
    }
}

/// The same texts once more.
pub fn copied(list: &Vec<String>) -> (r: Vec<String>)
    ensures
        r@ == list@,
{
    let mut out: Vec<String> = Vec::new();
    let mut i: usize = 0;
    while i < list.len()
        invariant
            i <= list@.len(),
            out@ == list@.take(i as int),
        decreases list@.len() - i,
    {
        out.push(list[i].clone());
        assert(list@.take(i + 1) =~= list@.take(i as int).push(list@[i as int]));
        i = i + 1;
    }
    assert(list@.take(i as int) =~= list@);
    out
}

/// A path under a directory, as std joins them: an absolute path stands for itself.
pub open spec fn path_under(dir: Seq<char>, path: Seq<char>) -> Seq<char> {
    if path.len() > 0 && path[0] == '/' {
        path
    } else if dir.len() == 0 || dir.last() == '/' {
        dir + path
    } else {
        dir.push('/') + path
    }
}

/// Joins a path to a directory.
pub fn join_path(dir: &str, path: &str) -> (r: String)
    ensures
        r@ == path_under(dir@, path@),
{
    let d = chars_of(dir);
    let p = chars_of(path);
    if p.len() > 0 && p[0] == '/' {
        return path.to_owned();
    }
    let mut out = dir.to_owned();
    if d.len() > 0 && d[d.len() - 1] != '/' {
        out.push('/');
    }
    out.append(path);
    out
}

/// A relative path that stays below where it starts: nothing in it goes up, and it does not
/// start at the current directory by name.
pub open spec fn is_plain_relative(path: Seq<char>) -> bool {
    &&& !(path.len() > 0 && path[0] == '/')
    &&& pieces(path, '/')[0] != seq!['.']
    &&& forall|i: int|
        0 <= i < pieces(path, '/').len() ==> #[trigger] pieces(path, '/')[i] != seq!['.', '.']
}

/// A relative path that stays below where it starts.
pub fn plain_relative(path: &str) -> (r: bool)
    ensures
        r == is_plain_relative(path@),
{
    broadcast use group_views;

    let p = chars_of(path);
    if p.len() > 0 && p[0] == '/' {
        return false;
    }
    let parts = split(&p, '/');
    let ghost all = pieces(path@, '/');
    assert(all[0] == parts@[0]@);
    if parts[0].len() == 1 && parts[0][0] == '.' {
        assert(all[0] =~= seq!['.']);
        return false;
    }
    assert(all[0] != seq!['.']) by {
        if all[0] == seq!['.'] {
            assert(all[0].len() == 1 && all[0][0] == '.');
        }
    }
    let mut i: usize = 0;
    while i < parts.len()
        invariant
            i <= parts@.len(),
            views(parts@) == all,
            all == pieces(path@, '/'),
            forall|j: int| 0 <= j < i ==> #[trigger] all[j] != seq!['.', '.'],
        decreases parts@.len() - i,
    {
        assert(all[i as int] == parts@[i as int]@);
        if parts[i].len() == 2 && parts[i][0] == '.' && parts[i][1] == '.' {
            assert(all[i as int] =~= seq!['.', '.']);
            return false;
        }
        assert(all[i as int] != seq!['.', '.']) by {
            if all[i as int] == seq!['.', '.'] {
                assert(all[i as int].len() == 2 && all[i as int][0] == '.' && all[i as int][1]
                    == '.');
            }
        }
        i = i + 1;
    }
    true
}

/// An error with what failed in front of it, where there is something to say.
pub open spec fn with_context(said: Option<Seq<char>>, err: Seq<char>) -> Seq<char> {
    match said {
        Some(what) => what + ": "@ + err,
        None => err,
    }
}

/// An error with what failed in front of it, where there is something to say.
pub fn ctx(said: Option<&str>, err: &str) -> (r: String)
    ensures
        r@ == with_context(
            match said {
                Some(what) => Some(what@),
                None => None,
            },
            err@,
        ),
{
    match said {
        Some(what) => {
            let mut text = what.to_owned();
            text.append(": ");
            text.append(err);
            text
        },
        None => err.to_owned(),
    }
}

/// A number in decimal has the digits of its tens and then the last; a negative one a minus in
/// front.
pub proof fn decimals_go_by_tens(n: nat, d: nat)
    requires
        d < 10,
    ensures
        decimal(d) == seq![(48 + d) as char],
        n > 0 ==> decimal(10 * n + d) == decimal(n).push((48 + d) as char),
        decimal_int(n as int) == decimal(n),
        n > 0 ==> decimal_int(-(n as int)) == seq!['-'] + decimal(n),
{
    if n > 0 {
        assert((10 * n + d) / 10 == n && (10 * n + d) % 10 == d);
    }
}

/// What reads as a number: one digit or more behind an optional plus sign, of a value that is
/// not too big; and nothing else.
pub proof fn only_digits_are_numbers(s: Seq<char>, max: nat, n: nat)
    ensures
        s.len() == 0 ==> unsigned(s, max) is None,
        s.len() > 0 && s[0] != '+' && (exists|i: int|
            0 <= i < s.len() && !('0' <= #[trigger] s[i] && s[i] <= '9')) ==> unsigned(s, max)
            is None,
        n > max ==> unsigned(decimal(n), max) is None,
        n <= max ==> unsigned(decimal(n), max) == Some(n),
        n <= max ==> unsigned(seq!['+'] + decimal(n), max) == Some(n),
        unsigned(seq!['+'], max) is None,
        unsigned(s, max) is Some ==> unsigned(s, max)->0 <= max,
{
    lemma_decimal_digits(n);
    let d = decimal(n);
    assert(is_digit(d[0]));
    assert(unsigned_digits(d) == d);
    let p = seq!['+'] + d;
    assert(p.skip(1) =~= d);
    if s.len() > 0 && s[0] != '+' && exists|i: int|
        0 <= i < s.len() && !('0' <= #[trigger] s[i] && s[i] <= '9') {
        let i = choose|i: int| 0 <= i < s.len() && !('0' <= #[trigger] s[i] && s[i] <= '9');
        assert(!is_digit(s[i]));
    }
    assert(!is_digit('+'));
    let plus = seq!['+'];
    assert(unsigned_digits(plus) == plus);
    assert(!all_digits(plus)) by {
        assert(!is_digit(plus[0]));
    }
}

/// White space goes from both ends, all of it and nothing else.
pub proof fn trimming_takes_the_ends(s: Seq<char>)
    ensures
        exists|i: int, j: int|
            {
                &&& 0 <= i <= j <= s.len()
                &&& #[trigger] s.subrange(i, j) == trimmed(s)
                &&& forall|k: int| 0 <= k < i ==> is_space(#[trigger] s[k])
                &&& forall|k: int| j <= k < s.len() ==> is_space(#[trigger] s[k])
                &&& i < j ==> !is_space(s[i]) && !is_space(s[j - 1])
            },
{
    let i = lemma_trimmed_front(s);
    let f = s.skip(i);
    let m = lemma_trimmed_end(f);
    let j = i + m;
    assert(f.take(m) =~= s.subrange(i, j));
    assert forall|k: int| j <= k < s.len() implies is_space(#[trigger] s[k]) by {
        assert(f[k - i] == s[k]);
    }
    if i < j {
        assert(f[0] == s[i]);
        assert(f[m - 1] == s[j - 1]);
        assert(f.len() > 0);
    }
}

proof fn lemma_trimmed_front(s: Seq<char>) -> (i: int)
    ensures
        0 <= i <= s.len(),
        trimmed_front(s) == s.skip(i),
        forall|k: int| 0 <= k < i ==> is_space(#[trigger] s[k]),
        i < s.len() ==> !is_space(s[i]),
    decreases s.len(),
{
    if s.len() > 0 && is_space(s[0]) {
        let rest = s.skip(1);
        let i = lemma_trimmed_front(rest);
        assert(rest.skip(i) =~= s.skip(i + 1));
        assert forall|k: int| 0 <= k < i + 1 implies is_space(#[trigger] s[k]) by {
            if k > 0 {
                assert(rest[k - 1] == s[k]);
            }
        }
        if i < rest.len() {
            assert(rest[i] == s[i + 1]);
        }
        i + 1
    } else {
        assert(s.skip(0) =~= s);
        0
    }
}

proof fn lemma_trimmed_end(s: Seq<char>) -> (j: int)
    ensures
        0 <= j <= s.len(),
        trimmed_end(s) == s.take(j),
        forall|k: int| j <= k < s.len() ==> is_space(#[trigger] s[k]),
        j > 0 ==> !is_space(s[j - 1]),
    decreases s.len(),
{
    if s.len() > 0 && is_space(s.last()) {
        let front = s.drop_last();
        let j = lemma_trimmed_end(front);
        assert(front.take(j) =~= s.take(j));
        assert forall|k: int| j <= k < s.len() implies is_space(#[trigger] s[k]) by {
            if k < front.len() {
                assert(front[k] == s[k]);
            }
        }
        j
    } else {
        assert(s.take(s.len() as int) =~= s);
        s.len() as int
    }
}

/// Which characters are white space, and which are control characters.
pub proof fn what_space_and_control_are(c: char)
    ensures
        is_space(c) <==> c == ' ' || ('\t' <= c && c <= '\r') || c == '\u{85}' || c == '\u{a0}' || c
            == '\u{1680}' || ('\u{2000}' <= c && c <= '\u{200a}') || c == '\u{2028}' || c
            == '\u{2029}' || c == '\u{202f}' || c == '\u{205f}' || c == '\u{3000}',
        is_control(c) <==> c < ' ' || ('\u{7f}' <= c && c <= '\u{9f}'),
        is_digit(c) <==> c == '0' || c == '1' || c == '2' || c == '3' || c == '4' || c == '5' || c
            == '6' || c == '7' || c == '8' || c == '9',
{
}

/// A text is cut at the first of a character: what stands before it, and what behind; one that
/// does not hold it is not cut.
pub proof fn a_text_is_cut_at_the_first(a: Seq<char>, c: char, b: Seq<char>)
    requires
        !a.contains(c),
    ensures
        cut(a + seq![c] + b, c) == Some((a, b)),
        cut(a, c) is None,
{
    let s = a + seq![c] + b;
    let at = a.len() as int;
    assert(s[at] == c);
    assert forall|j: int| 0 <= j < at implies s[j] != c by {
        assert(s[j] == a[j]);
        assert(a.contains(a[j]));
    }
    lemma_first_at(s, c, at);
    assert(s.take(at) =~= a);
    assert(s.skip(at + 1) =~= b);
}

/// A text taken apart at a character: each part is without it, and put together again with it
/// they are the text.
pub proof fn the_parts_are_the_text(s: Seq<char>, c: char)
    ensures
        pieces(s, c).len() > 0,
        forall|i: int| 0 <= i < pieces(s, c).len() ==> !(#[trigger] pieces(s, c)[i]).contains(c),
        joined(pieces(s, c), seq![c]) == s,
    decreases s.len(),
{
    if s.len() == 0 {
        assert(s =~= Seq::empty());
    } else {
        let t = s.drop_last();
        let front = pieces(t, c);
        the_parts_are_the_text(t, c);
        let now = pieces(s, c);
        assert(s =~= t.push(s.last()));
        if s.last() == c {
            assert(now.drop_last() =~= front);
            assert(joined(now, seq![c]) =~= s);
        } else {
            let last = front.last().push(s.last());
            assert forall|i: int| 0 <= i < now.len() implies !(#[trigger] now[i]).contains(c) by {
                if i < front.len() - 1 {
                    assert(now[i] == front[i]);
                } else {
                    assert(now[i] == last);
                    if last.contains(c) {
                        let k = choose|k: int| 0 <= k < last.len() && last[k] == c;
                        assert(front.last()[k] == c);
                        assert(front[front.len() - 1].contains(c));
                    }
                }
            }
            if now.len() == 1 {
                assert(now[0] == last);
                assert(joined(front, seq![c]) == front[0]);
                assert(joined(now, seq![c]) =~= s);
            } else {
                assert(now.drop_last() =~= front.drop_last());
                assert(joined(now, seq![c]) =~= s);
            }
        }
    }
}

/// Lines end with a newline, which is no part of them and neither is a carriage return before
/// it; a last line may lack its end, and nothing behind the last end is no line.
pub proof fn lines_end_with_newlines(parts: Seq<Seq<char>>)
    requires
        parts.len() > 0,
        forall|i: int| 0 <= i < parts.len() ==> !(#[trigger] parts[i]).contains('\n'),
    ensures
        ({
            let l = lines(joined(parts, seq!['\n']));
            let n = parts.len() - 1;
            &&& parts[n].len() == 0 ==> l.len() == n
            &&& parts[n].len() > 0 ==> l.len() == n + 1 && l[n] == parts[n]
            &&& forall|i: int|
                0 <= i < n ==> #[trigger] l[i] == if parts[i].len() > 0 && parts[i].last() == '\r' {
                    parts[i].take(parts[i].len() - 1)
                } else {
                    parts[i]
                }
        }),
{
    joined_comes_apart(parts, '\n');
    let l = lines(joined(parts, seq!['\n']));
    let n = parts.len() - 1;
    assert forall|i: int| 0 <= i < n implies #[trigger] l[i] == if parts[i].len() > 0
        && parts[i].last() == '\r' {
        parts[i].take(parts[i].len() - 1)
    } else {
        parts[i]
    } by {
        assert(l[i] == without_return(parts[i]));
        if parts[i].len() > 0 {
            assert(parts[i].drop_last() =~= parts[i].take(parts[i].len() - 1));
        }
    }
}

/// Words are what stands between white space: each is not empty and holds none, and words put
/// together with a space come apart again.
pub proof fn words_stand_between_spaces(s: Seq<char>, c: char, w: Seq<char>)
    requires
        is_space(c),
        w.len() > 0,
        forall|i: int| 0 <= i < w.len() ==> !is_space(#[trigger] w[i]),
    ensures
        words(w) == seq![w],
        words(s.push(c) + w) == words(s).push(w),
        words(s.push(c)) == words(s),
        words(Seq::empty()).len() == 0,
{
    let e = Seq::<char>::empty();
    assert(e + w =~= w);
    lemma_word_grows(e, w);
    assert(words_grown(e) == (Seq::<Seq<char>>::empty(), Seq::<char>::empty()));
    assert(e + w =~= w);
    assert(Seq::<Seq<char>>::empty().push(w) =~= seq![w]);
    assert(s.push(c).drop_last() =~= s);
    assert(words_grown(s.push(c)) == (words(s), Seq::<char>::empty()));
    lemma_word_grows(s.push(c), w);
    assert(Seq::<char>::empty() + w =~= w);
}

proof fn lemma_word_grows(s: Seq<char>, w: Seq<char>)
    requires
        forall|i: int| 0 <= i < w.len() ==> !is_space(#[trigger] w[i]),
    ensures
        words_grown(s + w) == (words_grown(s).0, words_grown(s).1 + w),
    decreases w.len(),
{
    if w.len() == 0 {
        assert(s + w =~= s);
        assert(words_grown(s).1 + w =~= words_grown(s).1);
    } else {
        let front = w.drop_last();
        lemma_word_grows(s, front);
        assert((s + w).drop_last() =~= s + front);
        assert((s + w).last() == w.last());
        assert(!is_space(w[w.len() - 1]));
        assert((words_grown(s).1 + front).push(w.last()) =~= words_grown(s).1 + w);
    }
}

/// A path goes below a directory with one slash between the two; one from the root stands for
/// itself.
pub proof fn a_path_goes_below_its_directory(dir: Seq<char>, path: Seq<char>)
    ensures
        path.len() > 0 && path[0] == '/' ==> path_under(dir, path) == path,
        dir.len() > 0 && dir.last() != '/' && !(path.len() > 0 && path[0] == '/') ==> path_under(
            dir,
            path,
        ) == dir + seq!['/'] + path,
        dir.len() > 0 && dir.last() == '/' && !(path.len() > 0 && path[0] == '/') ==> path_under(
            dir,
            path,
        ) == dir + path,
        dir.len() == 0 ==> path_under(dir, path) == path,
{
    assert(dir.push('/') =~= dir + seq!['/']);
    if dir.len() == 0 {
        assert(dir + path =~= path);
    }
}

/// A plain relative path does not start at the root or at a dot, and none of its names is the
/// directory above.
pub proof fn plain_paths_stay_below(parts: Seq<Seq<char>>)
    requires
        parts.len() > 0,
        forall|i: int| 0 <= i < parts.len() ==> !(#[trigger] parts[i]).contains('/'),
    ensures
        ({
            let path = joined(parts, seq!['/']);
            is_plain_relative(path) <==> {
                &&& !(parts[0].len() == 0 && parts.len() > 1)
                &&& parts[0] != seq!['.']
                &&& forall|i: int| 0 <= i < parts.len() ==> #[trigger] parts[i] != seq!['.', '.']
            }
        }),
{
    joined_comes_apart(parts, '/');
    lemma_joined_front(parts, '/');
}

proof fn lemma_joined_front(parts: Seq<Seq<char>>, c: char)
    requires
        parts.len() > 0,
        !parts[0].contains(c),
    ensures
        ({
            let s = joined(parts, seq![c]);
            (s.len() > 0 && s[0] == c) <==> (parts[0].len() == 0 && parts.len() > 1)
        }),
        parts[0].len() > 0 ==> joined(parts, seq![c]).len() > 0 && joined(parts, seq![c])[0]
            == parts[0][0],
        parts.len() > 1 ==> joined(parts, seq![c]).len() > 0,
    decreases parts.len(),
{
    if parts.len() > 1 {
        let front = parts.drop_last();
        lemma_joined_front(front, c);
        let s = joined(parts, seq![c]);
        let t = joined(front, seq![c]);
        assert(s == t + seq![c] + parts.last());
        if t.len() > 0 {
            assert(s[0] == t[0]);
        } else {
            assert(s[0] == c);
        }
        if parts[0].len() > 0 {
            assert(parts[0].contains(parts[0][0]));
        }
    } else if parts[0].len() > 0 {
        assert(parts[0].contains(parts[0][0]));
    }
}

/// Parts put together with a separator between each two.
pub proof fn parts_are_put_together(parts: Seq<Seq<char>>, sep: Seq<char>, last: Seq<char>)
    ensures
        joined(Seq::empty(), sep) == Seq::<char>::empty(),
        joined(seq![last], sep) == last,
        parts.len() > 0 ==> joined(parts.push(last), sep) == joined(parts, sep) + sep + last,
{
    assert(parts.push(last).drop_last() =~= parts);
}

/// An error is said with what failed in front of it, where there is something to say.
pub proof fn errors_say_what_failed(what: Seq<char>, err: Seq<char>, s: Seq<char>, prefix: Seq<char>)
    ensures
        with_context(Some(what), err) == what + ": "@ + err,
        with_context(None, err) == err,
        after_prefix(prefix + s, prefix) == Some(s),
        after_prefix(s, prefix) is Some <==> s.len() >= prefix.len() && s.take(prefix.len() as int)
            == prefix,
{
    assert((prefix + s).subrange(0, prefix.len() as int) =~= prefix);
    assert((prefix + s).skip(prefix.len() as int) =~= s);
    if s.len() >= prefix.len() {
        assert(s.take(prefix.len() as int) =~= s.subrange(0, prefix.len() as int));
    }
}

} // verus!
