//! Paths. What a path is made of decides which paths are the same; what a path says twice
//! (slashes, `.`) counts for nothing there, and stays where a path is written.
use vstd::prelude::*;
use vstd::string::*;

use crate::text::{chars_of, find_char, part_of, pieces, same_text, split, string_of};
use crate::views::{group_views, kept, lemma_kept_step, views};

verus! {

/// A part that names something.
pub open spec fn names_something(part: Seq<char>) -> bool {
    part.len() > 0 && part != seq!['.']
}

/// The parts of a path.
pub open spec fn parts(path: Seq<char>) -> Seq<Seq<char>> {
    kept(pieces(path, '/'), |p: Seq<char>| names_something(p))
}

/// A path from the root.
pub open spec fn is_absolute(path: Seq<char>) -> bool {
    path.len() > 0 && path[0] == '/'
}

/// A path that starts at the current directory by name: `.`, or `./` and more.
pub open spec fn starts_at_dot(path: Seq<char>) -> bool {
    path.len() > 0 && path[0] == '.' && (path.len() == 1 || path[1] == '/')
}

/// What a path is made of: the root or the current directory, where it starts there, and its
/// parts. Two paths are the same where they are made of the same.
pub open spec fn comps(path: Seq<char>) -> Seq<Seq<char>> {
    if is_absolute(path) {
        seq!["/"@] + parts(path)
    } else if starts_at_dot(path) {
        seq!["."@] + parts(path)
    } else {
        parts(path)
    }
}

/// `path` is `dir` or below it.
pub open spec fn is_below(path: Seq<char>, dir: Seq<char>) -> bool {
    comps(dir).is_prefix_of(comps(path))
}

/// Where the parts of a path begin.
pub open spec fn body(path: Seq<char>) -> nat {
    if is_absolute(path) || starts_at_dot(path) {
        1
    } else {
        0
    }
}

/// A path without what says nothing at its end: slashes, and `.` between them. The first
/// `start` characters stay.
pub open spec fn trimmed(path: Seq<char>, start: nat) -> Seq<char>
    decreases path.len(),
{
    if path.len() <= start {
        path
    } else if path.last() == '/' {
        trimmed(path.drop_last(), start)
    } else if path.last() == '.' && (path.len() == start + 1 || path[path.len() - 2] == '/') {
        trimmed(path.drop_last(), start)
    } else {
        path
    }
}

/// A path without its last name.
pub open spec fn unnamed(path: Seq<char>, start: nat) -> Seq<char>
    decreases path.len(),
{
    if path.len() <= start || path.last() == '/' {
        path
    } else {
        unnamed(path.drop_last(), start)
    }
}

/// The directory a path is in, in the path's own text. The root is in none, and neither is
/// the empty path.
pub open spec fn parent_of(path: Seq<char>) -> Option<Seq<char>> {
    let whole = trimmed(path, body(path));
    if whole.len() > body(path) {
        Some(trimmed(unnamed(whole, body(path)), body(path)))
    } else if starts_at_dot(path) {
        Some(Seq::empty())
    } else {
        None
    }
}

proof fn lemma_trimmed(path: Seq<char>, start: nat)
    ensures
        trimmed(path, start).is_prefix_of(path),
        path.len() >= start ==> trimmed(path, start).len() >= start,
        trimmed(path, start).len() > start ==> trimmed(path, start).last() != '/',
    decreases path.len(),
{
    if path.len() > start && trimmed(path, start) == trimmed(path.drop_last(), start) {
        lemma_trimmed(path.drop_last(), start);
        lemma_prefix_of_front(trimmed(path, start), path);
    }
}

proof fn lemma_unnamed(path: Seq<char>, start: nat)
    ensures
        unnamed(path, start).is_prefix_of(path),
        path.len() >= start ==> unnamed(path, start).len() >= start,
        path.len() > start && path.last() != '/' ==> unnamed(path, start).len() < path.len(),
    decreases path.len(),
{
    if path.len() > start && path.last() != '/' {
        lemma_unnamed(path.drop_last(), start);
        lemma_prefix_of_front(unnamed(path, start), path);
    }
}

proof fn lemma_prefix_of_front(a: Seq<char>, path: Seq<char>)
    requires
        path.len() > 0,
        a.is_prefix_of(path.drop_last()),
    ensures
        a.is_prefix_of(path),
{
    assert(path.subrange(0, a.len() as int) =~= path.drop_last().subrange(0, a.len() as int));
}

proof fn lemma_prefix_carries(a: Seq<char>, b: Seq<char>, c: Seq<char>)
    requires
        a.is_prefix_of(b),
        b.is_prefix_of(c),
    ensures
        a.is_prefix_of(c),
{
    assert(c.subrange(0, a.len() as int) =~= b.subrange(0, a.len() as int));
}

/// The directory a path is in is written as the path begins, and is shorter.
pub proof fn parents_begin_paths(path: Seq<char>)
    ensures
        parent_of(path) matches Some(dir) ==> dir.is_prefix_of(path) && dir.len() < path.len(),
{
    let start = body(path);
    lemma_trimmed(path, start);
    let whole = trimmed(path, start);
    lemma_unnamed(whole, start);
    let named = unnamed(whole, start);
    lemma_trimmed(named, start);
    let dir = trimmed(named, start);
    lemma_prefix_carries(dir, named, whole);
    lemma_prefix_carries(dir, whole, path);
}

/// A path and all the directories above it, outermost first, each in the path's own text.
pub open spec fn ancestors(path: Seq<char>) -> Seq<Seq<char>>
    decreases path.len() via parent_is_shorter
{
    match parent_of(path) {
        Some(dir) => ancestors(dir).push(path),
        None => seq![path],
    }
}

#[via_fn]
proof fn parent_is_shorter(path: Seq<char>) {
    parents_begin_paths(path);
}

/// The directories above a path, outermost first.
pub open spec fn above(path: Seq<char>) -> Seq<Seq<char>> {
    match parent_of(path) {
        Some(dir) => ancestors(dir),
        None => Seq::empty(),
    }
}

/// A list holds a path, however it is written.
pub open spec fn has_path(list: Seq<Seq<char>>, path: Seq<char>) -> bool {
    exists|i: int| 0 <= i < list.len() && comps(#[trigger] list[i]) == comps(path)
}

/// A path without what says nothing at its beginning.
pub open spec fn unled(s: Seq<char>) -> Seq<char>
    decreases s.len(),
{
    if s.len() > 0 && (s[0] == '/' || starts_at_dot(s)) {
        unled(s.skip(1))
    } else {
        s
    }
}

/// How long the first name of a relative path is.
pub open spec fn first_len(s: Seq<char>) -> nat
    decreases s.len(),
{
    if s.len() == 0 || s[0] == '/' {
        0
    } else {
        1 + first_len(s.skip(1))
    }
}

/// A path as it goes on from the root; a relative one as it is.
pub open spec fn from_root(path: Seq<char>) -> Seq<char> {
    if is_absolute(path) {
        trimmed(unled(path.skip(1)), 0)
    } else {
        path
    }
}

/// A path as it goes on below `/run`, if it is below it or `/run` itself.
pub open spec fn below_run(path: Seq<char>) -> Option<Seq<char>> {
    let s = unled(path.skip(1));
    if is_absolute(path) && s.take(first_len(s) as int) == "run"@ {
        Some(trimmed(unled(s.skip(first_len(s) as int)), 0))
    } else {
        None
    }
}

/// Takes a path apart.
pub fn parts_of(path: &str) -> (r: Vec<String>)
    ensures
        views(r@) == parts(path@),
{
    broadcast use group_views;

    let list = split(&chars_of(path), '/');
    let ghost all = pieces(path@, '/');
    let ghost keep = |p: Seq<char>| names_something(p);
    let mut out: Vec<String> = Vec::new();
    let mut i: usize = 0;
    while i < list.len()
        invariant
            i <= list@.len(),
            views(list@) == all,
            keep == (|p: Seq<char>| names_something(p)),
            views(out@) == kept(all.take(i as int), keep),
        decreases list@.len() - i,
    {
        proof {
            lemma_kept_step(all, keep, i as int);
        }
        let part = &list[i];
        assert(all[i as int] == part@);
        let dot = part.len() == 1 && part[0] == '.';
        assert(dot == (part@ == seq!['.'])) by {
            if dot {
                assert(part@ =~= seq!['.']);
            }
        }
        if part.len() > 0 && !dot {
            let s = string_of(part, 0, part.len());
            assert(s@ =~= part@);
            out.push(s);
        }
        i = i + 1;
    }
    assert(all.take(i as int) =~= all);
    out
}

/// Whether a path says nothing at all.
pub fn empty(path: &str) -> (r: bool)
    ensures
        r == (path@.len() == 0),
{
    chars_of(path).len() == 0
}

/// Whether a path is from the root.
pub fn absolute(path: &str) -> (r: bool)
    ensures
        r == is_absolute(path@),
{
    let cs = chars_of(path);
    cs.len() > 0 && cs[0] == '/'
}

/// Whether a path starts at the current directory by name.
fn dotted(cs: &Vec<char>) -> (r: bool)
    ensures
        r == starts_at_dot(cs@),
{
    cs.len() > 0 && cs[0] == '.' && (cs.len() == 1 || cs[1] == '/')
}

/// What a path is made of.
pub fn comps_of(path: &str) -> (r: Vec<String>)
    ensures
        views(r@) == comps(path@),
{
    broadcast use group_views;

    let mut out: Vec<String> = Vec::new();
    if absolute(path) {
        out.push("/".to_owned());
        assert(views(out@) =~= seq!["/"@]);
    } else if dotted(&chars_of(path)) {
        out.push(".".to_owned());
        assert(views(out@) =~= seq!["."@]);
    }
    let ghost front = views(out@);
    let mut rest = parts_of(path);
    out.append(&mut rest);
    assert(views(out@) =~= front + parts(path@));
    assert(views(out@) =~= comps(path@));
    out
}

/// Whether two lists begin alike: all of `b` stands at the front of `a`.
fn begins(a: &Vec<String>, b: &Vec<String>) -> (r: bool)
    ensures
        r == views(b@).is_prefix_of(views(a@)),
{
    broadcast use group_views;

    let ghost va = views(a@);
    let ghost vb = views(b@);
    if b.len() > a.len() {
        return false;
    }
    let mut i: usize = 0;
    while i < b.len()
        invariant
            i <= b@.len() <= a@.len(),
            va == views(a@),
            vb == views(b@),
            forall|j: int| 0 <= j < i ==> va[j] == vb[j],
        decreases b@.len() - i,
    {
        assert(va[i as int] == a@[i as int]@);
        assert(vb[i as int] == b@[i as int]@);
        if !same_text(a[i].as_str(), b[i].as_str()) {
            assert(!vb.is_prefix_of(va)) by {
                if vb.is_prefix_of(va) {
                    assert(va.subrange(0, vb.len() as int)[i as int] == vb[i as int]);
                }
            }
            return false;
        }
        i = i + 1;
    }
    assert(va.subrange(0, vb.len() as int) =~= vb);
    true
}

/// Whether `path` is `dir` or below it.
pub fn below(path: &str, dir: &str) -> (r: bool)
    ensures
        r == is_below(path@, dir@),
{
    begins(&comps_of(path), &comps_of(dir))
}

/// Whether two paths are the same, however they are written.
pub fn same_path(a: &str, b: &str) -> (r: bool)
    ensures
        r == (comps(a@) == comps(b@)),
{
    broadcast use group_views;

    let x = comps_of(a);
    let y = comps_of(b);
    assert(views(x@).len() == x@.len() && views(y@).len() == y@.len());
    if x.len() != y.len() {
        return false;
    }
    let r = begins(&x, &y);
    assert(views(x@).subrange(0, views(x@).len() as int) =~= views(x@));
    r
}

/// Whether a list holds a path, however it is written.
pub fn holds_path(list: &Vec<String>, path: &str) -> (r: bool)
    ensures
        r == has_path(views(list@), path@),
{
    broadcast use group_views;

    let ghost all = views(list@);
    let mut i: usize = 0;
    while i < list.len()
        invariant
            i <= list@.len(),
            all == views(list@),
            forall|j: int| 0 <= j < i ==> comps(#[trigger] all[j]) != comps(path@),
        decreases list@.len() - i,
    {
        assert(all[i as int] == list@[i as int]@);
        if same_path(list[i].as_str(), path) {
            return true;
        }
        i = i + 1;
    }
    false
}

/// How much of the first `n` characters is left once what says nothing at their end is gone.
fn trim_end(cs: &Vec<char>, start: usize, n: usize) -> (r: usize)
    requires
        n <= cs@.len(),
    ensures
        r <= n,
        cs@.take(r as int) == trimmed(cs@.take(n as int), start as nat),
{
    let mut k: usize = n;
    while k > start
        invariant
            k <= n <= cs@.len(),
            trimmed(cs@.take(k as int), start as nat) == trimmed(cs@.take(n as int), start as nat),
        ensures
            k <= n <= cs@.len(),
            cs@.take(k as int) == trimmed(cs@.take(n as int), start as nat),
        decreases k,
    {
        assert(cs@.take(k as int).drop_last() =~= cs@.take(k - 1));
        assert(cs@.take(k as int).last() == cs@[k - 1]);
        let dot = cs[k - 1] == '.' && (k - 1 == start || cs[k - 2] == '/');
        if cs[k - 1] != '/' && !dot {
            break;
        }
        k = k - 1;
    }
    k
}

/// The directory a path is in.
pub fn parent(path: &str) -> (r: Option<String>)
    ensures
        match r {
            Some(dir) => parent_of(path@) == Some(dir@),
            None => parent_of(path@) is None,
        },
{
    let cs = chars_of(path);
    let dot = dotted(&cs);
    let start: usize = if absolute(path) || dot { 1 } else { 0 };
    assert(cs@.take(cs@.len() as int) =~= cs@);
    let n = trim_end(&cs, start, cs.len());
    if n <= start {
        if dot {
            return Some(String::new());
        }
        return None;
    }
    let mut k: usize = n;
    while k > start && cs[k - 1] != '/'
        invariant
            k <= n <= cs@.len(),
            unnamed(cs@.take(k as int), start as nat) == unnamed(cs@.take(n as int), start as nat),
        decreases k,
    {
        assert(cs@.take(k as int).drop_last() =~= cs@.take(k - 1));
        assert(cs@.take(k as int).last() == cs@[k - 1]);
        k = k - 1;
    }
    assert(cs@.take(k as int) == unnamed(cs@.take(n as int), start as nat)) by {
        if k > start {
            assert(cs@.take(k as int).last() == cs@[k - 1]);
        }
    }
    let m = trim_end(&cs, start, k);
    assert(cs@.subrange(0, m as int) =~= cs@.take(m as int));
    Some(string_of(&cs, 0, m))
}

/// A path and all the directories above it, outermost first.
pub fn ancestors_of(path: &str) -> (r: Vec<String>)
    ensures
        views(r@) == ancestors(path@),
    decreases path@.len(),
{
    broadcast use group_views;

    proof {
        parents_begin_paths(path@);
    }
    let mut out = match parent(path) {
        Some(dir) => ancestors_of(dir.as_str()),
        None => Vec::new(),
    };
    out.push(path.to_owned());
    assert(views(out@) =~= ancestors(path@));
    out
}

/// The directories above a path, outermost first.
pub fn dirs_above(path: &str) -> (r: Vec<String>)
    ensures
        views(r@) == above(path@),
{
    match parent(path) {
        Some(dir) => ancestors_of(dir.as_str()),
        None => {
            let none: Vec<String> = Vec::new();
            assert(views(none@) =~= Seq::<Seq<char>>::empty());
            none
        },
    }
}

/// Where something is said first, from `k` on.
fn skip_lead(cs: &Vec<char>, from: usize) -> (r: usize)
    requires
        from <= cs@.len(),
    ensures
        from <= r <= cs@.len(),
        cs@.skip(r as int) == unled(cs@.skip(from as int)),
{
    let mut k: usize = from;
    while k < cs.len() && (cs[k] == '/' || (cs[k] == '.' && (k + 1 == cs.len() || cs[k + 1]
        == '/')))
        invariant
            from <= k <= cs@.len(),
            unled(cs@.skip(k as int)) == unled(cs@.skip(from as int)),
        decreases cs@.len() - k,
    {
        assert(cs@.skip(k as int).skip(1) =~= cs@.skip(k + 1));
        k = k + 1;
    }
    k
}

/// What is said from `from` on, without what says nothing at either end.
fn clean(cs: &Vec<char>, from: usize) -> (r: String)
    requires
        from <= cs@.len(),
    ensures
        r@ == trimmed(unled(cs@.skip(from as int)), 0),
{
    let a = skip_lead(cs, from);
    let rest = part_of(cs, a, cs.len());
    assert(rest@ =~= cs@.skip(a as int));
    assert(rest@.take(rest@.len() as int) =~= rest@);
    let n = trim_end(&rest, 0, rest.len());
    assert(rest@.subrange(0, n as int) =~= rest@.take(n as int));
    string_of(&rest, 0, n)
}

/// A path as it goes on from the root.
pub fn below_root(path: &str) -> (r: String)
    ensures
        r@ == from_root(path@),
{
    if absolute(path) {
        clean(&chars_of(path), 1)
    } else {
        path.to_owned()
    }
}

/// A path as it goes on below `/run`, if it is below it or `/run` itself.
pub fn under_run(path: &str) -> (r: Option<String>)
    ensures
        match r {
            Some(rel) => below_run(path@) == Some(rel@),
            None => below_run(path@) is None,
        },
{
    if !absolute(path) {
        return None;
    }
    let cs = chars_of(path);
    let a = skip_lead(&cs, 1);
    let ghost s = cs@.skip(a as int);
    let mut k: usize = a;
    assert(s.skip(0) =~= s);
    while k < cs.len() && cs[k] != '/'
        invariant
            a <= k <= cs@.len(),
            s == cs@.skip(a as int),
            first_len(s) == (k - a) + first_len(s.skip(k - a)),
        decreases cs@.len() - k,
    {
        assert(s.skip(k - a)[0] == cs@[k as int]);
        assert(s.skip(k - a).skip(1) =~= s.skip(k + 1 - a));
        k = k + 1;
    }
    assert(first_len(s) == k - a) by {
        if k < cs@.len() {
            assert(s.skip(k - a)[0] == cs@[k as int]);
        }
    }
    let name = string_of(&cs, a, k);
    assert(name@ =~= s.take(first_len(s) as int));
    if !same_text(name.as_str(), "run") {
        return None;
    }
    assert(s.skip(first_len(s) as int) =~= cs@.skip(k as int));
    Some(clean(&cs, k))
}

/// What is wrong with a path that C cannot hold.
pub open spec fn nul_fault(path: Seq<char>) -> Option<Seq<char>> {
    if path.contains('\0') {
        Some("NUL in "@ + path)
    } else {
        None
    }
}

/// Whether C can hold a path.
pub fn check_nul(path: &str) -> (r: Option<String>)
    ensures
        match r {
            Some(e) => nul_fault(path@) == Some(e@),
            None => nul_fault(path@) is None,
        },
{
    match find_char(&chars_of(path), '\0') {
        Some(i) => {
            assert(path@[i as int] == '\0');
            let mut text = "NUL in ".to_owned();
            text.append(path);
            Some(text)
        },
        None => None,
    }
}

/// Whether a list holds a text.
pub fn holds_text(list: &Vec<String>, text: &str) -> (r: bool)
    ensures
        r == views(list@).contains(text@),
{
    broadcast use group_views;

    let mut i: usize = 0;
    while i < list.len()
        invariant
            i <= list@.len(),
            forall|j: int| 0 <= j < i ==> views(list@)[j] != text@,
        decreases list@.len() - i,
    {
        if same_text(list[i].as_str(), text) {
            assert(views(list@)[i as int] == text@);
            return true;
        }
        i = i + 1;
    }
    false
}

/// A path that says nothing at its ends: no slash in front or behind, no lone dot there.
pub open spec fn is_neat(s: Seq<char>) -> bool {
    &&& s.len() > 0
    &&& s[0] != '/'
    &&& !starts_at_dot(s)
    &&& s.last() != '/'
    &&& !(s.last() == '.' && (s.len() == 1 || s[s.len() - 2] == '/'))
}

/// What stands behind the root's slash is how a path goes on from the root; a relative path goes
/// on as it is.
pub proof fn paths_go_on_from_the_root(s: Seq<char>)
    requires
        is_neat(s),
    ensures
        from_root(seq!['/'] + s) == s,
        from_root(s) == s,
{
    assert((seq!['/'] + s).skip(1) =~= s);
    assert(unled(s) == s);
    assert(trimmed(s, 0) == s);
}

/// A path below "/run" goes on with what stands behind it; "/run" itself with nothing; and a
/// path that does not start at the root, or has another first name, is not below it.
pub proof fn paths_go_on_below_run(s: Seq<char>, name: Seq<char>)
    requires
        is_neat(s),
        name.len() > 0,
        !name.contains('/'),
        !starts_at_dot(name + seq!['/'] + s),
    ensures
        below_run("/run/"@ + s) == Some(s),
        below_run("/run"@) == Some(Seq::<char>::empty()),
        below_run(s) is None,
        name != "run"@ ==> below_run(seq!['/'] + name + seq!['/'] + s) is None,
{
    reveal_strlit("/run/");
    reveal_strlit("/run");
    reveal_strlit("run");
    let a = "/run/"@ + s;
    let r = "run"@;
    let t = a.skip(1);
    assert(t =~= r + seq!['/'] + s);
    assert(t[0] == 'r');
    assert(unled(t) == t);
    lemma_first_len(r, seq!['/'] + s);
    assert(r + (seq!['/'] + s) =~= t);
    assert(t.take(3) =~= r);
    let u = t.skip(3);
    assert(u =~= seq!['/'] + s);
    assert(u.skip(1) =~= s);
    assert(unled(u) == unled(s));
    assert(unled(s) == s);
    assert(trimmed(s, 0) == s);
    let b = "/run"@.skip(1);
    assert(b =~= r);
    assert(unled(b) == b);
    lemma_first_len(r, Seq::empty());
    assert(r + Seq::<char>::empty() =~= r);
    assert(b.take(3) =~= r);
    assert(b.skip(3) =~= Seq::<char>::empty());
    assert(unled(Seq::<char>::empty()) =~= Seq::<char>::empty());
    let w = name + seq!['/'] + s;
    let whole = seq!['/'] + name + seq!['/'] + s;
    assert(whole.skip(1) =~= w);
    assert(w[0] == name[0]);
    assert(name.contains(name[0]));
    assert(unled(w) == w);
    lemma_first_len(name, seq!['/'] + s);
    assert(name + (seq!['/'] + s) =~= w);
    assert(w.take(name.len() as int) =~= name);
}

proof fn lemma_first_len(name: Seq<char>, rest: Seq<char>)
    requires
        !name.contains('/'),
        rest.len() > 0 ==> rest[0] == '/',
    ensures
        first_len(name + rest) == name.len(),
    decreases name.len(),
{
    let s = name + rest;
    if name.len() > 0 {
        assert(name.contains(name[0]));
        let more = name.skip(1);
        assert(s.skip(1) =~= more + rest);
        assert(!more.contains('/')) by {
            if more.contains('/') {
                let i = choose|i: int| 0 <= i < more.len() && more[i] == '/';
                assert(name[i + 1] == '/');
            }
        }
        lemma_first_len(more, rest);
    }
}

/// The directory that a name is in, where the directory is written neatly; and a name alone is
/// in the current one.
pub proof fn a_name_is_in_its_directory(dir: Seq<char>, name: Seq<char>)
    requires
        name.len() > 0,
        !name.contains('/'),
        name != "."@,
    ensures
        is_neat(dir) ==> parent_of(dir + seq!['/'] + name) == Some(dir),
        parent_of(seq!['/'] + name) == Some("/"@),
        parent_of("/"@) is None,
        parent_of(Seq::empty()) is None,
{
    reveal_strlit("/");
    reveal_strlit(".");
    let n = name.len() as int;
    assert(name.contains(name[n - 1]));
    assert(name.len() == 1 ==> name[0] != '.') by {
        if name.len() == 1 && name[0] == '.' {
            assert(name =~= "."@);
        }
    }
    let top = seq!['/'] + name;
    assert(top.last() == name.last());
    if n >= 2 {
        assert(top[top.len() - 2] == name[n - 2]);
        assert(name.contains(name[n - 2]));
    }
    assert(trimmed(top, 1) == top);
    lemma_unnamed_name(seq!['/'], name, 1);
    assert(unnamed(top, 1) == seq!['/']);
    assert(seq!['/'] =~= "/"@);
    assert(trimmed(seq!['/'], 1) == seq!['/']);
    let s = "/"@;
    assert(is_absolute(s));
    assert(trimmed(s, 1) == s);
    if is_neat(dir) {
        let p = dir + seq!['/'] + name;
        assert(p[0] == dir[0]);
        assert(!is_absolute(p));
        if dir.len() >= 2 {
            assert(p[1] == dir[1]);
        } else {
            assert(dir.last() == dir[0]);
            assert(dir[0] != '.');
        }
        assert(!starts_at_dot(p));
        assert(body(p) == 0);
        assert(p.last() == name.last());
        assert(p[p.len() - 2] == if n >= 2 { name[n - 2] } else { '/' });
        if n >= 2 {
            assert(name.contains(name[n - 2]));
        }
        assert(trimmed(p, 0) == p);
        let d = dir + seq!['/'];
        assert(p =~= d + name);
        lemma_unnamed_name(d, name, 0);
        assert(unnamed(p, 0) == d);
        assert(d.drop_last() =~= dir);
        assert(trimmed(d, 0) == trimmed(dir, 0));
        assert(trimmed(dir, 0) == dir);
    }
}

proof fn lemma_unnamed_name(d: Seq<char>, name: Seq<char>, start: nat)
    requires
        d.len() > 0,
        d.last() == '/',
        d.len() >= start,
        !name.contains('/'),
    ensures
        unnamed(d + name, start) == d,
    decreases name.len(),
{
    let p = d + name;
    if name.len() == 0 {
        assert(p =~= d);
    } else {
        assert(name.contains(name.last()));
        assert(p.last() == name.last());
        let front = name.drop_last();
        assert(p.drop_last() =~= d + front);
        assert(!front.contains('/')) by {
            if front.contains('/') {
                let i = choose|i: int| 0 <= i < front.len() && front[i] == '/';
                assert(name[i] == '/');
            }
        }
        lemma_unnamed_name(d, front, start);
    }
}

/// What a path is made of: the root where it starts there, and every name between its slashes
/// but for lone dots; so two paths are the same that differ in neither.
pub proof fn a_path_is_made_of_its_names(path: Seq<char>, part: Seq<char>)
    ensures
        parts(path).contains(part) <==> pieces(path, '/').contains(part) && part.len() > 0 && part
            != seq!['.'],
        path.len() > 0 && path[0] == '/' ==> comps(path).len() == parts(path).len() + 1
            && comps(path)[0] == "/"@ && comps(path).skip(1) == parts(path),
        !(path.len() > 0 && path[0] == '/') && !starts_at_dot(path) ==> comps(path) == parts(path),
        nul_fault(path) is Some <==> path.contains('\0'),
        path.contains('\0') ==> nul_fault(path) == Some("NUL in "@ + path),
{
    crate::views::lemma_kept_contains(
        pieces(path, '/'),
        |p: Seq<char>| names_something(p),
        part,
    );
    if is_absolute(path) {
        assert(comps(path).skip(1) =~= parts(path));
    }
}

/// A path is below a directory where it is made of what the directory is made of and more.
pub proof fn below_is_made_of_more(path: Seq<char>, dir: Seq<char>)
    ensures
        is_below(path, dir) <==> comps(dir).len() <= comps(path).len() && comps(path).take(
            comps(dir).len() as int,
        ) == comps(dir),
        is_below(path, path),
{
    if comps(dir).len() <= comps(path).len() {
        assert(comps(path).take(comps(dir).len() as int) =~= comps(path).subrange(
            0,
            comps(dir).len() as int,
        ));
    }
    assert(comps(path).subrange(0, comps(path).len() as int) =~= comps(path));
}

/// The directories of a path, outermost first: each is the parent of the next, the last is the
/// path itself; those above it are the same without it.
pub proof fn ancestors_lead_to_the_path(path: Seq<char>)
    ensures
        ancestors(path).len() > 0,
        ancestors(path).last() == path,
        parent_of(path) is Some ==> ancestors(path).drop_last() == ancestors(parent_of(path)->0),
        parent_of(path) is None ==> ancestors(path).len() == 1,
        parent_of(path) is Some ==> above(path) == ancestors(parent_of(path)->0),
        parent_of(path) is None ==> above(path).len() == 0,
{
    if parent_of(path) is Some {
        assert(ancestors(path).drop_last() =~= ancestors(parent_of(path)->0));
    }
}

/// Slashes too many, in front and behind, and lone dots at the end, say nothing.
pub proof fn what_says_nothing_goes(s: Seq<char>)
    requires
        is_neat(s),
    ensures
        from_root(seq!['/'] + s + seq!['/']) == s,
        from_root(seq!['/', '/'] + s) == s,
        from_root(seq!['/'] + s + seq!['/', '.']) == s,
        from_root("/"@) == Seq::<char>::empty(),
{
    let a = (seq!['/'] + s + seq!['/']).skip(1);
    assert(a =~= s.push('/'));
    assert(a[0] == s[0]);
    if s.len() == 1 {
        assert(s.last() == s[0]);
        assert(s[0] != '.');
    }
    assert(unled(a) == a);
    assert(a.drop_last() =~= s);
    assert(trimmed(a, 0) == trimmed(s, 0));
    assert(trimmed(s, 0) == s);
    let b = (seq!['/', '/'] + s).skip(1);
    assert(b =~= seq!['/'] + s);
    assert(b.skip(1) =~= s);
    assert(unled(b) == unled(s));
    assert(unled(s) == s);
    let c = (seq!['/'] + s + seq!['/', '.']).skip(1);
    assert(c =~= s.push('/').push('.'));
    assert(c[0] == s[0]);
    if s.len() >= 2 {
        assert(c[1] == s[1]);
    }
    assert(unled(c) == c);
    assert(c.drop_last() =~= a);
    assert(c[c.len() - 2] == '/');
    assert(trimmed(c, 0) == trimmed(a, 0));
    reveal_strlit("/");
    assert("/"@.skip(1) =~= Seq::<char>::empty());
    assert(unled(Seq::<char>::empty()) =~= Seq::<char>::empty());
    assert(trimmed(Seq::<char>::empty(), 0) =~= Seq::<char>::empty());
}

/// A path starts at the current directory where it is a lone dot or one with a slash behind it;
/// and then that is the first thing it is made of.
pub proof fn a_lone_dot_is_here(s: Seq<char>, c: char)
    ensures
        starts_at_dot(seq!['.']),
        starts_at_dot(seq!['.', '/'] + s),
        c != '/' ==> !starts_at_dot(seq!['.', c] + s),
        c != '.' ==> !starts_at_dot(seq![c] + s),
        comps(seq!['.', '/'] + s) == seq!["."@] + parts(seq!['.', '/'] + s),
{
}

} // verus!
