//! Names and paths on the buses: unique names, object paths, file URIs.
use vstd::prelude::*;
use vstd::string::*;

use crate::text::{chars_of, string_of};

verus! {

/// Where apps find the server's socket.
pub const SOCKET_ENV: &'static str = "DRV_BRIDGE_SOCKET";

pub const PORTAL_NAME: &'static str = "org.freedesktop.portal.Desktop";

pub const PORTAL_PATH: &'static str = "/org/freedesktop/portal/desktop";

pub const NOTIFICATIONS_NAME: &'static str = "org.freedesktop.Notifications";

pub const NOTIFICATIONS_PATH: &'static str = "/org/freedesktop/Notifications";

/// `s` without the colons in front.
pub open spec fn without_colons(s: Seq<char>) -> Seq<char>
    decreases s.len(),
{
    if s.len() > 0 && s[0] == ':' {
        without_colons(s.skip(1))
    } else {
        s
    }
}

/// Every `from` of `s` become `to`.
pub open spec fn replaced(s: Seq<char>, from: char, to: char) -> Seq<char> {
    s.map_values(
        |c: char|
            if c == from {
                to
            } else {
                c
            },
    )
}

/// The part of a unique name that portals put in object paths.
pub open spec fn component_of(unique: Seq<char>) -> Seq<char> {
    replaced(without_colons(unique), '.', '_')
}

/// The unique name that a component of an object path stands for.
pub open spec fn unique_of(component: Seq<char>) -> Seq<char> {
    seq![':'] + replaced(component, '_', '.')
}

fn replace(s: &Vec<char>, start: usize, from: char, to: char, out: &mut String)
    requires
        start <= s@.len(),
    ensures
        final(out)@ == old(out)@ + replaced(s@.skip(start as int), from, to),
{
    let ghost before = out@;
    let ghost rest = s@.skip(start as int);
    let mut i: usize = start;
    assert(before + replaced(rest.take(0), from, to) =~= before);
    while i < s.len()
        invariant
            start <= i <= s@.len(),
            rest == s@.skip(start as int),
            out@ == before + replaced(rest.take(i - start), from, to),
        decreases s@.len() - i,
    {
        let c = if s[i] == from { to } else { s[i] };
        out.push(c);
        assert(before + replaced(rest.take(i - start + 1), from, to) =~= (before + replaced(
            rest.take(i - start),
            from,
            to,
        )).push(c));
        i = i + 1;
    }
    assert(rest.take(i - start) =~= rest);
}

/// The part of a unique name that portals put in object paths: `:1.7` becomes `1_7`.
pub fn sender_component(unique: &str) -> (r: String)
    ensures
        r@ == component_of(unique@),
{
    let cs = chars_of(unique);
    let mut i: usize = 0;
    assert(unique@.skip(0) =~= unique@);
    while i < cs.len() && cs[i] == ':'
        invariant
            i <= cs@.len(),
            cs@ == unique@,
            without_colons(unique@.skip(i as int)) == without_colons(unique@),
        decreases cs@.len() - i,
    {
        assert(unique@.skip(i as int).skip(1) =~= unique@.skip(i + 1));
        i = i + 1;
    }
    let mut out = String::new();
    replace(&cs, i, '.', '_', &mut out);
    assert(out@ =~= component_of(unique@));
    out
}

/// The reverse of [`sender_component`].
pub fn unique_from_component(component: &str) -> (r: String)
    ensures
        r@ == unique_of(component@),
{
    let cs = chars_of(component);
    let mut out = String::new();
    out.push(':');
    replace(&cs, 0, '_', '.', &mut out);
    assert(component@.skip(0) =~= component@);
    assert(out@ =~= unique_of(component@));
    out
}

/// A unique name as the bus gives them: one colon in front, and no underscore.
pub open spec fn is_unique_name(s: Seq<char>) -> bool {
    s.len() > 0 && s[0] == ':' && !s.skip(1).contains('_') && !(s.len() > 1 && s[1] == ':')
}

/// A unique name comes back from its component.
pub proof fn unique_names_come_back(unique: Seq<char>)
    requires
        is_unique_name(unique),
    ensures
        unique_of(component_of(unique)) == unique,
{
    let rest = unique.skip(1);
    assert(without_colons(unique) == without_colons(rest));
    assert(without_colons(rest) == rest);
    let back = replaced(replaced(rest, '.', '_'), '_', '.');
    assert forall|i: int| 0 <= i < rest.len() implies back[i] == rest[i] by {
        assert(rest.contains(rest[i]));
    }
    assert(back =~= rest);
    assert(seq![':'] + rest =~= unique);
}

/// A character that a token keeps.
pub open spec fn is_token_char(c: char) -> bool {
    ('0' <= c && c <= '9') || ('A' <= c && c <= 'Z') || ('a' <= c && c <= 'z') || c == '_'
}

/// A token with everything a path element cannot hold made an underscore.
pub open spec fn token_of(s: Seq<char>) -> Seq<char> {
    s.map_values(
        |c: char|
            if is_token_char(c) {
                c
            } else {
                '_'
            },
    )
}

fn push_token(out: &mut String, s: &str)
    ensures
        final(out)@ == old(out)@ + token_of(s@),
{
    let cs = chars_of(s);
    let ghost before = out@;
    let mut i: usize = 0;
    assert(before + token_of(s@.take(0)) =~= before);
    while i < cs.len()
        invariant
            i <= cs@.len(),
            cs@ == s@,
            out@ == before + token_of(s@.take(i as int)),
        decreases cs@.len() - i,
    {
        let c = cs[i];
        let keep = ('0' <= c && c <= '9') || ('A' <= c && c <= 'Z') || ('a' <= c && c <= 'z') || c
            == '_';
        let t = if keep { c } else { '_' };
        out.push(t);
        assert(before + token_of(s@.take(i + 1)) =~= (before + token_of(s@.take(i as int))).push(t));
        i = i + 1;
    }
    assert(s@.take(i as int) =~= s@);
}

/// An app's handle: its token under its own caller component.
pub open spec fn handle_path(session: bool, caller: Seq<char>, token: Seq<char>) -> Seq<char> {
    PORTAL_PATH@ + "/"@ + (if session {
        "session"@
    } else {
        "request"@
    }) + "/"@ + component_of(caller) + "/"@ + token_of(token)
}

/// Makes an app's handle of its token.
pub fn handle_of(session: bool, caller: &str, token: &str) -> (r: String)
    ensures
        r@ == handle_path(session, caller@, token@),
{
    let mut out = PORTAL_PATH.to_owned();
    out.append("/");
    out.append(if session { "session" } else { "request" });
    out.append("/");
    out.append(sender_component(caller).as_str());
    out.append("/");
    push_token(&mut out, token);
    out
}

/// A token is one path element: no slash gets into a handle through it.
pub proof fn tokens_are_one_element(s: Seq<char>)
    ensures
        token_of(s).len() == s.len(),
        forall|i: int| 0 <= i < s.len() ==> is_token_char(#[trigger] token_of(s)[i]),
        !token_of(s).contains('/'),
        token_of(token_of(s)) == token_of(s),
{
    assert forall|i: int| 0 <= i < s.len() implies is_token_char(#[trigger] token_of(s)[i]) by {}
    assert(!is_token_char('/'));
    assert(token_of(token_of(s)) =~= token_of(s));
}

/// An object path: it begins with a slash, its elements are token characters, none is empty,
/// and it does not end with a slash, but for the root's.
pub open spec fn is_object_path(path: Seq<char>) -> bool {
    &&& path.len() > 0 && path[0] == '/'
    &&& path.len() > 1 ==> path.last() != '/'
    &&& forall|i: int| 0 <= i < path.len() ==> is_token_char(#[trigger] path[i]) || path[i] == '/'
    &&& forall|i: int|
        0 < i < path.len() ==> !((#[trigger] path[i]) == '/' && path[i - 1] == '/')
}

/// What is said of a text that is no object path.
pub const INVALID_PATH: &'static str = "Invalid object path";

/// `ObjectPath::try_from` of zvariant on a text: it takes the object paths, and says the same of
/// every other.
#[verifier::external_body]
pub(crate) fn object_path(path: &str) -> (r: Result<(), String>)
    ensures
        match r {
            Ok(_) => is_object_path(path@),
            Err(e) => !is_object_path(path@) && e@ == INVALID_PATH@,
        },
{
    match zbus::zvariant::ObjectPath::try_from(path) {
        Ok(_) => Ok(()),
        Err(e) => Err(e.to_string()),
    }
}

/// A part that fits into an object path between slashes.
pub open spec fn is_element(s: Seq<char>) -> bool {
    s.len() > 0 && forall|i: int| 0 <= i < s.len() ==> is_token_char(#[trigger] s[i])
}

proof fn lemma_path_grows(path: Seq<char>, s: Seq<char>)
    requires
        is_object_path(path),
        path.len() > 1,
    ensures
        is_element(s) ==> is_object_path(path + "/"@ + s),
        s.len() == 0 ==> !is_object_path(path + "/"@ + s),
{
    reveal_strlit("/");
    let all = path + "/"@ + s;
    let n = path.len() as int;
    if is_element(s) {
        assert forall|i: int| 0 <= i < all.len() implies is_token_char(#[trigger] all[i]) || all[i]
            == '/' by {
            if i < n {
                assert(all[i] == path[i]);
            } else if i > n {
                assert(all[i] == s[i - n - 1]);
            }
        }
        assert forall|i: int| 0 < i < all.len() implies !((#[trigger] all[i]) == '/' && all[i - 1]
            == '/') by {
            if i < n {
                assert(all[i] == path[i] && all[i - 1] == path[i - 1]);
            } else if i == n {
                assert(all[i - 1] == path.last());
            } else {
                assert(all[i] == s[i - n - 1]);
                assert(!is_token_char('/'));
            }
        }
        assert(all.last() == s.last());
        assert(is_token_char(s[s.len() - 1]));
    } else if s.len() == 0 {
        assert(all.last() == '/');
    }
}

/// The handle of an app whose name on the bus fits into a path is an object path but for one
/// whose token is empty.
pub proof fn only_an_empty_token_spoils_a_handle(session: bool, caller: Seq<char>, token: Seq<char>)
    requires
        is_element(component_of(caller)),
    ensures
        is_object_path(handle_path(session, caller, token)) <==> token.len() > 0,
{
    reveal_strlit("/");
    reveal_strlit("/org/freedesktop/portal/desktop");
    reveal_strlit("session");
    reveal_strlit("request");
    let a = PORTAL_PATH@;
    assert(a == "/org/freedesktop/portal/desktop"@);
    assert(is_object_path(a));
    let kind = if session {
        "session"@
    } else {
        "request"@
    };
    assert(is_element(kind));
    lemma_path_grows(a, kind);
    let b = a + "/"@ + kind;
    lemma_path_grows(b, component_of(caller));
    let c = b + "/"@ + component_of(caller);
    tokens_are_one_element(token);
    lemma_path_grows(c, token_of(token));
    assert(handle_path(session, caller, token) =~= c + "/"@ + token_of(token));
    assert(is_element(token_of(token)) <==> token.len() > 0);
}

/// A byte that a URI holds as it is.
pub open spec fn is_plain_byte(b: u8) -> bool {
    (0x30 <= b && b <= 0x39) || (0x41 <= b && b <= 0x5a) || (0x61 <= b && b <= 0x7a) || b == 0x2d
        || b == 0x2e || b == 0x5f || b == 0x7e || b == 0x2f
}

/// The upper-case hexadecimal digit of a number below 16.
pub open spec fn hex_digit(n: u8) -> char {
    if n < 10 {
        (48 + n) as char
    } else {
        (55 + n) as char
    }
}

fn hex_of(n: u8) -> (r: char)
    requires
        n < 16,
    ensures
        r == hex_digit(n),
{
    if n < 10 {
        (48 + n) as char
    } else {
        (55 + n) as char
    }
}

/// A byte as a URI holds it.
pub open spec fn escaped_byte(b: u8) -> Seq<char> {
    if is_plain_byte(b) {
        seq![b as char]
    } else {
        seq!['%', hex_digit(b / 16), hex_digit((b % 16) as u8)]
    }
}

/// Bytes as a URI holds them.
pub open spec fn escaped(bytes: Seq<u8>) -> Seq<char>
    decreases bytes.len(),
{
    if bytes.len() == 0 {
        Seq::empty()
    } else {
        escaped(bytes.drop_last()) + escaped_byte(bytes.last())
    }
}

/// A path as a `file://` URI.
pub open spec fn uri_of(path: Seq<char>) -> Seq<char> {
    "file://"@ + escaped(vstd::utf8::encode_utf8(path))
}

/// `file://` with everything outside the unreserved set escaped.
pub fn file_uri(path: &str) -> (r: String)
    ensures
        r@ == uri_of(path@),
{
    let bytes = path.as_bytes();
    let mut out = "file://".to_owned();
    let ghost head = out@;
    let mut i: usize = 0;
    assert(head + escaped(bytes@.take(0)) =~= head);
    while i < bytes.len()
        invariant
            i <= bytes@.len(),
            out@ == head + escaped(bytes@.take(i as int)),
        decreases bytes@.len() - i,
    {
        let b = bytes[i];
        assert(bytes@.take(i + 1).drop_last() =~= bytes@.take(i as int));
        let ghost before = out@;
        let plain = (0x30 <= b && b <= 0x39) || (0x41 <= b && b <= 0x5a) || (0x61 <= b && b <= 0x7a)
            || b == 0x2d || b == 0x2e || b == 0x5f || b == 0x7e || b == 0x2f;
        if plain {
            out.push(b as char);
        } else {
            out.push('%');
            out.push(hex_of(b / 16));
            out.push(hex_of(b % 16));
        }
        assert(out@ =~= before + escaped_byte(b));
        assert(out@ =~= head + escaped(bytes@.take(i + 1)));
        i = i + 1;
    }
    assert(bytes@.take(i as int) =~= bytes@);
    out
}

/// The number a hexadecimal digit stands for, as std reads one: either case.
pub open spec fn hex_value(c: u8) -> Option<u8> {
    if 0x30 <= c && c <= 0x39 {
        Some((c - 0x30) as u8)
    } else if 0x41 <= c && c <= 0x46 {
        Some((c - 0x37) as u8)
    } else if 0x61 <= c && c <= 0x66 {
        Some((c - 0x57) as u8)
    } else {
        None
    }
}

/// The byte that two characters behind a percent sign stand for; std takes a plus sign in
/// front of the last digit.
pub open spec fn hex_pair(a: u8, b: u8) -> Option<u8> {
    match (hex_value(a), hex_value(b)) {
        (Some(x), Some(y)) => Some((x * 16 + y) as u8),
        (None, Some(y)) => if a == 0x2b {
            Some(y)
        } else {
            None
        },
        _ => None,
    }
}

/// Bytes with their percent escapes undone.
pub open spec fn unescaped(bytes: Seq<u8>) -> Seq<u8>
    decreases bytes.len(),
{
    if bytes.len() == 0 {
        Seq::empty()
    } else if bytes[0] == 0x25 && bytes.len() > 2 && hex_pair(bytes[1], bytes[2]) is Some {
        seq![hex_pair(bytes[1], bytes[2])->0] + unescaped(bytes.skip(3))
    } else {
        seq![bytes[0]] + unescaped(bytes.skip(1))
    }
}

/// The text of bytes that may not be UTF-8.
pub uninterp spec fn lossy_text(bytes: Seq<u8>) -> Seq<char>;

/// `String::from_utf8_lossy` of std: the text of the bytes where they are UTF-8, else one that
/// depends on the bytes alone.
#[verifier::external_body]
pub(crate) fn lossy(bytes: &Vec<u8>) -> (r: String)
    ensures
        r@ == lossy_text(bytes@),
        vstd::utf8::valid_utf8(bytes@) ==> r@ == vstd::utf8::decode_utf8(bytes@),
{
    String::from_utf8_lossy(bytes).into_owned()
}

fn hex_value_of(c: u8) -> (r: Option<u8>)
    ensures
        r == hex_value(c),
        r is Some ==> r->0 < 16,
{
    if 0x30 <= c && c <= 0x39 {
        Some(c - 0x30)
    } else if 0x41 <= c && c <= 0x46 {
        Some(c - 0x37)
    } else if 0x61 <= c && c <= 0x66 {
        Some(c - 0x57)
    } else {
        None
    }
}

fn hex_pair_of(a: u8, b: u8) -> (r: Option<u8>)
    ensures
        r == hex_pair(a, b),
{
    match (hex_value_of(a), hex_value_of(b)) {
        (Some(x), Some(y)) => Some(x * 16 + y),
        (None, Some(y)) => if a == 0x2b {
            Some(y)
        } else {
            None
        },
        _ => None,
    }
}

/// The bytes of a URI behind `file://`, where that is there.
pub open spec fn uri_bytes(uri: Seq<char>) -> Seq<u8> {
    match crate::text::after_prefix(uri, "file://"@) {
        Some(rest) => vstd::utf8::encode_utf8(rest),
        None => vstd::utf8::encode_utf8(uri),
    }
}

/// The path a `file://` URI names: its escapes undone.
pub fn path_of(uri: &str) -> (r: String)
    ensures
        r@ == lossy_text(unescaped(uri_bytes(uri@))),
        vstd::utf8::valid_utf8(unescaped(uri_bytes(uri@))) ==> r@ == vstd::utf8::decode_utf8(
            unescaped(uri_bytes(uri@)),
        ),
{
    let rest: String = match crate::text::strip_front(&chars_of(uri), "file://") {
        Some(rest) => {
            let s = string_of(&rest, 0, rest.len());
            assert(s@ =~= rest@);
            s
        },
        None => uri.to_owned(),
    };
    let bytes = rest.as_str().as_bytes();
    let ghost all = bytes@;
    assert(all == uri_bytes(uri@));
    let mut out: Vec<u8> = Vec::new();
    let mut i: usize = 0;
    assert(all.skip(0) =~= all);
    while i < bytes.len()
        invariant
            i <= bytes@.len(),
            all == bytes@,
            unescaped(all) =~= out@ + unescaped(all.skip(i as int)),
        decreases bytes@.len() - i,
    {
        let ghost here = all.skip(i as int);
        let n: usize = bytes.len();
        let ghost before = out@;
        if bytes[i] == 0x25 && n - i > 2 {
            if let Some(b) = hex_pair_of(bytes[i + 1], bytes[i + 2]) {
                out.push(b);
                assert(here.skip(3) =~= all.skip(i + 3));
                assert(before + (seq![b] + unescaped(all.skip(i + 3))) =~= out@ + unescaped(
                    all.skip(i + 3),
                ));
                i = i + 3;
                continue;
            }
        }
        out.push(bytes[i]);
        assert(here.skip(1) =~= all.skip(i + 1));
        assert(before + (seq![bytes@[i as int]] + unescaped(all.skip(i + 1))) =~= out@ + unescaped(
            all.skip(i + 1),
        ));
        i = i + 1;
    }
    assert(out@ =~= unescaped(all)) by {
        assert(all.skip(i as int).len() == 0);
        assert(unescaped(all.skip(i as int)) =~= Seq::<u8>::empty());
        assert(out@ + Seq::<u8>::empty() =~= out@);
    }
    lossy(&out)
}

proof fn lemma_escaped_front(bytes: Seq<u8>)
    requires
        bytes.len() > 0,
    ensures
        escaped(bytes) == escaped_byte(bytes[0]) + escaped(bytes.skip(1)),
    decreases bytes.len(),
{
    if bytes.len() == 1 {
        assert(bytes.drop_last() =~= Seq::empty());
        assert(bytes.skip(1) =~= Seq::empty());
        assert(escaped(bytes) =~= escaped_byte(bytes[0]) + escaped(bytes.skip(1)));
    } else {
        lemma_escaped_front(bytes.drop_last());
        assert(bytes.drop_last().skip(1) =~= bytes.skip(1).drop_last());
        assert(escaped(bytes) =~= escaped_byte(bytes[0]) + escaped(bytes.skip(1)));
    }
}

/// ASCII text as bytes.
pub open spec fn ascii_bytes(s: Seq<char>) -> Seq<u8> {
    s.map_values(|c: char| c as u8)
}

proof fn lemma_escaped_ascii(bytes: Seq<u8>)
    ensures
        vstd::utf8::is_ascii_chars(escaped(bytes)),
    decreases bytes.len(),
{
    if bytes.len() > 0 {
        lemma_escaped_ascii(bytes.drop_last());
        let b = bytes.last();
        let e = escaped_byte(b);
        assert(b / 16 < 16 && b % 16 < 16);
        assert forall|i: int| 0 <= i < e.len() implies 0 <= #[trigger] e[i] as nat <= 127 by {}
        let all = escaped(bytes);
        let front = escaped(bytes.drop_last());
        assert forall|i: int| 0 <= i < all.len() implies 0 <= #[trigger] all[i] as nat <= 127 by {
            if i >= front.len() {
                assert(all[i] == e[i - front.len()]);
            } else {
                assert(all[i] == front[i]);
            }
        }
    }
}

proof fn lemma_unescape(bytes: Seq<u8>)
    ensures
        unescaped(ascii_bytes(escaped(bytes))) == bytes,
    decreases bytes.len(),
{
    if bytes.len() == 0 {
        assert(ascii_bytes(escaped(bytes)) =~= Seq::empty());
        assert(bytes =~= Seq::empty());
    } else {
        let b = bytes[0];
        let rest = bytes.skip(1);
        lemma_escaped_front(bytes);
        lemma_unescape(rest);
        let tail = ascii_bytes(escaped(rest));
        let whole = ascii_bytes(escaped(bytes));
        assert(whole =~= ascii_bytes(escaped_byte(b)) + tail);
        if is_plain_byte(b) {
            assert(whole[0] == b);
            assert(whole.skip(1) =~= tail);
        } else {
            assert(b / 16 < 16 && b % 16 < 16);
            assert(whole[0] == 0x25);
            assert(hex_value(whole[1]) == Some((b / 16) as u8));
            assert(hex_value(whole[2]) == Some((b % 16) as u8));
            assert(hex_pair(whole[1], whole[2]) == Some(b));
            assert(whole.skip(3) =~= tail);
        }
        assert(seq![b] + rest =~= bytes);
    }
}

/// The path that was made a URI comes back from it.
pub proof fn uris_name_their_path(path: Seq<char>)
    ensures
        unescaped(uri_bytes(uri_of(path))) == vstd::utf8::encode_utf8(path),
        vstd::utf8::decode_utf8(unescaped(uri_bytes(uri_of(path)))) == path,
{
    let bytes = vstd::utf8::encode_utf8(path);
    let uri = uri_of(path);
    let head = "file://"@;
    assert(head.is_prefix_of(uri)) by {
        assert(uri.subrange(0, head.len() as int) =~= head);
    }
    assert(uri.skip(head.len() as int) =~= escaped(bytes));
    lemma_escaped_ascii(bytes);
    vstd::utf8::is_ascii_chars_encode_utf8(escaped(bytes));
    assert(vstd::utf8::encode_utf8(escaped(bytes)) =~= ascii_bytes(escaped(bytes)));
    lemma_unescape(bytes);
    vstd::utf8::encode_utf8_decode_utf8(path);
}

} // verus!
