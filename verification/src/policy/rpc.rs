//! The policy daemons' messages: requests and responses in lock step, each message a
//! little-endian `u32` length followed by its payload.
use vstd::prelude::*;
use vstd::string::*;

use super::AppPolicy;
use crate::text::{chars_of, cut, split_once};
use crate::utf8::{byte_len, utf8_len};

verus! {

/// Bumped on any incompatible change; the daemon answers `Hello` with its own version.
pub const VERSION: u32 = 7;

/// Frames larger than this are refused, so a misbehaving peer cannot make us allocate freely.
pub const MAX_FRAME: usize = 65536;

/// A URI may be this long.
pub const MAX_URI: usize = 8192;

#[derive(Debug)]
pub enum Request {
    Hello { version: u32 },
    /// Policy for a UID. Anyone may ask about their own UID; other UIDs need a grant.
    Lookup { uid: u32 },
    /// Start an app by manifest name. Only on a launch channel.
    Launch { app: String },
    /// The names `Launch` accepts, for a menu. Only on a launch channel.
    Apps,
    /// Start the app that opens the URI. Only on a launch channel.
    Open { uri: String },
}

#[derive(Debug)]
pub enum Response {
    Hello { version: u32 },
    Policy(AppPolicy),
    /// The app was started under this UID.
    Launched { uid: u32 },
    /// The launchable app names, in manifest order.
    Apps(Vec<String>),
    /// The request was understood and refused.
    Error(String),
}

/// A printable ASCII character that is no space.
pub open spec fn is_graphic(c: char) -> bool {
    '!' <= c && c <= '~'
}

/// An ASCII letter.
pub open spec fn is_letter(c: char) -> bool {
    ('a' <= c && c <= 'z') || ('A' <= c && c <= 'Z')
}

/// A character of a scheme behind the first.
pub open spec fn is_scheme_char(c: char) -> bool {
    is_letter(c) || ('0' <= c && c <= '9') || c == '+' || c == '-' || c == '.'
}

/// A letter in lower case.
pub open spec fn lower_char(c: char) -> char {
    if 'A' <= c && c <= 'Z' {
        (c as u32 + 32) as char
    } else {
        c
    }
}

/// A scheme: a letter, then letters, digits, `+`, `-` or `.`.
pub open spec fn is_scheme(s: Seq<char>) -> bool {
    &&& s.len() > 0
    &&& is_letter(s[0])
    &&& forall|i: int| 1 <= i < s.len() ==> is_scheme_char(#[trigger] s[i])
}

/// The scheme of a URI, lowercased, where it is one that is passed along.
pub open spec fn scheme_of(uri: Seq<char>) -> Option<Seq<char>> {
    if byte_len(uri) > MAX_URI || !(forall|i: int|
        0 <= i < uri.len() ==> is_graphic(#[trigger] uri[i])) {
        None
    } else {
        match cut(uri, ':') {
            None => None,
            Some((scheme, _)) => if is_scheme(scheme) {
                Some(scheme.map_values(|c: char| lower_char(c)))
            } else {
                None
            },
        }
    }
}

fn letter(c: char) -> (r: bool)
    ensures
        r == is_letter(c),
{
    ('a' <= c && c <= 'z') || ('A' <= c && c <= 'Z')
}

/// The scheme of an absolute URI, lowercased, if `uri` is one we would pass along: ASCII
/// printable only, no spaces, at most 8 KiB. Anything else is not a URI to us.
pub fn uri_scheme(uri: &str) -> (r: Option<String>)
    ensures
        match r {
            Some(s) => scheme_of(uri@) == Some(s@),
            None => scheme_of(uri@) is None,
        },
{
    if utf8_len(uri) > MAX_URI {
        return None;
    }
    let cs = chars_of(uri);
    let mut i: usize = 0;
    while i < cs.len()
        invariant
            i <= cs@.len(),
            cs@ == uri@,
            forall|j: int| 0 <= j < i ==> is_graphic(#[trigger] uri@[j]),
        decreases cs@.len() - i,
    {
        if !('!' <= cs[i] && cs[i] <= '~') {
            assert(!is_graphic(uri@[i as int]));
            return None;
        }
        i = i + 1;
    }
    let scheme = match split_once(&cs, ':') {
        Some((scheme, _)) => scheme,
        None => return None,
    };
    if scheme.len() == 0 || !letter(scheme[0]) {
        return None;
    }
    let mut k: usize = 1;
    while k < scheme.len()
        invariant
            cut(uri@, ':') is Some,
            (cut(uri@, ':')->0).0 == scheme@,
            1 <= k <= scheme@.len(),
            forall|j: int| 1 <= j < k ==> is_scheme_char(#[trigger] scheme@[j]),
        decreases scheme@.len() - k,
    {
        let c = scheme[k];
        if !(letter(c) || ('0' <= c && c <= '9') || c == '+' || c == '-' || c == '.') {
            assert(!is_scheme_char(scheme@[k as int]));
            return None;
        }
        k = k + 1;
    }
    let ghost low = |c: char| lower_char(c);
    let mut out = String::new();
    let mut n: usize = 0;
    assert(out@ =~= scheme@.take(0).map_values(low));
    while n < scheme.len()
        invariant
            n <= scheme@.len(),
            low == (|c: char| lower_char(c)),
            forall|j: int| 0 <= j < scheme@.len() ==> is_scheme_char(#[trigger] scheme@[j]),
            out@ == scheme@.take(n as int).map_values(low),
        decreases scheme@.len() - n,
    {
        let c = scheme[n];
        assert(is_scheme_char(scheme@[n as int]));
        let l = if 'A' <= c && c <= 'Z' { (c as u8 + 32) as char } else { c };
        assert(l == lower_char(c));
        out.push(l);
        assert(out@ =~= scheme@.take(n + 1).map_values(low));
        n = n + 1;
    }
    assert(scheme@.take(n as int) =~= scheme@);
    Some(out)
}

/// A number as four bytes, the lowest first.
pub open spec fn le_bytes(n: nat) -> Seq<u8> {
    seq![
        (n % 256) as u8,
        (n / 256 % 256) as u8,
        (n / 65536 % 256) as u8,
        (n / 16777216 % 256) as u8,
    ]
}

/// The number that four bytes write, the lowest first.
pub open spec fn le_value(b: Seq<u8>) -> nat {
    (b[0] + b[1] * 256 + b[2] * 65536 + b[3] * 16777216) as nat
}

/// A message as it goes over the wire: its length, then its payload.
pub open spec fn framed(payload: Seq<u8>) -> Seq<u8> {
    le_bytes(payload.len()) + payload
}

/// Frames a payload for the wire.
pub fn write_msg(payload: &Vec<u8>) -> (r: Result<Vec<u8>, String>)
    ensures
        match r {
            Ok(bytes) => payload@.len() <= MAX_FRAME && bytes@ == framed(payload@),
            Err(e) => payload@.len() > MAX_FRAME && e@ == "message too large"@,
        },
{
    if payload.len() > MAX_FRAME {
        return Err("message too large".to_owned());
    }
    let n: u32 = payload.len() as u32;
    let mut out: Vec<u8> = Vec::new();
    out.push((n % 256) as u8);
    out.push((n / 256 % 256) as u8);
    out.push((n / 65536 % 256) as u8);
    out.push((n / 16777216 % 256) as u8);
    assert(out@ =~= le_bytes(payload@.len()));
    let mut i: usize = 0;
    while i < payload.len()
        invariant
            i <= payload@.len(),
            out@ == le_bytes(payload@.len()) + payload@.take(i as int),
        decreases payload@.len() - i,
    {
        out.push(payload[i]);
        assert(out@ =~= le_bytes(payload@.len()) + payload@.take(i + 1));
        i = i + 1;
    }
    assert(payload@.take(i as int) =~= payload@);
    Ok(out)
}

/// How long the payload is that follows a length; one that is too long is refused before
/// anything is read.
pub fn read_len(header: &Vec<u8>) -> (r: Result<usize, String>)
    requires
        header@.len() == 4,
    ensures
        match r {
            Ok(n) => n == le_value(header@) && n <= MAX_FRAME,
            Err(e) => le_value(header@) > MAX_FRAME && e@ == "message too large"@,
        },
{
    let n: u64 = header[0] as u64 + header[1] as u64 * 256 + header[2] as u64 * 65536 + header[3]
        as u64 * 16777216;
    if n > MAX_FRAME as u64 {
        return Err("message too large".to_owned());
    }
    Ok(n as usize)
}

/// The payload of a whole frame: what a reader that takes the length and then as many bytes
/// gets.
pub open spec fn unframed(bytes: Seq<u8>) -> Option<Seq<u8>> {
    if bytes.len() >= 4 && le_value(bytes.take(4)) <= MAX_FRAME && bytes.len() >= 4 + le_value(
        bytes.take(4),
    ) {
        Some(bytes.subrange(4, 4 + le_value(bytes.take(4)) as int))
    } else {
        None
    }
}

/// A payload that fits comes back from its frame, whatever follows it on the wire.
pub proof fn frames_come_back(payload: Seq<u8>, rest: Seq<u8>)
    requires
        payload.len() <= MAX_FRAME,
    ensures
        unframed(framed(payload) + rest) == Some(payload),
{
    let n = payload.len();
    let bytes = framed(payload) + rest;
    assert(bytes.take(4) =~= le_bytes(n));
    assert(le_value(le_bytes(n)) == n);
    assert(bytes.subrange(4, 4 + n as int) =~= payload);
}

} // verus!
