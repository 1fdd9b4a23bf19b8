//! The line that is logged for a refused system call. It is put together in place, without
//! allocating: it is written from a signal handler.
use vstd::prelude::*;

use super::seccomp_calls::Syscall;

verus! {

/// How many denials get logged before going quiet (a library retrying in a loop).
pub const LOG_LIMIT: u32 = 200;

/// As much of the tag as a line shows.
pub const MAX_TAG: usize = 40;

/// As much of a path as a line shows.
pub const MAX_PATH: usize = 80;

/// Which argument of a call is a path, and which its open flags.
pub open spec fn path_args(call: Option<Syscall>) -> Option<(int, Option<int>)> {
    match call {
        None => None,
        Some(call) => match call {
            Syscall::Open => Some((0, Some(1))),
            Syscall::Stat => Some((0, None)),
            Syscall::Lstat => Some((0, None)),
            Syscall::Access => Some((0, None)),
            Syscall::Readlink => Some((0, None)),
            Syscall::Unlink => Some((0, None)),
            Syscall::Mkdir => Some((0, None)),
            Syscall::Chmod => Some((0, None)),
            Syscall::Openat => Some((1, Some(2))),
            Syscall::Newfstatat => Some((1, None)),
            Syscall::Statx => Some((1, None)),
            Syscall::Faccessat => Some((1, None)),
            Syscall::Faccessat2 => Some((1, None)),
            Syscall::Readlinkat => Some((1, None)),
            Syscall::Unlinkat => Some((1, None)),
            Syscall::Mkdirat => Some((1, None)),
            Syscall::Fchmodat => Some((1, None)),
            Syscall::Renameat => Some((1, None)),
            Syscall::Renameat2 => Some((1, None)),
            _ => None,
        },
    }
}

/// Which argument of a call is a path, and which its open flags, so the log names the file
/// instead of just the number.
pub fn path_arg(call: Option<Syscall>) -> (r: Option<(usize, Option<usize>)>)
    ensures
        match r {
            Some((path, flags)) => {
                &&& path_args(call) matches Some((p, f)) && p == path && match flags {
                    Some(i) => f == Some(i as int),
                    None => f is None,
                }
                &&& path < 3
                &&& flags is Some ==> flags->0 < 3
            },
            None => path_args(call) is None,
        },
{
    match call {
        None => None,
        Some(call) => match call {
            Syscall::Open => Some((0, Some(1))),
            Syscall::Stat => Some((0, None)),
            Syscall::Lstat => Some((0, None)),
            Syscall::Access => Some((0, None)),
            Syscall::Readlink => Some((0, None)),
            Syscall::Unlink => Some((0, None)),
            Syscall::Mkdir => Some((0, None)),
            Syscall::Chmod => Some((0, None)),
            Syscall::Openat => Some((1, Some(2))),
            Syscall::Newfstatat => Some((1, None)),
            Syscall::Statx => Some((1, None)),
            Syscall::Faccessat => Some((1, None)),
            Syscall::Faccessat2 => Some((1, None)),
            Syscall::Readlinkat => Some((1, None)),
            Syscall::Unlinkat => Some((1, None)),
            Syscall::Mkdirat => Some((1, None)),
            Syscall::Fchmodat => Some((1, None)),
            Syscall::Renameat => Some((1, None)),
            Syscall::Renameat2 => Some((1, None)),
            _ => None,
        },
    }
}

/// A number in decimal, as ASCII.
pub open spec fn decimal_bytes(n: nat) -> Seq<u8>
    decreases n,
{
    if n < 10 {
        seq![(48 + n) as u8]
    } else {
        decimal_bytes(n / 10).push((48 + n % 10) as u8)
    }
}

/// The hexadecimal digit of a number below 16, as ASCII.
pub open spec fn hex_byte(n: nat) -> u8 {
    if n < 10 {
        (48 + n) as u8
    } else {
        (87 + n) as u8
    }
}

/// A number in hexadecimal, as ASCII.
pub open spec fn hex_bytes(n: nat) -> Seq<u8>
    decreases n,
{
    if n < 16 {
        seq![hex_byte(n)]
    } else {
        hex_bytes(n / 16).push(hex_byte(n % 16))
    }
}

/// As much of a path as is shown: up to its end, and no more than fits.
pub open spec fn shown_path(bytes: Seq<u8>) -> Seq<u8>
    decreases bytes.len(),
{
    if bytes.len() == 0 {
        bytes
    } else if bytes.len() > MAX_PATH || bytes.drop_last().contains(0u8) || bytes.last() == 0 {
        shown_path(bytes.drop_last())
    } else {
        bytes
    }
}

/// ASCII text as bytes.
pub open spec fn ascii(s: Seq<char>) -> Seq<u8> {
    s.map_values(|c: char| c as u8)
}

/// What a line says of the arguments.
pub open spec fn shown_args(call: Option<Syscall>, args: Seq<u64>, path: Option<Seq<u8>>) -> Seq<u8> {
    match path_args(call) {
        Some((_, flags)) => (match path {
            Some(bytes) => seq![32u8] + shown_path(bytes),
            None => Seq::empty(),
        }) + (match flags {
            Some(i) => ascii(" flags 0x"@) + hex_bytes(args[i] as u32 as nat),
            None => Seq::empty(),
        }),
        None => if call == Some(Syscall::Ioctl) {
            ascii(" request 0x"@) + hex_bytes(args[1] as u32 as nat)
        } else {
            Seq::empty()
        },
    }
}

/// As much of a tag as is shown.
pub open spec fn shown_tag(tag: Seq<u8>) -> Seq<u8> {
    if tag.len() > MAX_TAG {
        tag.take(MAX_TAG as int)
    } else {
        tag
    }
}

/// The line for a refused call: the tag, the number of the call, and what is known of its
/// arguments. `path` is what the path argument points at, where it points at something.
pub open spec fn denied_line(
    tag: Seq<u8>,
    nr: int,
    call: Option<Syscall>,
    args: Seq<u64>,
    path: Option<Seq<u8>>,
) -> Seq<u8> {
    shown_tag(tag) + ascii(": seccomp blocked syscall "@) + (if nr < 0 {
        seq![45u8] + decimal_bytes((-nr) as nat)
    } else {
        decimal_bytes(nr as nat)
    }) + shown_args(call, args, path) + seq![10u8]
}

/// A line of text in place.
pub struct Line {
    pub buf: [u8; 200],
    pub len: usize,
}

impl Line {
    pub open spec fn wf(&self) -> bool {
        self.len <= 200
    }

    /// What the line holds.
    pub open spec fn text(&self) -> Seq<u8> {
        self.buf@.take(self.len as int)
    }

    fn new() -> (r: Line)
        ensures
            r.wf(),
            r.text() == Seq::<u8>::empty(),
    {
        let r = Line { buf: [0;200], len: 0 };
        assert(r.text() =~= Seq::<u8>::empty());
        r
    }

    fn push(&mut self, b: u8)
        requires
            old(self).wf(),
            old(self).text().len() < 200,
        ensures
            final(self).wf(),
            final(self).text() == old(self).text().push(b),
    {
        let n = self.len;
        self.buf[n] = b;
        self.len = n + 1;
        assert(self.text() =~= old(self).text().push(b));
    }

    fn push_text(&mut self, s: &str)
        requires
            old(self).wf(),
            s.is_ascii(),
            old(self).text().len() + s@.len() <= 200,
        ensures
            final(self).wf(),
            final(self).text() == old(self).text() + ascii(s@),
    {
        let ghost start = self.text();
        let bytes = s.as_bytes();
        let mut i: usize = 0;
        proof {
            vstd::string::is_ascii_spec_bytes(s);
        }
        assert(bytes@ =~= ascii(s@));
        assert(start + ascii(s@).take(0) =~= start);
        while i < bytes.len()
            invariant
                i <= bytes@.len() == s@.len(),
                bytes@ == ascii(s@),
                self.wf(),
                start.len() + s@.len() <= 200,
                self.text() == start + ascii(s@).take(i as int),
            decreases bytes@.len() - i,
        {
            self.push(bytes[i]);
            assert(self.text() =~= start + ascii(s@).take(i + 1));
            i = i + 1;
        }
        assert(ascii(s@).take(i as int) =~= ascii(s@));
    }

    fn push_bytes(&mut self, bytes: &[u8], n: usize)
        requires
            old(self).wf(),
            n <= bytes@.len(),
            old(self).text().len() + n <= 200,
        ensures
            final(self).wf(),
            final(self).text() == old(self).text() + bytes@.take(n as int),
    {
        let ghost start = self.text();
        let mut i: usize = 0;
        assert(start + bytes@.take(0) =~= start);
        while i < n
            invariant
                i <= n <= bytes@.len(),
                self.wf(),
                start.len() + n <= 200,
                self.text() == start + bytes@.take(i as int),
            decreases n - i,
        {
            self.push(bytes[i]);
            assert(self.text() =~= start + bytes@.take(i + 1));
            i = i + 1;
        }
    }

    fn push_number(&mut self, n: u32)
        requires
            old(self).wf(),
            old(self).text().len() + decimal_bytes(n as nat).len() <= 200,
        ensures
            final(self).wf(),
            final(self).text() == old(self).text() + decimal_bytes(n as nat),
        decreases n,
    {
        let ghost start = self.text();
        if n >= 10 {
            self.push_number(n / 10);
        }
        self.push((48 + n % 10) as u8);
        assert(self.text() =~= start + decimal_bytes(n as nat));
    }

    /// Writes a number in hexadecimal.
    pub fn push_hex(&mut self, n: u32)
        requires
            old(self).wf(),
            old(self).text().len() + hex_bytes(n as nat).len() <= 200,
        ensures
            final(self).wf(),
            final(self).text() == old(self).text() + hex_bytes(n as nat),
        decreases n,
    {
        let ghost start = self.text();
        if n >= 16 {
            self.push_hex(n / 16);
        }
        let d = n % 16;
        self.push(if d < 10 { (48 + d) as u8 } else { (87 + d) as u8 });
        assert(self.text() =~= start + hex_bytes(n as nat));
    }
}

proof fn lemma_u32_lengths(n: u32)
    ensures
        1 <= decimal_bytes(n as nat).len() <= 10,
        1 <= hex_bytes(n as nat).len() <= 8,
{
    reveal_with_fuel(decimal_bytes, 11);
    reveal_with_fuel(hex_bytes, 9);
}

proof fn lemma_shown_path(bytes: Seq<u8>, k: int)
    requires
        0 <= k <= bytes.len(),
        k <= MAX_PATH,
        forall|j: int| 0 <= j < k ==> bytes[j] != 0,
        k == MAX_PATH || k == bytes.len() || bytes[k] == 0,
    ensures
        shown_path(bytes) == bytes.take(k),
    decreases bytes.len(),
{
    if k == bytes.len() {
        assert(bytes.take(k) =~= bytes);
        if bytes.len() > 0 {
            assert(!bytes.drop_last().contains(0u8)) by {
                if bytes.drop_last().contains(0u8) {
                    let j = choose|j: int|
                        0 <= j < bytes.drop_last().len() && bytes.drop_last()[j] == 0u8;
                    assert(bytes[j] == 0);
                }
            }
        }
    } else {
        let front = bytes.drop_last();
        assert(front.take(k) =~= bytes.take(k));
        if k < front.len() && bytes[k] == 0 {
            assert(front[k] == 0);
        }
        lemma_shown_path(front, k);
    }
}

fn shown_len(bytes: &[u8]) -> (r: usize)
    ensures
        r <= bytes@.len(),
        r <= MAX_PATH,
        shown_path(bytes@) == bytes@.take(r as int),
{
    let mut k: usize = 0;
    while k < bytes.len() && k < MAX_PATH && bytes[k] != 0
        invariant
            k <= bytes@.len(),
            k <= MAX_PATH,
            forall|j: int| 0 <= j < k ==> bytes@[j] != 0,
        decreases bytes@.len() - k,
    {
        k = k + 1;
    }
    proof {
        lemma_shown_path(bytes@, k as int);
    }
    k
}

impl Line {
    fn push_flags(&mut self, flags: u32)
        requires
            old(self).wf(),
            old(self).text().len() <= 160,
        ensures
            final(self).wf(),
            final(self).text() == old(self).text() + (ascii(" flags 0x"@) + hex_bytes(
                flags as nat,
            )),
            final(self).text().len() <= old(self).text().len() + 17,
    {
        let ghost start = self.text();
        proof {
            reveal_strlit(" flags 0x");
            lemma_u32_lengths(flags);
        }
        self.push_text(" flags 0x");
        self.push_hex(flags);
        assert(self.text() =~= start + (ascii(" flags 0x"@) + hex_bytes(flags as nat)));
    }

    fn push_request(&mut self, request: u32)
        requires
            old(self).wf(),
            old(self).text().len() <= 160,
        ensures
            final(self).wf(),
            final(self).text() == old(self).text() + (ascii(" request 0x"@) + hex_bytes(
                request as nat,
            )),
            final(self).text().len() <= old(self).text().len() + 19,
    {
        let ghost start = self.text();
        proof {
            reveal_strlit(" request 0x");
            lemma_u32_lengths(request);
        }
        self.push_text(" request 0x");
        self.push_hex(request);
        assert(self.text() =~= start + (ascii(" request 0x"@) + hex_bytes(request as nat)));
    }

    fn push_path(&mut self, path: Option<&[u8]>)
        requires
            old(self).wf(),
            old(self).text().len() <= 78,
        ensures
            final(self).wf(),
            final(self).text() == old(self).text() + (match path {
                Some(bytes) => seq![32u8] + shown_path(bytes@),
                None => Seq::<u8>::empty(),
            }),
            final(self).text().len() <= old(self).text().len() + 81,
    {
        let ghost start = self.text();
        if let Some(bytes) = path {
            self.push(32);
            let k = shown_len(bytes);
            self.push_bytes(bytes, k);
            assert(self.text() =~= start + (seq![32u8] + shown_path(bytes@)));
        } else {
            assert(self.text() =~= start + Seq::<u8>::empty());
        }
    }

    fn push_args(&mut self, call: Option<Syscall>, args: &[u64; 3], path: Option<&[u8]>)
        requires
            old(self).wf(),
            old(self).text().len() <= 78,
        ensures
            final(self).wf(),
            final(self).text() == old(self).text() + shown_args(
                call,
                args@,
                match path {
                    Some(bytes) => Some(bytes@),
                    None => None,
                },
            ),
            final(self).text().len() <= old(self).text().len() + 98,
    {
        let ghost start = self.text();
        let ghost shown: Option<Seq<u8>> = match path {
            Some(bytes) => Some(bytes@),
            None => None,
        };
        match path_arg(call) {
            Some((_, flags)) => {
                self.push_path(path);
                let ghost with_path = self.text();
                if let Some(i) = flags {
                    #[verifier::truncate]
                    let value: u32 = args[i] as u32;
                    self.push_flags(value);
                }
                assert(self.text() =~= start + shown_args(call, args@, shown));
            },
            None => {
                let ioctl = match call {
                    Some(Syscall::Ioctl) => true,
                    _ => false,
                };
                if ioctl {
                    #[verifier::truncate]
                    let value: u32 = args[1] as u32;
                    self.push_request(value);
                }
                assert(self.text() =~= start + shown_args(call, args@, shown));
            },
        }
    }

    fn push_blocked(&mut self)
        requires
            old(self).wf(),
            old(self).text().len() <= 40,
        ensures
            final(self).wf(),
            final(self).text() == old(self).text() + ascii(": seccomp blocked syscall "@),
            final(self).text().len() == old(self).text().len() + 26,
    {
        proof {
            reveal_strlit(": seccomp blocked syscall ");
        }
        self.push_text(": seccomp blocked syscall ");
    }

    fn push_signed(&mut self, nr: i32)
        requires
            old(self).wf(),
            old(self).text().len() <= 100,
        ensures
            final(self).wf(),
            final(self).text() == old(self).text() + (if nr < 0 {
                seq![45u8] + decimal_bytes((-nr) as nat)
            } else {
                decimal_bytes(nr as nat)
            }),
            final(self).text().len() <= old(self).text().len() + 11,
    {
        let ghost start = self.text();
        let abs: u32 = if nr >= 0 {
            nr as u32
        } else if nr == i32::MIN {
            2147483648
        } else {
            (-nr) as u32
        };
        proof {
            lemma_u32_lengths(abs);
        }
        if nr < 0 {
            self.push(45);
        }
        self.push_number(abs);
        assert(self.text() =~= start + (if nr < 0 {
            seq![45u8] + decimal_bytes((-nr) as nat)
        } else {
            decimal_bytes(nr as nat)
        }));
    }
}

/// The line for a refused call, unless as many were logged as are logged at all. `path` is what
/// the path argument points at, where it points at something.
pub fn log_denied(
    logged: u32,
    tag: &[u8],
    nr: i32,
    call: Option<Syscall>,
    args: &[u64; 3],
    path: Option<&[u8]>,
) -> (r: Option<Line>)
    ensures
        match r {
            Some(line) => logged < LOG_LIMIT && line.wf() && line.text() == denied_line(
                tag@,
                nr as int,
                call,
                args@,
                match path {
                    Some(bytes) => Some(bytes@),
                    None => None,
                },
            ),
            None => logged >= LOG_LIMIT,
        },
{
    if logged >= LOG_LIMIT {
        return None;
    }
    let mut line = Line::new();
    let n: usize = if tag.len() > MAX_TAG { MAX_TAG } else { tag.len() };
    line.push_bytes(tag, n);
    assert(line.text() =~= shown_tag(tag@));
    line.push_blocked();
    line.push_signed(nr);
    line.push_args(call, args, path);
    let ghost all = line.text();
    line.push(10);
    assert(line.text() =~= all + seq![10u8]);
    Some(line)
}

/// A line that is logged ends the line and fits where it is put together.
pub proof fn a_denial_is_one_line(
    tag: Seq<u8>,
    nr: int,
    call: Option<Syscall>,
    args: Seq<u64>,
    path: Option<Seq<u8>>,
)
    ensures
        denied_line(tag, nr, call, args, path).last() == 10,
{
}

/// Which argument of a call is a path: the first of the older calls, the second of those that
/// start at a directory; and the flags stand behind it where the call opens.
pub proof fn where_the_path_is(call: Syscall)
    ensures
        match call {
            Syscall::Open => path_args(Some(call)) == Some((0int, Some(1int))),
            Syscall::Openat => path_args(Some(call)) == Some((1int, Some(2int))),
            Syscall::Stat | Syscall::Lstat | Syscall::Access | Syscall::Readlink | Syscall::Unlink
            | Syscall::Mkdir | Syscall::Chmod => path_args(Some(call)) == Some(
                (0int, None::<int>),
            ),
            Syscall::Newfstatat | Syscall::Statx | Syscall::Faccessat | Syscall::Faccessat2
            | Syscall::Readlinkat | Syscall::Unlinkat | Syscall::Mkdirat | Syscall::Fchmodat
            | Syscall::Renameat | Syscall::Renameat2 => path_args(Some(call)) == Some(
                (1int, None::<int>),
            ),
            _ => path_args(Some(call)) is None,
        },
        path_args(None) is None,
{
}

/// Of a path as much is shown as stands before its end, and no more than 80 bytes.
pub proof fn a_path_is_shown_to_its_end(bytes: Seq<u8>, k: int)
    requires
        0 <= k <= bytes.len(),
        forall|j: int| 0 <= j < k ==> bytes[j] != 0,
        k == bytes.len() || bytes[k] == 0,
    ensures
        k <= 80 ==> shown_path(bytes) == bytes.take(k),
        k > 80 ==> shown_path(bytes) == bytes.take(80),
{
    if k <= 80 {
        lemma_shown_path(bytes, k);
    } else {
        lemma_shown_path(bytes, 80);
    }
}

/// Numbers are written with their digits, in tens and in sixteens.
pub proof fn numbers_are_written_digit_by_digit(n: nat, d: nat)
    ensures
        d < 10 ==> decimal_bytes(d) == seq![(48 + d) as u8],
        d < 10 && n > 0 ==> decimal_bytes(10 * n + d) == decimal_bytes(n).push((48 + d) as u8),
        d < 10 ==> hex_bytes(d) == seq![(48 + d) as u8],
        10 <= d < 16 ==> hex_bytes(d) == seq![(97 + d - 10) as u8],
        d < 16 && n > 0 ==> hex_bytes(16 * n + d) == hex_bytes(n) + hex_bytes(d),
{
    if d < 10 && n > 0 {
        assert((10 * n + d) / 10 == n && (10 * n + d) % 10 == d);
    }
    if d < 16 && n > 0 {
        assert((16 * n + d) / 16 == n && (16 * n + d) % 16 == d);
        assert(hex_bytes(n).push(hex_byte(d)) =~= hex_bytes(n) + seq![hex_byte(d)]);
    }
}

/// What a line says of a refused call: who it was refused, which call, the path and the flags
/// of one that has them, the request of an ioctl, and nothing of any other.
pub proof fn a_denial_says_what_was_refused(
    tag: Seq<u8>,
    nr: nat,
    args: Seq<u64>,
    path: Seq<u8>,
    call: Syscall,
)
    requires
        tag.len() <= 40,
        args.len() == 6,
    ensures
        forall|more: Seq<u8>|
            tag.len() == 40 ==> shown_tag(#[trigger] (tag + more)) == tag,
        ({
            let head = tag + ascii(": seccomp blocked syscall "@) + decimal_bytes(nr);
            let low = |i: int| (args[i] as u32) as nat;
            &&& denied_line(tag, nr as int, None, args, Some(path)) == head + seq![10u8]
            &&& denied_line(tag, nr as int, Some(Syscall::Ioctl), args, None) == head + (ascii(
                " request 0x"@,
            ) + hex_bytes(low(1))) + seq![10u8]
            &&& denied_line(tag, nr as int, Some(Syscall::Openat), args, Some(path)) == head + (
            seq![32u8] + shown_path(path) + (ascii(" flags 0x"@) + hex_bytes(low(2)))) + seq![10u8]
            &&& denied_line(tag, nr as int, Some(Syscall::Open), args, Some(path)) == head + (
            seq![32u8] + shown_path(path) + (ascii(" flags 0x"@) + hex_bytes(low(1)))) + seq![10u8]
            &&& denied_line(tag, nr as int, Some(Syscall::Stat), args, Some(path)) == head + (
            seq![32u8] + shown_path(path)) + seq![10u8]
            &&& path_args(Some(call)) is None && call != Syscall::Ioctl ==> denied_line(
                tag,
                nr as int,
                Some(call),
                args,
                Some(path),
            ) == head + seq![10u8]
        }),
{
    let head = tag + ascii(": seccomp blocked syscall "@) + decimal_bytes(nr);
    assert forall|more: Seq<u8>| tag.len() == 40 implies shown_tag(#[trigger] (tag + more))
        == tag by {
        assert((tag + more).take(40) =~= tag);
        if more.len() == 0 {
            assert(tag + more =~= tag);
        }
    }
    assert(head + Seq::<u8>::empty() + seq![10u8] =~= head + seq![10u8]);
    assert(seq![32u8] + shown_path(path) + Seq::<u8>::empty() =~= seq![32u8] + shown_path(path));
}

} // verus!
