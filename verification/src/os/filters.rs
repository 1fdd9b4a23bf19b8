//! What the filters let a process do, call by call and argument by argument.
use vstd::prelude::*;

use super::seccomp::{
    allowed_if, allowed_when, base_rules, connect_rules, freely, ioctl_rule, is, masked,
    numbered_map, open_rules, read_rules, reseal_rules, rules_in, socket_rules, write_rules, Cond,
    Entry, Numbered, Rules, Syscall,
};
use super::seccomp_calls::{accept_calls, base_calls, read_calls, write_calls};
use crate::seat::daemon::{opening_calls, seal_rules};
use crate::views::views;

verus! {

/// The part of an argument that a condition looks at: all of it, or its lower half.
pub open spec fn looked_at(c: Cond, args: Seq<u64>) -> u64 {
    let a = args[c.arg as int];
    if c.wide {
        a
    } else {
        a & 0xffff_ffff
    }
}

/// A condition holds of a call's arguments.
pub open spec fn holds(c: Cond, args: Seq<u64>) -> bool {
    match c.mask {
        None => looked_at(c, args) == c.value,
        Some(mask) => looked_at(c, args) & mask == c.value,
    }
}

/// Every condition holds.
pub open spec fn all_hold(conds: Seq<Cond>, args: Seq<u64>) -> bool {
    forall|i: int| 0 <= i < conds.len() ==> holds(#[trigger] conds[i], args)
}

/// A call with these arguments is let through: where there are rules for it, and there is
/// nothing to meet or one of them is met.
pub open spec fn permits(rules: Option<Rules>, args: Seq<u64>) -> bool {
    match rules {
        None => false,
        Some(r) => r.len() == 0 || exists|i: int|
            0 <= i < r.len() && all_hold(#[trigger] r[i], args),
    }
}

/// Conditions that are added let through what they hold of, besides what was let through.
pub proof fn conditions_only_widen(rules: Option<Rules>, conds: Seq<Cond>, cond: Cond, args: Seq<u64>)
    ensures
        permits(allowed_when(rules, conds), args) <==> permits(rules, args) || all_hold(conds, args)
            || rules == freely(),
        permits(allowed_if(rules, cond), args) <==> permits(rules, args) || holds(cond, args)
            || rules == freely(),
        permits(freely(), args),
        !permits(None, args),
{
    lemma_widens(rules, conds, args);
    lemma_widens(rules, seq![cond], args);
    assert(seq![cond][0] == cond);
    assert(all_hold(seq![cond], args) == holds(cond, args));
}

proof fn lemma_widens(rules: Option<Rules>, conds: Seq<Cond>, args: Seq<u64>)
    ensures
        permits(allowed_when(rules, conds), args) <==> permits(rules, args) || all_hold(conds, args)
            || rules == freely(),
{
    match rules {
        None => {
            let r = seq![conds];
            assert(r[0] == conds);
        },
        Some(r) => {
            if r.len() > 0 {
                let now = r.push(conds);
                assert(now[r.len() as int] == conds);
                if permits(rules, args) {
                    let i = choose|i: int| 0 <= i < r.len() && all_hold(#[trigger] r[i], args);
                    assert(now[i] == r[i]);
                }
                if permits(Some(now), args) {
                    let i = choose|i: int| 0 <= i < now.len() && all_hold(#[trigger] now[i], args);
                    if i < r.len() {
                        assert(now[i] == r[i]);
                    }
                }
            } else {
                assert(r =~= Seq::<Seq<Cond>>::empty());
            }
        },
    }
}

/// A condition on a value and one on bits look at the lower half of one argument.
pub proof fn conditions_look_at_one_argument(arg: u8, mask: u64, value: u64, args: Seq<u64>)
    ensures
        holds(is(arg, value), args) <==> args[arg as int] & 0xffff_ffff == value,
        holds(masked(arg, mask, value), args) <==> (args[arg as int] & 0xffff_ffff) & mask == value,
{
}

/// What every process may do freely: all but looking at, opening, making and changing files by
/// path, making, naming and accepting connections, starting processes, ioctls and the few calls
/// that are let through under conditions; and the older calls only where the machine has them.
pub proof fn the_baseline_leaves_these_out(x86_64: bool, call: Syscall)
    ensures
        base_calls(x86_64).contains(call) <==> match call {
            Syscall::Ioctl | Syscall::Clone | Syscall::Tgkill | Syscall::Prctl |
            Syscall::Newfstatat | Syscall::Statx | Syscall::Openat | Syscall::Open |
            Syscall::Socket | Syscall::Fstatfs | Syscall::Statfs | Syscall::Readlinkat |
            Syscall::Faccessat | Syscall::Faccessat2 | Syscall::Getdents64 | Syscall::Stat |
            Syscall::Lstat | Syscall::Readlink | Syscall::Access | Syscall::Getdents |
            Syscall::Renameat | Syscall::Renameat2 | Syscall::Unlinkat | Syscall::Mkdirat |
            Syscall::Fchmodat | Syscall::Fchmod | Syscall::Rename | Syscall::Unlink |
            Syscall::Mkdir | Syscall::Chmod | Syscall::Accept4 | Syscall::Accept |
            Syscall::Seccomp | Syscall::Connect | Syscall::Wait4 | Syscall::Socketpair |
            Syscall::Bind | Syscall::Fork => false,
            Syscall::Poll | Syscall::Select | Syscall::EpollWait | Syscall::EpollCreate |
            Syscall::Dup2 | Syscall::Pipe | Syscall::Eventfd | Syscall::ArchPrctl |
            Syscall::Time => x86_64,
            _ => true,
        },
{
    let l = base_calls(x86_64);
    match call {
        Syscall::Read => {
            assert(l[0] == call);
        },
        Syscall::Write => {
            assert(l[1] == call);
        },
        Syscall::Readv => {
            assert(l[2] == call);
        },
        Syscall::Writev => {
            assert(l[3] == call);
        },
        Syscall::Pread64 => {
            assert(l[4] == call);
        },
        Syscall::Pwrite64 => {
            assert(l[5] == call);
        },
        Syscall::Preadv => {
            assert(l[6] == call);
        },
        Syscall::Pwritev => {
            assert(l[7] == call);
        },
        Syscall::Sendmsg => {
            assert(l[8] == call);
        },
        Syscall::Recvmsg => {
            assert(l[9] == call);
        },
        Syscall::Sendto => {
            assert(l[10] == call);
        },
        Syscall::Recvfrom => {
            assert(l[11] == call);
        },
        Syscall::Getsockopt => {
            assert(l[12] == call);
        },
        Syscall::Setsockopt => {
            assert(l[13] == call);
        },
        Syscall::Getsockname => {
            assert(l[14] == call);
        },
        Syscall::Getpeername => {
            assert(l[15] == call);
        },
        Syscall::Shutdown => {
            assert(l[16] == call);
        },
        Syscall::Close => {
            assert(l[17] == call);
        },
        Syscall::CloseRange => {
            assert(l[18] == call);
        },
        Syscall::Fstat => {
            assert(l[19] == call);
        },
        Syscall::Lseek => {
            assert(l[20] == call);
        },
        Syscall::Fcntl => {
            assert(l[21] == call);
        },
        Syscall::Dup => {
            assert(l[22] == call);
        },
        Syscall::Dup3 => {
            assert(l[23] == call);
        },
        Syscall::Ftruncate => {
            assert(l[24] == call);
        },
        Syscall::Fallocate => {
            assert(l[25] == call);
        },
        Syscall::Fsync => {
            assert(l[26] == call);
        },
        Syscall::Fdatasync => {
            assert(l[27] == call);
        },
        Syscall::MemfdCreate => {
            assert(l[28] == call);
        },
        Syscall::Pipe2 => {
            assert(l[29] == call);
        },
        Syscall::Mmap => {
            assert(l[30] == call);
        },
        Syscall::Munmap => {
            assert(l[31] == call);
        },
        Syscall::Mprotect => {
            assert(l[32] == call);
        },
        Syscall::Mremap => {
            assert(l[33] == call);
        },
        Syscall::Madvise => {
            assert(l[34] == call);
        },
        Syscall::Msync => {
            assert(l[35] == call);
        },
        Syscall::Mincore => {
            assert(l[36] == call);
        },
        Syscall::Brk => {
            assert(l[37] == call);
        },
        Syscall::Membarrier => {
            assert(l[38] == call);
        },
        Syscall::EpollCreate1 => {
            assert(l[39] == call);
        },
        Syscall::EpollCtl => {
            assert(l[40] == call);
        },
        Syscall::EpollPwait => {
            assert(l[41] == call);
        },
        Syscall::EpollPwait2 => {
            assert(l[42] == call);
        },
        Syscall::Ppoll => {
            assert(l[43] == call);
        },
        Syscall::Pselect6 => {
            assert(l[44] == call);
        },
        Syscall::Eventfd2 => {
            assert(l[45] == call);
        },
        Syscall::TimerfdCreate => {
            assert(l[46] == call);
        },
        Syscall::TimerfdSettime => {
            assert(l[47] == call);
        },
        Syscall::TimerfdGettime => {
            assert(l[48] == call);
        },
        Syscall::Signalfd4 => {
            assert(l[49] == call);
        },
        Syscall::Futex => {
            assert(l[50] == call);
        },
        Syscall::GetRobustList => {
            assert(l[51] == call);
        },
        Syscall::SetRobustList => {
            assert(l[52] == call);
        },
        Syscall::Rseq => {
            assert(l[53] == call);
        },
        Syscall::SchedYield => {
            assert(l[54] == call);
        },
        Syscall::SchedGetaffinity => {
            assert(l[55] == call);
        },
        Syscall::SchedSetaffinity => {
            assert(l[56] == call);
        },
        Syscall::SchedGetparam => {
            assert(l[57] == call);
        },
        Syscall::SchedGetscheduler => {
            assert(l[58] == call);
        },
        Syscall::Getpriority => {
            assert(l[59] == call);
        },
        Syscall::Getrlimit => {
            assert(l[60] == call);
        },
        Syscall::Prlimit64 => {
            assert(l[61] == call);
        },
        Syscall::ClockGettime => {
            assert(l[62] == call);
        },
        Syscall::ClockGetres => {
            assert(l[63] == call);
        },
        Syscall::ClockNanosleep => {
            assert(l[64] == call);
        },
        Syscall::Nanosleep => {
            assert(l[65] == call);
        },
        Syscall::Gettimeofday => {
            assert(l[66] == call);
        },
        Syscall::Getpid => {
            assert(l[67] == call);
        },
        Syscall::Gettid => {
            assert(l[68] == call);
        },
        Syscall::Getppid => {
            assert(l[69] == call);
        },
        Syscall::Getuid => {
            assert(l[70] == call);
        },
        Syscall::Geteuid => {
            assert(l[71] == call);
        },
        Syscall::Getgid => {
            assert(l[72] == call);
        },
        Syscall::Getegid => {
            assert(l[73] == call);
        },
        Syscall::Getrandom => {
            assert(l[74] == call);
        },
        Syscall::Uname => {
            assert(l[75] == call);
        },
        Syscall::Sysinfo => {
            assert(l[76] == call);
        },
        Syscall::Getcpu => {
            assert(l[77] == call);
        },
        Syscall::RestartSyscall => {
            assert(l[78] == call);
        },
        Syscall::RtSigaction => {
            assert(l[79] == call);
        },
        Syscall::RtSigprocmask => {
            assert(l[80] == call);
        },
        Syscall::RtSigreturn => {
            assert(l[81] == call);
        },
        Syscall::RtSigpending => {
            assert(l[82] == call);
        },
        Syscall::RtSigtimedwait => {
            assert(l[83] == call);
        },
        Syscall::RtSigsuspend => {
            assert(l[84] == call);
        },
        Syscall::Sigaltstack => {
            assert(l[85] == call);
        },
        Syscall::Exit => {
            assert(l[86] == call);
        },
        Syscall::ExitGroup => {
            assert(l[87] == call);
        },
        Syscall::Clone3 => {
            assert(l[88] == call);
        },
        Syscall::Poll => {
            assert(x86_64 ==> l[89] == call);
        },
        Syscall::Select => {
            assert(x86_64 ==> l[90] == call);
        },
        Syscall::EpollWait => {
            assert(x86_64 ==> l[91] == call);
        },
        Syscall::EpollCreate => {
            assert(x86_64 ==> l[92] == call);
        },
        Syscall::Dup2 => {
            assert(x86_64 ==> l[93] == call);
        },
        Syscall::Pipe => {
            assert(x86_64 ==> l[94] == call);
        },
        Syscall::Eventfd => {
            assert(x86_64 ==> l[95] == call);
        },
        Syscall::ArchPrctl => {
            assert(x86_64 ==> l[96] == call);
        },
        Syscall::Time => {
            assert(x86_64 ==> l[97] == call);
        },
        _ => {},
    }
}

/// Looking at files by path, changing them and accepting connections takes these calls.
pub proof fn what_files_and_connections_take(x86_64: bool, call: Syscall)
    ensures
        read_calls(x86_64).contains(call) <==> match call {
            Syscall::Newfstatat | Syscall::Statx | Syscall::Fstatfs | Syscall::Statfs
            | Syscall::Readlinkat | Syscall::Faccessat | Syscall::Faccessat2
            | Syscall::Getdents64 => true,
            Syscall::Stat | Syscall::Lstat | Syscall::Readlink | Syscall::Access
            | Syscall::Getdents => x86_64,
            _ => false,
        },
        write_calls(x86_64).contains(call) <==> match call {
            Syscall::Openat | Syscall::Renameat | Syscall::Renameat2 | Syscall::Unlinkat
            | Syscall::Mkdirat | Syscall::Fchmodat | Syscall::Fchmod => true,
            Syscall::Open | Syscall::Rename | Syscall::Unlink | Syscall::Mkdir
            | Syscall::Chmod => x86_64,
            _ => false,
        },
        accept_calls(x86_64).contains(call) <==> call == Syscall::Accept4 || (x86_64 && call
            == Syscall::Accept),
{
    let r = read_calls(x86_64);
    let w = write_calls(x86_64);
    let a = accept_calls(x86_64);
    assert(r[0] == Syscall::Newfstatat && r[1] == Syscall::Statx && r[2] == Syscall::Fstatfs
        && r[3] == Syscall::Statfs && r[4] == Syscall::Readlinkat && r[5] == Syscall::Faccessat
        && r[6] == Syscall::Faccessat2 && r[7] == Syscall::Getdents64);
    assert(w[0] == Syscall::Openat && w[1] == Syscall::Renameat && w[2] == Syscall::Renameat2
        && w[3] == Syscall::Unlinkat && w[4] == Syscall::Mkdirat && w[5] == Syscall::Fchmodat
        && w[6] == Syscall::Fchmod);
    assert(a[0] == Syscall::Accept4);
    if x86_64 {
        assert(r[8] == Syscall::Stat && r[9] == Syscall::Lstat && r[10] == Syscall::Readlink
            && r[11] == Syscall::Access && r[12] == Syscall::Getdents);
        assert(w[7] == Syscall::Open && w[8] == Syscall::Rename && w[9] == Syscall::Unlink
            && w[10] == Syscall::Mkdir && w[11] == Syscall::Chmod);
        assert(a[1] == Syscall::Accept);
    }
}

proof fn lemma_one(c: Cond, args: Seq<u64>)
    ensures
        permits(Some(seq![seq![c]]), args) <==> holds(c, args),
{
    let r = seq![seq![c]];
    assert(r[0] == seq![c]);
    assert(seq![c][0] == c);
    assert(all_hold(seq![c], args) == holds(c, args));
}

/// What the baseline lets through under conditions: signals to itself alone, new threads but no
/// new processes, and looking at what is open already but not by path; a few harmless ioctls
/// and process controls.
pub proof fn the_baselines_conditions(x86_64: bool, pid: u32, args: Seq<u64>)
    ensures
        permits(base_rules(x86_64, pid, Syscall::Tgkill), args) <==> args[0] & 0xffff_ffff == pid,
        permits(base_rules(x86_64, pid, Syscall::Clone), args) <==> args[0] & 0x10000 == 0x10000,
        permits(base_rules(x86_64, pid, Syscall::Newfstatat), args) <==> (args[3] & 0xffff_ffff)
            & 0x1000 == 0x1000,
        permits(base_rules(x86_64, pid, Syscall::Statx), args) <==> (args[2] & 0xffff_ffff) & 0x1000
            == 0x1000,
        permits(base_rules(x86_64, pid, Syscall::Prctl), args) <==> {
            let a = args[0] & 0xffff_ffff;
            a == 15 || a == 16 || a == 0x53564d41
        },
        permits(base_rules(x86_64, pid, Syscall::Ioctl), args) <==> {
            let a = args[1] & 0xffff_ffff;
            a == 0x5421 || a == 0x541b || a == 0x5401 || a == 0x802c542a
        },
{
    the_baseline_leaves_these_out(x86_64, Syscall::Tgkill);
    the_baseline_leaves_these_out(x86_64, Syscall::Clone);
    the_baseline_leaves_these_out(x86_64, Syscall::Newfstatat);
    the_baseline_leaves_these_out(x86_64, Syscall::Statx);
    the_baseline_leaves_these_out(x86_64, Syscall::Prctl);
    the_baseline_leaves_these_out(x86_64, Syscall::Ioctl);
    lemma_one(is(0, pid as u64), args);
    lemma_one(Cond { arg: 0, wide: true, mask: Some(0x10000), value: 0x10000 }, args);
    lemma_one(masked(3, 0x1000, 0x1000), args);
    lemma_one(masked(2, 0x1000, 0x1000), args);
    lemma_some(seq![15, 16, 0x53564d41], 0, args);
    lemma_some(seq![0x5421, 0x541b, 0x5401, 0x802c542a], 1, args);
    let p = seq![15u64, 16, 0x53564d41];
    let i = seq![0x5421u64, 0x541b, 0x5401, 0x802c542a];
    assert(p[0] == 15 && p[1] == 16 && p[2] == 0x53564d41);
    assert(i[0] == 0x5421 && i[1] == 0x541b && i[2] == 0x5401 && i[3] == 0x802c542a);
    assert(each_value(p, 0) =~= base_rules(x86_64, pid, Syscall::Prctl)->0);
    assert(each_value(i, 1) =~= base_rules(x86_64, pid, Syscall::Ioctl)->0);
}

/// One rule for each value of an argument.
spec fn each_value(values: Seq<u64>, arg: u8) -> Rules {
    values.map_values(|v: u64| seq![is(arg, v)])
}

proof fn lemma_some(values: Seq<u64>, arg: u8, args: Seq<u64>)
    requires
        values.len() > 0,
    ensures
        permits(Some(each_value(values, arg)), args) <==> values.contains(
            args[arg as int] & 0xffff_ffff,
        ),
{
    let r = each_value(values, arg);
    let a = args[arg as int] & 0xffff_ffff;
    if permits(Some(r), args) {
        let i = choose|i: int| 0 <= i < r.len() && all_hold(#[trigger] r[i], args);
        assert(r[i][0] == is(arg, values[i]));
        assert(values[i] == a);
    }
    if values.contains(a) {
        let i = choose|i: int| 0 <= i < values.len() && values[i] == a;
        assert(r[i] == seq![is(arg, values[i])]);
        assert(all_hold(r[i], args));
    }
}

/// Who may read files may open them for reading alone: nothing in the flags may write, make,
/// cut or append. Who may open what is there may write it but not make or cut. Who may write
/// files may open them as they like. Nothing else of what was allowed changes.
pub proof fn opening_goes_by_its_flags(x86_64: bool, pid: u32, call: Syscall, args: Seq<u64>)
    ensures
        ({
            let base = |c: Syscall| base_rules(x86_64, pid, c);
            let flags = args[2] & 0xffff_ffff;
            let old_flags = args[1] & 0xffff_ffff;
            let o = Syscall::Openat;
            &&& permits(read_rules(x86_64, o, base(o)), args) <==> flags & 0x400643 == 0
            &&& permits(open_rules(x86_64, o, base(o)), args) <==> flags & 0x400643 == 0 || flags
                & 0x400640 == 0
            &&& permits(write_rules(x86_64, o, base(o)), args)
            &&& x86_64 ==> (permits(
                read_rules(x86_64, Syscall::Open, base(Syscall::Open)),
                args,
            ) <==> old_flags & 0x400643 == 0)
            &&& !x86_64 ==> !permits(read_rules(x86_64, Syscall::Open, base(Syscall::Open)), args)
            &&& permits(base(call), args) ==> permits(read_rules(x86_64, call, base(call)), args)
                && permits(open_rules(x86_64, call, base(call)), args) && permits(
                write_rules(x86_64, call, base(call)),
                args,
            )
            &&& read_calls(x86_64).contains(call) ==> permits(
                read_rules(x86_64, call, base(call)),
                args,
            )
            &&& write_calls(x86_64).contains(call) ==> permits(
                write_rules(x86_64, call, base(call)),
                args,
            )
        }),
{
    the_baseline_leaves_these_out(x86_64, Syscall::Openat);
    the_baseline_leaves_these_out(x86_64, Syscall::Open);
    what_files_and_connections_take(x86_64, Syscall::Openat);
    what_files_and_connections_take(x86_64, Syscall::Open);
    conditions_only_widen(None, Seq::empty(), masked(2, 0x400643, 0), args);
    conditions_only_widen(None, Seq::empty(), masked(1, 0x400643, 0), args);
    conditions_only_widen(
        allowed_if(None, masked(2, 0x400643, 0)),
        Seq::empty(),
        masked(2, 0x400640, 0),
        args,
    );
    assert(base_rules(x86_64, pid, Syscall::Openat) is None);
    assert(base_rules(x86_64, pid, Syscall::Open) is None);
    assert(allowed_if(None, masked(2, 0x400643, 0)) == Some(seq![seq![masked(2, 0x400643, 0)]]));
    assert(allowed_if(None, masked(2, 0x400643, 0)) != freely());
}

/// A socket is made of the family that was let; connecting is to whatever a unix socket
/// reaches; one ioctl is let by its number; and a second filter may be put on.
pub proof fn what_else_is_let_through(
    call: Syscall,
    rules: Option<Rules>,
    family: i32,
    request: u64,
    args: Seq<u64>,
)
    requires
        0 <= family,
        rules != freely(),
    ensures
        permits(socket_rules(Syscall::Socket, rules, family), args) <==> permits(rules, args)
            || args[0] & 0xffff_ffff == family,
        call != Syscall::Socket ==> socket_rules(call, rules, family) == rules,
        permits(connect_rules(Syscall::Connect, rules), args),
        permits(connect_rules(Syscall::Socket, rules), args) <==> permits(rules, args) || args[0]
            & 0xffff_ffff == 1,
        call != Syscall::Socket && call != Syscall::Connect ==> connect_rules(call, rules) == rules,
        permits(ioctl_rule(Syscall::Ioctl, rules, request), args) <==> permits(rules, args)
            || args[1] & 0xffff_ffff == request,
        call != Syscall::Ioctl ==> ioctl_rule(call, rules, request) == rules,
        permits(reseal_rules(Syscall::Seccomp, rules), args),
        permits(reseal_rules(Syscall::Prctl, rules), args) <==> permits(rules, args) || args[0]
            & 0xffff_ffff == 38,
        call != Syscall::Seccomp && call != Syscall::Prctl ==> reseal_rules(call, rules) == rules,
{
    conditions_only_widen(rules, Seq::empty(), is(0, family as u64), args);
    conditions_only_widen(rules, Seq::empty(), is(0, 1), args);
    conditions_only_widen(rules, Seq::empty(), is(1, request), args);
    conditions_only_widen(rules, Seq::empty(), is(0, 38), args);
}

/// The rules of a call are those of its first entry; a call with none is not let through.
pub proof fn the_first_entry_counts(entries: Seq<Entry>, call: Syscall, i: int)
    ensures
        0 <= i < entries.len() && entries[i].call == call && (forall|j: int|
            0 <= j < i ==> (#[trigger] entries[j]).call != call) ==> rules_in(entries, call)
            == Some(views(entries[i].rules@)),
        (forall|j: int| 0 <= j < entries.len() ==> (#[trigger] entries[j]).call != call)
            ==> rules_in(entries, call) is None,
    decreases entries.len(),
{
    if entries.len() > 0 {
        let rest = entries.skip(1);
        the_first_entry_counts(rest, call, i - 1);
        if 0 < i < entries.len() && entries[i].call == call && forall|j: int|
            0 <= j < i ==> (#[trigger] entries[j]).call != call {
            assert(entries[0].call != call);
            assert(rest[i - 1] == entries[i]);
            assert forall|j: int| 0 <= j < i - 1 implies (#[trigger] rest[j]).call != call by {
                assert(rest[j] == entries[j + 1]);
            }
        }
        if forall|j: int| 0 <= j < entries.len() ==> (#[trigger] entries[j]).call != call {
            assert(entries[0].call != call);
            assert forall|j: int| 0 <= j < rest.len() implies (#[trigger] rest[j]).call != call by {
                assert(rest[j] == entries[j + 1]);
            }
        }
    }
}

/// Of rules for one number those that come last stand.
pub proof fn the_last_rules_stand(rules: Seq<Numbered>, i: int)
    requires
        0 <= i < rules.len(),
        forall|j: int| i < j < rules.len() ==> (#[trigger] rules[j]).0 != rules[i].0,
    ensures
        numbered_map(rules).contains_key(rules[i].0),
        numbered_map(rules)[rules[i].0] == views(rules[i].1@),
    decreases rules.len(),
{
    if i < rules.len() - 1 {
        let front = rules.drop_last();
        assert(rules[rules.len() - 1].0 != rules[i].0);
        assert forall|j: int| i < j < front.len() implies (#[trigger] front[j]).0 != front[i].0 by {
            assert(front[j] == rules[j]);
        }
        the_last_rules_stand(front, i);
    }
}

/// The seat's first seal lets its library start its server, and make and name a socket; the
/// second lets none of that through.
pub proof fn the_seats_seals(x86_64: bool, pid: u32, call: Syscall, args: Seq<u64>)
    ensures
        opening_calls(x86_64).contains(call) <==> call == Syscall::Clone || call == Syscall::Wait4
            || call == Syscall::Socketpair || call == Syscall::Bind || (x86_64 && call
            == Syscall::Fork),
        opening_calls(x86_64).contains(call) ==> permits(
            seal_rules(x86_64, pid, true, call),
            args,
        ),
        permits(seal_rules(x86_64, pid, true, Syscall::Socket), args) <==> args[0] & 0xffff_ffff
            == 16,
        permits(seal_rules(x86_64, pid, true, Syscall::Seccomp), args),
        !permits(seal_rules(x86_64, pid, false, Syscall::Socket), args),
        !permits(seal_rules(x86_64, pid, false, Syscall::Wait4), args),
        !permits(seal_rules(x86_64, pid, false, Syscall::Socketpair), args),
{
    let o = opening_calls(x86_64);
    assert(o[0] == Syscall::Clone && o[1] == Syscall::Wait4 && o[2] == Syscall::Socketpair && o[3]
        == Syscall::Bind);
    if x86_64 {
        assert(o[4] == Syscall::Fork);
    }
    the_baseline_leaves_these_out(x86_64, Syscall::Socket);
    the_baseline_leaves_these_out(x86_64, Syscall::Wait4);
    the_baseline_leaves_these_out(x86_64, Syscall::Socketpair);
    what_files_and_connections_take(x86_64, Syscall::Socket);
    what_files_and_connections_take(x86_64, Syscall::Wait4);
    what_files_and_connections_take(x86_64, Syscall::Socketpair);
    conditions_only_widen(None, Seq::empty(), is(0, 16), args);
}

/// Both of the seat's seals let through the ioctls of cards, inputs, the keyboard and the
/// console, by the type in their second byte, besides those that everyone may make.
pub proof fn the_seats_ioctls(x86_64: bool, pid: u32, opening: bool, args: Seq<u64>)
    ensures
        permits(seal_rules(x86_64, pid, opening, Syscall::Ioctl), args) <==> permits(
            base_rules(x86_64, pid, Syscall::Ioctl),
            args,
        ) || {
            let t = (args[1] & 0xffff_ffff) & 0xff00;
            t == 0x6400 || t == 0x4500 || t == 0x4b00 || t == 0x5600
        },
{
    let base = base_rules(x86_64, pid, Syscall::Ioctl);
    the_baseline_leaves_these_out(x86_64, Syscall::Ioctl);
    what_files_and_connections_take(x86_64, Syscall::Ioctl);
    assert(base is Some && base->0.len() == 4);
    let o = opening_calls(x86_64);
    assert(!o.contains(Syscall::Ioctl));
    let a = allowed_if(base, masked(1, 0xff00, 0x6400));
    let b = allowed_if(a, masked(1, 0xff00, 0x4500));
    let c = allowed_if(b, masked(1, 0xff00, 0x4b00));
    conditions_only_widen(base, Seq::empty(), masked(1, 0xff00, 0x6400), args);
    conditions_only_widen(a, Seq::empty(), masked(1, 0xff00, 0x4500), args);
    conditions_only_widen(b, Seq::empty(), masked(1, 0xff00, 0x4b00), args);
    conditions_only_widen(c, Seq::empty(), masked(1, 0xff00, 0x5600), args);
}

/// The older call to open a file goes by the same flags, one argument earlier, where the machine
/// has it.
pub proof fn the_older_open_goes_by_its_flags(x86_64: bool, pid: u32, args: Seq<u64>)
    ensures
        ({
            let base = base_rules(x86_64, pid, Syscall::Open);
            let flags = args[1] & 0xffff_ffff;
            &&& permits(open_rules(x86_64, Syscall::Open, base), args) <==> x86_64 && (flags
                & 0x400643 == 0 || flags & 0x400640 == 0)
            &&& permits(write_rules(x86_64, Syscall::Open, base), args) <==> x86_64
        }),
{
    the_baseline_leaves_these_out(x86_64, Syscall::Open);
    what_files_and_connections_take(x86_64, Syscall::Open);
    conditions_only_widen(None, Seq::empty(), masked(1, 0x400643, 0), args);
    conditions_only_widen(
        allowed_if(None, masked(1, 0x400643, 0)),
        Seq::empty(),
        masked(1, 0x400640, 0),
        args,
    );
    assert(allowed_if(None, masked(1, 0x400643, 0)) == Some(seq![seq![masked(1, 0x400643, 0)]]));
    assert(allowed_if(None, masked(1, 0x400643, 0)) != freely());
}

} // verus!
