//! The system calls the allowlists speak of.
use vstd::prelude::*;

verus! {

/// A system call, by its name.
#[derive(Clone, Copy, Debug, PartialEq, Eq, Structural)]
pub enum Syscall {
    Read,
    Write,
    Readv,
    Writev,
    Pread64,
    Pwrite64,
    Preadv,
    Pwritev,
    Sendmsg,
    Recvmsg,
    Sendto,
    Recvfrom,
    Getsockopt,
    Setsockopt,
    Getsockname,
    Getpeername,
    Shutdown,
    Close,
    CloseRange,
    Fstat,
    Lseek,
    Fcntl,
    Dup,
    Dup3,
    Ftruncate,
    Fallocate,
    Fsync,
    Fdatasync,
    MemfdCreate,
    Pipe2,
    Mmap,
    Munmap,
    Mprotect,
    Mremap,
    Madvise,
    Msync,
    Mincore,
    Brk,
    Membarrier,
    EpollCreate1,
    EpollCtl,
    EpollPwait,
    EpollPwait2,
    Ppoll,
    Pselect6,
    Eventfd2,
    TimerfdCreate,
    TimerfdSettime,
    TimerfdGettime,
    Signalfd4,
    Futex,
    GetRobustList,
    SetRobustList,
    Rseq,
    SchedYield,
    SchedGetaffinity,
    SchedSetaffinity,
    SchedGetparam,
    SchedGetscheduler,
    Getpriority,
    Getrlimit,
    Prlimit64,
    ClockGettime,
    ClockGetres,
    ClockNanosleep,
    Nanosleep,
    Gettimeofday,
    Getpid,
    Gettid,
    Getppid,
    Getuid,
    Geteuid,
    Getgid,
    Getegid,
    Getrandom,
    Uname,
    Sysinfo,
    Getcpu,
    RestartSyscall,
    RtSigaction,
    RtSigprocmask,
    RtSigreturn,
    RtSigpending,
    RtSigtimedwait,
    RtSigsuspend,
    Sigaltstack,
    Exit,
    ExitGroup,
    Clone3,
    Poll,
    Select,
    EpollWait,
    EpollCreate,
    Dup2,
    Pipe,
    Eventfd,
    ArchPrctl,
    Time,
    Ioctl,
    Clone,
    Tgkill,
    Prctl,
    Newfstatat,
    Statx,
    Openat,
    Open,
    Socket,
    Fstatfs,
    Statfs,
    Readlinkat,
    Faccessat,
    Faccessat2,
    Getdents64,
    Stat,
    Lstat,
    Readlink,
    Access,
    Getdents,
    Renameat,
    Renameat2,
    Unlinkat,
    Mkdirat,
    Fchmodat,
    Fchmod,
    Rename,
    Unlink,
    Mkdir,
    Chmod,
    Accept4,
    Accept,
    Seccomp,
    Connect,
    Wait4,
    Socketpair,
    Bind,
    Fork,
}

/// What every leaf needs with any arguments: its fds, memory, event loops, threads, time, signals,
/// exiting.
pub open spec fn base_calls(x86_64: bool) -> Seq<Syscall> {
    let everywhere = seq![
        Syscall::Read, Syscall::Write, Syscall::Readv, Syscall::Writev, Syscall::Pread64,
        Syscall::Pwrite64, Syscall::Preadv, Syscall::Pwritev, Syscall::Sendmsg, Syscall::Recvmsg,
        Syscall::Sendto, Syscall::Recvfrom, Syscall::Getsockopt, Syscall::Setsockopt,
        Syscall::Getsockname, Syscall::Getpeername, Syscall::Shutdown, Syscall::Close,
        Syscall::CloseRange, Syscall::Fstat, Syscall::Lseek, Syscall::Fcntl, Syscall::Dup,
        Syscall::Dup3, Syscall::Ftruncate, Syscall::Fallocate, Syscall::Fsync,
        Syscall::Fdatasync, Syscall::MemfdCreate, Syscall::Pipe2, Syscall::Mmap, Syscall::Munmap,
        Syscall::Mprotect, Syscall::Mremap, Syscall::Madvise, Syscall::Msync, Syscall::Mincore,
        Syscall::Brk, Syscall::Membarrier, Syscall::EpollCreate1, Syscall::EpollCtl,
        Syscall::EpollPwait, Syscall::EpollPwait2, Syscall::Ppoll, Syscall::Pselect6,
        Syscall::Eventfd2, Syscall::TimerfdCreate, Syscall::TimerfdSettime,
        Syscall::TimerfdGettime, Syscall::Signalfd4, Syscall::Futex, Syscall::GetRobustList,
        Syscall::SetRobustList, Syscall::Rseq, Syscall::SchedYield, Syscall::SchedGetaffinity,
        Syscall::SchedSetaffinity, Syscall::SchedGetparam, Syscall::SchedGetscheduler,
        Syscall::Getpriority, Syscall::Getrlimit, Syscall::Prlimit64, Syscall::ClockGettime,
        Syscall::ClockGetres, Syscall::ClockNanosleep, Syscall::Nanosleep, Syscall::Gettimeofday,
        Syscall::Getpid, Syscall::Gettid, Syscall::Getppid, Syscall::Getuid, Syscall::Geteuid,
        Syscall::Getgid, Syscall::Getegid, Syscall::Getrandom, Syscall::Uname, Syscall::Sysinfo,
        Syscall::Getcpu, Syscall::RestartSyscall, Syscall::RtSigaction, Syscall::RtSigprocmask,
        Syscall::RtSigreturn, Syscall::RtSigpending, Syscall::RtSigtimedwait,
        Syscall::RtSigsuspend, Syscall::Sigaltstack, Syscall::Exit, Syscall::ExitGroup,
        Syscall::Clone3,
    ];
    if x86_64 {
        everywhere + seq![
            Syscall::Poll, Syscall::Select, Syscall::EpollWait, Syscall::EpollCreate,
            Syscall::Dup2, Syscall::Pipe, Syscall::Eventfd, Syscall::ArchPrctl, Syscall::Time,
        ]
    } else {
        everywhere
    }
}

/// What every leaf needs with any arguments: its fds, memory, event loops, threads, time, signals,
/// exiting.
pub fn base_calls_list(x86_64: bool) -> (r: Vec<Syscall>)
    ensures
        r@ == base_calls(x86_64),
{
    let mut list = vec![
        Syscall::Read, Syscall::Write, Syscall::Readv, Syscall::Writev, Syscall::Pread64,
        Syscall::Pwrite64, Syscall::Preadv, Syscall::Pwritev, Syscall::Sendmsg, Syscall::Recvmsg,
        Syscall::Sendto, Syscall::Recvfrom, Syscall::Getsockopt, Syscall::Setsockopt,
        Syscall::Getsockname, Syscall::Getpeername, Syscall::Shutdown, Syscall::Close,
        Syscall::CloseRange, Syscall::Fstat, Syscall::Lseek, Syscall::Fcntl, Syscall::Dup,
        Syscall::Dup3, Syscall::Ftruncate, Syscall::Fallocate, Syscall::Fsync,
        Syscall::Fdatasync, Syscall::MemfdCreate, Syscall::Pipe2, Syscall::Mmap, Syscall::Munmap,
        Syscall::Mprotect, Syscall::Mremap, Syscall::Madvise, Syscall::Msync, Syscall::Mincore,
        Syscall::Brk, Syscall::Membarrier, Syscall::EpollCreate1, Syscall::EpollCtl,
        Syscall::EpollPwait, Syscall::EpollPwait2, Syscall::Ppoll, Syscall::Pselect6,
        Syscall::Eventfd2, Syscall::TimerfdCreate, Syscall::TimerfdSettime,
        Syscall::TimerfdGettime, Syscall::Signalfd4, Syscall::Futex, Syscall::GetRobustList,
        Syscall::SetRobustList, Syscall::Rseq, Syscall::SchedYield, Syscall::SchedGetaffinity,
        Syscall::SchedSetaffinity, Syscall::SchedGetparam, Syscall::SchedGetscheduler,
        Syscall::Getpriority, Syscall::Getrlimit, Syscall::Prlimit64, Syscall::ClockGettime,
        Syscall::ClockGetres, Syscall::ClockNanosleep, Syscall::Nanosleep, Syscall::Gettimeofday,
        Syscall::Getpid, Syscall::Gettid, Syscall::Getppid, Syscall::Getuid, Syscall::Geteuid,
        Syscall::Getgid, Syscall::Getegid, Syscall::Getrandom, Syscall::Uname, Syscall::Sysinfo,
        Syscall::Getcpu, Syscall::RestartSyscall, Syscall::RtSigaction, Syscall::RtSigprocmask,
        Syscall::RtSigreturn, Syscall::RtSigpending, Syscall::RtSigtimedwait,
        Syscall::RtSigsuspend, Syscall::Sigaltstack, Syscall::Exit, Syscall::ExitGroup,
        Syscall::Clone3,
    ];
    if x86_64 {
        let mut more = vec![
            Syscall::Poll, Syscall::Select, Syscall::EpollWait, Syscall::EpollCreate,
            Syscall::Dup2, Syscall::Pipe, Syscall::Eventfd, Syscall::ArchPrctl, Syscall::Time,
        ];
        list.append(&mut more);
    }
    assert(list@ =~= base_calls(x86_64));
    list
}

/// Looking at files by path.
pub open spec fn read_calls(x86_64: bool) -> Seq<Syscall> {
    let everywhere = seq![
        Syscall::Newfstatat, Syscall::Statx, Syscall::Fstatfs, Syscall::Statfs,
        Syscall::Readlinkat, Syscall::Faccessat, Syscall::Faccessat2, Syscall::Getdents64,
    ];
    if x86_64 {
        everywhere + seq![
            Syscall::Stat, Syscall::Lstat, Syscall::Readlink, Syscall::Access, Syscall::Getdents,
        ]
    } else {
        everywhere
    }
}

/// Looking at files by path.
pub fn read_calls_list(x86_64: bool) -> (r: Vec<Syscall>)
    ensures
        r@ == read_calls(x86_64),
{
    let mut list = vec![
        Syscall::Newfstatat, Syscall::Statx, Syscall::Fstatfs, Syscall::Statfs,
        Syscall::Readlinkat, Syscall::Faccessat, Syscall::Faccessat2, Syscall::Getdents64,
    ];
    if x86_64 {
        let mut more = vec![
            Syscall::Stat, Syscall::Lstat, Syscall::Readlink, Syscall::Access, Syscall::Getdents,
        ];
        list.append(&mut more);
    }
    assert(list@ =~= read_calls(x86_64));
    list
}

/// Changing files by path.
pub open spec fn write_calls(x86_64: bool) -> Seq<Syscall> {
    let everywhere = seq![
        Syscall::Openat, Syscall::Renameat, Syscall::Renameat2, Syscall::Unlinkat,
        Syscall::Mkdirat, Syscall::Fchmodat, Syscall::Fchmod,
    ];
    if x86_64 {
        everywhere + seq![
            Syscall::Open, Syscall::Rename, Syscall::Unlink, Syscall::Mkdir, Syscall::Chmod,
        ]
    } else {
        everywhere
    }
}

/// Changing files by path.
pub fn write_calls_list(x86_64: bool) -> (r: Vec<Syscall>)
    ensures
        r@ == write_calls(x86_64),
{
    let mut list = vec![
        Syscall::Openat, Syscall::Renameat, Syscall::Renameat2, Syscall::Unlinkat,
        Syscall::Mkdirat, Syscall::Fchmodat, Syscall::Fchmod,
    ];
    if x86_64 {
        let mut more = vec![
            Syscall::Open, Syscall::Rename, Syscall::Unlink, Syscall::Mkdir, Syscall::Chmod,
        ];
        list.append(&mut more);
    }
    assert(list@ =~= write_calls(x86_64));
    list
}

/// Accepting connections.
pub open spec fn accept_calls(x86_64: bool) -> Seq<Syscall> {
    let everywhere = seq![
        Syscall::Accept4,
    ];
    if x86_64 {
        everywhere + seq![
            Syscall::Accept,
        ]
    } else {
        everywhere
    }
}

/// Accepting connections.
pub fn accept_calls_list(x86_64: bool) -> (r: Vec<Syscall>)
    ensures
        r@ == accept_calls(x86_64),
{
    let mut list = vec![
        Syscall::Accept4,
    ];
    if x86_64 {
        let mut more = vec![
            Syscall::Accept,
        ];
        list.append(&mut more);
    }
    assert(list@ =~= accept_calls(x86_64));
    list
}

} // verus!
