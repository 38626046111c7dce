//! The restrictions that the daemon puts on itself before anyone has logged in.
use vstd::prelude::*;
use vstd::string::*;

use crate::native_paths;
use crate::paths;
use crate::text;
use crate::values;

verus! {

/// The system that the daemon runs on, as far as restrictions go.
#[derive(Clone, Copy, Debug, PartialEq, Eq, Structural)]
pub enum SandboxHost {
    Linux,
    /// A system without these restrictions.
    Other,
}

/// The system calls that the restrictions speak of.
#[derive(Clone, Copy, Debug, PartialEq, Eq, Structural)]
pub enum Syscall {
    Execve,
    Execveat,
    Fork,
    Vfork,
    Clone,
    Clone3,
    Socket,
    Connect,
    Bind,
    Listen,
    Kill,
    Tkill,
    Tgkill,
    Ptrace,
    ProcessVmWritev,
    Bpf,
    PerfEventOpen,
    Userfaultfd,
    Mount,
    Umount2,
    PivotRoot,
    Swapon,
    Swapoff,
    InitModule,
    FinitModule,
    DeleteModule,
    KexecLoad,
    OpenByHandleAt,
    Setns,
    Unshare,
    Accept,
    Accept4,
    Brk,
    ClockGettime,
    Close,
    EpollCtl,
    EpollPwait,
    EpollPwait2,
    EpollWait,
    Exit,
    ExitGroup,
    Fcntl,
    Futex,
    Getrandom,
    Getsockopt,
    Ioctl,
    Lseek,
    Madvise,
    Mlock,
    Mmap,
    Mprotect,
    Mremap,
    Munlock,
    Munmap,
    Newfstatat,
    Openat,
    Prctl,
    Read,
    Readv,
    Recvfrom,
    Recvmsg,
    Rseq,
    RtSigaction,
    RtSigprocmask,
    RtSigreturn,
    Sendmsg,
    Sendto,
    SetRobustList,
    Setsockopt,
    Shutdown,
    Sigaltstack,
    Socketpair,
    Statx,
    Write,
    Writev,
}

/// The calls that fail with a permission error.
pub open spec fn errno_calls() -> Seq<Syscall> {
    seq![
        Syscall::Execve,
        Syscall::Execveat,
        Syscall::Fork,
        Syscall::Vfork,
        Syscall::Clone,
        Syscall::Clone3,
        Syscall::Socket,
        Syscall::Connect,
        Syscall::Bind,
        Syscall::Listen,
        Syscall::Kill,
        Syscall::Tkill,
        Syscall::Tgkill,
        Syscall::Ptrace,
        Syscall::ProcessVmWritev,
        Syscall::Bpf,
        Syscall::PerfEventOpen,
        Syscall::Userfaultfd,
        Syscall::Mount,
        Syscall::Umount2,
        Syscall::PivotRoot,
        Syscall::Swapon,
        Syscall::Swapoff,
        Syscall::InitModule,
        Syscall::FinitModule,
        Syscall::DeleteModule,
        Syscall::KexecLoad,
        Syscall::OpenByHandleAt,
        Syscall::Setns,
        Syscall::Unshare,
    ]
}

/// The calls that go through.
pub open spec fn allowed_calls() -> Seq<Syscall> {
    seq![
        Syscall::Accept,
        Syscall::Accept4,
        Syscall::Brk,
        Syscall::ClockGettime,
        Syscall::Close,
        Syscall::EpollCtl,
        Syscall::EpollPwait,
        Syscall::EpollPwait2,
        Syscall::EpollWait,
        Syscall::Exit,
        Syscall::ExitGroup,
        Syscall::Fcntl,
        Syscall::Futex,
        Syscall::Getrandom,
        Syscall::Getsockopt,
        Syscall::Ioctl,
        Syscall::Lseek,
        Syscall::Madvise,
        Syscall::Mlock,
        Syscall::Mmap,
        Syscall::Mprotect,
        Syscall::Mremap,
        Syscall::Munlock,
        Syscall::Munmap,
        Syscall::Newfstatat,
        Syscall::Openat,
        Syscall::Prctl,
        Syscall::Read,
        Syscall::Readv,
        Syscall::Recvfrom,
        Syscall::Recvmsg,
        Syscall::Rseq,
        Syscall::RtSigaction,
        Syscall::RtSigprocmask,
        Syscall::RtSigreturn,
        Syscall::Sendmsg,
        Syscall::Sendto,
        Syscall::SetRobustList,
        Syscall::Setsockopt,
        Syscall::Shutdown,
        Syscall::Sigaltstack,
        Syscall::Socketpair,
        Syscall::Statx,
        Syscall::Write,
        Syscall::Writev,
    ]
}

pub fn errno_syscalls() -> (r: Vec<Syscall>)
    ensures
        r@ == errno_calls(),
{
    vec![
        Syscall::Execve,
        Syscall::Execveat,
        Syscall::Fork,
        Syscall::Vfork,
        Syscall::Clone,
        Syscall::Clone3,
        Syscall::Socket,
        Syscall::Connect,
        Syscall::Bind,
        Syscall::Listen,
        Syscall::Kill,
        Syscall::Tkill,
        Syscall::Tgkill,
        Syscall::Ptrace,
        Syscall::ProcessVmWritev,
        Syscall::Bpf,
        Syscall::PerfEventOpen,
        Syscall::Userfaultfd,
        Syscall::Mount,
        Syscall::Umount2,
        Syscall::PivotRoot,
        Syscall::Swapon,
        Syscall::Swapoff,
        Syscall::InitModule,
        Syscall::FinitModule,
        Syscall::DeleteModule,
        Syscall::KexecLoad,
        Syscall::OpenByHandleAt,
        Syscall::Setns,
        Syscall::Unshare,
    ]
}

pub fn allowed_syscalls() -> (r: Vec<Syscall>)
    ensures
        r@ == allowed_calls(),
{
    vec![
        Syscall::Accept,
        Syscall::Accept4,
        Syscall::Brk,
        Syscall::ClockGettime,
        Syscall::Close,
        Syscall::EpollCtl,
        Syscall::EpollPwait,
        Syscall::EpollPwait2,
        Syscall::EpollWait,
        Syscall::Exit,
        Syscall::ExitGroup,
        Syscall::Fcntl,
        Syscall::Futex,
        Syscall::Getrandom,
        Syscall::Getsockopt,
        Syscall::Ioctl,
        Syscall::Lseek,
        Syscall::Madvise,
        Syscall::Mlock,
        Syscall::Mmap,
        Syscall::Mprotect,
        Syscall::Mremap,
        Syscall::Munlock,
        Syscall::Munmap,
        Syscall::Newfstatat,
        Syscall::Openat,
        Syscall::Prctl,
        Syscall::Read,
        Syscall::Readv,
        Syscall::Recvfrom,
        Syscall::Recvmsg,
        Syscall::Rseq,
        Syscall::RtSigaction,
        Syscall::RtSigprocmask,
        Syscall::RtSigreturn,
        Syscall::Sendmsg,
        Syscall::Sendto,
        Syscall::SetRobustList,
        Syscall::Setsockopt,
        Syscall::Shutdown,
        Syscall::Sigaltstack,
        Syscall::Socketpair,
        Syscall::Statx,
        Syscall::Write,
        Syscall::Writev,
    ]
}

/// No call that goes through is among those that fail.
pub proof fn law_allowed_calls_do_not_fail(i: int, j: int)
    requires
        0 <= i < allowed_calls().len(),
        0 <= j < errno_calls().len(),
    ensures
        allowed_calls()[i] != errno_calls()[j],
{
}

/// Calls that start programs, open connections, trace or load code never go
/// through.
pub proof fn law_dangerous_calls_fail(i: int, call: Syscall)
    requires
        0 <= i < allowed_calls().len(),
        call == Syscall::Execve || call == Syscall::Execveat || call == Syscall::Fork || call
            == Syscall::Clone3 || call == Syscall::Socket || call == Syscall::Connect || call
            == Syscall::Bind || call == Syscall::Ptrace || call == Syscall::Bpf || call
            == Syscall::InitModule,
    ensures
        allowed_calls()[i] != call,
{
}

/// An instruction of a system call filter.
#[verifier::external_type_specification]
pub struct ExSockFilter(seccompiler::sock_filter);

/// What a system call filter can answer.
#[verifier::external_type_specification]
pub struct ExSeccompAction(seccompiler::SeccompAction);

/// The machine that a system call filter is for.
#[verifier::external_type_specification]
pub struct ExTargetArch(seccompiler::TargetArch);

/// Why a system call filter cannot be built.
#[verifier::external_type_specification]
#[verifier::external_body]
pub struct ExBackendError(seccompiler::BackendError);

/// The number that stands for an answer.
pub open spec fn action_code(action: seccompiler::SeccompAction) -> u32 {
    match action {
        seccompiler::SeccompAction::Allow => 0x7fff_0000u32,
        seccompiler::SeccompAction::Errno(x) => (0x0005_0000u32 + x % 0x1_0000) as u32,
        seccompiler::SeccompAction::KillThread => 0u32,
        seccompiler::SeccompAction::KillProcess => 0x8000_0000u32,
        seccompiler::SeccompAction::Log => 0x7ffc_0000u32,
        seccompiler::SeccompAction::Trace(x) => (0x7ff0_0000u32 + x % 0x1_0000) as u32,
        seccompiler::SeccompAction::Trap => 0x0003_0000u32,
    }
}

/// The number by which the kernel knows a machine.
pub open spec fn audit_value(arch: seccompiler::TargetArch) -> u32 {
    match arch {
        seccompiler::TargetArch::x86_64 => 0xc000_003eu32,
        seccompiler::TargetArch::aarch64 => 0xc000_00b7u32,
        seccompiler::TargetArch::riscv64 => 0xc000_00f3u32,
    }
}

/// What a filter program answers from instruction `pc` on, with `acc` in its
/// accumulator, when it is asked about system call `nr` on machine `arch`. The
/// instructions are loads of either number, a comparison, a jump and a return;
/// a program that does anything else gives no answer.
pub open spec fn answer_from(
    program: Seq<seccompiler::sock_filter>,
    pc: nat,
    acc: u32,
    arch: u32,
    nr: u32,
) -> Option<u32>
    decreases
            if pc < program.len() {
                program.len() - pc
            } else {
                0
            },
{
    if pc >= program.len() {
        None
    } else {
        let i = program[pc as int];
        if i.code == 0x06 {
            Some(i.k)
        } else if i.code == 0x20 && i.k == 0 {
            answer_from(program, pc + 1, nr, arch, nr)
        } else if i.code == 0x20 && i.k == 4 {
            answer_from(program, pc + 1, arch, arch, nr)
        } else if i.code == 0x15 {
            answer_from(
                program,
                pc + 1 + if acc == i.k {
                    i.jt as nat
                } else {
                    i.jf as nat
                },
                acc,
                arch,
                nr,
            )
        } else if i.code == 0x05 {
            answer_from(program, pc + 1 + i.k as nat, acc, arch, nr)
        } else {
            None
        }
    }
}

/// What a filter program answers about system call `nr` on machine `arch`.
pub open spec fn answer(program: Seq<seccompiler::sock_filter>, arch: u32, nr: u32) -> Option<u32> {
    answer_from(program, 0, 0, arch, nr)
}

/// Whether a filter for these system calls, of five instructions for each
/// different number and five more, stays under the kernel's limit.
pub open spec fn fits_a_filter(numbers: Seq<i64>) -> bool {
    5 * numbers.to_set().len() + 5 < 4096
}

/// Whether the last instruction of a program returns this answer.
pub open spec fn ends_with_return(
    program: Seq<seccompiler::sock_filter>,
    action: seccompiler::SeccompAction,
) -> bool {
    program.len() > 0 && program.last().k == action_code(action)
}

/// Whether a program answers with `matching` for the listed calls, with
/// `mismatch` for all others, and kills a process of another machine.
pub open spec fn answers_by_list(
    program: Seq<seccompiler::sock_filter>,
    numbers: Seq<i64>,
    mismatch: seccompiler::SeccompAction,
    matching: seccompiler::SeccompAction,
    arch: seccompiler::TargetArch,
) -> bool {
    forall|machine: u32, nr: u32| #[trigger]
        answer(program, machine, nr) == Some(
            if machine != audit_value(arch) {
                action_code(seccompiler::SeccompAction::KillProcess)
            } else if numbers.contains(nr as i64) {
                action_code(matching)
            } else {
                action_code(mismatch)
            },
        )
}

/// `seccompiler::SeccompFilter::new` with a rule without conditions for each
/// number, compiled by `BpfProgram::try_from`. It fails if the two actions are
/// the same or the program, of five instructions for each different number and
/// five more, reaches 4096 instructions. The program answers with `matching`
/// for the numbers, with `mismatch` for all others, and kills a process of
/// another machine; its last instruction returns `mismatch`. The numbers have
/// to fit the kernel's 32 bits.
#[verifier::external_body]
fn compile_filter(
    numbers: &Vec<i64>,
    mismatch: seccompiler::SeccompAction,
    matching: seccompiler::SeccompAction,
    arch: seccompiler::TargetArch,
) -> (r: Result<Vec<seccompiler::sock_filter>, seccompiler::BackendError>)
    requires
        forall|i: int| 0 <= i < numbers@.len() ==> 0 <= #[trigger] numbers@[i] <= u32::MAX,
    ensures
        r is Ok == (mismatch != matching && fits_a_filter(numbers@)),
        r is Ok ==> answers_by_list(r->Ok_0@, numbers@, mismatch, matching, arch),
        r is Ok ==> ends_with_return(r->Ok_0@, mismatch),
{
    seccompiler::SeccompFilter::new(
        numbers.iter().map(|number| (*number, Vec::new())).collect(),
        mismatch,
        matching,
        arch,
    ).and_then(|filter| filter.try_into())
}

/// Why a restriction could not be put in force.
#[derive(Debug)]
pub enum SandboxError {
    NoNewPrivs,
    NoDirectory { path: String },
    Landlock { step: LandlockStep, root: String },
    NotEnforced { status: String },
    ErrnoFilterNotBuilt,
    AllowlistNotBuilt,
    ErrnoFilterNotInstalled,
    AllowlistNotInstalled,
    NotReadBack { path: String },
    ModeUnknown,
}

/// The steps of restricting file access.
#[derive(Clone, Copy, Debug, PartialEq, Eq, Structural)]
pub enum LandlockStep {
    Configure,
    Create,
    OpenRoot,
    AddRule,
    Restrict,
}

/// What a `SandboxError` says.
pub enum SandboxErrorView {
    NoNewPrivs,
    NoDirectory { path: Seq<char> },
    Landlock { step: LandlockStep, root: Seq<char> },
    NotEnforced { status: Seq<char> },
    ErrnoFilterNotBuilt,
    AllowlistNotBuilt,
    ErrnoFilterNotInstalled,
    AllowlistNotInstalled,
    NotReadBack { path: Seq<char> },
    ModeUnknown,
}

impl View for SandboxError {
    type V = SandboxErrorView;

    open spec fn view(&self) -> SandboxErrorView {
        match self {
            SandboxError::NoNewPrivs => SandboxErrorView::NoNewPrivs,
            SandboxError::NoDirectory { path } => SandboxErrorView::NoDirectory { path: path@ },
            SandboxError::Landlock { step, root } => SandboxErrorView::Landlock {
                step: *step,
                root: root@,
            },
            SandboxError::NotEnforced { status } => SandboxErrorView::NotEnforced {
                status: status@,
            },
            SandboxError::ErrnoFilterNotBuilt => SandboxErrorView::ErrnoFilterNotBuilt,
            SandboxError::AllowlistNotBuilt => SandboxErrorView::AllowlistNotBuilt,
            SandboxError::ErrnoFilterNotInstalled => SandboxErrorView::ErrnoFilterNotInstalled,
            SandboxError::AllowlistNotInstalled => SandboxErrorView::AllowlistNotInstalled,
            SandboxError::NotReadBack { path } => SandboxErrorView::NotReadBack { path: path@ },
            SandboxError::ModeUnknown => SandboxErrorView::ModeUnknown,
        }
    }
}

impl SandboxErrorView {
    pub open spec fn message(self) -> Seq<char> {
        match self {
            SandboxErrorView::NoNewPrivs => "failed to set no_new_privs"@,
            SandboxErrorView::NoDirectory { path } =>
                "failed to find an existing directory for "@ + native_paths::shown(path),
            SandboxErrorView::Landlock { step, root } => match step {
                LandlockStep::Configure =>
                    "failed to configure the Landlock ABI v1 access rights"@,
                LandlockStep::Create => "failed to create the Landlock ruleset"@,
                LandlockStep::OpenRoot => "failed to open sandbox root "@ + native_paths::shown(
                    root,
                )
                    + " for Landlock"@,
                LandlockStep::AddRule =>
                    "failed to add a Landlock read-only rule for "@ + native_paths::shown(root),
                LandlockStep::Restrict => "failed to apply the Landlock pre-auth sandbox"@,
            },
            SandboxErrorView::NotEnforced { status } =>
                "Landlock sandbox was not fully enforced: "@ + status,
            SandboxErrorView::ErrnoFilterNotBuilt =>
                "failed to compile the pre-auth seccomp errno filter"@,
            SandboxErrorView::AllowlistNotBuilt =>
                "failed to compile the pre-auth seccomp allowlist"@,
            SandboxErrorView::ErrnoFilterNotInstalled =>
                "failed to install the pre-auth seccomp errno filter"@,
            SandboxErrorView::AllowlistNotInstalled =>
                "failed to install the pre-auth seccomp allowlist"@,
            SandboxErrorView::NotReadBack { path } => "failed to read "@ + native_paths::shown(path),
            SandboxErrorView::ModeUnknown => "failed to query the seccomp mode"@,
        }
    }
}

impl SandboxError {
    /// The error in words.
    pub fn message(&self) -> (r: String)
        ensures
            r@ == self@.message(),
    {
        match self {
            SandboxError::NoNewPrivs => String::from_str("failed to set no_new_privs"),
            SandboxError::NoDirectory { path } => native_paths::naming(
                "failed to find an existing directory for ",
                path.as_str(),
            ),
            SandboxError::Landlock { step, root } => match step {
                LandlockStep::Configure => String::from_str(
                    "failed to configure the Landlock ABI v1 access rights",
                ),
                LandlockStep::Create => String::from_str("failed to create the Landlock ruleset"),
                LandlockStep::OpenRoot => {
                    let mut out = native_paths::naming("failed to open sandbox root ", root.as_str());
                    out.append(" for Landlock");
                    out
                },
                LandlockStep::AddRule => native_paths::naming(
                    "failed to add a Landlock read-only rule for ",
                    root.as_str(),
                ),
                LandlockStep::Restrict => String::from_str(
                    "failed to apply the Landlock pre-auth sandbox",
                ),
            },
            SandboxError::NotEnforced { status } => values::sentence(
                "Landlock sandbox was not fully enforced: ",
                status.as_str(),
            ),
            SandboxError::ErrnoFilterNotBuilt => String::from_str(
                "failed to compile the pre-auth seccomp errno filter",
            ),
            SandboxError::AllowlistNotBuilt => String::from_str(
                "failed to compile the pre-auth seccomp allowlist",
            ),
            SandboxError::ErrnoFilterNotInstalled => String::from_str(
                "failed to install the pre-auth seccomp errno filter",
            ),
            SandboxError::AllowlistNotInstalled => String::from_str(
                "failed to install the pre-auth seccomp allowlist",
            ),
            SandboxError::NotReadBack { path } => native_paths::naming(
                "failed to read ",
                path.as_str(),
            ),
            SandboxError::ModeUnknown => String::from_str("failed to query the seccomp mode"),
        }
    }
}

/// The error number that stands for a missing permission.
pub const EPERM: u32 = 1;

/// Whether these are numbers of system calls, few enough for a filter.
pub open spec fn are_numbers(numbers: Seq<i64>) -> bool {
    forall|i: int| 0 <= i < numbers.len() ==> 0 <= #[trigger] numbers[i] <= u32::MAX
}

/// The program that makes the calls of `errno` fail with a permission error.
pub open spec fn is_errno_filter(
    program: Seq<seccompiler::sock_filter>,
    errno: Seq<i64>,
    arch: seccompiler::TargetArch,
) -> bool {
    answers_by_list(
        program,
        errno,
        seccompiler::SeccompAction::Allow,
        seccompiler::SeccompAction::Errno(EPERM),
        arch,
    )
}

/// The program that kills on every call that is neither in `errno` nor in
/// `allowed`.
pub open spec fn is_allowlist(
    program: Seq<seccompiler::sock_filter>,
    errno: Seq<i64>,
    allowed: Seq<i64>,
    arch: seccompiler::TargetArch,
) -> bool {
    &&& ends_with_return(program, seccompiler::SeccompAction::KillProcess)
    &&& answers_by_list(
        program,
        allowed + errno,
        seccompiler::SeccompAction::KillProcess,
        seccompiler::SeccompAction::Allow,
        arch,
    )
}

/// Builds the two filters, given the numbers of the calls that fail and of
/// those that go through. The second lets the failing calls pass, so that the
/// answer of the first one counts for them.
pub fn build_preauth_seccomp_filters(
    errno: &Vec<i64>,
    allowed: &Vec<i64>,
    arch: seccompiler::TargetArch,
) -> (r: Result<(Vec<seccompiler::sock_filter>, Vec<seccompiler::sock_filter>), SandboxError>)
    requires
        are_numbers(errno@),
        are_numbers(allowed@),
    ensures
        match r {
            Ok((errno_filter, allowlist)) => {
                &&& is_errno_filter(errno_filter@, errno@, arch)
                &&& is_allowlist(allowlist@, errno@, allowed@, arch)
            },
            Err(e) => {
                ||| e@ == SandboxErrorView::ErrnoFilterNotBuilt && !fits_a_filter(errno@)
                ||| e@ == SandboxErrorView::AllowlistNotBuilt && fits_a_filter(errno@)
                    && !fits_a_filter(allowed@ + errno@)
            },
        },
        errno@.len() + allowed@.len() < 818 ==> r is Ok,
{
    let mut listed: Vec<i64> = Vec::new();
    let mut i: usize = 0;
    while i < allowed.len()
        invariant
            i <= allowed@.len(),
            listed@ == allowed@.take(i as int),
        decreases allowed.len() - i,
    {
        listed.push(allowed[i]);
        assert(listed@ =~= allowed@.take(i + 1));
        i = i + 1;
    }
    let mut k: usize = 0;
    assert(allowed@.take(allowed@.len() as int) + errno@.take(0) =~= listed@);
    while k < errno.len()
        invariant
            k <= errno@.len(),
            listed@ == allowed@ + errno@.take(k as int),
        decreases errno.len() - k,
    {
        listed.push(errno[k]);
        assert(listed@ =~= allowed@ + errno@.take(k + 1));
        k = k + 1;
    }
    assert(listed@ =~= allowed@ + errno@);
    proof {
        errno@.lemma_cardinality_of_set();
        listed@.lemma_cardinality_of_set();
    }
    let errno_filter = match compile_filter(
        errno,
        seccompiler::SeccompAction::Allow,
        seccompiler::SeccompAction::Errno(EPERM),
        arch,
    ) {
        Ok(program) => program,
        Err(_) => {
            return Err(SandboxError::ErrnoFilterNotBuilt);
        },
    };
    let allowlist = match compile_filter(
        &listed,
        seccompiler::SeccompAction::KillProcess,
        seccompiler::SeccompAction::Allow,
        arch,
    ) {
        Ok(program) => program,
        Err(_) => {
            return Err(SandboxError::AllowlistNotBuilt);
        },
    };
    Ok((errno_filter, allowlist))
}

/// How the kernel ranks an answer: of several filters' answers, the one with
/// the lowest rank counts.
pub open spec fn rank(code: u32) -> int {
    let action = code - code % 0x1_0000;
    if action >= 0x8000_0000 {
        action - 0x1_0000_0000
    } else {
        action
    }
}

/// What comes of two filters' answers.
pub open spec fn stricter(a: u32, b: u32) -> u32 {
    if rank(b) < rank(a) {
        b
    } else {
        a
    }
}

/// Together the two filters deny by default: a listed call fails with a
/// permission error, an allowed one goes through, and any other call, and any
/// call of another machine, ends the process.
pub proof fn law_filters_deny_by_default(
    errno_filter: Seq<seccompiler::sock_filter>,
    allowlist: Seq<seccompiler::sock_filter>,
    errno: Seq<i64>,
    allowed: Seq<i64>,
    arch: seccompiler::TargetArch,
    machine: u32,
    nr: u32,
)
    requires
        is_errno_filter(errno_filter, errno, arch),
        is_allowlist(allowlist, errno, allowed, arch),
    ensures
        answer(errno_filter, machine, nr) is Some,
        answer(allowlist, machine, nr) is Some,
        stricter(answer(errno_filter, machine, nr)->0, answer(allowlist, machine, nr)->0)
            == action_code(
            if machine != audit_value(arch) {
                seccompiler::SeccompAction::KillProcess
            } else if errno.contains(nr as i64) {
                seccompiler::SeccompAction::Errno(EPERM)
            } else if allowed.contains(nr as i64) {
                seccompiler::SeccompAction::Allow
            } else {
                seccompiler::SeccompAction::KillProcess
            },
        ),
{
    let n = nr as i64;
    let listed = allowed + errno;
    if allowed.contains(n) {
        let j = choose|j: int| 0 <= j < allowed.len() && allowed[j] == n;
        assert(listed[j] == n);
    }
    if errno.contains(n) {
        let j = choose|j: int| 0 <= j < errno.len() && errno[j] == n;
        assert(listed[allowed.len() + j] == n);
    }
}

/// `path` for zero, and for `k + 1` the directory that holds the `k`-th; none
/// where the root or an empty path has been reached before.
pub open spec fn ancestor(path: Seq<char>, k: nat) -> Option<Seq<char>>
    decreases k,
{
    if k == 0 {
        Some(path)
    } else {
        match ancestor(path, (k - 1) as nat) {
            Some(p) => paths::parent_of(p),
            None => None,
        }
    }
}

/// Whether `is_dir` gave this answer on the text of `path`.
pub open spec fn answered<D: Fn(&str) -> bool>(is_dir: D, path: Seq<char>, answer: bool) -> bool {
    exists|s: &str| s@ == path && #[trigger] is_dir.ensures((s,), answer)
}

/// Whether `is_dir` denied the first `n` of the paths from `path` upwards.
pub open spec fn denied<D: Fn(&str) -> bool>(is_dir: D, path: Seq<char>, n: nat) -> bool {
    forall|j: nat|
        j < n ==> (#[trigger] ancestor(path, j)) is Some && answered(
            is_dir,
            ancestor(path, j)->0,
            false,
        )
}

/// Whether `root` is the nearest directory that exists, from `path` upwards.
pub open spec fn nearest<D: Fn(&str) -> bool>(is_dir: D, path: Seq<char>, root: Seq<char>) -> bool {
    exists|k: nat|
        (#[trigger] ancestor(path, k)) == Some(root) && answered(is_dir, root, true) && denied(
            is_dir,
            path,
            k,
        )
}

/// Finds the nearest directory that exists, starting at `path` itself and going
/// upwards; `is_dir` asks the system.
pub fn nearest_existing_directory<D: Fn(&str) -> bool>(path: &str, is_dir: D) -> (r: Result<
    String,
    SandboxError,
>)
    requires
        forall|k: nat, s: &str|
            (#[trigger] ancestor(path@, k)) == Some(s@) ==> #[trigger] is_dir.requires((s,)),
    ensures
        match r {
            Ok(dir) => nearest(is_dir, path@, dir@),
            Err(e) => e@ == (SandboxErrorView::NoDirectory { path: path@ }) && exists|k: nat|
                k > 0 && (#[trigger] ancestor(path@, k)) is None && denied(is_dir, path@, k),
        },
{
    let mut current = String::from_str(path);
    let ghost mut k: nat = 0;
    loop
        invariant
            forall|j: nat, s: &str|
                (#[trigger] ancestor(path@, j)) == Some(s@) ==> #[trigger] is_dir.requires((s,)),
            ancestor(path@, k) == Some(current@),
            denied(is_dir, path@, k),
        decreases current@.len(),
    {
        if is_dir(current.as_str()) {
            assert(ancestor(path@, k) == Some(current@));
            return Ok(current);
        }
        assert(answered(is_dir, current@, false));
        assert(denied(is_dir, path@, k + 1)) by {
            assert forall|j: nat| j < k + 1 implies (#[trigger] ancestor(path@, j)) is Some
                && answered(is_dir, ancestor(path@, j)->0, false) by {
                if j < k {
                    assert(ancestor(path@, j) is Some);
                } else {
                    assert(j == k);
                }
            }
        }
        match paths::parent_path(&text::chars_of(current.as_str())) {
            Some(parent) => {
                current = text::string_of(&parent);
                proof {
                    k = k + 1;
                }
            },
            None => {
                assert(ancestor(path@, k + 1) is None);
                return Err(SandboxError::NoDirectory { path: String::from_str(path) });
            },
        }
    }
}

/// What came of restricting file access to one directory.
#[derive(Debug)]
pub enum LandlockReport {
    /// A step failed.
    Failed(LandlockStep),
    /// The kernel took the restriction, as far as it says.
    Restricted { fully_enforced: bool, no_new_privs: bool, status: String },
}

/// Whether a restriction of file access is in force as a whole.
pub open spec fn enforced(report: LandlockReport) -> bool {
    report matches LandlockReport::Restricted { fully_enforced, no_new_privs, .. }
        && fully_enforced && no_new_privs
}

/// Decides whether a restriction of file access to `root` is good enough: it
/// has to be in force as a whole, for this process and all that it starts.
pub fn check_landlock(report: LandlockReport, root: &str) -> (r: Result<(), SandboxError>)
    ensures
        match report {
            LandlockReport::Failed(step) => r is Err && r->Err_0@ == (SandboxErrorView::Landlock {
                step,
                root: root@,
            }),
            LandlockReport::Restricted { fully_enforced, no_new_privs, status } => if fully_enforced
                && no_new_privs {
                r is Ok
            } else {
                r is Err && r->Err_0@ == (SandboxErrorView::NotEnforced { status: status@ })
            },
        },
{
    match report {
        LandlockReport::Failed(step) => Err(
            SandboxError::Landlock { step, root: String::from_str(root) },
        ),
        LandlockReport::Restricted { fully_enforced, no_new_privs, status } => {
            if fully_enforced && no_new_privs {
                Ok(())
            } else {
                Err(SandboxError::NotEnforced { status })
            }
        },
    }
}

/// Gives up the right to gain privileges, on a system that knows of it; `set`
/// asks the system and tells whether it did.
pub fn enable_no_new_privs<F: FnOnce() -> bool>(host: SandboxHost, set: F) -> (r: Result<
    (),
    SandboxError,
>)
    requires
        host == SandboxHost::Linux ==> set.requires(()),
    ensures
        match r {
            Ok(_) => host == SandboxHost::Other || set.ensures((), true),
            Err(e) => host == SandboxHost::Linux && set.ensures((), false) && e@
                == SandboxErrorView::NoNewPrivs,
        },
{
    match host {
        SandboxHost::Linux => {
            if set() {
                Ok(())
            } else {
                Err(SandboxError::NoNewPrivs)
            }
        },
        SandboxHost::Other => Ok(()),
    }
}

/// Puts the two filters in force, the one with the errors first: it leaves the
/// call that installs filters usable for the second. `install` asks the system
/// and tells whether it did.
pub fn install_preauth_seccomp_filter<F: Fn(&Vec<seccompiler::sock_filter>) -> bool>(
    errno: &Vec<i64>,
    allowed: &Vec<i64>,
    arch: seccompiler::TargetArch,
    install: F,
) -> (r: Result<(), SandboxError>)
    requires
        are_numbers(errno@),
        are_numbers(allowed@),
        forall|p: &Vec<seccompiler::sock_filter>|
            is_errno_filter(p@, errno@, arch) ==> #[trigger] install.requires((p,)),
        forall|p: &Vec<seccompiler::sock_filter>, q: &Vec<seccompiler::sock_filter>|
            is_errno_filter(q@, errno@, arch) && #[trigger] install.ensures((q,), true)
                && is_allowlist(p@, errno@, allowed@, arch) ==> #[trigger] install.requires((p,)),
    ensures
        r is Ok ==> installed(install, errno@, allowed@, arch),
        r matches Err(e) ==> refused(install, errno@, allowed@, arch, e@),
{
    let (errno_filter, allowlist) = match build_preauth_seccomp_filters(errno, allowed, arch) {
        Ok(filters) => filters,
        Err(e) => {
            return Err(e);
        },
    };
    if !install(&errno_filter) {
        return Err(SandboxError::ErrnoFilterNotInstalled);
    }
    if !install(&allowlist) {
        return Err(SandboxError::AllowlistNotInstalled);
    }
    Ok(())
}

/// Whether the system took both filters.
pub open spec fn installed<F: Fn(&Vec<seccompiler::sock_filter>) -> bool>(
    install: F,
    errno: Seq<i64>,
    allowed: Seq<i64>,
    arch: seccompiler::TargetArch,
) -> bool {
    &&& exists|p: &Vec<seccompiler::sock_filter>|
        is_errno_filter(p@, errno, arch) && #[trigger] install.ensures((p,), true)
    &&& exists|p: &Vec<seccompiler::sock_filter>|
        is_allowlist(p@, errno, allowed, arch) && #[trigger] install.ensures((p,), true)
}

/// Whether `e` says why the filters are not in force.
pub open spec fn refused<F: Fn(&Vec<seccompiler::sock_filter>) -> bool>(
    install: F,
    errno: Seq<i64>,
    allowed: Seq<i64>,
    arch: seccompiler::TargetArch,
    e: SandboxErrorView,
) -> bool {
    match e {
        SandboxErrorView::ErrnoFilterNotBuilt => !fits_a_filter(errno),
        SandboxErrorView::AllowlistNotBuilt => !fits_a_filter(allowed + errno),
        SandboxErrorView::ErrnoFilterNotInstalled => exists|p: &Vec<seccompiler::sock_filter>|
            is_errno_filter(p@, errno, arch) && #[trigger] install.ensures((p,), false),
        SandboxErrorView::AllowlistNotInstalled => exists|p: &Vec<seccompiler::sock_filter>|
            is_allowlist(p@, errno, allowed, arch) && #[trigger] install.ensures((p,), false),
        _ => false,
    }
}

/// Puts all restrictions in force that hold before anyone has logged in: file
/// access to the directory of the key file, for reading, and the system call
/// filters. The directory comes back. A system without them does nothing.
/// `is_dir`, `restrict` and `install` ask the system.
pub fn apply_preauth_sandbox<
    D: Fn(&str) -> bool,
    L: FnOnce(&str) -> LandlockReport,
    F: Fn(&Vec<seccompiler::sock_filter>) -> bool,
>(
    host: SandboxHost,
    authorized_keys_file: &str,
    errno: &Vec<i64>,
    allowed: &Vec<i64>,
    arch: seccompiler::TargetArch,
    is_dir: D,
    restrict: L,
    install: F,
) -> (r: Result<Option<String>, SandboxError>)
    requires
        are_numbers(errno@),
        are_numbers(allowed@),
        host == SandboxHost::Linux ==> forall|k: nat, s: &str|
            (#[trigger] ancestor(authorized_keys_file@, k)) == Some(s@)
                ==> #[trigger] is_dir.requires((s,)),
        host == SandboxHost::Linux ==> forall|s: &str|
            nearest(is_dir, authorized_keys_file@, s@) ==> #[trigger] restrict.requires((s,)),
        host == SandboxHost::Linux ==> forall|
            s: &str,
            report: LandlockReport,
            p: &Vec<seccompiler::sock_filter>,
        |
            #[trigger] restrict.ensures((s,), report) && enforced(report) && is_errno_filter(
                p@,
                errno@,
                arch,
            ) ==> #[trigger] install.requires((p,)),
        host == SandboxHost::Linux ==> forall|
            s: &str,
            report: LandlockReport,
            p: &Vec<seccompiler::sock_filter>,
            q: &Vec<seccompiler::sock_filter>,
        |
            #[trigger] restrict.ensures((s,), report) && enforced(report) && is_errno_filter(
                q@,
                errno@,
                arch,
            ) && #[trigger] install.ensures((q,), true) && is_allowlist(
                p@,
                errno@,
                allowed@,
                arch,
            ) ==> #[trigger] install.requires((p,)),
    ensures
        r matches Ok(None) <==> host == SandboxHost::Other,
        match r {
            Ok(None) => true,
            Ok(Some(root)) => {
                &&& nearest(is_dir, authorized_keys_file@, root@)
                &&& exists|s: &str, report: LandlockReport|
                    s@ == root@ && #[trigger] restrict.ensures((s,), report) && enforced(report)
                &&& installed(install, errno@, allowed@, arch)
            },
            Err(e) => match e@ {
                SandboxErrorView::NoDirectory { path } => path == authorized_keys_file@ && exists|
                    k: nat,
                |
                    k > 0 && (#[trigger] ancestor(authorized_keys_file@, k)) is None && denied(
                        is_dir,
                        authorized_keys_file@,
                        k,
                    ),
                SandboxErrorView::Landlock { step, root } => nearest(
                    is_dir,
                    authorized_keys_file@,
                    root,
                ) && exists|s: &str|
                    s@ == root && #[trigger] restrict.ensures((s,), LandlockReport::Failed(step)),
                SandboxErrorView::NotEnforced { status } => exists|
                    s: &str,
                    report: LandlockReport,
                |
                    nearest(is_dir, authorized_keys_file@, s@) && #[trigger] restrict.ensures(
                        (s,),
                        report,
                    ) && !enforced(report) && (
                    report matches LandlockReport::Restricted { status: text, .. } && text@
                        == status),
                other => refused(install, errno@, allowed@, arch, other) && exists|
                    s: &str,
                    report: LandlockReport,
                |
                    nearest(is_dir, authorized_keys_file@, s@) && #[trigger] restrict.ensures(
                        (s,),
                        report,
                    ) && enforced(report),
            },
        },
{
    if host == SandboxHost::Other {
        return Ok(None);
    }
    let root = match nearest_existing_directory(authorized_keys_file, is_dir) {
        Ok(root) => root,
        Err(e) => {
            return Err(e);
        },
    };
    let text = root.as_str();
    let report = restrict(text);
    assert(restrict.ensures((text,), report));
    match check_landlock(report, text) {
        Ok(_) => {},
        Err(e) => {
            return Err(e);
        },
    }
    match install_preauth_seccomp_filter(errno, allowed, arch, install) {
        Ok(_) => Ok(Some(root)),
        Err(e) => Err(e),
    }
}

/// How the kernel filters the system calls of this process.
#[derive(Clone, Copy, Debug, PartialEq, Eq, Structural)]
pub enum SeccompMode {
    Disabled,
    Strict,
    Filter,
}

/// What a probe of the restrictions found.
#[derive(Clone, Copy, Debug, PartialEq, Eq, Structural)]
pub struct ProbeFindings {
    /// Whether the key file read back empty.
    pub read_empty: bool,
    /// Whether the key file exists.
    pub file_exists: bool,
    pub write_denied: bool,
    pub exec_denied: bool,
    pub socket_eperm: bool,
    pub mode: SeccompMode,
}

/// A truth value as a digit.
pub open spec fn bit(b: bool) -> Seq<char> {
    if b {
        "1"@
    } else {
        "0"@
    }
}

fn bit_of(b: bool) -> (r: &'static str)
    ensures
        r@ == bit(b),
{
    if b {
        "1"
    } else {
        "0"
    }
}

/// What a probe reports.
pub open spec fn report_text(f: ProbeFindings) -> Seq<char> {
    "read_ok="@ + bit(!f.read_empty || f.file_exists) + "\nwrite_denied="@ + bit(f.write_denied)
        + "\nexec_denied="@ + bit(f.exec_denied) + "\nsocket_eperm="@ + bit(f.socket_eperm)
        + "\nseccomp_mode="@ + (match f.mode {
        SeccompMode::Disabled => "0"@,
        SeccompMode::Strict => "1"@,
        SeccompMode::Filter => "2"@,
    }) + "\n"@
}

/// Puts what a probe found into words.
pub fn probe_report(f: ProbeFindings) -> (r: String)
    ensures
        r@ == report_text(f),
{
    let mut out = values::sentence("read_ok=", bit_of(!f.read_empty || f.file_exists));
    out.append("\nwrite_denied=");
    out.append(bit_of(f.write_denied));
    out.append("\nexec_denied=");
    out.append(bit_of(f.exec_denied));
    out.append("\nsocket_eperm=");
    out.append(bit_of(f.socket_eperm));
    out.append("\nseccomp_mode=");
    out.append(
        match f.mode {
            SeccompMode::Disabled => "0",
            SeccompMode::Strict => "1",
            SeccompMode::Filter => "2",
        },
    );
    out.append("\n");
    out
}

/// Probes the restrictions: `probe` puts them in force and tries them out. A
/// system without them reports that nothing is denied.
pub fn internal_preauth_probe<F: FnOnce() -> Result<ProbeFindings, SandboxError>>(
    host: SandboxHost,
    probe: F,
) -> (r: Result<String, SandboxError>)
    requires
        host == SandboxHost::Linux ==> probe.requires(()),
    ensures
        match host {
            SandboxHost::Linux => exists|found: Result<ProbeFindings, SandboxError>| #[trigger]
                probe.ensures((), found) && (match found {
                    Ok(findings) => r is Ok && r->Ok_0@ == report_text(findings),
                    Err(e) => r == Err::<String, SandboxError>(e),
                }),
            SandboxHost::Other => r is Ok && r->Ok_0@ == report_text(
                ProbeFindings {
                    read_empty: false,
                    file_exists: true,
                    write_denied: false,
                    exec_denied: false,
                    socket_eperm: false,
                    mode: SeccompMode::Disabled,
                },
            ),
        },
{
    match host {
        SandboxHost::Linux => match probe() {
            Ok(findings) => Ok(probe_report(findings)),
            Err(e) => Err(e),
        },
        SandboxHost::Other => Ok(
            probe_report(
                ProbeFindings {
                    read_empty: false,
                    file_exists: true,
                    write_denied: false,
                    exec_denied: false,
                    socket_eperm: false,
                    mode: SeccompMode::Disabled,
                },
            ),
        ),
    }
}

/// Probes that a call outside the lists ends the process: `probe` puts the
/// restrictions in force and makes such a call. A system without them does
/// nothing.
pub fn internal_preauth_default_deny_probe<F: FnOnce() -> Result<(), SandboxError>>(
    host: SandboxHost,
    probe: F,
) -> (r: Result<(), SandboxError>)
    requires
        host == SandboxHost::Linux ==> probe.requires(()),
    ensures
        match host {
            SandboxHost::Linux => probe.ensures((), r),
            SandboxHost::Other => r is Ok,
        },
{
    match host {
        SandboxHost::Linux => probe(),
        SandboxHost::Other => Ok(()),
    }
}

/// Each call fails or goes through, and none does both: the calls that start
/// programs, open connections, send signals, trace, or change the system fail.
pub proof fn law_each_call_fails_or_goes_through(
    call: Syscall,
    failing: Vec<Syscall>,
    going: Vec<Syscall>,
)
    requires
        call_ensures(errno_syscalls, (), failing),
        call_ensures(allowed_syscalls, (), going),
    ensures
        failing@.contains(call) <==> (
        call is Execve || call is Execveat || call is Fork || call is Vfork
            || call is Clone || call is Clone3 || call is Socket || call is Connect
            || call is Bind || call is Listen || call is Kill || call is Tkill
            || call is Tgkill || call is Ptrace || call is ProcessVmWritev || call is Bpf
            || call is PerfEventOpen || call is Userfaultfd || call is Mount
            || call is Umount2 || call is PivotRoot || call is Swapon || call is Swapoff
            || call is InitModule || call is FinitModule || call is DeleteModule
            || call is KexecLoad || call is OpenByHandleAt || call is Setns || call is Unshare),
        going@.contains(call) <==> !failing@.contains(call),
{
    lemma_place_among_failing(call);
    lemma_place_among_going(call);
}

proof fn lemma_place_among_failing(call: Syscall)
    ensures
        errno_calls().contains(call) <==> (
        call is Execve || call is Execveat || call is Fork || call is Vfork
            || call is Clone || call is Clone3 || call is Socket || call is Connect
            || call is Bind || call is Listen || call is Kill || call is Tkill
            || call is Tgkill || call is Ptrace || call is ProcessVmWritev || call is Bpf
            || call is PerfEventOpen || call is Userfaultfd || call is Mount
            || call is Umount2 || call is PivotRoot || call is Swapon || call is Swapoff
            || call is InitModule || call is FinitModule || call is DeleteModule
            || call is KexecLoad || call is OpenByHandleAt || call is Setns || call is Unshare),
{
    let all = errno_calls();
    let i: int = match call {
        Syscall::Execve => 0,
        Syscall::Execveat => 1,
        Syscall::Fork => 2,
        Syscall::Vfork => 3,
        Syscall::Clone => 4,
        Syscall::Clone3 => 5,
        Syscall::Socket => 6,
        Syscall::Connect => 7,
        Syscall::Bind => 8,
        Syscall::Listen => 9,
        Syscall::Kill => 10,
        Syscall::Tkill => 11,
        Syscall::Tgkill => 12,
        Syscall::Ptrace => 13,
        Syscall::ProcessVmWritev => 14,
        Syscall::Bpf => 15,
        Syscall::PerfEventOpen => 16,
        Syscall::Userfaultfd => 17,
        Syscall::Mount => 18,
        Syscall::Umount2 => 19,
        Syscall::PivotRoot => 20,
        Syscall::Swapon => 21,
        Syscall::Swapoff => 22,
        Syscall::InitModule => 23,
        Syscall::FinitModule => 24,
        Syscall::DeleteModule => 25,
        Syscall::KexecLoad => 26,
        Syscall::OpenByHandleAt => 27,
        Syscall::Setns => 28,
        Syscall::Unshare => 29,
        _ => -1,
    };
    if i >= 0 {
        assert(all[i] == call);
    }
}

proof fn lemma_place_among_going(call: Syscall)
    ensures
        allowed_calls().contains(call) <==> (
        call is Accept || call is Accept4 || call is Brk || call is ClockGettime
            || call is Close || call is EpollCtl || call is EpollPwait || call is EpollPwait2
            || call is EpollWait || call is Exit || call is ExitGroup || call is Fcntl
            || call is Futex || call is Getrandom || call is Getsockopt || call is Ioctl
            || call is Lseek || call is Madvise || call is Mlock || call is Mmap
            || call is Mprotect || call is Mremap || call is Munlock || call is Munmap
            || call is Newfstatat || call is Openat || call is Prctl || call is Read
            || call is Readv || call is Recvfrom || call is Recvmsg || call is Rseq
            || call is RtSigaction || call is RtSigprocmask || call is RtSigreturn
            || call is Sendmsg || call is Sendto || call is SetRobustList
            || call is Setsockopt || call is Shutdown || call is Sigaltstack
            || call is Socketpair || call is Statx || call is Write || call is Writev),
{
    let all = allowed_calls();
    let i: int = match call {
        Syscall::Accept => 0,
        Syscall::Accept4 => 1,
        Syscall::Brk => 2,
        Syscall::ClockGettime => 3,
        Syscall::Close => 4,
        Syscall::EpollCtl => 5,
        Syscall::EpollPwait => 6,
        Syscall::EpollPwait2 => 7,
        Syscall::EpollWait => 8,
        Syscall::Exit => 9,
        Syscall::ExitGroup => 10,
        Syscall::Fcntl => 11,
        Syscall::Futex => 12,
        Syscall::Getrandom => 13,
        Syscall::Getsockopt => 14,
        Syscall::Ioctl => 15,
        Syscall::Lseek => 16,
        Syscall::Madvise => 17,
        Syscall::Mlock => 18,
        Syscall::Mmap => 19,
        Syscall::Mprotect => 20,
        Syscall::Mremap => 21,
        Syscall::Munlock => 22,
        Syscall::Munmap => 23,
        Syscall::Newfstatat => 24,
        Syscall::Openat => 25,
        Syscall::Prctl => 26,
        Syscall::Read => 27,
        Syscall::Readv => 28,
        Syscall::Recvfrom => 29,
        Syscall::Recvmsg => 30,
        Syscall::Rseq => 31,
        Syscall::RtSigaction => 32,
        Syscall::RtSigprocmask => 33,
        Syscall::RtSigreturn => 34,
        Syscall::Sendmsg => 35,
        Syscall::Sendto => 36,
        Syscall::SetRobustList => 37,
        Syscall::Setsockopt => 38,
        Syscall::Shutdown => 39,
        Syscall::Sigaltstack => 40,
        Syscall::Socketpair => 41,
        Syscall::Statx => 42,
        Syscall::Write => 43,
        Syscall::Writev => 44,
        _ => -1,
    };
    if i >= 0 {
        assert(all[i] == call);
    }
}

/// Of the two filters the first answers a failing call with a permission error
/// and lets every other pass; the second lets the listed calls of both kinds
/// pass and kills the process on any other. Both kill on a call of another
/// machine.
pub proof fn law_filters_answer_by_their_lists(
    errno: &Vec<i64>,
    allowed: &Vec<i64>,
    arch: seccompiler::TargetArch,
    r: Result<(Vec<seccompiler::sock_filter>, Vec<seccompiler::sock_filter>), SandboxError>,
    machine: u32,
    nr: u32,
)
    requires
        are_numbers(errno@),
        are_numbers(allowed@),
        call_ensures(build_preauth_seccomp_filters, (errno, allowed, arch), r),
    ensures
        errno@.len() + allowed@.len() < 818 ==> r is Ok,
        r is Ok ==> ({
            let own = match arch {
                seccompiler::TargetArch::x86_64 => 0xc000_003eu32,
                seccompiler::TargetArch::aarch64 => 0xc000_00b7u32,
                seccompiler::TargetArch::riscv64 => 0xc000_00f3u32,
            };
            let first = answer(r->Ok_0.0@, machine, nr);
            let second = answer(r->Ok_0.1@, machine, nr);
            let fails = errno@.contains(nr as i64);
            let goes = allowed@.contains(nr as i64);
            &&& machine != own ==> first == Some(0x8000_0000u32) && second == Some(0x8000_0000u32)
            &&& machine == own && fails ==> first == Some(0x0005_0001u32)
            &&& machine == own && !fails ==> first == Some(0x7fff_0000u32)
            &&& machine == own && (fails || goes) ==> second == Some(0x7fff_0000u32)
            &&& machine == own && !fails && !goes ==> second == Some(0x8000_0000u32)
        }),
{
    if r is Ok {
        let n = nr as i64;
        let listed = allowed@ + errno@;
        if allowed@.contains(n) {
            let j = choose|j: int| 0 <= j < allowed@.len() && allowed@[j] == n;
            assert(listed[j] == n);
        }
        if errno@.contains(n) {
            let j = choose|j: int| 0 <= j < errno@.len() && errno@[j] == n;
            assert(listed[allowed@.len() + j] == n);
        }
        assert(answer(r->Ok_0.0@, machine, nr) is Some);
        assert(answer(r->Ok_0.1@, machine, nr) is Some);
    }
}

/// A restriction of file access is good enough only if the kernel took all of
/// it and the right to gain privileges is gone.
pub proof fn law_half_a_restriction_is_refused(
    report: LandlockReport,
    root: &str,
    r: Result<(), SandboxError>,
)
    requires
        call_ensures(check_landlock, (report, root), r),
    ensures
        r is Ok <==> (report matches LandlockReport::Restricted {
            fully_enforced,
            no_new_privs,
            status,
        } && fully_enforced && no_new_privs),
        report matches LandlockReport::Failed(step) ==> r is Err && r->Err_0@ == (
        SandboxErrorView::Landlock { step, root: root@ }),
        report is Restricted && r is Err ==> r->Err_0 is NotEnforced,
{
}

/// The right to gain privileges is given up where the system knows of it, or
/// else the daemon is told that it is not.
pub proof fn law_privileges_are_given_up<F: FnOnce() -> bool>(
    host: SandboxHost,
    set: F,
    r: Result<(), SandboxError>,
)
    requires
        host is Linux ==> set.requires(()),
        call_ensures(enable_no_new_privs::<F>, (host, set), r),
    ensures
        host is Linux && r is Ok ==> set.ensures((), true),
        r is Err ==> host is Linux && set.ensures((), false) && r->Err_0 is NoNewPrivs,
{
}

/// The directory that file access is restricted to is the path itself if that
/// is a directory, else the one that holds it if that is there, and in any case
/// one that is there.
pub proof fn law_nearest_directory_is_there<D: Fn(&str) -> bool>(
    path: &str,
    is_dir: D,
    directories: spec_fn(Seq<char>) -> bool,
    d: Seq<char>,
    name: Seq<char>,
    r: Result<String, SandboxError>,
)
    requires
        call_ensures(nearest_existing_directory::<D>, (path, is_dir), r),
        forall|k: nat, s: &str|
            (#[trigger] ancestor(path@, k)) == Some(s@) ==> #[trigger] is_dir.requires((s,)),
        forall|s: &str, there: bool|
            #[trigger] is_dir.ensures((s,), there) ==> there == directories(s@),
    ensures
        r is Ok ==> directories(r->Ok_0@),
        directories(path@) ==> r is Ok && r->Ok_0@ == path@,
        paths::directory_named(d) && d.len() > 1 && paths::file_named(name) && path@ == d + seq!['/']
            + name && !directories(path@) && directories(d) ==> r is Ok && r->Ok_0@ == d,
        r is Err ==> r->Err_0@ == (SandboxErrorView::NoDirectory { path: path@ }),
{
    assert(ancestor(path@, 0) == Some(path@));
    if paths::directory_named(d) && d.len() > 1 && paths::file_named(name) && path@ == d + seq!['/']
        + name {
        paths::lemma_named_below(d, name);
        assert(ancestor(path@, 1) == Some(d)) by {
            reveal_with_fuel(ancestor, 2);
        }
    }
    match r {
        Ok(dir) => {
            let k = choose|k: nat|
                (#[trigger] ancestor(path@, k)) == Some(dir@) && answered(is_dir, dir@, true)
                    && denied(is_dir, path@, k);
            if k > 0 {
                assert(ancestor(path@, 0) is Some);
            }
            if k > 1 {
                assert(ancestor(path@, 1) is Some);
            }
        },
        Err(e) => {
            let k = choose|k: nat|
                k > 0 && (#[trigger] ancestor(path@, k)) is None && denied(is_dir, path@, k);
            assert(ancestor(path@, 0) is Some);
            if k > 1 {
                assert(ancestor(path@, 1) is Some);
            }
        },
    }
}

/// The restrictions are in force on a system that has them only once the kernel
/// has taken all of the restriction of file access to the directory that comes
/// back, and both filters: one that makes the failing calls fail, and one that
/// kills on every call that is not listed.
pub proof fn law_restrictions_are_all_in_force<
    D: Fn(&str) -> bool,
    L: FnOnce(&str) -> LandlockReport,
    F: Fn(&Vec<seccompiler::sock_filter>) -> bool,
>(
    host: SandboxHost,
    file: &str,
    errno: &Vec<i64>,
    allowed: &Vec<i64>,
    arch: seccompiler::TargetArch,
    is_dir: D,
    restrict: L,
    install: F,
    r: Result<Option<String>, SandboxError>,
    nr: u32,
)
    requires
        call_ensures(
            apply_preauth_sandbox::<D, L, F>,
            (host, file, errno, allowed, arch, is_dir, restrict, install),
            r,
        ),
    ensures
        host is Other ==> r is Ok && r->Ok_0 is None,
        host is Linux && r is Ok ==> r->Ok_0 is Some,
        host is Linux && r is Ok ==> exists|s: &str, report: LandlockReport|
            s@ == r->Ok_0->0@ && #[trigger] restrict.ensures((s,), report) && report is Restricted
                && report->fully_enforced && report->no_new_privs,
        host is Linux && r is Ok && errno@.contains(nr as i64) ==> exists|
            p: &Vec<seccompiler::sock_filter>,
        |
            #[trigger] install.ensures((p,), true) && answer(p@, audit_value(arch), nr) == Some(
                0x0005_0001u32,
            ),
        host is Linux && r is Ok && !errno@.contains(nr as i64) && !allowed@.contains(nr as i64)
            ==> exists|p: &Vec<seccompiler::sock_filter>|
            #[trigger] install.ensures((p,), true) && answer(p@, audit_value(arch), nr) == Some(
                0x8000_0000u32,
            ),
{
    if host is Linux && r is Ok {
        let n = nr as i64;
        let listed = allowed@ + errno@;
        if !errno@.contains(n) && !allowed@.contains(n) {
            assert(!listed.contains(n)) by {
                if listed.contains(n) {
                    let j = choose|j: int| 0 <= j < listed.len() && listed[j] == n;
                    if j < allowed@.len() {
                        assert(allowed@[j] == n);
                    } else {
                        assert(errno@[j - allowed@.len()] == n);
                    }
                }
            }
        }
        let p = choose|p: &Vec<seccompiler::sock_filter>|
            is_errno_filter(p@, errno@, arch) && #[trigger] install.ensures((p,), true);
        let q = choose|q: &Vec<seccompiler::sock_filter>|
            is_allowlist(q@, errno@, allowed@, arch) && #[trigger] install.ensures((q,), true);
        assert(answer(p@, audit_value(arch), nr) is Some);
        assert(answer(q@, audit_value(arch), nr) is Some);
    }
}

/// A probe reports each of its findings under its own name: a key file has been
/// read if it was not empty or is there, and what was denied is marked.
pub proof fn law_probe_reports_what_it_found(f: ProbeFindings, report: String)
    requires
        call_ensures(probe_report, (f,), report),
    ensures
        ({
            let mark = |b: bool|
                if b {
                    "1"@
                } else {
                    "0"@
                };
            report@ == "read_ok="@ + mark(!f.read_empty || f.file_exists) + "\nwrite_denied="@ + mark(
                f.write_denied,
            ) + "\nexec_denied="@ + mark(f.exec_denied) + "\nsocket_eperm="@ + mark(f.socket_eperm)
                + "\nseccomp_mode="@ + (match f.mode {
                SeccompMode::Disabled => "0"@,
                SeccompMode::Strict => "1"@,
                SeccompMode::Filter => "2"@,
            }) + "\n"@
        }),
{
}

/// A probe hands out what it found where there are restrictions, and elsewhere
/// says that nothing is denied.
pub proof fn law_probe_tells_of_a_system_without_restrictions<
    F: FnOnce() -> Result<ProbeFindings, SandboxError>,
    G: FnOnce() -> Result<(), SandboxError>,
>(
    host: SandboxHost,
    probe: F,
    r: Result<String, SandboxError>,
    none: String,
    deny: G,
    denied: Result<(), SandboxError>,
)
    requires
        host is Linux ==> probe.requires(()) && deny.requires(()),
        call_ensures(internal_preauth_probe::<F>, (host, probe), r),
        call_ensures(internal_preauth_default_deny_probe::<G>, (host, deny), denied),
        call_ensures(
            probe_report,
            (
                ProbeFindings {
                    read_empty: false,
                    file_exists: true,
                    write_denied: false,
                    exec_denied: false,
                    socket_eperm: false,
                    mode: SeccompMode::Disabled,
                },
            ),
            none,
        ),
    ensures
        host is Other ==> r is Ok && r->Ok_0@ == none@,
        host is Other ==> denied is Ok,
        host is Linux ==> deny.ensures((), denied),
        host is Linux && r is Err ==> probe.ensures((), Err(r->Err_0)),
{
}

/// Why a restriction is not in force is told in words that name the step, and the
/// directory or the file.
pub proof fn law_sandbox_errors_are_told_in_words(e: SandboxError, words: String)
    requires
        call_ensures(SandboxError::message, (&e,), words),
    ensures
        e is NoNewPrivs <==> e@ is NoNewPrivs,
        e is NoDirectory <==> e@ is NoDirectory,
        e is Landlock <==> e@ is Landlock,
        e is NotEnforced <==> e@ is NotEnforced,
        e is ErrnoFilterNotBuilt <==> e@ is ErrnoFilterNotBuilt,
        e is AllowlistNotBuilt <==> e@ is AllowlistNotBuilt,
        e is ErrnoFilterNotInstalled <==> e@ is ErrnoFilterNotInstalled,
        e is AllowlistNotInstalled <==> e@ is AllowlistNotInstalled,
        e is NotReadBack <==> e@ is NotReadBack,
        e is ModeUnknown <==> e@ is ModeUnknown,
        words@ == (match e@ {
            SandboxErrorView::NoNewPrivs => "failed to set no_new_privs"@,
            SandboxErrorView::NoDirectory { path } =>
                "failed to find an existing directory for "@ + native_paths::shown(path),
            SandboxErrorView::Landlock { step, root } => match step {
                LandlockStep::Configure =>
                    "failed to configure the Landlock ABI v1 access rights"@,
                LandlockStep::Create => "failed to create the Landlock ruleset"@,
                LandlockStep::OpenRoot => "failed to open sandbox root "@ + native_paths::shown(
                    root,
                )
                    + " for Landlock"@,
                LandlockStep::AddRule =>
                    "failed to add a Landlock read-only rule for "@ + native_paths::shown(root),
                LandlockStep::Restrict => "failed to apply the Landlock pre-auth sandbox"@,
            },
            SandboxErrorView::NotEnforced { status } =>
                "Landlock sandbox was not fully enforced: "@ + status,
            SandboxErrorView::ErrnoFilterNotBuilt =>
                "failed to compile the pre-auth seccomp errno filter"@,
            SandboxErrorView::AllowlistNotBuilt =>
                "failed to compile the pre-auth seccomp allowlist"@,
            SandboxErrorView::ErrnoFilterNotInstalled =>
                "failed to install the pre-auth seccomp errno filter"@,
            SandboxErrorView::AllowlistNotInstalled =>
                "failed to install the pre-auth seccomp allowlist"@,
            SandboxErrorView::NotReadBack { path } => "failed to read "@ + native_paths::shown(path),
            SandboxErrorView::ModeUnknown => "failed to query the seccomp mode"@,
        }),
{
}

} // verus!
