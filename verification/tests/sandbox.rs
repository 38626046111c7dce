use narrowd::sandbox::{
    allowed_syscalls, apply_preauth_sandbox, build_preauth_seccomp_filters, check_landlock,
    enable_no_new_privs, errno_syscalls, internal_preauth_default_deny_probe,
    internal_preauth_probe, nearest_existing_directory, probe_report, LandlockReport,
    LandlockStep, ProbeFindings, SandboxError, SandboxHost, SeccompMode, Syscall,
};
use seccompiler::{sock_filter, SeccompAction, TargetArch};

const THIS_MACHINE: u32 = 0xc000_003e;

fn number(call: Syscall) -> i64 {
    match call {
        Syscall::Execve => nix::libc::SYS_execve,
        Syscall::Execveat => nix::libc::SYS_execveat,
        Syscall::Fork => nix::libc::SYS_fork,
        Syscall::Vfork => nix::libc::SYS_vfork,
        Syscall::Clone => nix::libc::SYS_clone,
        Syscall::Clone3 => nix::libc::SYS_clone3,
        Syscall::Socket => nix::libc::SYS_socket,
        Syscall::Connect => nix::libc::SYS_connect,
        Syscall::Bind => nix::libc::SYS_bind,
        Syscall::Listen => nix::libc::SYS_listen,
        Syscall::Kill => nix::libc::SYS_kill,
        Syscall::Tkill => nix::libc::SYS_tkill,
        Syscall::Tgkill => nix::libc::SYS_tgkill,
        Syscall::Ptrace => nix::libc::SYS_ptrace,
        Syscall::ProcessVmWritev => nix::libc::SYS_process_vm_writev,
        Syscall::Bpf => nix::libc::SYS_bpf,
        Syscall::PerfEventOpen => nix::libc::SYS_perf_event_open,
        Syscall::Userfaultfd => nix::libc::SYS_userfaultfd,
        Syscall::Mount => nix::libc::SYS_mount,
        Syscall::Umount2 => nix::libc::SYS_umount2,
        Syscall::PivotRoot => nix::libc::SYS_pivot_root,
        Syscall::Swapon => nix::libc::SYS_swapon,
        Syscall::Swapoff => nix::libc::SYS_swapoff,
        Syscall::InitModule => nix::libc::SYS_init_module,
        Syscall::FinitModule => nix::libc::SYS_finit_module,
        Syscall::DeleteModule => nix::libc::SYS_delete_module,
        Syscall::KexecLoad => nix::libc::SYS_kexec_load,
        Syscall::OpenByHandleAt => nix::libc::SYS_open_by_handle_at,
        Syscall::Setns => nix::libc::SYS_setns,
        Syscall::Unshare => nix::libc::SYS_unshare,
        Syscall::Accept => nix::libc::SYS_accept,
        Syscall::Accept4 => nix::libc::SYS_accept4,
        Syscall::Brk => nix::libc::SYS_brk,
        Syscall::ClockGettime => nix::libc::SYS_clock_gettime,
        Syscall::Close => nix::libc::SYS_close,
        Syscall::EpollCtl => nix::libc::SYS_epoll_ctl,
        Syscall::EpollPwait => nix::libc::SYS_epoll_pwait,
        Syscall::EpollPwait2 => nix::libc::SYS_epoll_pwait2,
        Syscall::EpollWait => nix::libc::SYS_epoll_wait,
        Syscall::Exit => nix::libc::SYS_exit,
        Syscall::ExitGroup => nix::libc::SYS_exit_group,
        Syscall::Fcntl => nix::libc::SYS_fcntl,
        Syscall::Futex => nix::libc::SYS_futex,
        Syscall::Getrandom => nix::libc::SYS_getrandom,
        Syscall::Getsockopt => nix::libc::SYS_getsockopt,
        Syscall::Ioctl => nix::libc::SYS_ioctl,
        Syscall::Lseek => nix::libc::SYS_lseek,
        Syscall::Madvise => nix::libc::SYS_madvise,
        Syscall::Mlock => nix::libc::SYS_mlock,
        Syscall::Mmap => nix::libc::SYS_mmap,
        Syscall::Mprotect => nix::libc::SYS_mprotect,
        Syscall::Mremap => nix::libc::SYS_mremap,
        Syscall::Munlock => nix::libc::SYS_munlock,
        Syscall::Munmap => nix::libc::SYS_munmap,
        Syscall::Newfstatat => nix::libc::SYS_newfstatat,
        Syscall::Openat => nix::libc::SYS_openat,
        Syscall::Prctl => nix::libc::SYS_prctl,
        Syscall::Read => nix::libc::SYS_read,
        Syscall::Readv => nix::libc::SYS_readv,
        Syscall::Recvfrom => nix::libc::SYS_recvfrom,
        Syscall::Recvmsg => nix::libc::SYS_recvmsg,
        Syscall::Rseq => nix::libc::SYS_rseq,
        Syscall::RtSigaction => nix::libc::SYS_rt_sigaction,
        Syscall::RtSigprocmask => nix::libc::SYS_rt_sigprocmask,
        Syscall::RtSigreturn => nix::libc::SYS_rt_sigreturn,
        Syscall::Sendmsg => nix::libc::SYS_sendmsg,
        Syscall::Sendto => nix::libc::SYS_sendto,
        Syscall::SetRobustList => nix::libc::SYS_set_robust_list,
        Syscall::Setsockopt => nix::libc::SYS_setsockopt,
        Syscall::Shutdown => nix::libc::SYS_shutdown,
        Syscall::Sigaltstack => nix::libc::SYS_sigaltstack,
        Syscall::Socketpair => nix::libc::SYS_socketpair,
        Syscall::Statx => nix::libc::SYS_statx,
        Syscall::Write => nix::libc::SYS_write,
        Syscall::Writev => nix::libc::SYS_writev,
    }
}

fn numbers(calls: Vec<Syscall>) -> Vec<i64> {
    calls.into_iter().map(number).collect()
}

fn filters() -> (Vec<sock_filter>, Vec<sock_filter>) {
    build_preauth_seccomp_filters(
        &numbers(errno_syscalls()),
        &numbers(allowed_syscalls()),
        TargetArch::x86_64,
    )
    .unwrap()
}

fn run(filter: &[sock_filter], call: u32, machine: u32) -> u32 {
    let mut pc = 0;
    let mut a = 0;
    loop {
        let i = &filter[pc];
        pc += 1;
        match i.code {
            0x20 => {
                a = match i.k {
                    0 => call,
                    4 => machine,
                    _ => panic!("unexpected load"),
                }
            }
            0x15 => pc += if a == i.k { i.jt } else { i.jf } as usize,
            0x05 => pc += i.k as usize,
            0x06 => return i.k,
            _ => panic!("unexpected instruction"),
        }
    }
}

#[test]
fn preauth_seccomp_filter_is_default_deny() {
    let (_, allowlist_filter) = filters();
    assert_eq!(
        allowlist_filter.last().map(|instruction| instruction.k),
        Some(u32::from(SeccompAction::KillProcess))
    );
}

#[test]
fn preauth_seccomp_filter_keeps_dangerous_syscalls_out_of_allowlist() {
    assert!(!allowed_syscalls().contains(&Syscall::Socket));
    assert!(!allowed_syscalls().contains(&Syscall::Connect));
    assert!(!allowed_syscalls().contains(&Syscall::Clone3));
    assert!(!allowed_syscalls().contains(&Syscall::Execve));
    assert!(errno_syscalls().contains(&Syscall::Socket));
    assert!(errno_syscalls().contains(&Syscall::Connect));
    assert!(errno_syscalls().contains(&Syscall::Clone3));
    assert!(errno_syscalls().contains(&Syscall::Execve));
}

#[test]
fn preauth_seccomp_filter_allows_linux_thread_registration_syscalls() {
    assert!(allowed_syscalls().contains(&Syscall::SetRobustList));
    assert!(allowed_syscalls().contains(&Syscall::Rseq));
}

#[test]
fn the_filters_answer_by_the_lists() {
    let (errno_filter, allowlist_filter) = filters();
    let allow = u32::from(SeccompAction::Allow);
    let eperm = u32::from(SeccompAction::Errno(1));
    let kill = u32::from(SeccompAction::KillProcess);
    for call in numbers(errno_syscalls()) {
        assert_eq!(run(&errno_filter, call as u32, THIS_MACHINE), eperm);
        assert_eq!(run(&allowlist_filter, call as u32, THIS_MACHINE), allow);
    }
    for call in numbers(allowed_syscalls()) {
        assert_eq!(run(&errno_filter, call as u32, THIS_MACHINE), allow);
        assert_eq!(run(&allowlist_filter, call as u32, THIS_MACHINE), allow);
    }
    let reboot = nix::libc::SYS_reboot as u32;
    assert_eq!(run(&errno_filter, reboot, THIS_MACHINE), allow);
    assert_eq!(run(&allowlist_filter, reboot, THIS_MACHINE), kill);
    assert_eq!(run(&allowlist_filter, 0, 0x4000_0003), kill);
    assert_eq!(run(&errno_filter, 0, 0x4000_0003), kill);
}

#[test]
fn lists_that_are_too_long_are_refused() {
    let many: Vec<i64> = (0..2000).collect();
    let few: Vec<i64> = vec![1];
    assert!(matches!(
        build_preauth_seccomp_filters(&many, &few, TargetArch::x86_64).unwrap_err(),
        SandboxError::ErrnoFilterNotBuilt
    ));
    let err = build_preauth_seccomp_filters(&few, &many, TargetArch::x86_64).unwrap_err();
    assert!(matches!(err, SandboxError::AllowlistNotBuilt));
    assert_eq!(
        err.message(),
        "failed to compile the pre-auth seccomp allowlist"
    );
}

#[test]
fn the_nearest_directory_is_found() {
    let dirs = |p: &str| p == "/" || p == "/home" || p == "/home/u/.ssh";
    assert_eq!(
        nearest_existing_directory("/home/u/.ssh/authorized_keys", dirs).unwrap(),
        "/home/u/.ssh"
    );
    assert_eq!(
        nearest_existing_directory("/home/v/.ssh/authorized_keys", dirs).unwrap(),
        "/home"
    );
    assert_eq!(
        nearest_existing_directory("/home/u/.ssh", dirs).unwrap(),
        "/home/u/.ssh"
    );
    let err = nearest_existing_directory("a/b", |_: &str| false).unwrap_err();
    assert!(matches!(err, SandboxError::NoDirectory { .. }));
}

#[test]
fn file_access_has_to_be_fully_restricted() {
    let report = |fully_enforced, no_new_privs| LandlockReport::Restricted {
        fully_enforced,
        no_new_privs,
        status: "status".to_string(),
    };
    assert!(check_landlock(report(true, true), "/r").is_ok());
    assert_eq!(
        check_landlock(report(false, true), "/r").unwrap_err().message(),
        "Landlock sandbox was not fully enforced: status"
    );
    assert!(check_landlock(report(true, false), "/r").is_err());
    assert_eq!(
        check_landlock(LandlockReport::Failed(LandlockStep::OpenRoot), "/r")
            .unwrap_err()
            .message(),
        "failed to open sandbox root /r for Landlock"
    );
}

#[test]
fn the_sandbox_is_for_linux_only() {
    assert!(enable_no_new_privs(SandboxHost::Other, || panic!("not here")).is_ok());
    assert!(enable_no_new_privs(SandboxHost::Linux, || true).is_ok());
    assert_eq!(
        enable_no_new_privs(SandboxHost::Linux, || false)
            .unwrap_err()
            .message(),
        "failed to set no_new_privs"
    );
    assert_eq!(
        internal_preauth_probe(SandboxHost::Other, || panic!("not here")).unwrap(),
        "read_ok=1\nwrite_denied=0\nexec_denied=0\nsocket_eperm=0\nseccomp_mode=0\n"
    );
    assert!(internal_preauth_default_deny_probe(SandboxHost::Other, || panic!("not here")).is_ok());
    assert!(internal_preauth_default_deny_probe(SandboxHost::Linux, || Err(
        SandboxError::ModeUnknown
    ))
    .is_err());
}

#[test]
fn the_sandbox_is_put_in_force_step_by_step() {
    let apply = |restricted: bool, installed: bool| {
        apply_preauth_sandbox(
            SandboxHost::Linux,
            "/home/u/.ssh/authorized_keys",
            &numbers(errno_syscalls()),
            &numbers(allowed_syscalls()),
            TargetArch::x86_64,
            |p: &str| p == "/home/u",
            |root: &str| {
                assert_eq!(root, "/home/u");
                LandlockReport::Restricted {
                    fully_enforced: restricted,
                    no_new_privs: true,
                    status: "status".to_string(),
                }
            },
            |_: &Vec<sock_filter>| installed,
        )
    };
    assert!(apply(true, true).is_ok());
    assert!(matches!(
        apply(false, true).unwrap_err(),
        SandboxError::NotEnforced { .. }
    ));
    assert!(matches!(
        apply(true, false).unwrap_err(),
        SandboxError::ErrnoFilterNotInstalled
    ));
}

#[test]
fn a_probe_reports_what_it_found() {
    let findings = ProbeFindings {
        read_empty: true,
        file_exists: false,
        write_denied: true,
        exec_denied: true,
        socket_eperm: true,
        mode: SeccompMode::Filter,
    };
    let report =
        "read_ok=0\nwrite_denied=1\nexec_denied=1\nsocket_eperm=1\nseccomp_mode=2\n";
    assert_eq!(probe_report(findings), report);
    assert_eq!(
        internal_preauth_probe(SandboxHost::Linux, || Ok(findings)).unwrap(),
        report
    );
}
