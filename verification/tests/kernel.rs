use microbox::landlock::{
    landlock_access_mask, landlock_readonly_access, landlock_rules, landlock_target_path,
    landlock_version, VersionReply,
};
use microbox::network::{
    answer_call, call_kind, decide_call, network_addr_allowed, resolve_network_allowlist,
    sockaddr_from_bytes, sockaddr_length, socket_params_allowed, start_supervisor,
    supervise_network_allowlist, CallKind, LinuxNetworkPolicy, MessageTarget, NetworkCall,
    Resolution, SendTarget, SocketAddress, SupervisorAction, SupervisorEvent,
};
use microbox::seccomp::{
    audit_arch, denied_syscalls, seccomp_filter_allowlist, seccomp_filter_hermetic,
    seccomp_ioctl_notif_recv, seccomp_ioctl_notif_send, user_notif_syscalls, MachineArch,
    SockFilter, SyscallNumbers,
};

fn v4(a: u8, b: u8, c: u8, d: u8, port: u16) -> SocketAddress {
    SocketAddress::V4 { address: u32::from_be_bytes([a, b, c, d]), port }
}

fn v6(address: u128, port: u16) -> SocketAddress {
    SocketAddress::V6 { address, port, flowinfo: 0, scope_id: 0 }
}

fn numbers() -> SyscallNumbers {
    SyscallNumbers {
        socket: libc::SYS_socket as u32,
        bind: libc::SYS_bind as u32,
        connect: libc::SYS_connect as u32,
        sendto: libc::SYS_sendto as u32,
        sendmsg: libc::SYS_sendmsg as u32,
        listen: libc::SYS_listen as u32,
        accept: libc::SYS_accept as u32,
        accept4: libc::SYS_accept4 as u32,
        recvfrom: libc::SYS_recvfrom as u32,
        recvmsg: libc::SYS_recvmsg as u32,
        setsockopt: libc::SYS_setsockopt as u32,
        getsockopt: libc::SYS_getsockopt as u32,
        shutdown: libc::SYS_shutdown as u32,
        unshare: libc::SYS_unshare as u32,
        mount: libc::SYS_mount as u32,
        umount2: libc::SYS_umount2 as u32,
        pivot_root: libc::SYS_pivot_root as u32,
        chroot: libc::SYS_chroot as u32,
        ptrace: libc::SYS_ptrace as u32,
        bpf: libc::SYS_bpf as u32,
        perf_event_open: libc::SYS_perf_event_open as u32,
        keyctl: libc::SYS_keyctl as u32,
        add_key: libc::SYS_add_key as u32,
        request_key: libc::SYS_request_key as u32,
        kexec_load: libc::SYS_kexec_load as u32,
        init_module: libc::SYS_init_module as u32,
        finit_module: libc::SYS_finit_module as u32,
        delete_module: libc::SYS_delete_module as u32,
        reboot: libc::SYS_reboot as u32,
        clone3: libc::SYS_clone3 as u32,
    }
}

/// Runs a filter the way the kernel does.
fn run_filter(program: &[SockFilter], nr: u32, arch: u32) -> u32 {
    let mut pc = 0usize;
    let mut acc = 0u32;
    loop {
        let i = program[pc];
        pc += 1;
        match i.code as u32 {
            c if c == libc::BPF_LD | libc::BPF_W | libc::BPF_ABS => {
                acc = match i.k {
                    0 => nr,
                    4 => arch,
                    other => panic!("offset {other}"),
                };
            }
            c if c == libc::BPF_JMP | libc::BPF_JEQ | libc::BPF_K => {
                pc += if acc == i.k { i.jt as usize } else { i.jf as usize };
            }
            c if c == libc::BPF_RET | libc::BPF_K => return i.k,
            other => panic!("code {other}"),
        }
    }
}

#[test]
fn kernel_numbers_are_those_of_the_system() {
    assert_eq!(microbox::network::AF_UNIX, libc::AF_UNIX);
    assert_eq!(microbox::network::AF_INET, libc::AF_INET);
    assert_eq!(microbox::network::AF_INET6, libc::AF_INET6);
    assert_eq!(microbox::network::SOCK_RAW, libc::SOCK_RAW);
    assert_eq!(microbox::network::SOCK_STREAM, libc::SOCK_STREAM);
    assert_eq!(microbox::network::SOCK_DGRAM, libc::SOCK_DGRAM);
    assert_eq!(microbox::network::EACCES, libc::EACCES);
    assert_eq!(
        microbox::network::NOTIF_FLAG_CONTINUE as libc::c_ulong,
        libc::SECCOMP_USER_NOTIF_FLAG_CONTINUE
    );
    assert_eq!(microbox::network::FAMILY_BYTES, std::mem::size_of::<libc::sa_family_t>());
    assert_eq!(microbox::network::INET_BYTES, std::mem::size_of::<libc::sockaddr_in>());
    assert_eq!(microbox::network::INET6_BYTES, std::mem::size_of::<libc::sockaddr_in6>());
    assert_eq!(microbox::seccomp::BPF_LD as u32, libc::BPF_LD);
    assert_eq!(microbox::seccomp::BPF_W as u32, libc::BPF_W);
    assert_eq!(microbox::seccomp::BPF_ABS as u32, libc::BPF_ABS);
    assert_eq!(microbox::seccomp::BPF_JMP as u32, libc::BPF_JMP);
    assert_eq!(microbox::seccomp::BPF_JEQ as u32, libc::BPF_JEQ);
    assert_eq!(microbox::seccomp::BPF_K as u32, libc::BPF_K);
    assert_eq!(microbox::seccomp::BPF_RET as u32, libc::BPF_RET);
    assert_eq!(microbox::seccomp::SECCOMP_RET_KILL_PROCESS, libc::SECCOMP_RET_KILL_PROCESS);
    assert_eq!(microbox::seccomp::SECCOMP_RET_USER_NOTIF, libc::SECCOMP_RET_USER_NOTIF);
    assert_eq!(microbox::seccomp::SECCOMP_RET_ERRNO, libc::SECCOMP_RET_ERRNO);
    assert_eq!(microbox::seccomp::SECCOMP_RET_ALLOW, libc::SECCOMP_RET_ALLOW);
    assert_eq!(microbox::seccomp::EPERM, libc::EPERM as u32);
}

#[test]
fn the_allowlist_filter_decides_as_intended() {
    let n = numbers();
    let arch = audit_arch(MachineArch::X86_64).unwrap();
    let program = seccomp_filter_allowlist(MachineArch::X86_64, &n).unwrap();
    assert_eq!(program.len(), 5 + 2 * (5 + 25));
    for nr in user_notif_syscalls(&n) {
        assert_eq!(run_filter(&program, nr, arch), libc::SECCOMP_RET_USER_NOTIF);
    }
    for nr in denied_syscalls(&n) {
        assert_eq!(
            run_filter(&program, nr, arch),
            libc::SECCOMP_RET_ERRNO | libc::EPERM as u32
        );
    }
    assert_eq!(run_filter(&program, libc::SYS_read as u32, arch), libc::SECCOMP_RET_ALLOW);
    assert_eq!(
        run_filter(&program, libc::SYS_read as u32, arch + 1),
        libc::SECCOMP_RET_KILL_PROCESS
    );
}

#[test]
fn the_hermetic_filter_supervises_nothing() {
    let n = numbers();
    let arch = audit_arch(MachineArch::Aarch64).unwrap();
    let program = seccomp_filter_hermetic(MachineArch::Aarch64, &n).unwrap();
    assert_eq!(program.len(), 5 + 2 * 25);
    assert_eq!(run_filter(&program, n.connect, arch), libc::SECCOMP_RET_ALLOW);
    assert_eq!(
        run_filter(&program, n.mount, arch),
        libc::SECCOMP_RET_ERRNO | libc::EPERM as u32
    );
    assert_eq!(run_filter(&program, n.mount, 0), libc::SECCOMP_RET_KILL_PROCESS);
}

#[test]
fn other_machines_have_no_filter() {
    assert_eq!(audit_arch(MachineArch::X86_64), Ok(0xC000_003E));
    assert_eq!(audit_arch(MachineArch::Aarch64), Ok(0xC000_00B7));
    let text = "unsupported linux architecture for seccomp filter";
    assert_eq!(audit_arch(MachineArch::Other), Err(text));
    assert_eq!(seccomp_filter_hermetic(MachineArch::Other, &numbers()), Err(text));
    assert_eq!(seccomp_filter_allowlist(MachineArch::Other, &numbers()), Err(text));
}

#[test]
fn filter_requests_have_the_numbers_of_the_kernel() {
    assert_eq!(seccomp_ioctl_notif_recv(80), 0xc050_2100);
    assert_eq!(seccomp_ioctl_notif_send(24), 0xc018_2101);
}

#[test]
fn socket_policy_rejects_raw_sockets() {
    assert!(socket_params_allowed(libc::AF_INET, libc::SOCK_STREAM));
    assert!(!socket_params_allowed(libc::AF_INET, libc::SOCK_RAW));
    assert!(!socket_params_allowed(12345, libc::SOCK_STREAM));
}

#[test]
fn socket_flags_do_not_matter() {
    let flags = libc::SOCK_CLOEXEC | libc::SOCK_NONBLOCK;
    assert!(socket_params_allowed(libc::AF_INET6, libc::SOCK_DGRAM | flags));
    assert!(socket_params_allowed(libc::AF_UNIX, libc::SOCK_STREAM | flags));
    assert!(!socket_params_allowed(libc::AF_INET6, libc::SOCK_RAW | flags));
    assert!(!socket_params_allowed(libc::AF_PACKET, libc::SOCK_STREAM));
    assert!(!socket_params_allowed(libc::AF_INET, 10));
    assert!(!socket_params_allowed(libc::AF_UNIX, 10 | flags));
    assert!(!socket_params_allowed(libc::AF_UNIX, libc::SOCK_SEQPACKET));
    assert!(!socket_params_allowed(libc::AF_INET, libc::SOCK_DCCP | flags));
    assert!(socket_params_allowed(libc::AF_INET, libc::SOCK_RDM));
}

#[test]
fn network_allowlist_resolves_socket_addresses() {
    let policy = resolve_network_allowlist(
        &vec!["127.0.0.1:8080".to_string(), "[::1]:9090".to_string()],
        &vec![
            Resolution::Addresses(vec![v4(127, 0, 0, 1, 8080), v4(127, 0, 0, 1, 8080)]),
            Resolution::Addresses(vec![v6(1, 9090)]),
        ],
    )
    .unwrap();

    assert!(policy.allowed_addrs.contains(&v4(127, 0, 0, 1, 8080)));
    assert!(policy.allowed_addrs.contains(&v6(1, 9090)));
    assert_eq!(policy.allowed_addrs.len(), 2);
}

#[test]
fn network_allowlist_rejects_invalid_entries() {
    let err = resolve_network_allowlist(
        &vec!["127.0.0.1:notaport".to_string()],
        &vec![Resolution::Failed("invalid port value".to_string())],
    )
    .unwrap_err();
    assert!(err.message().contains("invalid allow_net entry"));
    assert_eq!(
        err.message(),
        "launch failed: invalid allow_net entry `127.0.0.1:notaport`: invalid port value"
    );
    let err = resolve_network_allowlist(
        &vec!["a:1".to_string(), "b:2".to_string()],
        &vec![
            Resolution::Addresses(vec![]),
            Resolution::Failed("unknown".to_string()),
        ],
    )
    .unwrap_err();
    assert_eq!(
        err.message(),
        "launch failed: invalid allow_net entry `a:1`: no socket addresses resolved"
    );
}

#[test]
fn address_policy_allows_loopback_and_explicit_entries() {
    let policy = LinuxNetworkPolicy { allowed_addrs: vec![v4(10, 0, 0, 1, 443)] };

    assert!(network_addr_allowed(&policy, v4(10, 0, 0, 1, 443)));
    assert!(network_addr_allowed(&policy, v4(127, 0, 0, 1, 443)));
    assert!(!network_addr_allowed(&policy, v4(10, 0, 0, 2, 443)));
}

#[test]
fn loopback_is_the_machine_itself() {
    let policy = LinuxNetworkPolicy::new();
    assert!(network_addr_allowed(&policy, v4(127, 255, 0, 9, 1)));
    assert!(!network_addr_allowed(&policy, v4(128, 0, 0, 1, 1)));
    assert!(!network_addr_allowed(&policy, v4(1, 0, 0, 127, 1)));
    assert!(network_addr_allowed(&policy, v6(1, 1)));
    assert!(!network_addr_allowed(&policy, v6(2, 1)));
}

#[test]
fn addresses_are_read_as_the_kernel_passes_them() {
    let mut bytes = vec![2, 0, 0x1f, 0x90, 10, 1, 2, 3];
    bytes.extend([0u8; 8]);
    assert_eq!(sockaddr_from_bytes(2, &bytes), Some(v4(10, 1, 2, 3, 8080)));
    assert_eq!(sockaddr_from_bytes(2, &vec![0; 15]), None);
    let mut bytes = vec![10, 0, 0x01, 0xbb, 9, 9, 9, 9];
    bytes.extend([0u8; 15]);
    bytes.push(1);
    bytes.extend([7u8; 4]);
    assert_eq!(sockaddr_from_bytes(10, &bytes), Some(v6(1, 443)));
    assert_eq!(sockaddr_from_bytes(1, &bytes), None);
    assert_eq!(sockaddr_length(2, 16), Some(16));
    assert_eq!(sockaddr_length(2, 15), None);
    assert_eq!(sockaddr_length(10, 28), Some(28));
    assert_eq!(sockaddr_length(10, 16), None);
    assert_eq!(sockaddr_length(1, 100), None);
    assert!(microbox::network::family_is_passed(false, 2));
    assert!(!microbox::network::family_is_passed(false, 1));
    assert!(!microbox::network::family_is_passed(true, 16));
}

#[test]
fn supervised_calls_are_decided() {
    let policy = LinuxNetworkPolicy { allowed_addrs: vec![v4(10, 0, 0, 1, 443)] };
    let listed = Some(v4(10, 0, 0, 1, 443));
    let other = Some(v4(10, 0, 0, 1, 80));
    let local = Some(v4(127, 0, 0, 1, 80));
    let allowed = |call| decide_call(&policy, call);
    assert!(allowed(NetworkCall::Socket { domain: libc::AF_INET, ty: libc::SOCK_STREAM }));
    assert!(!allowed(NetworkCall::Socket { domain: libc::AF_INET, ty: libc::SOCK_RAW }));
    assert!(allowed(NetworkCall::Bind(local)));
    assert!(!allowed(NetworkCall::Bind(listed)));
    assert!(allowed(NetworkCall::Bind(None)));
    assert!(allowed(NetworkCall::Connect(listed)));
    assert!(allowed(NetworkCall::Connect(local)));
    assert!(!allowed(NetworkCall::Connect(other)));
    assert!(allowed(NetworkCall::Connect(None)));
    assert!(allowed(NetworkCall::SendTo(SendTarget::Connected)));
    assert!(allowed(NetworkCall::SendTo(SendTarget::Address(listed))));
    assert!(!allowed(NetworkCall::SendTo(SendTarget::Address(other))));
    assert!(!allowed(NetworkCall::SendTo(SendTarget::Address(None))));
    assert!(allowed(NetworkCall::SendMsg(MessageTarget::NoMessage)));
    assert!(!allowed(NetworkCall::SendMsg(MessageTarget::Unreadable)));
    assert!(allowed(NetworkCall::SendMsg(MessageTarget::Connected)));
    assert!(allowed(NetworkCall::SendMsg(MessageTarget::Address(local))));
    assert!(!allowed(NetworkCall::SendMsg(MessageTarget::Address(other))));
    assert!(!allowed(NetworkCall::SendMsg(MessageTarget::Address(None))));
    assert!(allowed(NetworkCall::Other));
}

#[test]
fn answers_let_permitted_calls_go_on() {
    let policy = LinuxNetworkPolicy::new();
    let yes = answer_call(&policy, 7, NetworkCall::Other);
    assert_eq!((yes.id, yes.val, yes.error, yes.flags), (7, 0, 0, 1));
    let no = answer_call(&policy, 8, NetworkCall::Connect(Some(v4(1, 1, 1, 1, 1))));
    assert_eq!((no.id, no.val, no.error, no.flags), (8, 0, libc::EACCES, 0));
    let n = numbers();
    assert_eq!(call_kind(&n, n.socket), CallKind::Socket);
    assert_eq!(call_kind(&n, n.bind), CallKind::Bind);
    assert_eq!(call_kind(&n, n.connect), CallKind::Connect);
    assert_eq!(call_kind(&n, n.sendto), CallKind::SendTo);
    assert_eq!(call_kind(&n, n.sendmsg), CallKind::SendMsg);
    assert_eq!(call_kind(&n, n.mount), CallKind::Other);
}

#[test]
fn the_supervisor_answers_and_goes_on() {
    let policy = LinuxNetworkPolicy::new();
    let next = |event, stop| supervise_network_allowlist(&policy, event, stop);
    assert_eq!(start_supervisor(false), SupervisorAction::Poll);
    assert_eq!(start_supervisor(true), SupervisorAction::Close);
    assert_eq!(next(SupervisorEvent::PollQuiet, false), SupervisorAction::Poll);
    assert_eq!(next(SupervisorEvent::PollQuiet, true), SupervisorAction::Close);
    assert_eq!(next(SupervisorEvent::PollOther, false), SupervisorAction::Poll);
    assert_eq!(next(SupervisorEvent::PollReady, true), SupervisorAction::Receive);
    let interrupted = SupervisorEvent::PollFailed { interrupted: true };
    assert_eq!(next(interrupted, false), SupervisorAction::Poll);
    let failed = SupervisorEvent::PollFailed { interrupted: false };
    assert_eq!(next(failed, false), SupervisorAction::Close);
    let lost = SupervisorEvent::ReceiveFailed { interrupted: false };
    assert_eq!(next(lost, false), SupervisorAction::Close);
    let again = SupervisorEvent::ReceiveFailed { interrupted: true };
    assert_eq!(next(again, false), SupervisorAction::Poll);
    match next(SupervisorEvent::Received { id: 3, call: NetworkCall::Other }, true) {
        SupervisorAction::Respond(answer) => assert_eq!((answer.id, answer.flags), (3, 1)),
        other => panic!("unexpected {other:?}"),
    }
    assert_eq!(next(SupervisorEvent::Sent, false), SupervisorAction::Poll);
    assert_eq!(
        next(SupervisorEvent::SendFailed { interrupted: false }, false),
        SupervisorAction::Close
    );
    assert_eq!(
        next(SupervisorEvent::SendFailed { interrupted: true }, true),
        SupervisorAction::Close
    );
}

#[test]
fn rights_grow_with_the_version() {
    assert_eq!(landlock_access_mask(1), 0x1fff);
    assert_eq!(landlock_access_mask(2), 0x3fff);
    assert_eq!(landlock_access_mask(3), 0x7fff);
    assert_eq!(landlock_access_mask(4), 0xffff);
    assert_eq!(landlock_access_mask(9), 0xffff);
    assert_eq!(landlock_readonly_access(1), 0xd);
    assert_eq!(landlock_readonly_access(2), 0x200d);
    for version in 1..6 {
        let reading = landlock_readonly_access(version);
        assert_eq!(reading & landlock_access_mask(version), reading);
        assert_eq!(reading & microbox::landlock::LANDLOCK_ACCESS_FS_WRITE_FILE, 0);
    }
}

#[test]
fn rules_are_attached_to_what_exists() {
    let strings = |list: &[&str]| list.iter().map(|s| s.to_string()).collect::<Vec<_>>();
    let rules = landlock_rules(
        2,
        &strings(&["/bin", "/gone/x", "/"]),
        &vec![true, false, false],
        &strings(&["/w"]),
        &vec![true],
        &Some("/bin/sh".to_string()),
        true,
        &vec![],
    )
    .unwrap();
    let told: Vec<(&str, u64)> = rules.iter().map(|r| (r.path.as_str(), r.access)).collect();
    assert_eq!(
        told,
        vec![("/bin", 0x200d), ("/gone", 0x200d), ("/w", 0x3fff), ("/bin/sh", 0x200d)]
    );
    let refused = landlock_rules(0, &vec![], &vec![], &vec![], &vec![], &None, false, &vec![]);
    assert_eq!(refused.unwrap_err(), "Landlock is not available on this kernel");
    assert_eq!(landlock_target_path("/a/b", true).as_deref(), Some("/a/b"));
    assert_eq!(landlock_target_path("/a/b", false).as_deref(), Some("/a"));
    assert_eq!(landlock_target_path("/", false), None);
}

#[test]
fn the_version_of_a_kernel_without_the_call_is_zero() {
    assert_eq!(landlock_version(VersionReply::Version(3)), Ok(3));
    assert_eq!(landlock_version(VersionReply::NoSuchCall), Ok(0));
    assert_eq!(landlock_version(VersionReply::Failed(1)), Err(1));
}

#[test]
fn no_rule_reaches_a_hidden_path() {
    let strings = |list: &[&str]| list.iter().map(|s| s.to_string()).collect::<Vec<_>>();
    let rules = landlock_rules(
        3,
        &strings(&["/etc/hosts", "/home/u/gone", "/usr"]),
        &vec![true, false, true],
        &strings(&["/home", "/w"]),
        &vec![true, true],
        &Some("/etc/tool".to_string()),
        true,
        &strings(&["/etc", "/home/u/secret"]),
    )
    .unwrap();
    let told: Vec<&str> = rules.iter().map(|r| r.path.as_str()).collect();
    assert_eq!(told, vec!["/usr", "/w"]);
}
