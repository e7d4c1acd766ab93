//! System call filters: the programs that the kernel runs on every system call of the
//! sandboxed process, and what they decide.
use vstd::prelude::*;

verus! {

broadcast use vstd::seq::group_seq_axioms;

// ---------------------------------------------------------------------------
// The filter machine

/// One instruction of a filter program.
#[derive(Debug, Clone, Copy, PartialEq, Eq, Structural)]
pub struct SockFilter {
    pub code: u16,
    /// Instructions to skip where the comparison holds.
    pub jt: u8,
    /// Instructions to skip where it does not.
    pub jf: u8,
    pub k: u32,
}

/// Loads.
pub const BPF_LD: u16 = 0x00;

/// Of 32-bit words.
pub const BPF_W: u16 = 0x00;

/// From a fixed offset.
pub const BPF_ABS: u16 = 0x20;

/// Jumps.
pub const BPF_JMP: u16 = 0x05;

/// Where the accumulator equals the operand.
pub const BPF_JEQ: u16 = 0x10;

/// The operand is a constant.
pub const BPF_K: u16 = 0x00;

/// Returns.
pub const BPF_RET: u16 = 0x06;

/// The verdict that ends the process.
pub const SECCOMP_RET_KILL_PROCESS: u32 = 0x8000_0000;

/// The verdict that asks the supervisor.
pub const SECCOMP_RET_USER_NOTIF: u32 = 0x7fc0_0000;

/// The verdict that makes the call fail; the low bits are the error.
pub const SECCOMP_RET_ERRNO: u32 = 0x0005_0000;

/// The verdict that lets the call through.
pub const SECCOMP_RET_ALLOW: u32 = 0x7fff_0000;

/// The error of an operation that is not permitted.
pub const EPERM: u32 = 1;

/// The verdict on a denied call: it fails as not permitted.
pub const DENIED: u32 = 0x0005_0001;

/// Where the number of the system call stands in the data of a filter.
pub const NR_OFFSET: u32 = 0;

/// Where the architecture stands in the data of a filter.
pub const ARCH_OFFSET: u32 = 4;

/// What a filter sees of a system call.
pub struct CallData {
    pub nr: u32,
    pub arch: u32,
}

/// The verdict of a program on a call, from instruction `pc` on with the accumulator at
/// `acc`. There is none where the program runs off its end or meets an instruction or an
/// offset that these programs do not use.
pub open spec fn verdict_from(program: Seq<SockFilter>, pc: int, acc: u32, call: CallData) -> Option<
    u32,
>
    decreases
            if pc < program.len() {
                program.len() - pc
            } else {
                0
            },
{
    if pc < 0 || pc >= program.len() {
        None
    } else {
        let i = program[pc];
        if i.code == 0x20 {
            if i.k == NR_OFFSET {
                verdict_from(program, pc + 1, call.nr, call)
            } else if i.k == ARCH_OFFSET {
                verdict_from(program, pc + 1, call.arch, call)
            } else {
                None
            }
        } else if i.code == 0x15 {
            if acc == i.k {
                verdict_from(program, pc + 1 + i.jt, acc, call)
            } else {
                verdict_from(program, pc + 1 + i.jf, acc, call)
            }
        } else if i.code == 0x06 {
            Some(i.k)
        } else {
            None
        }
    }
}

/// The verdict of a program on a call.
pub open spec fn verdict(program: Seq<SockFilter>, call: CallData) -> Option<u32> {
    verdict_from(program, 0, 0, call)
}

// ---------------------------------------------------------------------------
// The programs

/// Load a word of the call's data.
pub open spec fn load(offset: u32) -> SockFilter {
    SockFilter { code: 0x20, jt: 0, jf: 0, k: offset }
}

/// Skip `jt` instructions where the accumulator is `value`, else `jf`.
pub open spec fn if_equal(value: u32, jt: u8, jf: u8) -> SockFilter {
    SockFilter { code: 0x15, jt, jf, k: value }
}

/// End with a verdict.
pub open spec fn give(value: u32) -> SockFilter {
    SockFilter { code: 0x06, jt: 0, jf: 0, k: value }
}

/// The instructions that give `value` on the calls `numbers`.
pub open spec fn checks(numbers: Seq<u32>, value: u32) -> Seq<SockFilter>
    decreases numbers.len(),
{
    if numbers.len() == 0 {
        Seq::<SockFilter>::empty()
    } else {
        checks(numbers.drop_last(), value).push(if_equal(numbers.last(), 0, 1)).push(give(value))
    }
}

/// The program for an architecture: calls of another architecture end the process, the
/// calls `notified` go to the supervisor, the calls `denied` fail, all others are let
/// through.
pub open spec fn filter_program(arch: u32, notified: Seq<u32>, denied: Seq<u32>) -> Seq<
    SockFilter,
> {
    seq![
        load(ARCH_OFFSET),
        if_equal(arch, 1, 0),
        give(SECCOMP_RET_KILL_PROCESS),
        load(NR_OFFSET),
    ] + checks(notified, SECCOMP_RET_USER_NOTIF) + checks(denied, DENIED) + seq![
        give(SECCOMP_RET_ALLOW),
    ]
}

/// What the filter is to decide on a call.
pub open spec fn intended_verdict(
    arch: u32,
    notified: Seq<u32>,
    denied: Seq<u32>,
    call: CallData,
) -> u32 {
    if call.arch != arch {
        SECCOMP_RET_KILL_PROCESS
    } else if notified.contains(call.nr) {
        SECCOMP_RET_USER_NOTIF
    } else if denied.contains(call.nr) {
        DENIED
    } else {
        SECCOMP_RET_ALLOW
    }
}

proof fn lemma_checks(numbers: Seq<u32>, value: u32)
    ensures
        checks(numbers, value).len() == 2 * numbers.len(),
        forall|i: int|
            0 <= i < numbers.len() ==> checks(numbers, value)[2 * i] == if_equal(
                #[trigger] numbers[i],
                0,
                1,
            ) && checks(numbers, value)[2 * i + 1] == give(value),
    decreases numbers.len(),
{
    if numbers.len() > 0 {
        lemma_checks(numbers.drop_last(), value);
        assert forall|i: int| 0 <= i < numbers.len() implies checks(numbers, value)[2 * i]
            == if_equal(#[trigger] numbers[i], 0, 1) && checks(numbers, value)[2 * i + 1] == give(
            value,
        ) by {
            if i < numbers.len() - 1 {
                assert(numbers.drop_last()[i] == numbers[i]);
            }
        }
    }
}

/// Running the checks of a list, which stand at `start`, from the `i`th one on.
proof fn lemma_run_checks(
    program: Seq<SockFilter>,
    start: int,
    numbers: Seq<u32>,
    value: u32,
    i: int,
    call: CallData,
)
    requires
        0 <= start,
        start + 2 * numbers.len() <= program.len(),
        forall|j: int|
            0 <= j < numbers.len() ==> program[start + 2 * j] == if_equal(
                #[trigger] numbers[j],
                0,
                1,
            ) && program[start + 2 * j + 1] == give(value),
        0 <= i <= numbers.len(),
    ensures
        verdict_from(program, start + 2 * i, call.nr, call) == if exists|j: int|
            i <= j < numbers.len() && #[trigger] numbers[j] == call.nr {
            Some(value)
        } else {
            verdict_from(program, start + 2 * numbers.len(), call.nr, call)
        },
    decreases numbers.len() - i,
{
    if i < numbers.len() {
        let pc = start + 2 * i;
        assert(program[pc] == if_equal(numbers[i], 0, 1));
        assert(program[pc + 1] == give(value));
        lemma_run_checks(program, start, numbers, value, i + 1, call);
        if numbers[i] == call.nr {
            assert(verdict_from(program, pc + 1, call.nr, call) == Some(value));
        } else {
            assert(pc + 2 == start + 2 * (i + 1));
            if exists|j: int| i <= j < numbers.len() && #[trigger] numbers[j] == call.nr {
                let j = choose|j: int| i <= j < numbers.len() && #[trigger] numbers[j] == call.nr;
                assert(i + 1 <= j);
            }
        }
    }
}

/// The program decides every call as intended: nothing runs off its end, no denied call
/// gets through, and every call that is neither supervised nor denied does.
pub proof fn lemma_filter_verdict(
    arch: u32,
    notified: Seq<u32>,
    denied: Seq<u32>,
    call: CallData,
)
    ensures
        verdict(filter_program(arch, notified, denied), call) == Some(
            intended_verdict(arch, notified, denied, call),
        ),
{
    let program = filter_program(arch, notified, denied);
    let n = notified.len() as int;
    let d = denied.len() as int;
    lemma_checks(notified, SECCOMP_RET_USER_NOTIF);
    lemma_checks(denied, DENIED);
    assert(program[0] == load(ARCH_OFFSET));
    assert(program[1] == if_equal(arch, 1, 0));
    assert(program[2] == give(SECCOMP_RET_KILL_PROCESS));
    assert(program[3] == load(NR_OFFSET));
    assert(program[4 + 2 * n + 2 * d] == give(SECCOMP_RET_ALLOW));
    assert forall|j: int| 0 <= j < n implies program[4 + 2 * j] == if_equal(
        #[trigger] notified[j],
        0,
        1,
    ) && program[4 + 2 * j + 1] == give(SECCOMP_RET_USER_NOTIF) by {
        assert(program[4 + 2 * j] == checks(notified, SECCOMP_RET_USER_NOTIF)[2 * j]);
        assert(program[4 + 2 * j + 1] == checks(notified, SECCOMP_RET_USER_NOTIF)[2 * j + 1]);
    }
    assert forall|j: int| 0 <= j < d implies program[4 + 2 * n + 2 * j] == if_equal(
        #[trigger] denied[j],
        0,
        1,
    ) && program[4 + 2 * n + 2 * j + 1] == give(DENIED) by {
        assert(program[4 + 2 * n + 2 * j] == checks(denied, DENIED)[2 * j]);
        assert(program[4 + 2 * n + 2 * j + 1] == checks(denied, DENIED)[2 * j + 1]);
    }
    lemma_run_checks(program, 4, notified, SECCOMP_RET_USER_NOTIF, 0, call);
    lemma_run_checks(program, 4 + 2 * n, denied, DENIED, 0, call);
    assert(verdict_from(program, 4 + 2 * n + 2 * d, call.nr, call) == Some(SECCOMP_RET_ALLOW));
    assert(verdict_from(program, 3, call.arch, call) == verdict_from(program, 4, call.nr, call));
    assert(verdict_from(program, 2, call.arch, call) == Some(SECCOMP_RET_KILL_PROCESS));
    assert(verdict_from(program, 1, call.arch, call) == if call.arch == arch {
        verdict_from(program, 3, call.arch, call)
    } else {
        verdict_from(program, 2, call.arch, call)
    });
    assert(verdict_from(program, 0, 0, call) == verdict_from(program, 1, call.arch, call));
}

/// An instruction that does not jump.
pub fn stmt(code: u16, k: u32) -> (i: SockFilter)
    ensures
        i == (SockFilter { code, jt: 0, jf: 0, k }),
{
    SockFilter { code, jt: 0, jf: 0, k }
}

/// An instruction that jumps.
pub fn jump(code: u16, k: u32, jt: u8, jf: u8) -> (i: SockFilter)
    ensures
        i == (SockFilter { code, jt, jf, k }),
{
    SockFilter { code, jt, jf, k }
}

/// Appends the checks of `numbers` to `program`.
fn push_checks(program: &mut Vec<SockFilter>, numbers: &Vec<u32>, value: u32)
    ensures
        final(program)@ == old(program)@ + checks(numbers@, value),
{
    let ghost start = program@;
    assert(program@ =~= start + checks(numbers@.take(0), value));
    for i in 0..numbers.len()
        invariant
            program@ == start + checks(numbers@.take(i as int), value),
    {
        assert(numbers@.take(i + 1).drop_last() =~= numbers@.take(i as int));
        program.push(jump(BPF_JMP + BPF_JEQ + BPF_K, numbers[i], 0, 1));
        program.push(stmt(BPF_RET + BPF_K, value));
        assert(program@ =~= start + checks(numbers@.take(i + 1), value));
    }
    assert(numbers@.take(numbers@.len() as int) =~= numbers@);
}

// ---------------------------------------------------------------------------
// Architectures and calls

/// The machine that the filter is for.
#[derive(Debug, Clone, Copy, PartialEq, Eq, Structural)]
pub enum MachineArch {
    X86_64,
    Aarch64,
    Other,
}

/// What is told on a machine for which there is no filter.
pub open spec fn unsupported_arch() -> Seq<char> {
    "unsupported linux architecture for seccomp filter"@
}

/// The number by which filters know an architecture.
pub open spec fn arch_number(arch: MachineArch) -> Option<u32> {
    match arch {
        MachineArch::X86_64 => Some(0xC000_003E),
        MachineArch::Aarch64 => Some(0xC000_00B7),
        MachineArch::Other => None,
    }
}

/// The number by which filters know an architecture.
pub fn audit_arch(arch: MachineArch) -> (r: Result<u32, &'static str>)
    ensures
        match arch_number(arch) {
            Some(n) => r == Ok::<u32, &'static str>(n),
            None => r matches Err(text) && text@ == unsupported_arch(),
        },
{
    match arch {
        MachineArch::X86_64 => Ok(0xC000_003E),
        MachineArch::Aarch64 => Ok(0xC000_00B7),
        MachineArch::Other => Err("unsupported linux architecture for seccomp filter"),
    }
}

/// The numbers of system calls, which differ between machines.
#[derive(Debug, Clone, Copy, PartialEq, Eq, Structural)]
pub struct SyscallNumbers {
    pub socket: u32,
    pub bind: u32,
    pub connect: u32,
    pub sendto: u32,
    pub sendmsg: u32,
    pub listen: u32,
    pub accept: u32,
    pub accept4: u32,
    pub recvfrom: u32,
    pub recvmsg: u32,
    pub setsockopt: u32,
    pub getsockopt: u32,
    pub shutdown: u32,
    pub unshare: u32,
    pub mount: u32,
    pub umount2: u32,
    pub pivot_root: u32,
    pub chroot: u32,
    pub ptrace: u32,
    pub bpf: u32,
    pub perf_event_open: u32,
    pub keyctl: u32,
    pub add_key: u32,
    pub request_key: u32,
    pub kexec_load: u32,
    pub init_module: u32,
    pub finit_module: u32,
    pub delete_module: u32,
    pub reboot: u32,
    pub clone3: u32,
}

/// The calls that are refused: serving, receiving, and everything that leads out of the
/// sandbox or into the kernel.
pub open spec fn denied_numbers(n: SyscallNumbers) -> Seq<u32> {
    seq![
        n.listen,
        n.accept,
        n.accept4,
        n.recvfrom,
        n.recvmsg,
        n.setsockopt,
        n.getsockopt,
        n.shutdown,
        n.unshare,
        n.mount,
        n.umount2,
        n.pivot_root,
        n.chroot,
        n.ptrace,
        n.bpf,
        n.perf_event_open,
        n.keyctl,
        n.add_key,
        n.request_key,
        n.kexec_load,
        n.init_module,
        n.finit_module,
        n.delete_module,
        n.reboot,
        n.clone3,
    ]
}

/// The calls that the supervisor decides on.
pub open spec fn notified_numbers(n: SyscallNumbers) -> Seq<u32> {
    seq![n.socket, n.bind, n.connect, n.sendto, n.sendmsg]
}

/// The calls that are refused.
pub fn denied_syscalls(n: &SyscallNumbers) -> (out: Vec<u32>)
    ensures
        out@ == denied_numbers(*n),
{
    let out: Vec<u32> = vec![
        n.listen,
        n.accept,
        n.accept4,
        n.recvfrom,
        n.recvmsg,
        n.setsockopt,
        n.getsockopt,
        n.shutdown,
        n.unshare,
        n.mount,
        n.umount2,
        n.pivot_root,
        n.chroot,
        n.ptrace,
        n.bpf,
        n.perf_event_open,
        n.keyctl,
        n.add_key,
        n.request_key,
        n.kexec_load,
        n.init_module,
        n.finit_module,
        n.delete_module,
        n.reboot,
        n.clone3,
    ];
    assert(out@ =~= denied_numbers(*n));
    out
}

/// The calls that the supervisor decides on.
pub fn user_notif_syscalls(n: &SyscallNumbers) -> (out: Vec<u32>)
    ensures
        out@ == notified_numbers(*n),
{
    let out: Vec<u32> = vec![n.socket, n.bind, n.connect, n.sendto, n.sendmsg];
    assert(out@ =~= notified_numbers(*n));
    out
}

fn build_filter(arch: u32, notified: &Vec<u32>, denied: &Vec<u32>) -> (program: Vec<SockFilter>)
    ensures
        program@ == filter_program(arch, notified@, denied@),
{
    let mut program: Vec<SockFilter> = Vec::new();
    program.push(stmt(BPF_LD + BPF_W + BPF_ABS, ARCH_OFFSET));
    program.push(jump(BPF_JMP + BPF_JEQ + BPF_K, arch, 1, 0));
    program.push(stmt(BPF_RET + BPF_K, SECCOMP_RET_KILL_PROCESS));
    program.push(stmt(BPF_LD + BPF_W + BPF_ABS, NR_OFFSET));
    push_checks(&mut program, notified, SECCOMP_RET_USER_NOTIF);
    assert(SECCOMP_RET_ERRNO | EPERM == DENIED) by (bit_vector);
    push_checks(&mut program, denied, SECCOMP_RET_ERRNO | EPERM);
    program.push(stmt(BPF_RET + BPF_K, SECCOMP_RET_ALLOW));
    assert(program@ =~= filter_program(arch, notified@, denied@));
    program
}

/// The filter of a sandbox without network: denied calls fail, no call is supervised.
pub fn seccomp_filter_hermetic(arch: MachineArch, numbers: &SyscallNumbers) -> (r: Result<
    Vec<SockFilter>,
    &'static str,
>)
    ensures
        match arch_number(arch) {
            Some(a) => r matches Ok(program) && program@ == filter_program(
                a,
                Seq::<u32>::empty(),
                denied_numbers(*numbers),
            ),
            None => r matches Err(text) && text@ == unsupported_arch(),
        },
{
    match audit_arch(arch) {
        Ok(a) => {
            let none: Vec<u32> = Vec::new();
            Ok(build_filter(a, &none, &denied_syscalls(numbers)))
        },
        Err(text) => Err(text),
    }
}

/// The filter of a sandbox with an allowlist: the calls that open or use connections go
/// to the supervisor.
pub fn seccomp_filter_allowlist(arch: MachineArch, numbers: &SyscallNumbers) -> (r: Result<
    Vec<SockFilter>,
    &'static str,
>)
    ensures
        match arch_number(arch) {
            Some(a) => r matches Ok(program) && program@ == filter_program(
                a,
                notified_numbers(*numbers),
                denied_numbers(*numbers),
            ),
            None => r matches Err(text) && text@ == unsupported_arch(),
        },
{
    match audit_arch(arch) {
        Ok(a) => Ok(
            build_filter(a, &user_notif_syscalls(numbers), &denied_syscalls(numbers)),
        ),
        Err(text) => Err(text),
    }
}

/// There is no connection without the supervisor: under the filter with an allowlist, every
/// call that opens, binds, connects or sends is handed to the supervisor, and every refused
/// call that is not among these fails.
pub proof fn lemma_connections_are_supervised(arch: u32, numbers: SyscallNumbers, call: CallData)
    requires
        call.arch == arch,
    ensures
        ({
            let v = verdict(
                filter_program(arch, notified_numbers(numbers), denied_numbers(numbers)),
                call,
            );
            let supervised = call.nr == numbers.socket || call.nr == numbers.bind || call.nr
                == numbers.connect || call.nr == numbers.sendto || call.nr == numbers.sendmsg;
            &&& supervised ==> v == Some(SECCOMP_RET_USER_NOTIF)
            &&& !supervised && denied_numbers(numbers).contains(call.nr) ==> v == Some(DENIED)
        }),
{
    let notified = notified_numbers(numbers);
    lemma_filter_verdict(arch, notified, denied_numbers(numbers), call);
    assert(notified[0] == numbers.socket && notified[1] == numbers.bind && notified[2]
        == numbers.connect && notified[3] == numbers.sendto && notified[4] == numbers.sendmsg);
}

/// A sandbox without an allowlist refuses the same calls and supervises none.
pub proof fn lemma_hermetic_filter(arch: u32, numbers: SyscallNumbers, call: CallData)
    requires
        call.arch == arch,
    ensures
        verdict(
            filter_program(arch, Seq::<u32>::empty(), denied_numbers(numbers)),
            call,
        ) == Some(
            if denied_numbers(numbers).contains(call.nr) {
                DENIED
            } else {
                SECCOMP_RET_ALLOW
            },
        ),
{
    lemma_filter_verdict(arch, Seq::<u32>::empty(), denied_numbers(numbers), call);
}

// ---------------------------------------------------------------------------
// Talking to the kernel about supervised calls

/// The number of a request of the filter interface: both ways, group `!`, a number within
/// the group, and the size of its argument.
pub open spec fn request_number(nr: u64, size: u64) -> u64 {
    (3u64 << 30u64) | (0x21u64 << 8u64) | nr | (size << 16u64)
}

/// The number of the request `nr` with an argument of `size` bytes.
pub fn seccomp_iowr(nr: u64, size: u64) -> (r: u64)
    ensures
        r == request_number(nr, size),
        nr < 256 && size < 16384 ==> r == 3 * 0x4000_0000 + size * 0x1_0000 + 0x2100 + nr,
{
    proof {
        assert(nr < 256 && size < 16384 ==> (3u64 << 30u64) | (0x21u64 << 8u64) | nr | (size
            << 16u64) == 3 * 0x4000_0000 + size * 0x1_0000 + 0x2100 + nr) by (bit_vector);
    }
    (3u64 << 30u64) | (0x21u64 << 8u64) | nr | (size << 16u64)
}

/// The request that fetches a supervised call, whose description has `size` bytes.
pub fn seccomp_ioctl_notif_recv(size: u64) -> (r: u64)
    ensures
        r == request_number(0, size),
{
    seccomp_iowr(0, size)
}

/// The request that answers a supervised call, with an answer of `size` bytes.
pub fn seccomp_ioctl_notif_send(size: u64) -> (r: u64)
    ensures
        r == request_number(1, size),
{
    seccomp_iowr(1, size)
}

/// The request numbers of fetching and answering differ.
pub proof fn lemma_requests_differ(size: u64)
    requires
        size < 16384,
    ensures
        request_number(0, size) != request_number(1, size),
{
    assert(size < 16384 ==> ((3u64 << 30u64) | (0x21u64 << 8u64) | 0u64 | (size << 16u64)) != ((
    3u64 << 30u64) | (0x21u64 << 8u64) | 1u64 | (size << 16u64))) by (bit_vector);
}

} // verus!
