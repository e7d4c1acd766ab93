//! What the system call filters decide, call by call.
use crate::seccomp::{
    arch_number, denied_numbers, filter_program, lemma_filter_verdict, notified_numbers,
    request_number, verdict, verdict_from, CallData, MachineArch, SockFilter, SyscallNumbers,
};
use vstd::prelude::*;

verus! {

broadcast use vstd::seq::group_seq_axioms;

/// Each refused call by its own name, and no other: the calls that serve or receive, the
/// calls that lead out of the sandbox, and the calls that change the kernel.
pub proof fn lemma_refused_by_name(n: SyscallNumbers, nr: u32)
    ensures
        denied_numbers(n).contains(nr) <==> {
            ||| nr == n.listen
            ||| nr == n.accept
            ||| nr == n.accept4
            ||| nr == n.recvfrom
            ||| nr == n.recvmsg
            ||| nr == n.setsockopt
            ||| nr == n.getsockopt
            ||| nr == n.shutdown
            ||| nr == n.unshare
            ||| nr == n.mount
            ||| nr == n.umount2
            ||| nr == n.pivot_root
            ||| nr == n.chroot
            ||| nr == n.ptrace
            ||| nr == n.bpf
            ||| nr == n.perf_event_open
            ||| nr == n.keyctl
            ||| nr == n.add_key
            ||| nr == n.request_key
            ||| nr == n.kexec_load
            ||| nr == n.init_module
            ||| nr == n.finit_module
            ||| nr == n.delete_module
            ||| nr == n.reboot
            ||| nr == n.clone3
        },
{
    let d = denied_numbers(n);
    assert(d.len() == 25);
    assert(d[0] == n.listen && d[1] == n.accept && d[2] == n.accept4 && d[3] == n.recvfrom && d[4]
        == n.recvmsg && d[5] == n.setsockopt && d[6] == n.getsockopt && d[7] == n.shutdown);
    assert(d[8] == n.unshare && d[9] == n.mount && d[10] == n.umount2 && d[11] == n.pivot_root
        && d[12] == n.chroot && d[13] == n.ptrace && d[14] == n.bpf && d[15] == n.perf_event_open);
    assert(d[16] == n.keyctl && d[17] == n.add_key && d[18] == n.request_key && d[19]
        == n.kexec_load && d[20] == n.init_module && d[21] == n.finit_module && d[22]
        == n.delete_module && d[23] == n.reboot && d[24] == n.clone3);
}

/// The supervised calls by their own names, and no other.
pub proof fn lemma_supervised_by_name(n: SyscallNumbers, nr: u32)
    ensures
        notified_numbers(n).contains(nr) <==> {
            ||| nr == n.socket
            ||| nr == n.bind
            ||| nr == n.connect
            ||| nr == n.sendto
            ||| nr == n.sendmsg
        },
{
    let s = notified_numbers(n);
    assert(s.len() == 5);
    assert(s[0] == n.socket && s[1] == n.bind && s[2] == n.connect && s[3] == n.sendto && s[4]
        == n.sendmsg);
}

/// A sandbox without network, call by call: a call of another architecture ends the process,
/// each refused call fails as not permitted, and every other call goes through.
pub proof fn lemma_hermetic_verdicts(
    arch: u32,
    n: SyscallNumbers,
    program: Seq<SockFilter>,
    call: CallData,
)
    requires
        program == filter_program(arch, Seq::<u32>::empty(), denied_numbers(n)),
    ensures
        call.arch != arch ==> verdict(program, call) == Some(0x8000_0000u32),
        call.arch == arch ==> (verdict(program, call) == Some(0x0005_0001u32) <==> {
            ||| call.nr == n.listen
            ||| call.nr == n.accept
            ||| call.nr == n.accept4
            ||| call.nr == n.recvfrom
            ||| call.nr == n.recvmsg
            ||| call.nr == n.setsockopt
            ||| call.nr == n.getsockopt
            ||| call.nr == n.shutdown
            ||| call.nr == n.unshare
            ||| call.nr == n.mount
            ||| call.nr == n.umount2
            ||| call.nr == n.pivot_root
            ||| call.nr == n.chroot
            ||| call.nr == n.ptrace
            ||| call.nr == n.bpf
            ||| call.nr == n.perf_event_open
            ||| call.nr == n.keyctl
            ||| call.nr == n.add_key
            ||| call.nr == n.request_key
            ||| call.nr == n.kexec_load
            ||| call.nr == n.init_module
            ||| call.nr == n.finit_module
            ||| call.nr == n.delete_module
            ||| call.nr == n.reboot
            ||| call.nr == n.clone3
        }),
        call.arch == arch && verdict(program, call) != Some(0x0005_0001u32) ==> verdict(
            program,
            call,
        ) == Some(0x7fff_0000u32),
{
    lemma_filter_verdict(arch, Seq::<u32>::empty(), denied_numbers(n), call);
    lemma_refused_by_name(n, call.nr);
}

/// A sandbox with an allowlist, call by call: a call of another architecture ends the
/// process, each call that opens, binds, connects or sends is handed to the supervisor, each
/// refused call that is none of these fails as not permitted, and every other call goes
/// through.
pub proof fn lemma_allowlist_verdicts(
    arch: u32,
    n: SyscallNumbers,
    program: Seq<SockFilter>,
    call: CallData,
)
    requires
        program == filter_program(arch, notified_numbers(n), denied_numbers(n)),
    ensures
        call.arch != arch ==> verdict(program, call) == Some(0x8000_0000u32),
        call.arch == arch ==> (verdict(program, call) == Some(0x7fc0_0000u32) <==> {
            ||| call.nr == n.socket
            ||| call.nr == n.bind
            ||| call.nr == n.connect
            ||| call.nr == n.sendto
            ||| call.nr == n.sendmsg
        }),
        call.arch == arch && verdict(program, call) != Some(0x7fc0_0000u32) ==> (verdict(
            program,
            call,
        ) == Some(0x0005_0001u32) <==> {
            ||| call.nr == n.listen
            ||| call.nr == n.accept
            ||| call.nr == n.accept4
            ||| call.nr == n.recvfrom
            ||| call.nr == n.recvmsg
            ||| call.nr == n.setsockopt
            ||| call.nr == n.getsockopt
            ||| call.nr == n.shutdown
            ||| call.nr == n.unshare
            ||| call.nr == n.mount
            ||| call.nr == n.umount2
            ||| call.nr == n.pivot_root
            ||| call.nr == n.chroot
            ||| call.nr == n.ptrace
            ||| call.nr == n.bpf
            ||| call.nr == n.perf_event_open
            ||| call.nr == n.keyctl
            ||| call.nr == n.add_key
            ||| call.nr == n.request_key
            ||| call.nr == n.kexec_load
            ||| call.nr == n.init_module
            ||| call.nr == n.finit_module
            ||| call.nr == n.delete_module
            ||| call.nr == n.reboot
            ||| call.nr == n.clone3
        }),
        call.arch == arch ==> verdict(program, call) == Some(0x7fc0_0000u32) || verdict(
            program,
            call,
        ) == Some(0x0005_0001u32) || verdict(program, call) == Some(0x7fff_0000u32),
{
    lemma_filter_verdict(arch, notified_numbers(n), denied_numbers(n), call);
    lemma_refused_by_name(n, call.nr);
    lemma_supervised_by_name(n, call.nr);
}

/// How a filter runs: a load fills the accumulator with the number or the architecture of
/// the call, a comparison skips ahead by one of its two distances, and a return ends with
/// its operand.
pub proof fn lemma_machine_steps(program: Seq<SockFilter>, pc: int, acc: u32, call: CallData)
    requires
        0 <= pc < program.len(),
    ensures
        program[pc].code == 0x20 && program[pc].k == 0 ==> verdict_from(
            program,
            pc,
            acc,
            call,
        ) == verdict_from(program, pc + 1, call.nr, call),
        program[pc].code == 0x20 && program[pc].k == 4 ==> verdict_from(
            program,
            pc,
            acc,
            call,
        ) == verdict_from(program, pc + 1, call.arch, call),
        program[pc].code == 0x15 && acc == program[pc].k ==> verdict_from(
            program,
            pc,
            acc,
            call,
        ) == verdict_from(program, pc + 1 + program[pc].jt, acc, call),
        program[pc].code == 0x15 && acc != program[pc].k ==> verdict_from(
            program,
            pc,
            acc,
            call,
        ) == verdict_from(program, pc + 1 + program[pc].jf, acc, call),
        program[pc].code == 0x06 ==> verdict_from(program, pc, acc, call) == Some(
            program[pc].k,
        ),
{
}

/// Only the two machines that are known have a filter, and their numbers differ.
pub proof fn lemma_known_machines(arch: MachineArch)
    ensures
        arch_number(MachineArch::X86_64) == Some(0xC000_003Eu32),
        arch_number(MachineArch::Aarch64) == Some(0xC000_00B7u32),
        arch_number(arch) is Some <==> arch == MachineArch::X86_64 || arch == MachineArch::Aarch64,
{
}

/// A request number keeps its parts apart: the direction, the size of the argument, the
/// group and the number within the group can be read off again.
pub proof fn lemma_request_parts(nr: u64, size: u64)
    requires
        nr < 256,
        size < 16384,
    ensures
        request_number(nr, size) / 0x4000_0000 == 3,
        (request_number(nr, size) / 0x1_0000) % 0x4000 == size,
        (request_number(nr, size) / 0x100) % 0x100 == 0x21,
        request_number(nr, size) % 0x100 == nr,
{
    assert(nr < 256 && size < 16384 ==> ({
        let r = (3u64 << 30u64) | (0x21u64 << 8u64) | nr | (size << 16u64);
        r / 0x4000_0000 == 3 && (r / 0x1_0000) % 0x4000 == size && (r / 0x100) % 0x100 == 0x21
            && r % 0x100 == nr
    })) by (bit_vector);
}

} // verus!
