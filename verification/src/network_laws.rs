//! What the allowlist admits, and what the supervisor answers.
use crate::errors::SandboxFault;
use crate::network::{
    address_bytes, allowlist, big_endian, call_answer, call_permitted, decoded_address, next_action,
    LinuxNetworkPolicy, MessageTarget, NetworkCall, Resolution, SendTarget, SocketAddress,
    SupervisorAction, SupervisorEvent,
};
use vstd::prelude::*;

verus! {

broadcast use vstd::seq::group_seq_axioms;

// ---------------------------------------------------------------------------
// The allowlist

/// The address stands among the ones that looking up some entry came to.
pub open spec fn was_found(found: Seq<Resolution>, a: SocketAddress) -> bool {
    exists|i: int, j: int|
        0 <= i < found.len() && found[i] is Addresses && 0 <= j
            < found[i]->Addresses_0@.len() && #[trigger] found[i]->Addresses_0@[j] == a
}

proof fn lemma_allowlist_members(
    entries: Seq<Seq<char>>,
    found: Seq<Resolution>,
    n: int,
    a: SocketAddress,
)
    requires
        0 <= n <= entries.len(),
        entries.len() == found.len(),
        allowlist(entries.take(n), found) is Ok,
    ensures
        forall|i: int|
            0 <= i < n ==> (#[trigger] found[i]) is Addresses && found[i]->Addresses_0@.len() > 0,
        allowlist(entries.take(n), found)->Ok_0.contains(a) <==> was_found(found.take(n), a),
    decreases n,
{
    if n > 0 {
        let m = n - 1;
        assert(entries.take(n).drop_last() =~= entries.take(m));
        lemma_allowlist_members(entries, found, m, a);
        let last = found[m]->Addresses_0@;
        if was_found(found.take(m), a) {
            let (i, j) = choose|i: int, j: int|
                0 <= i < found.take(m).len() && found.take(m)[i] is Addresses && 0 <= j
                    < found.take(m)[i]->Addresses_0@.len() && #[trigger] found.take(
                    m,
                )[i]->Addresses_0@[j] == a;
            assert(found.take(n)[i] == found.take(m)[i]);
            assert(found.take(n)[i]->Addresses_0@[j] == a);
        }
        if last.contains(a) {
            let j = choose|j: int| 0 <= j < last.len() && last[j] == a;
            assert(found.take(n)[m]->Addresses_0@[j] == a);
        }
        if was_found(found.take(n), a) {
            let (i, j) = choose|i: int, j: int|
                0 <= i < found.take(n).len() && found.take(n)[i] is Addresses && 0 <= j
                    < found.take(n)[i]->Addresses_0@.len() && #[trigger] found.take(
                    n,
                )[i]->Addresses_0@[j] == a;
            if i < m {
                assert(found.take(m)[i] == found.take(n)[i]);
                assert(found.take(m)[i]->Addresses_0@[j] == a);
            } else {
                assert(last[j] == a);
                assert(last.contains(a));
            }
        }
    }
}

/// The allowlist is what the look-ups came to: where it is made, every entry has an address,
/// every address of every entry is on it, and nothing else is.
pub proof fn lemma_allowlist_is_what_was_found(
    entries: Seq<Seq<char>>,
    found: Seq<Resolution>,
    policy: LinuxNetworkPolicy,
)
    requires
        entries.len() == found.len(),
        allowlist(entries, found) == Ok::<Set<SocketAddress>, SandboxFault>(policy@),
    ensures
        forall|i: int|
            0 <= i < found.len() ==> (#[trigger] found[i]) is Addresses
                && found[i]->Addresses_0@.len() > 0,
        forall|i: int, j: int|
            0 <= i < found.len() && 0 <= j < found[i]->Addresses_0@.len()
                ==> policy.allowed_addrs@.contains(#[trigger] found[i]->Addresses_0@[j]),
        forall|a: SocketAddress| #[trigger]
            policy.allowed_addrs@.contains(a) ==> exists|i: int, j: int|
                0 <= i < found.len() && 0 <= j < found[i]->Addresses_0@.len()
                    && #[trigger] found[i]->Addresses_0@[j] == a,
{
    assert(entries.take(entries.len() as int) =~= entries);
    assert(found.take(found.len() as int) =~= found);
    let n = entries.len() as int;
    let listed = policy.allowed_addrs@;
    lemma_allowlist_members(entries, found, n, arbitrary());
    assert forall|i: int, j: int|
        0 <= i < found.len() && 0 <= j < found[i]->Addresses_0@.len()
            implies listed.contains(#[trigger] found[i]->Addresses_0@[j]) by {
        let a = found[i]->Addresses_0@[j];
        lemma_allowlist_members(entries, found, n, a);
        assert(found[i] is Addresses);
        assert(was_found(found, a));
        assert(policy@.contains(a));
    }
    assert forall|a: SocketAddress| #[trigger] listed.contains(a) implies exists|i: int, j: int|
        0 <= i < found.len() && 0 <= j < found[i]->Addresses_0@.len()
            && #[trigger] found[i]->Addresses_0@[j] == a by {
        assert(policy@.contains(a));
        lemma_allowlist_members(entries, found, n, a);
        assert(was_found(found, a));
    }
}

proof fn lemma_allowlist_made(entries: Seq<Seq<char>>, found: Seq<Resolution>, n: int)
    requires
        0 <= n <= entries.len(),
        entries.len() == found.len(),
        forall|i: int|
            0 <= i < n ==> (#[trigger] found[i]) is Addresses && found[i]->Addresses_0@.len() > 0,
    ensures
        allowlist(entries.take(n), found) is Ok,
    decreases n,
{
    if n > 0 {
        assert(entries.take(n).drop_last() =~= entries.take(n - 1));
        lemma_allowlist_made(entries, found, n - 1);
        assert(found[n - 1] is Addresses);
    }
}

proof fn lemma_allowlist_prefix_fault(entries: Seq<Seq<char>>, found: Seq<Resolution>, n: int)
    requires
        0 <= n <= entries.len(),
        allowlist(entries.take(n), found) is Err,
    ensures
        allowlist(entries, found) == allowlist(entries.take(n), found),
    decreases entries.len(),
{
    if n == entries.len() {
        assert(entries.take(n) =~= entries);
    } else {
        assert(entries.drop_last().take(n) =~= entries.take(n));
        lemma_allowlist_prefix_fault(entries.drop_last(), found, n);
    }
}

/// Whether there is an allowlist: there is one where every entry has an address; else the
/// first entry that has none is named, with the reason that the look-up gave, or that it
/// found nothing.
pub proof fn lemma_allowlist_or_first_fault(
    entries: Seq<Seq<char>>,
    found: Seq<Resolution>,
    k: int,
)
    requires
        entries.len() == found.len(),
        0 <= k <= found.len(),
        forall|i: int|
            0 <= i < k ==> (#[trigger] found[i]) is Addresses && found[i]->Addresses_0@.len() > 0,
    ensures
        k == found.len() ==> allowlist(entries, found) is Ok,
        k < found.len() && found[k] is Failed ==> allowlist(entries, found) == Err::<
            Set<SocketAddress>,
            SandboxFault,
        >(
            SandboxFault::LaunchFailed(
                "invalid allow_net entry `"@ + entries[k] + "`: "@ + found[k]->Failed_0@,
            ),
        ),
        k < found.len() && found[k] is Addresses && found[k]->Addresses_0@.len() == 0 ==> allowlist(
            entries,
            found,
        ) == Err::<Set<SocketAddress>, SandboxFault>(
            SandboxFault::LaunchFailed(
                "invalid allow_net entry `"@ + entries[k] + "`: "@
                    + "no socket addresses resolved"@,
            ),
        ),
{
    lemma_allowlist_made(entries, found, k);
    if k == found.len() {
        assert(entries.take(k) =~= entries);
    } else {
        assert(entries.take(k + 1).drop_last() =~= entries.take(k));
        assert(entries.take(k + 1).last() == entries[k]);
        if allowlist(entries.take(k + 1), found) is Err {
            lemma_allowlist_prefix_fault(entries, found, k + 1);
        }
    }
}

/// One entry more takes nothing away: what an allowlist admits, the longer one admits too.
pub proof fn lemma_more_entries_admit_more(
    entries: Seq<Seq<char>>,
    found: Seq<Resolution>,
    entry: Seq<char>,
    more: Resolution,
    a: SocketAddress,
)
    requires
        entries.len() == found.len(),
        allowlist(entries.push(entry), found.push(more)) is Ok,
    ensures
        allowlist(entries, found) is Ok,
        allowlist(entries, found)->Ok_0.contains(a) ==> allowlist(
            entries.push(entry),
            found.push(more),
        )->Ok_0.contains(a),
{
    let n = entries.len() as int;
    let longer = entries.push(entry);
    let all = found.push(more);
    assert(longer.take(n + 1) =~= longer);
    assert(longer.take(n) =~= entries);
    assert(longer.drop_last() =~= entries);
    lemma_same_prefix(entries, found, all, n);
    assert(entries.take(n) =~= entries);
}

proof fn lemma_same_prefix(
    entries: Seq<Seq<char>>,
    found: Seq<Resolution>,
    all: Seq<Resolution>,
    n: int,
)
    requires
        0 <= n <= entries.len(),
        n <= found.len() <= all.len(),
        forall|i: int| 0 <= i < n ==> found[i] == all[i],
    ensures
        allowlist(entries.take(n), found) == allowlist(entries.take(n), all),
    decreases n,
{
    if n > 0 {
        assert(entries.take(n).drop_last() =~= entries.take(n - 1));
        lemma_same_prefix(entries, found, all, n - 1);
        assert(found[n - 1] == all[n - 1]);
    }
}

// ---------------------------------------------------------------------------
// Calls

/// Which destinations a sandbox reaches: an address may be connected or sent to if and only
/// if the look-ups found it, it is an address of version 4 whose first byte is 127, or it is
/// the address 1 of version 6. The three calls agree.
pub proof fn lemma_reachable_destinations(
    entries: Seq<Seq<char>>,
    found: Seq<Resolution>,
    policy: LinuxNetworkPolicy,
    a: SocketAddress,
)
    requires
        entries.len() == found.len(),
        allowlist(entries, found) == Ok::<Set<SocketAddress>, SandboxFault>(policy@),
    ensures
        call_permitted(policy@, NetworkCall::Connect(Some(a))) <==> {
            ||| was_found(found, a)
            ||| a matches SocketAddress::V4 { address, .. } && 0x7f00_0000 <= address
                <= 0x7fff_ffff
            ||| a matches SocketAddress::V6 { address, .. } && address == 1
        },
        call_permitted(policy@, NetworkCall::SendTo(SendTarget::Address(Some(a))))
            == call_permitted(policy@, NetworkCall::Connect(Some(a))),
        call_permitted(policy@, NetworkCall::SendMsg(MessageTarget::Address(Some(a))))
            == call_permitted(policy@, NetworkCall::Connect(Some(a))),
{
    let n = entries.len() as int;
    assert(entries.take(n) =~= entries);
    assert(found.take(n) =~= found);
    lemma_allowlist_members(entries, found, n, a);
}

/// A sandbox serves only its own machine: an address may be bound if and only if it is one
/// of version 4 whose first byte is 127 or the address 1 of version 6, whatever the
/// allowlist says.
pub proof fn lemma_bound_addresses(allowed: Set<SocketAddress>, a: SocketAddress)
    ensures
        call_permitted(allowed, NetworkCall::Bind(Some(a))) <==> {
            ||| a matches SocketAddress::V4 { address, .. } && 0x7f00_0000 <= address
                <= 0x7fff_ffff
            ||| a matches SocketAddress::V6 { address, .. } && address == 1
        },
{
}

/// Calls that name no internet address: binding and connecting elsewhere is not the
/// supervisor's business, and neither is sending over a connection that stands; sending to
/// what cannot be told is refused.
pub proof fn lemma_calls_without_address(allowed: Set<SocketAddress>)
    ensures
        call_permitted(allowed, NetworkCall::Bind(None)),
        call_permitted(allowed, NetworkCall::Connect(None)),
        call_permitted(allowed, NetworkCall::SendTo(SendTarget::Connected)),
        call_permitted(allowed, NetworkCall::SendMsg(MessageTarget::Connected)),
        call_permitted(allowed, NetworkCall::SendMsg(MessageTarget::NoMessage)),
        call_permitted(allowed, NetworkCall::Other),
        !call_permitted(allowed, NetworkCall::SendTo(SendTarget::Address(None))),
        !call_permitted(allowed, NetworkCall::SendMsg(MessageTarget::Address(None))),
        !call_permitted(allowed, NetworkCall::SendMsg(MessageTarget::Unreadable)),
{
}

/// A longer allowlist permits no call less.
pub proof fn lemma_longer_list_permits_more(
    fewer: Set<SocketAddress>,
    more: Set<SocketAddress>,
    call: NetworkCall,
)
    requires
        fewer.subset_of(more),
    ensures
        call_permitted(fewer, call) ==> call_permitted(more, call),
{
}

/// Which sockets may be opened: none outside the families 1, 2 and 10; within these every
/// stream socket and every datagram socket, and of the other types those without the two
/// lowest bits. The allowlist has no say in it.
pub proof fn lemma_opened_sockets(allowed: Set<SocketAddress>, domain: i32, ty: i32)
    ensures
        call_permitted(allowed, NetworkCall::Socket { domain, ty }) ==> domain == 1 || domain == 2
            || domain == 10,
        (domain == 1 || domain == 2 || domain == 10) && (ty & 0xf == 1 || ty & 0xf == 2)
            ==> call_permitted(allowed, NetworkCall::Socket { domain, ty }),
        (domain == 1 || domain == 2 || domain == 10) && ty & 0xf != 1 && ty & 0xf != 2 ==> (
        call_permitted(allowed, NetworkCall::Socket { domain, ty }) <==> ty & 3 == 0),
{
}

/// A permitted call goes on, any other fails; the answer names the call.
pub proof fn lemma_answers(id: u64)
    ensures
        call_answer(id, true).id == id && call_answer(id, true).flags == 1 && call_answer(
            id,
            true,
        ).error == 0 && call_answer(id, true).val == 0,
        call_answer(id, false).id == id && call_answer(id, false).flags == 0 && call_answer(
            id,
            false,
        ).error == 13 && call_answer(id, false).val == 0,
{
}

/// The supervisor's loop: a waiting call is fetched, also by a supervisor that was asked to
/// stop; a fetched call is answered; whatever else happened, a supervisor that was asked to
/// stop closes, and one that was not waits again, except behind a failure that is no
/// interruption, where it closes.
pub proof fn lemma_supervisor_steps(allowed: Set<SocketAddress>, event: SupervisorEvent, stop: bool)
    ensures
        event is PollReady <==> next_action(allowed, event, stop) is Receive,
        event matches SupervisorEvent::Received { id, call } ==> next_action(allowed, event, stop)
            == SupervisorAction::Respond(call_answer(id, call_permitted(allowed, call))),
        event is PollQuiet || event is PollOther || event is Sent ==> (if stop {
            next_action(allowed, event, stop) is Close
        } else {
            next_action(allowed, event, stop) is Poll
        }),
        event matches SupervisorEvent::PollFailed { interrupted } ==> (next_action(
            allowed,
            event,
            stop,
        ) is Poll <==> interrupted && !stop) && (next_action(allowed, event, stop) is Close <==> (
        stop || !interrupted)),
        event matches SupervisorEvent::ReceiveFailed { interrupted } ==> (next_action(
            allowed,
            event,
            stop,
        ) is Poll <==> interrupted && !stop) && (next_action(allowed, event, stop) is Close <==> (
        stop || !interrupted)),
        event matches SupervisorEvent::SendFailed { interrupted } ==> (next_action(
            allowed,
            event,
            stop,
        ) is Poll <==> interrupted && !stop) && (next_action(allowed, event, stop) is Close <==> (
        stop || !interrupted)),
{
}

// ---------------------------------------------------------------------------
// Addresses that processes pass

/// Where the parts of an address stand. The port is in bytes 2 and 3, an address of version
/// 4 in the bytes from 4 on, one of version 6 in those from 8 on, the first byte always the
/// most significant.
pub proof fn lemma_address_parts(family: u16, bytes: Seq<u8>)
    ensures
        decoded_address(family, bytes) is Some <==> family == 2 && bytes.len() >= 16 || family == 10
            && bytes.len() >= 28,
        family == 2 && bytes.len() >= 16 ==> {
            let a = decoded_address(family, bytes)->0;
            &&& a is V4
            &&& a->V4_address == bytes[4] * 0x100_0000 + bytes[5] * 0x1_0000 + bytes[6] * 0x100
                + bytes[7]
            &&& a->V4_port == bytes[2] * 256 + bytes[3]
        },
        family == 10 && bytes.len() >= 28 ==> {
            let a = decoded_address(family, bytes)->0;
            &&& a is V6
            &&& a->V6_port == bytes[2] * 256 + bytes[3]
            &&& a->flowinfo == 0
            &&& a->scope_id == 0
        },
{
    reveal_with_fuel(big_endian, 5);
    if bytes.len() >= 16 {
        let p = bytes.subrange(2, 4);
        assert(p.drop_last() =~= seq![bytes[2]]);
        assert(p.drop_last().drop_last() =~= Seq::<u8>::empty());
        let b = bytes.subrange(4, 8);
        assert(b.drop_last() =~= seq![bytes[4], bytes[5], bytes[6]]);
        assert(b.drop_last().drop_last() =~= seq![bytes[4], bytes[5]]);
        assert(b.drop_last().drop_last().drop_last() =~= seq![bytes[4]]);
        assert(b.drop_last().drop_last().drop_last().drop_last() =~= Seq::<u8>::empty());
    }
}

/// The address of version 6 is the number of its sixteen bytes: taken as four words of four
/// bytes, the words stand in the order in which they are passed.
pub proof fn lemma_long_address(bytes: Seq<u8>)
    requires
        bytes.len() >= 28,
    ensures
        ({
            let a = decoded_address(10, bytes)->0->V6_address;
            let word = |k: int|
                bytes[k] * 0x100_0000 + bytes[k + 1] * 0x1_0000 + bytes[k + 2] * 0x100 + bytes[k
                    + 3];
            a == word(8) * 0x1_0000_0000_0000_0000_0000_0000 + word(12)
                * 0x1_0000_0000_0000_0000 + word(16) * 0x1_0000_0000 + word(20)
        }),
{
    let n0 = bytes.subrange(8, 8);
    assert(big_endian(n0) == 0);
    lemma_four_more(bytes, 8, 8);
    lemma_four_more(bytes, 8, 12);
    lemma_four_more(bytes, 8, 16);
    lemma_four_more(bytes, 8, 20);
}

proof fn lemma_one_more(bytes: Seq<u8>, from: int, to: int)
    requires
        0 <= from <= to < bytes.len(),
    ensures
        big_endian(bytes.subrange(from, to + 1)) == big_endian(bytes.subrange(from, to)) * 256
            + bytes[to],
{
    assert(bytes.subrange(from, to + 1).drop_last() =~= bytes.subrange(from, to));
}

proof fn lemma_four_more(bytes: Seq<u8>, from: int, to: int)
    requires
        0 <= from <= to,
        to + 4 <= bytes.len(),
    ensures
        big_endian(bytes.subrange(from, to + 4)) == big_endian(bytes.subrange(from, to))
            * 0x1_0000_0000 + bytes[to] * 0x100_0000 + bytes[to + 1] * 0x1_0000 + bytes[to + 2]
            * 0x100 + bytes[to + 3],
{
    lemma_one_more(bytes, from, to);
    lemma_one_more(bytes, from, to + 1);
    lemma_one_more(bytes, from, to + 2);
    lemma_one_more(bytes, from, to + 3);
}

/// How much of an address is read: sixteen bytes for version 4 and twenty-eight for version
/// 6, where the process passes as many; of any other family nothing.
pub proof fn lemma_address_sizes(family: u16, len: usize)
    ensures
        address_bytes(family, len) == Some(16usize) <==> family == 2 && len >= 16,
        address_bytes(family, len) == Some(28usize) <==> family == 10 && len >= 28,
        address_bytes(family, len) matches Some(n) ==> n == 16 || n == 28,
{
}

} // verus!
