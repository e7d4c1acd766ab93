//! Outbound connections: which addresses the allowlist admits, and what the supervisor
//! answers to a supervised system call.
use crate::errors::{SandboxError, SandboxFault};
use crate::seccomp::SyscallNumbers;
use crate::text::{concat, texts};
use vstd::prelude::*;

verus! {

broadcast use vstd::seq::group_seq_axioms;

// ---------------------------------------------------------------------------
// Addresses

/// A network address and a port. The most significant byte of an address is the one that
/// is written first.
#[derive(Debug, Clone, Copy, PartialEq, Eq, Structural)]
pub enum SocketAddress {
    V4 { address: u32, port: u16 },
    V6 { address: u128, port: u16, flowinfo: u32, scope_id: u32 },
}

/// The address of this machine itself: in `127.0.0.0/8`, or `::1`.
pub open spec fn is_loopback(a: SocketAddress) -> bool {
    match a {
        SocketAddress::V4 { address, .. } => address / 0x100_0000 == 127,
        SocketAddress::V6 { address, .. } => address == 1,
    }
}

/// Whether the address is one of this machine itself.
pub fn network_addr_is_loopback(addr: SocketAddress) -> (r: bool)
    ensures
        r == is_loopback(addr),
{
    match addr {
        SocketAddress::V4 { address, .. } => address / 0x100_0000 == 127,
        SocketAddress::V6 { address, .. } => address == 1,
    }
}

/// Sockets between processes of this machine.
pub const AF_UNIX: i32 = 1;

/// Sockets of the internet protocol, version 4.
pub const AF_INET: i32 = 2;

/// Sockets of the internet protocol, version 6.
pub const AF_INET6: i32 = 10;

/// The size of an address family.
pub const FAMILY_BYTES: usize = 2;

/// The size of an address of version 4 as the kernel takes it.
pub const INET_BYTES: usize = 16;

/// The size of an address of version 6 as the kernel takes it.
pub const INET6_BYTES: usize = 28;

/// The number of bytes of an address of that family, given how many the process passes;
/// none where there is no address to read.
pub open spec fn address_bytes(family: u16, len: usize) -> Option<usize> {
    if family == AF_INET && len >= INET_BYTES {
        Some(INET_BYTES)
    } else if family == AF_INET6 && len >= INET6_BYTES {
        Some(INET6_BYTES)
    } else {
        None
    }
}

/// Whether a process that passes `len` bytes passes an address family at all.
pub fn family_is_passed(is_null: bool, len: usize) -> (r: bool)
    ensures
        r == (!is_null && len >= FAMILY_BYTES),
{
    !is_null && len >= FAMILY_BYTES
}

/// The number of bytes to read for an address of that family.
pub fn sockaddr_length(family: u16, len: usize) -> (r: Option<usize>)
    ensures
        r == address_bytes(family, len),
{
    if family as i32 == AF_INET {
        if len >= INET_BYTES {
            Some(INET_BYTES)
        } else {
            None
        }
    } else if family as i32 == AF_INET6 {
        if len >= INET6_BYTES {
            Some(INET6_BYTES)
        } else {
            None
        }
    } else {
        None
    }
}

/// The number that bytes stand for, the most significant first.
pub open spec fn big_endian(bytes: Seq<u8>) -> nat
    decreases bytes.len(),
{
    if bytes.len() == 0 {
        0
    } else {
        big_endian(bytes.drop_last()) * 256 + bytes.last() as nat
    }
}

/// The address in the bytes that a process passes: behind the family the port, then for
/// version 4 the address, for version 6 the address behind four more bytes.
pub open spec fn decoded_address(family: u16, bytes: Seq<u8>) -> Option<SocketAddress> {
    if family == AF_INET && bytes.len() >= INET_BYTES {
        Some(
            SocketAddress::V4 {
                address: big_endian(bytes.subrange(4, 8)) as u32,
                port: big_endian(bytes.subrange(2, 4)) as u16,
            },
        )
    } else if family == AF_INET6 && bytes.len() >= INET6_BYTES {
        Some(
            SocketAddress::V6 {
                address: big_endian(bytes.subrange(8, 24)) as u128,
                port: big_endian(bytes.subrange(2, 4)) as u16,
                flowinfo: 0,
                scope_id: 0,
            },
        )
    } else {
        None
    }
}

/// `256` to the power `n`.
spec fn byte_range(n: nat) -> nat
    decreases n,
{
    if n == 0 {
        1
    } else {
        256 * byte_range((n - 1) as nat)
    }
}

proof fn lemma_big_endian_bound(bytes: Seq<u8>)
    ensures
        big_endian(bytes) < byte_range(bytes.len()),
    decreases bytes.len(),
{
    if bytes.len() > 0 {
        lemma_big_endian_bound(bytes.drop_last());
    }
}

proof fn lemma_byte_range(m: nat, n: nat)
    requires
        m <= n,
    ensures
        byte_range(m) <= byte_range(n),
    decreases n,
{
    if m < n {
        lemma_byte_range(m, (n - 1) as nat);
    }
}

/// The number in the bytes from `from` to `to`, at most sixteen of them.
fn read_big_endian(bytes: &Vec<u8>, from: usize, to: usize) -> (n: u128)
    requires
        from <= to <= bytes.len(),
        to - from <= 16,
    ensures
        n == big_endian(bytes@.subrange(from as int, to as int)),
{
    let mut n: u128 = 0;
    let ghost all = bytes@.subrange(from as int, to as int);
    for i in from..to
        invariant
            from <= to <= bytes.len(),
            to - from <= 16,
            all == bytes@.subrange(from as int, to as int),
            n == big_endian(all.take(i - from)),
    {
        let ghost next = all.take(i + 1 - from);
        assert(next.drop_last() =~= all.take(i - from));
        assert(next.last() == bytes@[i as int]);
        proof {
            lemma_big_endian_bound(next);
            lemma_byte_range(next.len(), 16);
            assert(byte_range(16) == 0x1_0000_0000_0000_0000_0000_0000_0000_0000) by {
                reveal_with_fuel(byte_range, 17);
            }
        }
        n = n * 256 + bytes[i] as u128;
    }
    assert(all.take(to - from) =~= all);
    n
}

/// The address in the bytes that a process passes.
pub fn sockaddr_from_bytes(family: u16, bytes: &Vec<u8>) -> (r: Option<SocketAddress>)
    ensures
        r == decoded_address(family, bytes@),
{
    if family as i32 == AF_INET && bytes.len() >= INET_BYTES {
        let address = read_big_endian(bytes, 4, 8);
        let port = read_big_endian(bytes, 2, 4);
        proof {
            lemma_big_endian_bound(bytes@.subrange(4, 8));
            lemma_big_endian_bound(bytes@.subrange(2, 4));
            reveal_with_fuel(byte_range, 5);
        }
        Some(SocketAddress::V4 { address: address as u32, port: port as u16 })
    } else if family as i32 == AF_INET6 && bytes.len() >= INET6_BYTES {
        let address = read_big_endian(bytes, 8, 24);
        let port = read_big_endian(bytes, 2, 4);
        proof {
            lemma_big_endian_bound(bytes@.subrange(2, 4));
            reveal_with_fuel(byte_range, 5);
        }
        Some(SocketAddress::V6 { address, port: port as u16, flowinfo: 0, scope_id: 0 })
    } else {
        None
    }
}

// ---------------------------------------------------------------------------
// The allowlist

/// The addresses that a sandbox may connect to.
#[derive(Debug, Clone)]
pub struct LinuxNetworkPolicy {
    pub allowed_addrs: Vec<SocketAddress>,
}

impl View for LinuxNetworkPolicy {
    type V = Set<SocketAddress>;

    open spec fn view(&self) -> Set<SocketAddress> {
        self.allowed_addrs@.to_set()
    }
}

/// What looking up an endpoint came to.
#[derive(Debug, Clone)]
pub enum Resolution {
    /// The endpoint cannot be looked up; the text tells why.
    Failed(String),
    /// Its addresses.
    Addresses(Vec<SocketAddress>),
}

/// What is told of an entry that is no endpoint.
pub open spec fn bad_entry(entry: Seq<char>, reason: Seq<char>) -> SandboxFault {
    SandboxFault::LaunchFailed("invalid allow_net entry `"@ + entry + "`: "@ + reason)
}

/// The addresses of one entry, or what is wrong with it: an entry needs an address.
pub open spec fn entry_addresses(entry: Seq<char>, found: Resolution) -> Result<
    Set<SocketAddress>,
    SandboxFault,
> {
    match found {
        Resolution::Failed(reason) => Err(bad_entry(entry, reason@)),
        Resolution::Addresses(addrs) => if addrs@.len() == 0 {
            Err(bad_entry(entry, "no socket addresses resolved"@))
        } else {
            Ok(addrs@.to_set())
        },
    }
}

/// The addresses of all entries, or what is wrong with the first one that is no endpoint.
pub open spec fn allowlist(entries: Seq<Seq<char>>, found: Seq<Resolution>) -> Result<
    Set<SocketAddress>,
    SandboxFault,
>
    decreases entries.len(),
{
    if entries.len() == 0 {
        Ok(Set::<SocketAddress>::empty())
    } else {
        match allowlist(entries.drop_last(), found) {
            Err(fault) => Err(fault),
            Ok(before) => match entry_addresses(entries.last(), found[entries.len() - 1]) {
                Err(fault) => Err(fault),
                Ok(addrs) => Ok(before.union(addrs)),
            },
        }
    }
}

fn bad_entry_error(entry: &str, reason: &str) -> (e: SandboxError)
    ensures
        e@ == bad_entry(entry@, reason@),
{
    let mut text = concat("invalid allow_net entry `", entry);
    text.append("`: ");
    text.append(reason);
    SandboxError::LaunchFailed(text)
}

fn has_address(addrs: &Vec<SocketAddress>, addr: SocketAddress) -> (r: bool)
    ensures
        r == addrs@.to_set().contains(addr),
{
    for i in 0..addrs.len()
        invariant
            forall|j: int| 0 <= j < i ==> addrs@[j] != addr,
    {
        if addrs[i] == addr {
            assert(addrs@.contains(addr));
            return true;
        }
    }
    false
}

proof fn lemma_push_to_set(s: Seq<SocketAddress>, a: SocketAddress)
    ensures
        s.push(a).to_set() == s.to_set().insert(a),
{
    assert forall|x: SocketAddress| s.push(a).contains(x) <==> (s.contains(x) || x == a) by {
        assert(s.push(a)[s.len() as int] == a);
        if s.contains(x) {
            let j = choose|j: int| 0 <= j < s.len() && s[j] == x;
            assert(s.push(a)[j] == x);
        }
    }
    assert(s.push(a).to_set() =~= s.to_set().insert(a));
}

impl LinuxNetworkPolicy {
    /// No address is listed twice.
    pub open spec fn wf(&self) -> bool {
        self.allowed_addrs@.no_duplicates()
    }

    /// The policy that admits no address.
    pub fn new() -> (policy: LinuxNetworkPolicy)
        ensures
            policy.wf(),
            policy@ == Set::<SocketAddress>::empty(),
    {
        let policy = LinuxNetworkPolicy { allowed_addrs: Vec::new() };
        assert(policy@ =~= Set::<SocketAddress>::empty());
        policy
    }

    /// Admits the addresses of one more entry. An entry without one changes nothing.
    pub fn allow_entry(&mut self, entry: &str, found: &Resolution) -> (r: Result<(), SandboxError>)
        requires
            old(self).wf(),
        ensures
            final(self).wf(),
            match entry_addresses(entry@, *found) {
                Ok(addrs) => r is Ok && final(self)@ == old(self)@.union(addrs),
                Err(fault) => r matches Err(e) && e@ == fault && final(self)@ == old(self)@,
            },
            found is Addresses && found->Addresses_0@.len() > 0 ==> (forall|a: SocketAddress|
                #[trigger] final(self).allowed_addrs@.contains(a) == (old(
                    self,
                ).allowed_addrs@.contains(a) || found->Addresses_0@.contains(a))),
    {
        match found {
            Resolution::Failed(reason) => Err(bad_entry_error(entry, reason.as_str())),
            Resolution::Addresses(addrs) => {
                if addrs.len() == 0 {
                    return Err(bad_entry_error(entry, "no socket addresses resolved"));
                }
                let ghost start = self@;
                assert(self@ =~= start.union(addrs@.take(0).to_set()));
                for i in 0..addrs.len()
                    invariant
                        self.wf(),
                        self@ == start.union(addrs@.take(i as int).to_set()),
                {
                    let addr = addrs[i];
                    proof {
                        lemma_push_to_set(addrs@.take(i as int), addr);
                        lemma_push_to_set(self.allowed_addrs@, addr);
                    }
                    assert(addrs@.take(i as int).push(addr) =~= addrs@.take(i + 1));
                    if !has_address(&self.allowed_addrs, addr) {
                        self.allowed_addrs.push(addr);
                    }
                    assert(self@ =~= start.union(addrs@.take(i + 1).to_set()));
                }
                assert(addrs@.take(addrs@.len() as int) =~= addrs@);
                assert forall|a: SocketAddress| #[trigger] self.allowed_addrs@.contains(a) == (old(
                    self,
                ).allowed_addrs@.contains(a) || addrs@.contains(a)) by {
                    assert(self.allowed_addrs@.contains(a) == self@.contains(a));
                    assert(start.contains(a) == old(self).allowed_addrs@.contains(a));
                    assert(addrs@.to_set().contains(a) == addrs@.contains(a));
                }
                Ok(())
            },
        }
    }
}

proof fn lemma_allowlist_error(entries: Seq<Seq<char>>, found: Seq<Resolution>, n: int)
    requires
        0 <= n <= entries.len(),
        allowlist(entries.take(n), found) is Err,
    ensures
        allowlist(entries, found) == allowlist(entries.take(n), found),
    decreases entries.len(),
{
    if n == entries.len() {
        assert(entries.take(n) =~= entries);
    } else {
        assert(entries.drop_last().take(n) =~= entries.take(n));
        lemma_allowlist_error(entries.drop_last(), found, n);
    }
}

/// The policy that admits the addresses of every entry, given what looking each of them
/// up came to.
pub fn resolve_network_allowlist(entries: &Vec<String>, found: &Vec<Resolution>) -> (r: Result<
    LinuxNetworkPolicy,
    SandboxError,
>)
    requires
        entries.len() == found.len(),
    ensures
        match allowlist(texts(entries@), found@) {
            Ok(addrs) => r matches Ok(policy) && policy@ == addrs && policy.wf(),
            Err(fault) => r matches Err(e) && e@ == fault,
        },
{
    let ghost all = texts(entries@);
    let mut policy = LinuxNetworkPolicy::new();
    assert(allowlist(all.take(0), found@) == Ok::<Set<SocketAddress>, SandboxFault>(policy@));
    for i in 0..entries.len()
        invariant
            all == texts(entries@),
            entries.len() == found.len(),
            policy.wf(),
            allowlist(all.take(i as int), found@) == Ok::<Set<SocketAddress>, SandboxFault>(
                policy@,
            ),
    {
        assert(all.take(i + 1).drop_last() =~= all.take(i as int));
        assert(all.take(i + 1).last() == entries@[i as int]@);
        match policy.allow_entry(entries[i].as_str(), &found[i]) {
            Ok(()) => {},
            Err(e) => {
                proof {
                    lemma_allowlist_error(all, found@, i + 1);
                }
                return Err(e);
            },
        }
    }
    assert(all.take(all.len() as int) =~= all);
    Ok(policy)
}

/// An address may be connected to: it is on the allowlist or of this machine.
pub open spec fn may_connect(allowed: Set<SocketAddress>, addr: SocketAddress) -> bool {
    allowed.contains(addr) || is_loopback(addr)
}

/// Whether an address may be connected to.
pub fn network_addr_allowed(policy: &LinuxNetworkPolicy, addr: SocketAddress) -> (r: bool)
    ensures
        r == may_connect(policy@, addr),
{
    has_address(&policy.allowed_addrs, addr) || network_addr_is_loopback(addr)
}

// ---------------------------------------------------------------------------
// Supervised calls

/// The type of stream sockets.
pub const SOCK_STREAM: i32 = 1;

/// The type of datagram sockets.
pub const SOCK_DGRAM: i32 = 2;

/// The type of raw sockets.
pub const SOCK_RAW: i32 = 3;

/// The bits of a socket's type that are no flags.
pub const SOCK_TYPE_MASK: i32 = 0xf;

/// A socket that may be opened: of one of the three families, and either a stream or datagram
/// socket or of a type that has no bit in common with raw sockets.
pub open spec fn may_open(domain: i32, ty: i32) -> bool {
    let kind = ty & SOCK_TYPE_MASK;
    &&& domain == AF_UNIX || domain == AF_INET || domain == AF_INET6
    &&& kind == SOCK_STREAM || kind == SOCK_DGRAM || ty & SOCK_RAW == 0
}

/// Whether a socket may be opened.
pub fn socket_params_allowed(domain: i32, ty: i32) -> (r: bool)
    ensures
        r == may_open(domain, ty),
{
    let kind: i32 = ty & SOCK_TYPE_MASK;
    (domain == AF_UNIX || domain == AF_INET || domain == AF_INET6) && (kind == SOCK_STREAM || kind
        == SOCK_DGRAM || ty & SOCK_RAW == 0)
}

/// Flags in the upper bits of a socket's type change nothing: stream and datagram sockets of
/// the internet may be opened. Raw sockets, those that keep records apart (5), that control
/// congestion (6), and that see whole packets (10) may be opened in no family.
pub proof fn lemma_socket_flags(domain: i32, flags: i32)
    requires
        flags & SOCK_TYPE_MASK == 0,
    ensures
        domain == AF_INET || domain == AF_INET6 ==> may_open(domain, SOCK_STREAM | flags)
            && may_open(domain, SOCK_DGRAM | flags),
        !may_open(domain, SOCK_RAW | flags),
        !may_open(domain, 5 | flags),
        !may_open(domain, 6 | flags),
        !may_open(domain, 10 | flags),
{
    assert(flags & 0xf == 0 ==> (1 | flags) & 0xf == 1 && (2 | flags) & 0xf == 2 && (3 | flags)
        & 0xf == 3 && (5 | flags) & 0xf == 5 && (6 | flags) & 0xf == 6 && (10 | flags) & 0xf
        == 10 && (3 | flags) & 3 != 0 && (5 | flags) & 3 != 0 && (6 | flags) & 3 != 0 && (10
        | flags) & 3 != 0) by (bit_vector);
}

/// Where a process sends to with `sendto`.
#[derive(Debug, Clone, Copy, PartialEq, Eq, Structural)]
pub enum SendTarget {
    /// Nowhere in particular: the socket is connected.
    Connected,
    /// To this address; none where the one it passes is no internet address or cannot be
    /// read.
    Address(Option<SocketAddress>),
}

/// Where a process sends to with `sendmsg`.
#[derive(Debug, Clone, Copy, PartialEq, Eq, Structural)]
pub enum MessageTarget {
    /// It passes no message.
    NoMessage,
    /// The message cannot be read.
    Unreadable,
    /// Nowhere in particular: the message names no address.
    Connected,
    /// To this address; none where the one it passes is no internet address or cannot be
    /// read.
    Address(Option<SocketAddress>),
}

/// A supervised call with what the decision needs of its arguments.
#[derive(Debug, Clone, Copy, PartialEq, Eq, Structural)]
pub enum NetworkCall {
    Socket { domain: i32, ty: i32 },
    Bind(Option<SocketAddress>),
    Connect(Option<SocketAddress>),
    SendTo(SendTarget),
    SendMsg(MessageTarget),
    Other,
}

/// What the supervisor decides on a call.
pub open spec fn call_permitted(allowed: Set<SocketAddress>, call: NetworkCall) -> bool {
    match call {
        NetworkCall::Socket { domain, ty } => may_open(domain, ty),
        NetworkCall::Bind(Some(addr)) => is_loopback(addr),
        NetworkCall::Bind(None) => true,
        NetworkCall::Connect(Some(addr)) => may_connect(allowed, addr),
        NetworkCall::Connect(None) => true,
        NetworkCall::SendTo(SendTarget::Connected) => true,
        NetworkCall::SendTo(SendTarget::Address(Some(addr))) => may_connect(allowed, addr),
        NetworkCall::SendTo(SendTarget::Address(None)) => false,
        NetworkCall::SendMsg(MessageTarget::NoMessage) => true,
        NetworkCall::SendMsg(MessageTarget::Unreadable) => false,
        NetworkCall::SendMsg(MessageTarget::Connected) => true,
        NetworkCall::SendMsg(MessageTarget::Address(Some(addr))) => may_connect(allowed, addr),
        NetworkCall::SendMsg(MessageTarget::Address(None)) => false,
        NetworkCall::Other => true,
    }
}

/// The address that a call goes to, where it names one.
pub open spec fn named_address(call: NetworkCall) -> Option<SocketAddress> {
    match call {
        NetworkCall::Connect(addr) => addr,
        NetworkCall::SendTo(SendTarget::Address(addr)) => addr,
        NetworkCall::SendMsg(MessageTarget::Address(addr)) => addr,
        _ => None,
    }
}

/// Nothing gets out past the allowlist: a permitted call that names an internet address
/// to connect or send to names one on the list or one of this machine, and such a call is
/// permitted.
pub proof fn lemma_no_way_past_allowlist(allowed: Set<SocketAddress>, call: NetworkCall)
    requires
        named_address(call) is Some,
    ensures
        call_permitted(allowed, call) == may_connect(allowed, named_address(call)->0),
{
}

/// Whether `bind` is permitted: only to addresses of this machine.
pub fn allow_bind_syscall(addr: Option<SocketAddress>) -> (r: bool)
    ensures
        forall|allowed: Set<SocketAddress>| r == call_permitted(allowed, NetworkCall::Bind(addr)),
{
    match addr {
        Some(addr) => network_addr_is_loopback(addr),
        None => true,
    }
}

/// Whether `connect` is permitted.
pub fn allow_destination_syscall(policy: &LinuxNetworkPolicy, addr: Option<SocketAddress>) -> (r:
    bool)
    ensures
        r == call_permitted(policy@, NetworkCall::Connect(addr)),
{
    match addr {
        Some(addr) => network_addr_allowed(policy, addr),
        None => true,
    }
}

/// Whether `sendto` is permitted.
pub fn allow_sendto_syscall(policy: &LinuxNetworkPolicy, target: SendTarget) -> (r: bool)
    ensures
        r == call_permitted(policy@, NetworkCall::SendTo(target)),
{
    match target {
        SendTarget::Connected => true,
        SendTarget::Address(Some(addr)) => network_addr_allowed(policy, addr),
        SendTarget::Address(None) => false,
    }
}

/// Whether `sendmsg` is permitted.
pub fn allow_sendmsg_syscall(policy: &LinuxNetworkPolicy, target: MessageTarget) -> (r: bool)
    ensures
        r == call_permitted(policy@, NetworkCall::SendMsg(target)),
{
    match target {
        MessageTarget::NoMessage => true,
        MessageTarget::Unreadable => false,
        MessageTarget::Connected => true,
        MessageTarget::Address(Some(addr)) => network_addr_allowed(policy, addr),
        MessageTarget::Address(None) => false,
    }
}

/// What the supervisor decides on a call.
pub fn decide_call(policy: &LinuxNetworkPolicy, call: NetworkCall) -> (r: bool)
    ensures
        r == call_permitted(policy@, call),
{
    match call {
        NetworkCall::Socket { domain, ty } => socket_params_allowed(domain, ty),
        NetworkCall::Bind(addr) => allow_bind_syscall(addr),
        NetworkCall::Connect(addr) => allow_destination_syscall(policy, addr),
        NetworkCall::SendTo(target) => allow_sendto_syscall(policy, target),
        NetworkCall::SendMsg(target) => allow_sendmsg_syscall(policy, target),
        NetworkCall::Other => true,
    }
}

/// Which of the supervised calls a number stands for.
#[derive(Debug, Clone, Copy, PartialEq, Eq, Structural)]
pub enum CallKind {
    Socket,
    Bind,
    Connect,
    SendTo,
    SendMsg,
    Other,
}

/// Which of the supervised calls the number `nr` stands for.
pub fn call_kind(numbers: &SyscallNumbers, nr: u32) -> (kind: CallKind)
    ensures
        kind == if nr == numbers.socket {
            CallKind::Socket
        } else if nr == numbers.bind {
            CallKind::Bind
        } else if nr == numbers.connect {
            CallKind::Connect
        } else if nr == numbers.sendto {
            CallKind::SendTo
        } else if nr == numbers.sendmsg {
            CallKind::SendMsg
        } else {
            CallKind::Other
        },
{
    if nr == numbers.socket {
        CallKind::Socket
    } else if nr == numbers.bind {
        CallKind::Bind
    } else if nr == numbers.connect {
        CallKind::Connect
    } else if nr == numbers.sendto {
        CallKind::SendTo
    } else if nr == numbers.sendmsg {
        CallKind::SendMsg
    } else {
        CallKind::Other
    }
}

/// The flag of an answer that lets the call go on.
pub const NOTIF_FLAG_CONTINUE: u32 = 1;

/// The number that answers a call that the policy does not permit.
pub const EACCES: i32 = 13;

/// The answer to a supervised call.
#[derive(Debug, Clone, Copy, PartialEq, Eq, Structural)]
pub struct NotifResponse {
    pub id: u64,
    pub val: i64,
    pub error: i32,
    pub flags: u32,
}

/// The answer to the call `id`: a permitted one goes on; any other is not carried out, and is
/// answered with the number `EACCES`.
pub open spec fn call_answer(id: u64, permitted: bool) -> NotifResponse {
    NotifResponse {
        id,
        val: 0,
        error: if permitted {
            0
        } else {
            EACCES
        },
        flags: if permitted {
            NOTIF_FLAG_CONTINUE
        } else {
            0
        },
    }
}

/// The answer of the supervisor to the call `id`.
pub fn answer_call(policy: &LinuxNetworkPolicy, id: u64, call: NetworkCall) -> (answer:
    NotifResponse)
    ensures
        answer == call_answer(id, call_permitted(policy@, call)),
{
    let mut answer = NotifResponse { id, val: 0, error: 0, flags: 0 };
    if decide_call(policy, call) {
        answer.flags = NOTIF_FLAG_CONTINUE;
    } else {
        answer.error = EACCES;
    }
    answer
}

// ---------------------------------------------------------------------------
// The supervisor's loop

/// What the supervisor does next.
#[derive(Debug, Clone, Copy, PartialEq, Eq, Structural)]
pub enum SupervisorAction {
    /// Wait for a call.
    Poll,
    /// Fetch the call that is waiting.
    Receive,
    /// Answer the call that was fetched.
    Respond(NotifResponse),
    /// Close the listener and end.
    Close,
}

/// What the last action came to.
#[derive(Debug, Clone, Copy, PartialEq, Eq, Structural)]
pub enum SupervisorEvent {
    /// Waiting failed.
    PollFailed { interrupted: bool },
    /// No call came.
    PollQuiet,
    /// Something came that is no call.
    PollOther,
    /// A call is waiting.
    PollReady,
    /// Fetching failed.
    ReceiveFailed { interrupted: bool },
    /// The call that was fetched.
    Received { id: u64, call: NetworkCall },
    /// Answering failed.
    SendFailed { interrupted: bool },
    /// The answer was given.
    Sent,
}

/// The next action. Whoever asked the supervisor to stop is heard before each wait.
/// Whatever was interrupted is tried again from the wait on; any other failure ends the
/// loop.
pub open spec fn next_action(
    allowed: Set<SocketAddress>,
    event: SupervisorEvent,
    stop: bool,
) -> SupervisorAction {
    let wait = if stop {
        SupervisorAction::Close
    } else {
        SupervisorAction::Poll
    };
    match event {
        SupervisorEvent::PollFailed { interrupted } => if interrupted {
            wait
        } else {
            SupervisorAction::Close
        },
        SupervisorEvent::PollQuiet => wait,
        SupervisorEvent::PollOther => wait,
        SupervisorEvent::PollReady => SupervisorAction::Receive,
        SupervisorEvent::ReceiveFailed { interrupted } => if interrupted {
            wait
        } else {
            SupervisorAction::Close
        },
        SupervisorEvent::Received { id, call } => SupervisorAction::Respond(
            call_answer(id, call_permitted(allowed, call)),
        ),
        SupervisorEvent::SendFailed { interrupted } => if interrupted {
            wait
        } else {
            SupervisorAction::Close
        },
        SupervisorEvent::Sent => wait,
    }
}

fn wait_or_close(stop: bool) -> (action: SupervisorAction)
    ensures
        action == if stop {
            SupervisorAction::Close
        } else {
            SupervisorAction::Poll
        },
{
    if stop {
        SupervisorAction::Close
    } else {
        SupervisorAction::Poll
    }
}

/// The first action of the supervisor.
pub fn start_supervisor(stop: bool) -> (action: SupervisorAction)
    ensures
        action == if stop {
            SupervisorAction::Close
        } else {
            SupervisorAction::Poll
        },
{
    wait_or_close(stop)
}

/// The action after `event`.
pub fn supervise_network_allowlist(policy: &LinuxNetworkPolicy, event: SupervisorEvent, stop: bool)
    -> (action: SupervisorAction)
    ensures
        action == next_action(policy@, event, stop),
{
    match event {
        SupervisorEvent::PollFailed { interrupted } => if interrupted {
            wait_or_close(stop)
        } else {
            SupervisorAction::Close
        },
        SupervisorEvent::PollQuiet => wait_or_close(stop),
        SupervisorEvent::PollOther => wait_or_close(stop),
        SupervisorEvent::PollReady => SupervisorAction::Receive,
        SupervisorEvent::ReceiveFailed { interrupted } => if interrupted {
            wait_or_close(stop)
        } else {
            SupervisorAction::Close
        },
        SupervisorEvent::Received { id, call } => SupervisorAction::Respond(
            answer_call(policy, id, call),
        ),
        SupervisorEvent::SendFailed { interrupted } => if interrupted {
            wait_or_close(stop)
        } else {
            SupervisorAction::Close
        },
        SupervisorEvent::Sent => wait_or_close(stop),
    }
}

/// Every call that is fetched is answered, once and with its own number, and the answer
/// lets exactly the permitted calls go on.
pub proof fn lemma_every_call_answered(
    allowed: Set<SocketAddress>,
    event: SupervisorEvent,
    stop: bool,
)
    ensures
        next_action(allowed, event, stop) is Respond <==> event is Received,
        event matches SupervisorEvent::Received { id, call } ==> {
            let answer = next_action(allowed, event, stop)->Respond_0;
            &&& answer.id == id
            &&& (answer.flags == NOTIF_FLAG_CONTINUE) == call_permitted(allowed, call)
            &&& (answer.error != 0) == !call_permitted(allowed, call)
        },
{
}

} // verus!
