//! The handshake: three packets by which both ends check, before any data
//! flows, that their interfaces sit on one subnet under distinct addresses.
//!
//! | packet | from      | bytes | fields                                          |
//! |--------|-----------|-------|-------------------------------------------------|
//! | hello  | initiator | 16    | magic(4), id(4)=1, address(4), netmask(4)       |
//! | reply  | responder | 8     | id(4)=2, address(4)                             |
//! | ack    | initiator | 8     | id(4)=3, status(4)=0                            |
//!
//! All numbers travel in network byte order. Each side is a function of the
//! bytes it has heard so far: it gives everything that side has to say by
//! then, and either how many bytes it waits for or the peer it has accepted.
use crate::parsing::IpAddress;
use crate::tunif::{get_netmask, lemma_netmask_injective, spec_netmask};
use crate::wire::{be32, be32_value, get_u32, lemma_be32_round_trip, put_u32};
use vstd::prelude::*;

verus! {

/// The number that opens the first packet.
pub const MAGIC: u32 = 0x12345678;

/// Packet id of the initiator's first packet.
pub const HELLO_ID: u32 = 1;

/// Packet id of the responder's answer.
pub const REPLY_ID: u32 = 2;

/// Packet id of the initiator's confirmation.
pub const ACK_ID: u32 = 3;

/// The status by which the initiator accepts.
pub const STATUS_OK: u32 = 0;

/// Bytes of the initiator's first packet.
pub const HELLO_LEN: usize = 16;

/// Bytes of the responder's answer.
pub const REPLY_LEN: usize = 8;

/// Bytes of the initiator's confirmation.
pub const ACK_LEN: usize = 8;

/// Why a handshake failed. Each cause has a variant of its own, so that a
/// wrong configuration can be told from a corrupted stream.
#[derive(Debug, Clone, Copy, PartialEq, Eq, Structural)]
pub enum HandshakeError {
    /// The local interface address is not an IPv4 address.
    Ipv6Unsupported,
    /// The local prefix length is above 32.
    BadPrefix(u8),
    /// A packet does not have the length of its kind.
    BadLength { length: usize, required: usize },
    /// The first packet does not open with `MAGIC`.
    BadMagic { found: u32 },
    /// A packet carries another id than the one that is due.
    BadPacketId { found: u32, expected: u32 },
    /// The initiator's netmask is not the responder's.
    NetmaskMismatch { found: u32, expected: u32 },
    /// The two addresses are equal or lie on different subnets.
    AddressMismatch { local: u32, remote: u32 },
    /// The initiator's confirmation carries a status other than `STATUS_OK`.
    BadStatus { found: u32 },
}

/// Where one side of the handshake stands.
#[derive(Debug, Clone, Copy, PartialEq, Eq, Structural)]
pub enum Progress {
    /// This side waits for exactly so many more bytes.
    NeedMore(usize),
    /// This side is done and has accepted the peer at this address.
    Done { peer: u32 },
}

/// The initiator's first packet.
pub open spec fn hello_packet(addr: u32, netmask: u32) -> Seq<u8> {
    be32(MAGIC) + be32(HELLO_ID) + be32(addr) + be32(netmask)
}

/// The responder's answer.
pub open spec fn reply_packet(addr: u32) -> Seq<u8> {
    be32(REPLY_ID) + be32(addr)
}

/// The initiator's confirmation.
pub open spec fn ack_packet() -> Seq<u8> {
    be32(ACK_ID) + be32(STATUS_OK)
}

/// The addressing rule: both addresses on one subnet, and not the same host.
pub open spec fn compatible(local: u32, remote: u32, netmask: u32) -> bool {
    (local & netmask) == (remote & netmask) && local != remote
}

/// What the responder makes of the initiator's first packet: the
/// initiator's address, or the first check that fails. The magic number is
/// judged first, then the id, the netmask and the addresses.
pub open spec fn spec_parse_first_packet(packet: Seq<u8>, netmask: u32, local_addr: u32) -> Result<
    u32,
    HandshakeError,
> {
    let magic = be32_value(packet.subrange(0, 4));
    let id = be32_value(packet.subrange(4, 8));
    let remote_addr = be32_value(packet.subrange(8, 12));
    let remote_netmask = be32_value(packet.subrange(12, 16));
    if packet.len() != HELLO_LEN {
        Err(HandshakeError::BadLength { length: packet.len() as usize, required: HELLO_LEN })
    } else if magic != MAGIC {
        Err(HandshakeError::BadMagic { found: magic })
    } else if id != HELLO_ID {
        Err(HandshakeError::BadPacketId { found: id, expected: HELLO_ID })
    } else if remote_netmask != netmask {
        Err(HandshakeError::NetmaskMismatch { found: remote_netmask, expected: netmask })
    } else if !compatible(local_addr, remote_addr, netmask) {
        Err(HandshakeError::AddressMismatch { local: local_addr, remote: remote_addr })
    } else {
        Ok(remote_addr)
    }
}

/// What the initiator makes of the responder's answer: the responder's
/// address, or the first check that fails.
pub open spec fn spec_check_server_response(
    packet: Seq<u8>,
    netmask: u32,
    local_addr: u32,
) -> Result<u32, HandshakeError> {
    let id = be32_value(packet.subrange(0, 4));
    let remote_addr = be32_value(packet.subrange(4, 8));
    if packet.len() != REPLY_LEN {
        Err(HandshakeError::BadLength { length: packet.len() as usize, required: REPLY_LEN })
    } else if id != REPLY_ID {
        Err(HandshakeError::BadPacketId { found: id, expected: REPLY_ID })
    } else if !compatible(local_addr, remote_addr, netmask) {
        Err(HandshakeError::AddressMismatch { local: local_addr, remote: remote_addr })
    } else {
        Ok(remote_addr)
    }
}

/// What the responder makes of the initiator's confirmation.
pub open spec fn spec_check_client_response(packet: Seq<u8>) -> Result<(), HandshakeError> {
    let id = be32_value(packet.subrange(0, 4));
    let status = be32_value(packet.subrange(4, 8));
    if packet.len() != ACK_LEN {
        Err(HandshakeError::BadLength { length: packet.len() as usize, required: ACK_LEN })
    } else if id != ACK_ID {
        Err(HandshakeError::BadPacketId { found: id, expected: ACK_ID })
    } else if status != STATUS_OK {
        Err(HandshakeError::BadStatus { found: status })
    } else {
        Ok(())
    }
}

/// The local address and netmask as the packets carry them, or why the
/// local configuration cannot take part in a handshake.
pub open spec fn spec_local_setup(ifaddr: IpAddress, prefix: u8) -> Result<
    (u32, u32),
    HandshakeError,
> {
    match ifaddr {
        IpAddress::V6(_) => Err(HandshakeError::Ipv6Unsupported),
        IpAddress::V4(octets) => if prefix > 32 {
            Err(HandshakeError::BadPrefix(prefix))
        } else {
            Ok((be32_value(octets@), spec_netmask(prefix)))
        },
    }
}

/// The initiator's side, as a function of what it has heard: it opens with
/// the hello packet and waits for the answer; once the answer is there and
/// passes, it adds the confirmation and is done.
pub open spec fn spec_client_handshake(heard: Seq<u8>, ifaddr: IpAddress, prefix: u8) -> Result<
    (Seq<u8>, Progress),
    HandshakeError,
> {
    match spec_local_setup(ifaddr, prefix) {
        Err(e) => Err(e),
        Ok((addr, netmask)) => if heard.len() < REPLY_LEN {
            Ok((hello_packet(addr, netmask), Progress::NeedMore((REPLY_LEN - heard.len()) as usize)))
        } else {
            match spec_check_server_response(heard.subrange(0, REPLY_LEN as int), netmask, addr) {
                Err(e) => Err(e),
                Ok(peer) => Ok((hello_packet(addr, netmask) + ack_packet(), Progress::Done { peer })),
            }
        },
    }
}

/// The responder's side, as a function of what it has heard: it waits for
/// the hello packet; once that is there and passes, it answers and waits
/// for the confirmation; once that is there and passes, it is done.
pub open spec fn spec_server_handshake(heard: Seq<u8>, ifaddr: IpAddress, prefix: u8) -> Result<
    (Seq<u8>, Progress),
    HandshakeError,
> {
    match spec_local_setup(ifaddr, prefix) {
        Err(e) => Err(e),
        Ok((addr, netmask)) => if heard.len() < HELLO_LEN {
            Ok((Seq::<u8>::empty(), Progress::NeedMore((HELLO_LEN - heard.len()) as usize)))
        } else {
            match spec_parse_first_packet(heard.subrange(0, HELLO_LEN as int), netmask, addr) {
                Err(e) => Err(e),
                Ok(peer) => if heard.len() < HELLO_LEN + ACK_LEN {
                    Ok(
                        (
                            reply_packet(addr),
                            Progress::NeedMore((HELLO_LEN + ACK_LEN - heard.len()) as usize),
                        ),
                    )
                } else {
                    match spec_check_client_response(
                        heard.subrange(HELLO_LEN as int, HELLO_LEN + ACK_LEN),
                    ) {
                        Err(e) => Err(e),
                        Ok(_) => Ok((reply_packet(addr), Progress::Done { peer })),
                    }
                },
            }
        },
    }
}

/// Whether an exec result of a handshake side is the one its model gives.
pub open spec fn handshake_as(
    r: Result<(Vec<u8>, Progress), HandshakeError>,
    model: Result<(Seq<u8>, Progress), HandshakeError>,
) -> bool {
    match r {
        Ok((said, progress)) => model == Ok::<(Seq<u8>, Progress), HandshakeError>(
            (said@, progress),
        ),
        Err(e) => model == Err::<(Seq<u8>, Progress), HandshakeError>(e),
    }
}

/// The number that an IPv4 address is on the wire.
pub fn address_value(octets: &[u8; 4]) -> (addr: u32)
    ensures
        addr == be32_value(octets@),
{
    let b0: u32 = octets[0] as u32;
    let b1: u32 = octets[1] as u32;
    let b2: u32 = octets[2] as u32;
    let b3: u32 = octets[3] as u32;
    b0 * 0x100_0000 + b1 * 0x1_0000 + b2 * 0x100 + b3
}

/// Works out the local address and netmask as the packets carry them.
pub fn local_setup(ifaddr: &IpAddress, prefix: u8) -> (r: Result<(u32, u32), HandshakeError>)
    ensures
        r == spec_local_setup(*ifaddr, prefix),
{
    match ifaddr {
        IpAddress::V6(_) => Err(HandshakeError::Ipv6Unsupported),
        IpAddress::V4(octets) => {
            if prefix > 32 {
                Err(HandshakeError::BadPrefix(prefix))
            } else {
                Ok((address_value(octets), get_netmask(prefix)))
            }
        },
    }
}

/// Appends the initiator's first packet to `ostream`.
pub fn send_initial_packet(ostream: &mut Vec<u8>, netmask: u32, local_addr: u32)
    ensures
        final(ostream)@ == old(ostream)@ + hello_packet(local_addr, netmask),
{
    put_u32(ostream, MAGIC);
    put_u32(ostream, HELLO_ID);
    put_u32(ostream, local_addr);
    put_u32(ostream, netmask);
    assert(ostream@ =~= old(ostream)@ + hello_packet(local_addr, netmask));
}

/// Appends the responder's answer to `ostream`.
pub fn send_server_ifaddr(ostream: &mut Vec<u8>, local_addr: u32)
    ensures
        final(ostream)@ == old(ostream)@ + reply_packet(local_addr),
{
    put_u32(ostream, REPLY_ID);
    put_u32(ostream, local_addr);
    assert(ostream@ =~= old(ostream)@ + reply_packet(local_addr));
}

/// Appends the initiator's confirmation to `ostream`.
pub fn send_ok_to_server(ostream: &mut Vec<u8>)
    ensures
        final(ostream)@ == old(ostream)@ + ack_packet(),
{
    put_u32(ostream, ACK_ID);
    put_u32(ostream, STATUS_OK);
    assert(ostream@ =~= old(ostream)@ + ack_packet());
}

/// The responder's check of the initiator's first packet. Gives the
/// initiator's address where the packet passes.
pub fn parse_first_packet(packet: &[u8], netmask: u32, local_addr: u32) -> (r: Result<
    u32,
    HandshakeError,
>)
    ensures
        r == spec_parse_first_packet(packet@, netmask, local_addr),
{
    if packet.len() != HELLO_LEN {
        return Err(HandshakeError::BadLength { length: packet.len(), required: HELLO_LEN });
    }
    let found_magic: u32 = get_u32(packet, 0);
    if MAGIC != found_magic {
        return Err(HandshakeError::BadMagic { found: found_magic });
    }
    let pktid: u32 = get_u32(packet, 4);
    if HELLO_ID != pktid {
        return Err(HandshakeError::BadPacketId { found: pktid, expected: HELLO_ID });
    }
    let remote_addr: u32 = get_u32(packet, 8);
    let remote_netmask: u32 = get_u32(packet, 12);
    if netmask != remote_netmask {
        return Err(HandshakeError::NetmaskMismatch { found: remote_netmask, expected: netmask });
    }
    if !((local_addr & netmask) == (remote_addr & netmask) && local_addr != remote_addr) {
        return Err(HandshakeError::AddressMismatch { local: local_addr, remote: remote_addr });
    }
    Ok(remote_addr)
}

/// The initiator's check of the responder's answer. Gives the responder's
/// address where the packet passes.
pub fn check_server_response(packet: &[u8], netmask: u32, local_addr: u32) -> (r: Result<
    u32,
    HandshakeError,
>)
    ensures
        r == spec_check_server_response(packet@, netmask, local_addr),
{
    if packet.len() != REPLY_LEN {
        return Err(HandshakeError::BadLength { length: packet.len(), required: REPLY_LEN });
    }
    let pktid: u32 = get_u32(packet, 0);
    if pktid != REPLY_ID {
        return Err(HandshakeError::BadPacketId { found: pktid, expected: REPLY_ID });
    }
    let remote_addr: u32 = get_u32(packet, 4);
    if !((local_addr & netmask) == (remote_addr & netmask) && local_addr != remote_addr) {
        return Err(HandshakeError::AddressMismatch { local: local_addr, remote: remote_addr });
    }
    Ok(remote_addr)
}

/// The responder's check of the initiator's confirmation.
pub fn check_client_response(packet: &[u8]) -> (r: Result<(), HandshakeError>)
    ensures
        r == spec_check_client_response(packet@),
{
    if packet.len() != ACK_LEN {
        return Err(HandshakeError::BadLength { length: packet.len(), required: ACK_LEN });
    }
    let pktid: u32 = get_u32(packet, 0);
    if ACK_ID != pktid {
        return Err(HandshakeError::BadPacketId { found: pktid, expected: ACK_ID });
    }
    let status: u32 = get_u32(packet, 4);
    if status != STATUS_OK {
        return Err(HandshakeError::BadStatus { found: status });
    }
    Ok(())
}

/// The responder's side of the handshake.
///
/// `heard` holds what the initiator has sent so far, from the first byte
/// on. The result holds all that the responder has to say by then, and
/// either the number of bytes to wait for or the initiator's address.
pub fn handler_server_handshake(heard: &[u8], ifaddr: &IpAddress, netmask: u8) -> (r: Result<
    (Vec<u8>, Progress),
    HandshakeError,
>)
    ensures
        handshake_as(r, spec_server_handshake(heard@, *ifaddr, netmask)),
{
    let (local_addr, netmask) = match local_setup(ifaddr, netmask) {
        Ok(setup) => setup,
        Err(e) => {
            return Err(e);
        },
    };
    let mut said: Vec<u8> = Vec::new();
    if heard.len() < HELLO_LEN {
        return Ok((said, Progress::NeedMore(HELLO_LEN - heard.len())));
    }
    let peer: u32 = match parse_first_packet(&heard[0..HELLO_LEN], netmask, local_addr) {
        Ok(peer) => peer,
        Err(e) => {
            return Err(e);
        },
    };
    send_server_ifaddr(&mut said, local_addr);
    assert(said@ =~= reply_packet(local_addr));
    if heard.len() < HELLO_LEN + ACK_LEN {
        return Ok((said, Progress::NeedMore(HELLO_LEN + ACK_LEN - heard.len())));
    }
    match check_client_response(&heard[HELLO_LEN..HELLO_LEN + ACK_LEN]) {
        Ok(_) => Ok((said, Progress::Done { peer })),
        Err(e) => Err(e),
    }
}

/// The initiator's side of the handshake.
///
/// `heard` holds what the responder has sent so far, from the first byte
/// on. The result holds all that the initiator has to say by then, and
/// either the number of bytes to wait for or the responder's address.
pub fn handler_client_handshake(heard: &[u8], ifaddr: &IpAddress, netmask: u8) -> (r: Result<
    (Vec<u8>, Progress),
    HandshakeError,
>)
    ensures
        handshake_as(r, spec_client_handshake(heard@, *ifaddr, netmask)),
{
    let (local_addr, netmask) = match local_setup(ifaddr, netmask) {
        Ok(setup) => setup,
        Err(e) => {
            return Err(e);
        },
    };
    let mut said: Vec<u8> = Vec::new();
    send_initial_packet(&mut said, netmask, local_addr);
    assert(said@ =~= hello_packet(local_addr, netmask));
    if heard.len() < REPLY_LEN {
        return Ok((said, Progress::NeedMore(REPLY_LEN - heard.len())));
    }
    let peer: u32 = match check_server_response(&heard[0..REPLY_LEN], netmask, local_addr) {
        Ok(peer) => peer,
        Err(e) => {
            return Err(e);
        },
    };
    send_ok_to_server(&mut said);
    Ok((said, Progress::Done { peer }))
}

/// The three packets have the lengths of their kinds, and each field reads
/// back as it was written.
pub proof fn lemma_packet_layout(addr: u32, netmask: u32)
    ensures
        hello_packet(addr, netmask).len() == HELLO_LEN,
        reply_packet(addr).len() == REPLY_LEN,
        ack_packet().len() == ACK_LEN,
        hello_packet(addr, netmask).subrange(0, 4) == be32(MAGIC),
        hello_packet(addr, netmask).subrange(4, 8) == be32(HELLO_ID),
        hello_packet(addr, netmask).subrange(8, 12) == be32(addr),
        hello_packet(addr, netmask).subrange(12, 16) == be32(netmask),
        reply_packet(addr).subrange(0, 4) == be32(REPLY_ID),
        reply_packet(addr).subrange(4, 8) == be32(addr),
        ack_packet().subrange(0, 4) == be32(ACK_ID),
        ack_packet().subrange(4, 8) == be32(STATUS_OK),
{
    let hello = hello_packet(addr, netmask);
    assert(hello.subrange(0, 4) =~= be32(MAGIC));
    assert(hello.subrange(4, 8) =~= be32(HELLO_ID));
    assert(hello.subrange(8, 12) =~= be32(addr));
    assert(hello.subrange(12, 16) =~= be32(netmask));
    assert(reply_packet(addr).subrange(0, 4) =~= be32(REPLY_ID));
    assert(reply_packet(addr).subrange(4, 8) =~= be32(addr));
    assert(ack_packet().subrange(0, 4) =~= be32(ACK_ID));
    assert(ack_packet().subrange(4, 8) =~= be32(STATUS_OK));
}

/// The responder's check of a well-formed first packet comes down to the
/// netmask and the addresses.
pub proof fn lemma_parse_hello(remote_addr: u32, remote_netmask: u32, netmask: u32, local_addr: u32)
    ensures
        spec_parse_first_packet(hello_packet(remote_addr, remote_netmask), netmask, local_addr)
            == if remote_netmask != netmask {
            Err::<u32, HandshakeError>(
                HandshakeError::NetmaskMismatch { found: remote_netmask, expected: netmask },
            )
        } else if !compatible(local_addr, remote_addr, netmask) {
            Err::<u32, HandshakeError>(
                HandshakeError::AddressMismatch { local: local_addr, remote: remote_addr },
            )
        } else {
            Ok::<u32, HandshakeError>(remote_addr)
        },
{
    lemma_packet_layout(remote_addr, remote_netmask);
    lemma_be32_round_trip(MAGIC);
    lemma_be32_round_trip(HELLO_ID);
    lemma_be32_round_trip(remote_addr);
    lemma_be32_round_trip(remote_netmask);
}

/// The initiator's check of a well-formed answer comes down to the
/// addresses.
pub proof fn lemma_check_reply(remote_addr: u32, netmask: u32, local_addr: u32)
    ensures
        spec_check_server_response(reply_packet(remote_addr), netmask, local_addr) == if compatible(
            local_addr,
            remote_addr,
            netmask,
        ) {
            Ok::<u32, HandshakeError>(remote_addr)
        } else {
            Err::<u32, HandshakeError>(
                HandshakeError::AddressMismatch { local: local_addr, remote: remote_addr },
            )
        },
        spec_check_client_response(ack_packet()) == Ok::<(), HandshakeError>(()),
{
    lemma_packet_layout(remote_addr, netmask);
    lemma_be32_round_trip(REPLY_ID);
    lemma_be32_round_trip(remote_addr);
    lemma_be32_round_trip(ACK_ID);
    lemma_be32_round_trip(STATUS_OK);
}

/// Two ends with distinct addresses on one subnet, under one prefix length,
/// complete the handshake against each other: each side says exactly what
/// the other one waits for, neither fails on the way, the responder ends
/// with the initiator's address and the initiator with the responder's.
pub proof fn lemma_handshake_round_trip(client: [u8; 4], server: [u8; 4], prefix: u8)
    requires
        prefix <= 32,
        compatible(be32_value(client@), be32_value(server@), spec_netmask(prefix)),
    ensures
        ({
            let c = IpAddress::V4(client);
            let s = IpAddress::V4(server);
            let hello = hello_packet(be32_value(client@), spec_netmask(prefix));
            let reply = reply_packet(be32_value(server@));
            let ack = ack_packet();
            &&& spec_client_handshake(Seq::<u8>::empty(), c, prefix) == Ok::<
                (Seq<u8>, Progress),
                HandshakeError,
            >((hello, Progress::NeedMore(REPLY_LEN)))
            &&& spec_server_handshake(Seq::<u8>::empty(), s, prefix) == Ok::<
                (Seq<u8>, Progress),
                HandshakeError,
            >((Seq::<u8>::empty(), Progress::NeedMore(HELLO_LEN)))
            &&& spec_server_handshake(hello, s, prefix) == Ok::<
                (Seq<u8>, Progress),
                HandshakeError,
            >((reply, Progress::NeedMore(ACK_LEN)))
            &&& spec_client_handshake(reply, c, prefix) == Ok::<
                (Seq<u8>, Progress),
                HandshakeError,
            >((hello + ack, Progress::Done { peer: be32_value(server@) }))
            &&& spec_server_handshake(hello + ack, s, prefix) == Ok::<
                (Seq<u8>, Progress),
                HandshakeError,
            >((reply, Progress::Done { peer: be32_value(client@) }))
        }),
{
    let ca = be32_value(client@);
    let sa = be32_value(server@);
    let mask = spec_netmask(prefix);
    let hello = hello_packet(ca, mask);
    let reply = reply_packet(sa);
    let ack = ack_packet();
    lemma_packet_layout(ca, mask);
    lemma_packet_layout(sa, mask);
    lemma_parse_hello(ca, mask, mask, sa);
    lemma_check_reply(sa, mask, ca);
    assert(hello.subrange(0, HELLO_LEN as int) =~= hello);
    assert(reply.subrange(0, REPLY_LEN as int) =~= reply);
    assert((hello + ack).subrange(0, HELLO_LEN as int) =~= hello);
    assert((hello + ack).subrange(HELLO_LEN as int, HELLO_LEN + ACK_LEN) =~= ack);
}

/// Two ends configured with one and the same address never get through:
/// the responder refuses the hello packet, and the initiator refuses the
/// answer, each for the addresses.
pub proof fn lemma_same_address_rejected(addr: [u8; 4], prefix: u8)
    requires
        prefix <= 32,
    ensures
        ({
            let a = be32_value(addr@);
            let hello = hello_packet(a, spec_netmask(prefix));
            let refused = Err::<(Seq<u8>, Progress), HandshakeError>(
                HandshakeError::AddressMismatch { local: a, remote: a },
            );
            &&& spec_server_handshake(hello, IpAddress::V4(addr), prefix) == refused
            &&& spec_client_handshake(reply_packet(a), IpAddress::V4(addr), prefix) == refused
        }),
{
    let a = be32_value(addr@);
    let mask = spec_netmask(prefix);
    let hello = hello_packet(a, mask);
    lemma_packet_layout(a, mask);
    lemma_parse_hello(a, mask, mask, a);
    lemma_check_reply(a, mask, a);
    assert(hello.subrange(0, HELLO_LEN as int) =~= hello);
    assert(reply_packet(a).subrange(0, REPLY_LEN as int) =~= reply_packet(a));
}

/// Two ends configured with different prefix lengths never get through:
/// the responder refuses the hello packet for its netmask, whatever the
/// addresses are.
pub proof fn lemma_prefix_mismatch_rejected(
    client: [u8; 4],
    client_prefix: u8,
    server: [u8; 4],
    server_prefix: u8,
)
    requires
        client_prefix <= 32,
        server_prefix <= 32,
        client_prefix != server_prefix,
    ensures
        spec_server_handshake(
            hello_packet(be32_value(client@), spec_netmask(client_prefix)),
            IpAddress::V4(server),
            server_prefix,
        ) == Err::<(Seq<u8>, Progress), HandshakeError>(
            HandshakeError::NetmaskMismatch {
                found: spec_netmask(client_prefix),
                expected: spec_netmask(server_prefix),
            },
        ),
{
    let ca = be32_value(client@);
    let hello = hello_packet(ca, spec_netmask(client_prefix));
    lemma_netmask_injective(client_prefix, server_prefix);
    lemma_packet_layout(ca, spec_netmask(client_prefix));
    lemma_parse_hello(
        ca,
        spec_netmask(client_prefix),
        spec_netmask(server_prefix),
        be32_value(server@),
    );
    assert(hello.subrange(0, HELLO_LEN as int) =~= hello);
}

/// A first packet that opens with anything but the magic number is refused
/// for that, whatever else it holds: no other field is judged before it.
pub proof fn lemma_bad_magic_rejected_first(heard: Seq<u8>, server: [u8; 4], prefix: u8)
    requires
        prefix <= 32,
        heard.len() >= HELLO_LEN,
        be32_value(heard.subrange(0, 4)) != MAGIC,
    ensures
        spec_server_handshake(heard, IpAddress::V4(server), prefix) == Err::<
            (Seq<u8>, Progress),
            HandshakeError,
        >(HandshakeError::BadMagic { found: be32_value(heard.subrange(0, 4)) }),
{
    assert(heard.subrange(0, HELLO_LEN as int).subrange(0, 4) =~= heard.subrange(0, 4));
}

/// The initiator never goes back on itself. Once it has failed or is done,
/// it stays so however much more it hears; while it waits, bytes short of
/// what it waits for change nothing but the number it waits for; and what
/// it has said is never taken back.
pub proof fn lemma_client_handshake_settled(
    heard: Seq<u8>,
    later: Seq<u8>,
    ifaddr: IpAddress,
    prefix: u8,
)
    requires
        heard.is_prefix_of(later),
    ensures
        match spec_client_handshake(heard, ifaddr, prefix) {
            Ok((said, Progress::NeedMore(n))) => {
                &&& later.len() < heard.len() + n ==> spec_client_handshake(later, ifaddr, prefix)
                    == Ok::<(Seq<u8>, Progress), HandshakeError>(
                    (said, Progress::NeedMore((heard.len() + n - later.len()) as usize)),
                )
                &&& match spec_client_handshake(later, ifaddr, prefix) {
                    Ok((more, _)) => said.is_prefix_of(more),
                    Err(_) => true,
                }
            },
            settled => spec_client_handshake(later, ifaddr, prefix) == settled,
        },
{
    if heard.len() >= REPLY_LEN {
        assert(later.subrange(0, REPLY_LEN as int) =~= heard.subrange(0, REPLY_LEN as int));
    }
    if spec_local_setup(ifaddr, prefix) is Ok {
        let (addr, netmask) = spec_local_setup(ifaddr, prefix).unwrap();
        let hello = hello_packet(addr, netmask);
        assert(hello.is_prefix_of(hello));
        assert(hello.is_prefix_of(hello + ack_packet())) by {
            assert((hello + ack_packet()).subrange(0, hello.len() as int) =~= hello);
        }
    }
}

/// The responder never goes back on itself. Once it has failed or is done,
/// it stays so however much more it hears; while it waits, bytes short of
/// what it waits for change nothing but the number it waits for; and what
/// it has said is never taken back.
pub proof fn lemma_server_handshake_settled(
    heard: Seq<u8>,
    later: Seq<u8>,
    ifaddr: IpAddress,
    prefix: u8,
)
    requires
        heard.is_prefix_of(later),
    ensures
        match spec_server_handshake(heard, ifaddr, prefix) {
            Ok((said, Progress::NeedMore(n))) => {
                &&& later.len() < heard.len() + n ==> spec_server_handshake(later, ifaddr, prefix)
                    == Ok::<(Seq<u8>, Progress), HandshakeError>(
                    (said, Progress::NeedMore((heard.len() + n - later.len()) as usize)),
                )
                &&& match spec_server_handshake(later, ifaddr, prefix) {
                    Ok((more, _)) => said.is_prefix_of(more),
                    Err(_) => true,
                }
            },
            settled => spec_server_handshake(later, ifaddr, prefix) == settled,
        },
{
    if heard.len() >= HELLO_LEN {
        assert(later.subrange(0, HELLO_LEN as int) =~= heard.subrange(0, HELLO_LEN as int));
    }
    if heard.len() >= HELLO_LEN + ACK_LEN {
        assert(later.subrange(HELLO_LEN as int, HELLO_LEN + ACK_LEN) =~= heard.subrange(
            HELLO_LEN as int,
            HELLO_LEN + ACK_LEN,
        ));
    }
    if spec_local_setup(ifaddr, prefix) is Ok {
        let (addr, netmask) = spec_local_setup(ifaddr, prefix).unwrap();
        let reply = reply_packet(addr);
        assert(reply.is_prefix_of(reply));
        assert(Seq::<u8>::empty().is_prefix_of(reply));
        assert(Seq::<u8>::empty().is_prefix_of(Seq::<u8>::empty()));
    }
}

} // verus!
