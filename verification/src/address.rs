use crate::decimal::decimal;
use parity_multiaddr::multihash::Multihash;
use parity_multiaddr::{Multiaddr, Protocol};
use vstd::prelude::*;

verus! {

/// `parity_multiaddr::Multiaddr`, an opaque value; `multiaddr_parts` names what it holds.
#[verifier::external_type_specification]
#[verifier::external_body]
pub struct ExMultiaddr(Multiaddr);

/// `parity_multihash::Multihash`, an opaque value; `multihash_bytes` names what it holds.
#[verifier::external_type_specification]
#[verifier::external_body]
pub struct ExMultihash(Multihash);

/// One component of a network address.
pub enum AddressPart {
    /// An IPv4 address, by its four octets.
    Ip4(u8, u8, u8, u8),
    /// A TCP port.
    Tcp(u16),
    /// The identity of a peer, by the base 58 text of its multihash.
    P2p(Seq<char>),
    /// A component of any other protocol, by its text.
    Other(Seq<char>),
}

/// The components that an address holds, in order.
pub uninterp spec fn multiaddr_parts(address: Multiaddr) -> Seq<AddressPart>;

/// The bytes that a multihash holds.
pub uninterp spec fn multihash_bytes(hash: Multihash) -> Seq<u8>;

/// The text of some bytes in base 58.
pub uninterp spec fn base58(bytes: Seq<u8>) -> Seq<char>;

/// The text of an address component.
pub open spec fn part_text(part: AddressPart) -> Seq<char> {
    match part {
        AddressPart::Ip4(a, b, c, d) => "/ip4/"@ + decimal(a as nat) + "."@ + decimal(b as nat)
            + "."@ + decimal(c as nat) + "."@ + decimal(d as nat),
        AddressPart::Tcp(port) => "/tcp/"@ + decimal(port as nat),
        AddressPart::P2p(identity) => "/p2p/"@ + identity,
        AddressPart::Other(text) => text,
    }
}

/// The text of an address: the texts of its components, one after the other.
pub open spec fn address_text(parts: Seq<AddressPart>) -> Seq<char>
    decreases parts.len(),
{
    if parts.len() == 0 {
        Seq::empty()
    } else {
        address_text(parts.drop_last()) + part_text(parts.last())
    }
}

/// Collects an address from an IPv4 and a TCP component, by
/// `<Multiaddr as FromIterator<Protocol>>::from_iter`: the address holds those two, in that order.
#[verifier::external_body]
fn collect_address(a: u8, b: u8, c: u8, d: u8, port: u16) -> (address: Multiaddr)
    ensures
        multiaddr_parts(address) == seq![AddressPart::Ip4(a, b, c, d), AddressPart::Tcp(port)],
{
    std::iter::once(Protocol::Ip4([a, b, c, d].into())).chain(std::iter::once(Protocol::Tcp(port))).collect()
}

/// Appends the identity of a peer to an address, by `Multiaddr::with`: the components that were
/// there stay, and the peer's comes after them. `base58` names the text that stands for it.
#[verifier::external_body]
pub(crate) fn with_p2p(address: Multiaddr, peer: Multihash) -> (extended: Multiaddr)
    ensures
        multiaddr_parts(extended) == multiaddr_parts(address).push(
            AddressPart::P2p(base58(multihash_bytes(peer))),
        ),
{
    address.with(Protocol::P2p(peer))
}

/// Writes an address as text, by `<Multiaddr as Display>::fmt`: the text of each component in
/// turn.
#[verifier::external_body]
pub(crate) fn address_to_string(address: &Multiaddr) -> (text: String)
    ensures
        text@ == address_text(multiaddr_parts(*address)),
{
    address.to_string()
}

/// The port of the node with the given index: that many ports above `base_port`, where the
/// index counts modulo the number of ports.
pub open spec fn node_port(base_port: u16, index: usize) -> int {
    base_port + index as int % 0x1_0000
}

/// The components of the loopback address with the given TCP port.
pub open spec fn loopback_parts(port: int) -> Seq<AddressPart> {
    seq![AddressPart::Ip4(127, 0, 0, 1), AddressPart::Tcp(port as u16)]
}

/// The components of the address under which `peer` is reached at the loopback port `port`.
pub open spec fn peer_parts(port: int, peer: Multihash) -> Seq<AddressPart> {
    loopback_parts(port).push(AddressPart::P2p(base58(multihash_bytes(peer))))
}

/// The address at which the node with the given index listens: its own port of the loopback
/// interface.
pub fn listen_address(base_port: u16, index: usize) -> (address: Multiaddr)
    requires
        node_port(base_port, index) <= u16::MAX,
    ensures
        multiaddr_parts(address) == loopback_parts(node_port(base_port, index)),
{
    let offset: u16 = (index % 0x1_0000) as u16;
    collect_address(127, 0, 0, 1, base_port + offset)
}

/// The text of a peer's loopback address: its port in decimal and its identity in base 58.
pub proof fn peer_address_text(port: int, peer: Multihash)
    requires
        0 <= port <= u16::MAX,
    ensures
        address_text(peer_parts(port, peer)) == "/ip4/127.0.0.1/tcp/"@ + decimal(port as nat)
            + "/p2p/"@ + base58(multihash_bytes(peer)),
{
    reveal_strlit("/ip4/");
    reveal_strlit(".");
    reveal_strlit("/tcp/");
    reveal_strlit("/p2p/");
    reveal_strlit("/ip4/127.0.0.1/tcp/");
    let parts = peer_parts(port, peer);
    let identity = AddressPart::P2p(base58(multihash_bytes(peer)));
    assert(parts.drop_last() =~= loopback_parts(port));
    assert(parts.last() == identity);
    let ip = seq![AddressPart::Ip4(127, 0, 0, 1)];
    assert(loopback_parts(port).drop_last() =~= ip);
    assert(ip.drop_last() =~= Seq::<AddressPart>::empty());
    reveal_with_fuel(address_text, 4);
    reveal_with_fuel(decimal, 3);
    assert(decimal(127) =~= seq!['1', '2', '7']);
    assert(decimal(0) =~= seq!['0']);
    assert(decimal(1) =~= seq!['1']);
    assert(address_text(parts) =~= "/ip4/127.0.0.1/tcp/"@ + decimal(port as nat) + "/p2p/"@
        + base58(multihash_bytes(peer)));
}

/// The port of a node is as many above the base port as its index says, and an index that is greater
/// by the number of ports has the same one.
pub proof fn ports_count_up(base_port: u16, index: usize)
    ensures
        index < 0x1_0000 ==> node_port(base_port, index) == base_port + index,
        index + 0x1_0000 <= usize::MAX ==> node_port(base_port, (index + 0x1_0000) as usize)
            == node_port(base_port, index),
{
}

/// The address at which a node listens is that of its port at the loopback interface: in components
/// and in text.
pub proof fn nodes_listen_at_loopback(base_port: u16, index: usize)
    requires
        index < 0x1_0000,
        base_port + index <= u16::MAX,
    ensures
        loopback_parts(node_port(base_port, index)) == seq![
            AddressPart::Ip4(127, 0, 0, 1),
            AddressPart::Tcp((base_port + index) as u16),
        ],
        address_text(loopback_parts(node_port(base_port, index))) == "/ip4/127.0.0.1/tcp/"@
            + decimal((base_port + index) as nat),
{
    reveal_strlit("/ip4/");
    reveal_strlit(".");
    reveal_strlit("/tcp/");
    reveal_strlit("/ip4/127.0.0.1/tcp/");
    let port = node_port(base_port, index);
    let ip = seq![AddressPart::Ip4(127, 0, 0, 1)];
    assert(loopback_parts(port).drop_last() =~= ip);
    assert(ip.drop_last() =~= Seq::<AddressPart>::empty());
    reveal_with_fuel(address_text, 3);
    reveal_with_fuel(decimal, 3);
    assert(decimal(127) =~= seq!['1', '2', '7']);
    assert(decimal(0) =~= seq!['0']);
    assert(decimal(1) =~= seq!['1']);
    assert(address_text(loopback_parts(port)) =~= "/ip4/127.0.0.1/tcp/"@ + decimal(
        (base_port + index) as nat,
    ));
}

/// The address of a peer is that at which it listens, followed by its identity.
pub proof fn peers_are_named_last(port: int, peer: Multihash)
    ensures
        peer_parts(port, peer) == seq![
            AddressPart::Ip4(127, 0, 0, 1),
            AddressPart::Tcp(port as u16),
            AddressPart::P2p(base58(multihash_bytes(peer))),
        ],
{
    assert(peer_parts(port, peer) =~= seq![
        AddressPart::Ip4(127, 0, 0, 1),
        AddressPart::Tcp(port as u16),
        AddressPart::P2p(base58(multihash_bytes(peer))),
    ]);
}

} // verus!
