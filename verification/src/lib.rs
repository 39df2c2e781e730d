//! Two game clients find each other and share a local game.
//!
//! One instance hosts: it hears of a game on its network, opens a room for
//! it and tells its user the code of the room. Another joins as a guest: it
//! is given the code, enters the virtual network of the room and makes the
//! game appear on its own machine. The library holds what is decided on the
//! way: the codes, the advertisement, the configuration of a session and its
//! life, and the state of the application. What is done (sockets, the
//! engine, clocks and threads) is done by whoever uses it.

use vstd::prelude::*;
use vstd::seq_lib::{to_multiset_build, to_multiset_insert};

pub mod code;
pub mod easytier;
pub mod fakeserver;
pub mod net;
pub mod payload;
pub mod plan;
pub mod scanning;
pub mod server;
pub mod text;

use crate::easytier::config::texts;
use crate::easytier::session::EasyTierTunRequest;
use crate::text::push_char;
use crate::net::{localhost_v4, localhost_v6, rank, unspecified_v4, unspecified_v6, IpAddr, Ipv4Addr,
    Ipv6Addr};

verus! {

/// Whether advertisements are sent from an interface with this address:
/// from every one but the loopback and unspecified addresses and the
/// addresses `10.144.144.*` of the virtual network itself.
pub open spec fn viable(ip: IpAddr) -> bool {
    match ip {
        IpAddr::V4(v4) => !(v4.a == 10 && v4.b == 144 && v4.c == 144) && v4 != localhost_v4() && v4
            != unspecified_v4(),
        IpAddr::V6(v6) => v6 != localhost_v6() && v6 != unspecified_v6(),
    }
}

/// The viable addresses among `interfaces`, in order.
pub open spec fn viable_of(interfaces: Seq<IpAddr>) -> Seq<IpAddr>
    decreases interfaces.len(),
{
    if interfaces.len() == 0 {
        Seq::empty()
    } else if viable(interfaces.last()) {
        viable_of(interfaces.drop_last()).push(interfaces.last())
    } else {
        viable_of(interfaces.drop_last())
    }
}

/// The addresses that stand for every interface: the unspecified address of
/// each family.
pub open spec fn wildcards() -> Seq<IpAddr> {
    seq![IpAddr::V4(unspecified_v4()), IpAddr::V6(unspecified_v6())]
}

/// Whether the addresses stand from the last in the order to the first.
pub open spec fn descending(addresses: Seq<IpAddr>) -> bool {
    forall|i: int, j: int|
        0 <= i < j < addresses.len() ==> rank(#[trigger] addresses[i]) >= rank(
            #[trigger] addresses[j],
        )
}

/// Whether `ip` is viable.
fn is_viable(ip: &IpAddr) -> (out: bool)
    ensures
        out == viable(*ip),
{
    match ip {
        IpAddr::V4(v4) => !(v4.a == 10 && v4.b == 144 && v4.c == 144) && !(v4.a == 127 && v4.b == 0
            && v4.c == 0 && v4.d == 1) && !(v4.a == 0 && v4.b == 0 && v4.c == 0 && v4.d == 0),
        IpAddr::V6(v6) => !v6.same(&Ipv6Addr::localhost()) && !v6.same(&Ipv6Addr::unspecified()),
    }
}

/// Puts `ip` into a descending list, at its place.
fn insert_descending(addresses: &mut Vec<IpAddr>, ip: IpAddr)
    requires
        descending(old(addresses)@),
    ensures
        descending(final(addresses)@),
        final(addresses)@.to_multiset() == old(addresses)@.to_multiset().insert(ip),
{
    let mut at: usize = 0;
    while at < addresses.len() && !ip.outranks(&addresses[at])
        invariant
            at <= addresses.len(),
            addresses@ == old(addresses)@,
            forall|k: int| 0 <= k < at ==> rank(#[trigger] addresses@[k]) >= rank(ip),
        decreases addresses.len() - at,
    {
        at += 1;
    }
    proof {
        to_multiset_insert(addresses@, at as int, ip);
        let after = addresses@.insert(at as int, ip);
        assert forall|i: int, j: int| 0 <= i < j < after.len() implies rank(#[trigger] after[i])
            >= rank(#[trigger] after[j]) by {
            let x = if i < at {
                i
            } else {
                i - 1
            };
            let y = if j < at {
                j
            } else {
                j - 1
            };
            if i != at && j != at {
                assert(after[i] == addresses@[x] && after[j] == addresses@[y]);
            } else if i == at {
                assert(after[j] == addresses@[y]);
                assert(rank(addresses@[at as int]) < rank(ip));
            } else {
                assert(after[i] == addresses@[x]);
            }
        }
    }
    addresses.insert(at, ip);
}

/// The addresses at which the broadcaster binds a socket: the viable ones
/// among the addresses of the interfaces, and the unspecified address of
/// each family, from the last in the order of addresses to the first.
pub fn addresses(interfaces: &Vec<IpAddr>) -> (out: Vec<IpAddr>)
    ensures
        descending(out@),
        out@.to_multiset() == (viable_of(interfaces@) + wildcards()).to_multiset(),
{
    let mut out: Vec<IpAddr> = Vec::new();
    let mut i: usize = 0;
    assert(interfaces@.take(0) =~= Seq::<IpAddr>::empty());
    while i < interfaces.len()
        invariant
            i <= interfaces.len(),
            descending(out@),
            out@.to_multiset() == viable_of(interfaces@.take(i as int)).to_multiset(),
        decreases interfaces.len() - i,
    {
        assert(interfaces@.take(i + 1).drop_last() =~= interfaces@.take(i as int));
        assert(interfaces@.take(i + 1).last() == interfaces@[i as int]);
        if is_viable(&interfaces[i]) {
            proof {
                to_multiset_build(viable_of(interfaces@.take(i as int)), interfaces@[i as int]);
            }
            insert_descending(&mut out, interfaces[i]);
        }
        i += 1;
    }
    assert(interfaces@.take(i as int) =~= interfaces@);
    let any_v4 = IpAddr::V4(Ipv4Addr::unspecified());
    let any_v6 = IpAddr::V6(Ipv6Addr::unspecified());
    proof {
        let found = viable_of(interfaces@);
        to_multiset_build(found, any_v4);
        to_multiset_build(found.push(any_v4), any_v6);
        assert(found + wildcards() =~= found.push(any_v4).push(any_v6));
    }
    insert_descending(&mut out, any_v4);
    insert_descending(&mut out, any_v6);
    out
}

/// An octet as the signed byte with the same bits.
pub open spec fn signed(octet: u8) -> i8 {
    if octet < 128 {
        octet as i8
    } else {
        (octet - 256) as i8
    }
}

/// The texts in one string, with a NUL between two neighbours.
pub open spec fn joined(items: Seq<Seq<char>>) -> Seq<char>
    decreases items.len(),
{
    if items.len() == 0 {
        Seq::empty()
    } else if items.len() == 1 {
        items[0]
    } else {
        joined(items.drop_last()) + seq!['\0'] + items.last()
    }
}

/// A request as the platform takes it: the four octets of the address as
/// signed bytes, the network length, and the networks in one string.
#[derive(Debug, PartialEq, Eq)]
pub struct PlatformCall {
    pub octets: [i8; 4],
    pub network_length: i16,
    pub cidrs: String,
}

/// The signed byte with the bits of `octet`.
fn to_signed(octet: u8) -> (out: i8)
    ensures
        out == signed(octet),
{
    if octet < 128 {
        octet as i8
    } else {
        (octet as i16 - 256) as i8
    }
}

/// What the platform is called with for a request.
pub fn platform_call(request: &EasyTierTunRequest) -> (call: PlatformCall)
    ensures
        call.octets@ == seq![
            signed(request.address.a),
            signed(request.address.b),
            signed(request.address.c),
            signed(request.address.d),
        ],
        call.network_length == request.network_length,
        call.cidrs@ == joined(texts(request.cidrs@)),
{
    let octets: [i8; 4] = [
        to_signed(request.address.a),
        to_signed(request.address.b),
        to_signed(request.address.c),
        to_signed(request.address.d),
    ];
    let mut cidrs = String::new();
    let mut i: usize = 0;
    assert(request.cidrs@.take(0) =~= Seq::<String>::empty());
    assert(texts(request.cidrs@.take(0)) =~= Seq::<Seq<char>>::empty());
    while i < request.cidrs.len()
        invariant
            i <= request.cidrs.len(),
            cidrs@ == joined(texts(request.cidrs@.take(i as int))),
        decreases request.cidrs.len() - i,
    {
        let ghost before = texts(request.cidrs@.take(i as int));
        let ghost after = texts(request.cidrs@.take(i + 1));
        assert(request.cidrs@.take(i + 1).drop_last() =~= request.cidrs@.take(i as int));
        assert(after.drop_last() =~= before);
        assert(after.last() == request.cidrs@[i as int]@);
        if i > 0 {
            push_char(&mut cidrs, '\0');
            assert(before.len() > 0);
        } else {
            assert(before.len() == 0);
        }
        cidrs.append(request.cidrs[i].as_str());
        assert(cidrs@ =~= joined(after));
        i += 1;
    }
    assert(request.cidrs@.take(i as int) =~= request.cidrs@);
    PlatformCall { octets, network_length: request.network_length as i16, cidrs }
}

/// Leaves a request for the platform in its slot. A request that was not
/// taken out before is lost: the platform is told of the latest state only.
pub fn on_vpnservice_change(slot: &mut Option<EasyTierTunRequest>, request: EasyTierTunRequest)
    ensures
        *final(slot) == Some(request),
{
    *slot = Some(request);
}

} // verus!
