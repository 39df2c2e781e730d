//! What a room asks of a session.
//!
//! Host and guests of a room meet in a virtual network whose name and secret
//! follow from the code of the room. The host takes the first address of that
//! network and lets the port of the game through, and nothing else. A guest
//! takes whatever address it is given and forwards a port of its own machine
//! to the game on the host.

use vstd::prelude::*;
use crate::code::{encode, write_code, Room, LOCAL_PORT};
use crate::easytier::argument::{all_supported, proto_tag, supported, zstd, Argument, PortForward,
    Proto};
use crate::easytier::config::{blank, configuration, configure, forward_entry, Config, ZSTD};
use crate::net::{ipv4_text, IpAddr, Ipv4Addr, SocketAddr};
use crate::text::{ascii_text, decimal, to_text};

verus! {

/// `terracotta-`: what the name of every network begins with.
pub const NETWORK_PREFIX: [u8; 11] = [116, 101, 114, 114, 97, 99, 111, 116, 116, 97, 45];

/// The address of the host in the virtual network: `10.144.144.1`.
pub open spec fn host_address() -> Ipv4Addr {
    Ipv4Addr { a: 10, b: 144, c: 144, d: 1 }
}

/// The name of the network of a room: the prefix and the code.
pub open spec fn network_name(room: u16) -> Seq<char> {
    ascii_text(NETWORK_PREFIX@ + encode(room))
}

/// The secret of the network of a room: the code.
pub open spec fn network_secret(room: u16) -> Seq<char> {
    ascii_text(encode(room))
}

/// The rule by which a guest reaches the game over `proto`: its own
/// `127.0.0.1` at the local port, forwarded to the host at the port of the
/// room.
pub open spec fn guest_rule(room: u16, proto: Proto) -> PortForward {
    PortForward {
        local: SocketAddr { ip: IpAddr::V4(Ipv4Addr { a: 127, b: 0, c: 0, d: 1 }), port: LOCAL_PORT },
        remote: SocketAddr { ip: IpAddr::V4(host_address()), port: room },
        proto,
    }
}

/// What every session of a room is set to: the network of the room, and the
/// way the engine is to work.
pub open spec fn common_config(room: u16) -> Config {
    Config {
        network_name: Some(network_name(room)),
        network_secret: Some(network_secret(room)),
        compression: Some(ZSTD as int),
        multi_thread: true,
        latency_first: true,
        ..blank()
    }
}

/// The settings of the session of a host.
pub open spec fn host_config(room: u16) -> Config {
    Config {
        ipv4: Some(ascii_text(ipv4_text(host_address()))),
        tcp_whitelist: seq![ascii_text(decimal(room as nat))],
        udp_whitelist: seq![ascii_text(decimal(room as nat))],
        ..common_config(room)
    }
}

/// The settings of the session of a guest.
pub open spec fn guest_config(room: u16) -> Config {
    Config {
        dhcp: true,
        forwards: seq![
            forward_entry(guest_rule(room, Proto::TCP)),
            forward_entry(guest_rule(room, Proto::UDP)),
        ],
        ..common_config(room)
    }
}

/// The settings after one more intent at the end of a list.
pub proof fn lemma_configuration_push(args: Seq<Argument>, arg: Argument)
    ensures
        configuration(args.push(arg)) == configure(configuration(args), arg),
{
    assert(args.push(arg).drop_last() =~= args);
}

/// Appends one intent, keeping track of the settings and of the support.
fn append(args: &mut Vec<Argument>, arg: Argument)
    requires
        all_supported(old(args)@),
        supported(arg),
    ensures
        final(args)@ == old(args)@.push(arg),
        all_supported(final(args)@),
        configuration(final(args)@) == configure(configuration(old(args)@), arg),
{
    proof {
        lemma_configuration_push(args@, arg);
    }
    args.push(arg);
}

/// The intents that every session of a room begins with.
fn common_arguments(room: &Room) -> (args: Vec<Argument>)
    ensures
        all_supported(args@),
        configuration(args@) == common_config(room@),
{
    let mut name: Vec<u8> = Vec::new();
    let mut i: usize = 0;
    while i < 11
        invariant
            i <= 11,
            name@ == NETWORK_PREFIX@.take(i as int),
        decreases 11 - i,
    {
        name.push(NETWORK_PREFIX[i]);
        assert(NETWORK_PREFIX@.take(i + 1) =~= NETWORK_PREFIX@.take(i as int).push(
            NETWORK_PREFIX@[i as int],
        ));
        i += 1;
    }
    assert(NETWORK_PREFIX@.take(11) =~= NETWORK_PREFIX@);
    write_code(&mut name, room.port());
    let mut secret: Vec<u8> = Vec::new();
    write_code(&mut secret, room.port());
    assert(secret@ =~= encode(room@));
    let algorithm = String::from_str("zstd");
    proof {
        reveal_strlit("zstd");
        assert(algorithm@ =~= zstd());
    }
    let mut args: Vec<Argument> = Vec::new();
    assert(configuration(args@) == blank());
    append(&mut args, Argument::NetworkName(to_text(&name)));
    append(&mut args, Argument::NetworkSecret(to_text(&secret)));
    append(&mut args, Argument::Compression(algorithm));
    append(&mut args, Argument::MultiThread);
    append(&mut args, Argument::LatencyFirst);
    args
}

/// The intents of the session of the host of `room`.
pub fn host_arguments(room: &Room) -> (args: Vec<Argument>)
    ensures
        all_supported(args@),
        configuration(args@) == host_config(room@),
{
    let mut args = common_arguments(room);
    append(&mut args, Argument::IPv4(Ipv4Addr::new(10, 144, 144, 1)));
    append(&mut args, Argument::TcpWhitelist(room.port()));
    append(&mut args, Argument::UdpWhitelist(room.port()));
    assert(configuration(args@).tcp_whitelist =~= host_config(room@).tcp_whitelist);
    assert(configuration(args@).udp_whitelist =~= host_config(room@).udp_whitelist);
    args
}

/// The intents of the session of a guest of `room`.
pub fn guest_arguments(room: &Room) -> (args: Vec<Argument>)
    ensures
        all_supported(args@),
        configuration(args@) == guest_config(room@),
{
    let local = SocketAddr::new(IpAddr::V4(Ipv4Addr::new(127, 0, 0, 1)), LOCAL_PORT);
    let remote = SocketAddr::new(IpAddr::V4(Ipv4Addr::new(10, 144, 144, 1)), room.port());
    let mut args = common_arguments(room);
    append(&mut args, Argument::DHCP);
    append(&mut args, Argument::PortForward(PortForward { local, remote, proto: Proto::TCP }));
    append(&mut args, Argument::PortForward(PortForward { local, remote, proto: Proto::UDP }));
    assert(configuration(args@).forwards =~= guest_config(room@).forwards);
    args
}

} // verus!
