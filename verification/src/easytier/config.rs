//! From intents to settings.
//!
//! A list of intents is folded, first to last, into one record of settings.
//! A flag is set by any intent that names it. A name, a secret, a host name,
//! an address or a compression is that of the last intent that gives one.
//! Listeners, peers, forwarding rules and allow-lists keep every entry, in the
//! order of the intents.

use vstd::prelude::*;
use crate::easytier::argument::{all_supported, proto_tag, supported, Argument, PortForward, Proto};
use crate::net::{ipv4_text, socket_text, Ipv4Addr, SocketAddr};
use crate::text::{ascii_text, decimal, push_decimal, to_text};

verus! {

/// The number by which the engine knows the `zstd` compression.
pub const ZSTD: i64 = 2;

/// One forwarding rule as the engine reads it.
pub struct Forward {
    pub bind_addr: Seq<char>,
    pub dst_addr: Seq<char>,
    pub proto: Seq<char>,
}

/// The settings of a session, as mathematics.
pub struct Config {
    pub no_tun: bool,
    pub compression: Option<int>,
    pub multi_thread: bool,
    pub latency_first: bool,
    pub enable_kcp_proxy: bool,
    pub p2p_only: bool,
    pub network_name: Option<Seq<char>>,
    pub network_secret: Option<Seq<char>>,
    pub listeners: Seq<Seq<char>>,
    pub peers: Seq<Seq<char>>,
    pub forwards: Seq<Forward>,
    pub dhcp: bool,
    pub hostname: Option<Seq<char>>,
    pub ipv4: Option<Seq<char>>,
    pub tcp_whitelist: Seq<Seq<char>>,
    pub udp_whitelist: Seq<Seq<char>>,
}

/// The settings before any intent: nothing set, every list empty.
pub open spec fn blank() -> Config {
    Config {
        no_tun: false,
        compression: None,
        multi_thread: false,
        latency_first: false,
        enable_kcp_proxy: false,
        p2p_only: false,
        network_name: None,
        network_secret: None,
        listeners: Seq::empty(),
        peers: Seq::empty(),
        forwards: Seq::empty(),
        dhcp: false,
        hostname: None,
        ipv4: None,
        tcp_whitelist: Seq::empty(),
        udp_whitelist: Seq::empty(),
    }
}

/// The text of a listener: the protocol, `://`, and the socket address.
pub open spec fn listener_text(address: SocketAddr, proto: Proto) -> Seq<char> {
    ascii_text(proto_tag(proto) + seq![58u8, 47u8, 47u8] + socket_text(address))
}

/// A forwarding rule as the engine reads it.
pub open spec fn forward_entry(rule: PortForward) -> Forward {
    Forward {
        bind_addr: ascii_text(socket_text(rule.local)),
        dst_addr: ascii_text(socket_text(rule.remote)),
        proto: ascii_text(proto_tag(rule.proto)),
    }
}

/// The settings after one more intent, setting by setting.
pub open spec fn configure(c: Config, arg: Argument) -> Config {
    Config {
        no_tun: c.no_tun || arg is NoTun,
        compression: if arg is Compression {
            Some(ZSTD as int)
        } else {
            c.compression
        },
        multi_thread: c.multi_thread || arg is MultiThread,
        latency_first: c.latency_first || arg is LatencyFirst,
        enable_kcp_proxy: c.enable_kcp_proxy || arg is EnableKcpProxy,
        p2p_only: c.p2p_only || arg is P2POnly,
        network_name: match arg {
            Argument::NetworkName(name) => Some(name@),
            _ => c.network_name,
        },
        network_secret: match arg {
            Argument::NetworkSecret(secret) => Some(secret@),
            _ => c.network_secret,
        },
        listeners: match arg {
            Argument::Listener { address, proto } => c.listeners.push(listener_text(address, proto)),
            _ => c.listeners,
        },
        peers: match arg {
            Argument::PublicServer(uri) => c.peers.push(uri@),
            _ => c.peers,
        },
        forwards: match arg {
            Argument::PortForward(rule) => c.forwards.push(forward_entry(rule)),
            _ => c.forwards,
        },
        dhcp: c.dhcp || arg is DHCP,
        hostname: match arg {
            Argument::HostName(name) => Some(name@),
            _ => c.hostname,
        },
        ipv4: match arg {
            Argument::IPv4(address) => Some(ascii_text(ipv4_text(address))),
            _ => c.ipv4,
        },
        tcp_whitelist: match arg {
            Argument::TcpWhitelist(port) => c.tcp_whitelist.push(ascii_text(decimal(port as nat))),
            _ => c.tcp_whitelist,
        },
        udp_whitelist: match arg {
            Argument::UdpWhitelist(port) => c.udp_whitelist.push(ascii_text(decimal(port as nat))),
            _ => c.udp_whitelist,
        },
    }
}

/// The settings that a list of intents asks for.
pub open spec fn configuration(args: Seq<Argument>) -> Config
    decreases args.len(),
{
    if args.len() == 0 {
        blank()
    } else {
        configure(configuration(args.drop_last()), args.last())
    }
}

/// Whether an intent adds an entry to one of the lists.
pub open spec fn list_valued(arg: Argument) -> bool {
    arg is PublicServer || arg is Listener || arg is PortForward || arg is TcpWhitelist
        || arg is UdpWhitelist
}

/// Whether two intents write the same setting.
pub open spec fn same_setting(x: Argument, y: Argument) -> bool {
    ||| x is NoTun && y is NoTun
    ||| x is Compression && y is Compression
    ||| x is MultiThread && y is MultiThread
    ||| x is LatencyFirst && y is LatencyFirst
    ||| x is EnableKcpProxy && y is EnableKcpProxy
    ||| x is P2POnly && y is P2POnly
    ||| x is NetworkName && y is NetworkName
    ||| x is NetworkSecret && y is NetworkSecret
    ||| x is PublicServer && y is PublicServer
    ||| x is Listener && y is Listener
    ||| x is PortForward && y is PortForward
    ||| x is DHCP && y is DHCP
    ||| x is HostName && y is HostName
    ||| x is IPv4 && y is IPv4
    ||| x is TcpWhitelist && y is TcpWhitelist
    ||| x is UdpWhitelist && y is UdpWhitelist
}

/// Two intents that write different settings may be given in either order.
pub proof fn lemma_order_of_settings(c: Config, x: Argument, y: Argument)
    requires
        !same_setting(x, y),
    ensures
        configure(configure(c, x), y) == configure(configure(c, y), x),
{
}

/// A flag that is given twice is set as if given once.
pub proof fn lemma_flag_idempotent(c: Config, x: Argument)
    requires
        x is NoTun || x is MultiThread || x is LatencyFirst || x is EnableKcpProxy || x is P2POnly
            || x is DHCP,
    ensures
        configure(configure(c, x), x) == configure(c, x),
{
}

/// Of two intents that give the same single-valued setting, the later one
/// stands.
pub proof fn lemma_last_write_wins(c: Config, x: Argument, y: Argument)
    requires
        same_setting(x, y),
        !list_valued(x),
    ensures
        configure(configure(c, x), y) == configure(c, y),
{
}

/// An intent for a list appends to that list and leaves the rest alone.
pub proof fn lemma_lists_append(c: Config, x: Argument)
    requires
        list_valued(x),
    ensures
        configure(c, x).listeners.len() + configure(c, x).peers.len() + configure(
            c,
            x,
        ).forwards.len() + configure(c, x).tcp_whitelist.len() + configure(c, x).udp_whitelist.len()
            == c.listeners.len() + c.peers.len() + c.forwards.len() + c.tcp_whitelist.len()
            + c.udp_whitelist.len() + 1,
        c.listeners.is_prefix_of(configure(c, x).listeners),
        c.peers.is_prefix_of(configure(c, x).peers),
        c.forwards.is_prefix_of(configure(c, x).forwards),
        c.tcp_whitelist.is_prefix_of(configure(c, x).tcp_whitelist),
        c.udp_whitelist.is_prefix_of(configure(c, x).udp_whitelist),
{
}

/// Whether two intents say the same: the same kind, with the same texts,
/// addresses and numbers.
pub open spec fn same_intent(x: Argument, y: Argument) -> bool {
    match (x, y) {
        (Argument::NoTun, Argument::NoTun) => true,
        (Argument::Compression(a), Argument::Compression(b)) => a@ == b@,
        (Argument::MultiThread, Argument::MultiThread) => true,
        (Argument::LatencyFirst, Argument::LatencyFirst) => true,
        (Argument::EnableKcpProxy, Argument::EnableKcpProxy) => true,
        (Argument::P2POnly, Argument::P2POnly) => true,
        (Argument::NetworkName(a), Argument::NetworkName(b)) => a@ == b@,
        (Argument::NetworkSecret(a), Argument::NetworkSecret(b)) => a@ == b@,
        (Argument::PublicServer(a), Argument::PublicServer(b)) => a@ == b@,
        (
            Argument::Listener { address: a, proto: p },
            Argument::Listener { address: b, proto: q },
        ) => a == b && p == q,
        (Argument::PortForward(a), Argument::PortForward(b)) => a == b,
        (Argument::DHCP, Argument::DHCP) => true,
        (Argument::HostName(a), Argument::HostName(b)) => a@ == b@,
        (Argument::IPv4(a), Argument::IPv4(b)) => a == b,
        (Argument::TcpWhitelist(a), Argument::TcpWhitelist(b)) => a == b,
        (Argument::UdpWhitelist(a), Argument::UdpWhitelist(b)) => a == b,
        _ => false,
    }
}

/// Whether two lists of intents say the same, intent by intent.
pub open spec fn same_intents(a: Seq<Argument>, b: Seq<Argument>) -> bool {
    a.len() == b.len() && forall|i: int| 0 <= i < a.len() ==> same_intent(#[trigger] a[i], b[i])
}

/// Two lists of intents that say the same give the same settings: the
/// settings are a function of what the list says, and of nothing else.
pub proof fn lemma_configuration_deterministic(a: Seq<Argument>, b: Seq<Argument>)
    requires
        same_intents(a, b),
    ensures
        configuration(a) == configuration(b),
    decreases a.len(),
{
    if a.len() > 0 {
        assert(same_intents(a.drop_last(), b.drop_last())) by {
            assert forall|i: int| 0 <= i < a.drop_last().len() implies same_intent(
                #[trigger] a.drop_last()[i],
                b.drop_last()[i],
            ) by {
                assert(same_intent(a[i], b[i]));
            }
        }
        lemma_configuration_deterministic(a.drop_last(), b.drop_last());
        assert(same_intent(a[a.len() - 1], b[a.len() - 1]));
    }
}

/// The texts of a list of strings.
pub open spec fn texts(items: Seq<String>) -> Seq<Seq<char>> {
    items.map_values(|s: String| s@)
}

/// The text of an optional string.
pub open spec fn optional_text(item: Option<String>) -> Option<Seq<char>> {
    match item {
        Some(s) => Some(s@),
        None => None,
    }
}

/// One forwarding rule as the engine reads it.
#[derive(Debug, PartialEq, Eq)]
pub struct ForwardEntry {
    pub bind_addr: String,
    pub dst_addr: String,
    pub proto: String,
}

impl View for ForwardEntry {
    type V = Forward;

    open spec fn view(&self) -> Forward {
        Forward { bind_addr: self.bind_addr@, dst_addr: self.dst_addr@, proto: self.proto@ }
    }
}

/// The forwarding rules of a list of entries.
pub open spec fn forwards(items: Seq<ForwardEntry>) -> Seq<Forward> {
    items.map_values(|e: ForwardEntry| e@)
}

/// The settings of a session.
#[derive(Debug, PartialEq, Eq)]
pub struct Settings {
    pub no_tun: bool,
    pub compression: Option<i64>,
    pub multi_thread: bool,
    pub latency_first: bool,
    pub enable_kcp_proxy: bool,
    pub p2p_only: bool,
    pub network_name: Option<String>,
    pub network_secret: Option<String>,
    pub listeners: Vec<String>,
    pub peers: Vec<String>,
    pub forwards: Vec<ForwardEntry>,
    pub dhcp: bool,
    pub hostname: Option<String>,
    pub ipv4: Option<String>,
    pub tcp_whitelist: Vec<String>,
    pub udp_whitelist: Vec<String>,
}

impl View for Settings {
    type V = Config;

    open spec fn view(&self) -> Config {
        Config {
            no_tun: self.no_tun,
            compression: match self.compression {
                Some(n) => Some(n as int),
                None => None,
            },
            multi_thread: self.multi_thread,
            latency_first: self.latency_first,
            enable_kcp_proxy: self.enable_kcp_proxy,
            p2p_only: self.p2p_only,
            network_name: optional_text(self.network_name),
            network_secret: optional_text(self.network_secret),
            listeners: texts(self.listeners@),
            peers: texts(self.peers@),
            forwards: forwards(self.forwards@),
            dhcp: self.dhcp,
            hostname: optional_text(self.hostname),
            ipv4: optional_text(self.ipv4),
            tcp_whitelist: texts(self.tcp_whitelist@),
            udp_whitelist: texts(self.udp_whitelist@),
        }
    }
}

/// The text of a socket address.
fn socket_string(address: &SocketAddr) -> (out: String)
    ensures
        out@ == ascii_text(socket_text(*address)),
{
    let mut bytes: Vec<u8> = Vec::new();
    address.write_text(&mut bytes);
    to_text(&bytes)
}

/// The decimal text of a port.
fn port_string(port: u16) -> (out: String)
    ensures
        out@ == ascii_text(decimal(port as nat)),
{
    let mut bytes: Vec<u8> = Vec::new();
    push_decimal(&mut bytes, port as u64);
    to_text(&bytes)
}

/// The text of a protocol's name.
fn proto_string(proto: &Proto) -> (out: String)
    ensures
        out@ == ascii_text(proto_tag(*proto)),
{
    let mut bytes: Vec<u8> = Vec::new();
    proto.write_tag(&mut bytes);
    to_text(&bytes)
}

impl Settings {
    /// The settings before any intent.
    pub fn new() -> (out: Settings)
        ensures
            out@ == blank(),
    {
        let out = Settings {
            no_tun: false,
            compression: None,
            multi_thread: false,
            latency_first: false,
            enable_kcp_proxy: false,
            p2p_only: false,
            network_name: None,
            network_secret: None,
            listeners: Vec::new(),
            peers: Vec::new(),
            forwards: Vec::new(),
            dhcp: false,
            hostname: None,
            ipv4: None,
            tcp_whitelist: Vec::new(),
            udp_whitelist: Vec::new(),
        };
        assert(out@.listeners =~= blank().listeners);
        assert(out@.peers =~= blank().peers);
        assert(out@.forwards =~= blank().forwards);
        assert(out@.tcp_whitelist =~= blank().tcp_whitelist);
        assert(out@.udp_whitelist =~= blank().udp_whitelist);
        out
    }

    /// Takes one more intent into the settings.
    pub fn apply(&mut self, arg: &Argument)
        requires
            supported(*arg),
        ensures
            final(self)@ == configure(old(self)@, *arg),
    {
        match arg {
            Argument::NoTun => {
                self.no_tun = true;
            },
            Argument::Compression(_) => {
                self.compression = Some(ZSTD);
            },
            Argument::MultiThread => {
                self.multi_thread = true;
            },
            Argument::LatencyFirst => {
                self.latency_first = true;
            },
            Argument::EnableKcpProxy => {
                self.enable_kcp_proxy = true;
            },
            Argument::P2POnly => {
                self.p2p_only = true;
            },
            Argument::NetworkName(name) => {
                self.network_name = Some(name.clone());
            },
            Argument::NetworkSecret(secret) => {
                self.network_secret = Some(secret.clone());
            },
            Argument::PublicServer(uri) => {
                self.peers.push(uri.clone());
                assert(self@.peers =~= old(self)@.peers.push(uri@));
            },
            Argument::Listener { address, proto } => {
                let mut bytes: Vec<u8> = Vec::new();
                proto.write_tag(&mut bytes);
                bytes.push(58);
                bytes.push(47);
                bytes.push(47);
                address.write_text(&mut bytes);
                assert(bytes@ =~= proto_tag(*proto) + seq![58u8, 47u8, 47u8] + socket_text(
                    *address,
                ));
                self.listeners.push(to_text(&bytes));
                assert(self@.listeners =~= old(self)@.listeners.push(
                    listener_text(*address, *proto),
                ));
            },
            Argument::PortForward(rule) => {
                let entry = ForwardEntry {
                    bind_addr: socket_string(&rule.local),
                    dst_addr: socket_string(&rule.remote),
                    proto: proto_string(&rule.proto),
                };
                self.forwards.push(entry);
                assert(self@.forwards =~= old(self)@.forwards.push(forward_entry(*rule)));
            },
            Argument::DHCP => {
                self.dhcp = true;
            },
            Argument::HostName(name) => {
                self.hostname = Some(name.clone());
            },
            Argument::IPv4(address) => {
                let mut bytes: Vec<u8> = Vec::new();
                address.write_text(&mut bytes);
                assert(bytes@ =~= ipv4_text(*address));
                self.ipv4 = Some(to_text(&bytes));
            },
            Argument::TcpWhitelist(port) => {
                self.tcp_whitelist.push(port_string(*port));
                assert(self@.tcp_whitelist =~= old(self)@.tcp_whitelist.push(
                    ascii_text(decimal(*port as nat)),
                ));
            },
            Argument::UdpWhitelist(port) => {
                self.udp_whitelist.push(port_string(*port));
                assert(self@.udp_whitelist =~= old(self)@.udp_whitelist.push(
                    ascii_text(decimal(*port as nat)),
                ));
            },
        }
    }

    /// The settings that a list of intents asks for.
    pub fn build(args: &Vec<Argument>) -> (out: Settings)
        requires
            all_supported(args@),
        ensures
            out@ == configuration(args@),
    {
        let mut out = Settings::new();
        let mut i: usize = 0;
        assert(args@.take(0) =~= Seq::<Argument>::empty());
        while i < args.len()
            invariant
                i <= args.len(),
                all_supported(args@),
                out@ == configuration(args@.take(i as int)),
            decreases args.len() - i,
        {
            out.apply(&args[i]);
            assert(args@.take(i + 1).drop_last() =~= args@.take(i as int));
            assert(args@.take(i + 1).last() == args@[i as int]);
            i += 1;
        }
        assert(args@.take(i as int) =~= args@);
        out
    }
}

} // verus!
