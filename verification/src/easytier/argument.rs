//! The intents from which a network session is configured.

use vstd::prelude::*;
use crate::net::{Ipv4Addr, SocketAddr};

verus! {

/// A transport protocol.
#[derive(Clone, Copy, Debug, PartialEq, Eq, Structural)]
pub enum Proto {
    TCP,
    UDP,
}

/// The name of a protocol as ASCII bytes.
pub open spec fn proto_tag(proto: Proto) -> Seq<u8> {
    match proto {
        Proto::TCP => seq![116u8, 99u8, 112u8],
        Proto::UDP => seq![117u8, 100u8, 112u8],
    }
}

impl Proto {
    /// The name of the protocol as the engine spells it: `tcp` or `udp`.
    pub fn name(&self) -> (name: &'static str)
        ensures
            name@ == crate::text::ascii_text(proto_tag(*self)),
    {
        match self {
            Proto::TCP => {
                proof {
                    reveal_strlit("tcp");
                    assert("tcp"@ =~= crate::text::ascii_text(proto_tag(Proto::TCP)));
                }
                "tcp"
            },
            Proto::UDP => {
                proof {
                    reveal_strlit("udp");
                    assert("udp"@ =~= crate::text::ascii_text(proto_tag(Proto::UDP)));
                }
                "udp"
            },
        }
    }

    /// Appends the name of the protocol.
    pub fn write_tag(&self, out: &mut Vec<u8>)
        ensures
            final(out)@ == old(out)@ + proto_tag(*self),
    {
        match self {
            Proto::TCP => {
                out.push(116);
                out.push(99);
                out.push(112);
            },
            Proto::UDP => {
                out.push(117);
                out.push(100);
                out.push(112);
            },
        }
        assert(out@ =~= old(out)@ + proto_tag(*self));
    }
}

/// A rule that forwards what arrives at `local` to `remote`.
#[derive(Clone, Copy, Debug, PartialEq, Eq)]
pub struct PortForward {
    pub local: SocketAddr,
    pub remote: SocketAddr,
    pub proto: Proto,
}

impl PortForward {
    /// Whether two rules are the same triple.
    pub fn same(&self, other: &PortForward) -> (out: bool)
        ensures
            out == (*self == *other),
    {
        self.local.same(&other.local) && self.remote.same(&other.remote) && self.proto
            == other.proto
    }
}

/// One configuration intent.
#[derive(Clone, Debug, PartialEq, Eq)]
pub enum Argument {
    NoTun,
    Compression(String),
    MultiThread,
    LatencyFirst,
    EnableKcpProxy,
    P2POnly,
    NetworkName(String),
    NetworkSecret(String),
    PublicServer(String),
    Listener { address: SocketAddr, proto: Proto },
    PortForward(PortForward),
    DHCP,
    HostName(String),
    IPv4(Ipv4Addr),
    TcpWhitelist(u16),
    UdpWhitelist(u16),
}

/// The one compression algorithm the engine is asked for.
pub open spec fn zstd() -> Seq<char> {
    seq!['z', 's', 't', 'd']
}

/// Whether the builder knows what to do with the intent: every intent but a
/// compression other than `zstd`.
pub open spec fn supported(arg: Argument) -> bool {
    arg matches Argument::Compression(name) ==> name@ == zstd()
}

/// Whether the builder knows what to do with every intent of the list.
pub open spec fn all_supported(args: Seq<Argument>) -> bool {
    forall|i: int| 0 <= i < args.len() ==> supported(#[trigger] args[i])
}

impl Argument {
    /// Whether the builder knows what to do with the intent.
    pub fn is_supported(&self) -> (out: bool)
        ensures
            out == supported(*self),
    {
        match self {
            Argument::Compression(name) => {
                let name = name.as_str();
                let len: usize = name.unicode_len();
                if len != 4 {
                    return false;
                }
                let ok = name.get_char(0) == 'z' && name.get_char(1) == 's' && name.get_char(2)
                    == 't' && name.get_char(3) == 'd';
                assert(ok ==> name@ =~= zstd());
                ok
            },
            _ => true,
        }
    }
}

/// Whether the builder knows what to do with every intent of the list.
pub fn all_are_supported(args: &Vec<Argument>) -> (out: bool)
    ensures
        out == all_supported(args@),
{
    let mut i: usize = 0;
    while i < args.len()
        invariant
            i <= args.len(),
            forall|j: int| 0 <= j < i ==> supported(#[trigger] args@[j]),
        decreases args.len() - i,
    {
        if !args[i].is_supported() {
            return false;
        }
        i += 1;
    }
    true
}

} // verus!
