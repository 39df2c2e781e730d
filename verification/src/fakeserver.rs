//! The discovery broadcaster.
//!
//! A broadcaster advertises one room. It waits until it is activated, then
//! sends its advertisement to every target at a fixed interval until it is
//! terminated. The sending is done from outside; the broadcaster says, each
//! time it is asked, whether to hold, to send or to quit.

use vstd::prelude::*;
use crate::code::Room;
use crate::net::{IpAddr, Ipv4Addr, Ipv6Addr, SocketAddr};
use crate::payload::{advert, write_advert};

verus! {

/// The time between two rounds of sending, in milliseconds.
pub const INTERVAL_MS: u64 = 1500;

/// The port to which advertisements are sent.
pub const DISCOVERY_PORT: u16 = 4445;

/// Where a broadcaster stands.
#[derive(Clone, Copy, Debug, PartialEq, Eq, Structural)]
pub enum Signals {
    /// Made, and not yet activated.
    Created,
    /// Sending.
    Activate,
    /// Over.
    Terminate,
}

/// What a broadcaster does when it wakes up.
#[derive(Clone, Copy, Debug, PartialEq, Eq, Structural)]
pub enum Round {
    /// Nothing yet: wait to be activated.
    Hold,
    /// Send the advertisement to every target, then sleep for the interval.
    Send,
    /// Leave the loop.
    Quit,
}

/// What a broadcaster does in a given state.
pub open spec fn round_of(state: Signals) -> Round {
    match state {
        Signals::Created => Round::Hold,
        Signals::Activate => Round::Send,
        Signals::Terminate => Round::Quit,
    }
}

/// The state after a request to activate: a broadcaster that waits starts to
/// send, and any other stays as it is.
pub open spec fn activated(state: Signals) -> Signals {
    match state {
        Signals::Created => Signals::Activate,
        other => other,
    }
}

/// The group to which advertisements for IPv4 listeners go: `224.0.2.60`.
pub open spec fn group_v4() -> Ipv4Addr {
    Ipv4Addr { a: 224, b: 0, c: 2, d: 60 }
}

/// The group to which advertisements for IPv6 listeners go: `ff75:230::60`.
pub open spec fn group_v6() -> Ipv6Addr {
    Ipv6Addr { segments: [0xff75u16, 0x230u16, 0u16, 0u16, 0u16, 0u16, 0u16, 0x60u16] }
}

/// Where a socket bound at `local` sends to: the group of the family of
/// `local`, at the discovery port.
pub open spec fn target(local: IpAddr) -> SocketAddr {
    SocketAddr {
        ip: match local {
            IpAddr::V4(_) => IpAddr::V4(group_v4()),
            IpAddr::V6(_) => IpAddr::V6(group_v6()),
        },
        port: DISCOVERY_PORT,
    }
}

/// Where a socket bound at `local` sends its advertisements.
pub fn target_of(local: &IpAddr) -> (out: SocketAddr)
    ensures
        out == target(*local),
{
    match local {
        IpAddr::V4(_) => SocketAddr::new(IpAddr::V4(Ipv4Addr::new(224, 0, 2, 60)), DISCOVERY_PORT),
        IpAddr::V6(_) => {
            let segments: [u16; 8] = [0xff75, 0x230, 0, 0, 0, 0, 0, 0x60];
            assert(segments =~= group_v6().segments);
            SocketAddr::new(IpAddr::V6(Ipv6Addr::new(segments)), DISCOVERY_PORT)
        },
    }
}

/// A broadcaster.
pub struct FakeServer {
    /// The port at which the advertiser is bound.
    pub port: u16,
    /// The room that is advertised.
    pub room: Room,
    /// Where the broadcaster stands; `activate` and `terminate` move it.
    pub state: Signals,
}

/// A broadcaster, as mathematics.
pub struct Broadcaster {
    pub port: u16,
    pub room: u16,
    pub state: Signals,
}

impl View for FakeServer {
    type V = Broadcaster;

    open spec fn view(&self) -> Broadcaster {
        Broadcaster { port: self.port, room: self.room@, state: self.state }
    }
}

/// A broadcaster for `room`, bound at `port`, that waits to be activated.
pub fn create(port: u16, room: &Room) -> (server: FakeServer)
    ensures
        server.port == port,
        server@ == (Broadcaster { port, room: room@, state: Signals::Created }),
{
    FakeServer { port, room: room.clone(), state: Signals::Created }
}

impl FakeServer {
    /// Starts the sending. A broadcaster that is over stays over.
    pub fn activate(&mut self)
        ensures
            final(self)@ == (Broadcaster { state: activated(old(self)@.state), ..old(self)@ }),
    {
        match self.state {
            Signals::Created => {
                self.state = Signals::Activate;
            },
            _ => {},
        }
    }

    /// Ends the sending, for good.
    pub fn terminate(&mut self)
        ensures
            final(self)@ == (Broadcaster { state: Signals::Terminate, ..old(self)@ }),
    {
        self.state = Signals::Terminate;
    }

    /// What to do on waking up.
    pub fn round(&self) -> (round: Round)
        ensures
            round == round_of(self@.state),
    {
        match self.state {
            Signals::Created => Round::Hold,
            Signals::Activate => Round::Send,
            Signals::Terminate => Round::Quit,
        }
    }

    /// The advertisement to send.
    pub fn message(&self) -> (bytes: Vec<u8>)
        ensures
            bytes@ == advert(self@.room, self@.port),
    {
        write_advert(&self.room, self.port)
    }

    /// The room that is advertised.
    pub fn room(&self) -> (room: &Room)
        ensures
            room@ == self@.room,
    {
        &self.room
    }
}

/// A broadcaster that is over never sends again.
pub proof fn lemma_terminate_is_final(state: Signals)
    ensures
        activated(Signals::Terminate) == Signals::Terminate,
        round_of(Signals::Terminate) == Round::Quit,
        round_of(activated(state)) == Round::Send <==> state != Signals::Terminate,
{
}

} // verus!
