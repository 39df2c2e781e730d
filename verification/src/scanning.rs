//! The discovery listener.
//!
//! A listener is handed every datagram that arrives on the discovery
//! channel. It keeps the rooms that were advertised, each once, in the order
//! in which they were first heard, and passes over everything else.

use vstd::prelude::*;
use crate::code::{valid_port, Room};
use crate::payload::{advert, lemma_advert_injective, read_advert};

verus! {

/// Whether `datagram` advertises the room with port `room`.
pub open spec fn advertises(datagram: Seq<u8>, room: u16) -> bool {
    valid_port(room) && exists|port: u16| datagram == #[trigger] advert(room, port)
}

/// The room that a datagram advertises, if it is an advertisement of this
/// system.
pub open spec fn advertised_room(datagram: Seq<u8>) -> Option<u16> {
    if exists|room: u16| advertises(datagram, room) {
        Some(choose|room: u16| advertises(datagram, room))
    } else {
        None
    }
}

/// The rooms heard so far, after one more datagram.
pub open spec fn heard(rooms: Seq<u16>, datagram: Seq<u8>) -> Seq<u16> {
    match advertised_room(datagram) {
        Some(room) => if rooms.contains(room) {
            rooms
        } else {
            rooms.push(room)
        },
        None => rooms,
    }
}

/// A datagram advertises at most one room.
pub proof fn lemma_one_room(datagram: Seq<u8>, room: u16)
    requires
        advertises(datagram, room),
    ensures
        advertised_room(datagram) == Some(room),
{
    let chosen = choose|r: u16| advertises(datagram, r);
    let p = choose|port: u16| datagram == #[trigger] advert(room, port);
    let q = choose|port: u16| datagram == #[trigger] advert(chosen, port);
    lemma_advert_injective(room, p, chosen, q);
}

/// The advertisement of a room that can be joined is heard as that room: it
/// is added if it is new, and changes nothing if it was heard before.
pub proof fn lemma_hears_advert(rooms: Seq<u16>, room: u16, port: u16)
    requires
        valid_port(room),
    ensures
        heard(rooms, advert(room, port)) == if rooms.contains(room) {
            rooms
        } else {
            rooms.push(room)
        },
{
    lemma_one_room(advert(room, port), room);
}

/// A datagram that is the advertisement of no room that can be joined
/// changes nothing.
pub proof fn lemma_passes_over(rooms: Seq<u16>, datagram: Seq<u8>)
    requires
        forall|room: u16, port: u16| valid_port(room) ==> datagram != #[trigger] advert(room, port),
    ensures
        heard(rooms, datagram) == rooms,
{
}

/// What was heard stays heard, in its order, and no room is kept twice.
pub proof fn lemma_heard_grows(rooms: Seq<u16>, datagram: Seq<u8>)
    requires
        rooms.no_duplicates(),
    ensures
        rooms.is_prefix_of(heard(rooms, datagram)),
        heard(rooms, datagram).no_duplicates(),
        heard(rooms, datagram).len() <= rooms.len() + 1,
{
}

/// The ports of a list of rooms.
pub open spec fn ports_of(rooms: Seq<Room>) -> Seq<u16> {
    rooms.map_values(|r: Room| r@)
}

/// A listener.
pub struct Scanning {
    rooms: Vec<Room>,
}

impl View for Scanning {
    type V = Seq<u16>;

    /// A listener is the rooms it has heard, by their ports, in the order in
    /// which they were first heard.
    closed spec fn view(&self) -> Seq<u16> {
        ports_of(self.rooms@)
    }
}

impl Scanning {
    #[verifier::type_invariant]
    spec fn well_formed(self) -> bool {
        ports_of(self.rooms@).no_duplicates()
    }

    /// A listener that has heard nothing.
    pub fn create() -> (scanner: Scanning)
        ensures
            scanner@ == Seq::<u16>::empty(),
    {
        let rooms: Vec<Room> = Vec::new();
        assert(ports_of(rooms@) =~= Seq::<u16>::empty());
        Scanning { rooms }
    }

    /// Takes one datagram. True if it advertised a room not heard before.
    pub fn receive(&mut self, datagram: &Vec<u8>) -> (fresh: bool)
        ensures
            final(self)@ == heard(old(self)@, datagram@),
            fresh == (final(self)@ != old(self)@),
            final(self)@.no_duplicates(),
    {
        proof {
            use_type_invariant(&*self);
        }
        match read_advert(datagram) {
            Some(pair) => {
                let room = pair.0;
                proof {
                    lemma_one_room(datagram@, room@);
                }
                let mut i: usize = 0;
                while i < self.rooms.len()
                    invariant
                        i <= self.rooms.len(),
                        *self == *old(self),
                        ports_of(self.rooms@).no_duplicates(),
                        advertised_room(datagram@) == Some(room@),
                        forall|j: int| 0 <= j < i ==> self.rooms@[j]@ != room@,
                    decreases self.rooms.len() - i,
                {
                    if self.rooms[i].port() == room.port() {
                        assert(ports_of(self.rooms@)[i as int] == room@);
                        assert(self@.contains(room@));
                        return false;
                    }
                    i += 1;
                }
                assert(!ports_of(self.rooms@).contains(room@)) by {
                    if ports_of(self.rooms@).contains(room@) {
                        let k = choose|k: int|
                            0 <= k < ports_of(self.rooms@).len() && ports_of(self.rooms@)[k]
                                == room@;
                        assert(self.rooms@[k]@ == room@);
                    }
                }
                let mut rooms: Vec<Room> = Vec::new();
                std::mem::swap(&mut self.rooms, &mut rooms);
                rooms.push(room);
                assert(ports_of(rooms@) =~= old(self)@.push(room@));
                self.rooms = rooms;
                assert(self@.len() != old(self)@.len());
                true
            },
            None => {
                proof {
                    if exists|room: u16| advertises(datagram@, room) {
                        let room = choose|room: u16| advertises(datagram@, room);
                        let port = choose|port: u16| datagram@ == #[trigger] advert(room, port);
                        assert(datagram@ == advert(room, port));
                    }
                }
                false
            },
        }
    }

    /// The ports of the rooms heard so far, first heard first.
    pub fn get_ports(&self) -> (ports: Vec<u16>)
        ensures
            ports@ == self@,
            ports@.no_duplicates(),
    {
        proof {
            use_type_invariant(self);
        }
        let mut ports: Vec<u16> = Vec::new();
        let mut i: usize = 0;
        while i < self.rooms.len()
            invariant
                i <= self.rooms.len(),
                ports@ == ports_of(self.rooms@.take(i as int)),
            decreases self.rooms.len() - i,
        {
            ports.push(self.rooms[i].port());
            assert(self.rooms@.take(i + 1) =~= self.rooms@.take(i as int).push(
                self.rooms@[i as int],
            ));
            assert(ports@ =~= ports_of(self.rooms@.take(i + 1)));
            i += 1;
        }
        assert(self.rooms@.take(i as int) =~= self.rooms@);
        ports
    }

    /// The room that was heard first, if any was heard.
    pub fn first(&self) -> (room: Option<Room>)
        ensures
            self@.len() == 0 ==> room is None,
            self@.len() > 0 ==> room is Some && room.unwrap()@ == self@[0],
    {
        if self.rooms.len() > 0 {
            Some(self.rooms[0].clone())
        } else {
            None
        }
    }
}

} // verus!
