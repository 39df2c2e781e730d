//! The discovery payload.
//!
//! An advertisement is one datagram of ASCII text: a message of the day that
//! holds this system's marker and the code of a room, and the port at which
//! the advertiser is bound, each in a bracketed tag:
//!
//! ```text
//! [MOTD]Terracotta:AB12[/MOTD][AD]25565[/AD]
//! ```
//!
//! The reader accepts exactly what the writer writes, and nothing else:
//! other advertisements on the same channel have another message of the day
//! and are passed over.

use vstd::prelude::*;
use crate::code::{decode, encode, lemma_decode_encode, lemma_encode_decode, read_code, valid_port,
    write_code, Room};
use crate::text::{decimal, lemma_decimal_len, lemma_decimal_shape, parse_decimal, push_decimal};

verus! {

/// `[MOTD]`
pub const OPEN: [u8; 6] = [91, 77, 79, 84, 68, 93];

/// The marker by which this system knows its own advertisements:
/// `Terracotta:`
pub const MOTD: [u8; 11] = [84, 101, 114, 114, 97, 99, 111, 116, 116, 97, 58];

/// `[/MOTD][AD]`
pub const MIDDLE: [u8; 11] = [91, 47, 77, 79, 84, 68, 93, 91, 65, 68, 93];

/// `[/AD]`
pub const CLOSE: [u8; 5] = [91, 47, 65, 68, 93];

/// The advertisement of the room with port `room` by an advertiser bound at
/// `port`.
pub open spec fn advert(room: u16, port: u16) -> Seq<u8> {
    OPEN@ + MOTD@ + encode(room) + MIDDLE@ + decimal(port as nat) + CLOSE@
}

/// Where the parts of an advertisement lie.
pub proof fn lemma_advert_parts(room: u16, port: u16)
    ensures
        1 <= decimal(port as nat).len() <= 5,
        advert(room, port).len() == 37 + decimal(port as nat).len(),
        advert(room, port).subrange(0, 6) == OPEN@,
        advert(room, port).subrange(6, 17) == MOTD@,
        advert(room, port).subrange(17, 21) == encode(room),
        advert(room, port).subrange(21, 32) == MIDDLE@,
        advert(room, port).subrange(32, 32 + decimal(port as nat).len() as int) == decimal(
            port as nat,
        ),
        advert(room, port).subrange(
            32 + decimal(port as nat).len() as int,
            37 + decimal(port as nat).len() as int,
        ) == CLOSE@,
{
    let a = advert(room, port);
    let d = decimal(port as nat).len() as int;
    lemma_decimal_shape(port as nat);
    lemma_decimal_len(port as nat);
    assert(a.subrange(0, 6) =~= OPEN@);
    assert(a.subrange(6, 17) =~= MOTD@);
    assert(a.subrange(17, 21) =~= encode(room));
    assert(a.subrange(21, 32) =~= MIDDLE@);
    assert(a.subrange(32, 32 + d) =~= decimal(port as nat));
    assert(a.subrange(32 + d, 37 + d) =~= CLOSE@);
}

/// Two advertisements are the same only if they name the same room and port.
pub proof fn lemma_advert_injective(room: u16, port: u16, other_room: u16, other_port: u16)
    requires
        advert(room, port) == advert(other_room, other_port),
    ensures
        room == other_room,
        port == other_port,
{
    lemma_advert_parts(room, port);
    lemma_advert_parts(other_room, other_port);
    crate::code::lemma_encode_injective(room, other_room);
    crate::text::lemma_decimal_injective(port as nat, other_port as nat);
}

/// Whether `bytes` holds `pattern` at `from`.
fn holds_at<const N: usize>(bytes: &Vec<u8>, from: usize, pattern: &[u8; N]) -> (out: bool)
    ensures
        out == (from + N <= bytes.len() && bytes@.subrange(from as int, from + N) == pattern@),
{
    if from > bytes.len() || bytes.len() - from < N {
        return false;
    }
    let mut i: usize = 0;
    while i < N
        invariant
            i <= N,
            from + N <= bytes.len(),
            forall|j: int| 0 <= j < i ==> bytes@[from + j] == #[trigger] pattern@[j],
        decreases N - i,
    {
        if bytes[from + i] != pattern[i] {
            assert(bytes@.subrange(from as int, from + N)[i as int] != pattern@[i as int]);
            return false;
        }
        i += 1;
    }
    assert(bytes@.subrange(from as int, from + N) =~= pattern@);
    true
}

/// Appends `pattern` to `out`.
fn push_pattern<const N: usize>(out: &mut Vec<u8>, pattern: &[u8; N])
    ensures
        final(out)@ == old(out)@ + pattern@,
{
    let mut i: usize = 0;
    while i < N
        invariant
            i <= N,
            out@ == old(out)@ + pattern@.take(i as int),
        decreases N - i,
    {
        out.push(pattern[i]);
        assert(pattern@.take(i + 1) =~= pattern@.take(i as int).push(pattern@[i as int]));
        i += 1;
    }
    assert(pattern@.take(N as int) =~= pattern@);
}

/// The advertisement of `room` by an advertiser bound at `port`.
pub fn write_advert(room: &Room, port: u16) -> (out: Vec<u8>)
    ensures
        out@ == advert(room@, port),
{
    let mut out: Vec<u8> = Vec::new();
    push_pattern(&mut out, &OPEN);
    push_pattern(&mut out, &MOTD);
    write_code(&mut out, room.port());
    push_pattern(&mut out, &MIDDLE);
    push_decimal(&mut out, port as u64);
    push_pattern(&mut out, &CLOSE);
    assert(out@ =~= advert(room@, port));
    out
}

/// Reads an advertisement: the room it names and the port of its advertiser.
///
/// `None` unless `bytes` is, byte for byte, the advertisement of a room that
/// can be joined.
pub fn read_advert(bytes: &Vec<u8>) -> (out: Option<(Room, u16)>)
    ensures
        out matches Some(pair) ==> valid_port(pair.0@) && bytes@ == advert(pair.0@, pair.1),
        out is None ==> forall|room: u16, port: u16|
            valid_port(room) ==> bytes@ != #[trigger] advert(room, port),
{
    let n = bytes.len();
    if n < 38 || n > 42 {
        proof {
            assert forall|room: u16, port: u16| valid_port(room) implies bytes@ != #[trigger] advert(
                room,
                port,
            ) by {
                lemma_advert_parts(room, port);
            }
        }
        return None;
    }
    if !holds_at(bytes, 0, &OPEN) || !holds_at(bytes, 6, &MOTD) || !holds_at(bytes, 21, &MIDDLE)
        || !holds_at(bytes, n - 5, &CLOSE) {
        proof {
            assert forall|room: u16, port: u16| valid_port(room) implies bytes@ != #[trigger] advert(
                room,
                port,
            ) by {
                lemma_advert_parts(room, port);
            }
        }
        return None;
    }
    let room = match read_code(bytes, 17) {
        Some(room) => room,
        None => {
            proof {
                assert forall|room: u16, port: u16| valid_port(room) implies bytes@
                    != #[trigger] advert(room, port) by {
                    lemma_advert_parts(room, port);
                    lemma_decode_encode(room);
                }
            }
            return None;
        },
    };
    let port = match parse_decimal(bytes, 32, n - 5, 65535) {
        Some(port) => port,
        None => {
            proof {
                assert forall|room: u16, port: u16| valid_port(room) implies bytes@
                    != #[trigger] advert(room, port) by {
                    lemma_advert_parts(room, port);
                    if bytes@ == advert(room, port) {
                        assert(bytes@.subrange(32, n - 5) == decimal(port as nat));
                    }
                }
            }
            return None;
        },
    };
    proof {
        lemma_encode_decode(bytes@.subrange(17, 21));
        let text = OPEN@ + MOTD@ + encode(room) + MIDDLE@ + decimal(port as nat) + CLOSE@;
        assert(bytes@.len() == text.len());
        assert forall|i: int| 0 <= i < bytes@.len() implies bytes@[i] == text[i] by {
            if i < 6 {
                assert(bytes@.subrange(0, 6)[i] == bytes@[i]);
            } else if i < 17 {
                assert(bytes@.subrange(6, 17)[i - 6] == bytes@[i]);
            } else if i < 21 {
                assert(bytes@.subrange(17, 21)[i - 17] == bytes@[i]);
            } else if i < 32 {
                assert(bytes@.subrange(21, 32)[i - 21] == bytes@[i]);
            } else if i < n - 5 {
                assert(bytes@.subrange(32, n - 5)[i - 32] == bytes@[i]);
            } else {
                assert(bytes@.subrange(n - 5, n as int)[i - (n - 5)] == bytes@[i]);
            }
        }
        assert(bytes@ =~= text);
    }
    Some((Room::create(room), port as u16))
}

} // verus!
