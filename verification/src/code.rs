//! Room codes.
//!
//! A room is named by a code of four symbols, each one of `0-9A-Z`. Read as a
//! number in base 36, most significant symbol first, the code holds the port
//! of the hosted game in its low 16 bits and the number of the coding scheme
//! above them. A code is accepted only if it has exactly this form and names
//! a port that can be joined, so a mistyped code is rejected rather than
//! joined.

use vstd::prelude::*;
use crate::text::{ascii_text, to_text};

verus! {

/// The number of the coding scheme, held above the port in every code.
pub const SCHEME: u32 = 7;

/// The port on this machine through which a guest reaches the joined room.
pub const LOCAL_PORT: u16 = 25565;

/// Whether a room with this port can be joined: every port but 0.
pub open spec fn valid_port(port: u16) -> bool {
    port >= 1
}

/// The symbol that stands for the base-36 digit `v`.
pub open spec fn symbol(v: nat) -> u8 {
    if v < 10 {
        (48 + v) as u8
    } else {
        (55 + v) as u8
    }
}

/// The base-36 digit that a symbol stands for, if it is one.
pub open spec fn symbol_value(b: u8) -> Option<nat> {
    if 48 <= b <= 57 {
        Some((b - 48) as nat)
    } else if 65 <= b <= 90 {
        Some((b - 55) as nat)
    } else {
        None
    }
}

/// The number that the code of `port` spells.
pub open spec fn code_number(port: u16) -> nat {
    (SCHEME * 65536 + port) as nat
}

/// The code of the room with the given port.
pub open spec fn encode(port: u16) -> Seq<u8> {
    let x = code_number(port);
    seq![symbol(x / 46656), symbol(x / 1296 % 36), symbol(x / 36 % 36), symbol(x % 36)]
}

/// The number that four symbols spell, if all four are symbols.
pub open spec fn spelled(code: Seq<u8>) -> Option<nat> {
    if code.len() == 4 && symbol_value(code[0]) is Some && symbol_value(code[1]) is Some
        && symbol_value(code[2]) is Some && symbol_value(code[3]) is Some {
        Some(
            symbol_value(code[0]).unwrap() * 46656 + symbol_value(code[1]).unwrap() * 1296
                + symbol_value(code[2]).unwrap() * 36 + symbol_value(code[3]).unwrap(),
        )
    } else {
        None
    }
}

/// The port that a code names, if it is the code of a port that can be joined.
pub open spec fn decode(code: Seq<u8>) -> Option<u16> {
    match spelled(code) {
        Some(x) => if x / 65536 == SCHEME && x % 65536 >= 1 {
            Some((x % 65536) as u16)
        } else {
            None
        },
        None => None,
    }
}

/// Decoding the code of a port that can be joined gives the port back.
pub proof fn lemma_decode_encode(port: u16)
    requires
        valid_port(port),
    ensures
        decode(encode(port)) == Some(port),
{
    lemma_digits(code_number(port));
}

/// A code that decodes is the code of the port it decodes to, and that port
/// can be joined.
pub proof fn lemma_encode_decode(code: Seq<u8>)
    requires
        decode(code) is Some,
    ensures
        valid_port(decode(code).unwrap()),
        encode(decode(code).unwrap()) == code,
{
    let x = spelled(code).unwrap();
    let port = decode(code).unwrap();
    assert(code_number(port) == x);
    let d0 = symbol_value(code[0]).unwrap();
    let d1 = symbol_value(code[1]).unwrap();
    let d2 = symbol_value(code[2]).unwrap();
    let d3 = symbol_value(code[3]).unwrap();
    assert(x % 36 == d3);
    assert(x / 36 == d0 * 1296 + d1 * 36 + d2);
    assert(x / 36 % 36 == d2);
    assert(x / 1296 == d0 * 36 + d1);
    assert(x / 1296 % 36 == d1);
    assert(x / 46656 == d0);
    assert(encode(port) =~= code);
}

/// A string that is the code of no port that can be joined decodes to
/// nothing.
pub proof fn lemma_decode_rejects(code: Seq<u8>)
    requires
        forall|port: u16| valid_port(port) ==> encode(port) != code,
    ensures
        decode(code) is None,
{
    if decode(code) is Some {
        lemma_encode_decode(code);
    }
}

/// Two ports with the same code are the same port.
pub proof fn lemma_encode_injective(p: u16, q: u16)
    requires
        encode(p) == encode(q),
    ensures
        p == q,
{
    lemma_digits(code_number(p));
    lemma_digits(code_number(q));
}

/// The four base-36 digits of a number below 36^4 spell it.
proof fn lemma_digits(x: nat)
    requires
        x < 1679616,
    ensures
        spelled(seq![symbol(x / 46656), symbol(x / 1296 % 36), symbol(x / 36 % 36), symbol(x % 36)])
            == Some(x),
{
    let d0 = x / 46656;
    let d1 = x / 1296 % 36;
    let d2 = x / 36 % 36;
    let d3 = x % 36;
    assert(d0 < 36);
    assert(x / 1296 == (x / 36) / 36);
    assert(x / 46656 == (x / 1296) / 36);
    assert(x == d0 * 46656 + d1 * 1296 + d2 * 36 + d3);
    assert(symbol_value(symbol(d0)) == Some(d0));
    assert(symbol_value(symbol(d1)) == Some(d1));
    assert(symbol_value(symbol(d2)) == Some(d2));
    assert(symbol_value(symbol(d3)) == Some(d3));
}

/// The symbol of a base-36 digit.
fn to_symbol(v: u32) -> (b: u8)
    requires
        v < 36,
    ensures
        b == symbol(v as nat),
{
    if v < 10 {
        (48 + v) as u8
    } else {
        (55 + v) as u8
    }
}

/// The base-36 digit of a symbol.
fn from_symbol(b: u8) -> (v: Option<u32>)
    ensures
        v matches Some(d) ==> symbol_value(b) == Some(d as nat) && d < 36,
        v is None ==> symbol_value(b) is None,
{
    if 48 <= b && b <= 57 {
        Some((b - 48) as u32)
    } else if 65 <= b && b <= 90 {
        Some((b - 55) as u32)
    } else {
        None
    }
}

/// Appends the code of `port` to `out`.
pub fn write_code(out: &mut Vec<u8>, port: u16)
    ensures
        final(out)@ == old(out)@ + encode(port),
{
    let x: u32 = SCHEME * 65536 + port as u32;
    out.push(to_symbol(x / 46656));
    out.push(to_symbol(x / 1296 % 36));
    out.push(to_symbol(x / 36 % 36));
    out.push(to_symbol(x % 36));
    assert(out@ =~= old(out)@ + encode(port));
}

/// Reads the four bytes at `from` as a code. Where there are no four bytes,
/// there is no code.
pub fn read_code(bytes: &Vec<u8>, from: usize) -> (out: Option<u16>)
    ensures
        out == if from + 4 <= bytes.len() {
            decode(bytes@.subrange(from as int, from + 4))
        } else {
            None
        },
{
    if from > bytes.len() || bytes.len() - from < 4 {
        return None;
    }
    let ghost code = bytes@.subrange(from as int, from + 4);
    assert(code.len() == 4);
    assert(code[0] == bytes@[from as int] && code[1] == bytes@[from + 1] && code[2] == bytes@[from
        + 2] && code[3] == bytes@[from + 3]);
    let d0 = match from_symbol(bytes[from]) {
        Some(d) => d,
        None => {
            return None;
        },
    };
    let d1 = match from_symbol(bytes[from + 1]) {
        Some(d) => d,
        None => {
            return None;
        },
    };
    let d2 = match from_symbol(bytes[from + 2]) {
        Some(d) => d,
        None => {
            return None;
        },
    };
    let d3 = match from_symbol(bytes[from + 3]) {
        Some(d) => d,
        None => {
            return None;
        },
    };
    let x: u32 = d0 * 46656 + d1 * 1296 + d2 * 36 + d3;
    assert(spelled(code) == Some(x as nat));
    if x / 65536 == SCHEME && x % 65536 >= 1 {
        Some((x % 65536) as u16)
    } else {
        None
    }
}

/// A room: the port of the hosted game, and the code that names it.
pub struct Room {
    code: String,
    port: u16,
}

impl View for Room {
    type V = u16;

    /// A room is its port; the code follows from it.
    closed spec fn view(&self) -> u16 {
        self.port
    }
}

impl Room {
    #[verifier::type_invariant]
    spec fn well_formed(self) -> bool {
        self.code@ == ascii_text(encode(self.port))
    }

    /// The room of the game hosted on `port`.
    pub fn create(port: u16) -> (room: Room)
        ensures
            room@ == port,
    {
        let mut bytes: Vec<u8> = Vec::new();
        write_code(&mut bytes, port);
        Room { code: to_text(&bytes), port }
    }

    /// The room that `code` names. `None` unless `code` is, letter for letter,
    /// the code of a port that can be joined.
    pub fn from(code: &str) -> (out: Option<Room>)
        ensures
            out matches Some(room) ==> valid_port(room@) && code@ == ascii_text(encode(room@)),
            out is None ==> forall|port: u16|
                valid_port(port) ==> code@ != ascii_text(#[trigger] encode(port)),
    {
        let len: usize = code.unicode_len();
        if len != 4 {
            return None;
        }
        let mut bytes: Vec<u8> = Vec::new();
        let mut i: usize = 0;
        while i < 4
            invariant
                i <= 4,
                code@.len() == 4,
                bytes@.len() == i,
                forall|j: int| 0 <= j < i ==> #[trigger] bytes@[j] < 128,
                forall|j: int| 0 <= j < i ==> (#[trigger] bytes@[j]) as char == code@[j],
            decreases 4 - i,
        {
            let c: char = code.get_char(i);
            if c > '\x7f' {
                proof {
                    assert forall|port: u16| valid_port(port) implies code@ != ascii_text(
                        #[trigger] encode(port),
                    ) by {
                        assert(ascii_text(encode(port))[i as int] == encode(port)[i as int] as char);
                    }
                }
                return None;
            }
            let b: u8 = c as u8;
            assert(b < 128 && b as char == c);
            bytes.push(b);
            i += 1;
        }
        assert(code@ =~= ascii_text(bytes@));
        assert(bytes@.subrange(0, 4) =~= bytes@);
        match read_code(&bytes, 0) {
            Some(port) => {
                proof {
                    lemma_encode_decode(bytes@);
                }
                Some(Room::create(port))
            },
            None => {
                proof {
                    assert forall|port: u16| valid_port(port) implies code@ != ascii_text(
                        #[trigger] encode(port),
                    ) by {
                        if code@ == ascii_text(encode(port)) {
                            lemma_ascii_text_injective(bytes@, encode(port));
                            lemma_decode_encode(port);
                        }
                    }
                }
                None
            },
        }
    }

    /// The port of the hosted game.
    pub fn port(&self) -> (port: u16)
        ensures
            port == self@,
    {
        self.port
    }

    /// The code that names the room.
    pub fn code(&self) -> (code: &String)
        ensures
            code@ == ascii_text(encode(self@)),
    {
        proof {
            use_type_invariant(self);
        }
        &self.code
    }

    /// Whether a guest can join the room: whether its code decodes.
    pub fn joinable(&self) -> (out: bool)
        ensures
            out == valid_port(self@),
    {
        self.port >= 1
    }
}

impl Clone for Room {
    fn clone(&self) -> (out: Room)
        ensures
            out@ == self@,
    {
        Room::create(self.port)
    }
}

/// Two byte strings that read as the same text are the same bytes.
pub proof fn lemma_ascii_text_injective(x: Seq<u8>, y: Seq<u8>)
    requires
        ascii_text(x) == ascii_text(y),
    ensures
        x == y,
{
    assert(x.len() == ascii_text(x).len());
    assert(y.len() == ascii_text(y).len());
    assert forall|i: int| 0 <= i < x.len() implies x[i] == y[i] by {
        assert(ascii_text(x)[i] == x[i] as char);
        assert(ascii_text(y)[i] == y[i] as char);
    }
    assert(x =~= y);
}

} // verus!
