//! ASCII text as bytes: decimal and hexadecimal numerals, and the bridge from
//! bytes to `String`.
//!
//! Everything the library writes out (addresses, ports, room codes, the
//! discovery payload) is plain ASCII, so the numerals are specified over
//! `Seq<u8>` and turned into a `String` only where one is needed.

use vstd::prelude::*;

verus! {

/// The characters that a sequence of bytes stands for, one per byte.
pub open spec fn ascii_text(bytes: Seq<u8>) -> Seq<char> {
    bytes.map_values(|b: u8| b as char)
}

/// The byte of the decimal digit `d`.
pub open spec fn digit_byte(d: nat) -> u8 {
    (48 + d) as u8
}

/// The shortest decimal numeral of `n`: no sign, no leading zero.
pub open spec fn decimal(n: nat) -> Seq<u8>
    decreases n,
{
    if n < 10 {
        seq![digit_byte(n)]
    } else {
        decimal(n / 10).push(digit_byte(n % 10))
    }
}

/// The number that a string of decimal digits denotes, read left to right.
pub open spec fn decimal_value(digits: Seq<u8>) -> nat
    decreases digits.len(),
{
    if digits.len() == 0 {
        0
    } else {
        decimal_value(digits.drop_last()) * 10 + (digits.last() - 48) as nat
    }
}

/// Whether every byte of `bytes` is a decimal digit.
pub open spec fn all_digits(bytes: Seq<u8>) -> bool {
    forall|i: int| 0 <= i < bytes.len() ==> 48 <= #[trigger] bytes[i] <= 57
}

/// The byte of the hexadecimal digit `d`, in lower case.
pub open spec fn hex_byte(d: nat) -> u8 {
    if d < 10 {
        (48 + d) as u8
    } else {
        (87 + d) as u8
    }
}

/// The shortest lower-case hexadecimal numeral of `n`.
pub open spec fn hexadecimal(n: nat) -> Seq<u8>
    decreases n,
{
    if n < 16 {
        seq![hex_byte(n)]
    } else {
        hexadecimal(n / 16).push(hex_byte(n % 16))
    }
}

/// A numeral is never empty, and holds digits only.
pub proof fn lemma_decimal_shape(n: nat)
    ensures
        decimal(n).len() >= 1,
        all_digits(decimal(n)),
        n < 10 <==> decimal(n).len() == 1,
        n >= 1 ==> decimal(n)[0] != 48,
        n == 0 ==> decimal(n) == seq![48u8],
    decreases n,
{
    if n >= 10 {
        lemma_decimal_shape(n / 10);
        let head = decimal(n / 10);
        assert forall|i: int| 0 <= i < decimal(n).len() implies 48 <= #[trigger] decimal(n)[i]
            <= 57 by {
            if i < head.len() {
                assert(decimal(n)[i] == head[i]);
            }
        }
        assert(decimal(n)[0] == head[0]);
    }
}

/// Reading a numeral gives back the number it was written from.
pub proof fn lemma_decimal_value(n: nat)
    ensures
        decimal_value(decimal(n)) == n,
    decreases n,
{
    if n < 10 {
        let s = decimal(n);
        assert(s.drop_last() =~= Seq::<u8>::empty());
        assert(decimal_value(s.drop_last()) == 0);
    } else {
        lemma_decimal_value(n / 10);
        let s = decimal(n);
        assert(s.drop_last() =~= decimal(n / 10));
    }
}

/// Two numbers with the same numeral are the same number.
pub proof fn lemma_decimal_injective(n: nat, m: nat)
    requires
        decimal(n) == decimal(m),
    ensures
        n == m,
{
    lemma_decimal_value(n);
    lemma_decimal_value(m);
}

/// A numeral of at most `k` digits denotes a number below `10^k`; stated for
/// the lengths the library reads.
pub proof fn lemma_decimal_len(n: nat)
    ensures
        n < 100 ==> decimal(n).len() <= 2,
        n < 1000 ==> decimal(n).len() <= 3,
        n < 10000 ==> decimal(n).len() <= 4,
        n < 100000 ==> decimal(n).len() <= 5,
{
    reveal_with_fuel(decimal, 6);
}

/// `String::push`: the string is then one character longer, and that
/// character is `c`.
#[verifier::external_body]
pub(crate) fn push_char(out: &mut String, c: char)
    ensures
        final(out)@ == old(out)@.push(c),
{
    out.push(c)
}

/// The string whose characters are the given bytes, one per byte.
pub fn to_text(bytes: &Vec<u8>) -> (out: String)
    ensures
        out@ == ascii_text(bytes@),
{
    let mut out = String::new();
    let mut i: usize = 0;
    while i < bytes.len()
        invariant
            i <= bytes.len(),
            out@ == ascii_text(bytes@.take(i as int)),
        decreases bytes.len() - i,
    {
        push_char(&mut out, bytes[i] as char);
        assert(bytes@.take(i + 1) =~= bytes@.take(i as int).push(bytes@[i as int]));
        assert(ascii_text(bytes@.take(i + 1)) =~= ascii_text(bytes@.take(i as int)).push(
            bytes@[i as int] as char,
        ));
        i += 1;
    }
    assert(bytes@.take(i as int) =~= bytes@);
    out
}

/// Appends the decimal numeral of `n` to `out`.
pub fn push_decimal(out: &mut Vec<u8>, n: u64)
    ensures
        final(out)@ == old(out)@ + decimal(n as nat),
    decreases n,
{
    if n >= 10 {
        push_decimal(out, n / 10);
    }
    let digit: u8 = (n % 10) as u8;
    out.push(48 + digit);
    assert(out@ =~= old(out)@ + decimal(n as nat));
}

/// Appends the lower-case hexadecimal numeral of `n` to `out`.
pub fn push_hexadecimal(out: &mut Vec<u8>, n: u64)
    ensures
        final(out)@ == old(out)@ + hexadecimal(n as nat),
    decreases n,
{
    if n >= 16 {
        push_hexadecimal(out, n / 16);
    }
    let digit: u8 = (n % 16) as u8;
    if digit < 10 {
        out.push(48 + digit);
    } else {
        out.push(87 + digit);
    }
    assert(out@ =~= old(out)@ + hexadecimal(n as nat));
}

/// Reads the bytes `bytes[from..to]` as the decimal numeral of a number up to
/// `limit`. Only the shortest numeral of a number is accepted: "007" and the
/// empty string are not. Where `from..to` is no range of `bytes`, there is
/// nothing to read.
pub fn parse_decimal(bytes: &Vec<u8>, from: usize, to: usize, limit: u32) -> (out: Option<u32>)
    ensures
        out matches Some(n) ==> from <= to <= bytes.len() && n <= limit && bytes@.subrange(
            from as int,
            to as int,
        ) == decimal(n as nat),
        out is None ==> !(from <= to <= bytes.len()) || forall|n: nat|
            n <= limit ==> bytes@.subrange(from as int, to as int) != #[trigger] decimal(n),
{
    if from > to || to > bytes.len() {
        return None;
    }
    let ghost text = bytes@.subrange(from as int, to as int);
    if to == from || to - from > 10 {
        proof {
            assert forall|n: nat| n <= limit implies text != #[trigger] decimal(n) by {
                lemma_decimal_shape(n);
                lemma_decimal_bound(n);
            }
        }
        return None;
    }
    if bytes[from] == 48 && to - from > 1 {
        proof {
            assert forall|n: nat| n <= limit implies text != #[trigger] decimal(n) by {
                lemma_decimal_shape(n);
                assert(text[0] == 48);
            }
        }
        return None;
    }
    let mut value: u64 = 0;
    let mut i: usize = from;
    while i < to
        invariant
            from <= i <= to <= bytes.len(),
            to - from <= 10,
            text == bytes@.subrange(from as int, to as int),
            i > from ==> bytes@.subrange(from as int, i as int) == decimal(value as nat),
            i == from ==> value == 0,
            i - from <= 10,
            to - from > 1 ==> bytes@[from as int] != 48,
            value < pow10((i - from) as nat),
        decreases to - i,
    {
        let b: u8 = bytes[i];
        if b < 48 || b > 57 {
            proof {
                assert forall|n: nat| n <= limit implies text != #[trigger] decimal(n) by {
                    lemma_decimal_shape(n);
                    assert(text[i - from] == b);
                }
            }
            return None;
        }
        let ghost before = value;
        proof {
            lemma_pow10_step((i - from) as nat);
            lemma_pow10_bounded((i - from + 1) as nat);
        }
        value = value * 10 + (b - 48) as u64;
        proof {
            let prefix = bytes@.subrange(from as int, i as int);
            let next = bytes@.subrange(from as int, i + 1);
            assert(next =~= prefix.push(b));
            if i == from {
                assert(next =~= seq![b]);
            } else {
                lemma_decimal_shape(before as nat);
                assert(prefix[0] == bytes@[from as int]);
                assert(before != 0);
                assert(value >= 10);
                assert(value as nat / 10 == before as nat);
                assert(value as nat % 10 == (b - 48) as nat);
            }
        }
        i += 1;
    }
    assert(text == decimal(value as nat));
    if value <= limit as u64 {
        Some(value as u32)
    } else {
        proof {
            assert forall|n: nat| n <= limit implies text != #[trigger] decimal(n) by {
                if text == decimal(n) {
                    lemma_decimal_injective(n, value as nat);
                }
            }
        }
        None
    }
}

/// Ten to the power `k`.
pub open spec fn pow10(k: nat) -> nat
    decreases k,
{
    if k == 0 {
        1
    } else {
        10 * pow10((k - 1) as nat)
    }
}

proof fn lemma_pow10_step(k: nat)
    ensures
        pow10(k + 1) == 10 * pow10(k),
        pow10(k) >= 1,
    decreases k,
{
    if k > 0 {
        lemma_pow10_step((k - 1) as nat);
    }
}

proof fn lemma_pow10_bounded(k: nat)
    requires
        k <= 10,
    ensures
        pow10(k) <= 10_000_000_000,
{
    reveal_with_fuel(pow10, 12);
}

/// A number that fits in 32 bits has a numeral of at most ten digits.
proof fn lemma_decimal_bound(n: nat)
    requires
        n <= u32::MAX,
    ensures
        decimal(n).len() <= 10,
{
    reveal_with_fuel(decimal, 11);
}

} // verus!
