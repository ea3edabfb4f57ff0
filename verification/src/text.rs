//! Text helpers: rebuilding owned strings from bytes, and rendering the
//! decimal digits that the canonical identifier form needs.

use vstd::prelude::*;
use vstd::utf8::encode_utf8;
use vstd::utf8::encode_utf8_decode_utf8;
use vstd::utf8::encode_utf8_valid_utf8;
use vstd::utf8::is_ascii_chars;
use vstd::utf8::is_ascii_chars_encode_utf8;
use vstd::utf8::valid_utf8;

verus! {

/// The character of one decimal digit.
pub open spec fn digit_char(d: nat) -> char
    recommends
        d < 10,
{
    ((0x30 + d) as u8) as char
}

/// The ASCII byte of one decimal digit.
pub open spec fn digit_byte(d: nat) -> u8
    recommends
        d < 10,
{
    (0x30 + d) as u8
}

/// The decimal digits of a number, most significant first, no leading zero.
pub open spec fn dec_digits(n: nat) -> Seq<char>
    decreases n,
{
    if n < 10 {
        seq![digit_char(n)]
    } else {
        dec_digits(n / 10) + seq![digit_char(n % 10)]
    }
}

/// The ASCII bytes of the decimal digits of a number.
pub open spec fn dec_digit_bytes(n: nat) -> Seq<u8>
    decreases n,
{
    if n < 10 {
        seq![digit_byte(n)]
    } else {
        dec_digit_bytes(n / 10) + seq![digit_byte(n % 10)]
    }
}

/// The decimal form of a signed value: a leading minus sign for a negative
/// one, then the digits of its magnitude.
pub open spec fn spec_i64_dec(v: int) -> Seq<char> {
    if v < 0 {
        seq!['-'] + dec_digits((-v) as nat)
    } else {
        dec_digits(v as nat)
    }
}

/// Digits padded with leading zeros to a width of at least four.
pub open spec fn zero_pad4(s: Seq<char>) -> Seq<char> {
    if s.len() >= 4 {
        s
    } else {
        Seq::new((4 - s.len()) as nat, |i: int| '0') + s
    }
}

/// The digit characters and the digit bytes run in parallel, and all of them
/// are ASCII.
proof fn lemma_digits_parallel(n: nat)
    ensures
        dec_digits(n).len() == dec_digit_bytes(n).len(),
        dec_digits(n).len() >= 1,
        forall|i: int|
            0 <= i < dec_digits(n).len() ==> (#[trigger] dec_digits(n)[i]) == (dec_digit_bytes(
                n,
            )[i] as char) && dec_digit_bytes(n)[i] < 0x80,
    decreases n,
{
    if n < 10 {
    } else {
        lemma_digits_parallel(n / 10);
    }
}

/// Append the decimal digits of `n`, most significant first.
fn push_dec_u64(out: &mut Vec<u8>, n: u64)
    ensures
        final(out)@ == old(out)@ + dec_digit_bytes(n as nat),
    decreases n,
{
    if n >= 10 {
        push_dec_u64(out, n / 10);
    }
    out.push(0x30 + (n % 10) as u8);
    proof {
        if n < 10 {
            assert(final(out)@ =~= old(out)@ + dec_digit_bytes(n as nat));
        } else {
            assert(final(out)@ =~= old(out)@ + dec_digit_bytes(n as nat));
        }
    }
}

/// A byte vector that is the UTF-8 encoding of some characters spells the
/// string of those characters.
fn ascii_bytes_to_string(bytes: Vec<u8>, Ghost(chars): Ghost<Seq<char>>) -> (r: String)
    requires
        encode_utf8(chars) == bytes@,
    ensures
        r@ == chars,
{
    proof {
        encode_utf8_valid_utf8(chars);
    }
    let r = string_from_utf8(bytes);
    match r {
        Some(s) => {
            proof {
                encode_utf8_decode_utf8(s@);
                encode_utf8_decode_utf8(chars);
            }
            s
        },
        None => {
            // cannot happen: the bytes are the UTF-8 encoding of `chars`
            String::new()
        },
    }
}

/// The decimal form of a signed value, as an owned string.
pub fn i64_dec_string(v: i64) -> (r: String)
    ensures
        r@ == spec_i64_dec(v as int),
{
    let mut bytes: Vec<u8> = Vec::new();
    if v < 0 {
        bytes.push(0x2d);
    }
    let mag: u64 = if v >= 0 {
        v as u64
    } else {
        (-(v as i128)) as u64
    };
    push_dec_u64(&mut bytes, mag);
    let ghost chars = spec_i64_dec(v as int);
    proof {
        lemma_digits_parallel(mag as nat);
        if v < 0 {
            assert(chars =~= seq!['-'] + dec_digits(mag as nat));
            assert(bytes@ =~= seq![0x2du8] + dec_digit_bytes(mag as nat));
        }
        assert(bytes@.len() == chars.len());
        assert forall|i: int| 0 <= i < chars.len() implies (#[trigger] chars[i]) as u8 == bytes@[i]
            && bytes@[i] < 0x80 by {
            if v < 0 && i == 0 {
                assert(chars[0] == '-');
            }
        }
        assert(is_ascii_chars(chars));
        is_ascii_chars_encode_utf8(chars);
        assert(encode_utf8(chars) =~= bytes@);
    }
    ascii_bytes_to_string(bytes, Ghost(chars))
}

/// How many decimal digits small numbers have.
proof fn lemma_dec_digits_len(n: nat)
    ensures
        n < 10 ==> dec_digits(n).len() == 1,
        10 <= n < 100 ==> dec_digits(n).len() == 2,
        100 <= n < 1000 ==> dec_digits(n).len() == 3,
        1000 <= n ==> dec_digits(n).len() >= 4,
    decreases n,
{
    if n >= 10 {
        lemma_dec_digits_len(n / 10);
    }
}

/// The decimal form of a sequence number, zero-padded to at least four
/// digits.
pub fn u32_dec_string_pad4(v: u32) -> (r: String)
    ensures
        r@ == zero_pad4(dec_digits(v as nat)),
{
    proof {
        lemma_dec_digits_len(v as nat);
        lemma_digits_parallel(v as nat);
    }
    let mut bytes: Vec<u8> = Vec::new();
    if v < 10 {
        bytes.push(0x30);
        bytes.push(0x30);
        bytes.push(0x30);
    } else if v < 100 {
        bytes.push(0x30);
        bytes.push(0x30);
    } else if v < 1000 {
        bytes.push(0x30);
    }
    let ghost dlen = dec_digits(v as nat).len();
    let ghost padn: nat = if dlen >= 4 {
        0nat
    } else {
        (4 - dlen) as nat
    };
    proof {
        assert(bytes@ =~= Seq::new(padn, |i: int| 0x30u8));
    }
    push_dec_u64(&mut bytes, v as u64);
    let ghost chars = zero_pad4(dec_digits(v as nat));
    proof {
        assert(chars =~= Seq::new(padn, |i: int| '0') + dec_digits(v as nat));
        assert(bytes@ == Seq::new(padn, |i: int| 0x30u8) + dec_digit_bytes(v as nat));
        assert(bytes@.len() == chars.len());
        assert forall|i: int| 0 <= i < chars.len() implies (#[trigger] chars[i]) as u8 == bytes@[i]
            && bytes@[i] < 0x80 by {
            if i < padn {
                assert(chars[i] == '0');
                assert(bytes@[i] == 0x30u8);
            } else {
                assert(chars[i] == dec_digits(v as nat)[i - padn]);
                assert(bytes@[i] == dec_digit_bytes(v as nat)[i - padn]);
            }
        }
        assert(is_ascii_chars(chars));
        is_ascii_chars_encode_utf8(chars);
        assert(encode_utf8(chars) =~= bytes@);
    }
    ascii_bytes_to_string(bytes, Ghost(chars))
}

/// Relies on String::from_utf8: when the bytes are valid UTF-8 it returns
/// the string whose byte encoding is exactly those bytes, and otherwise it
/// fails.
#[verifier::external_body]
pub(crate) fn string_from_utf8(bytes: Vec<u8>) -> (r: Option<String>)
    ensures
        r is Some <==> valid_utf8(bytes@),
        r matches Some(s) ==> encode_utf8(s@) == bytes@,
{
    String::from_utf8(bytes).ok()
}

} // verus!
