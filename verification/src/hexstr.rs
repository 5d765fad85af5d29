//! Lowercase hex encoding of key bytes, and the decoder that inverts it.

use vstd::prelude::*;

verus! {

/// The lowercase hex digit for one value below sixteen.
pub open spec fn hex_digit_char(v: u8) -> char
    recommends
        v < 16,
{
    if v == 0 {
        '0'
    } else if v == 1 {
        '1'
    } else if v == 2 {
        '2'
    } else if v == 3 {
        '3'
    } else if v == 4 {
        '4'
    } else if v == 5 {
        '5'
    } else if v == 6 {
        '6'
    } else if v == 7 {
        '7'
    } else if v == 8 {
        '8'
    } else if v == 9 {
        '9'
    } else if v == 10 {
        'a'
    } else if v == 11 {
        'b'
    } else if v == 12 {
        'c'
    } else if v == 13 {
        'd'
    } else if v == 14 {
        'e'
    } else {
        'f'
    }
}

/// The two lowercase hex digits of one byte, high digit first.
pub open spec fn hex_of_byte(b: u8) -> Seq<char> {
    seq![hex_digit_char(b / 16), hex_digit_char(b % 16)]
}

/// The lowercase hex encoding of a byte sequence: two digits per byte, in
/// order. An empty sequence encodes to the empty string.
pub open spec fn hex_of(bytes: Seq<u8>) -> Seq<char>
    decreases bytes.len(),
{
    if bytes.len() == 0 {
        Seq::empty()
    } else {
        hex_of_byte(bytes[0]) + hex_of(bytes.drop_first())
    }
}

/// The value of one lowercase hex digit, or nothing for any other character.
pub open spec fn hex_val(c: char) -> Option<u8> {
    if c == '0' {
        Some(0u8)
    } else if c == '1' {
        Some(1u8)
    } else if c == '2' {
        Some(2u8)
    } else if c == '3' {
        Some(3u8)
    } else if c == '4' {
        Some(4u8)
    } else if c == '5' {
        Some(5u8)
    } else if c == '6' {
        Some(6u8)
    } else if c == '7' {
        Some(7u8)
    } else if c == '8' {
        Some(8u8)
    } else if c == '9' {
        Some(9u8)
    } else if c == 'a' {
        Some(10u8)
    } else if c == 'b' {
        Some(11u8)
    } else if c == 'c' {
        Some(12u8)
    } else if c == 'd' {
        Some(13u8)
    } else if c == 'e' {
        Some(14u8)
    } else if c == 'f' {
        Some(15u8)
    } else {
        None
    }
}

/// The bytes a lowercase hex string denotes, or nothing if its length is odd
/// or any character is not a lowercase hex digit.
pub open spec fn decode_hex_spec(s: Seq<char>) -> Option<Seq<u8>>
    decreases s.len(),
{
    if s.len() == 0 {
        Some(Seq::empty())
    } else if s.len() == 1 {
        None
    } else {
        match (hex_val(s[0]), hex_val(s[1])) {
            (Some(hi), Some(lo)) => match decode_hex_spec(s.skip(2)) {
                Some(rest) => Some(seq![(hi * 16 + lo) as u8] + rest),
                None => None,
            },
            _ => None,
        }
    }
}

/// Decoding inverts encoding: digit level.
proof fn lemma_hex_digit_round_trip(v: u8)
    requires
        v < 16,
    ensures
        hex_val(hex_digit_char(v)) == Some(v),
{
}

/// Decoding the hex encoding of any byte sequence yields exactly that
/// sequence, for empty and non-empty input alike.
pub proof fn lemma_hex_round_trip(bytes: Seq<u8>)
    ensures
        decode_hex_spec(hex_of(bytes)) == Some(bytes),
    decreases bytes.len(),
{
    if bytes.len() == 0 {
        assert(bytes =~= Seq::<u8>::empty());
    } else {
        let b = bytes[0];
        let rest = bytes.drop_first();
        let s = hex_of(bytes);
        lemma_hex_digit_round_trip(b / 16);
        lemma_hex_digit_round_trip(b % 16);
        lemma_hex_round_trip(rest);
        assert(s[0] == hex_digit_char(b / 16));
        assert(s[1] == hex_digit_char(b % 16));
        assert(s.skip(2) =~= hex_of(rest));
        assert((b / 16) * 16 + b % 16 == b);
        assert(seq![b] + rest =~= bytes);
    }
}

/// Relies on hex::encode: each input byte becomes two lowercase hex digits,
/// in input order; empty input gives the empty string.
#[verifier::external_body]
pub(crate) fn encode_hex(bytes: &[u8]) -> (r: String)
    ensures
        r@ == hex_of(bytes@),
{
    hex::encode(bytes)
}

/// Whether accumulating `out` and then decoding the rest of `s` from
/// position `i` on agrees with decoding `s` whole.
spec fn decode_continues(s: Seq<char>, i: int, out: Seq<u8>) -> bool {
    decode_hex_spec(s) == match decode_hex_spec(s.skip(i)) {
        Some(rest) => Some(out + rest),
        None => None::<Seq<u8>>,
    }
}

/// The value of one lowercase hex digit, or nothing for any other character.
fn hex_val_exec(c: char) -> (r: Option<u8>)
    ensures
        r == hex_val(c),
        r matches Some(v) ==> v < 16,
{
    match c {
        '0' => Some(0),
        '1' => Some(1),
        '2' => Some(2),
        '3' => Some(3),
        '4' => Some(4),
        '5' => Some(5),
        '6' => Some(6),
        '7' => Some(7),
        '8' => Some(8),
        '9' => Some(9),
        'a' => Some(10),
        'b' => Some(11),
        'c' => Some(12),
        'd' => Some(13),
        'e' => Some(14),
        'f' => Some(15),
        _ => None,
    }
}

/// Decode a lowercase hex string to the bytes it denotes. Returns nothing
/// if the length is odd or a character is not a lowercase hex digit.
pub fn decode_hex(s: &str) -> (r: Option<Vec<u8>>)
    ensures
        match r {
            Some(v) => decode_hex_spec(s@) == Some(v@),
            None => decode_hex_spec(s@) is None,
        },
{
    let n = s.unicode_len();
    let mut out: Vec<u8> = Vec::new();
    let mut i: usize = 0;
    proof {
        assert(s@.skip(0) =~= s@);
        if decode_hex_spec(s@) is Some {
            assert(Seq::<u8>::empty() + decode_hex_spec(s@).unwrap() =~= decode_hex_spec(
                s@,
            ).unwrap());
        }
    }
    while i + 1 < n
        invariant
            n == s@.len(),
            i <= n,
            i % 2 == 0,
            decode_continues(s@, i as int, out@),
        decreases n - i,
    {
        let hi = match hex_val_exec(s.get_char(i)) {
            Some(v) => v,
            None => {
                return None;
            },
        };
        let lo = match hex_val_exec(s.get_char(i + 1)) {
            Some(v) => v,
            None => {
                return None;
            },
        };
        let b: u8 = hi * 16 + lo;
        let ghost prior = out@;
        out.push(b);
        proof {
            let tail = s@.skip(i as int);
            assert(tail[0] == s@[i as int]);
            assert(tail[1] == s@[i + 1]);
            assert(tail.skip(2) =~= s@.skip(i + 2));
            assert(hex_val(tail[0]) == Some(hi));
            assert(hex_val(tail[1]) == Some(lo));
            let rest0 = decode_hex_spec(s@.skip(i + 2));
            assert(decode_hex_spec(tail) == (match rest0 {
                Some(rest) => Some(seq![b] + rest),
                None => None::<Seq<u8>>,
            }));
            if rest0 is Some {
                assert(out@ + rest0.unwrap() =~= prior + (seq![b] + rest0.unwrap()));
            }
            assert(decode_continues(s@, i + 2, out@));
        }
        i = i + 2;
    }
    if i == n {
        proof {
            assert(s@.skip(n as int) =~= Seq::<char>::empty());
            assert(decode_hex_spec(s@.skip(i as int)) == Some(Seq::<u8>::empty()));
            assert(out@ + Seq::<u8>::empty() =~= out@);
        }
        Some(out)
    } else {
        proof {
            assert(s@.skip(i as int).len() == 1);
            assert(decode_hex_spec(s@.skip(i as int)) is None);
        }
        None
    }
}

} // verus!

