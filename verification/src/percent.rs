//! Percent-decoding of URL strings, tolerant of malformed escapes.
//!
//! A `%` followed by two hexadecimal digits decodes to the byte those
//! digits denote; any byte that does not open such a triple passes
//! through unchanged. The reconstructed bytes are then read as UTF-8,
//! with invalid sequences replaced rather than rejected.

use vstd::prelude::*;
use vstd::slice::slice_to_vec;
use vstd::utf8::{
    decode_utf8, encode_scalar, encode_utf8, encode_utf8_decode_utf8, encode_utf8_valid_utf8,
    valid_utf8,
};

verus! {

/// True of the ASCII code of a hexadecimal digit, either case.
pub open spec fn is_hex_digit(b: u8) -> bool {
    (0x30 <= b && b <= 0x39) || (0x41 <= b && b <= 0x46) || (0x61 <= b && b <= 0x66)
}

/// The numeric value of the hexadecimal digit with ASCII code `b`.
pub open spec fn hex_value(b: u8) -> u8
    recommends
        is_hex_digit(b),
{
    if 0x30 <= b && b <= 0x39 {
        (b - 0x30) as u8
    } else if 0x41 <= b && b <= 0x46 {
        (b - 0x41 + 10) as u8
    } else {
        (b - 0x61 + 10) as u8
    }
}

/// Percent-decoding of a byte sequence: each `%XX` triple with two
/// hexadecimal digits becomes the byte `XX` denotes; every other byte,
/// a lone or ill-formed `%` included, is kept as it stands.
pub open spec fn spec_decode(s: Seq<u8>) -> Seq<u8>
    decreases s.len(),
{
    if s.len() == 0 {
        seq![]
    } else if s[0] == 0x25 && s.len() >= 3 && is_hex_digit(s[1]) && is_hex_digit(s[2]) {
        seq![(hex_value(s[1]) * 16 + hex_value(s[2])) as u8] + spec_decode(s.skip(3))
    } else {
        seq![s[0]] + spec_decode(s.skip(1))
    }
}

/// The numeric value of the hexadecimal digit with ASCII code `b`,
/// or `None` when `b` is no such code.
fn hex_digit_value(b: u8) -> (r: Option<u8>)
    ensures
        r is Some <==> is_hex_digit(b),
        r matches Some(v) ==> v == hex_value(b) && v < 16,
{
    if 0x30 <= b && b <= 0x39 {
        Some(b - 0x30)
    } else if 0x41 <= b && b <= 0x46 {
        Some(b - 0x41 + 10)
    } else if 0x61 <= b && b <= 0x66 {
        Some(b - 0x61 + 10)
    } else {
        None
    }
}

/// Percent-decodes a byte sequence.
pub fn decode_bytes(input: &Vec<u8>) -> (out: Vec<u8>)
    ensures
        out@ == spec_decode(input@),
{
    let mut out: Vec<u8> = Vec::new();
    let mut i: usize = 0;
    proof {
        assert(input@.skip(0) =~= input@);
        assert(spec_decode(input@) =~= out@ + spec_decode(input@.skip(0)));
    }
    while i < input.len()
        invariant
            i <= input.len(),
            spec_decode(input@) == out@ + spec_decode(input@.skip(i as int)),
        decreases input.len() - i,
    {
        let b = input[i];
        let mut consumed: usize = 1;
        let mut decoded: u8 = b;
        if b == 0x25 && input.len() - i > 2 {
            if let Some(hi) = hex_digit_value(input[i + 1]) {
                if let Some(lo) = hex_digit_value(input[i + 2]) {
                    consumed = 3;
                    decoded = hi * 16 + lo;
                }
            }
        }
        proof {
            let rest = input@.skip(i as int);
            assert(rest[0] == input@[i as int]);
            assert(rest.len() >= 3 ==> rest[1] == input@[i + 1] && rest[2] == input@[i + 2]);
            if consumed == 3 {
                assert(spec_decode(rest) == seq![decoded] + spec_decode(rest.skip(3)));
                assert(rest.skip(3) =~= input@.skip(i + 3));
            } else {
                assert(spec_decode(rest) == seq![decoded] + spec_decode(rest.skip(1)));
                assert(rest.skip(1) =~= input@.skip(i + 1));
            }
        }
        out.push(decoded);
        i = i + consumed;
        proof {
            assert(spec_decode(input@) == out@ + spec_decode(input@.skip(i as int)));
        }
    }
    proof {
        assert(input@.skip(i as int) =~= Seq::<u8>::empty());
        assert(out@ =~= out@ + spec_decode(input@.skip(i as int)));
    }
    out
}

/// A byte that a conventional percent-encoder leaves as it stands:
/// an ASCII letter, a digit, or one of `-`, `.`, `_`, `~`.
pub open spec fn is_unreserved(b: u8) -> bool {
    ||| (0x30 <= b && b <= 0x39)
    ||| (0x41 <= b && b <= 0x5A)
    ||| (0x61 <= b && b <= 0x7A)
    ||| b == 0x2D
    ||| b == 0x2E
    ||| b == 0x5F
    ||| b == 0x7E
}

/// The ASCII code of the upper-case hexadecimal digit for `v`.
pub open spec fn hex_digit_of(v: u8) -> u8
    recommends
        v < 16,
{
    if v < 10 {
        (0x30 + v) as u8
    } else {
        (0x41 + v - 10) as u8
    }
}

/// Conventional percent-encoding of a byte sequence: unreserved bytes
/// stand as they are, every other byte becomes a `%XX` triple.
pub open spec fn spec_encode(s: Seq<u8>) -> Seq<u8>
    decreases s.len(),
{
    if s.len() == 0 {
        seq![]
    } else if is_unreserved(s[0]) {
        seq![s[0]] + spec_encode(s.skip(1))
    } else {
        seq![0x25u8, hex_digit_of(s[0] / 16), hex_digit_of(s[0] % 16)] + spec_encode(s.skip(1))
    }
}

/// The ASCII code of the upper-case hexadecimal digit for `v`.
fn hex_digit_char(v: u8) -> (r: u8)
    requires
        v < 16,
    ensures
        r == hex_digit_of(v),
{
    if v < 10 {
        0x30 + v
    } else {
        0x41 + v - 10
    }
}

/// Percent-encodes a byte sequence, escaping every byte that is not
/// unreserved.
pub fn encode_bytes(input: &Vec<u8>) -> (out: Vec<u8>)
    ensures
        out@ == spec_encode(input@),
{
    let mut out: Vec<u8> = Vec::new();
    let mut i: usize = 0;
    proof {
        assert(input@.skip(0) =~= input@);
        assert(spec_encode(input@) =~= out@ + spec_encode(input@.skip(0)));
    }
    while i < input.len()
        invariant
            i <= input.len(),
            spec_encode(input@) == out@ + spec_encode(input@.skip(i as int)),
        decreases input.len() - i,
    {
        let b = input[i];
        proof {
            let rest = input@.skip(i as int);
            assert(rest[0] == input@[i as int]);
            assert(rest.skip(1) =~= input@.skip(i + 1));
        }
        let unreserved = (0x30 <= b && b <= 0x39) || (0x41 <= b && b <= 0x5A) || (0x61 <= b
            && b <= 0x7A) || b == 0x2D || b == 0x2E || b == 0x5F || b == 0x7E;
        if unreserved {
            out.push(b);
        } else {
            out.push(0x25);
            out.push(hex_digit_char(b / 16));
            out.push(hex_digit_char(b % 16));
        }
        i = i + 1;
        proof {
            assert(spec_encode(input@) == out@ + spec_encode(input@.skip(i as int)));
        }
    }
    proof {
        assert(input@.skip(i as int) =~= Seq::<u8>::empty());
        assert(out@ =~= out@ + spec_encode(input@.skip(i as int)));
    }
    out
}

/// True of a character that writes a hexadecimal digit, either case.
pub open spec fn is_hex_digit_char(c: char) -> bool {
    ||| (0x30 <= c as u32 && c as u32 <= 0x39)
    ||| (0x41 <= c as u32 && c as u32 <= 0x46)
    ||| (0x61 <= c as u32 && c as u32 <= 0x66)
}

/// No position of the byte sequence opens a percent escape: wherever
/// a `%` byte stands, two hexadecimal digits do not follow it.
pub open spec fn escape_free_bytes(s: Seq<u8>) -> bool {
    forall|i: int| #![trigger s[i]]
        0 <= i && i + 3 <= s.len() && s[i] == 0x25 ==> !(is_hex_digit(s[i + 1]) && is_hex_digit(
            s[i + 2],
        ))
}

/// No position of the text opens a percent escape: wherever a `%`
/// stands, two hexadecimal digits do not follow it.
pub open spec fn escape_free(s: Seq<char>) -> bool {
    forall|i: int| #![trigger s[i]]
        0 <= i && i + 3 <= s.len() && s[i] == '%' ==> !(is_hex_digit_char(s[i + 1])
            && is_hex_digit_char(s[i + 2]))
}

/// What reading a byte sequence as UTF-8 yields once invalid sequences
/// are replaced; determined by the bytes alone.
pub uninterp spec fn lossy_utf8_of(bytes: Seq<u8>) -> Seq<char>;

/// Relies on `String::from_utf8_lossy`: it reads the bytes as UTF-8,
/// replaces each invalid sequence with U+FFFD, and on valid UTF-8
/// returns exactly the decoded text.
#[verifier::external_body]
fn bytes_to_string_lossy(bytes: &[u8]) -> (r: String)
    ensures
        r@ == lossy_utf8_of(bytes@),
        valid_utf8(bytes@) ==> r@ == decode_utf8(bytes@),
{
    String::from_utf8_lossy(bytes).into_owned()
}

/// Every byte of the UTF-8 encoding of a character beyond the ASCII
/// range has its high bit set.
proof fn lemma_multibyte_bytes_are_high(s: u32)
    requires
        vstd::utf8::is_scalar(s),
        !vstd::utf8::has_width_1_encoding(s),
    ensures
        forall|i: int| 0 <= i < encode_scalar(s).len() ==> encode_scalar(s)[i] >= 0x80,
{
    assert((0xC0u8 | ((s >> 6) & 0x1F) as u8) >= 0x80) by (bit_vector);
    assert((0xE0u8 | ((s >> 12) & 0x0F) as u8) >= 0x80) by (bit_vector);
    assert((0xF0u8 | ((s >> 18) & 0x7) as u8) >= 0x80) by (bit_vector);
    assert((0x80u8 | (s & 0x3F) as u8) >= 0x80) by (bit_vector);
    assert((0x80u8 | ((s >> 6) & 0x3F) as u8) >= 0x80) by (bit_vector);
    assert((0x80u8 | ((s >> 12) & 0x3F) as u8) >= 0x80) by (bit_vector);
}

/// A UTF-8 encoding starts with a byte below 0x80 only when its first
/// character is that very byte, encoded in one byte.
proof fn lemma_first_byte_ascii(chars: Seq<char>)
    requires
        chars.len() > 0,
        encode_utf8(chars)[0] < 0x80,
    ensures
        chars[0] as u32 == encode_utf8(chars)[0],
        encode_scalar(chars[0] as u32).len() == 1,
{
    let c = chars[0];
    let s = c as u32;
    vstd::utf8::char_is_scalar(c);
    assert(encode_utf8(chars)[0] == encode_scalar(s)[0]);
    if vstd::utf8::has_width_1_encoding(s) {
        assert((s & 0x7F) == s) by (bit_vector)
            requires
                s <= 0x7F,
        ;
    } else {
        lemma_multibyte_bytes_are_high(s);
        assert(false);
    }
}

/// UTF-8 encoding opens no percent escape of its own: a text in which
/// no `%` is followed by two hexadecimal digits encodes to bytes with
/// the same property, since `%` and the digits only ever stand as
/// one-byte characters.
proof fn lemma_encode_utf8_escape_free(chars: Seq<char>)
    requires
        escape_free(chars),
    ensures
        escape_free_bytes(encode_utf8(chars)),
    decreases chars.len(),
{
    if chars.len() == 0 {
        assert(encode_utf8(chars) =~= Seq::<u8>::empty());
    } else {
        let c = chars[0];
        let s = c as u32;
        vstd::utf8::char_is_scalar(c);
        let head = encode_scalar(s);
        let rest = chars.drop_first();
        let tail = encode_utf8(rest);
        let bytes = encode_utf8(chars);
        assert(bytes == head + tail);
        assert(escape_free(rest)) by {
            assert forall|i: int| #![trigger rest[i]]
                0 <= i && i + 3 <= rest.len() && rest[i] == '%' implies !(is_hex_digit_char(
                rest[i + 1],
            ) && is_hex_digit_char(rest[i + 2])) by {
                assert(rest[i] == chars[i + 1]);
                assert(rest[i + 1] == chars[i + 2]);
                assert(rest[i + 2] == chars[i + 3]);
            }
        }
        lemma_encode_utf8_escape_free(rest);
        assert forall|i: int| #![trigger bytes[i]]
            0 <= i && i + 3 <= bytes.len() && bytes[i] == 0x25 implies !(is_hex_digit(
            bytes[i + 1],
        ) && is_hex_digit(bytes[i + 2])) by {
            if i >= head.len() {
                let j = i - head.len();
                assert(bytes[i] == tail[j]);
                assert(bytes[i + 1] == tail[j + 1]);
                assert(bytes[i + 2] == tail[j + 2]);
            } else {
                if !vstd::utf8::has_width_1_encoding(s) {
                    lemma_multibyte_bytes_are_high(s);
                    assert(false);
                }
                assert((s & 0x7F) == s) by (bit_vector)
                    requires
                        s <= 0x7F,
                ;
                assert(head.len() == 1 && i == 0);
                vstd::utf8::char_u32_cast(c, s);
                vstd::utf8::char_u32_cast('%', 0x25);
                assert(c == '%');
                if is_hex_digit(bytes[1]) && is_hex_digit(bytes[2]) {
                    assert(tail[0] == bytes[1] && tail[1] == bytes[2]);
                    assert(rest.len() > 0);
                    lemma_first_byte_ascii(rest);
                    assert(is_hex_digit_char(chars[1]));
                    let rest2 = rest.drop_first();
                    assert(tail == encode_scalar(rest[0] as u32) + encode_utf8(rest2));
                    assert(encode_utf8(rest2)[0] == tail[1]);
                    assert(rest2.len() > 0);
                    lemma_first_byte_ascii(rest2);
                    assert(rest2[0] == chars[2]);
                    assert(is_hex_digit_char(chars[2]));
                    assert(chars[0] == '%' && chars.len() >= 3);
                    assert(false);
                }
            }
        }
    }
}

/// Decodes a percent-encoded string.
///
/// Each `%XX` triple with two hexadecimal digits becomes the byte the
/// digits denote; malformed escapes pass through unchanged. The
/// reconstructed bytes are read as UTF-8, invalid sequences replaced.
/// Never fails; a string with no `%XX` escape, a fortiori one without
/// `%`, comes back as it went in.
pub fn decode(encoded: &str) -> (r: String)
    ensures
        r@ == lossy_utf8_of(spec_decode(encode_utf8(encoded@))),
        valid_utf8(spec_decode(encode_utf8(encoded@))) ==> r@ == decode_utf8(
            spec_decode(encode_utf8(encoded@)),
        ),
        escape_free(encoded@) ==> r@ == encoded@,
        !encoded@.contains('%') ==> r@ == encoded@,
{
    let bytes: Vec<u8> = slice_to_vec(encoded.as_bytes());
    let decoded = decode_bytes(&bytes);
    let r = bytes_to_string_lossy(decoded.as_slice());
    proof {
        if !encoded@.contains('%') {
            assert forall|i: int| 0 <= i < encoded@.len() implies encoded@[i] != '%' by {
                if encoded@[i] == '%' {
                    assert(encoded@.contains('%'));
                }
            }
            assert(escape_free(encoded@));
        }
        if escape_free(encoded@) {
            lemma_encode_utf8_escape_free(encoded@);
            lemma_decode_escape_free_is_identity(encode_utf8(encoded@));
            encode_utf8_valid_utf8(encoded@);
            encode_utf8_decode_utf8(encoded@);
        }
    }
    r
}

/// Decoding a sequence in which no `%` is followed by two hexadecimal
/// digits gives it back unchanged: no escape can open, so every byte
/// passes through.
pub proof fn lemma_decode_escape_free_is_identity(s: Seq<u8>)
    requires
        escape_free_bytes(s),
    ensures
        spec_decode(s) == s,
    decreases s.len(),
{
    if s.len() == 0 {
        assert(spec_decode(s) =~= s);
    } else {
        assert(!(s[0] == 0x25 && s.len() >= 3 && is_hex_digit(s[1]) && is_hex_digit(s[2])));
        assert(escape_free_bytes(s.skip(1))) by {
            assert forall|i: int| #![trigger s.skip(1)[i]]
                0 <= i && i + 3 <= s.skip(1).len() && s.skip(1)[i] == 0x25 implies !(is_hex_digit(
                s.skip(1)[i + 1],
            ) && is_hex_digit(s.skip(1)[i + 2])) by {
                assert(s.skip(1)[i] == s[i + 1]);
                assert(s.skip(1)[i + 1] == s[i + 2]);
                assert(s.skip(1)[i + 2] == s[i + 3]);
            }
        }
        lemma_decode_escape_free_is_identity(s.skip(1));
        assert(spec_decode(s) =~= s);
    }
}

/// Decoding inverts encoding: for every byte sequence, percent-decoding
/// the percent-encoding gives back the original sequence.
pub proof fn lemma_decode_inverts_encode(s: Seq<u8>)
    ensures
        spec_decode(spec_encode(s)) == s,
    decreases s.len(),
{
    if s.len() == 0 {
        assert(spec_decode(spec_encode(s)) =~= s);
    } else {
        lemma_decode_inverts_encode(s.skip(1));
        let b = s[0];
        let enc = spec_encode(s);
        if is_unreserved(b) {
            assert(enc[0] == b && b != 0x25);
            assert(enc.skip(1) =~= spec_encode(s.skip(1)));
            assert(spec_decode(enc) =~= s);
        } else {
            let hi = hex_digit_of(b / 16);
            let lo = hex_digit_of(b % 16);
            assert(enc[0] == 0x25 && enc[1] == hi && enc[2] == lo);
            assert(is_hex_digit(hi) && hex_value(hi) == b / 16);
            assert(is_hex_digit(lo) && hex_value(lo) == b % 16);
            assert(hex_value(hi) * 16 + hex_value(lo) == b) by {
                assert(b == 16 * (b / 16) + b % 16);
            }
            assert(enc.skip(3) =~= spec_encode(s.skip(1)));
            assert(spec_decode(enc) =~= s);
        }
    }
}

} // verus!
