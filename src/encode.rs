//! Percent-encoding of a query, byte by byte over its UTF-8 form.
use vstd::prelude::*;
use vstd::string::StringSliceAdditionalSpecFns;
use vstd::utf8::encode_scalar;

verus! {

/// ASCII letters and digits pass through unchanged.
pub open spec fn is_unreserved_byte(b: u8) -> bool {
    (65 <= b <= 90) || (97 <= b <= 122) || (48 <= b <= 57)
}

/// Upper-case hexadecimal digit of a value below sixteen.
pub open spec fn hex_digit(d: u8) -> char
    recommends
        d < 16,
{
    if d < 10 {
        (d + 48) as u8 as char
    } else {
        (d + 55) as u8 as char
    }
}

/// The text that stands for one byte of the input.
pub open spec fn encode_byte(b: u8) -> Seq<char> {
    if is_unreserved_byte(b) {
        seq![b as char]
    } else {
        seq!['%', hex_digit(b / 16), hex_digit(b % 16)]
    }
}

/// The encoding of a byte sequence: each byte's text, in order.
pub open spec fn encode_bytes(bs: Seq<u8>) -> Seq<char>
    decreases bs.len(),
{
    if bs.len() == 0 {
        Seq::empty()
    } else {
        encode_byte(bs[0]) + encode_bytes(bs.drop_first())
    }
}

/// Appending a byte to the input appends its text to the encoding.
pub proof fn lemma_encode_push(bs: Seq<u8>, b: u8)
    ensures
        encode_bytes(bs.push(b)) == encode_bytes(bs) + encode_byte(b),
    decreases bs.len(),
{
    if bs.len() == 0 {
        assert(bs.push(b).drop_first() =~= Seq::<u8>::empty());
        assert(bs.push(b)[0] == b);
        assert(encode_bytes(Seq::<u8>::empty()) == Seq::<char>::empty());
        assert(encode_bytes(bs.push(b)) =~= encode_bytes(bs) + encode_byte(b));
    } else {
        lemma_encode_push(bs.drop_first(), b);
        assert(bs.push(b).drop_first() =~= bs.drop_first().push(b));
        assert(encode_bytes(bs.push(b)) =~= encode_bytes(bs) + encode_byte(b));
    }
}

/// Relies on String::push: the character is appended at the end.
#[verifier::external_body]
fn push_char(s: &mut String, c: char)
    ensures
        final(s)@ == old(s)@.push(c),
{
    s.push(c)
}

fn is_unreserved(b: u8) -> (r: bool)
    ensures
        r == is_unreserved_byte(b),
{
    (65 <= b && b <= 90) || (97 <= b && b <= 122) || (48 <= b && b <= 57)
}

fn hex_char(d: u8) -> (c: char)
    requires
        d < 16,
    ensures
        c == hex_digit(d),
{
    if d < 10 {
        (d + 48) as char
    } else {
        (d + 55) as char
    }
}

/// Percent-encodes `input`: ASCII letters and digits stay as they are, and
/// every other byte of its UTF-8 form (a space, a newline, each byte of a
/// multi-byte character) becomes `%` and two upper-case hex digits.
pub fn url_encode(input: &str) -> (r: String)
    ensures
        r@ == encode_bytes(input.spec_bytes()),
{
    let bytes = input.as_bytes();
    let mut out = String::new();
    let mut i: usize = 0;
    while i < bytes.len()
        invariant
            bytes@ == input.spec_bytes(),
            i <= bytes@.len(),
            out@ == encode_bytes(bytes@.take(i as int)),
        decreases bytes@.len() - i,
    {
        let b = bytes[i];
        if is_unreserved(b) {
            push_char(&mut out, b as char);
        } else {
            push_char(&mut out, '%');
            push_char(&mut out, hex_char(b / 16));
            push_char(&mut out, hex_char(b % 16));
        }
        proof {
            lemma_encode_push(bytes@.take(i as int), b);
            assert(bytes@.take(i + 1) =~= bytes@.take(i as int).push(b));
        }
        i = i + 1;
    }
    assert(bytes@.take(i as int) =~= bytes@);
    out
}

/// Value of a hexadecimal digit, either case; `None` for any other character.
pub open spec fn hex_value(c: char) -> Option<u8> {
    if '0' <= c <= '9' {
        Some((c as u8 - 48) as u8)
    } else if 'A' <= c <= 'F' {
        Some((c as u8 - 55) as u8)
    } else if 'a' <= c <= 'f' {
        Some((c as u8 - 87) as u8)
    } else {
        None
    }
}

/// Standard percent-decoding: `%` followed by two hex digits gives the byte
/// they spell; any other character gives its own UTF-8 bytes.
pub open spec fn percent_decode(s: Seq<char>) -> Seq<u8>
    decreases s.len(),
{
    if s.len() == 0 {
        Seq::empty()
    } else if s.len() >= 3 && s[0] == '%' && hex_value(s[1]) is Some && hex_value(s[2]) is Some {
        seq![(hex_value(s[1])->0 * 16 + hex_value(s[2])->0) as u8] + percent_decode(
            s.subrange(3, s.len() as int),
        )
    } else {
        encode_scalar(s[0] as u32) + percent_decode(s.drop_first())
    }
}

proof fn lemma_low_seven_bits(v: u32)
    requires
        v <= 0x7F,
    ensures
        v & 0x7F == v,
{
    assert(v <= 0x7F ==> v & 0x7F == v) by (bit_vector);
}

proof fn lemma_hex_round_trip(d: u8)
    requires
        d < 16,
    ensures
        hex_value(hex_digit(d)) == Some(d),
{
}

/// Decoding the percent-encoding of any byte sequence gives that sequence
/// back.
pub proof fn lemma_decode_encode(bs: Seq<u8>)
    ensures
        percent_decode(encode_bytes(bs)) == bs,
    decreases bs.len(),
{
    if bs.len() == 0 {
    } else {
        let b = bs[0];
        let rest = encode_bytes(bs.drop_first());
        let e = encode_byte(b) + rest;
        lemma_decode_encode(bs.drop_first());
        if is_unreserved_byte(b) {
            assert(e.drop_first() =~= rest);
            lemma_low_seven_bits(b as u32);
            assert(encode_scalar(b as char as u32) =~= seq![b]);
        } else {
            lemma_hex_round_trip(b / 16);
            lemma_hex_round_trip(b % 16);
            assert(e.subrange(3, e.len() as int) =~= rest);
        }
        assert(percent_decode(e) =~= bs);
    }
}

/// Percent-decoding the result of `url_encode` gives back the input's bytes.
pub proof fn url_encode_round_trip(input: &str, encoded: Seq<char>)
    requires
        encoded == encode_bytes(input.spec_bytes()),
    ensures
        percent_decode(encoded) == input.spec_bytes(),
{
    lemma_decode_encode(input.spec_bytes());
}

/// Upper-case hexadecimal digits, the only ones the encoding writes.
pub open spec fn is_upper_hex_digit(c: char) -> bool {
    ('0' <= c <= '9') || ('A' <= c <= 'F')
}

/// What stands for each byte: a letter or digit itself, a space `%20`, and
/// any other byte exactly three characters, `%` and two upper-case hex digits
/// that spell its value.
pub proof fn encode_byte_shape(b: u8)
    ensures
        is_unreserved_byte(b) ==> encode_byte(b) == seq![b as char],
        b == 32 ==> encode_byte(b) == seq!['%', '2', '0'],
        !is_unreserved_byte(b) ==> {
            let e = encode_byte(b);
            &&& e.len() == 3
            &&& e[0] == '%'
            &&& is_upper_hex_digit(e[1])
            &&& is_upper_hex_digit(e[2])
            &&& hex_value(e[1])->0 * 16 + hex_value(e[2])->0 == b
        },
{
    if !is_unreserved_byte(b) {
        lemma_hex_round_trip(b / 16);
        lemma_hex_round_trip(b % 16);
    }
    if b == 32 {
        assert(encode_byte(b) =~= seq!['%', '2', '0']);
    }
}

} // verus!
