use vstd::prelude::*;
use vstd::string::StringSliceAdditionalSpecFns;
use vstd::utf8::encode_utf8;
use vstd::utf8::is_ascii_chars;
use vstd::utf8::is_ascii_chars_encode_utf8;

verus! {

/// The lowercase hexadecimal digit for a value below sixteen.
pub open spec fn hex_digit(v: u8) -> char
    recommends
        v < 16,
{
    if v == 0 {
        '0'
    } else if v == 1 {
        '1'
    } else if v == 2 {
        '2'
    } else if v == 3 {
        '3'
    } else if v == 4 {
        '4'
    } else if v == 5 {
        '5'
    } else if v == 6 {
        '6'
    } else if v == 7 {
        '7'
    } else if v == 8 {
        '8'
    } else if v == 9 {
        '9'
    } else if v == 10 {
        'a'
    } else if v == 11 {
        'b'
    } else if v == 12 {
        'c'
    } else if v == 13 {
        'd'
    } else if v == 14 {
        'e'
    } else {
        'f'
    }
}

/// Lowercase hexadecimal text for a byte sequence: two digits per byte,
/// high nibble first, no delimiters.
pub open spec fn bytes_to_hex(bs: Seq<u8>) -> Seq<char> {
    Seq::new(
        2 * bs.len(),
        |i: int|
            if i % 2 == 0 {
                hex_digit((bs[i / 2] / 16) as u8)
            } else {
                hex_digit((bs[i / 2] % 16) as u8)
            },
    )
}

/// True when the byte is the ASCII code of a hexadecimal digit, in either
/// case.
pub open spec fn is_hex_digit_byte(b: u8) -> bool {
    (0x30 <= b <= 0x39) || (0x41 <= b <= 0x46) || (0x61 <= b <= 0x66)
}

/// The value of a hexadecimal digit given as its ASCII code.
pub open spec fn hex_val(b: u8) -> u8
    recommends
        is_hex_digit_byte(b),
{
    if 0x30 <= b <= 0x39 {
        (b - 0x30) as u8
    } else if 0x41 <= b <= 0x46 {
        (b - 0x41 + 10) as u8
    } else if 0x61 <= b <= 0x66 {
        (b - 0x61 + 10) as u8
    } else {
        0
    }
}

/// True when a byte sequence decodes as hexadecimal text: even length, and
/// every byte the ASCII code of a hexadecimal digit.
pub open spec fn hex_decodable(bs: Seq<u8>) -> bool {
    &&& bs.len() % 2 == 0
    &&& forall|i: int| 0 <= i < bs.len() ==> is_hex_digit_byte(#[trigger] bs[i])
}

/// The bytes that hexadecimal text decodes to, one byte per digit pair.
pub open spec fn hex_decode_bytes(bs: Seq<u8>) -> Seq<u8>
    recommends
        hex_decodable(bs),
{
    Seq::new(bs.len() / 2, |i: int| (hex_val(bs[2 * i]) * 16 + hex_val(bs[2 * i + 1])) as u8)
}

/// Relies on `hex::encode`: it writes two lowercase hexadecimal digits per
/// byte, high nibble first, with no delimiters.
#[verifier::external_body]
pub fn hex_encode(data: &[u8]) -> (r: String)
    ensures
        r@ == bytes_to_hex(data@),
{
    hex::encode(data)
}

/// Relies on `hex::decode`: it decodes pairs of hexadecimal digit
/// characters (either case accepted) into bytes, and fails exactly on input
/// whose byte length is odd or that holds a byte which is not a
/// hexadecimal digit.
#[verifier::external_body]
pub fn hex_decode(data: &str) -> (r: Option<Vec<u8>>)
    ensures
        r is Some <==> hex_decodable(data.spec_bytes()),
        r is Some ==> r.unwrap()@ == hex_decode_bytes(data.spec_bytes()),
{
    match hex::decode(data) {
        Ok(bytes) => Option::Some(bytes),
        Err(_) => Option::None,
    }
}

/// Hexadecimal text is ASCII.
pub proof fn lemma_bytes_to_hex_ascii(bs: Seq<u8>)
    ensures
        is_ascii_chars(bytes_to_hex(bs)),
{
    assert forall|i: int|
        0 <= i < bytes_to_hex(bs).len() implies '\0' <= #[trigger] bytes_to_hex(bs)[i]
        <= '\u{7f}' by {
        if i % 2 == 0 {
            assert(bytes_to_hex(bs)[i] == hex_digit((bs[i / 2] / 16) as u8));
        } else {
            assert(bytes_to_hex(bs)[i] == hex_digit((bs[i / 2] % 16) as u8));
        }
    }
}

/// Decoding undoes encoding: the UTF-8 bytes of the lowercase hexadecimal
/// text of any byte sequence decode back to that byte sequence.
pub proof fn lemma_hex_round_trip(bs: Seq<u8>)
    ensures
        hex_decodable(encode_utf8(bytes_to_hex(bs))),
        hex_decode_bytes(encode_utf8(bytes_to_hex(bs))) =~= bs,
{
    let chars = bytes_to_hex(bs);
    lemma_bytes_to_hex_ascii(bs);
    is_ascii_chars_encode_utf8(chars);
    let encoded = encode_utf8(chars);
    assert forall|i: int| 0 <= i < encoded.len() implies is_hex_digit_byte(
        #[trigger] encoded[i],
    ) by {
        assert(encoded[i] == chars[i] as u8);
        if i % 2 == 0 {
            assert(chars[i] == hex_digit((bs[i / 2] / 16) as u8));
        } else {
            assert(chars[i] == hex_digit((bs[i / 2] % 16) as u8));
        }
    }
    assert forall|i: int| 0 <= i < bs.len() implies hex_decode_bytes(encoded)[i] == bs[i] by {
        assert(encoded[2 * i] == chars[2 * i] as u8);
        assert(encoded[2 * i + 1] == chars[2 * i + 1] as u8);
        assert(chars[2 * i] == hex_digit((bs[i] / 16) as u8));
        assert(chars[2 * i + 1] == hex_digit((bs[i] % 16) as u8));
        assert(hex_val(hex_digit((bs[i] / 16) as u8) as u8) == bs[i] / 16);
        assert(hex_val(hex_digit((bs[i] % 16) as u8) as u8) == bs[i] % 16);
        assert(hex_decode_bytes(encoded)[i] == (hex_val(encoded[2 * i]) * 16 + hex_val(
            encoded[2 * i + 1],
        )) as u8);
    }
}

} // verus!
