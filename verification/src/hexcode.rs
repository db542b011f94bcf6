//! Lower-case hexadecimal text, as the `hex` crate writes and reads it.
use vstd::prelude::*;
use vstd::utf8::*;

verus! {

/// The lower-case hex digit for a nibble `n < 16`.
pub open spec fn hex_digit(n: nat) -> char {
    if n < 10 {
        (('0' as u8) + n) as char
    } else {
        (('a' as u8) + (n - 10)) as char
    }
}

/// `hex::encode`: two lower-case digits per byte, high nibble first.
pub open spec fn hex_encode_spec(bytes: Seq<u8>) -> Seq<char>
    decreases bytes.len(),
{
    if bytes.len() == 0 {
        Seq::empty()
    } else {
        seq![hex_digit((bytes[0] / 16) as nat), hex_digit((bytes[0] % 16) as nat)]
            + hex_encode_spec(bytes.drop_first())
    }
}

/// The value of one hex digit byte, upper or lower case.
pub open spec fn hex_value(c: u8) -> Option<u8> {
    if 48 <= c <= 57 {
        Some((c - 48) as u8)
    } else if 97 <= c <= 102 {
        Some((c - 97 + 10) as u8)
    } else if 65 <= c <= 70 {
        Some((c - 65 + 10) as u8)
    } else {
        None
    }
}

/// `hex::decode` on the bytes of a text: `None` when the length is odd or a
/// byte is not a hex digit; otherwise one byte per pair of digits.
pub open spec fn hex_decode_spec(text: Seq<u8>) -> Option<Seq<u8>>
    decreases text.len(),
{
    if text.len() == 0 {
        Some(Seq::empty())
    } else if text.len() == 1 {
        None
    } else {
        match (hex_value(text[0]), hex_value(text[1]), hex_decode_spec(text.subrange(2, text.len() as int))) {
            (Some(hi), Some(lo), Some(rest)) => Some(seq![(hi * 16 + lo) as u8] + rest),
            _ => None,
        }
    }
}

/// The error of `hex::decode`, opaque.
#[verifier::external_type_specification]
#[verifier::external_body]
pub struct ExFromHexError(hex::FromHexError);

/// `hex::encode` on a byte slice: claims the result is the lower-case hex text
/// of the bytes, two digits per byte, high nibble first.
#[verifier::external_body]
pub(crate) fn hex_encode(data: &[u8]) -> (res: String)
    ensures
        res@ == hex_encode_spec(data@),
{
    hex::encode(data)
}

/// `hex::decode` on the bytes of a text: claims it succeeds exactly when the
/// text has an even number of bytes, all hex digits of either case, and then
/// returns the bytes those digit pairs denote.
#[verifier::external_body]
pub(crate) fn hex_decode(text: &str) -> (res: Result<Vec<u8>, hex::FromHexError>)
    ensures
        res is Ok <==> hex_decode_spec(encode_utf8(text@)) is Some,
        res matches Ok(v) ==> Some(v@) == hex_decode_spec(encode_utf8(text@)),
{
    hex::decode(text)
}

/// Every character of a hex encoding is ASCII.
pub proof fn lemma_hex_encode_ascii(bytes: Seq<u8>)
    ensures
        is_ascii_chars(hex_encode_spec(bytes)),
        is_lower_hex_text(hex_encode_spec(bytes)),
        hex_encode_spec(bytes).len() == 2 * bytes.len(),
    decreases bytes.len(),
{
    if bytes.len() > 0 {
        lemma_hex_encode_ascii(bytes.drop_first());
        let head = seq![hex_digit((bytes[0] / 16) as nat), hex_digit((bytes[0] % 16) as nat)];
        let tail = hex_encode_spec(bytes.drop_first());
        assert forall|i| 0 <= i < (head + tail).len() implies '\0' <= #[trigger] (head + tail)[i]
            <= '\u{7f}' && is_lower_hex_char((head + tail)[i]) by {
            if i >= 2 {
                assert((head + tail)[i] == tail[i - 2]);
            }
        }
    }
}

/// A lower-case hex digit.
pub open spec fn is_lower_hex_char(c: char) -> bool {
    ('0' <= c <= '9') || ('a' <= c <= 'f')
}

/// A text of lower-case hex digits.
pub open spec fn is_lower_hex_text(s: Seq<char>) -> bool {
    forall|i: int| 0 <= i < s.len() ==> is_lower_hex_char(#[trigger] s[i])
}

/// The byte values of the characters of an ASCII sequence.
pub open spec fn ascii_bytes(chars: Seq<char>) -> Seq<u8> {
    Seq::new(chars.len(), |i: int| chars[i] as u8)
}

/// For ASCII characters the UTF-8 encoding is the sequence of their byte values.
pub proof fn lemma_ascii_utf8(chars: Seq<char>)
    requires
        is_ascii_chars(chars),
    ensures
        encode_utf8(chars) == ascii_bytes(chars),
{
    is_ascii_chars_encode_utf8(chars);
    assert(encode_utf8(chars) =~= ascii_bytes(chars));
}

proof fn lemma_digit_roundtrip(n: nat)
    requires
        n < 16,
    ensures
        hex_value(hex_digit(n) as u8) == Some(n as u8),
{
}

/// A byte with the hex letters a-f turned to upper case; other bytes unchanged.
pub open spec fn upper_hex_byte(b: u8) -> u8 {
    if 97 <= b <= 102 {
        (b - 32) as u8
    } else {
        b
    }
}

/// A character with the hex letters a-f turned to upper case; others unchanged.
pub open spec fn upper_hex_char(c: char) -> char {
    if 'a' <= c <= 'f' {
        ((c as int) - 32) as char
    } else {
        c
    }
}

/// A text with its hex letters a-f turned to upper case.
pub open spec fn upper_hex_text(s: Seq<char>) -> Seq<char> {
    s.map_values(|c: char| upper_hex_char(c))
}

/// Hex decoding reads digits of either case: upper-casing the letters a-f
/// of the input does not change the result.
pub proof fn lemma_hex_decode_upper(t: Seq<u8>)
    ensures
        hex_decode_spec(t.map_values(|b: u8| upper_hex_byte(b))) == hex_decode_spec(t),
    decreases t.len(),
{
    let u = t.map_values(|b: u8| upper_hex_byte(b));
    if t.len() >= 2 {
        let rest = t.subrange(2, t.len() as int);
        lemma_hex_decode_upper(rest);
        assert(u.subrange(2, u.len() as int) =~= rest.map_values(|b: u8| upper_hex_byte(b)));
        assert(hex_value(u[0]) == hex_value(t[0]));
        assert(hex_value(u[1]) == hex_value(t[1]));
    }
}

/// For an ASCII text, upper-casing its hex letters upper-cases its bytes the same way.
pub proof fn lemma_upper_hex_ascii(chars: Seq<char>)
    requires
        is_ascii_chars(chars),
    ensures
        is_ascii_chars(upper_hex_text(chars)),
        ascii_bytes(upper_hex_text(chars)) == ascii_bytes(chars).map_values(|b: u8| upper_hex_byte(b)),
{
    let up = upper_hex_text(chars);
    assert forall|i: int| 0 <= i < up.len() implies '\0' <= #[trigger] up[i] <= '\u{7f}' by {
        assert('\0' <= chars[i] <= '\u{7f}');
    }
    assert(ascii_bytes(up) =~= ascii_bytes(chars).map_values(|b: u8| upper_hex_byte(b)));
}

/// Decoding the hex text of some bytes gives back those bytes.
pub proof fn lemma_hex_roundtrip(bytes: Seq<u8>)
    ensures
        hex_decode_spec(ascii_bytes(hex_encode_spec(bytes))) == Some(bytes),
    decreases bytes.len(),
{
    let text = ascii_bytes(hex_encode_spec(bytes));
    lemma_hex_encode_ascii(bytes);
    if bytes.len() > 0 {
        let b = bytes[0];
        let rest = bytes.drop_first();
        lemma_hex_roundtrip(rest);
        lemma_hex_encode_ascii(rest);
        let hi = (b / 16) as nat;
        let lo = (b % 16) as nat;
        lemma_digit_roundtrip(hi);
        lemma_digit_roundtrip(lo);
        let enc = hex_encode_spec(bytes);
        assert(enc == seq![hex_digit(hi), hex_digit(lo)] + hex_encode_spec(rest));
        assert(text[0] == hex_digit(hi) as u8);
        assert(text[1] == hex_digit(lo) as u8);
        assert(text.subrange(2, text.len() as int) =~= ascii_bytes(hex_encode_spec(rest)));
        assert((hi * 16 + lo) as u8 == b);
        assert(seq![b] + rest =~= bytes);
    } else {
        assert(text =~= Seq::<u8>::empty());
    }
}

} // verus!
