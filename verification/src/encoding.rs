//! Bytes as text: base64 and hexadecimal.
use base64::Engine;
use vstd::prelude::*;

verus! {

/// The base64 text of `data`, in the standard alphabet and with padding.
pub uninterp spec fn base64_text(data: Seq<u8>) -> Seq<char>;

/// What a base64 text stands for, or the message that says why it stands for nothing.
pub uninterp spec fn base64_decoded(text: Seq<char>) -> Result<Seq<u8>, Seq<char>>;

/// Whether `text` is the base64 of `data`.
pub open spec fn decodes_to(text: Seq<char>, data: Seq<u8>) -> bool {
    base64_decoded(text) matches Ok(bytes) && bytes == data
}

/// The number of base64 characters for `n` bytes.
pub open spec fn base64_len(n: int) -> int {
    4 * ((n + 2) / 3)
}

/// Whether a text is made of base64 characters: letters, digits, `+`, `/` and the padding `=`.
pub open spec fn is_base64_text(text: Seq<char>) -> bool {
    forall|i: int| 0 <= i < text.len() ==> is_base64_char(#[trigger] text[i])
}

/// Whether a character can stand in base64.
pub open spec fn is_base64_char(c: char) -> bool {
    'A' <= c <= 'Z' || 'a' <= c <= 'z' || '0' <= c <= '9' || c == '+' || c == '/' || c == '='
}

/// Whether `text` is the base64 of some `n` bytes.
pub open spec fn holds_bytes(text: Seq<char>, n: int) -> bool {
    &&& is_base64_text(text)
    &&& text.len() == base64_len(n)
    &&& base64_decoded(text) matches Ok(bytes) && bytes.len() == n
}

/// Calls `Engine::encode` of `base64::engine::general_purpose::STANDARD`. Its text has four
/// characters of the alphabet for every three bytes begun, and decoding it gives `data` back.
#[verifier::external_body]
pub(crate) fn base64_encode(data: &[u8]) -> (r: String)
    ensures
        r@ == base64_text(data@),
        decodes_to(r@, data@),
        holds_bytes(r@, data@.len() as int),
{
    base64::engine::general_purpose::STANDARD.encode(data)
}

/// Calls `Engine::decode` of `base64::engine::general_purpose::STANDARD`. An error comes back as
/// its message.
#[verifier::external_body]
pub(crate) fn base64_decode(text: &str) -> (r: Result<Vec<u8>, String>)
    ensures
        r matches Ok(data) ==> decodes_to(text@, data@),
        r matches Err(e) ==> (base64_decoded(text@) matches Err(words) && words == e@),
{
    base64::engine::general_purpose::STANDARD.decode(text).map_err(|e| e.to_string())
}

/// The lower-case hexadecimal digit of a number below 16.
pub open spec fn hex_digit(n: int) -> char {
    if n < 10 {
        (0x30 + n) as char
    } else {
        (0x57 + n) as char
    }
}

/// Two lower-case hexadecimal digits for each byte, the higher half first.
pub open spec fn hex_text(data: Seq<u8>) -> Seq<char> {
    Seq::new(
        2 * data.len(),
        |i: int|
            if i % 2 == 0 {
                hex_digit(data[i / 2] as int / 16)
            } else {
                hex_digit(data[i / 2] as int % 16)
            },
    )
}

/// Calls `hex::encode`: two lower-case digits for each byte.
#[verifier::external_body]
pub(crate) fn hex_encode(data: &[u8]) -> (r: String)
    ensures
        r@ == hex_text(data@),
{
    hex::encode(data)
}

/// The value of a hexadecimal digit of either case; `None` for any other character.
pub open spec fn hex_value(c: char) -> Option<int> {
    if '0' <= c <= '9' {
        Some(c as int - '0' as int)
    } else if 'a' <= c <= 'f' {
        Some(c as int - 'a' as int + 10)
    } else if 'A' <= c <= 'F' {
        Some(c as int - 'A' as int + 10)
    } else {
        None
    }
}

/// Whether `text` is an even number of hexadecimal digits.
pub open spec fn is_hex(text: Seq<char>) -> bool {
    &&& text.len() % 2 == 0
    &&& forall|i: int| 0 <= i < text.len() ==> hex_value(#[trigger] text[i]) is Some
}

/// The bytes that a hexadecimal text stands for.
pub open spec fn hex_bytes(text: Seq<char>) -> Seq<u8> {
    Seq::new(
        text.len() / 2,
        |i: int| (16 * hex_value(text[2 * i])->0 + hex_value(text[2 * i + 1])->0) as u8,
    )
}

/// Calls `hex::decode`: it succeeds exactly on an even number of digits, of either case.
#[verifier::external_body]
pub(crate) fn hex_decode(text: &str) -> (r: Option<Vec<u8>>)
    ensures
        r is Some <==> is_hex(text@),
        r matches Some(data) ==> data@ == hex_bytes(text@),
{
    hex::decode(text).ok()
}

proof fn lemma_hex_digit(n: int)
    requires
        0 <= n < 16,
    ensures
        hex_value(hex_digit(n)) == Some(n),
{
}

/// Whoever writes bytes in hexadecimal is read: all of them come back, however many they are.
pub proof fn law_hex_is_read(data: Seq<u8>)
    ensures
        is_hex(hex_text(data)),
        hex_bytes(hex_text(data)) == data,
{
    let text = hex_text(data);
    assert forall|i: int| 0 <= i < text.len() implies hex_value(#[trigger] text[i]) is Some by {
        lemma_hex_digit(data[i / 2] as int / 16);
        lemma_hex_digit(data[i / 2] as int % 16);
    }
    assert forall|i: int| 0 <= i < data.len() implies hex_bytes(text)[i] == data[i] by {
        lemma_hex_digit(data[i] as int / 16);
        lemma_hex_digit(data[i] as int % 16);
        assert((2 * i) / 2 == i && (2 * i + 1) / 2 == i);
    }
    assert(hex_bytes(text) =~= data);
}

/// Two characters of the hexadecimal of some bytes stand for each of them: the first, as a number below
/// 16, is the higher half.
pub proof fn law_hex_has_two_digits_per_byte(data: Seq<u8>, i: int)
    requires
        0 <= i < data.len(),
    ensures
        hex_text(data).len() == 2 * data.len(),
        hex_value(hex_text(data)[2 * i]) == Some(data[i] as int / 16),
        hex_value(hex_text(data)[2 * i + 1]) == Some(data[i] as int % 16),
{
    lemma_hex_digit(data[i] as int / 16);
    lemma_hex_digit(data[i] as int % 16);
    assert((2 * i) / 2 == i && (2 * i + 1) / 2 == i);
}

/// Capitals and small letters are the same digits.
pub proof fn law_hex_has_two_cases(small: Seq<char>, capital: Seq<char>)
    requires
        small.len() == capital.len(),
        forall|i: int|
            0 <= i < small.len() ==> (#[trigger] small[i] == #[trigger] capital[i] || ('a' <= small[i] <= 'f'
                && capital[i] as int == small[i] as int - 32)),
    ensures
        is_hex(small) == is_hex(capital),
        is_hex(small) ==> hex_bytes(small) == hex_bytes(capital),
{
    assert forall|i: int| 0 <= i < small.len() implies hex_value(#[trigger] small[i]) == hex_value(capital[i]) by {
        assert(small[i] == capital[i] || 'a' <= small[i] <= 'f');
    }
    if is_hex(small) {
        assert forall|i: int| 0 <= i < capital.len() implies hex_value(#[trigger] capital[i]) is Some by {
            assert(hex_value(small[i]) is Some);
        }
        assert forall|i: int| 0 <= i < small.len() / 2 implies hex_bytes(small)[i] == hex_bytes(capital)[i] by {
            assert(hex_value(small[2 * i]) == hex_value(capital[2 * i]));
            assert(hex_value(small[2 * i + 1]) == hex_value(capital[2 * i + 1]));
        }
        assert(hex_bytes(small) =~= hex_bytes(capital));
    } else if is_hex(capital) {
        assert forall|i: int| 0 <= i < small.len() implies hex_value(#[trigger] small[i]) is Some by {
            assert(hex_value(capital[i]) is Some);
        }
    }
}

/// The base64 of some bytes holds as many bytes, and a text holds one number of bytes only.
pub proof fn law_base64_holds_its_bytes(text: Seq<char>, data: Seq<u8>, n: int)
    requires
        decodes_to(text, data),
        holds_bytes(text, n),
    ensures
        base64_decoded(text) == Ok::<Seq<u8>, Seq<char>>(data),
        data.len() == n,
        text.len() == 4 * ((n + 2) / 3),
{
}

} // verus!
