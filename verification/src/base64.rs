//! Base64 with the standard alphabet and padding.
use crate::text;
use ::base64::engine::general_purpose::STANDARD;
use ::base64::Engine;
use vstd::prelude::*;

verus! {

/// The symbol for a value below 64.
pub open spec fn symbol(value: int) -> u8 {
    if value < 26 {
        (65 + value) as u8
    } else if value < 52 {
        (97 + (value - 26)) as u8
    } else if value < 62 {
        (48 + (value - 52)) as u8
    } else if value == 62 {
        43
    } else {
        47
    }
}

/// The base64 text of some bytes: each three bytes become four symbols of six bits, and a rest of
/// one or two bytes is filled up with zero bits and then with `=`.
pub open spec fn base64(data: Seq<u8>) -> Seq<u8>
    decreases data.len(),
{
    if data.len() == 0 {
        seq![]
    } else if data.len() == 1 {
        seq![symbol((data[0] / 4) as int), symbol(data[0] % 4 * 16), 61, 61]
    } else if data.len() == 2 {
        seq![
            symbol((data[0] / 4) as int),
            symbol(data[0] % 4 * 16 + data[1] / 16),
            symbol(data[1] % 16 * 4),
            61,
        ]
    } else {
        seq![
            symbol((data[0] / 4) as int),
            symbol(data[0] % 4 * 16 + data[1] / 16),
            symbol(data[1] % 16 * 4 + data[2] / 64),
            symbol((data[2] % 64) as int),
        ] + base64(data.skip(3))
    }
}

/// The length of the base64 text of `n` bytes.
pub open spec fn base64_len(n: nat) -> nat {
    (n + 2) / 3 * 4
}

pub open spec fn is_ascii(text: Seq<u8>) -> bool {
    forall|i: int| 0 <= i < text.len() ==> text[i] < 128
}

/// What decoding `text` may give. Of an ASCII text it is fixed: the bytes whose base64 text it is,
/// and nothing where there are none. What becomes of bytes outside ASCII depends on the machine;
/// of these only the length of what comes out is known.
pub open spec fn decodes_to(text: Seq<u8>, outcome: Option<Seq<u8>>) -> bool {
    match outcome {
        Some(data) => base64_len(data.len()) == text.len() && (is_ascii(text) ==> base64(data)
            == text),
        None => is_ascii(text) ==> forall|data: Seq<u8>| #[trigger] base64(data) != text,
    }
}

/// `sodiumoxide::base64::encode` with the variant `Original`: the base64 text of the bytes. The
/// buffer for it, with room for one byte more, must fit an allocation.
#[verifier::external_body]
pub(crate) fn encode(data: &[u8]) -> (text: String)
    requires
        base64_len(data@.len()) + 1 <= isize::MAX,
    ensures
        vstd::utf8::encode_utf8(text@) == base64(data@),
{
    sodiumoxide::base64::encode(data, sodiumoxide::base64::Variant::Original)
}

/// `sodiumoxide::base64::decode` with the variant `Original`: of an ASCII text, the bytes whose
/// base64 text it is, or `None`. It tests characters in C's type `char`, whose sign depends on the
/// machine, so that a byte outside ASCII is refused on some machines and read as a symbol on
/// others.
#[verifier::external_body]
pub(crate) fn decode(text: &[u8]) -> (data: Option<Vec<u8>>)
    ensures
        decodes_to(text@, text::maybe_bytes(data)),
{
    sodiumoxide::base64::decode(text, sodiumoxide::base64::Variant::Original).ok()
}

/// `Engine::encode` of the `base64` crate's `STANDARD` engine: the base64 text of the bytes. It
/// panics where that is too long.
#[verifier::external_body]
pub(crate) fn encode_standard(data: &[u8]) -> (text: String)
    requires
        base64_len(data@.len()) <= isize::MAX,
    ensures
        vstd::utf8::encode_utf8(text@) == base64(data@),
{
    STANDARD.encode(data)
}

/// The message of the error that the `base64` crate's `STANDARD` engine gives for a text.
pub uninterp spec fn decode_error(text: Seq<char>) -> Seq<char>;

/// `Engine::decode` of the `base64` crate's `STANDARD` engine: the bytes whose base64 text it is;
/// where there are none, the message of the error. Only the text that encoding gives is taken: with
/// the padding it needs, and with the unused bits zero.
#[verifier::external_body]
pub(crate) fn decode_standard(text: &str) -> (data: Result<Vec<u8>, String>)
    ensures
        match data {
            Ok(d) => base64(d@) == vstd::utf8::encode_utf8(text@),
            Err(e) => e@ == decode_error(text@) && forall|d: Seq<u8>| #[trigger]
                base64(d) != vstd::utf8::encode_utf8(text@),
        },
{
    STANDARD.decode(text).map_err(|e| e.to_string())
}

/// Bytes can be read back from their base64 text in one way only.
pub proof fn law_base64_is_injective(a: Seq<u8>, b: Seq<u8>)
    requires
        base64(a) == base64(b),
    ensures
        a == b,
    decreases a.len(),
{
    law_base64_text(a);
    law_base64_text(b);
    let t = base64(a);
    if a.len() == 0 || b.len() == 0 {
        assert(a =~= b);
    } else {
        lemma_first_group(a);
        lemma_first_group(b);
        if a.len() >= 3 {
            assert(t.skip(4) =~= base64(a.skip(3)));
            assert(t.skip(4) =~= base64(b.skip(3)));
            law_base64_is_injective(a.skip(3), b.skip(3));
            assert(a =~= a.take(3) + a.skip(3));
            assert(b =~= b.take(3) + b.skip(3));
            assert(a.take(3) =~= b.take(3));
        } else {
            assert(a =~= b);
        }
    }
}

/// The value of a symbol.
spec fn symbol_value(s: u8) -> int {
    if 65 <= s <= 90 {
        s - 65
    } else if 97 <= s <= 122 {
        s - 97 + 26
    } else if 48 <= s <= 57 {
        s - 48 + 52
    } else if s == 43 {
        62
    } else if s == 47 {
        63
    } else {
        64
    }
}

proof fn lemma_symbol(value: int)
    requires
        0 <= value < 64,
    ensures
        symbol_value(symbol(value)) == value,
        symbol(value) < 128,
        symbol(value) != 61,
{
}

/// The first group of symbols tells how many bytes it stands for, and which.
proof fn lemma_first_group(data: Seq<u8>)
    requires
        data.len() > 0,
    ensures
        base64(data).len() >= 4,
        base64(data)[2] == 61 <==> data.len() == 1,
        base64(data)[3] == 61 <==> data.len() <= 2,
        data[0] == symbol_value(base64(data)[0]) * 4 + symbol_value(base64(data)[1]) / 16,
        data.len() >= 2 ==> data[1] == symbol_value(base64(data)[1]) % 16 * 16 + symbol_value(
            base64(data)[2],
        ) / 4,
        data.len() >= 3 ==> data[2] == symbol_value(base64(data)[2]) % 4 * 64 + symbol_value(
            base64(data)[3],
        ),
        data.len() >= 3 ==> base64(data).skip(4) == base64(data.skip(3)),
{
    lemma_symbol((data[0] / 4) as int);
    if data.len() == 1 {
        lemma_symbol((data[0] % 4 * 16) as int);
    } else {
        lemma_symbol((data[0] % 4 * 16 + data[1] / 16) as int);
        if data.len() == 2 {
            lemma_symbol((data[1] % 16 * 4) as int);
        } else {
            lemma_symbol((data[1] % 16 * 4 + data[2] / 64) as int);
            lemma_symbol((data[2] % 64) as int);
            assert(base64(data).skip(4) =~= base64(data.skip(3)));
        }
    }
}

/// Base64 text is ASCII, and its length is fixed by the number of bytes.
pub proof fn law_base64_text(data: Seq<u8>)
    ensures
        base64(data).len() == base64_len(data.len()),
        is_ascii(base64(data)),
    decreases data.len(),
{
    if data.len() > 0 {
        lemma_symbol((data[0] / 4) as int);
        if data.len() == 1 {
            lemma_symbol((data[0] % 4 * 16) as int);
        } else {
            lemma_symbol((data[0] % 4 * 16 + data[1] / 16) as int);
            if data.len() == 2 {
                lemma_symbol((data[1] % 16 * 4) as int);
            } else {
                lemma_symbol((data[1] % 16 * 4 + data[2] / 64) as int);
                lemma_symbol((data[2] % 64) as int);
                law_base64_text(data.skip(3));
            }
        }
    }
}

/// Decoding inverts encoding: the base64 text of some bytes decodes to those bytes and to nothing
/// else.
pub proof fn law_decode_inverts_encode(data: Seq<u8>, outcome: Option<Seq<u8>>)
    requires
        decodes_to(base64(data), outcome),
    ensures
        outcome == Some(data),
{
    law_base64_text(data);
    match outcome {
        Some(other) => {
            law_base64_is_injective(other, data);
        },
        None => {},
    }
}

/// What an ASCII text decodes to is fixed.
pub proof fn law_ascii_decodes_one_way(
    text: Seq<u8>,
    one: Option<Seq<u8>>,
    other: Option<Seq<u8>>,
)
    requires
        is_ascii(text),
        decodes_to(text, one),
        decodes_to(text, other),
    ensures
        one == other,
{
    if let Some(data) = one {
        law_decode_inverts_encode(data, other);
    } else if let Some(data) = other {
        law_decode_inverts_encode(data, one);
    }
}

} // verus!
