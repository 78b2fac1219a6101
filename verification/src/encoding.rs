//! The URL-safe base64 alphabet without padding, as the `base64` crate
//! encodes and decodes it.

use ::base64::Engine;
use vstd::prelude::*;
use vstd::utf8::encode_utf8;

verus! {

/// The character of a 6-bit value in the URL-safe base64 alphabet.
pub open spec fn url_safe_char(v: int) -> char {
    if v < 26 {
        (65 + v) as char
    } else if v < 52 {
        (97 + v - 26) as char
    } else if v < 62 {
        (48 + v - 52) as char
    } else if v == 62 {
        '-'
    } else {
        '_'
    }
}

/// URL-safe base64 without padding: each three bytes become four
/// characters; a final one or two bytes become two or three.
pub open spec fn base64_url(b: Seq<u8>) -> Seq<char>
    decreases b.len(),
{
    if b.len() == 0 {
        Seq::empty()
    } else if b.len() == 1 {
        seq![url_safe_char(b[0] as int / 4), url_safe_char((b[0] % 4) * 16)]
    } else if b.len() == 2 {
        seq![
            url_safe_char(b[0] as int / 4),
            url_safe_char((b[0] % 4) * 16 + b[1] / 16),
            url_safe_char((b[1] % 16) * 4),
        ]
    } else {
        seq![
            url_safe_char(b[0] as int / 4),
            url_safe_char((b[0] % 4) * 16 + b[1] / 16),
            url_safe_char((b[1] % 16) * 4 + b[2] / 64),
            url_safe_char(b[2] as int % 64),
        ] + base64_url(b.skip(3))
    }
}

/// The text that `URL_SAFE_NO_PAD.encode` gives for the UTF-8 bytes of a
/// string.
pub open spec fn base64_url_encoded(text: Seq<char>) -> Seq<char> {
    base64_url(encode_utf8(text))
}

/// The position of a 6-bit value's character in the code table.
spec fn url_safe_code(v: int) -> int {
    if v < 26 {
        65 + v
    } else if v < 52 {
        97 + v - 26
    } else if v < 62 {
        48 + v - 52
    } else if v == 62 {
        45
    } else {
        95
    }
}

proof fn lemma_url_safe_char_code(v: int)
    requires
        0 <= v < 64,
    ensures
        url_safe_char(v) as int == url_safe_code(v),
{
}

/// Distinct 6-bit values have distinct characters.
proof fn lemma_url_safe_char_injective(v: int, w: int)
    requires
        0 <= v < 64,
        0 <= w < 64,
        url_safe_char(v) == url_safe_char(w),
    ensures
        v == w,
{
    lemma_url_safe_char_code(v);
    lemma_url_safe_char_code(w);
}

/// Every character of the text is a letter, a digit, `-` or `_`.
pub proof fn lemma_base64_url_alphabet(b: Seq<u8>)
    ensures
        forall|i: int|
            0 <= i < base64_url(b).len() ==> {
                let c = #[trigger] base64_url(b)[i];
                ('A' <= c <= 'Z') || ('a' <= c <= 'z') || ('0' <= c <= '9') || c == '-' || c == '_'
            },
    decreases b.len(),
{
    if b.len() >= 3 {
        lemma_base64_url_alphabet(b.skip(3));
        let head = seq![
            url_safe_char(b[0] as int / 4),
            url_safe_char((b[0] % 4) * 16 + b[1] / 16),
            url_safe_char((b[1] % 16) * 4 + b[2] / 64),
            url_safe_char(b[2] as int % 64),
        ];
        assert forall|i: int| 0 <= i < base64_url(b).len() implies {
            let c = #[trigger] base64_url(b)[i];
            ('A' <= c <= 'Z') || ('a' <= c <= 'z') || ('0' <= c <= '9') || c == '-' || c == '_'
        } by {
            if i < 4 {
                lemma_url_safe_char_code(if i == 0 {
                    b[0] as int / 4
                } else if i == 1 {
                    (b[0] % 4) * 16 + b[1] / 16
                } else if i == 2 {
                    (b[1] % 16) * 4 + b[2] / 64
                } else {
                    b[2] as int % 64
                });
                assert(base64_url(b)[i] == head[i]);
            } else {
                assert(base64_url(b)[i] == base64_url(b.skip(3))[i - 4]);
            }
        }
    } else if b.len() == 1 {
        lemma_url_safe_char_code(b[0] as int / 4);
        lemma_url_safe_char_code((b[0] % 4) * 16);
    } else if b.len() == 2 {
        lemma_url_safe_char_code(b[0] as int / 4);
        lemma_url_safe_char_code((b[0] % 4) * 16 + b[1] / 16);
        lemma_url_safe_char_code((b[1] % 16) * 4);
    }
}

/// The length of the text: four characters for each whole group of three
/// bytes, and two or three for one or two bytes left over.
pub proof fn lemma_base64_url_len(b: Seq<u8>)
    ensures
        base64_url(b).len() == 4 * (b.len() / 3) + (if b.len() % 3 == 0 {
            0
        } else {
            b.len() % 3 + 1
        }),
    decreases b.len(),
{
    if b.len() >= 3 {
        lemma_base64_url_len(b.skip(3));
    }
}

/// The text of a group of bytes determines the bytes.
proof fn lemma_group_injective(a: Seq<u8>, b: Seq<u8>)
    requires
        a.len() == b.len(),
        1 <= a.len(),
        base64_url(a).take(if a.len() >= 3 { 4 } else { a.len() + 1int }) =~= base64_url(b).take(
            if b.len() >= 3 { 4 } else { b.len() + 1int },
        ),
    ensures
        a[0] == b[0],
        a.len() >= 2 ==> a[1] == b[1],
        a.len() >= 3 ==> a[2] == b[2],
{
    let ta = base64_url(a);
    let tb = base64_url(b);
    let k: int = if a.len() >= 3 { 4 } else { a.len() + 1int };
    assert(ta.take(k)[0] == tb.take(k)[0]);
    assert(ta.take(k)[1] == tb.take(k)[1]);
    lemma_url_safe_char_injective(a[0] as int / 4, b[0] as int / 4);
    if a.len() == 1 {
        lemma_url_safe_char_injective((a[0] % 4) * 16, (b[0] % 4) * 16);
    } else {
        lemma_url_safe_char_injective((a[0] % 4) * 16 + a[1] / 16, (b[0] % 4) * 16 + b[1] / 16);
        assert(ta.take(k)[2] == tb.take(k)[2]);
        if a.len() == 2 {
            lemma_url_safe_char_injective((a[1] % 16) * 4, (b[1] % 16) * 4);
        } else {
            assert(ta.take(k)[3] == tb.take(k)[3]);
            lemma_url_safe_char_injective((a[1] % 16) * 4 + a[2] / 64, (b[1] % 16) * 4 + b[2] / 64);
            lemma_url_safe_char_injective(a[2] as int % 64, b[2] as int % 64);
        }
    }
}

/// Distinct byte strings have distinct texts.
pub proof fn lemma_base64_url_injective(a: Seq<u8>, b: Seq<u8>)
    requires
        base64_url(a) == base64_url(b),
    ensures
        a == b,
    decreases a.len(),
{
    lemma_base64_url_len(a);
    lemma_base64_url_len(b);
    assert(a.len() == b.len());
    if a.len() == 0 {
        assert(a =~= b);
    } else {
        let k: int = if a.len() >= 3 { 4 } else { a.len() + 1int };
        assert(base64_url(a).take(k) =~= base64_url(b).take(k));
        lemma_group_injective(a, b);
        if a.len() >= 3 {
            assert(base64_url(a.skip(3)) =~= base64_url(a).skip(4));
            assert(base64_url(b.skip(3)) =~= base64_url(b).skip(4));
            lemma_base64_url_injective(a.skip(3), b.skip(3));
            assert forall|i: int| 0 <= i < a.len() implies a[i] == b[i] by {
                if i >= 3 {
                    assert(a[i] == a.skip(3)[i - 3]);
                    assert(b[i] == b.skip(3)[i - 3]);
                }
            }
        }
        assert(a =~= b);
    }
}

/// Distinct strings have distinct encoded texts.
pub proof fn lemma_base64_url_encoded_injective(s: Seq<char>, t: Seq<char>)
    requires
        base64_url_encoded(s) == base64_url_encoded(t),
    ensures
        s == t,
{
    lemma_base64_url_injective(encode_utf8(s), encode_utf8(t));
    vstd::utf8::encode_utf8_decode_utf8(s);
    vstd::utf8::encode_utf8_decode_utf8(t);
}

/// The decoding error of the `base64` crate.
#[verifier::external_type_specification]
#[verifier::external_body]
pub struct ExDecodeError(base64::DecodeError);

/// `URL_SAFE_NO_PAD.decode` of a string's bytes. The engine accepts no
/// padding and no set bits left over in the last symbol, so it accepts
/// exactly the texts that are the encoding of some bytes, and gives back those
/// bytes.
#[verifier::external_body]
pub(crate) fn decode_url_safe(text: &str) -> (res: Result<Vec<u8>, base64::DecodeError>)
    ensures
        res is Ok <==> exists|b: Seq<u8>| #[trigger] base64_url(b) == text@,
        res matches Ok(bytes) ==> base64_url(bytes@) == text@,
{
    base64::engine::general_purpose::URL_SAFE_NO_PAD.decode(text)
}

/// `URL_SAFE_NO_PAD.encode` of a string's bytes: their URL-safe base64
/// text without padding.
#[verifier::external_body]
pub(crate) fn encode_url_safe(text: &str) -> (res: String)
    ensures
        res@ == base64_url_encoded(text@),
{
    base64::engine::general_purpose::URL_SAFE_NO_PAD.encode(text)
}

} // verus!
