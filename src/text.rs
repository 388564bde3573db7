use vstd::prelude::*;
use vstd::string::StrSliceExecFns;
use vstd::utf8::{
    char_u32_cast, decode_utf8, encode_scalar, encode_utf8, encode_utf8_decode_utf8,
    encode_utf8_valid_utf8, has_width_1_encoding, has_width_2_encoding, has_width_3_encoding,
    has_width_4_encoding, valid_utf8,
};

verus! {

/// The text that a byte string encodes as UTF-8, or nothing when it is not
/// valid UTF-8.
pub open spec fn utf8_text(b: Seq<u8>) -> Option<Seq<char>> {
    if valid_utf8(b) {
        Some(decode_utf8(b))
    } else {
        None
    }
}

/// Relies on `String::from_utf8`: it succeeds exactly on valid UTF-8 and then
/// holds the text that the bytes encode.
#[verifier::external_body]
pub(crate) fn text_from_bytes(b: Vec<u8>) -> (r: Option<String>)
    ensures
        r is Some <==> valid_utf8(b@),
        r is Some ==> r->Some_0@ == decode_utf8(b@),
{
    String::from_utf8(b).ok()
}

/// Only the NUL character has a zero byte in its UTF-8 encoding.
proof fn lemma_scalar_nul(c: char)
    ensures
        encode_scalar(c as u32).contains(0u8) <==> c == '\0',
{
    let v = c as u32;
    let e = encode_scalar(v);
    if has_width_1_encoding(v) {
        assert(((v & 0x7F) as u8 == 0) <==> v == 0) by (bit_vector)
            requires
                v <= 0x7F,
        ;
        assert(e[0] == (v & 0x7F) as u8);
        if e.contains(0u8) {
            let i = choose|i: int| 0 <= i < e.len() && e[i] == 0u8;
            assert(i == 0);
        }
        if v == 0 {
            assert(e[0] == 0u8);
        }
        char_u32_cast(c, v);
        char_u32_cast('\0', 0);
    } else {
        assert forall|x: u32| #![auto] (0x80u8 | ((x & 0x3F) as u8)) != 0u8 by {
            assert((0x80u8 | ((x & 0x3F) as u8)) != 0u8) by (bit_vector);
        }
        assert forall|x: u32| #![auto] (0x80u8 | (((x >> 6u32) & 0x3F) as u8)) != 0u8 by {
            assert((0x80u8 | (((x >> 6u32) & 0x3F) as u8)) != 0u8) by (bit_vector);
        }
        assert forall|x: u32| #![auto] (0x80u8 | (((x >> 12u32) & 0x3F) as u8)) != 0u8 by {
            assert((0x80u8 | (((x >> 12u32) & 0x3F) as u8)) != 0u8) by (bit_vector);
        }
        assert forall|x: u32| #![auto] (0xC0u8 | (((x >> 6u32) & 0x1F) as u8)) != 0u8 by {
            assert((0xC0u8 | (((x >> 6u32) & 0x1F) as u8)) != 0u8) by (bit_vector);
        }
        assert forall|x: u32| #![auto] (0xE0u8 | (((x >> 12u32) & 0x0F) as u8)) != 0u8 by {
            assert((0xE0u8 | (((x >> 12u32) & 0x0F) as u8)) != 0u8) by (bit_vector);
        }
        assert forall|x: u32| #![auto] (0xF0u8 | (((x >> 18u32) & 0x7) as u8)) != 0u8 by {
            assert((0xF0u8 | (((x >> 18u32) & 0x7) as u8)) != 0u8) by (bit_vector);
        }
        assert(forall|i: int| 0 <= i < e.len() ==> e[i] != 0u8);
        assert(c != '\0') by {
            if c == '\0' {
                assert(('\0' as u32) == 0);
            }
        }
    }
}

/// A zero byte occurs in the UTF-8 encoding of a text exactly when the text
/// holds a NUL character.
pub proof fn lemma_utf8_nul(cs: Seq<char>)
    ensures
        encode_utf8(cs).contains(0u8) <==> cs.contains('\0'),
    decreases cs.len(),
{
    if cs.len() > 0 {
        let head = encode_scalar(cs[0] as u32);
        let tail = cs.drop_first();
        let rest = encode_utf8(tail);
        lemma_utf8_nul(tail);
        lemma_scalar_nul(cs[0]);
        let all = encode_utf8(cs);
        assert(all == head + rest);
        if all.contains(0u8) {
            let i = choose|i: int| 0 <= i < all.len() && all[i] == 0u8;
            if i < head.len() {
                assert(head[i] == 0u8);
            } else {
                assert(rest[i - head.len()] == 0u8);
                let j = choose|j: int| 0 <= j < tail.len() && tail[j] == '\0';
                assert(cs[j + 1] == '\0');
            }
        }
        if cs.contains('\0') {
            let j = choose|j: int| 0 <= j < cs.len() && cs[j] == '\0';
            if j == 0 {
                let i = choose|i: int| 0 <= i < head.len() && head[i] == 0u8;
                assert(all[i] == 0u8);
            } else {
                assert(tail[j - 1] == '\0');
                let i = choose|i: int| 0 <= i < rest.len() && rest[i] == 0u8;
                assert(all[i + head.len()] == 0u8);
            }
        }
    }
}

/// The UTF-8 bytes of a text: they read back as the text, and hold a zero
/// byte exactly when the text holds a NUL.
pub(crate) fn text_bytes(s: &String) -> (r: Vec<u8>)
    ensures
        r@ == encode_utf8(s@),
        utf8_text(r@) == Some(s@),
        r@.contains(0u8) <==> s@.contains('\0'),
{
    let r = s.as_str().as_bytes_vec();
    proof {
        encode_utf8_valid_utf8(s@);
        encode_utf8_decode_utf8(s@);
        lemma_utf8_nul(s@);
    }
    r
}

} // verus!
