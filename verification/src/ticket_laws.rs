//! What holds of every redirect target and of every payload segment.
//!
//! A ticket ends at the first `&` behind `ticket=`. So a target and the same
//! target with `&` and more parameters behind it hold the same ticket and
//! give the same claim, as long as what is added holds no `%`.
//!
//! A payload segment is base64 without padding. Whatever bytes were
//! encoded, in the URL-safe alphabet or in the standard one, the segment is
//! one that the decoder pads well and takes, and it stands for those bytes.

use vstd::prelude::*;
use vstd::utf8::{
    decode_utf8_split, encode_scalar, encode_utf8, encode_utf8_decode_utf8,
    encode_utf8_valid_utf8, is_char_boundary_iff_not_is_continuation_byte,
    is_continuation_byte, valid_utf8, valid_utf8_concat, valid_utf8_split,
};
use crate::text::{
    index_of, index_of_char, lemma_index_of, lemma_index_of_char, lemma_index_of_char_is,
    lemma_index_of_is, occurs_at,
};
use crate::ticket::{
    decoded, decoded_location, hex_value, id_token_of, is_alphabet_symbol, is_unpadded_segment,
    padded_standard, padding_needed, percent_decoded, sextet, standard_symbol, text_of_bytes,
    ticket_value,
};

verus! {

/// Whether a text holds no `%`.
pub open spec fn has_no_percent(text: Seq<char>) -> bool {
    forall|i: int| 0 <= i < text.len() ==> #[trigger] text[i] != '%'
}

/// The bytes of two texts one after the other are the bytes of the first
/// and then those of the second.
proof fn lemma_encode_concat(a: Seq<char>, b: Seq<char>)
    ensures
        encode_utf8(a + b) == encode_utf8(a) + encode_utf8(b),
    decreases a.len(),
{
    if a.len() == 0 {
        assert(a + b =~= b);
        assert(encode_utf8(a) + encode_utf8(b) =~= encode_utf8(b));
    } else {
        assert((a + b)[0] == a[0]);
        assert((a + b).drop_first() =~= a.drop_first() + b);
        lemma_encode_concat(a.drop_first(), b);
        assert(encode_utf8(a + b) =~= encode_utf8(a) + encode_utf8(b));
    }
}

/// A byte with its highest bit set is no `%`.
proof fn lemma_high_byte(low: u8)
    ensures
        0x80u8 | low != 0x25,
        0xC0u8 | low != 0x25,
        0xE0u8 | low != 0x25,
        0xF0u8 | low != 0x25,
{
    assert(0x80u8 | low != 0x25) by (bit_vector);
    assert(0xC0u8 | low != 0x25) by (bit_vector);
    assert(0xE0u8 | low != 0x25) by (bit_vector);
    assert(0xF0u8 | low != 0x25) by (bit_vector);
}

/// Only `%` is written with the byte of `%`.
proof fn lemma_scalar_has_no_percent(scalar: u32)
    requires
        scalar != 0x25,
    ensures
        forall|i: int|
            0 <= i < encode_scalar(scalar).len() ==> #[trigger] encode_scalar(scalar)[i] != 0x25,
{
    assert(scalar <= 0x7F ==> (scalar & 0x7F) == scalar) by (bit_vector);
    lemma_high_byte(((scalar >> 6) & 0x1F) as u8);
    lemma_high_byte(((scalar >> 12) & 0x0F) as u8);
    lemma_high_byte(((scalar >> 18) & 0x7) as u8);
    lemma_high_byte((scalar & 0x3F) as u8);
    lemma_high_byte(((scalar >> 6) & 0x3F) as u8);
    lemma_high_byte(((scalar >> 12) & 0x3F) as u8);
}

/// A text without `%` is written without the byte of `%`.
proof fn lemma_text_has_no_percent(text: Seq<char>)
    requires
        has_no_percent(text),
    ensures
        forall|i: int| 0 <= i < encode_utf8(text).len() ==> #[trigger] encode_utf8(text)[i] != 0x25,
    decreases text.len(),
{
    if text.len() > 0 {
        let first = encode_scalar(text[0] as u32);
        let rest = text.drop_first();
        assert(text[0] != '%');
        assert(text[0] as u32 != 0x25) by {
            if text[0] as u32 == 0x25 {
                vstd::utf8::char_u32_cast(text[0], 0x25);
                vstd::utf8::char_u32_cast('%', 0x25);
            }
        }
        lemma_scalar_has_no_percent(text[0] as u32);
        assert forall|i: int| 0 <= i < rest.len() implies #[trigger] rest[i] != '%' by {
            assert(rest[i] == text[i + 1]);
        }
        lemma_text_has_no_percent(rest);
        assert forall|i: int| 0 <= i < encode_utf8(text).len() implies #[trigger] encode_utf8(
            text,
        )[i] != 0x25 by {
            if i < first.len() {
                assert(encode_utf8(text)[i] == first[i]);
            } else {
                assert(encode_utf8(text)[i] == encode_utf8(rest)[i - first.len()]);
            }
        }
    }
}

/// Bytes without `%` stand for themselves.
proof fn lemma_nothing_to_decode(bytes: Seq<u8>, from: int)
    requires
        0 <= from <= bytes.len(),
        forall|i: int| from <= i < bytes.len() ==> #[trigger] bytes[i] != 0x25,
    ensures
        percent_decoded(bytes, from) == bytes.skip(from),
    decreases bytes.len() - from,
{
    if from < bytes.len() {
        lemma_nothing_to_decode(bytes, from + 1);
        assert(seq![bytes[from]] + bytes.skip(from + 1) =~= bytes.skip(from));
    } else {
        assert(bytes.skip(from) =~= Seq::<u8>::empty());
    }
}

/// Bytes that hold no `%` and begin with no hexadecimal digit are decoded
/// to themselves behind whatever stands before them.
proof fn lemma_decoding_keeps_tail(front: Seq<u8>, tail: Seq<u8>, from: int)
    requires
        0 <= from <= front.len(),
        tail.len() > 0,
        hex_value(tail[0]) is None,
        forall|i: int| 0 <= i < tail.len() ==> #[trigger] tail[i] != 0x25,
    ensures
        percent_decoded(front + tail, from) == percent_decoded(front, from) + tail,
    decreases front.len() - from,
{
    let all = front + tail;
    if from == front.len() {
        assert forall|i: int| from <= i < all.len() implies #[trigger] all[i] != 0x25 by {
            assert(all[i] == tail[i - front.len()]);
        }
        lemma_nothing_to_decode(all, from);
        assert(all.skip(from) =~= tail);
        assert(percent_decoded(front, from) + tail =~= tail);
    } else {
        assert(all[from] == front[from]);
        assert(all[front.len() as int] == tail[0]);
        if from + 1 < front.len() {
            assert(all[from + 1] == front[from + 1]);
        }
        if from + 2 < front.len() {
            assert(all[from + 2] == front[from + 2]);
        }
        let escape = front[from] == 0x25 && from + 2 < front.len() && hex_value(front[from + 1]) is Some
            && hex_value(front[from + 2]) is Some;
        if escape {
            lemma_decoding_keeps_tail(front, tail, from + 3);
            let byte = (hex_value(front[from + 1])->0 * 16 + hex_value(front[from + 2])->0) as u8;
            assert(seq![byte] + (percent_decoded(front, from + 3) + tail) =~= (seq![byte]
                + percent_decoded(front, from + 3)) + tail);
        } else {
            lemma_decoding_keeps_tail(front, tail, from + 1);
            assert(seq![front[from]] + (percent_decoded(front, from + 1) + tail) =~= (seq![
                front[from],
            ] + percent_decoded(front, from + 1)) + tail);
        }
    }
}

/// Percent-decoding a target leaves alone what stands behind it after a
/// `&`, where that holds no `%`.
pub proof fn lemma_decoded_location_keeps_tail(location: Seq<char>, rest: Seq<char>)
    requires
        has_no_percent(rest),
    ensures
        decoded_location(location + seq!['&'] + rest) == decoded_location(location) + seq!['&']
            + rest,
{
    let tail = seq!['&'] + rest;
    assert(location + seq!['&'] + rest =~= location + tail);
    assert(decoded_location(location) + seq!['&'] + rest =~= decoded_location(location) + tail);
    assert forall|i: int| 0 <= i < tail.len() implies #[trigger] tail[i] != '%' by {
        if i > 0 {
            assert(tail[i] == rest[i - 1]);
        }
    }
    let front = encode_utf8(location);
    let bytes = encode_utf8(tail);
    lemma_encode_concat(location, tail);
    lemma_text_has_no_percent(tail);
    assert(bytes.len() > 0 && bytes[0] == 0x26) by {
        assert(tail[0] == '&');
        assert(tail[0] as u32 == 0x26);
        assert(0x26u32 & 0x7F == 0x26) by (bit_vector);
        assert(encode_scalar(0x26)[0] == 0x26);
        assert(encode_utf8(tail) == encode_scalar(tail[0] as u32) + encode_utf8(
            tail.drop_first(),
        ));
    }
    lemma_decoding_keeps_tail(front, bytes, 0);
    let decoded = percent_decoded(front, 0);
    let whole = decoded + bytes;
    assert(percent_decoded(front + bytes, 0) == whole);
    encode_utf8_valid_utf8(tail);
    encode_utf8_decode_utf8(tail);
    if valid_utf8(decoded) {
        valid_utf8_concat(decoded, bytes);
    }
    if valid_utf8(whole) {
        let at = decoded.len() as int;
        assert(whole[at] == bytes[0]);
        assert(!is_continuation_byte(whole[at]));
        is_char_boundary_iff_not_is_continuation_byte(whole, at);
        valid_utf8_split(whole, at);
        decode_utf8_split(whole, at);
        assert(whole.subrange(0, at) =~= decoded);
        assert(whole.subrange(at, whole.len() as int) =~= bytes);
    }
}

/// What follows the ticket behind a `&` does not change it: a text that
/// holds `ticket=` holds the same ticket with `&` and anything else behind
/// it.
pub proof fn lemma_ticket_value_extends(text: Seq<char>, rest: Seq<char>)
    requires
        ticket_value(text) is Some,
    ensures
        ticket_value(text + seq!['&'] + rest) == ticket_value(text),
{
    let key = "ticket="@;
    let long = text + seq!['&'] + rest;
    lemma_index_of(text, key, 0);
    let at = index_of(text, key, 0)->0;
    let start = at + key.len();
    assert forall|i: int| 0 <= i < at implies !occurs_at(long, key, i) by {
        assert(!occurs_at(text, key, i));
        assert(long.subrange(i, i + key.len()) =~= text.subrange(i, i + key.len()));
    }
    assert(long.subrange(at, at + key.len()) =~= text.subrange(at, at + key.len()));
    lemma_index_of_is(long, key, 0, at);
    lemma_index_of_char(text, '&', start);
    let end = index_of_char(text, '&', start);
    assert forall|i: int| start <= i < end implies #[trigger] long[i] != '&' by {
        assert(long[i] == text[i]);
    }
    if end < text.len() {
        assert(long[end] == text[end]);
    } else {
        assert(long[text.len() as int] == '&');
    }
    lemma_index_of_char_is(long, '&', start, end);
    assert(long.subrange(start, end) =~= text.subrange(start, end));
}

/// A redirect target gives the same claim with `&` and more parameters
/// behind it: everything from the first `&` behind `ticket=` on is no part
/// of the ticket. The target holds `ticket=` once it is percent-decoded,
/// and what is added holds no `%`.
pub proof fn lemma_what_follows_the_ticket_does_not_count(location: Seq<char>, rest: Seq<char>)
    requires
        ticket_value(decoded_location(location)) is Some,
        has_no_percent(rest),
    ensures
        id_token_of(location + seq!['&'] + rest) == id_token_of(location),
{
    lemma_decoded_location_keeps_tail(location, rest);
    lemma_ticket_value_extends(decoded_location(location), rest);
}

/// The symbol for six bits: `A` to `Z` for 0 to 25, `a` to `z` for 26 to 51,
/// the digits for 52 to 61, and for 62 and 63 `-` and `_` in the URL-safe
/// alphabet, `+` and `/` in the standard one.
pub open spec fn symbol(bits: int, url_safe: bool) -> u8 {
    if bits < 26 {
        (0x41 + bits) as u8
    } else if bits < 52 {
        (0x61 + bits - 26) as u8
    } else if bits < 62 {
        (0x30 + bits - 52) as u8
    } else if bits == 62 {
        if url_safe {
            0x2D
        } else {
            0x2B
        }
    } else {
        if url_safe {
            0x5F
        } else {
            0x2F
        }
    }
}

/// Bytes in base64 without padding: every three bytes are written as four
/// symbols, six bits a symbol and the highest bits first; one byte that is
/// left over is written as two symbols, two bytes as three.
pub open spec fn encoded(bytes: Seq<u8>, url_safe: bool) -> Seq<u8>
    decreases bytes.len(),
{
    if bytes.len() == 0 {
        Seq::empty()
    } else if bytes.len() == 1 {
        seq![symbol(bytes[0] as int / 4, url_safe), symbol(bytes[0] as int % 4 * 16, url_safe)]
    } else if bytes.len() == 2 {
        seq![
            symbol(bytes[0] as int / 4, url_safe),
            symbol(bytes[0] as int % 4 * 16 + bytes[1] as int / 16, url_safe),
            symbol(bytes[1] as int % 16 * 4, url_safe),
        ]
    } else {
        seq![
            symbol(bytes[0] as int / 4, url_safe),
            symbol(bytes[0] as int % 4 * 16 + bytes[1] as int / 16, url_safe),
            symbol(bytes[1] as int % 16 * 4 + bytes[2] as int / 64, url_safe),
            symbol(bytes[2] as int % 64, url_safe),
        ] + encoded(bytes.skip(3), url_safe)
    }
}

/// A symbol stands for the six bits that it was chosen for, in either
/// alphabet.
proof fn lemma_symbol(bits: int, url_safe: bool)
    requires
        0 <= bits < 64,
    ensures
        is_alphabet_symbol(standard_symbol(symbol(bits, url_safe))),
        sextet(standard_symbol(symbol(bits, url_safe))) == bits,
{
}

/// Encoded bytes are a segment without padding.
proof fn lemma_encoded_is_segment(bytes: Seq<u8>, url_safe: bool)
    ensures
        is_unpadded_segment(encoded(bytes, url_safe)),
        bytes.len() % 3 == 0 ==> encoded(bytes, url_safe).len() % 4 == 0,
        bytes.len() % 3 == 1 ==> encoded(bytes, url_safe).len() % 4 == 2,
        bytes.len() % 3 == 2 ==> encoded(bytes, url_safe).len() % 4 == 3,
        bytes.len() > 0 ==> encoded(bytes, url_safe).len() > 0,
    decreases bytes.len(),
{
    let text = encoded(bytes, url_safe);
    if bytes.len() == 0 {
    } else if bytes.len() == 1 {
        lemma_symbol(bytes[0] as int / 4, url_safe);
        lemma_symbol(bytes[0] as int % 4 * 16, url_safe);
    } else if bytes.len() == 2 {
        lemma_symbol(bytes[0] as int / 4, url_safe);
        lemma_symbol(bytes[0] as int % 4 * 16 + bytes[1] as int / 16, url_safe);
        lemma_symbol(bytes[1] as int % 16 * 4, url_safe);
    } else {
        let rest = encoded(bytes.skip(3), url_safe);
        lemma_symbol(bytes[0] as int / 4, url_safe);
        lemma_symbol(bytes[0] as int % 4 * 16 + bytes[1] as int / 16, url_safe);
        lemma_symbol(bytes[1] as int % 16 * 4 + bytes[2] as int / 64, url_safe);
        lemma_symbol(bytes[2] as int % 64, url_safe);
        lemma_encoded_is_segment(bytes.skip(3), url_safe);
        assert(text.len() == 4 + rest.len());
        assert forall|i: int| 0 <= i < text.len() implies is_alphabet_symbol(
            standard_symbol(#[trigger] text[i]),
        ) by {
            if i >= 4 {
                assert(text[i] == rest[i - 4]);
            }
        }
        if rest.len() > 0 {
            assert(text[text.len() - 1] == rest[rest.len() - 1]);
        }
    }
}

/// Padding a group of four symbols and what follows it pads what follows.
proof fn lemma_padding_behind_group(group: Seq<u8>, rest: Seq<u8>)
    requires
        group.len() == 4,
    ensures
        padded_standard(group + rest) == Seq::new(4, |i: int| standard_symbol(group[i]))
            + padded_standard(rest),
{
    let whole = group + rest;
    assert(padding_needed(whole.len()) == padding_needed(rest.len()));
    let left = padded_standard(whole);
    let right = Seq::new(4, |i: int| standard_symbol(group[i])) + padded_standard(rest);
    assert(left.len() == right.len());
    assert forall|i: int| 0 <= i < left.len() implies left[i] == right[i] by {
        if i < 4 {
            assert(whole[i] == group[i]);
        } else if i < whole.len() {
            assert(whole[i] == rest[i - 4]);
        }
    }
    assert(left =~= right);
}

/// A segment that was encoded stands, once it is padded, for the bytes
/// that were encoded.
proof fn lemma_encoded_is_decoded(bytes: Seq<u8>, url_safe: bool)
    ensures
        decoded(padded_standard(encoded(bytes, url_safe))) == bytes,
    decreases bytes.len(),
{
    let text = encoded(bytes, url_safe);
    let padded = padded_standard(text);
    if bytes.len() == 0 {
        assert(padded.len() == 0);
        assert(decoded(padded) =~= bytes);
    } else if bytes.len() == 1 {
        lemma_symbol(bytes[0] as int / 4, url_safe);
        lemma_symbol(bytes[0] as int % 4 * 16, url_safe);
        assert(padded.len() == 4);
        assert(padded[0] == standard_symbol(text[0]));
        assert(padded[1] == standard_symbol(text[1]));
        assert(padded[2] == 0x3D);
        assert(decoded(padded) =~= bytes);
    } else if bytes.len() == 2 {
        lemma_symbol(bytes[0] as int / 4, url_safe);
        lemma_symbol(bytes[0] as int % 4 * 16 + bytes[1] as int / 16, url_safe);
        lemma_symbol(bytes[1] as int % 16 * 4, url_safe);
        assert(padded.len() == 4);
        assert(padded[0] == standard_symbol(text[0]));
        assert(padded[1] == standard_symbol(text[1]));
        assert(padded[2] == standard_symbol(text[2]));
        assert(padded[3] == 0x3D);
        assert(decoded(padded) =~= bytes);
    } else {
        let group = seq![
            symbol(bytes[0] as int / 4, url_safe),
            symbol(bytes[0] as int % 4 * 16 + bytes[1] as int / 16, url_safe),
            symbol(bytes[1] as int % 16 * 4 + bytes[2] as int / 64, url_safe),
            symbol(bytes[2] as int % 64, url_safe),
        ];
        let rest = encoded(bytes.skip(3), url_safe);
        lemma_symbol(bytes[0] as int / 4, url_safe);
        lemma_symbol(bytes[0] as int % 4 * 16 + bytes[1] as int / 16, url_safe);
        lemma_symbol(bytes[1] as int % 16 * 4 + bytes[2] as int / 64, url_safe);
        lemma_symbol(bytes[2] as int % 64, url_safe);
        lemma_padding_behind_group(group, rest);
        lemma_encoded_is_decoded(bytes.skip(3), url_safe);
        let head = Seq::new(4, |i: int| standard_symbol(group[i]));
        assert(padded == head + padded_standard(rest));
        assert(padded[0] == head[0] && padded[1] == head[1] && padded[2] == head[2] && padded[3]
            == head[3]);
        assert(padded.skip(4) =~= padded_standard(rest));
        assert(decoded(padded) =~= seq![bytes[0], bytes[1], bytes[2]] + bytes.skip(3));
        assert(seq![bytes[0], bytes[1], bytes[2]] + bytes.skip(3) =~= bytes);
    }
}

/// Base64 without padding decodes: whatever bytes were encoded, in either
/// alphabet, the text is a segment without padding, and once it is padded
/// it stands for the bytes that were encoded. So `base64_url_decode` gives
/// the text back that was encoded, and fails only for bytes that are no
/// UTF-8.
pub proof fn lemma_unpadded_base64_decodes(bytes: Seq<u8>, url_safe: bool)
    ensures
        is_unpadded_segment(encoded(bytes, url_safe)),
        decoded(padded_standard(encoded(bytes, url_safe))) == bytes,
        text_of_bytes(decoded(padded_standard(encoded(bytes, url_safe)))) == text_of_bytes(bytes),
{
    lemma_encoded_is_segment(bytes, url_safe);
    lemma_encoded_is_decoded(bytes, url_safe);
}

/// A text that was encoded as base64 without padding is what the decoder
/// gives for it.
pub proof fn lemma_unpadded_text_decodes(text: Seq<char>, url_safe: bool)
    ensures
        is_unpadded_segment(encoded(encode_utf8(text), url_safe)),
        text_of_bytes(decoded(padded_standard(encoded(encode_utf8(text), url_safe)))) == Ok::<
            Seq<char>,
            crate::ticket::TicketError,
        >(text),
{
    lemma_unpadded_base64_decodes(encode_utf8(text), url_safe);
    encode_utf8_valid_utf8(text);
    encode_utf8_decode_utf8(text);
}

} // verus!
