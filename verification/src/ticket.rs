//! The ticket in a redirect target, and the identity claim inside it.
//!
//! After a successful sign-in the portal redirects to an address that holds
//! `ticket=` and a token of three segments parted by dots. The middle segment
//! is a JSON object in URL-safe base64; its string member `idToken` is the
//! identity claim. The last segment, the signature, is not checked.

use vstd::prelude::*;
use vstd::utf8::{decode_utf8, encode_utf8, valid_utf8};
use base64::Engine;
use serde_json::Value;
use crate::text::{
    chars_of, find, find_char, index_of, index_of_char, lemma_index_of, lemma_index_of_char_is,
    lemma_index_of_is, occurs_at, string_of,
};

verus! {

/// Why no identity claim could be read from a redirect target.
#[derive(Clone, Copy, Debug, PartialEq, Eq, Structural)]
pub enum TicketError {
    /// The text holds no `ticket=`.
    MalformedTicket,
    /// The ticket is not made of exactly three segments parted by dots.
    InvalidTokenShape,
    /// The middle segment is not base64 of a JSON text in UTF-8.
    PayloadDecodeError,
    /// The JSON text has no string member that holds the claim.
    ClaimMissing,
}

/// The value of a hexadecimal digit.
pub open spec fn hex_value(b: u8) -> Option<int> {
    if 0x30 <= b <= 0x39 {
        Some(b - 0x30)
    } else if 0x41 <= b <= 0x46 {
        Some(b - 0x41 + 10)
    } else if 0x61 <= b <= 0x66 {
        Some(b - 0x61 + 10)
    } else {
        None
    }
}

/// Percent-decoding of the bytes from `from` on: a `%` that two hexadecimal
/// digits follow stands for the byte that they write, and every other byte
/// stands for itself.
pub open spec fn percent_decoded(bytes: Seq<u8>, from: int) -> Seq<u8>
    decreases bytes.len() - from,
{
    if from < 0 || from >= bytes.len() {
        Seq::empty()
    } else if bytes[from] == 0x25 && from + 2 < bytes.len() && hex_value(bytes[from + 1]) is Some
        && hex_value(bytes[from + 2]) is Some {
        seq![(hex_value(bytes[from + 1])->0 * 16 + hex_value(bytes[from + 2])->0) as u8]
            + percent_decoded(bytes, from + 3)
    } else {
        seq![bytes[from]] + percent_decoded(bytes, from + 1)
    }
}

/// A redirect target after percent-decoding. Where the decoded bytes are no
/// UTF-8, the target stands as it is.
pub open spec fn decoded_location(location: Seq<char>) -> Seq<char> {
    let bytes = percent_decoded(encode_utf8(location), 0);
    if valid_utf8(bytes) {
        decode_utf8(bytes)
    } else {
        location
    }
}

/// The ticket in a text: what stands between the first `ticket=` and the
/// next `&`, or the end of the text.
pub open spec fn ticket_value(text: Seq<char>) -> Option<Seq<char>> {
    match index_of(text, "ticket="@, 0) {
        None => None,
        Some(key) => {
            let start = key + "ticket="@.len();
            Some(text.subrange(start, index_of_char(text, '&', start)))
        },
    }
}

/// What follows a ticket behind a `&` does not change it: where `ticket=`
/// first stands right behind `head`, and `ticket` holds no `&`, the ticket
/// of `head`, `ticket=` and `ticket` is `ticket`, with or without a `&` and
/// anything else behind it.
pub proof fn lemma_ticket_ignores_what_follows(
    head: Seq<char>,
    ticket: Seq<char>,
    rest: Seq<char>,
)
    requires
        index_of(head + "ticket="@, "ticket="@, 0) == Some(head.len() as int),
        !ticket.contains('&'),
    ensures
        ticket_value(head + "ticket="@ + ticket) == Some(ticket),
        ticket_value(head + "ticket="@ + ticket + seq!['&'] + rest) == Some(ticket),
{
    let key = "ticket="@;
    let base = head + key;
    let short = head + key + ticket;
    let long = head + key + ticket + seq!['&'] + rest;
    let at = head.len() as int;
    let start = at + key.len();
    lemma_index_of(base, key, 0);
    assert forall|i: int| 0 <= i < at implies !occurs_at(short, key, i) && !occurs_at(
        long,
        key,
        i,
    ) by {
        assert(!occurs_at(base, key, i));
        assert(short.subrange(i, i + key.len()) =~= base.subrange(i, i + key.len()));
        assert(long.subrange(i, i + key.len()) =~= base.subrange(i, i + key.len()));
    }
    assert(short.subrange(at, at + key.len()) =~= key);
    assert(long.subrange(at, at + key.len()) =~= key);
    lemma_index_of_is(short, key, 0, at);
    lemma_index_of_is(long, key, 0, at);
    assert forall|i: int| start <= i < start + ticket.len() implies #[trigger] short[i] != '&'
        && #[trigger] long[i] != '&' by {
        assert(short[i] == ticket[i - start]);
        assert(long[i] == ticket[i - start]);
    }
    assert(long[start + ticket.len()] == '&');
    lemma_index_of_char_is(short, '&', start, start + ticket.len());
    lemma_index_of_char_is(long, '&', start, start + ticket.len());
    assert(short.subrange(start, start + ticket.len()) =~= ticket);
    assert(long.subrange(start, start + ticket.len()) =~= ticket);
}

/// The middle segment of a ticket that holds exactly two dots.
pub open spec fn payload_segment(ticket: Seq<char>) -> Option<Seq<char>> {
    let first = index_of_char(ticket, '.', 0);
    let second = index_of_char(ticket, '.', first + 1);
    let third = index_of_char(ticket, '.', second + 1);
    if first < ticket.len() && second < ticket.len() && third >= ticket.len() {
        Some(ticket.subrange(first + 1, second))
    } else {
        None
    }
}

/// The symbol of the standard base64 alphabet for one of the URL-safe
/// alphabet: `+` for `-`, `/` for `_`, and every other byte as it is.
pub open spec fn standard_symbol(b: u8) -> u8 {
    if b == 0x2D {
        0x2B
    } else if b == 0x5F {
        0x2F
    } else {
        b
    }
}

/// How many `=` bring a text of `len` bytes to a multiple of four.
pub open spec fn padding_needed(len: nat) -> nat {
    ((4 - len % 4) % 4) as nat
}

/// A segment in the standard alphabet, padded with `=` to a multiple of
/// four bytes.
pub open spec fn padded_standard(segment: Seq<u8>) -> Seq<u8> {
    Seq::new(segment.len(), |i: int| standard_symbol(segment[i])) + Seq::new(
        padding_needed(segment.len()),
        |i: int| 0x3Du8,
    )
}

/// A byte that standard base64 with padding is written in: a letter, a
/// digit, `+`, `/` or `=`.
pub open spec fn is_standard_symbol(b: u8) -> bool {
    ||| 0x41 <= b <= 0x5A
    ||| 0x61 <= b <= 0x7A
    ||| 0x30 <= b <= 0x39
    ||| b == 0x2B
    ||| b == 0x2F
    ||| b == 0x3D
}

/// A byte that a segment may hold: a standard symbol, `-` or `_`.
pub open spec fn is_segment_symbol(b: u8) -> bool {
    is_standard_symbol(b) || b == 0x2D || b == 0x5F
}

/// Whether a text is written in symbols that a segment may hold.
pub open spec fn all_segment_symbols(input: Seq<u8>) -> bool {
    forall|i: int| 0 <= i < input.len() ==> is_segment_symbol(#[trigger] input[i])
}

/// A symbol of the standard alphabet: a letter, a digit, `+` or `/`.
pub open spec fn is_alphabet_symbol(b: u8) -> bool {
    is_standard_symbol(b) && b != 0x3D
}

/// The six bits that a symbol of the standard alphabet stands for: 0 to 25
/// for `A` to `Z`, 26 to 51 for `a` to `z`, 52 to 61 for the digits, 62 for
/// `+` and 63 for `/`.
pub open spec fn sextet(b: u8) -> int {
    if 0x41 <= b <= 0x5A {
        b - 0x41
    } else if 0x61 <= b <= 0x7A {
        b - 0x61 + 26
    } else if 0x30 <= b <= 0x39 {
        b - 0x30 + 52
    } else if b == 0x2B {
        62
    } else {
        63
    }
}

/// Whether a text is base64 as the standard engine takes it: groups of four
/// symbols of the alphabet, where the last group may end in one or two `=`,
/// and the symbol before the `=` leaves no bit set that belongs to no byte
/// (its last two bits before one `=`, its last four before two).
pub open spec fn is_well_formed(input: Seq<u8>) -> bool {
    let n = input.len() as int;
    &&& n % 4 == 0
    &&& forall|i: int| 0 <= i < n - 2 ==> is_alphabet_symbol(#[trigger] input[i])
    &&& n > 0 ==> if input[n - 1] != 0x3D {
        is_alphabet_symbol(input[n - 2]) && is_alphabet_symbol(input[n - 1])
    } else if input[n - 2] != 0x3D {
        is_alphabet_symbol(input[n - 2]) && sextet(input[n - 2]) % 4 == 0
    } else {
        sextet(input[n - 3]) % 16 == 0
    }
}

/// The bytes that a well-formed text stands for: each group of four symbols
/// writes three bytes, six bits a symbol and the first symbol highest; a
/// last group that ends in `=` writes two bytes, and one that ends in two
/// writes one.
pub open spec fn decoded(input: Seq<u8>) -> Seq<u8>
    decreases input.len(),
{
    if input.len() < 4 {
        Seq::empty()
    } else {
        let a = sextet(input[0]);
        let b = sextet(input[1]);
        let c = sextet(input[2]);
        let d = sextet(input[3]);
        if input[2] == 0x3D {
            seq![(a * 4 + b / 16) as u8]
        } else if input[3] == 0x3D {
            seq![(a * 4 + b / 16) as u8, (b % 16 * 16 + c / 4) as u8]
        } else {
            seq![(a * 4 + b / 16) as u8, (b % 16 * 16 + c / 4) as u8, (c % 4 * 64 + d) as u8]
                + decoded(input.skip(4))
        }
    }
}

/// Whether a segment is URL-safe base64 without padding: symbols of the
/// alphabet, with `-` and `_` for `+` and `/`, in a number that leaves no
/// single symbol over, and no bit set in the last symbol that belongs to no
/// byte.
pub open spec fn is_unpadded_segment(segment: Seq<u8>) -> bool {
    let n = segment.len() as int;
    &&& forall|i: int| 0 <= i < n ==> is_alphabet_symbol(standard_symbol(#[trigger] segment[i]))
    &&& n % 4 != 1
    &&& n % 4 == 2 ==> sextet(standard_symbol(segment[n - 1])) % 16 == 0
    &&& n % 4 == 3 ==> sextet(standard_symbol(segment[n - 1])) % 4 == 0
}

/// Padding an unpadded segment gives base64 as the standard engine takes
/// it.
pub proof fn lemma_padding_is_restored(segment: Seq<u8>)
    requires
        is_unpadded_segment(segment),
    ensures
        is_well_formed(padded_standard(segment)),
{
    let n = segment.len() as int;
    let padded = padded_standard(segment);
    let pad = padding_needed(segment.len()) as int;
    assert(padded.len() == n + pad);
    assert forall|i: int| 0 <= i < n implies padded[i] == standard_symbol(segment[i]) by {}
    assert forall|i: int| n <= i < n + pad implies padded[i] == 0x3Du8 by {}
    assert forall|i: int| 0 <= i < padded.len() - 2 implies is_alphabet_symbol(
        #[trigger] padded[i],
    ) by {
        assert(padded[i] == standard_symbol(segment[i]));
    }
    if n > 0 {
        if n % 4 == 0 {
            assert(padded[n - 1] == standard_symbol(segment[n - 1]));
            assert(padded[n - 2] == standard_symbol(segment[n - 2]));
        } else if n % 4 == 3 {
            assert(padded[n] == 0x3Du8);
            assert(padded[n - 1] == standard_symbol(segment[n - 1]));
        } else {
            assert(padded[n + 1] == 0x3Du8);
            assert(padded[n] == 0x3Du8);
            assert(padded[n - 1] == standard_symbol(segment[n - 1]));
        }
    }
}

/// What the standard base64 engine makes of a text: it takes the texts
/// that are well formed and no others, and decodes them to the bytes that
/// they stand for.
pub open spec fn base64_standard(input: Seq<u8>) -> Option<Seq<u8>> {
    if is_well_formed(input) {
        Some(decoded(input))
    } else {
        None
    }
}

/// A segment that holds a byte which no segment may hold is not well
/// formed, however it is padded.
pub proof fn lemma_foreign_symbol_is_refused(segment: Seq<u8>)
    requires
        !all_segment_symbols(segment),
    ensures
        !is_well_formed(padded_standard(segment)),
{
    let padded = padded_standard(segment);
    let at = choose|i: int| 0 <= i < segment.len() && !is_segment_symbol(#[trigger] segment[i]);
    assert(padded[at] == standard_symbol(segment[at]));
    assert(!is_standard_symbol(padded[at]));
    let n = padded.len() as int;
    if is_well_formed(padded) {
        if at < n - 2 {
            assert(is_alphabet_symbol(padded[at]));
        }
    }
}

/// A segment with one symbol over after its groups of four is not well
/// formed once it is padded: no padding makes such a length good.
pub proof fn lemma_symbol_over_is_refused(segment: Seq<u8>)
    requires
        segment.len() % 4 == 1,
    ensures
        !is_well_formed(padded_standard(segment)),
{
    let padded = padded_standard(segment);
    let n = padded.len() as int;
    assert(n == segment.len() + 3);
    assert(padded[n - 1] == 0x3Du8);
    assert(padded[n - 2] == 0x3Du8);
    assert(padded[n - 3] == 0x3Du8);
    if is_well_formed(padded) {
        assert(is_alphabet_symbol(padded[n - 3]));
    }
}

/// `serde_json::Value`: a JSON value.
#[verifier::external_type_specification]
#[verifier::external_body]
pub struct ExJsonValue(Value);

/// The value that a JSON text writes, as `serde_json::from_str` reads it;
/// `None` where the text is no JSON.
pub uninterp spec fn json_value(text: Seq<char>) -> Option<Value>;

/// The member `key` of a value, as `Value::get` gives it; `None` where the
/// value is no object or has no member of that name.
pub uninterp spec fn json_member(value: Value, key: Seq<char>) -> Option<Value>;

/// The text of a value, as `Value::as_str` gives it; `None` where the value
/// is no string.
pub uninterp spec fn json_text(value: Value) -> Option<Seq<char>>;

/// The string member `key` of the JSON text `text`: `None` where the text is
/// no JSON, `Some(None)` where it is JSON without such a member (no object,
/// no member of that name, or one that is no string).
pub open spec fn json_string_member(text: Seq<char>, key: Seq<char>) -> Option<
    Option<Seq<char>>,
> {
    match json_value(text) {
        None => None,
        Some(value) => Some(
            match json_member(value, key) {
                Some(member) => json_text(member),
                None => None,
            },
        ),
    }
}

/// The text that a segment encodes: its bytes, brought to the standard
/// alphabet and padded, decoded as base64 and read as UTF-8.
pub open spec fn payload_text(segment: Seq<char>) -> Option<Seq<char>> {
    match base64_standard(padded_standard(encode_utf8(segment))) {
        Some(bytes) => if valid_utf8(bytes) {
            Some(decode_utf8(bytes))
        } else {
            None
        },
        None => None,
    }
}

/// The claim that a looked-up member amounts to.
pub open spec fn claim_of(member: Option<Option<Seq<char>>>) -> Result<Seq<char>, TicketError> {
    match member {
        None => Err(TicketError::PayloadDecodeError),
        Some(None) => Err(TicketError::ClaimMissing),
        Some(Some(claim)) => Ok(claim),
    }
}

/// The identity claim in a percent-decoded text.
pub open spec fn id_token_in(text: Seq<char>) -> Result<Seq<char>, TicketError> {
    match ticket_value(text) {
        None => Err(TicketError::MalformedTicket),
        Some(ticket) => match payload_segment(ticket) {
            None => Err(TicketError::InvalidTokenShape),
            Some(segment) => match payload_text(segment) {
                None => Err(TicketError::PayloadDecodeError),
                Some(json) => claim_of(json_string_member(json, "idToken"@)),
            },
        },
    }
}

/// The identity claim in a redirect target.
pub open spec fn id_token_of(location: Seq<char>) -> Result<Seq<char>, TicketError> {
    id_token_in(decoded_location(location))
}

/// A result with its text as a sequence of characters.
pub open spec fn text_result(r: Result<String, TicketError>) -> Result<Seq<char>, TicketError> {
    match r {
        Ok(s) => Ok(s@),
        Err(e) => Err(e),
    }
}

/// Optional bytes as a sequence.
pub open spec fn bytes_of(bytes: Option<Vec<u8>>) -> Option<Seq<u8>> {
    match bytes {
        Some(b) => Some(b@),
        None => None,
    }
}

/// `urlencoding::decode`: percent-decodes the UTF-8 bytes of `text`. The
/// result is the string whose bytes are `percent_decoded` of them, and
/// `None` exactly when those bytes are no UTF-8.
#[verifier::external_body]
fn percent_decode(text: &str) -> (r: Option<String>)
    ensures
        r is Some == valid_utf8(percent_decoded(encode_utf8(text@), 0)),
        r matches Some(s) ==> encode_utf8(s@) == percent_decoded(encode_utf8(text@), 0),
{
    match urlencoding::decode(text) {
        Ok(s) => Some(s.into_owned()),
        Err(_) => None,
    }
}

/// `Engine::decode` of `base64::engine::general_purpose::STANDARD`: the
/// engine takes every text that is well formed and decodes it to the bytes
/// that it stands for, and it takes no other text.
#[verifier::external_body]
fn decode_standard_base64(input: &[u8]) -> (r: Option<Vec<u8>>)
    ensures
        bytes_of(r) == base64_standard(input@),
{
    match base64::engine::general_purpose::STANDARD.decode(input) {
        Ok(bytes) => Some(bytes),
        Err(_) => None,
    }
}

/// `String::from_utf8`: the string made of `bytes`, and `None` exactly when
/// they are no UTF-8.
#[verifier::external_body]
fn string_from_utf8(bytes: Vec<u8>) -> (r: Option<String>)
    ensures
        r is Some == valid_utf8(bytes@),
        r matches Some(s) ==> encode_utf8(s@) == bytes@,
{
    match String::from_utf8(bytes) {
        Ok(s) => Some(s),
        Err(_) => None,
    }
}

/// `serde_json::from_str` to a `serde_json::Value`: the value that the text
/// writes, named `json_value`, and `None` where the text is no JSON.
#[verifier::external_body]
fn parse_json(text: &str) -> (r: Option<Value>)
    ensures
        r == json_value(text@),
{
    serde_json::from_str::<Value>(text).ok()
}

/// `serde_json::Value::get` with a string: the member of that name, named
/// `json_member`.
#[verifier::external_body]
fn member_of<'a>(value: &'a Value, key: &str) -> (r: Option<&'a Value>)
    ensures
        match r {
            Some(member) => json_member(*value, key@) == Some(*member),
            None => json_member(*value, key@) is None,
        },
{
    value.get(key)
}

/// `serde_json::Value::as_str`: the text of a value that is a string, named
/// `json_text`.
pub assume_specification<'a>[ Value::as_str ](value: &'a Value) -> (r: Option<&'a str>)
    ensures
        match r {
            Some(text) => json_text(*value) == Some(text@),
            None => json_text(*value) is None,
        },
;

/// Looks up the string member `key` of a JSON text: `None` where the text
/// is no JSON, `Some(None)` where it is JSON without such a member (no
/// object, no member of that name, or one that is no string).
pub fn lookup_json_string(text: &str, key: &str) -> (r: Option<Option<String>>)
    ensures
        member_text(r) == json_string_member(text@, key@),
{
    match parse_json(text) {
        None => None,
        Some(value) => match member_of(&value, key) {
            None => Some(None),
            Some(member) => match member.as_str() {
                Some(text) => Some(Some(text.to_owned())),
                None => Some(None),
            },
        },
    }
}

/// A looked-up member with its text as a sequence of characters.
pub open spec fn member_text(member: Option<Option<String>>) -> Option<Option<Seq<char>>> {
    match member {
        None => None,
        Some(None) => Some(None),
        Some(Some(s)) => Some(Some(s@)),
    }
}

/// Percent-decodes a redirect target once. A target whose decoded bytes are
/// no UTF-8 is returned as it is.
pub fn decode_location(location: &str) -> (r: String)
    ensures
        r@ == decoded_location(location@),
{
    match percent_decode(location) {
        Some(decoded) => {
            proof {
                vstd::utf8::encode_utf8_decode_utf8(decoded@);
            }
            decoded
        },
        None => location.to_owned(),
    }
}

/// Cuts the ticket out of a percent-decoded text.
///
/// Fails with `MalformedTicket` exactly when the text holds no `ticket=`.
pub fn ticket_in(text: &str) -> (r: Result<String, TicketError>)
    ensures
        text_result(r) == match ticket_value(text@) {
            Some(ticket) => Ok::<Seq<char>, TicketError>(ticket),
            None => Err(TicketError::MalformedTicket),
        },
{
    let chars = chars_of(text);
    let key = chars_of("ticket=");
    proof {
        reveal_strlit("ticket=");
        assert("ticket="@.len() == 7);
        lemma_index_of(text@, "ticket="@, 0);
    }
    match find(chars.as_slice(), key.as_slice(), 0) {
        None => Err(TicketError::MalformedTicket),
        Some(at) => {
            assert(occurs_at(text@, "ticket="@, at as int));
            assert(at + 7 <= chars.len());
            let start = at + 7;
            let end = find_char(chars.as_slice(), '&', start);
            Ok(string_of(chars.as_slice(), start, end))
        },
    }
}

/// Cuts the middle segment out of a ticket.
///
/// Fails with `InvalidTokenShape` exactly when the ticket does not hold
/// exactly two dots.
pub fn payload_in(ticket: &str) -> (r: Result<String, TicketError>)
    ensures
        text_result(r) == match payload_segment(ticket@) {
            Some(segment) => Ok::<Seq<char>, TicketError>(segment),
            None => Err(TicketError::InvalidTokenShape),
        },
{
    let chars = chars_of(ticket);
    let len = chars.len();
    let first = find_char(chars.as_slice(), '.', 0);
    if first >= len {
        return Err(TicketError::InvalidTokenShape);
    }
    let second = find_char(chars.as_slice(), '.', first + 1);
    if second >= len {
        return Err(TicketError::InvalidTokenShape);
    }
    let third = find_char(chars.as_slice(), '.', second + 1);
    if third < len {
        return Err(TicketError::InvalidTokenShape);
    }
    Ok(string_of(chars.as_slice(), first + 1, second))
}

/// Brings a segment to the standard alphabet and pads it with `=` to a
/// multiple of four bytes.
pub fn pad_to_standard(segment: &[u8]) -> (r: Vec<u8>)
    ensures
        r@ == padded_standard(segment@),
        r@.len() % 4 == 0,
        r@.len() < segment@.len() + 4,
{
    let mut out: Vec<u8> = Vec::new();
    let mut i: usize = 0;
    while i < segment.len()
        invariant
            i <= segment@.len(),
            out@ == Seq::new(i as nat, |k: int| standard_symbol(segment@[k])),
        decreases segment@.len() - i,
    {
        let b = segment[i];
        let symbol: u8 = if b == 0x2D {
            0x2B
        } else if b == 0x5F {
            0x2F
        } else {
            b
        };
        out.push(symbol);
        i += 1;
        assert(out@ =~= Seq::new(i as nat, |k: int| standard_symbol(segment@[k])));
    }
    let pad: usize = (4 - segment.len() % 4) % 4;
    let ghost body = out@;
    let mut j: usize = 0;
    while j < pad
        invariant
            j <= pad,
            out@ == body + Seq::new(j as nat, |k: int| 0x3Du8),
        decreases pad - j,
    {
        out.push(0x3D);
        j += 1;
        assert(out@ =~= body + Seq::new(j as nat, |k: int| 0x3Du8));
    }
    out
}

/// The text that bytes are, or `PayloadDecodeError` where they are no UTF-8.
pub open spec fn text_of_bytes(bytes: Seq<u8>) -> Result<Seq<char>, TicketError> {
    if valid_utf8(bytes) {
        Ok(decode_utf8(bytes))
    } else {
        Err(TicketError::PayloadDecodeError)
    }
}

/// Decodes a segment in URL-safe base64, with or without padding, to text.
///
/// Fails with `PayloadDecodeError` exactly when the padded segment is not
/// well-formed base64 or the bytes that it stands for are no UTF-8. So it
/// fails for every segment that holds a byte which is no letter, digit,
/// `+`, `/`, `-`, `_` or `=`, and for every segment with one symbol over
/// after its groups of four. For a segment that is URL-safe base64 without
/// padding the result is the text of the bytes that the segment stands for,
/// and it fails only where those are no UTF-8.
pub fn base64_url_decode(segment: &str) -> (r: Result<String, TicketError>)
    ensures
        text_result(r) == match payload_text(segment@) {
            Some(text) => Ok::<Seq<char>, TicketError>(text),
            None => Err(TicketError::PayloadDecodeError),
        },
        !all_segment_symbols(encode_utf8(segment@)) ==> r == Err::<String, TicketError>(
            TicketError::PayloadDecodeError,
        ),
        encode_utf8(segment@).len() % 4 == 1 ==> r == Err::<String, TicketError>(
            TicketError::PayloadDecodeError,
        ),
        is_unpadded_segment(encode_utf8(segment@)) ==> text_result(r) == text_of_bytes(
            decoded(padded_standard(encode_utf8(segment@))),
        ),
{
    proof {
        if is_unpadded_segment(encode_utf8(segment@)) {
            lemma_padding_is_restored(encode_utf8(segment@));
        }
        if !all_segment_symbols(encode_utf8(segment@)) {
            lemma_foreign_symbol_is_refused(encode_utf8(segment@));
        }
        if encode_utf8(segment@).len() % 4 == 1 {
            lemma_symbol_over_is_refused(encode_utf8(segment@));
        }
    }
    let bytes = segment.as_bytes();
    let padded = pad_to_standard(bytes);
    match decode_standard_base64(padded.as_slice()) {
        None => Err(TicketError::PayloadDecodeError),
        Some(decoded) => {
            match string_from_utf8(decoded) {
                None => Err(TicketError::PayloadDecodeError),
                Some(text) => {
                    proof {
                        vstd::utf8::encode_utf8_decode_utf8(text@);
                    }
                    Ok(text)
                },
            }
        },
    }
}

/// The claim that a looked-up member amounts to: the member itself, or
/// `PayloadDecodeError` where the payload was no JSON, or `ClaimMissing`
/// where the JSON holds no such string.
pub fn claim_from_member(member: Option<Option<String>>) -> (r: Result<String, TicketError>)
    ensures
        text_result(r) == claim_of(member_text(member)),
{
    match member {
        None => Err(TicketError::PayloadDecodeError),
        Some(None) => Err(TicketError::ClaimMissing),
        Some(Some(claim)) => Ok(claim),
    }
}

/// Whether the ticket in a text has a middle segment that holds a byte
/// which no segment may hold.
pub open spec fn has_foreign_symbol(text: Seq<char>) -> bool {
    match ticket_value(text) {
        Some(ticket) => match payload_segment(ticket) {
            Some(segment) => !all_segment_symbols(encode_utf8(segment)),
            None => false,
        },
        None => false,
    }
}

/// The bytes of the middle segment of the ticket in a text, where the text
/// holds a ticket of three segments.
pub open spec fn payload_bytes(text: Seq<char>) -> Option<Seq<u8>> {
    match ticket_value(text) {
        Some(ticket) => match payload_segment(ticket) {
            Some(segment) => Some(encode_utf8(segment)),
            None => None,
        },
        None => None,
    }
}

/// Whether the ticket in a text has a middle segment with one symbol over
/// after its groups of four.
pub open spec fn has_symbol_over(text: Seq<char>) -> bool {
    payload_bytes(text) matches Some(segment) && segment.len() % 4 == 1
}

/// Whether the ticket in a text has a middle segment that is URL-safe
/// base64 without padding.
pub open spec fn has_unpadded_payload(text: Seq<char>) -> bool {
    payload_bytes(text) matches Some(segment) && is_unpadded_segment(segment)
}

/// The claim in the bytes of a payload: the string member `idToken` of the
/// JSON text that the bytes are.
pub open spec fn claim_in_bytes(bytes: Seq<u8>) -> Result<Seq<char>, TicketError> {
    match text_of_bytes(bytes) {
        Ok(json) => claim_of(json_string_member(json, "idToken"@)),
        Err(e) => Err(e),
    }
}

/// Reads the identity claim out of a text that was percent-decoded already.
///
/// A ticket whose middle segment holds a byte that is no letter, digit,
/// `+`, `/`, `-`, `_` or `=`, or has one symbol over after its groups of
/// four, fails with `PayloadDecodeError`. A middle segment that is URL-safe
/// base64 without padding gives the claim in the bytes that it stands for.
pub fn id_token_from_decoded(text: &str) -> (r: Result<String, TicketError>)
    ensures
        text_result(r) == id_token_in(text@),
        has_foreign_symbol(text@) || has_symbol_over(text@) ==> r == Err::<String, TicketError>(
            TicketError::PayloadDecodeError,
        ),
        has_unpadded_payload(text@) ==> text_result(r) == claim_in_bytes(
            decoded(padded_standard(payload_bytes(text@)->0)),
        ),
{
    let ticket = match ticket_in(text) {
        Ok(t) => t,
        Err(e) => {
            return Err(e);
        },
    };
    let segment = match payload_in(ticket.as_str()) {
        Ok(s) => s,
        Err(e) => {
            return Err(e);
        },
    };
    let json = match base64_url_decode(segment.as_str()) {
        Ok(j) => j,
        Err(e) => {
            return Err(e);
        },
    };
    claim_from_member(lookup_json_string(json.as_str(), "idToken"))
}

/// Reads the identity claim out of a redirect target.
///
/// The target is percent-decoded once. The claim is the string member
/// `idToken` of the JSON object that the middle segment of the ticket
/// encodes. Each failure has its own error: no `ticket=` in the decoded
/// target, a ticket that is not three segments, a middle segment that does
/// not decode to JSON, and JSON without the claim. A middle segment that
/// holds a byte which is no letter, digit, `+`, `/`, `-`, `_` or `=`, or
/// that has one symbol over after its groups of four, is one that does not
/// decode. A middle segment that is URL-safe base64 without padding gives
/// the claim in the bytes that it stands for.
pub fn extract_id_token_from_ticket(location: &str) -> (r: Result<String, TicketError>)
    ensures
        text_result(r) == id_token_of(location@),
        has_foreign_symbol(decoded_location(location@)) || has_symbol_over(
            decoded_location(location@),
        ) ==> r == Err::<String, TicketError>(TicketError::PayloadDecodeError),
        has_unpadded_payload(decoded_location(location@)) ==> text_result(r) == claim_in_bytes(
            decoded(padded_standard(payload_bytes(decoded_location(location@))->0)),
        ),
{
    let decoded = decode_location(location);
    id_token_from_decoded(decoded.as_str())
}

} // verus!
