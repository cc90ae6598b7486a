use cas_relay::ticket::{
    base64_url_decode, claim_from_member, decode_location, extract_id_token_from_ticket,
    id_token_from_decoded, lookup_json_string, pad_to_standard, payload_in, ticket_in,
    TicketError,
};

#[test]
fn ticket_is_cut_at_the_next_ampersand() {
    let with_tail = "https://portal/login?service=x&ticket=A.B.C&x=1";
    let without_tail = "https://portal/login?service=x&ticket=A.B.C";
    assert_eq!(ticket_in(with_tail), Ok("A.B.C".to_string()));
    assert_eq!(ticket_in(without_tail), Ok("A.B.C".to_string()));
}

#[test]
fn first_ticket_key_counts() {
    assert_eq!(ticket_in("ticket=one&ticket=two"), Ok("one".to_string()));
    assert_eq!(ticket_in("xticket=ticket=z"), Ok("ticket=z".to_string()));
    assert_eq!(ticket_in("ticket="), Ok(String::new()));
}

#[test]
fn text_without_ticket_key_is_malformed() {
    assert_eq!(ticket_in("https://portal/login?tickets"), Err(TicketError::MalformedTicket));
    assert_eq!(ticket_in(""), Err(TicketError::MalformedTicket));
    assert_eq!(
        extract_id_token_from_ticket("https://portal/?Ticket=a.b.c"),
        Err(TicketError::MalformedTicket)
    );
}

#[test]
fn ticket_needs_exactly_three_segments() {
    assert_eq!(payload_in("h.p.s"), Ok("p".to_string()));
    assert_eq!(payload_in("h..s"), Ok(String::new()));
    assert_eq!(payload_in(".."), Ok(String::new()));
    assert_eq!(payload_in("hps"), Err(TicketError::InvalidTokenShape));
    assert_eq!(payload_in("h.ps"), Err(TicketError::InvalidTokenShape));
    assert_eq!(payload_in("h.p.s.x"), Err(TicketError::InvalidTokenShape));
    assert_eq!(payload_in(""), Err(TicketError::InvalidTokenShape));
    assert_eq!(
        extract_id_token_from_ticket("https://portal/?ticket=onlyone"),
        Err(TicketError::InvalidTokenShape)
    );
}

#[test]
fn padding_is_restored_to_a_multiple_of_four() {
    assert_eq!(pad_to_standard(b""), b"".to_vec());
    assert_eq!(pad_to_standard(b"QUJD"), b"QUJD".to_vec());
    assert_eq!(pad_to_standard(b"QUI"), b"QUI=".to_vec());
    assert_eq!(pad_to_standard(b"QQ"), b"QQ==".to_vec());
    assert_eq!(pad_to_standard(b"Q"), b"Q===".to_vec());
    assert_eq!(pad_to_standard(b"-_-_x"), b"+/+/x===".to_vec());
}

#[test]
fn unpadded_base64url_decodes() {
    assert_eq!(base64_url_decode("QUJD"), Ok("ABC".to_string()));
    assert_eq!(base64_url_decode("QUI"), Ok("AB".to_string()));
    assert_eq!(base64_url_decode("QQ"), Ok("A".to_string()));
    assert_eq!(base64_url_decode("QUI="), Ok("AB".to_string()));
    assert_eq!(base64_url_decode(""), Ok(String::new()));
    // 0x3E 0x3F 0x3F in the URL-safe alphabet uses both '-' and '_'.
    assert_eq!(base64_url_decode("Pj8_"), Ok(">??".to_string()));
    assert_eq!(base64_url_decode("fn5-"), Ok("~~~".to_string()));
    assert_eq!(base64_url_decode("eyJpZFRva2VuIjoiVE9LIn0"), Ok("{\"idToken\":\"TOK\"}".to_string()));
}

#[test]
fn invalid_base64_is_a_payload_decode_error() {
    assert_eq!(base64_url_decode("QU*D"), Err(TicketError::PayloadDecodeError));
    assert_eq!(base64_url_decode("QU D"), Err(TicketError::PayloadDecodeError));
    assert_eq!(base64_url_decode("%51UJD"), Err(TicketError::PayloadDecodeError));
    assert_eq!(base64_url_decode("QUJDé"), Err(TicketError::PayloadDecodeError));
    // one symbol alone is no base64, whatever the padding
    assert_eq!(base64_url_decode("Q"), Err(TicketError::PayloadDecodeError));
    // bits beyond the last byte
    assert_eq!(base64_url_decode("QR"), Err(TicketError::PayloadDecodeError));
    // bytes that are no UTF-8
    assert_eq!(base64_url_decode("_w"), Err(TicketError::PayloadDecodeError));
}

#[test]
fn claim_is_the_string_member() {
    assert_eq!(claim_from_member(Some(Some("TOK".to_string()))), Ok("TOK".to_string()));
    assert_eq!(claim_from_member(Some(None)), Err(TicketError::ClaimMissing));
    assert_eq!(claim_from_member(None), Err(TicketError::PayloadDecodeError));
}

#[test]
fn location_is_percent_decoded_once() {
    assert_eq!(decode_location("a%20b"), "a b");
    assert_eq!(decode_location("a%2520b"), "a%20b");
    assert_eq!(decode_location("plain"), "plain");
    assert_eq!(decode_location("100%"), "100%");
    assert_eq!(decode_location("%4"), "%4");
    assert_eq!(decode_location("%zz%41"), "%zzA");
    assert_eq!(decode_location("%4%41"), "%4A");
    assert_eq!(decode_location("a+b"), "a+b");
    assert_eq!(decode_location("%E4%BD%A0"), "你");
    // not UTF-8 once decoded: the target stands as it is
    assert_eq!(decode_location("x%FFy"), "x%FFy");
}

#[test]
fn token_is_extracted_from_a_redirect_target() {
    let location = "https://portal/main?ticket=h.eyJpZFRva2VuIjoiVE9LIn0.s";
    assert_eq!(extract_id_token_from_ticket(location), Ok("TOK".to_string()));
    let with_tail = "https://portal/main?ticket=h.eyJpZFRva2VuIjoiVE9LIn0.s&x=1";
    assert_eq!(extract_id_token_from_ticket(with_tail), Ok("TOK".to_string()));
}

#[test]
fn token_is_extracted_from_an_encoded_target() {
    let location = "https://portal/main?service=a%26b&ticket%3Dh.eyJpZFRva2VuIjoiVE9LIn0.s%26x=1";
    assert_eq!(extract_id_token_from_ticket(location), Ok("TOK".to_string()));
    // without decoding the same text holds no key
    assert_eq!(id_token_from_decoded(location), Err(TicketError::MalformedTicket));
}

#[test]
fn payload_that_is_no_json_is_a_decode_error() {
    // "not json"
    assert_eq!(
        extract_id_token_from_ticket("u?ticket=h.bm90IGpzb24.s"),
        Err(TicketError::PayloadDecodeError)
    );
    assert_eq!(
        extract_id_token_from_ticket("u?ticket=h.!!!.s"),
        Err(TicketError::PayloadDecodeError)
    );
    assert_eq!(
        extract_id_token_from_ticket("u?ticket=h..s"),
        Err(TicketError::PayloadDecodeError)
    );
}

#[test]
fn json_without_the_claim_is_claim_missing() {
    // {"sub":"x"}
    assert_eq!(
        extract_id_token_from_ticket("u?ticket=h.eyJzdWIiOiJ4In0.s"),
        Err(TicketError::ClaimMissing)
    );
    // {"idToken":5}
    assert_eq!(
        extract_id_token_from_ticket("u?ticket=h.eyJpZFRva2VuIjo1fQ.s"),
        Err(TicketError::ClaimMissing)
    );
    // [1]
    assert_eq!(
        extract_id_token_from_ticket("u?ticket=h.WzFd.s"),
        Err(TicketError::ClaimMissing)
    );
}

#[test]
fn foreign_symbol_in_the_payload_is_a_decode_error() {
    assert_eq!(
        extract_id_token_from_ticket("https://portal/?ticket=h.e3!0.s"),
        Err(TicketError::PayloadDecodeError)
    );
    assert_eq!(id_token_from_decoded("ticket=h.e3 0.s&x"), Err(TicketError::PayloadDecodeError));
    assert_eq!(
        extract_id_token_from_ticket("u?ticket=h.e30%C3%A9.s"),
        Err(TicketError::PayloadDecodeError)
    );
}

#[test]
fn string_member_is_looked_up() {
    assert_eq!(lookup_json_string("{\"a\":\"x\",\"b\":1}", "a"), Some(Some("x".to_string())));
    assert_eq!(lookup_json_string("{\"a\":\"x\",\"b\":1}", "b"), Some(None));
    assert_eq!(lookup_json_string("{\"a\":\"x\",\"b\":1}", "c"), Some(None));
    assert_eq!(lookup_json_string("{\"a\":\"\"}", "a"), Some(Some(String::new())));
    assert_eq!(lookup_json_string("{\"a\":null}", "a"), Some(None));
    assert_eq!(lookup_json_string("{\"a\":{\"a\":\"deep\"}}", "a"), Some(None));
    assert_eq!(lookup_json_string("[\"a\"]", "a"), Some(None));
    assert_eq!(lookup_json_string("\"a\"", "a"), Some(None));
    assert_eq!(lookup_json_string("7", "a"), Some(None));
    assert_eq!(lookup_json_string("", "a"), None);
    assert_eq!(lookup_json_string("{\"a\":\"x\"", "a"), None);
    assert_eq!(lookup_json_string("{\"a\":\"x\"} tail", "a"), None);
    assert_eq!(lookup_json_string("{\"a\":\"1\",\"a\":\"2\"}", "a"), Some(Some("2".to_string())));
    assert_eq!(lookup_json_string("{\"k\":\"\\u00e9\"}", "k"), Some(Some("é".to_string())));
}

const URL_SAFE: &[u8; 64] = b"ABCDEFGHIJKLMNOPQRSTUVWXYZabcdefghijklmnopqrstuvwxyz0123456789-_";
const STANDARD: &[u8; 64] = b"ABCDEFGHIJKLMNOPQRSTUVWXYZabcdefghijklmnopqrstuvwxyz0123456789+/";

fn segment_of(alphabet: &[u8; 64], sextets: &[usize]) -> String {
    sextets.iter().map(|&v| alphabet[v] as char).collect()
}

#[test]
fn every_unpadded_segment_of_two_symbols_decodes() {
    for alphabet in [URL_SAFE, STANDARD] {
        for a in 0..64usize {
            for b in 0..64usize {
                let r = base64_url_decode(&segment_of(alphabet, &[a, b]));
                let byte = ((a << 2) | (b >> 4)) as u8;
                if b % 16 != 0 {
                    // a bit is set that belongs to no byte
                    assert_eq!(r, Err(TicketError::PayloadDecodeError));
                } else if byte < 0x80 {
                    assert_eq!(r, Ok((byte as char).to_string()));
                } else {
                    // one byte from 0x80 up is no UTF-8
                    assert_eq!(r, Err(TicketError::PayloadDecodeError));
                }
            }
        }
    }
}

#[test]
fn every_unpadded_segment_of_three_symbols_decodes() {
    for a in 0..64usize {
        for b in 0..64usize {
            for c in 0..64usize {
                let r = base64_url_decode(&segment_of(URL_SAFE, &[a, b, c]));
                let bytes = vec![((a << 2) | (b >> 4)) as u8, (((b & 15) << 4) | (c >> 2)) as u8];
                if c % 4 != 0 {
                    assert_eq!(r, Err(TicketError::PayloadDecodeError));
                } else {
                    match String::from_utf8(bytes) {
                        Ok(text) => assert_eq!(r, Ok(text)),
                        Err(_) => assert_eq!(r, Err(TicketError::PayloadDecodeError)),
                    }
                }
            }
        }
    }
}

#[test]
fn segments_of_whole_groups_decode() {
    for a in 0..32usize {
        for d in 0..64usize {
            // four symbols write three bytes; keep each of them below 0x80
            let segment = segment_of(URL_SAFE, &[a, 0x10 | (d & 7), (d & 0x1F), d]);
            let bytes = vec![
                ((a << 2) | 1) as u8,
                (((d & 7) << 4) | ((d & 0x1F) >> 2)) as u8,
                ((((d & 0x1F) & 3) << 6) | d) as u8,
            ];
            let r = base64_url_decode(&segment);
            match String::from_utf8(bytes) {
                Ok(text) => assert_eq!(r, Ok(text), "on {}", segment),
                Err(_) => assert_eq!(r, Err(TicketError::PayloadDecodeError), "on {}", segment),
            }
            // the same group twice, then a rest of two symbols
            let long = format!("{}{}{}", segment, segment, segment_of(URL_SAFE, &[a, 0]));
            assert_eq!(base64_url_decode(&long).is_ok(), base64_url_decode(&segment).is_ok());
        }
    }
}

/// The six bits of a symbol of the standard alphabet.
fn sextet(b: u8) -> Option<u32> {
    STANDARD.iter().position(|&s| s == b).map(|p| p as u32)
}

/// What a padded text stands for, if it is well formed: groups of four
/// symbols, `=` only as the last one or two, and no bit set that belongs to
/// no byte.
fn stands_for(padded: &[u8]) -> Option<Vec<u8>> {
    if padded.len() % 4 != 0 {
        return None;
    }
    let mut out = Vec::new();
    let groups = padded.len() / 4;
    for (g, group) in padded.chunks(4).enumerate() {
        let last = g + 1 == groups;
        let a = sextet(group[0])?;
        let b = sextet(group[1])?;
        if last && group[2] == b'=' && group[3] == b'=' {
            if b % 16 != 0 {
                return None;
            }
            out.push((a * 4 + b / 16) as u8);
        } else if last && group[3] == b'=' {
            let c = sextet(group[2])?;
            if c % 4 != 0 {
                return None;
            }
            out.push((a * 4 + b / 16) as u8);
            out.push((b % 16 * 16 + c / 4) as u8);
        } else {
            let c = sextet(group[2])?;
            let d = sextet(group[3])?;
            out.push((a * 4 + b / 16) as u8);
            out.push((b % 16 * 16 + c / 4) as u8);
            out.push((c % 4 * 64 + d) as u8);
        }
    }
    Some(out)
}

#[test]
fn decoder_takes_the_well_formed_segments_and_no_others() {
    let symbols = b"AQgw/+=_-!";
    let mut checked = 0usize;
    let mut taken = 0usize;
    for len in 0..=6usize {
        let mut digits = vec![0usize; len];
        loop {
            let segment: Vec<u8> = digits.iter().map(|&d| symbols[d]).collect();
            let text = String::from_utf8(segment.clone()).unwrap();
            let padded = pad_to_standard(&segment);
            let expected = match stands_for(&padded).map(String::from_utf8) {
                Some(Ok(text)) => Ok(text),
                _ => Err(TicketError::PayloadDecodeError),
            };
            if expected.is_ok() {
                taken += 1;
            }
            assert_eq!(base64_url_decode(&text), expected, "on {:?}", text);
            checked += 1;
            let mut at = 0;
            while at < len && digits[at] + 1 == symbols.len() {
                digits[at] = 0;
                at += 1;
            }
            if at == len {
                break;
            }
            digits[at] += 1;
        }
    }
    assert_eq!(checked, 1 + 10 + 100 + 1_000 + 10_000 + 100_000 + 1_000_000);
    assert!(taken > 1_000);
}

#[test]
fn segment_with_one_symbol_over_fails() {
    for segment in ["e", "e30e3", "AAAAA", "QUJDQ", "_____", "QQ===", "QUJDQUJDQ"] {
        assert_eq!(base64_url_decode(segment), Err(TicketError::PayloadDecodeError), "{}", segment);
    }
    assert_eq!(
        extract_id_token_from_ticket("u?ticket=h.e30e3.s"),
        Err(TicketError::PayloadDecodeError)
    );
}

#[test]
fn segment_may_carry_its_own_padding() {
    assert_eq!(base64_url_decode("QQ=="), Ok("A".to_string()));
    assert_eq!(base64_url_decode("QQ="), Ok("A".to_string()));
    assert_eq!(base64_url_decode("QUI="), Ok("AB".to_string()));
    assert_eq!(base64_url_decode("Q=Q="), Err(TicketError::PayloadDecodeError));
    assert_eq!(base64_url_decode("=QQQ"), Err(TicketError::PayloadDecodeError));
    assert_eq!(base64_url_decode("QQ=Q"), Err(TicketError::PayloadDecodeError));
    assert_eq!(base64_url_decode("QUJD===="), Err(TicketError::PayloadDecodeError));
    assert_eq!(base64_url_decode("QUJD="), Err(TicketError::PayloadDecodeError));
    assert_eq!(base64_url_decode("===="), Err(TicketError::PayloadDecodeError));
}
