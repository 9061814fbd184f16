use rttmeter::icmp::{
    extract_icmp_packet, icmp_identifier_and_sequence, internet_checksum, ipv4_header_len,
    parse_icmp_response, EchoRequest, ParsedIcmpResponse, DESTINATION_UNREACHABLE_TYPE,
    ECHO_REPLY_TYPE, ECHO_REQUEST_CODE, ECHO_REQUEST_TYPE, ICMP_HEADER_LEN, TIME_EXCEEDED_TYPE,
};
use rttmeter::wire::{high_byte, low_byte, read_word};

fn ipv4_packet(payload: &[u8]) -> Vec<u8> {
    let total_len = (20 + payload.len()) as u16;
    let mut packet = vec![
        0x45, 0x00, total_len.to_be_bytes()[0], total_len.to_be_bytes()[1], 0x12, 0x34, 0x00,
        0x00, 64, 1, 0x00, 0x00, 192, 0, 2, 1, 198, 51, 100, 1,
    ];
    packet.extend_from_slice(payload);
    packet
}

#[test]
fn internet_checksum_matches_rfc_1071_example() {
    let data = [0x00, 0x01, 0xf2, 0x03, 0xf4, 0xf5, 0xf6, 0xf7];

    assert_eq!(internet_checksum(&data), 0x220d);
}

#[test]
fn internet_checksum_pads_odd_length_inputs() {
    let data = [0x01, 0x02, 0x03];

    assert_eq!(internet_checksum(&data), 0xfbfd);
}

#[test]
fn echo_request_packet_has_expected_layout() {
    let packet = EchoRequest::new(0x1234, 0x0001, b"rust".to_vec()).to_bytes();

    assert_eq!(packet.len(), ICMP_HEADER_LEN + 4);
    assert_eq!(packet[0], ECHO_REQUEST_TYPE);
    assert_eq!(packet[1], ECHO_REQUEST_CODE);
    assert_eq!(&packet[2..4], &[0xff, 0xe0]);
    assert_eq!(&packet[4..6], &[0x12, 0x34]);
    assert_eq!(&packet[6..8], &[0x00, 0x01]);
    assert_eq!(&packet[8..], b"rust");
    assert_eq!(internet_checksum(&packet), 0x0000);
}

#[test]
fn parse_icmp_response_extracts_echo_reply_identifier_and_sequence() {
    let mut icmp_reply = vec![ECHO_REPLY_TYPE, 0, 0, 0];
    icmp_reply.extend_from_slice(&0x1234_u16.to_be_bytes());
    icmp_reply.extend_from_slice(&0x0007_u16.to_be_bytes());
    icmp_reply.extend_from_slice(b"rust");

    let packet = ipv4_packet(&icmp_reply);

    assert_eq!(
        parse_icmp_response(&packet),
        Some(ParsedIcmpResponse {
            icmp_type: ECHO_REPLY_TYPE,
            identifier: 0x1234,
            sequence_number: 0x0007,
        })
    );
}

#[test]
fn parse_icmp_response_extracts_embedded_echo_request_from_time_exceeded() {
    let original_request = EchoRequest::new(0x1234, 0x0007, b"rust".to_vec()).to_bytes();
    let embedded_original_packet = ipv4_packet(&original_request);

    let mut time_exceeded = vec![TIME_EXCEEDED_TYPE, 0, 0, 0];
    time_exceeded.extend_from_slice(&[0, 0, 0, 0]);
    time_exceeded.extend_from_slice(&embedded_original_packet);

    let packet = ipv4_packet(&time_exceeded);

    assert_eq!(
        parse_icmp_response(&packet),
        Some(ParsedIcmpResponse {
            icmp_type: TIME_EXCEEDED_TYPE,
            identifier: 0x1234,
            sequence_number: 0x0007,
        })
    );
}

#[test]
fn parse_icmp_response_ignores_time_exceeded_without_embedded_echo_request() {
    let mut non_echo_icmp = vec![3, 0, 0, 0];
    non_echo_icmp.extend_from_slice(&[0, 0, 0, 0]);
    let embedded_original_packet = ipv4_packet(&non_echo_icmp);

    let mut time_exceeded = vec![TIME_EXCEEDED_TYPE, 0, 0, 0];
    time_exceeded.extend_from_slice(&[0, 0, 0, 0]);
    time_exceeded.extend_from_slice(&embedded_original_packet);

    let packet = ipv4_packet(&time_exceeded);

    assert_eq!(parse_icmp_response(&packet), None);
}

#[test]
fn internet_checksum_of_nothing_and_of_zeros_has_all_bits_set() {
    assert_eq!(internet_checksum(&[]), 0xffff);
    assert_eq!(internet_checksum(&[0, 0, 0]), 0xffff);
    assert_eq!(internet_checksum(&[0xff, 0xff]), 0x0000);
    assert_eq!(internet_checksum(&[0xff, 0xff, 0x00, 0x01]), 0xfffe);
}

#[test]
fn internet_checksum_folds_many_carries() {
    assert_eq!(internet_checksum(&[0xff; 4001]), 0x00ff);
}

#[test]
fn a_checksum_validates_in_whichever_word_it_is_written() {
    for at in [0, 2, 4, 6] {
        let mut bytes = vec![0x45, 0x12, 0xff, 0xfe, 0x80, 0x01, 0x33, 0x7c, 0x09];
        bytes[at] = 0;
        bytes[at + 1] = 0;
        let sum = internet_checksum(&bytes);
        assert_ne!(sum, 0);
        bytes[at..at + 2].copy_from_slice(&sum.to_be_bytes());
        assert_eq!(internet_checksum(&bytes), 0);
    }
}

#[test]
fn internet_checksum_ignores_zero_padding() {
    for len in 0..40_u8 {
        let bytes: Vec<u8> = (0..len).map(|i| i.wrapping_mul(57).wrapping_add(3)).collect();
        let mut padded = bytes.clone();
        padded.push(0);
        assert_eq!(internet_checksum(&bytes), internet_checksum(&padded));
    }
}

#[test]
fn every_echo_request_validates() {
    for seed in 0..200_u16 {
        let payload: Vec<u8> = (0..seed % 23).map(|i| (i * 7 + seed) as u8).collect();
        let packet = EchoRequest::new(seed.wrapping_mul(331), !seed, payload).to_bytes();
        assert_eq!(internet_checksum(&packet), 0);
    }
}

#[test]
fn different_echo_requests_give_different_packets() {
    let one = EchoRequest::new(1, 2, vec![3]).to_bytes();
    assert_ne!(one, EchoRequest::new(2, 2, vec![3]).to_bytes());
    assert_ne!(one, EchoRequest::new(1, 3, vec![3]).to_bytes());
    assert_ne!(one, EchoRequest::new(1, 2, vec![4]).to_bytes());
    assert_eq!(one, EchoRequest::new(1, 2, vec![3]).to_bytes());
}

#[test]
fn a_bare_reply_reads_like_one_behind_a_header() {
    let reply = vec![ECHO_REPLY_TYPE, 9, 1, 2, 0xab, 0xcd, 0x00, 0x11, 5];
    let expected = Some(ParsedIcmpResponse {
        icmp_type: ECHO_REPLY_TYPE,
        identifier: 0xabcd,
        sequence_number: 0x0011,
    });
    assert_eq!(parse_icmp_response(&reply), expected);
    assert_eq!(parse_icmp_response(&ipv4_packet(&reply)), expected);
}

#[test]
fn an_error_message_may_quote_only_the_header_of_the_request() {
    let request = EchoRequest::new(0x0102, 0x0304, b"payload".to_vec()).to_bytes();
    let mut unreachable = vec![DESTINATION_UNREACHABLE_TYPE, 1, 0, 0, 0, 0, 0, 0];
    unreachable.extend_from_slice(&ipv4_packet(&request[..8]));
    assert_eq!(
        parse_icmp_response(&ipv4_packet(&unreachable)),
        Some(ParsedIcmpResponse {
            icmp_type: DESTINATION_UNREACHABLE_TYPE,
            identifier: 0x0102,
            sequence_number: 0x0304,
        })
    );
    let mut cut = vec![DESTINATION_UNREACHABLE_TYPE, 1, 0, 0, 0, 0, 0, 0];
    cut.extend_from_slice(&ipv4_packet(&request[..7]));
    assert_eq!(parse_icmp_response(&ipv4_packet(&cut)), None);
}

#[test]
fn a_request_is_no_response() {
    let request = EchoRequest::new(1, 2, b"rust".to_vec()).to_bytes();
    assert_eq!(parse_icmp_response(&request), None);
    assert_eq!(parse_icmp_response(&ipv4_packet(&request)), None);
}

#[test]
fn packets_that_answer_nothing_are_refused() {
    assert_eq!(parse_icmp_response(&[]), None);
    assert_eq!(parse_icmp_response(&[ECHO_REPLY_TYPE, 0, 0, 0, 0, 0, 0]), None);
    assert_eq!(parse_icmp_response(&[ECHO_REQUEST_TYPE, 0, 0, 0, 0, 1, 0, 1]), None);
    assert_eq!(parse_icmp_response(&[TIME_EXCEEDED_TYPE, 0, 0, 0, 0, 0, 0]), None);
    assert_eq!(parse_icmp_response(&[TIME_EXCEEDED_TYPE, 0, 0, 0, 0, 0, 0, 0]), None);
    assert_eq!(parse_icmp_response(&ipv4_packet(&[])), None);
}

#[test]
fn the_length_of_an_ipv4_header_is_read() {
    assert_eq!(ipv4_header_len(&[]), None);
    assert_eq!(ipv4_header_len(&[0x65; 40]), None);
    assert_eq!(ipv4_header_len(&[0x45; 19]), None);
    assert_eq!(ipv4_header_len(&[0x45; 20]), Some(20));
    assert_eq!(ipv4_header_len(&[0x4f; 60]), Some(60));
    assert_eq!(ipv4_header_len(&[0x40]), Some(0));
    assert_eq!(extract_icmp_packet(&[0x41, 1, 2, 3, 4]), Some(&[4_u8][..]));
    assert_eq!(extract_icmp_packet(&[7, 1]), Some(&[7_u8, 1][..]));
}

#[test]
fn identifiers_are_read_in_network_order() {
    assert_eq!(icmp_identifier_and_sequence(&[0, 0, 0, 0, 1, 2, 3]), None);
    assert_eq!(
        icmp_identifier_and_sequence(&[0, 0, 0, 0, 1, 2, 3, 4, 5]),
        Some((0x0102, 0x0304))
    );
}

#[test]
fn words_round_trip() {
    for x in [0_u16, 1, 255, 256, 0x1234, 0xfffe, 0xffff] {
        assert_eq!(read_word(high_byte(x), low_byte(x)), x);
        assert_eq!([high_byte(x), low_byte(x)], x.to_be_bytes());
    }
}
