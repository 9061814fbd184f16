//! ICMP Echo Requests, and the responses that answer them.
use vstd::prelude::*;
use vstd::slice::slice_subrange;

pub use crate::checksum::internet_checksum;
use crate::wire::{high_byte, low_byte, read_word};

verus! {

pub const ECHO_REPLY_TYPE: u8 = 0;

pub const DESTINATION_UNREACHABLE_TYPE: u8 = 3;

pub const ECHO_REQUEST_TYPE: u8 = 8;

pub const ECHO_REQUEST_CODE: u8 = 0;

pub const TIME_EXCEEDED_TYPE: u8 = 11;

pub const ICMP_HEADER_LEN: usize = 8;

/// What a response says of the Echo Request that it answers.
#[derive(Debug, Clone, PartialEq, Eq, Structural)]
pub struct ParsedIcmpResponse {
    pub icmp_type: u8,
    pub identifier: u16,
    pub sequence_number: u16,
}

/// An ICMP Echo Request.
#[derive(Debug, Clone, PartialEq, Eq)]
pub struct EchoRequest {
    pub identifier: u16,
    pub sequence_number: u16,
    pub payload: Vec<u8>,
}

/// An Echo Request packet whose checksum field holds `sum`.
pub open spec fn request_bytes(
    sum: u16,
    identifier: u16,
    sequence_number: u16,
    payload: Seq<u8>,
) -> Seq<u8> {
    seq![ECHO_REQUEST_TYPE, ECHO_REQUEST_CODE] + crate::wire::word_bytes(sum)
        + crate::wire::word_bytes(identifier) + crate::wire::word_bytes(sequence_number) + payload
}

/// The Echo Request packet on the wire. Its checksum is that of the packet with
/// a checksum field of zero.
pub open spec fn wire_bytes(identifier: u16, sequence_number: u16, payload: Seq<u8>) -> Seq<u8> {
    request_bytes(
        crate::checksum::checksum(request_bytes(0, identifier, sequence_number, payload)),
        identifier,
        sequence_number,
        payload,
    )
}

impl EchoRequest {
    /// An Echo Request with these fields.
    pub fn new(identifier: u16, sequence_number: u16, payload: Vec<u8>) -> (request: Self)
        ensures
            request.identifier == identifier,
            request.sequence_number == sequence_number,
            request.payload == payload,
    {
        EchoRequest { identifier, sequence_number, payload }
    }

    /// The packet as it goes out.
    pub fn to_bytes(&self) -> (packet: Vec<u8>)
        requires
            self.payload.len() + ICMP_HEADER_LEN <= isize::MAX,
        ensures
            packet@ == wire_bytes(self.identifier, self.sequence_number, self.payload@),
    {
        let mut packet: Vec<u8> = Vec::with_capacity(ICMP_HEADER_LEN + self.payload.len());
        packet.push(ECHO_REQUEST_TYPE);
        packet.push(ECHO_REQUEST_CODE);
        // The checksum field must be zero while the checksum is calculated.
        packet.push(0);
        packet.push(0);
        packet.push(high_byte(self.identifier));
        packet.push(low_byte(self.identifier));
        packet.push(high_byte(self.sequence_number));
        packet.push(low_byte(self.sequence_number));
        packet.extend_from_slice(&self.payload);
        assert(packet@ =~= request_bytes(
            0,
            self.identifier,
            self.sequence_number,
            self.payload@,
        ));
        let sum: u16 = internet_checksum(&packet);
        packet[2] = high_byte(sum);
        packet[3] = low_byte(sum);
        assert(packet@ =~= wire_bytes(self.identifier, self.sequence_number, self.payload@));
        packet
    }
}

/// The length of the IPv4 header that `packet` starts with, if it starts with
/// one and holds all of it.
pub open spec fn header_len(packet: Seq<u8>) -> Option<int> {
    if packet.len() > 0 && packet[0] / 16 == 4 && (packet[0] % 16) * 4 <= packet.len() {
        Some((packet[0] % 16) * 4)
    } else {
        None
    }
}

/// What follows the IPv4 header of `packet`: all of it, if there is none.
pub open spec fn message(packet: Seq<u8>) -> Seq<u8> {
    match header_len(packet) {
        Some(n) => packet.skip(n),
        None => packet,
    }
}

/// The identifier and the sequence number of an echo message, if its header is
/// complete.
pub open spec fn echo_ids(echo: Seq<u8>) -> Option<(u16, u16)> {
    if echo.len() < ICMP_HEADER_LEN {
        None
    } else {
        Some((crate::wire::word(echo[4], echo[5]), crate::wire::word(echo[6], echo[7])))
    }
}

/// The echo message that tells which request `outer` answers: an Echo Reply is
/// its own, an error message quotes the packet that caused it, which counts if
/// it is an Echo Request.
pub open spec fn answered_echo(outer: Seq<u8>) -> Option<Seq<u8>> {
    if outer.len() == 0 {
        None
    } else if outer[0] == ECHO_REPLY_TYPE {
        Some(outer)
    } else if outer[0] == TIME_EXCEEDED_TYPE || outer[0] == DESTINATION_UNREACHABLE_TYPE {
        if outer.len() < ICMP_HEADER_LEN {
            None
        } else {
            let quoted = message(outer.skip(8));
            if quoted.len() > 0 && quoted[0] == ECHO_REQUEST_TYPE {
                Some(quoted)
            } else {
                None
            }
        }
    } else {
        None
    }
}

/// What `packet` answers: nothing, unless it is a response to an Echo Request.
pub open spec fn parsed_response(packet: Seq<u8>) -> Option<ParsedIcmpResponse> {
    let outer = message(packet);
    match answered_echo(outer) {
        Some(echo) => match echo_ids(echo) {
            Some((identifier, sequence_number)) => Some(
                ParsedIcmpResponse { icmp_type: outer[0], identifier, sequence_number },
            ),
            None => None,
        },
        None => None,
    }
}

/// Reads a received packet, with or without its IPv4 header, as a response to
/// an Echo Request.
pub fn parse_icmp_response(packet: &[u8]) -> (response: Option<ParsedIcmpResponse>)
    ensures
        response == parsed_response(packet@),
{
    let outer: &[u8] = extract_icmp_packet(packet)?;
    if outer.len() == 0 {
        return None;
    }
    let icmp_type: u8 = outer[0];
    if icmp_type == ECHO_REPLY_TYPE {
        let (identifier, sequence_number) = icmp_identifier_and_sequence(outer)?;
        Some(ParsedIcmpResponse { icmp_type, identifier, sequence_number })
    } else if icmp_type == TIME_EXCEEDED_TYPE || icmp_type == DESTINATION_UNREACHABLE_TYPE {
        // Routers quote the original IPv4 header and the first 8 bytes of the
        // original payload, which is enough to recover the identifier and the
        // sequence number of the Echo Request.
        if outer.len() < ICMP_HEADER_LEN {
            return None;
        }
        let quoted_packet: &[u8] = slice_subrange(outer, ICMP_HEADER_LEN, outer.len());
        assert(quoted_packet@ == outer@.skip(8));
        let quoted: &[u8] = extract_icmp_packet(quoted_packet)?;
        if quoted.len() == 0 || quoted[0] != ECHO_REQUEST_TYPE {
            return None;
        }
        let (identifier, sequence_number) = icmp_identifier_and_sequence(quoted)?;
        Some(ParsedIcmpResponse { icmp_type, identifier, sequence_number })
    } else {
        None
    }
}

/// The part of `packet` behind its IPv4 header.
pub fn extract_icmp_packet(packet: &[u8]) -> (rest: Option<&[u8]>)
    ensures
        rest matches Some(r) && r@ == message(packet@),
{
    match ipv4_header_len(packet) {
        Some(offset) => Some(slice_subrange(packet, offset, packet.len())),
        None => Some(packet),
    }
}

/// The length in bytes of the IPv4 header that `packet` starts with.
pub fn ipv4_header_len(packet: &[u8]) -> (len: Option<usize>)
    ensures
        match len {
            Some(n) => header_len(packet@) == Some(n as int),
            None => header_len(packet@) is None,
        },
{
    if packet.len() == 0 {
        return None;
    }
    let first_byte: u8 = packet[0];
    assert(first_byte >> 4 == first_byte / 16) by (bit_vector);
    assert(first_byte & 0x0f == first_byte % 16) by (bit_vector);
    if first_byte >> 4 != 4 {
        return None;
    }
    let header_len: usize = (first_byte & 0x0f) as usize * 4;
    if packet.len() < header_len {
        return None;
    }
    Some(header_len)
}

/// The identifier and the sequence number of an echo message.
pub fn icmp_identifier_and_sequence(packet: &[u8]) -> (ids: Option<(u16, u16)>)
    ensures
        ids == echo_ids(packet@),
{
    if packet.len() < ICMP_HEADER_LEN {
        return None;
    }
    Some((read_word(packet[4], packet[5]), read_word(packet[6], packet[7])))
}

/// A header by which `message` finds what follows it.
pub open spec fn is_ipv4_header(header: Seq<u8>) -> bool {
    header_len(header) == Some(header.len() as int)
}

/// An IPv4 header in front of a packet is skipped, whatever its options.
proof fn lemma_header_is_skipped(header: Seq<u8>, rest: Seq<u8>)
    requires
        is_ipv4_header(header),
    ensures
        message(header + rest) == rest,
{
    assert((header + rest)[0] == header[0]);
    assert((header + rest).skip(header.len() as int) =~= rest);
}

/// Every Echo Request packet carries a valid checksum.
pub proof fn law_echo_request_validates(identifier: u16, sequence_number: u16, payload: Seq<u8>)
    ensures
        crate::checksum::checksum(wire_bytes(identifier, sequence_number, payload)) == 0,
{
    let unsummed = request_bytes(0, identifier, sequence_number, payload);
    let sum = crate::checksum::checksum(unsummed);
    crate::checksum::law_checksum_validates(unsummed, 1);
    assert(wire_bytes(identifier, sequence_number, payload) =~= crate::checksum::with_checksum(
        unsummed,
        1,
        sum,
    ));
}

/// Two Echo Requests that differ go out as packets that differ.
pub proof fn law_echo_requests_are_told_apart(
    identifier1: u16,
    sequence1: u16,
    payload1: Seq<u8>,
    identifier2: u16,
    sequence2: u16,
    payload2: Seq<u8>,
)
    requires
        wire_bytes(identifier1, sequence1, payload1) == wire_bytes(
            identifier2,
            sequence2,
            payload2,
        ),
    ensures
        identifier1 == identifier2,
        sequence1 == sequence2,
        payload1 == payload2,
{
    let packet1 = wire_bytes(identifier1, sequence1, payload1);
    let packet2 = wire_bytes(identifier2, sequence2, payload2);
    lemma_request_ids(identifier1, sequence1, payload1, 8);
    lemma_request_ids(identifier2, sequence2, payload2, 8);
    assert(payload1 =~= packet1.skip(8));
    assert(payload2 =~= packet2.skip(8));
}

/// The first `n` bytes of an Echo Request packet hold its identifier and its
/// sequence number, if they hold its header.
proof fn lemma_request_ids(identifier: u16, sequence_number: u16, payload: Seq<u8>, n: int)
    requires
        8 <= n <= 8 + payload.len(),
    ensures
        echo_ids(wire_bytes(identifier, sequence_number, payload).take(n)) == Some(
            (identifier, sequence_number),
        ),
{
    let part = wire_bytes(identifier, sequence_number, payload).take(n);
    crate::wire::law_word_round_trip(identifier);
    crate::wire::law_word_round_trip(sequence_number);
    assert(part[4] == crate::wire::word_bytes(identifier)[0]);
    assert(part[5] == crate::wire::word_bytes(identifier)[1]);
    assert(part[6] == crate::wire::word_bytes(sequence_number)[0]);
    assert(part[7] == crate::wire::word_bytes(sequence_number)[1]);
}

/// A packet reads the same with and without an IPv4 header in front of it. (A
/// bare packet is one that does not itself start like an IPv4 header.)
pub proof fn law_header_is_transparent(header: Seq<u8>, bare: Seq<u8>)
    requires
        is_ipv4_header(header),
        header_len(bare) is None,
    ensures
        parsed_response(header + bare) == parsed_response(bare),
{
    lemma_header_is_skipped(header, bare);
}

/// An Echo Reply, which a host makes of a request by changing its type and its
/// checksum, gives back the identifier and the sequence number of the request,
/// whatever its IPv4 header, its code and its payload.
pub proof fn law_echo_reply_answers_its_request(
    header: Seq<u8>,
    code: u8,
    sum: u16,
    identifier: u16,
    sequence_number: u16,
    payload: Seq<u8>,
)
    requires
        is_ipv4_header(header),
    ensures
        parsed_response(
            header + (seq![ECHO_REPLY_TYPE, code] + crate::wire::word_bytes(sum)
                + crate::wire::word_bytes(identifier) + crate::wire::word_bytes(sequence_number)
                + payload),
        ) == Some(
            (ParsedIcmpResponse { icmp_type: ECHO_REPLY_TYPE, identifier, sequence_number }),
        ),
{
    let reply = seq![ECHO_REPLY_TYPE, code] + crate::wire::word_bytes(sum)
        + crate::wire::word_bytes(identifier) + crate::wire::word_bytes(sequence_number) + payload;
    lemma_header_is_skipped(header, reply);
    crate::wire::law_word_round_trip(identifier);
    crate::wire::law_word_round_trip(sequence_number);
    assert(reply[0] == ECHO_REPLY_TYPE);
    assert(reply[4] == crate::wire::word_bytes(identifier)[0]);
    assert(reply[5] == crate::wire::word_bytes(identifier)[1]);
    assert(reply[6] == crate::wire::word_bytes(sequence_number)[0]);
    assert(reply[7] == crate::wire::word_bytes(sequence_number)[1]);
}

/// A Time Exceeded or Destination Unreachable message that quotes the IPv4
/// header and at least the first 8 bytes of an Echo Request packet gives back
/// the identifier and the sequence number of that request, whatever the two
/// IPv4 headers and the rest of the message's own header.
pub proof fn law_error_message_answers_quoted_request(
    outer_header: Seq<u8>,
    error_header: Seq<u8>,
    quoted_header: Seq<u8>,
    identifier: u16,
    sequence_number: u16,
    payload: Seq<u8>,
    quoted_len: int,
)
    requires
        is_ipv4_header(outer_header),
        is_ipv4_header(quoted_header),
        error_header.len() == ICMP_HEADER_LEN,
        error_header[0] == TIME_EXCEEDED_TYPE || error_header[0] == DESTINATION_UNREACHABLE_TYPE,
        8 <= quoted_len <= 8 + payload.len(),
    ensures
        parsed_response(
            outer_header + (error_header + (quoted_header + wire_bytes(
                identifier,
                sequence_number,
                payload,
            ).take(quoted_len))),
        ) == Some(
            (ParsedIcmpResponse { icmp_type: error_header[0], identifier, sequence_number }),
        ),
{
    let quoted = wire_bytes(identifier, sequence_number, payload).take(quoted_len);
    let error = error_header + (quoted_header + quoted);
    lemma_header_is_skipped(outer_header, error);
    lemma_header_is_skipped(quoted_header, quoted);
    lemma_request_ids(identifier, sequence_number, payload, quoted_len);
    assert(error[0] == error_header[0]);
    assert(error.skip(8) =~= quoted_header + quoted);
    assert(quoted[0] == ECHO_REQUEST_TYPE);
}

/// An Echo Request is not taken for a response, so that a host that hears its own
/// requests does not answer them itself.
pub proof fn law_echo_request_is_no_response(
    header: Seq<u8>,
    identifier: u16,
    sequence_number: u16,
    payload: Seq<u8>,
)
    requires
        is_ipv4_header(header),
    ensures
        parsed_response(wire_bytes(identifier, sequence_number, payload)) is None,
        parsed_response(header + wire_bytes(identifier, sequence_number, payload)) is None,
{
    let request = wire_bytes(identifier, sequence_number, payload);
    assert(request[0] == ECHO_REQUEST_TYPE);
    lemma_header_is_skipped(header, request);
}

/// Only Echo Replies, Time Exceeded and Destination Unreachable messages are
/// taken for responses, and none is made of fewer bytes than an ICMP header.
pub proof fn law_responses_are_replies_or_errors(packet: Seq<u8>)
    ensures
        parsed_response(packet) matches Some(response) ==> {
            &&& response.icmp_type == ECHO_REPLY_TYPE || response.icmp_type == TIME_EXCEEDED_TYPE
                || response.icmp_type == DESTINATION_UNREACHABLE_TYPE
            &&& packet.len() >= ICMP_HEADER_LEN
        },
{
}

/// What an Echo Request packet is made of: the type 8 and the code 0, a checksum
/// that validates the packet and never has all bits set, the identifier and the
/// sequence number, most significant byte first, and the payload.
pub proof fn law_echo_request_layout(identifier: u16, sequence_number: u16, payload: Seq<u8>)
    ensures
        ({
            let packet = wire_bytes(identifier, sequence_number, payload);
            &&& packet.len() == 8 + payload.len()
            &&& packet[0] == 8
            &&& packet[1] == 0
            &&& crate::checksum::checksum(packet) == 0
            &&& 256 * packet[2] + packet[3] != 0xffff
            &&& 256 * packet[4] + packet[5] == identifier
            &&& 256 * packet[6] + packet[7] == sequence_number
            &&& packet.skip(8) == payload
        }),
{
    let packet = wire_bytes(identifier, sequence_number, payload);
    let unsummed = request_bytes(0, identifier, sequence_number, payload);
    let sum = crate::checksum::checksum(unsummed);
    law_echo_request_validates(identifier, sequence_number, payload);
    crate::wire::law_words_are_big_endian(0, 0, identifier);
    crate::wire::law_words_are_big_endian(0, 0, sequence_number);
    crate::wire::law_words_are_big_endian(0, 0, sum);
    assert(packet.skip(8) =~= payload);
    lemma_some_word(unsummed);
    crate::checksum::law_checksum_complements_the_sum(unsummed);
}

/// A packet that starts with a byte other than zero has a sum other than zero.
proof fn lemma_some_word(packet: Seq<u8>)
    requires
        packet.len() >= 2,
        packet[0] > 0,
    ensures
        crate::checksum::word_sum(packet) > 0,
{
    lemma_sum_from_first_word(packet, crate::checksum::word_count(packet));
}

proof fn lemma_sum_from_first_word(packet: Seq<u8>, n: nat)
    requires
        packet.len() >= 2,
        packet[0] > 0,
        n > 0,
    ensures
        crate::checksum::sum_of_words(packet, n) > 0,
    decreases n,
{
    if n == 1 {
        crate::wire::law_words_are_big_endian(packet[0], packet[1], 0);
        assert(crate::checksum::word_at(packet, 0) > 0);
        assert(crate::checksum::sum_of_words(packet, 0) == 0);
    } else {
        lemma_sum_from_first_word(packet, (n - 1) as nat);
    }
}

/// A packet starts with an IPv4 header if its first four bits are those of the
/// version 4, and it is at least as long as its next four bits say, in units of
/// four bytes. The header is left out; a packet without one is taken whole.
pub proof fn law_ipv4_header_is_left_out(packet: Seq<u8>)
    ensures
        packet.len() > 0 && 0x40 <= packet[0] <= 0x4f && 4 * (packet[0] - 0x40) <= packet.len()
            ==> header_len(packet) == Some(4 * (packet[0] - 0x40)) && message(packet)
            == packet.skip(4 * (packet[0] - 0x40)),
        !(packet.len() > 0 && 0x40 <= packet[0] <= 0x4f && 4 * (packet[0] - 0x40) <= packet.len())
            ==> header_len(packet) is None && message(packet) == packet,
{
    if packet.len() > 0 {
        let b = packet[0];
        assert(b / 16 == 4 <==> 0x40 <= b <= 0x4f);
        assert(0x40 <= b <= 0x4f ==> b % 16 == b - 0x40);
    }
}

/// An echo message has its identifier in its fifth and sixth byte and its
/// sequence number in the next two, most significant byte first.
pub proof fn law_echo_message_holds_its_numbers(echo: Seq<u8>)
    ensures
        echo_ids(echo) is Some <==> echo.len() >= 8,
        echo_ids(echo) matches Some(ids) ==> ids.0 == 256 * echo[4] + echo[5] && ids.1 == 256
            * echo[6] + echo[7],
{
    if echo.len() >= 8 {
        crate::wire::law_words_are_big_endian(echo[4], echo[5], 0);
        crate::wire::law_words_are_big_endian(echo[6], echo[7], 0);
    }
}

/// What is taken for a response, and what it says. An Echo Reply (type 0) tells
/// its own identifier and sequence number. A Time Exceeded (11) or Destination
/// Unreachable (3) message tells those of the Echo Request (8) that it quotes.
/// Nothing else is a response.
pub proof fn law_response_tells_what_it_answers(packet: Seq<u8>)
    ensures
        ({
            let outer = message(packet);
            let quoted = message(outer.skip(8));
            &&& parsed_response(packet) is Some <==> outer.len() >= 8 && (outer[0] == 0 || ((
            outer[0] == 11 || outer[0] == 3) && quoted.len() >= 8 && quoted[0] == 8))
            &&& parsed_response(packet) matches Some(response) ==> {
                let echo = if outer[0] == 0 {
                    outer
                } else {
                    quoted
                };
                &&& response.icmp_type == outer[0]
                &&& response.identifier == 256 * echo[4] + echo[5]
                &&& response.sequence_number == 256 * echo[6] + echo[7]
            }
        }),
{
    let outer = message(packet);
    law_echo_message_holds_its_numbers(outer);
    law_echo_message_holds_its_numbers(message(outer.skip(8)));
}

} // verus!
