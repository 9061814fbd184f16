//! Waiting for the reply to a probe.
use vstd::prelude::*;

use crate::address::Ipv4Address;
use crate::icmp::{parse_icmp_response, ParsedIcmpResponse, ECHO_REPLY_TYPE};
use crate::text::append_decimal;

verus! {

/// How long a probe waits for its reply: one second.
pub const PER_PROBE_TIMEOUT_NANOS: u128 = 1_000_000_000;

/// A reply to a probe, with its round-trip time.
#[derive(Debug, Clone, Copy, PartialEq, Eq)]
pub struct MatchedReply {
    pub source_ip: Ipv4Address,
    pub icmp_type: u8,
    pub rtt_nanos: u128,
}

impl MatchedReply {
    /// The reply is an Echo Reply from the target itself.
    pub open spec fn reaches(self, target: Ipv4Address) -> bool {
        self.icmp_type == ECHO_REPLY_TYPE && self.source_ip == target
    }

    /// Whether the reply is an Echo Reply from the target itself.
    pub fn reached(&self, target: Ipv4Address) -> (reached: bool)
        ensures
            reached == self.reaches(target),
    {
        self.icmp_type == ECHO_REPLY_TYPE && self.source_ip == target
    }
}

/// The probe whose reply is awaited.
#[derive(Debug, Clone, Copy, PartialEq, Eq)]
pub struct AwaitedProbe {
    pub identifier: u16,
    pub sequence_number: u16,
    pub target: Ipv4Address,
}

/// What happens while a reply is awaited.
#[derive(Debug)]
pub enum ReceiveEvent<'a> {
    /// So many nanoseconds have passed since the probe was sent.
    Elapsed(u128),
    /// A packet came in.
    Packet(&'a [u8]),
    /// No packet came in in time.
    NoPacket,
    /// Receiving failed, with the reason.
    Broken(&'a str),
}

/// What to do next while a reply is awaited.
#[derive(Debug, PartialEq, Eq)]
pub enum ReceiveAction {
    /// Receive a packet, within this time.
    Receive { seconds: u64, micros: u32 },
    /// Stop: there is no reply.
    GiveUp,
    /// Go on: the packet is no response.
    Ignore,
    /// Go on: the packet is a response to another probe.
    Reject(ParsedIcmpResponse),
    /// Stop: the packet is the reply.
    Accept(ParsedIcmpResponse),
    /// Stop, with this error.
    Fail(String),
}

/// The response answers the probe.
pub open spec fn answers(response: ParsedIcmpResponse, awaited: AwaitedProbe) -> bool {
    response.identifier == awaited.identifier && response.sequence_number
        == awaited.sequence_number
}

/// The error that receiving failed.
pub open spec fn receive_failure(target: Ipv4Address, reason: Seq<char>) -> Seq<char> {
    "Failed to receive ICMP reply from "@ + target.dotted() + ": "@ + reason
}

/// What to do with a packet: the response to the probe is accepted, another one
/// is rejected, and what is no response is ignored.
pub open spec fn action_on(packet: Seq<u8>, awaited: AwaitedProbe) -> ReceiveAction {
    match crate::icmp::parsed_response(packet) {
        None => ReceiveAction::Ignore,
        Some(response) => if answers(response, awaited) {
            ReceiveAction::Accept(response)
        } else {
            ReceiveAction::Reject(response)
        },
    }
}

/// What to do next while the reply to `awaited` is awaited.
pub fn receive_step(awaited: &AwaitedProbe, event: &ReceiveEvent) -> (action: ReceiveAction)
    ensures
        match *event {
            ReceiveEvent::Elapsed(nanos) => if nanos >= PER_PROBE_TIMEOUT_NANOS {
                action == ReceiveAction::GiveUp
            } else {
                action matches ReceiveAction::Receive { seconds, micros } && time_left(
                    nanos,
                    seconds,
                    micros,
                )
            },
            ReceiveEvent::Packet(packet) => action == action_on(packet@, *awaited),
            ReceiveEvent::NoPacket => action == ReceiveAction::GiveUp,
            ReceiveEvent::Broken(reason) => action matches ReceiveAction::Fail(error) && error@
                == receive_failure(awaited.target, reason@),
        },
        event matches ReceiveEvent::Broken(reason) ==> (action matches ReceiveAction::Fail(error)
            && error@ == "Failed to receive ICMP reply from "@ + awaited.target.dotted() + ": "@
            + reason@),
{
    match event {
        ReceiveEvent::Elapsed(nanos) => if *nanos >= PER_PROBE_TIMEOUT_NANOS {
            ReceiveAction::GiveUp
        } else {
            let (seconds, micros) = remaining_time(*nanos);
            ReceiveAction::Receive { seconds, micros }
        },
        ReceiveEvent::Packet(packet) => match parse_icmp_response(packet) {
            None => ReceiveAction::Ignore,
            Some(response) => if response.identifier == awaited.identifier
                && response.sequence_number == awaited.sequence_number {
                ReceiveAction::Accept(response)
            } else {
                ReceiveAction::Reject(response)
            },
        },
        ReceiveEvent::NoPacket => ReceiveAction::GiveUp,
        ReceiveEvent::Broken(reason) => {
            let mut error: String = "Failed to receive ICMP reply from ".to_owned();
            error.append(awaited.target.to_text().as_str());
            error.append(": ");
            error.append(reason);
            ReceiveAction::Fail(error)
        },
    }
}

/// `seconds` and `micros` are what is left of the timeout when `elapsed`
/// nanoseconds have passed, without what is left of the last microsecond.
pub open spec fn time_left(elapsed: u128, seconds: u64, micros: u32) -> bool {
    &&& micros < 1_000_000
    &&& seconds * 1_000_000 + micros == (PER_PROBE_TIMEOUT_NANOS - elapsed) / 1000
}

/// What is left of the timeout.
fn remaining_time(elapsed: u128) -> (left: (u64, u32))
    requires
        elapsed < PER_PROBE_TIMEOUT_NANOS,
    ensures
        time_left(elapsed, left.0, left.1),
{
    let remaining: u128 = PER_PROBE_TIMEOUT_NANOS - elapsed;
    ((remaining / 1_000_000_000) as u64, (remaining % 1_000_000_000 / 1000) as u32)
}

/// The reply that an accepted response is, given who sent it and how long it
/// took.
pub fn matched_reply(
    response: &ParsedIcmpResponse,
    source_ip: Ipv4Address,
    rtt_nanos: u128,
) -> (reply: MatchedReply)
    ensures
        reply.source_ip == source_ip,
        reply.icmp_type == response.icmp_type,
        reply.rtt_nanos == rtt_nanos,
{
    MatchedReply { source_ip, icmp_type: response.icmp_type, rtt_nanos }
}

/// What came of an attempt to receive.
pub enum Received {
    Packet { bytes: Seq<u8>, source_ip: Ipv4Address, rtt_nanos: u128 },
    Nothing,
    Broken(Seq<char>),
}

/// One round of waiting: how many nanoseconds had passed since the probe was
/// sent, and what was then received.
pub struct Round {
    pub elapsed: u128,
    pub received: Received,
}

/// What came of waiting.
pub enum Waiting {
    Undecided,
    Replied(MatchedReply),
    GivenUp,
    Failed(Seq<char>),
}

/// What a round of waiting decides.
pub open spec fn decision(round: Round, awaited: AwaitedProbe) -> Waiting {
    if round.elapsed >= PER_PROBE_TIMEOUT_NANOS {
        Waiting::GivenUp
    } else {
        match round.received {
            Received::Packet { bytes, source_ip, rtt_nanos } => match action_on(bytes, awaited) {
                ReceiveAction::Accept(response) => Waiting::Replied(
                    MatchedReply { source_ip, icmp_type: response.icmp_type, rtt_nanos },
                ),
                _ => Waiting::Undecided,
            },
            Received::Nothing => Waiting::GivenUp,
            Received::Broken(reason) => Waiting::Failed(receive_failure(awaited.target, reason)),
        }
    }
}

/// What came of waiting for so many rounds: what the first of them decided that
/// decided anything.
pub open spec fn outcome_of(rounds: Seq<Round>, awaited: AwaitedProbe) -> Waiting
    decreases rounds.len(),
{
    if rounds.len() == 0 {
        Waiting::Undecided
    } else {
        match outcome_of(rounds.drop_last(), awaited) {
            Waiting::Undecided => decision(rounds.last(), awaited),
            decided => decided,
        }
    }
}

/// The round brought in time a packet that answers the probe.
pub open spec fn brings_answer(round: Round, awaited: AwaitedProbe) -> bool {
    &&& round.elapsed < PER_PROBE_TIMEOUT_NANOS
    &&& round.received matches Received::Packet { bytes, .. } && (crate::icmp::parsed_response(
        bytes,
    ) matches Some(response) && answers(response, awaited))
}

/// The round brought in time a packet that does not answer the probe.
pub open spec fn brings_other_packet(round: Round, awaited: AwaitedProbe) -> bool {
    &&& round.elapsed < PER_PROBE_TIMEOUT_NANOS
    &&& round.received is Packet
    &&& !brings_answer(round, awaited)
}

/// The note on a response that came in, with the round-trip time in
/// milliseconds as text, if it is the one that is awaited.
pub open spec fn response_note(
    response: ParsedIcmpResponse,
    source_ip: Ipv4Address,
    ttl: u8,
    rtt: Option<Seq<char>>,
) -> Seq<char> {
    "Reply type="@ + byte_text(response.icmp_type) + " from "@ + source_ip.dotted() + " ttl="@
        + byte_text(ttl) + " seq="@ + word_text(response.sequence_number) + match rtt {
        Some(rtt) => " matched=yes rtt="@ + rtt + "ms"@,
        None => " matched=no"@,
    }
}

/// A byte in decimal.
pub open spec fn byte_text(n: u8) -> Seq<char> {
    crate::text::decimal(n as nat)
}

/// A word in decimal.
pub open spec fn word_text(n: u16) -> Seq<char> {
    crate::text::decimal(n as nat)
}

fn append_byte(out: &mut String, n: u8)
    ensures
        final(out)@ == old(out)@ + byte_text(n),
{
    append_decimal(out, n as u64);
}

fn append_word(out: &mut String, n: u16)
    ensures
        final(out)@ == old(out)@ + word_text(n),
{
    append_decimal(out, n as u64);
}

/// The note on a response that came in.
pub fn reply_note(
    response: &ParsedIcmpResponse,
    source_ip: Ipv4Address,
    ttl: u8,
    rtt: Option<&str>,
) -> (note: String)
    ensures
        note@ == response_note(
            *response,
            source_ip,
            ttl,
            match rtt {
                Some(rtt) => Some(rtt@),
                None => None,
            },
        ),
{
    let mut note: String = "Reply type=".to_owned();
    append_byte(&mut note, response.icmp_type);
    note.append(" from ");
    note.append(source_ip.to_text().as_str());
    note.append(" ttl=");
    append_byte(&mut note, ttl);
    note.append(" seq=");
    append_word(&mut note, response.sequence_number);
    match rtt {
        Some(rtt) => {
            note.append(" matched=yes rtt=");
            note.append(rtt);
            note.append("ms");
        },
        None => {
            note.append(" matched=no");
        },
    }
    assert(note@ =~= response_note(
        *response,
        source_ip,
        ttl,
        match rtt {
            Some(rtt) => Some(rtt@),
            None => None,
        },
    ));
    note
}

/// The Echo Reply to a probe is taken for its reply, whatever its IPv4 header,
/// its code and its payload.
pub proof fn law_echo_reply_is_accepted(
    awaited: AwaitedProbe,
    header: Seq<u8>,
    code: u8,
    sum: u16,
    payload: Seq<u8>,
)
    requires
        crate::icmp::is_ipv4_header(header),
    ensures
        crate::icmp::parsed_response(
            header + (seq![ECHO_REPLY_TYPE, code] + crate::wire::word_bytes(sum)
                + crate::wire::word_bytes(awaited.identifier) + crate::wire::word_bytes(
                awaited.sequence_number,
            ) + payload),
        ) matches Some(response) && answers(response, awaited),
{
    crate::icmp::law_echo_reply_answers_its_request(
        header,
        code,
        sum,
        awaited.identifier,
        awaited.sequence_number,
        payload,
    );
}

/// An error message that quotes a probe is taken for its reply, if it quotes at
/// least 8 bytes of it.
pub proof fn law_error_message_is_accepted(
    awaited: AwaitedProbe,
    outer_header: Seq<u8>,
    error_header: Seq<u8>,
    quoted_header: Seq<u8>,
    quoted_len: int,
)
    requires
        crate::icmp::is_ipv4_header(outer_header),
        crate::icmp::is_ipv4_header(quoted_header),
        error_header.len() == crate::icmp::ICMP_HEADER_LEN,
        error_header[0] == crate::icmp::TIME_EXCEEDED_TYPE || error_header[0]
            == crate::icmp::DESTINATION_UNREACHABLE_TYPE,
        8 <= quoted_len <= 16,
    ensures
        crate::icmp::parsed_response(
            outer_header + (error_header + (quoted_header + crate::icmp::wire_bytes(
                awaited.identifier,
                awaited.sequence_number,
                crate::probe::probe_payload(),
            ).take(quoted_len))),
        ) matches Some(response) && answers(response, awaited),
{
    crate::icmp::law_error_message_answers_quoted_request(
        outer_header,
        error_header,
        quoted_header,
        awaited.identifier,
        awaited.sequence_number,
        crate::probe::probe_payload(),
        quoted_len,
    );
}

/// The first packet that answers the probe is its reply, with the address that
/// the packet came from, its type and its time. The packets before it are ignored
/// or rejected, and what comes after it does not matter.
pub proof fn law_first_answer_is_the_reply(rounds: Seq<Round>, awaited: AwaitedProbe, i: int)
    requires
        0 <= i < rounds.len(),
        forall|j: int| 0 <= j < i ==> brings_other_packet(#[trigger] rounds[j], awaited),
        brings_answer(rounds[i], awaited),
    ensures
        forall|j: int|
            0 <= j < i ==> (action_on((#[trigger] rounds[j]).received->bytes, awaited) is Ignore
                || action_on(rounds[j].received->bytes, awaited) is Reject),
        action_on(rounds[i].received->bytes, awaited) is Accept,
        outcome_of(rounds, awaited) == Waiting::Replied(
            MatchedReply {
                source_ip: rounds[i].received->source_ip,
                icmp_type: crate::icmp::parsed_response(rounds[i].received->bytes)->0.icmp_type,
                rtt_nanos: rounds[i].received->rtt_nanos,
            },
        ),
{
    law_first_decision_stands(rounds, awaited, i);
}

/// What the first round decides that decides anything, stands, whatever comes
/// after it. Where no round decides anything, the waiting goes on.
pub proof fn law_first_decision_stands(rounds: Seq<Round>, awaited: AwaitedProbe, i: int)
    requires
        0 <= i <= rounds.len(),
        forall|j: int|
            0 <= j < i ==> decision(#[trigger] rounds[j], awaited) == Waiting::Undecided,
        i < rounds.len() ==> decision(rounds[i], awaited) != Waiting::Undecided,
    ensures
        outcome_of(rounds, awaited) == if i < rounds.len() {
            decision(rounds[i], awaited)
        } else {
            Waiting::Undecided
        },
    decreases rounds.len(),
{
    if rounds.len() > 0 {
        let front = rounds.drop_last();
        let k = if i < front.len() {
            i
        } else {
            front.len() as int
        };
        assert forall|j: int| 0 <= j < k implies decision(#[trigger] front[j], awaited)
            == Waiting::Undecided by {
            assert(front[j] == rounds[j]);
        }
        law_first_decision_stands(front, awaited, k);
        if i == rounds.len() {
            assert(decision(rounds[i - 1], awaited) == Waiting::Undecided);
        }
    }
}

/// A probe has a reply only where a packet answered it in time, before the
/// waiting was given up or failed.
pub proof fn law_reply_answers_the_probe(rounds: Seq<Round>, awaited: AwaitedProbe)
    requires
        outcome_of(rounds, awaited) is Replied,
    ensures
        exists|i: int|
            0 <= i < rounds.len() && brings_answer(#[trigger] rounds[i], awaited) && (forall|j: int|
                0 <= j < i ==> brings_other_packet(#[trigger] rounds[j], awaited)),
    decreases rounds.len(),
{
    let front = rounds.drop_last();
    let last = rounds.len() - 1;
    if outcome_of(front, awaited) is Replied {
        law_reply_answers_the_probe(front, awaited);
        let i = choose|i: int|
            0 <= i < front.len() && brings_answer(#[trigger] front[i], awaited) && (forall|j: int|
                0 <= j < i ==> brings_other_packet(#[trigger] front[j], awaited));
        assert(rounds[i] == front[i]);
        assert forall|j: int| 0 <= j < i implies brings_other_packet(
            #[trigger] rounds[j],
            awaited,
        ) by {
            assert(front[j] == rounds[j]);
        }
    } else {
        lemma_undecided_rounds(front, awaited);
        assert(brings_answer(rounds[last], awaited));
        assert forall|j: int| 0 <= j < last implies brings_other_packet(
            #[trigger] rounds[j],
            awaited,
        ) by {
            assert(front[j] == rounds[j]);
        }
    }
}

/// While nothing is decided, each round has brought a packet that does not
/// answer the probe.
proof fn lemma_undecided_rounds(rounds: Seq<Round>, awaited: AwaitedProbe)
    requires
        outcome_of(rounds, awaited) is Undecided,
    ensures
        forall|j: int|
            0 <= j < rounds.len() ==> brings_other_packet(#[trigger] rounds[j], awaited),
    decreases rounds.len(),
{
    if rounds.len() > 0 {
        let front = rounds.drop_last();
        lemma_undecided_rounds(front, awaited);
        assert forall|j: int| 0 <= j < rounds.len() implies brings_other_packet(
            #[trigger] rounds[j],
            awaited,
        ) by {
            if j < front.len() {
                assert(front[j] == rounds[j]);
            }
        }
    }
}

/// A late response to one probe of a run is not taken for the reply to another,
/// unless there are 65534 probes or more between them. (`n` is the sequence
/// number of the first probe of the run, and `i` and `j` tell how many probes
/// came before each of the two.)
pub proof fn law_late_response_is_rejected(
    response: ParsedIcmpResponse,
    earlier: AwaitedProbe,
    later: AwaitedProbe,
    n: u16,
    i: nat,
    j: nat,
)
    requires
        n != 0,
        i < j < i + 65535,
        earlier.sequence_number == crate::probe::nth_successor(n, i),
        later.sequence_number == crate::probe::nth_successor(n, j),
        answers(response, earlier),
    ensures
        !answers(response, later),
{
    crate::probe::law_sequence_numbers_tell_probes_apart(n, i, j);
}

/// A packet is accepted exactly if it is a response with both the identifier and
/// the sequence number of the probe, whatever its type. A response that differs
/// in either is rejected, and what is no response is ignored.
pub proof fn law_only_the_probes_own_response_is_accepted(packet: Seq<u8>, awaited: AwaitedProbe)
    ensures
        match crate::icmp::parsed_response(packet) {
            None => action_on(packet, awaited) == ReceiveAction::Ignore,
            Some(response) => {
                &&& response.identifier == awaited.identifier && response.sequence_number
                    == awaited.sequence_number ==> action_on(packet, awaited)
                    == ReceiveAction::Accept(response)
                &&& response.identifier != awaited.identifier ==> action_on(packet, awaited)
                    == ReceiveAction::Reject(response)
                &&& response.sequence_number != awaited.sequence_number ==> action_on(
                    packet,
                    awaited,
                ) == ReceiveAction::Reject(response)
            },
        },
{
}

/// A packet that answers one probe does not answer another: whichever two probes
/// accept it have the same identifier and the same sequence number.
pub proof fn law_packet_answers_one_probe(packet: Seq<u8>, one: AwaitedProbe, other: AwaitedProbe)
    requires
        action_on(packet, one) is Accept,
        action_on(packet, other) is Accept,
    ensures
        one.identifier == other.identifier,
        one.sequence_number == other.sequence_number,
{
}

/// The target is reached by an Echo Reply (type 0) that comes from the target
/// itself, and by nothing else.
pub proof fn law_target_is_reached_by_its_own_echo_reply(reply: MatchedReply, target: Ipv4Address)
    ensures
        reply.reaches(target) ==> reply.source_ip == target && reply.icmp_type == 0,
        reply.source_ip == target && reply.icmp_type == 0 ==> reply.reaches(target),
{
}

/// What is left of the timeout of one second ends with it, but for less than a
/// microsecond.
pub proof fn law_waiting_ends_with_the_timeout(elapsed: u128, seconds: u64, micros: u32)
    requires
        elapsed < 1_000_000_000,
        time_left(elapsed, seconds, micros),
    ensures
        micros < 1_000_000,
        elapsed + seconds * 1_000_000_000 + micros * 1000 <= 1_000_000_000,
        1_000_000_000 < elapsed + seconds * 1_000_000_000 + micros * 1000 + 1000,
{
}

/// The numbers in a note are in decimal.
pub proof fn law_notes_are_in_decimal(n: u8, m: u16)
    ensures
        crate::text::digits_value(byte_text(n)) == n,
        crate::text::digits_value(word_text(m)) == m,
        byte_text(n) == crate::text::decimal(n as nat),
        word_text(m) == crate::text::decimal(m as nat),
{
    crate::text::law_decimal_round_trip(n as nat);
    crate::text::law_decimal_round_trip(m as nat);
}

/// A note on a response tells its type, who sent it, the time to live and the
/// sequence number. It ends with the time that the response took, or with that
/// it does not match; nothing else depends on which.
pub proof fn law_note_tells_whether_the_response_matches(
    response: ParsedIcmpResponse,
    source_ip: Ipv4Address,
    ttl: u8,
    rtt: Seq<char>,
)
    ensures
        ({
            let what = "Reply type="@ + byte_text(response.icmp_type) + " from "@
                + source_ip.dotted() + " ttl="@ + byte_text(ttl) + " seq="@ + word_text(
                response.sequence_number,
            );
            &&& response_note(response, source_ip, ttl, None) == what + " matched=no"@
            &&& response_note(response, source_ip, ttl, Some(rtt)) == what + (" matched=yes rtt="@
                + rtt + "ms"@)
        }),
{
}

} // verus!
