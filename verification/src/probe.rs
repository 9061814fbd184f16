//! Probes: their sequence numbers, and the search for the target.
use vstd::prelude::*;

use crate::address::Ipv4Address;
use crate::icmp::EchoRequest;
use crate::reply::MatchedReply;

verus! {

/// The sequence number of the first probe.
pub const FIRST_SEQUENCE_NUMBER: u16 = 1;

/// The sequence number after `n`. Zero is left out.
pub open spec fn successor(n: u16) -> u16 {
    if n == u16::MAX {
        1
    } else {
        (n + 1) as u16
    }
}

/// The sequence number of the probe `k` probes after that with the number `n`.
pub open spec fn nth_successor(n: u16, k: nat) -> u16
    decreases k,
{
    if k == 0 {
        n
    } else {
        successor(nth_successor(n, (k - 1) as nat))
    }
}

/// The sequence number after `n`.
pub fn next_sequence_number(n: u16) -> (next: u16)
    ensures
        next == successor(n),
{
    let next: u16 = n.wrapping_add(1);
    if next == 0 {
        1
    } else {
        next
    }
}

/// Sequence numbers go round through all numbers but zero.
pub proof fn law_sequence_numbers_go_round(n: u16, k: nat)
    requires
        n != 0,
    ensures
        nth_successor(n, k) == (n - 1 + k) % 65535 + 1,
        nth_successor(n, k) != 0,
    decreases k,
{
    if k > 0 {
        law_sequence_numbers_go_round(n, (k - 1) as nat);
        let before = n - 1 + (k - 1);
        assert((before + 1) % 65535 == if before % 65535 == 65534 {
            0
        } else {
            before % 65535 + 1
        });
    }
}

/// Two probes of one run have different sequence numbers, unless there are
/// 65534 probes or more between them.
pub proof fn law_sequence_numbers_tell_probes_apart(n: u16, i: nat, j: nat)
    requires
        n != 0,
        i < j < i + 65535,
    ensures
        nth_successor(n, i) != nth_successor(n, j),
{
    law_sequence_numbers_go_round(n, i);
    law_sequence_numbers_go_round(n, j);
    let a = n - 1 + i;
    let d = j - i;
    assert((a + d) % 65535 != a % 65535);
}

/// The identifier of the probes of the process `pid`: its lower 16 bits.
pub fn probe_identifier(pid: u32) -> (identifier: u16)
    ensures
        identifier == pid % 0x10000,
{
    (pid % 0x10000) as u16
}

/// The payload of a probe: the letters of `rttmeter`.
pub open spec fn probe_payload() -> Seq<u8> {
    seq![0x72u8, 0x74, 0x74, 0x6d, 0x65, 0x74, 0x65, 0x72]
}

/// The packet that probes.
pub fn probe_packet(identifier: u16, sequence_number: u16) -> (packet: Vec<u8>)
    ensures
        packet@ == crate::icmp::wire_bytes(identifier, sequence_number, probe_payload()),
{
    let payload: Vec<u8> = vec![0x72, 0x74, 0x74, 0x6d, 0x65, 0x74, 0x65, 0x72];
    assert(payload@ =~= probe_payload());
    EchoRequest::new(identifier, sequence_number, payload).to_bytes()
}

/// The outcome of a probe: a reply, or none in time.
pub open spec fn outcome_reaches(outcome: Option<MatchedReply>, target: Ipv4Address) -> bool {
    outcome matches Some(reply) && reply.reaches(target)
}

/// The search for the time to live that reaches the target: the hops are probed
/// one after the other, each once.
#[derive(Debug, Clone, Copy, PartialEq, Eq)]
pub struct Discovery {
    pub target: Ipv4Address,
    pub max_ttl: u8,
    /// How many hops have been probed.
    pub probed: u8,
    /// Whether the last of them was the target.
    pub reached: bool,
    /// The sequence number of the next probe.
    pub next_sequence: u16,
}

/// What to do next in the search for the target.
#[derive(Debug, Clone, Copy, PartialEq, Eq)]
pub enum DiscoveryStep {
    Probe { ttl: u8, sequence_number: u16 },
    Reached { ttl: u8 },
    Unreachable,
}

impl Discovery {
    /// The search before the first probe.
    pub open spec fn started(target: Ipv4Address, max_ttl: u8, next_sequence: u16) -> Discovery {
        Discovery { target, max_ttl, probed: 0, reached: false, next_sequence }
    }

    /// What to do next.
    pub open spec fn next_step(self) -> DiscoveryStep {
        if self.reached {
            DiscoveryStep::Reached { ttl: self.probed }
        } else if self.probed < self.max_ttl {
            DiscoveryStep::Probe {
                ttl: (self.probed + 1) as u8,
                sequence_number: self.next_sequence,
            }
        } else {
            DiscoveryStep::Unreachable
        }
    }

    /// The search after one more probe.
    pub open spec fn advanced(self, outcome: Option<MatchedReply>) -> Discovery {
        Discovery {
            probed: (self.probed + 1) as u8,
            reached: outcome_reaches(outcome, self.target),
            next_sequence: successor(self.next_sequence),
            ..self
        }
    }

    /// The search after the probes whose outcomes are `outcomes`.
    pub open spec fn after(self, outcomes: Seq<Option<MatchedReply>>) -> Discovery
        decreases outcomes.len(),
    {
        if outcomes.len() == 0 {
            self
        } else {
            self.after(outcomes.drop_last()).advanced(outcomes.last())
        }
    }

    /// Starts the search.
    pub fn start(target: Ipv4Address, max_ttl: u8, next_sequence: u16) -> (discovery: Self)
        ensures
            discovery == Discovery::started(target, max_ttl, next_sequence),
    {
        Discovery { target, max_ttl, probed: 0, reached: false, next_sequence }
    }

    /// What to do next.
    pub fn step(&self) -> (step: DiscoveryStep)
        ensures
            step == self.next_step(),
    {
        if self.reached {
            DiscoveryStep::Reached { ttl: self.probed }
        } else if self.probed < self.max_ttl {
            DiscoveryStep::Probe { ttl: self.probed + 1, sequence_number: self.next_sequence }
        } else {
            DiscoveryStep::Unreachable
        }
    }

    /// Takes in the outcome of the probe that was to be sent.
    pub fn advance(&mut self, outcome: Option<MatchedReply>)
        requires
            old(self).next_step() is Probe,
        ensures
            *final(self) == old(self).advanced(outcome),
    {
        self.probed = self.probed + 1;
        self.reached =
        match outcome {
            Some(reply) => reply.reached(self.target),
            None => false,
        };
        self.next_sequence = next_sequence_number(self.next_sequence);
    }
}

/// As long as no probe reached the target, the next hop is the next to be
/// probed, with the next sequence number, up to the limit: behind it the target
/// is unreachable.
pub proof fn law_discovery_probes_hop_by_hop(
    target: Ipv4Address,
    max_ttl: u8,
    first_sequence: u16,
    outcomes: Seq<Option<MatchedReply>>,
)
    requires
        outcomes.len() <= max_ttl,
        forall|i: int|
            0 <= i < outcomes.len() ==> !outcome_reaches(#[trigger] outcomes[i], target),
    ensures
        ({
            let step = Discovery::started(target, max_ttl, first_sequence).after(
                outcomes,
            ).next_step();
            if outcomes.len() < max_ttl {
                step == (DiscoveryStep::Probe {
                    ttl: (outcomes.len() + 1) as u8,
                    sequence_number: nth_successor(first_sequence, outcomes.len()),
                })
            } else {
                step == DiscoveryStep::Unreachable
            }
        }),
{
    lemma_discovery_state(target, max_ttl, first_sequence, outcomes);
}

proof fn lemma_discovery_state(
    target: Ipv4Address,
    max_ttl: u8,
    first_sequence: u16,
    outcomes: Seq<Option<MatchedReply>>,
)
    requires
        outcomes.len() <= max_ttl,
        forall|i: int|
            0 <= i < outcomes.len() ==> !outcome_reaches(#[trigger] outcomes[i], target),
    ensures
        Discovery::started(target, max_ttl, first_sequence).after(outcomes) == (Discovery {
            target,
            max_ttl,
            probed: outcomes.len() as u8,
            reached: false,
            next_sequence: nth_successor(first_sequence, outcomes.len()),
        }),
    decreases outcomes.len(),
{
    if outcomes.len() > 0 {
        let front = outcomes.drop_last();
        assert forall|i: int| 0 <= i < front.len() implies !outcome_reaches(
            #[trigger] front[i],
            target,
        ) by {
            assert(front[i] == outcomes[i]);
        }
        lemma_discovery_state(target, max_ttl, first_sequence, front);
        assert(!outcome_reaches(outcomes[outcomes.len() - 1], target));
    }
}

/// The first probe that reaches the target ends the search, with the time to
/// live of that probe.
pub proof fn law_discovery_finds_the_target(
    target: Ipv4Address,
    max_ttl: u8,
    first_sequence: u16,
    outcomes: Seq<Option<MatchedReply>>,
)
    requires
        0 < outcomes.len() <= max_ttl,
        forall|i: int|
            0 <= i < outcomes.len() - 1 ==> !outcome_reaches(#[trigger] outcomes[i], target),
        outcome_reaches(outcomes.last(), target),
    ensures
        ({
            let found = Discovery::started(target, max_ttl, first_sequence).after(outcomes);
            &&& found.next_step() == (DiscoveryStep::Reached { ttl: outcomes.len() as u8 })
            &&& found.next_sequence == nth_successor(first_sequence, outcomes.len())
        }),
{
    let front = outcomes.drop_last();
    assert forall|i: int| 0 <= i < front.len() implies !outcome_reaches(
        #[trigger] front[i],
        target,
    ) by {
        assert(front[i] == outcomes[i]);
    }
    lemma_discovery_state(target, max_ttl, first_sequence, front);
}

/// The sequence number after another is one more, and one after the greatest: it
/// is never zero.
pub proof fn law_next_sequence_number(n: u16)
    ensures
        n < 65535 ==> successor(n) == n + 1,
        successor(65535) == 1,
        successor(n) != 0,
{
}

/// A probe reaches the target if it is answered by an Echo Reply (type 0) from
/// the target itself. An error message, another host's reply and no reply at all
/// do not reach it.
pub proof fn law_probe_reaches_by_echo_reply(outcome: Option<MatchedReply>, target: Ipv4Address)
    ensures
        outcome is None ==> !outcome_reaches(outcome, target),
        outcome matches Some(reply) ==> (outcome_reaches(outcome, target) <==> reply.icmp_type == 0
            && reply.source_ip == target),
{
    if let Some(reply) = outcome {
        crate::reply::law_target_is_reached_by_its_own_echo_reply(reply, target);
    }
}

/// The payload of a probe is the name of the program.
pub proof fn law_probe_carries_the_programs_name(i: int)
    requires
        0 <= i < 8,
    ensures
        probe_payload().len() == "rttmeter"@.len(),
        probe_payload()[i] == "rttmeter"@[i] as u8,
{
    reveal_strlit("rttmeter");
}

/// One more probe of a search is of the next hop, whatever came of it, and takes
/// the next sequence number. The search ends only where that probe reached the
/// target, or at the limit.
pub proof fn law_search_goes_on_by_one_hop(search: Discovery, outcome: Option<MatchedReply>)
    requires
        search.next_step() is Probe,
    ensures
        ({
            let next = search.advanced(outcome);
            &&& search.next_step() == (DiscoveryStep::Probe {
                ttl: next.probed,
                sequence_number: search.next_sequence,
            })
            &&& next.probed == search.probed + 1
            &&& next.target == search.target
            &&& next.max_ttl == search.max_ttl
            &&& next.next_sequence == successor(search.next_sequence)
            &&& outcome_reaches(outcome, search.target) <==> next.next_step()
                == (DiscoveryStep::Reached { ttl: next.probed })
            &&& !outcome_reaches(outcome, search.target) && next.probed < search.max_ttl
                ==> next.next_step() is Probe
            &&& !outcome_reaches(outcome, search.target) && next.probed == search.max_ttl
                ==> next.next_step() is Unreachable
        }),
{
}

} // verus!
