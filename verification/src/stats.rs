//! What is counted and measured of a hop since the program started.
use vstd::prelude::*;

verus! {

/// How many probes were sent, and the round-trip time of each reply in
/// nanoseconds, in the order in which they came.
#[derive(Debug, Clone, PartialEq, Eq)]
pub struct ProbeStatistics {
    pub sent: u64,
    pub rtts: Vec<u128>,
}

/// The share of unanswered probes, in percent, above which a hop is lossy.
pub const TOLERATED_LOSS_PERCENT: u128 = 5;

/// Some probe went unanswered, where `sent` were sent and `received` replies
/// came.
pub open spec fn any_lost(sent: nat, received: nat) -> bool {
    sent > received
}

/// More probes went unanswered than is tolerated.
pub open spec fn too_many_lost(sent: nat, received: nat) -> bool {
    100 * (sent - received) > TOLERATED_LOSS_PERCENT * sent
}

/// The longest of some round-trip times.
pub open spec fn longest(rtts: Seq<u128>) -> Option<u128>
    decreases rtts.len(),
{
    if rtts.len() == 0 {
        None
    } else {
        match longest(rtts.drop_last()) {
            Some(rtt) => if rtt >= rtts.last() {
                Some(rtt)
            } else {
                Some(rtts.last())
            },
            None => Some(rtts.last()),
        }
    }
}

/// The shortest of some round-trip times.
pub open spec fn shortest(rtts: Seq<u128>) -> Option<u128>
    decreases rtts.len(),
{
    if rtts.len() == 0 {
        None
    } else {
        match shortest(rtts.drop_last()) {
            Some(rtt) => if rtt <= rtts.last() {
                Some(rtt)
            } else {
                Some(rtts.last())
            },
            None => Some(rtts.last()),
        }
    }
}

impl Default for ProbeStatistics {
    /// Nothing was sent yet.
    fn default() -> (statistics: Self)
        ensures
            statistics.sent == 0,
            statistics.rtts@ == Seq::<u128>::empty(),
    {
        ProbeStatistics { sent: 0, rtts: Vec::new() }
    }
}

impl ProbeStatistics {
    /// Counts a probe.
    pub fn record_probe_sent(&mut self)
        requires
            old(self).sent < u64::MAX,
        ensures
            final(self).sent == old(self).sent + 1,
            final(self).rtts@ == old(self).rtts@,
    {
        self.sent = self.sent + 1;
    }

    /// Takes note of a reply and its round-trip time.
    pub fn record_reply(&mut self, rtt_nanos: u128)
        ensures
            final(self).sent == old(self).sent,
            final(self).rtts@ == old(self).rtts@.push(rtt_nanos),
    {
        self.rtts.push(rtt_nanos);
    }

    /// How many probes were sent.
    pub fn sent(&self) -> (n: u64)
        ensures
            n == self.sent,
    {
        self.sent
    }

    /// How many replies came.
    pub fn received(&self) -> (n: u64)
        ensures
            n == self.rtts@.len(),
    {
        self.rtts.len() as u64
    }

    /// Whether some probe went unanswered.
    pub fn has_lost(&self) -> (lost: bool)
        ensures
            lost == any_lost(self.sent as nat, self.rtts@.len()),
    {
        self.sent > self.received()
    }

    /// Whether more probes went unanswered than is tolerated.
    pub fn is_lossy(&self) -> (lossy: bool)
        ensures
            lossy == too_many_lost(self.sent as nat, self.rtts@.len()),
    {
        let sent: u128 = self.sent as u128;
        let received: u128 = self.received() as u128;
        100 * sent > TOLERATED_LOSS_PERCENT * sent + 100 * received
    }

    /// The round-trip times.
    pub fn rtt_samples(&self) -> (samples: &[u128])
        ensures
            samples@ == self.rtts@,
    {
        self.rtts.as_slice()
    }

    /// The round-trip time of the last reply.
    pub fn last_rtt(&self) -> (rtt: Option<u128>)
        ensures
            rtt == if self.rtts@.len() == 0 {
                None
            } else {
                Some(self.rtts@.last())
            },
    {
        if self.rtts.len() == 0 {
            None
        } else {
            Some(self.rtts[self.rtts.len() - 1])
        }
    }

    /// The longest round-trip time.
    pub fn worst_rtt(&self) -> (rtt: Option<u128>)
        ensures
            rtt == longest(self.rtts@),
    {
        let mut worst: Option<u128> = None;
        let mut i: usize = 0;
        while i < self.rtts.len()
            invariant
                i <= self.rtts.len(),
                worst == longest(self.rtts@.take(i as int)),
            decreases self.rtts.len() - i,
        {
            let rtt: u128 = self.rtts[i];
            assert(self.rtts@.take(i + 1).drop_last() =~= self.rtts@.take(i as int));
            worst =
            match worst {
                Some(other) => if other >= rtt {
                    Some(other)
                } else {
                    Some(rtt)
                },
                None => Some(rtt),
            };
            i = i + 1;
        }
        assert(self.rtts@.take(self.rtts@.len() as int) =~= self.rtts@);
        worst
    }

    /// The shortest round-trip time.
    pub fn best_rtt(&self) -> (rtt: Option<u128>)
        ensures
            rtt == shortest(self.rtts@),
    {
        let mut best: Option<u128> = None;
        let mut i: usize = 0;
        while i < self.rtts.len()
            invariant
                i <= self.rtts.len(),
                best == shortest(self.rtts@.take(i as int)),
            decreases self.rtts.len() - i,
        {
            let rtt: u128 = self.rtts[i];
            assert(self.rtts@.take(i + 1).drop_last() =~= self.rtts@.take(i as int));
            best =
            match best {
                Some(other) => if other <= rtt {
                    Some(other)
                } else {
                    Some(rtt)
                },
                None => Some(rtt),
            };
            i = i + 1;
        }
        assert(self.rtts@.take(self.rtts@.len() as int) =~= self.rtts@);
        best
    }
}

/// The longest and the shortest round-trip time are among those that were
/// measured, and bound them all; there are such as soon as there is one.
pub proof fn law_extremes_bound_all_times(rtts: Seq<u128>)
    ensures
        longest(rtts) is Some <==> rtts.len() > 0,
        shortest(rtts) is Some <==> rtts.len() > 0,
        rtts.len() > 0 ==> rtts.contains(longest(rtts)->0) && rtts.contains(shortest(rtts)->0),
        forall|i: int|
            0 <= i < rtts.len() ==> shortest(rtts)->0 <= #[trigger] rtts[i] <= longest(rtts)->0,
    decreases rtts.len(),
{
    if rtts.len() > 0 {
        let front = rtts.drop_last();
        law_extremes_bound_all_times(front);
        let n = rtts.len() - 1;
        assert(rtts[n] == rtts.last());
        assert forall|i: int| 0 <= i < rtts.len() implies shortest(rtts)->0 <= #[trigger] rtts[i]
            <= longest(rtts)->0 by {
            if i < n {
                assert(front[i] == rtts[i]);
            }
        }
        if front.len() > 0 {
            let i = choose|i: int| 0 <= i < front.len() && front[i] == longest(front)->0;
            assert(rtts[i] == longest(front)->0);
            let j = choose|j: int| 0 <= j < front.len() && front[j] == shortest(front)->0;
            assert(rtts[j] == shortest(front)->0);
        }
    }
}

/// The longest round-trip time never becomes shorter, and the shortest one never
/// longer.
pub proof fn law_extremes_only_spread(rtts: Seq<u128>, rtt: u128)
    requires
        rtts.len() > 0,
    ensures
        longest(rtts.push(rtt))->0 >= longest(rtts)->0,
        shortest(rtts.push(rtt))->0 <= shortest(rtts)->0,
{
    assert(rtts.push(rtt).drop_last() =~= rtts);
    law_extremes_bound_all_times(rtts);
}

/// A hop is lossy when more than one in twenty of its probes went unanswered. One
/// more reply never makes it lossy, and one more lost probe never makes it stop
/// being lossy.
pub proof fn law_lossy_above_one_in_twenty(sent: nat, received: nat)
    requires
        received <= sent,
    ensures
        too_many_lost(sent, received) <==> 20 * (sent - received) > sent,
        any_lost(sent, received) <==> received != sent,
        too_many_lost(sent, received) ==> any_lost(sent, received),
        too_many_lost(sent, received + 1) ==> too_many_lost(sent, received),
        too_many_lost(sent, received) ==> too_many_lost(sent + 1, received),
{
}

/// Where more replies than probes are counted, none is taken for lost.
pub proof fn law_surplus_replies_are_no_loss(sent: nat, received: nat)
    requires
        received > sent,
    ensures
        !any_lost(sent, received),
        !too_many_lost(sent, received),
{
}

} // verus!
