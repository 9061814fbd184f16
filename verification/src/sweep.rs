//! A sweep: each hop is probed so many times, until the target is reached.
use vstd::prelude::*;

use crate::address::Ipv4Address;
use crate::hop::{HopReport, HopState};
use crate::probe::next_sequence_number;
use crate::reply::MatchedReply;

verus! {

/// A sweep over the hops. While it is not finished, it is at the hop `hop`. Once
/// the time to live is set to that of the hop, a probe of it is on its way, and
/// counted; before, the hop is as it was.
#[derive(Debug)]
pub struct Sweep {
    pub target: Ipv4Address,
    /// How often each hop is probed.
    pub count: u16,
    pub reports: Vec<HopReport>,
    /// The place in `reports` of the hop that is probed.
    pub hop: usize,
    /// Whether the time to live is that of the hop.
    pub aimed: bool,
    /// Whether a probe of that hop has reached the target.
    pub reached: bool,
    pub finished: bool,
    /// The sequence number of the probe on its way, or of the next one.
    pub sequence_number: u16,
}

/// What to do next in a sweep.
#[derive(Debug, Clone, Copy, PartialEq, Eq)]
pub enum SweepStep {
    /// Set the time to live of the probes to come.
    SetTtl { ttl: u8 },
    /// Send a probe and wait for its reply.
    Probe { ttl: u8, sequence_number: u16 },
    /// The sweep is finished.
    Finished,
}

/// A `Sweep`, with the sequence of its reports.
pub struct SweepState {
    pub target: Ipv4Address,
    pub count: u16,
    pub reports: Seq<HopState>,
    pub hop: int,
    pub aimed: bool,
    pub reached: bool,
    pub finished: bool,
    pub sequence_number: u16,
}

impl View for Sweep {
    type V = SweepState;

    open spec fn view(&self) -> SweepState {
        SweepState {
            target: self.target,
            count: self.count,
            reports: crate::hop::states(self.reports@),
            hop: self.hop as int,
            aimed: self.aimed,
            reached: self.reached,
            finished: self.finished,
            sequence_number: self.sequence_number,
        }
    }
}

/// The hop after one more reply, or after the time for it has run out.
pub open spec fn with_outcome(report: HopState, outcome: Option<MatchedReply>) -> HopState {
    match outcome {
        Some(reply) => report.replied(reply.source_ip, reply.rtt_nanos),
        None => report,
    }
}

impl SweepState {
    /// The sweep at the hop `hop`, whose time to live is not set yet; finished,
    /// if there is no such hop.
    pub open spec fn entering(self, hop: int) -> SweepState {
        if hop < self.reports.len() {
            SweepState { hop, aimed: false, reached: false, ..self }
        } else {
            SweepState { finished: true, ..self }
        }
    }

    /// The sweep once the time to live is that of its hop: the hop begins the
    /// sweep, and its first probe is on its way.
    pub open spec fn ready(self) -> SweepState {
        if self.finished || self.aimed {
            self
        } else {
            SweepState {
                reports: self.reports.update(self.hop, self.reports[self.hop].begun().probed()),
                aimed: true,
                ..self
            }
        }
    }

    /// What to do next.
    pub open spec fn next_step(self) -> SweepStep {
        if self.finished {
            SweepStep::Finished
        } else if self.aimed {
            SweepStep::Probe {
                ttl: self.reports[self.hop].ttl,
                sequence_number: self.sequence_number,
            }
        } else {
            SweepStep::SetTtl { ttl: self.reports[self.hop].ttl }
        }
    }

    /// The sweep before anything was done.
    pub open spec fn started(
        reports: Seq<HopState>,
        target: Ipv4Address,
        count: u16,
        sequence_number: u16,
    ) -> SweepState {
        SweepState {
            target,
            count,
            reports,
            hop: 0,
            aimed: false,
            reached: false,
            finished: false,
            sequence_number,
        }.entering(0)
    }

    /// A probe is on its way, and counted, and there are not more replies than
    /// probes before it.
    pub open spec fn pending(self) -> bool {
        &&& 0 < self.reports[self.hop].sweep_sent <= self.count
        &&& self.reports[self.hop].sweep_received < self.reports[self.hop].sweep_sent
    }

    /// The counts of probes have room for the probes that are still to be sent.
    pub open spec fn has_room(self) -> bool {
        &&& self.aimed ==> self.reports[self.hop].sent + self.count
            - self.reports[self.hop].sweep_sent <= u64::MAX
        &&& forall|i: int|
            (if self.aimed {
                self.hop + 1
            } else {
                self.hop
            }) <= i < self.reports.len() ==> (#[trigger] self.reports[i]).sent + self.count
                <= u64::MAX
    }

    /// The sweep is finished, or at a hop; where the time to live is that of the
    /// hop, a probe is on its way.
    pub open spec fn wf(self) -> bool {
        self.finished || {
            &&& self.count > 0
            &&& 0 <= self.hop < self.reports.len()
            &&& self.aimed ==> self.pending()
            &&& self.has_room()
        }
    }

    /// The sweep after the outcome of the probe on its way. The next probe is of
    /// the same hop, until it was probed often enough. Then it is of the next
    /// one, unless the hop was the target.
    pub open spec fn advanced(self, outcome: Option<MatchedReply>) -> SweepState {
        let report = with_outcome(self.reports[self.hop], outcome);
        let next = SweepState {
            reports: self.reports.update(self.hop, report),
            reached: self.reached || crate::probe::outcome_reaches(outcome, self.target),
            sequence_number: crate::probe::successor(self.sequence_number),
            ..self
        };
        if report.sweep_sent < self.count {
            SweepState { reports: next.reports.update(self.hop, report.probed()), ..next }
        } else if next.reached {
            SweepState { finished: true, ..next }
        } else {
            next.entering(self.hop + 1)
        }
    }

    /// The sweep after the probes whose outcomes are `outcomes`.
    pub open spec fn after(self, outcomes: Seq<Option<MatchedReply>>) -> SweepState
        decreases outcomes.len(),
    {
        if outcomes.len() == 0 {
            self
        } else {
            self.after(outcomes.drop_last()).ready().advanced(outcomes.last())
        }
    }
}

impl Sweep {
    /// Starts a sweep.
    pub fn start(
        reports: Vec<HopReport>,
        target: Ipv4Address,
        count: u16,
        sequence_number: u16,
    ) -> (sweep: Self)
        requires
            count > 0,
            forall|i: int|
                0 <= i < reports.len() ==> (#[trigger] reports@[i]).statistics.sent + count
                    <= u64::MAX,
        ensures
            sweep@ == SweepState::started(
                crate::hop::states(reports@),
                target,
                count,
                sequence_number,
            ),
            sweep@.wf(),
    {
        let mut sweep: Sweep = Sweep {
            target,
            count,
            reports,
            hop: 0,
            aimed: false,
            reached: false,
            finished: false,
            sequence_number,
        };
        sweep.enter(0);
        sweep
    }

    /// Goes to a hop.
    fn enter(&mut self, hop: usize)
        requires
            old(self).count > 0,
            !old(self).finished,
            forall|i: int|
                hop <= i < old(self)@.reports.len() ==> (#[trigger] old(self)@.reports[i]).sent
                    + old(self).count <= u64::MAX,
        ensures
            final(self)@ == old(self)@.entering(hop as int),
            final(self)@.wf(),
    {
        if hop < self.reports.len() {
            self.hop = hop;
            self.aimed = false;
            self.reached = false;
        } else {
            self.finished = true;
        }
    }

    /// What to do next.
    pub fn step(&self) -> (step: SweepStep)
        requires
            self@.wf(),
        ensures
            step == self@.next_step(),
    {
        if self.finished {
            SweepStep::Finished
        } else {
            let ttl: u8 = self.reports[self.hop].ttl;
            if self.aimed {
                SweepStep::Probe { ttl, sequence_number: self.sequence_number }
            } else {
                SweepStep::SetTtl { ttl }
            }
        }
    }

    /// Takes note that the time to live is now that of the hop.
    pub fn begin_hop(&mut self)
        requires
            old(self)@.wf(),
            old(self)@.next_step() is SetTtl,
        ensures
            final(self)@ == old(self)@.ready(),
            final(self)@.wf(),
    {
        let hop: usize = self.hop;
        assert(self@.reports[hop as int] == self.reports@[hop as int]@);
        self.reports[hop].begin_sweep();
        self.reports[hop].record_probe_sent();
        self.aimed = true;
        assert(self@.reports =~= old(self)@.ready().reports);
    }

    /// Takes in the outcome of the probe that was to be sent.
    pub fn advance(&mut self, outcome: Option<MatchedReply>)
        requires
            old(self)@.wf(),
            old(self)@.next_step() is Probe,
        ensures
            final(self)@ == old(self)@.advanced(outcome),
            final(self)@.wf(),
    {
        let hop: usize = self.hop;
        assert(hop < self.reports.len());
        assert(self@.reports[hop as int] == self.reports@[hop as int]@);
        match outcome {
            Some(reply) => {
                self.reports[hop].record_reply(reply.source_ip, reply.rtt_nanos);
                if reply.reached(self.target) {
                    self.reached = true;
                }
            },
            None => {},
        }
        let ghost report: HopState = with_outcome(old(self)@.reports[hop as int], outcome);
        assert(self@.reports =~= old(self)@.reports.update(hop as int, report));
        self.sequence_number = next_sequence_number(self.sequence_number);
        if self.reports[hop].sweep_sent < self.count {
            self.reports[hop].record_probe_sent();
            assert(self@.reports =~= old(self)@.advanced(outcome).reports);
        } else if self.reached {
            self.finished = true;
        } else {
            self.enter(hop + 1);
        }
    }
}

/// The hop after a sweep in which it was probed with the outcomes `outcomes`.
pub open spec fn swept(report: HopState, outcomes: Seq<Option<MatchedReply>>) -> HopState
    decreases outcomes.len(),
{
    if outcomes.len() == 0 {
        report.begun()
    } else {
        with_outcome(swept(report, outcomes.drop_last()).probed(), outcomes.last())
    }
}

/// One of the outcomes is an Echo Reply from the target.
pub open spec fn any_reaches(outcomes: Seq<Option<MatchedReply>>, target: Ipv4Address) -> bool {
    exists|i: int|
        0 <= i < outcomes.len() && crate::probe::outcome_reaches(#[trigger] outcomes[i], target)
}

/// How many of the outcomes are replies.
pub open spec fn replies(outcomes: Seq<Option<MatchedReply>>) -> nat
    decreases outcomes.len(),
{
    if outcomes.len() == 0 {
        0
    } else {
        replies(outcomes.drop_last()) + if outcomes.last() is Some {
            1nat
        } else {
            0nat
        }
    }
}

/// The outcomes of the probes of the `i`-th hop, where each is probed `count`
/// times.
pub open spec fn hop_outcomes(
    outcomes: Seq<Option<MatchedReply>>,
    count: u16,
    i: int,
) -> Seq<Option<MatchedReply>> {
    outcomes.subrange(i * count, (i + 1) * count)
}

/// The probes whose outcomes are `outcomes` were all asked for: the sweep was
/// not finished before the last of them.
pub open spec fn all_asked_for(start: SweepState, outcomes: Seq<Option<MatchedReply>>) -> bool
    decreases outcomes.len(),
{
    outcomes.len() == 0 || (all_asked_for(start, outcomes.drop_last()) && !start.after(
        outcomes.drop_last(),
    ).finished)
}

/// The round-trip times of the replies among the outcomes.
pub open spec fn reply_times(outcomes: Seq<Option<MatchedReply>>) -> Seq<u128>
    decreases outcomes.len(),
{
    if outcomes.len() == 0 {
        Seq::empty()
    } else {
        match outcomes.last() {
            Some(reply) => reply_times(outcomes.drop_last()).push(reply.rtt_nanos),
            None => reply_times(outcomes.drop_last()),
        }
    }
}

/// What a sweep does to a hop: it keeps its time to live, and its host once it
/// has one; else the first host to reply becomes its host. The probes and the
/// replies are counted, and the times of the replies are added to those that
/// were measured before.
pub proof fn law_swept_hop(report: HopState, outcomes: Seq<Option<MatchedReply>>)
    requires
        outcomes.len() <= u16::MAX,
    ensures
        swept(report, outcomes).ttl == report.ttl,
        swept(report, outcomes).sent == report.sent + outcomes.len(),
        swept(report, outcomes).rtts == report.rtts + reply_times(outcomes),
        reply_times(outcomes).len() == replies(outcomes),
        swept(report, outcomes).sweep_sent == outcomes.len(),
        swept(report, outcomes).sweep_received == replies(outcomes),
        replies(outcomes) <= outcomes.len(),
        report.host is Some ==> swept(report, outcomes).host == report.host,
        report.host is None && replies(outcomes) == 0 ==> swept(report, outcomes).host is None,
        report.host is None && replies(outcomes) > 0 ==> exists|i: int|
            0 <= i < outcomes.len() && (#[trigger] outcomes[i] matches Some(reply)
                && swept(report, outcomes).host == Some(reply.source_ip)) && replies(
                outcomes.take(i),
            ) == 0,
    decreases outcomes.len(),
{
    if outcomes.len() > 0 {
        let front = outcomes.drop_last();
        law_swept_hop(report, front);
        if report.host is None && replies(outcomes) > 0 {
            if replies(front) > 0 {
                let i = choose|i: int|
                    0 <= i < front.len() && (#[trigger] front[i] matches Some(reply)
                        && swept(report, front).host == Some(reply.source_ip)) && replies(
                        front.take(i),
                    ) == 0;
                assert(outcomes[i] == front[i]);
                assert(outcomes.take(i) =~= front.take(i));
            } else {
                let i = outcomes.len() - 1;
                assert(outcomes.take(i) =~= front);
                assert(outcomes[i] is Some);
            }
        }
    }
}

/// A hop has never more replies than probes, and a sweep keeps it so. A probe
/// that goes unanswered in a sweep is never forgotten.
pub proof fn law_replies_never_exceed_probes(report: HopState, outcomes: Seq<Option<MatchedReply>>)
    requires
        report.rtts.len() <= report.sent,
        outcomes.len() <= u16::MAX,
    ensures
        swept(report, outcomes).rtts.len() <= swept(report, outcomes).sent,
        crate::stats::any_lost(swept(report, outcomes).sent, swept(report, outcomes).rtts.len())
            == (crate::stats::any_lost(report.sent, report.rtts.len()) || swept(
            report,
            outcomes,
        ).had_loss()),
{
    law_swept_hop(report, outcomes);
}

/// What a sweep that is not finished has done.
pub open spec fn done_so_far(
    state: SweepState,
    reports: Seq<HopState>,
    target: Ipv4Address,
    count: u16,
    first_sequence: u16,
    outcomes: Seq<Option<MatchedReply>>,
) -> bool {
    let current = outcomes.skip(state.hop * count);
    &&& state.target == target
    &&& state.count == count
    &&& state.reports.len() == reports.len()
    // The probes have taken a sequence number each.
    &&& state.sequence_number == crate::probe::nth_successor(first_sequence, outcomes.len())
    // The hop that is probed comes after those that were probed often enough.
    &&& 0 <= state.hop < reports.len()
    &&& state.hop * count <= outcomes.len() < (state.hop + 1) * count
    // It holds the outcomes of its own probes, and counts the one on its way.
    &&& state.aimed == (state.hop * count < outcomes.len())
    &&& state.ready().reports[state.hop] == swept(reports[state.hop], current).probed()
    &&& state.reached == any_reaches(current, target)
    // Until its time to live is set, it is as it was.
    &&& !state.aimed ==> state.reports[state.hop] == reports[state.hop]
    // The hops before it hold the outcomes of their probes, none of which
    // reached the target.
    &&& forall|i: int|
        0 <= i < state.hop ==> #[trigger] state.reports[i] == swept(
            reports[i],
            hop_outcomes(outcomes, count, i),
        ) && !any_reaches(hop_outcomes(outcomes, count, i), target)
    // The hops behind it are as they were.
    &&& forall|i: int|
        state.hop < i < reports.len() ==> #[trigger] state.reports[i] == reports[i]
}

/// What a sweep has done when it is finished.
pub open spec fn sweep_done(
    state: SweepState,
    reports: Seq<HopState>,
    target: Ipv4Address,
    count: u16,
    first_sequence: u16,
    outcomes: Seq<Option<MatchedReply>>,
    hops: int,
) -> bool {
    &&& 0 <= hops <= reports.len()
    &&& outcomes.len() == hops * count
    &&& state.reports.len() == reports.len()
    // The hops that were probed hold the outcomes of their own probes.
    &&& forall|i: int|
        0 <= i < hops ==> #[trigger] state.reports[i] == swept(
            reports[i],
            hop_outcomes(outcomes, count, i),
        )
    // The others are as they were.
    &&& forall|i: int| hops <= i < reports.len() ==> #[trigger] state.reports[i] == reports[i]
    // None but the last reached the target.
    &&& forall|i: int|
        0 <= i < hops - 1 ==> !any_reaches(#[trigger] hop_outcomes(outcomes, count, i), target)
    // The last one did, or there are no more.
    &&& hops == reports.len() || (hops > 0 && any_reaches(
        hop_outcomes(outcomes, count, hops - 1),
        target,
    ))
    &&& state.sequence_number == crate::probe::nth_successor(first_sequence, outcomes.len())
}

proof fn lemma_later_outcome(
    outcomes: Seq<Option<MatchedReply>>,
    last: Option<MatchedReply>,
    count: u16,
    hop: int,
)
    requires
        hop * count <= outcomes.len(),
    ensures
        forall|i: int|
            0 <= i < hop ==> #[trigger] hop_outcomes(outcomes.push(last), count, i)
                == hop_outcomes(outcomes, count, i),
{
    assert forall|i: int| 0 <= i < hop implies #[trigger] hop_outcomes(
        outcomes.push(last),
        count,
        i,
    ) == hop_outcomes(outcomes, count, i) by {
        assert(0 <= i * count <= (i + 1) * count <= hop * count) by (nonlinear_arith)
            requires
                0 <= i < hop,
                0 <= count,
        ;
        assert(hop_outcomes(outcomes.push(last), count, i) =~= hop_outcomes(outcomes, count, i));
    }
}

proof fn lemma_any_reaches_push(
    outcomes: Seq<Option<MatchedReply>>,
    last: Option<MatchedReply>,
    target: Ipv4Address,
)
    ensures
        any_reaches(outcomes.push(last), target) == (any_reaches(outcomes, target)
            || crate::probe::outcome_reaches(last, target)),
{
    let all = outcomes.push(last);
    if any_reaches(outcomes, target) {
        let i = choose|i: int|
            0 <= i < outcomes.len() && crate::probe::outcome_reaches(
                #[trigger] outcomes[i],
                target,
            );
        assert(crate::probe::outcome_reaches(all[i], target));
    }
    if crate::probe::outcome_reaches(last, target) {
        assert(crate::probe::outcome_reaches(all[outcomes.len() as int], target));
    }
    if any_reaches(all, target) {
        let i = choose|i: int|
            0 <= i < all.len() && crate::probe::outcome_reaches(#[trigger] all[i], target);
        if i < outcomes.len() {
            assert(crate::probe::outcome_reaches(outcomes[i], target));
        }
    }
}

proof fn lemma_sweep_step(
    state: SweepState,
    reports: Seq<HopState>,
    target: Ipv4Address,
    count: u16,
    first_sequence: u16,
    outcomes: Seq<Option<MatchedReply>>,
    last: Option<MatchedReply>,
)
    requires
        count > 0,
        !state.finished,
        done_so_far(state, reports, target, count, first_sequence, outcomes),
    ensures
        ({
            let next = state.ready().advanced(last);
            let all = outcomes.push(last);
            if next.finished {
                sweep_done(
                    next,
                    reports,
                    target,
                    count,
                    first_sequence,
                    all,
                    (state.hop + 1) as int,
                )
            } else {
                done_so_far(next, reports, target, count, first_sequence, all)
            }
        }),
{
    let ready = state.ready();
    let next = ready.advanced(last);
    let all = outcomes.push(last);
    let hop = state.hop;
    let current = outcomes.skip(hop * count);
    let extended = all.skip(hop * count);
    assert(0 <= hop * count) by (nonlinear_arith)
        requires
            0 <= hop,
            0 <= count,
    ;
    assert((hop + 1) * count == hop * count + count) by (nonlinear_arith);
    assert((hop + 1 + 1) * count == hop * count + 2 * count) by (nonlinear_arith);
    assert(extended =~= current.push(last));
    assert(extended.drop_last() =~= current);
    law_swept_hop(reports[hop], current);
    law_swept_hop(reports[hop], extended);
    lemma_any_reaches_push(current, last, target);
    lemma_later_outcome(outcomes, last, count, hop);
    let report = with_outcome(ready.reports[hop], last);
    assert(report == swept(reports[hop], extended));
    assert(report.sweep_sent == extended.len());
    if report.sweep_sent < count {
        assert(next.hop == hop);
        assert forall|i: int| 0 <= i < hop implies #[trigger] next.reports[i] == swept(
            reports[i],
            hop_outcomes(all, count, i),
        ) && !any_reaches(hop_outcomes(all, count, i), target) by {
            assert(next.reports[i] == state.reports[i]);
        }
    } else {
        assert(all.len() == (hop + 1) * count);
        assert(hop_outcomes(all, count, hop) =~= extended);
        assert forall|i: int| 0 <= i < hop + 1 implies #[trigger] next.reports[i] == swept(
            reports[i],
            hop_outcomes(all, count, i),
        ) by {
            if i < hop {
                assert(next.reports[i] == state.reports[i]);
            }
        }
        assert forall|i: int| 0 <= i < hop implies !any_reaches(
            #[trigger] hop_outcomes(all, count, i),
            target,
        ) by {
            assert(state.reports[i] == swept(reports[i], hop_outcomes(outcomes, count, i)));
        }
        if !next.finished {
            let rest = all.skip((hop + 1) * count);
            assert(rest =~= Seq::<Option<MatchedReply>>::empty());
            assert(!any_reaches(rest, target));
            assert(next.reports[hop + 1] == reports[hop + 1]);
        }
    }
}

proof fn lemma_sweep(
    reports: Seq<HopState>,
    target: Ipv4Address,
    count: u16,
    first_sequence: u16,
    outcomes: Seq<Option<MatchedReply>>,
)
    requires
        count > 0,
        reports.len() > 0,
        all_asked_for(SweepState::started(reports, target, count, first_sequence), outcomes),
    ensures
        ({
            let state = SweepState::started(reports, target, count, first_sequence).after(outcomes);
            if state.finished {
                exists|hops: int|
                    sweep_done(state, reports, target, count, first_sequence, outcomes, hops)
            } else {
                done_so_far(state, reports, target, count, first_sequence, outcomes)
            }
        }),
    decreases outcomes.len(),
{
    let start = SweepState::started(reports, target, count, first_sequence);
    if outcomes.len() == 0 {
        assert(outcomes.skip(0) =~= Seq::<Option<MatchedReply>>::empty());
        assert(0 * count == 0) by (nonlinear_arith);
        assert((0 + 1) * count == count) by (nonlinear_arith);
        assert(!any_reaches(outcomes.skip(0), target));
    } else {
        let front = outcomes.drop_last();
        lemma_sweep(reports, target, count, first_sequence, front);
        let state = start.after(front);
        lemma_sweep_step(state, reports, target, count, first_sequence, front, outcomes.last());
        assert(front.push(outcomes.last()) =~= outcomes);
    }
}

/// What a finished sweep has done: it probed the hops in their order, each as
/// often as it should, up to and with the first that reached the target. Each of
/// them holds the outcomes of its own probes, the hops behind are as they were,
/// and the probes had consecutive sequence numbers.
pub proof fn law_sweep_probes_up_to_the_target(
    reports: Seq<HopState>,
    target: Ipv4Address,
    count: u16,
    first_sequence: u16,
    outcomes: Seq<Option<MatchedReply>>,
)
    requires
        count > 0,
        all_asked_for(SweepState::started(reports, target, count, first_sequence), outcomes),
        SweepState::started(reports, target, count, first_sequence).after(outcomes).finished,
    ensures
        exists|hops: int|
            sweep_done(
                SweepState::started(reports, target, count, first_sequence).after(outcomes),
                reports,
                target,
                count,
                first_sequence,
                outcomes,
                hops,
            ),
{
    let start = SweepState::started(reports, target, count, first_sequence);
    if reports.len() > 0 {
        lemma_sweep(reports, target, count, first_sequence, outcomes);
    } else {
        assert(start.finished);
        if outcomes.len() > 0 {
            lemma_nothing_after_finished(start, outcomes);
        }
        assert(0 * count == 0) by (nonlinear_arith);
        assert(sweep_done(start, reports, target, count, first_sequence, outcomes, 0));
    }
}

/// A sweep that is finished from the start asks for no probe.
proof fn lemma_nothing_after_finished(start: SweepState, outcomes: Seq<Option<MatchedReply>>)
    requires
        start.finished,
        outcomes.len() > 0,
    ensures
        !all_asked_for(start, outcomes),
    decreases outcomes.len(),
{
    if outcomes.len() > 1 {
        lemma_nothing_after_finished(start, outcomes.drop_last());
    }
}

/// What a sweep leaves that ends before it is finished, because a probe cannot be
/// sent or its reply cannot be received. The hop of that probe counts the probe,
/// and holds the outcomes of those before it; the hops before it keep what the
/// sweep recorded, the hops behind it are as they were, and the sequence number
/// has gone on by one for each earlier probe.
pub proof fn law_unfinished_sweep(
    reports: Seq<HopState>,
    target: Ipv4Address,
    count: u16,
    first_sequence: u16,
    outcomes: Seq<Option<MatchedReply>>,
)
    requires
        count > 0,
        all_asked_for(SweepState::started(reports, target, count, first_sequence), outcomes),
        !SweepState::started(reports, target, count, first_sequence).after(outcomes).finished,
    ensures
        ({
            let state = SweepState::started(reports, target, count, first_sequence).after(outcomes);
            let sending = state.ready();
            let current = outcomes.skip(state.hop * count);
            &&& done_so_far(state, reports, target, count, first_sequence, outcomes)
            &&& sending.next_step() is Probe
            &&& sending.sequence_number == crate::probe::nth_successor(
                first_sequence,
                outcomes.len(),
            )
            &&& sending.hop == state.hop
            &&& sending.reports.len() == reports.len()
            &&& sending.reports[state.hop].sweep_sent == outcomes.len() - state.hop * count + 1
            &&& sending.reports[state.hop].sweep_received == replies(current)
            &&& sending.reports[state.hop].sent == reports[state.hop].sent + outcomes.len()
                - state.hop * count + 1
            &&& sending.reports[state.hop].rtts == reports[state.hop].rtts + reply_times(current)
            &&& forall|i: int|
                0 <= i < state.hop ==> #[trigger] sending.reports[i] == swept(
                    reports[i],
                    hop_outcomes(outcomes, count, i),
                )
            &&& forall|i: int|
                state.hop < i < reports.len() ==> #[trigger] sending.reports[i] == reports[i]
        }),
{
    let start = SweepState::started(reports, target, count, first_sequence);
    if reports.len() > 0 {
        lemma_sweep(reports, target, count, first_sequence, outcomes);
        let state = start.after(outcomes);
        let sending = state.ready();
        let current = outcomes.skip(state.hop * count);
        assert((state.hop + 1) * count == state.hop * count + count) by (nonlinear_arith);
        assert(0 <= state.hop * count) by (nonlinear_arith)
            requires
                0 <= state.hop,
                0 <= count,
        ;
        law_swept_hop(reports[state.hop], current);
        assert forall|i: int| 0 <= i < state.hop implies #[trigger] sending.reports[i] == swept(
            reports[i],
            hop_outcomes(outcomes, count, i),
        ) by {
            assert(sending.reports[i] == state.reports[i]);
        }
        assert forall|i: int|
            state.hop < i < reports.len() implies #[trigger] sending.reports[i] == reports[i] by {
            assert(sending.reports[i] == state.reports[i]);
        }
    } else if outcomes.len() > 0 {
        lemma_nothing_after_finished(start, outcomes);
    }
}

/// Each hop has its time to live set before its first probe, and only then: the
/// sweep asks for it where the probes of the hop before are done. Until it is
/// set, the hop and those behind it are as they were.
pub proof fn law_hop_is_untouched_until_its_ttl_is_set(
    reports: Seq<HopState>,
    target: Ipv4Address,
    count: u16,
    first_sequence: u16,
    outcomes: Seq<Option<MatchedReply>>,
)
    requires
        count > 0,
        all_asked_for(SweepState::started(reports, target, count, first_sequence), outcomes),
        !SweepState::started(reports, target, count, first_sequence).after(outcomes).finished,
    ensures
        ({
            let state = SweepState::started(reports, target, count, first_sequence).after(outcomes);
            &&& state.hop * count <= outcomes.len() < (state.hop + 1) * count
            &&& state.next_step() is SetTtl <==> outcomes.len() == state.hop * count
            &&& state.next_step() is SetTtl ==> forall|i: int|
                state.hop <= i < reports.len() ==> #[trigger] state.reports[i] == reports[i]
        }),
{
    if reports.len() > 0 {
        lemma_sweep(reports, target, count, first_sequence, outcomes);
    } else if outcomes.len() > 0 {
        lemma_nothing_after_finished(
            SweepState::started(reports, target, count, first_sequence),
            outcomes,
        );
    }
}

/// A sweep asks for no more than `count` probes of each hop, so it finishes.
pub proof fn law_sweep_finishes(
    reports: Seq<HopState>,
    target: Ipv4Address,
    count: u16,
    first_sequence: u16,
    outcomes: Seq<Option<MatchedReply>>,
)
    requires
        count > 0,
        all_asked_for(SweepState::started(reports, target, count, first_sequence), outcomes),
        !SweepState::started(reports, target, count, first_sequence).after(outcomes).finished,
    ensures
        outcomes.len() < reports.len() * count,
{
    let start = SweepState::started(reports, target, count, first_sequence);
    if reports.len() > 0 {
        lemma_sweep(reports, target, count, first_sequence, outcomes);
        let hop = start.after(outcomes).hop;
        assert((hop + 1) * count <= reports.len() * count) by (nonlinear_arith)
            requires
                hop + 1 <= reports.len(),
                0 <= count,
        ;
    } else {
        if outcomes.len() > 0 {
            lemma_nothing_after_finished(start, outcomes);
        }
    }
}

/// What a sweep asks for next is about the hop at which it is: the time to live
/// is that of its report, in setting it and in the probe alike, and the probe has
/// the sequence number of the sweep.
pub proof fn law_step_is_about_the_hop(state: SweepState)
    ensures
        state.next_step() is Finished <==> state.finished,
        state.next_step() matches SweepStep::SetTtl { ttl } ==> ttl == state.reports[state.hop].ttl
            && !state.aimed,
        state.next_step() matches SweepStep::Probe { ttl, sequence_number } ==> ttl
            == state.reports[state.hop].ttl && sequence_number == state.sequence_number
            && state.aimed,
{
}

/// The order of a sweep: the hops are probed in the order of their reports, each
/// `count` times, with its own time to live, which is set once before its first
/// probe. The probes have consecutive sequence numbers.
pub proof fn law_sweep_asks_in_order(
    reports: Seq<HopState>,
    target: Ipv4Address,
    count: u16,
    first_sequence: u16,
    outcomes: Seq<Option<MatchedReply>>,
)
    requires
        count > 0,
        all_asked_for(SweepState::started(reports, target, count, first_sequence), outcomes),
        !SweepState::started(reports, target, count, first_sequence).after(outcomes).finished,
    ensures
        ({
            let state = SweepState::started(reports, target, count, first_sequence).after(outcomes);
            let hop = outcomes.len() as int / count as int;
            &&& 0 <= hop < reports.len()
            &&& outcomes.len() as int % count as int == 0 ==> state.next_step() == (
            SweepStep::SetTtl { ttl: reports[hop].ttl })
            &&& state.ready().next_step() == (SweepStep::Probe {
                ttl: reports[hop].ttl,
                sequence_number: crate::probe::nth_successor(first_sequence, outcomes.len()),
            })
            &&& outcomes.len() as int % count as int != 0 ==> state.next_step()
                == state.ready().next_step()
        }),
{
    let start = SweepState::started(reports, target, count, first_sequence);
    if reports.len() > 0 {
        lemma_sweep(reports, target, count, first_sequence, outcomes);
        let state = start.after(outcomes);
        let current = outcomes.skip(state.hop * count);
        assert((state.hop + 1) * count == state.hop * count + count) by (nonlinear_arith);
        assert(0 <= state.hop * count) by (nonlinear_arith)
            requires
                0 <= state.hop,
                0 <= count,
        ;
        law_swept_hop(reports[state.hop], current);
        let rest = outcomes.len() - state.hop * count;
        assert(outcomes.len() == state.hop * count + rest);
        vstd::arithmetic::div_mod::lemma_fundamental_div_mod_converse(
            outcomes.len() as int,
            count as int,
            state.hop,
            rest,
        );
    } else if outcomes.len() > 0 {
        lemma_nothing_after_finished(start, outcomes);
    }
}

/// One more probe of a hop in a sweep: it is counted, and an answer is counted
/// with its time and gives the hop its host, if it has none yet.
pub proof fn law_one_more_probe(
    report: HopState,
    outcomes: Seq<Option<MatchedReply>>,
    outcome: Option<MatchedReply>,
)
    requires
        outcomes.len() < u16::MAX,
    ensures
        ({
            let before = swept(report, outcomes);
            let after = swept(report, outcomes.push(outcome));
            &&& after.ttl == before.ttl
            &&& after.sent == before.sent + 1
            &&& after.sweep_sent == before.sweep_sent + 1
            &&& match outcome {
                Some(reply) => {
                    &&& after.rtts == before.rtts.push(reply.rtt_nanos)
                    &&& after.sweep_received == before.sweep_received + 1
                    &&& after.host == (if before.host is Some {
                        before.host
                    } else {
                        Some(reply.source_ip)
                    })
                },
                None => {
                    &&& after.rtts == before.rtts
                    &&& after.sweep_received == before.sweep_received
                    &&& after.host == before.host
                },
            }
        }),
{
    law_swept_hop(report, outcomes);
    law_swept_hop(report, outcomes.push(outcome));
    assert(outcomes.push(outcome).drop_last() =~= outcomes);
}

/// A hop before its first probe of a sweep is as it was, but for the counts of
/// the sweep, which start at zero.
pub proof fn law_no_probe_yet(report: HopState)
    ensures
        ({
            let hop = swept(report, Seq::empty());
            &&& hop.sweep_sent == 0
            &&& hop.sweep_received == 0
            &&& hop.ttl == report.ttl
            &&& hop.host == report.host
            &&& hop.sent == report.sent
            &&& hop.rtts == report.rtts
        }),
{
}

/// A sweep reaches the target through the Echo Reply (type 0) of the target
/// itself to some probe, and through nothing else.
pub proof fn law_target_ends_the_sweep(outcomes: Seq<Option<MatchedReply>>, target: Ipv4Address)
    ensures
        any_reaches(outcomes, target) <==> exists|i: int|
            0 <= i < outcomes.len() && (#[trigger] outcomes[i] matches Some(reply)
                && reply.icmp_type == 0 && reply.source_ip == target),
{
    assert forall|i: int| 0 <= i < outcomes.len() implies (crate::probe::outcome_reaches(
        #[trigger] outcomes[i],
        target,
    ) <==> (outcomes[i] matches Some(reply) && reply.icmp_type == 0 && reply.source_ip
        == target)) by {
        crate::probe::law_probe_reaches_by_echo_reply(outcomes[i], target);
    }
    if exists|i: int|
        0 <= i < outcomes.len() && (#[trigger] outcomes[i] matches Some(reply)
            && reply.icmp_type == 0 && reply.source_ip == target) {
        let i = choose|i: int|
            0 <= i < outcomes.len() && (#[trigger] outcomes[i] matches Some(reply)
                && reply.icmp_type == 0 && reply.source_ip == target);
        assert(crate::probe::outcome_reaches(outcomes[i], target));
    }
}

/// A sweep is seen as what it holds.
pub proof fn law_sweep_is_seen_as_it_is(sweep: Sweep)
    ensures
        sweep@.target == sweep.target,
        sweep@.count == sweep.count,
        sweep@.hop == sweep.hop,
        sweep@.aimed == sweep.aimed,
        sweep@.reached == sweep.reached,
        sweep@.finished == sweep.finished,
        sweep@.sequence_number == sweep.sequence_number,
        sweep@.reports.len() == sweep.reports@.len(),
        forall|i: int|
            0 <= i < sweep.reports@.len() ==> #[trigger] sweep@.reports[i] == sweep.reports@[i]@,
{
}

} // verus!
